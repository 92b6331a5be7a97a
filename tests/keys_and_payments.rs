use zcashlc::codec::{
    decode_recipient_address, encode_recipient_address, is_valid_shielded_address,
    is_valid_transparent_address, RecipientAddress, TransparentAddress,
};
use zcashlc::error::WalletError;
use zcashlc::keys::{
    derive_account, derive_extended_full_viewing_key, derive_extended_full_viewing_keys,
    derive_extended_spending_keys, derive_shielded_address_from_seed,
    derive_shielded_address_from_viewing_key, is_valid_viewing_key,
};
use zcashlc::network::Network;
use zcashlc::scan::{CompactBlock, CompactTx, ShieldedOutput};
use zcashlc::tables::UnifiedViewingKey;
use zcashlc::transparent::derive_transparent_address_from_public_key;
use zcashlc::wallet::{DecryptedNote, WalletState};

const SEED: [u8; 32] = [7u8; 32];

fn transparent_text(net: Network) -> String {
    let t = RecipientAddress::Transparent(TransparentAddress::PublicKey(vec![3u8; 20]));
    encode_recipient_address(&t, net).unwrap()
}

fn funded_wallet(values: &[u64]) -> WalletState {
    let mut w = bare_funded_wallet(values);
    w.init_accounts_table(&SEED, 2).unwrap();
    w
}

fn spending_key(account: i32) -> String {
    derive_account(&SEED, Network::TestNetwork, account).unwrap().spending_key
}

fn bare_funded_wallet(values: &[u64]) -> WalletState {
    let mut w = WalletState::new(Network::TestNetwork);
    let hex = format!("{}01", "0".repeat(62));
    w.init_blocks_table(1, &hex, 0).unwrap();
    let mut blocks = vec![];
    let mut decs = vec![];
    for (i, v) in values.iter().enumerate() {
        let h = 2 + i as u32;
        blocks.push(CompactBlock {
            height: h,
            hash: vec![h as u8; 32],
            prev_hash: vec![(h - 1) as u8; 32],
            time: 0,
            txs: vec![CompactTx {
                txid: vec![h as u8; 32],
                nullifiers: vec![],
                outputs: vec![ShieldedOutput { cmu: vec![], epk: vec![], ciphertext: vec![] }],
                transparent_inputs: vec![],
                transparent_outputs: vec![],
            }],
        });
        decs.push(vec![vec![Some(DecryptedNote {
            account: 0,
            value: *v,
            memo: vec![0xF6],
            nullifier: vec![h as u8; 32],
        })]]);
    }
    // Twelve empty blocks on top make every note spendable.
    for k in 0..12u32 {
        let h = 2 + values.len() as u32 + k;
        blocks.push(CompactBlock {
            height: h,
            hash: vec![h as u8; 32],
            prev_hash: vec![(h - 1) as u8; 32],
            time: 0,
            txs: vec![],
        });
    }
    w.scan_cached_blocks(&blocks, &decs, None).unwrap();
    w
}

#[test]
fn derive_account_is_deterministic() {
    let a = derive_account(&SEED, Network::TestNetwork, 0).unwrap();
    let b = derive_account(&SEED, Network::TestNetwork, 0).unwrap();
    assert_eq!(a.spending_key, b.spending_key);
    assert_eq!(a.viewing_key, b.viewing_key);
    assert_eq!(a.address, b.address);
    let c = derive_account(&SEED, Network::TestNetwork, 1).unwrap();
    assert_ne!(a.spending_key, c.spending_key);
    assert_ne!(a.address, c.address);
}

#[test]
fn derive_account_rejects_bad_input() {
    assert_eq!(derive_account(&SEED, Network::TestNetwork, -1).err(), Some(WalletError::InvalidArgument));
    assert_eq!(derive_account(&[1u8; 31], Network::TestNetwork, 0).err(), Some(WalletError::InvalidArgument));
}

#[test]
fn key_texts_carry_network_prefixes() {
    let test = derive_account(&SEED, Network::TestNetwork, 0).unwrap();
    assert!(test.spending_key.starts_with("secret-extended-key-test1"));
    assert!(test.viewing_key.starts_with("zxviewtestsapling1"));
    assert!(test.address.starts_with("ztestsapling1"));
    let main = derive_account(&SEED, Network::MainNetwork, 0).unwrap();
    assert!(main.spending_key.starts_with("secret-extended-key-main1"));
    assert!(main.viewing_key.starts_with("zxviews1"));
    assert!(main.address.starts_with("zs1"));
}

#[test]
fn batch_derivation_matches_single() {
    let sks = derive_extended_spending_keys(&SEED, 3, Network::TestNetwork).unwrap();
    let vks = derive_extended_full_viewing_keys(&SEED, 3, Network::TestNetwork).unwrap();
    assert_eq!(sks.len(), 3);
    for i in 0..3 {
        let k = derive_account(&SEED, Network::TestNetwork, i as i32).unwrap();
        assert_eq!(sks[i], k.spending_key);
        assert_eq!(vks[i], k.viewing_key);
        assert_eq!(derive_extended_full_viewing_key(&sks[i], Network::TestNetwork), Ok(k.viewing_key.clone()));
        assert_eq!(derive_shielded_address_from_viewing_key(&vks[i], Network::TestNetwork), Ok(k.address.clone()));
        assert_eq!(derive_shielded_address_from_seed(&SEED, i as i32, Network::TestNetwork), Ok(k.address));
    }
    assert_eq!(derive_extended_spending_keys(&SEED, 0, Network::TestNetwork), Err(WalletError::InvalidArgument));
    assert_eq!(derive_extended_full_viewing_keys(&SEED, -2, Network::TestNetwork), Err(WalletError::InvalidArgument));
}

#[test]
fn viewing_key_checks() {
    let k = derive_account(&SEED, Network::TestNetwork, 0).unwrap();
    assert!(is_valid_viewing_key(&k.viewing_key, Network::TestNetwork));
    assert!(!is_valid_viewing_key(&k.viewing_key, Network::MainNetwork));
    assert!(!is_valid_viewing_key(&k.spending_key, Network::TestNetwork));
    assert!(!is_valid_viewing_key("not a key", Network::TestNetwork));
    assert_eq!(
        derive_shielded_address_from_viewing_key(&k.spending_key, Network::TestNetwork),
        Err(WalletError::EncodingError)
    );
    assert_eq!(derive_extended_full_viewing_key(&k.viewing_key, Network::TestNetwork), Err(WalletError::EncodingError));
}

#[test]
fn shielded_address_round_trip() {
    let k = derive_account(&SEED, Network::TestNetwork, 0).unwrap();
    let a = decode_recipient_address(&k.address, Network::TestNetwork).unwrap();
    assert!(matches!(a, RecipientAddress::Shielded(ref b) if b.len() == 43));
    assert_eq!(encode_recipient_address(&a, Network::TestNetwork), Some(k.address.clone()));
    assert!(decode_recipient_address(&k.address, Network::MainNetwork).is_none());
    assert!(is_valid_shielded_address(&k.address, Network::TestNetwork));
    assert!(!is_valid_transparent_address(&k.address, Network::TestNetwork));
    assert!(!is_valid_shielded_address(&k.address, Network::MainNetwork));
}

#[test]
fn transparent_address_round_trip() {
    for net in [Network::TestNetwork, Network::MainNetwork] {
        let text = transparent_text(net);
        let other = if net == Network::TestNetwork { Network::MainNetwork } else { Network::TestNetwork };
        let a = decode_recipient_address(&text, net).unwrap();
        assert!(matches!(a, RecipientAddress::Transparent(TransparentAddress::PublicKey(ref h)) if *h == vec![3u8; 20]));
        assert_eq!(encode_recipient_address(&a, net), Some(text.clone()));
        assert!(decode_recipient_address(&text, other).is_none());
        assert!(is_valid_transparent_address(&text, net));
        assert!(!is_valid_shielded_address(&text, net));
    }
    let main = transparent_text(Network::MainNetwork);
    assert!(main.starts_with("t1"));
    let script = RecipientAddress::Transparent(TransparentAddress::Script(vec![1u8; 20]));
    let text = encode_recipient_address(&script, Network::MainNetwork).unwrap();
    assert!(text.starts_with("t3"));
    assert!(decode_recipient_address("garbage", Network::MainNetwork).is_none());
}

#[test]
fn negative_amount_is_refused() {
    let w = funded_wallet(&[5000]);
    let to = derive_account(&SEED, Network::TestNetwork, 1).unwrap().address;
    let notes_before = w.notes.len();
    assert_eq!(w.create_to_address(0, &spending_key(0), &to, -5, "").err(), Some(WalletError::InvalidArgument));
    assert_eq!(w.create_to_address(0, &spending_key(0), &to, 0, "").err(), Some(WalletError::InvalidArgument));
    assert_eq!(w.create_to_address(0, &spending_key(0), &to, 2_100_000_000_000_001, "").err(), Some(WalletError::InvalidArgument));
    assert_eq!(w.create_to_address(-1, &spending_key(0), &to, 5, "").err(), Some(WalletError::InvalidArgument));
    assert_eq!(w.notes.len(), notes_before);
    assert_eq!(w.notes[0].spent_at, None);
}

#[test]
fn payment_plan_selects_notes() {
    let w = funded_wallet(&[3000, 4000, 5000]);
    let to = derive_account(&SEED, Network::TestNetwork, 1).unwrap().address;
    let plan = w.create_to_address(0, &spending_key(0), &to, 5000, "thanks").unwrap();
    assert_eq!(plan.inputs, vec![0, 1]);
    assert_eq!(plan.total_in, 7000);
    assert_eq!(plan.amount, 5000);
    assert_eq!(plan.fee, 1000);
    assert_eq!(plan.change, 1000);
    assert_eq!(plan.recipient, to);
    assert_eq!(w.create_to_address(0, &spending_key(0), &to, 12_000, "").err(), Some(WalletError::InsufficientBalance));
    assert_eq!(w.create_to_address(0, &spending_key(0), "nonsense", 10, "").err(), Some(WalletError::EncodingError));
    let long = "x".repeat(513);
    assert_eq!(w.create_to_address(0, &spending_key(0), &to, 10, &long).err(), Some(WalletError::InvalidArgument));
    let t = transparent_text(Network::TestNetwork);
    assert_eq!(w.create_to_address(0, &spending_key(0), &t, 10, "memo").err(), Some(WalletError::UnsupportedOperation));
    assert_eq!(w.create_to_address(0, &spending_key(0), &t, 10, "").unwrap().inputs, vec![0]);
}

#[test]
fn payment_needs_scan() {
    let mut w = WalletState::new(Network::TestNetwork);
    w.init_accounts_table(&SEED, 1).unwrap();
    let to = derive_account(&SEED, Network::TestNetwork, 1).unwrap().address;
    assert_eq!(w.create_to_address(0, &spending_key(0), &to, 10, "").err(), Some(WalletError::ScanRequired));
}

#[test]
fn accounts_table() {
    let mut w = WalletState::new(Network::TestNetwork);
    let keys = w.init_accounts_table(&SEED, 2).unwrap();
    assert_eq!(keys, derive_extended_spending_keys(&SEED, 2, Network::TestNetwork).unwrap());
    assert_eq!(w.get_address(1), derive_shielded_address_from_seed(&SEED, 1, Network::TestNetwork));
    assert_eq!(w.get_address(2), Err(WalletError::InvalidArgument));
    assert_eq!(w.init_accounts_table(&SEED, 1), Err(WalletError::StorageError));
    let mut none = WalletState::new(Network::TestNetwork);
    assert_eq!(none.init_accounts_table(&SEED, 0), Err(WalletError::InvalidArgument));
    assert_eq!(none.accounts.len(), 0);
    let mut short = WalletState::new(Network::TestNetwork);
    assert_eq!(short.init_accounts_table(&[0u8; 8], 1), Err(WalletError::InvalidArgument));
    assert_eq!(short.init_accounts_table(&SEED, -1), Err(WalletError::InvalidArgument));
    assert_eq!(short.accounts.len(), 0);
}

#[test]
fn utxos_and_shielding() {
    let mut w = bare_funded_wallet(&[]);
    let vk = derive_account(&SEED, Network::TestNetwork, 0).unwrap().viewing_key;
    let secp = secp256k1::Secp256k1::new();
    let sk = secp256k1::SecretKey::from_slice(&[5u8; 32]).unwrap();
    let pubkey = hex::encode(&secp256k1::PublicKey::from_secret_key(&secp, &sk).serialize()[..]);
    let taddr = derive_transparent_address_from_public_key(&pubkey, Network::TestNetwork).unwrap();
    let keys = vec![UnifiedViewingKey { extfvk: vk, extpub: pubkey }];
    w.init_accounts_table_with_keys(&keys).unwrap();
    assert_eq!(w.addresses.len(), 1);
    assert_eq!(w.shield_funds(0, &spending_key(0), "").err(), Some(WalletError::NothingToShield));
    w.put_utxo(&taddr, &[1u8; 32], 0, &[0x76], 60_000, 2).unwrap();
    w.put_utxo(&taddr, &[2u8; 32], 1, &[0x76], 9_000, 13).unwrap();
    w.put_utxo(&taddr, &[1u8; 32], 0, &[0x76], 60_000, 2).unwrap();
    assert_eq!(w.utxos.len(), 2);
    assert_eq!(w.put_utxo(&taddr, &[1u8; 31], 0, &[], 1, 2), Err(WalletError::InvalidArgument));
    assert_eq!(w.put_utxo(&taddr, &[3u8; 32], 0, &[], -1, 2), Err(WalletError::InvalidArgument));
    assert_eq!(w.put_utxo("nonsense", &[3u8; 32], 0, &[], 1, 2), Err(WalletError::EncodingError));
    let payload = w.addresses[0].address.clone();
    assert_eq!(w.get_total_transparent_balance(&payload), Ok(69_000));
    // The tip is 13, so the anchor is 4: only the output at height 2 is verified.
    assert_eq!(w.get_verified_transparent_balance(&payload), Ok(60_000));
    let plan = w.shield_funds(0, &spending_key(0), "").unwrap();
    assert_eq!(plan.inputs, vec![0]);
    assert_eq!(plan.total_in, 60_000);
    assert_eq!(plan.amount, 59_000);
    assert_eq!(plan.recipient, derive_account(&SEED, Network::TestNetwork, 0).unwrap().address);
    assert_eq!(w.clear_utxos(&taddr, 10), Ok(1));
    assert_eq!(w.utxos.len(), 1);
    assert_eq!(w.clear_utxos(&taddr, -1), Err(WalletError::InvalidArgument));
}

#[test]
fn received_memo_text() {
    let mut w = funded_wallet(&[10, 20]);
    let mut text = b"hello".to_vec();
    text.resize(512, 0);
    w.notes[1].memo = text;
    assert_eq!(w.get_received_memo_as_utf8(0), Ok(String::new()));
    assert_eq!(w.get_received_memo_as_utf8(1), Ok("hello".to_string()));
    w.notes[1].memo = vec![0xFF; 512];
    assert_eq!(w.get_received_memo_as_utf8(1), Err(WalletError::EncodingError));
    assert_eq!(w.get_received_memo_as_utf8(5), Err(WalletError::InvalidArgument));
}

#[test]
fn payment_needs_the_account_spending_key() {
    let w = funded_wallet(&[5000]);
    let to = derive_account(&SEED, Network::TestNetwork, 1).unwrap().address;
    assert_eq!(w.create_to_address(0, &spending_key(1), &to, 10, "").err(), Some(WalletError::InvalidArgument));
    let main = derive_account(&SEED, Network::MainNetwork, 0).unwrap().spending_key;
    assert_eq!(w.create_to_address(0, &main, &to, 10, "").err(), Some(WalletError::EncodingError));
    assert_eq!(w.create_to_address(0, "garbage", &to, 10, "").err(), Some(WalletError::EncodingError));
    assert_eq!(w.create_to_address(5, &spending_key(0), &to, 10, "").err(), Some(WalletError::InvalidArgument));
    assert_eq!(w.shield_funds(0, &spending_key(1), "").err(), Some(WalletError::InvalidArgument));
    assert!(w.create_to_address(0, &spending_key(0), &to, 10, "").is_ok());
}

#[test]
fn spending_key_text_round_trip() {
    let sks = derive_extended_spending_keys(&SEED, 2, Network::MainNetwork).unwrap();
    let vks = derive_extended_full_viewing_keys(&SEED, 2, Network::MainNetwork).unwrap();
    for i in 0..2 {
        assert_eq!(derive_extended_full_viewing_key(&sks[i], Network::MainNetwork), Ok(vks[i].clone()));
        assert_eq!(derive_extended_full_viewing_key(&sks[i], Network::TestNetwork), Err(WalletError::EncodingError));
        assert!(!is_valid_viewing_key(&vks[i], Network::TestNetwork));
    }
}
