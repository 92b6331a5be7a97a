use rand_core::{CryptoRng, Error, RngCore};
use zcashlc::codec::{decode_recipient_address, RecipientAddress};
use zcashlc::keys::{decode_extended_full_viewing_key, derive_account};
use zcashlc::network::Network;
use zcashlc::scan::{CompactBlock, CompactTx, ShieldedOutput};
use zcashlc::trial::ScanningKey;
use zcashlc::wallet::WalletState;

const SEED: [u8; 32] = [11u8; 32];

struct StepRng(u64);

impl RngCore for StepRng {
    fn next_u32(&mut self) -> u32 {
        self.next_u64() as u32
    }
    fn next_u64(&mut self) -> u64 {
        self.0 = self.0.wrapping_mul(6364136223846793005).wrapping_add(1442695040888963407);
        self.0
    }
    fn fill_bytes(&mut self, dest: &mut [u8]) {
        for b in dest.iter_mut() {
            *b = (self.next_u64() >> 32) as u8;
        }
    }
    fn try_fill_bytes(&mut self, dest: &mut [u8]) -> Result<(), Error> {
        self.fill_bytes(dest);
        Ok(())
    }
}

impl CryptoRng for StepRng {}

fn shielded_bytes(address: &str) -> Vec<u8> {
    match decode_recipient_address(address, Network::TestNetwork) {
        Some(RecipientAddress::Shielded(b)) => b,
        _ => panic!("not a shielded address"),
    }
}

/// A compact output paying `value` to the 43-byte shielded address.
fn encrypted_output(address: &[u8], value: u64) -> ShieldedOutput {
    let mut bytes = [0u8; 43];
    bytes.copy_from_slice(address);
    let to = zcash_primitives::primitives::PaymentAddress::from_bytes(&bytes).unwrap();
    let rseed = zcash_primitives::primitives::Rseed::BeforeZip212(jubjub::Fr::from(7u64));
    let note = to.create_note(value, rseed).unwrap();
    let cmu = note.cmu().to_bytes().to_vec();
    let memo = zcash_primitives::memo::MemoBytes::empty();
    let enc = zcash_primitives::note_encryption::SaplingNoteEncryption::new(None, note, to, memo, StepRng(3));
    let ct = enc.encrypt_note_plaintext();
    let epk = jubjub::AffinePoint::from(jubjub::ExtendedPoint::from(*enc.epk())).to_bytes();
    ShieldedOutput { cmu, epk: epk.to_vec(), ciphertext: ct[..52].to_vec() }
}

fn block_with(outputs: Vec<ShieldedOutput>) -> CompactBlock {
    let mut hash = vec![0u8; 32];
    hash[0] = 2;
    let mut prev = vec![0u8; 32];
    prev[0] = 1;
    CompactBlock {
        height: 2,
        hash,
        prev_hash: prev,
        time: 0,
        txs: vec![CompactTx {
            txid: vec![4u8; 32],
            nullifiers: vec![],
            outputs,
            transparent_inputs: vec![],
            transparent_outputs: vec![],
        }],
    }
}

fn fresh_wallet() -> WalletState {
    let mut w = WalletState::new(Network::TestNetwork);
    let hex = format!("{}01", "0".repeat(62));
    w.init_blocks_table(1, &hex, 0).unwrap();
    w
}

fn keys() -> Vec<ScanningKey> {
    let k0 = derive_account(&SEED, Network::TestNetwork, 0).unwrap();
    let k1 = derive_account(&SEED, Network::TestNetwork, 1).unwrap();
    vec![
        ScanningKey { account: 1, viewing_key: decode_extended_full_viewing_key(&k1.viewing_key, Network::TestNetwork).unwrap() },
        ScanningKey { account: 0, viewing_key: decode_extended_full_viewing_key(&k0.viewing_key, Network::TestNetwork).unwrap() },
    ]
}

#[test]
fn fresh_wallet_receives_one_note() {
    let k0 = derive_account(&SEED, Network::TestNetwork, 0).unwrap();
    let out = encrypted_output(&shielded_bytes(&k0.address), 1000);
    let mut w = fresh_wallet();
    assert_eq!(w.scan_block_with_keys(&block_with(vec![out]), &keys()), Ok(()));
    assert_eq!(w.get_balance(0), Ok(1000));
    assert_eq!(w.get_balance(1), Ok(0));
    assert_eq!(w.notes.len(), 1);
    assert_eq!(w.notes[0].position, 0);
    assert_eq!(w.notes[0].account, 0);
    assert_eq!(w.notes[0].value, 1000);
    assert_eq!(w.notes[0].nullifier.len(), 32);
}

#[test]
fn undecryptable_outputs_still_take_positions() {
    let k0 = derive_account(&SEED, Network::TestNetwork, 0).unwrap();
    let other = derive_account(&[12u8; 32], Network::TestNetwork, 0).unwrap();
    let foreign = encrypted_output(&shielded_bytes(&other.address), 50);
    let mine = encrypted_output(&shielded_bytes(&k0.address), 700);
    let junk = ShieldedOutput { cmu: vec![0; 32], epk: vec![0; 32], ciphertext: vec![0; 52] };
    let mut w = fresh_wallet();
    w.scan_block_with_keys(&block_with(vec![foreign, junk, mine]), &keys()).unwrap();
    assert_eq!(w.tree_size, 3);
    assert_eq!(w.notes.len(), 1);
    assert_eq!(w.notes[0].position, 2);
    assert_eq!(w.get_balance(0), Ok(700));
}

#[test]
fn nullifier_depends_on_position() {
    let k0 = derive_account(&SEED, Network::TestNetwork, 0).unwrap();
    let addr = shielded_bytes(&k0.address);
    let mut a = fresh_wallet();
    a.scan_block_with_keys(&block_with(vec![encrypted_output(&addr, 5)]), &keys()).unwrap();
    let mut b = fresh_wallet();
    let junk = ShieldedOutput { cmu: vec![0; 32], epk: vec![0; 32], ciphertext: vec![0; 52] };
    b.scan_block_with_keys(&block_with(vec![junk, encrypted_output(&addr, 5)]), &keys()).unwrap();
    assert_ne!(a.notes[0].nullifier, b.notes[0].nullifier);
}

#[test]
fn scan_cached_blocks_with_viewing_keys() {
    let k0 = derive_account(&SEED, Network::TestNetwork, 0).unwrap();
    let k1 = derive_account(&SEED, Network::TestNetwork, 1).unwrap();
    let mut first = block_with(vec![encrypted_output(&shielded_bytes(&k0.address), 300)]);
    first.height = 2;
    let mut second = block_with(vec![encrypted_output(&shielded_bytes(&k1.address), 40)]);
    second.height = 3;
    second.prev_hash = first.hash.clone();
    second.hash = vec![3u8; 32];
    let mut gap = second.clone();
    gap.height = 5;
    let mut w = fresh_wallet();
    let blocks = vec![first.clone(), second.clone()];
    assert_eq!(w.scan_cached_blocks_with_keys(&blocks, &keys(), Some(1)), Ok(()));
    assert_eq!((w.get_balance(0), w.get_balance(1)), (Ok(300), Ok(0)));
    assert_eq!(w.scan_cached_blocks_with_keys(&blocks, &keys(), None), Ok(()));
    assert_eq!((w.get_balance(0), w.get_balance(1)), (Ok(300), Ok(40)));
    assert_eq!(w.notes[1].position, 1);
    let before = (w.notes.len(), w.tree_size, w.blocks.len());
    assert_eq!(w.scan_cached_blocks_with_keys(&blocks, &keys(), None), Ok(()));
    assert_eq!((w.notes.len(), w.tree_size, w.blocks.len()), before);
    let bad = vec![gap];
    assert_eq!(
        w.scan_cached_blocks_with_keys(&bad, &keys(), None),
        Err(zcashlc::error::WalletError::MissingBlock(4))
    );
    assert_eq!((w.notes.len(), w.tree_size, w.blocks.len()), before);
}
