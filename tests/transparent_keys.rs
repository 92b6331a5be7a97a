use zcashlc::codec::{decode_recipient_address, RecipientAddress, TransparentAddress};
use zcashlc::error::WalletError;
use zcashlc::network::Network;
use zcashlc::transparent::{derive_transparent_address_from_public_key, derive_transparent_address_from_secret_key};

fn secret(last: u8) -> [u8; 32] {
    let mut k = [0u8; 32];
    k[31] = last;
    k
}

fn public_hex(secret: &[u8; 32]) -> String {
    let secp = secp256k1::Secp256k1::new();
    let sk = secp256k1::SecretKey::from_slice(secret).unwrap();
    hex::encode(&secp256k1::PublicKey::from_secret_key(&secp, &sk).serialize()[..])
}

fn wif(secret: &[u8; 32], compressed: bool) -> String {
    let mut payload = vec![0x80u8];
    payload.extend_from_slice(secret);
    if compressed {
        payload.push(0x01);
    }
    bs58::encode(payload).with_check().into_string()
}

#[test]
fn public_key_hash_of_generator() {
    // The secret key 1 has the generator as public key, whose HASH160 is well known.
    let pk = public_hex(&secret(1));
    assert_eq!(pk, "0279be667ef9dcbbac55a06295ce870b07029bfcdb2dce28d959f2815b16f81798");
    let a = derive_transparent_address_from_public_key(&pk, Network::MainNetwork).unwrap();
    assert!(a.starts_with("t1"));
    match decode_recipient_address(&a, Network::MainNetwork) {
        Some(RecipientAddress::Transparent(TransparentAddress::PublicKey(h))) => {
            assert_eq!(hex::encode(h), "751e76e8199196d454941c45d1b3a323f1433bd6");
        }
        _ => panic!("not a transparent address"),
    }
    let t = derive_transparent_address_from_public_key(&pk, Network::TestNetwork).unwrap();
    assert!(t.starts_with("tm"));
}

#[test]
fn secret_key_and_public_key_agree() {
    for last in [1u8, 9, 200] {
        let s = secret(last);
        let from_public = derive_transparent_address_from_public_key(&public_hex(&s), Network::TestNetwork);
        assert_eq!(derive_transparent_address_from_secret_key(&wif(&s, true), Network::TestNetwork), from_public);
        assert_eq!(derive_transparent_address_from_secret_key(&wif(&s, false), Network::TestNetwork), from_public);
    }
}

#[test]
fn malformed_keys_are_refused() {
    assert_eq!(derive_transparent_address_from_public_key("02ab", Network::MainNetwork), Err(WalletError::EncodingError));
    assert_eq!(derive_transparent_address_from_public_key("zz", Network::MainNetwork), Err(WalletError::EncodingError));
    assert_eq!(derive_transparent_address_from_secret_key("nonsense", Network::MainNetwork), Err(WalletError::EncodingError));
    let zero = wif(&[0u8; 32], true);
    assert_eq!(derive_transparent_address_from_secret_key(&zero, Network::MainNetwork), Err(WalletError::EncodingError));
    let mut bad = vec![0x81u8];
    bad.extend_from_slice(&secret(3));
    let wrong_version = bs58::encode(bad).with_check().into_string();
    assert_eq!(derive_transparent_address_from_secret_key(&wrong_version, Network::MainNetwork), Err(WalletError::EncodingError));
}
