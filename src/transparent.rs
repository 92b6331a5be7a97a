use vstd::prelude::*;
use crate::codec::{base58check_decode, base58check_decoding, base58check_encode, base58check_encoding, pubkey_prefix, payload_of, transparent_payload, AddressV, TransparentAddress};
use crate::error::WalletError;
use crate::network::Network;

verus! {

/// The compressed serialization of the secp256k1 public key written in
/// hexadecimal (compressed or uncompressed); None when the text is not one.
pub uninterp spec fn secp256k1_public_key_of_hex(s: Seq<char>) -> Option<Seq<u8>>;

/// The compressed serialization of the public key of a secp256k1 secret key;
/// None when the bytes are not a valid secret key.
pub uninterp spec fn secp256k1_public_key_of_secret(secret: Seq<u8>) -> Option<Seq<u8>>;

/// The SHA-256 digest of the bytes.
pub uninterp spec fn sha256_digest(data: Seq<u8>) -> Seq<u8>;

/// The RIPEMD-160 digest of the bytes.
pub uninterp spec fn ripemd160_digest(data: Seq<u8>) -> Seq<u8>;

/// Relies on secp256k1's PublicKey::from_str (hexadecimal) and its compressed
/// serialization.
#[verifier::external_body]
fn parse_public_key(s: &str) -> (r: Option<Vec<u8>>)
    ensures
        match r {
            Some(pk) => secp256k1_public_key_of_hex(s@) == Some(pk@),
            None => secp256k1_public_key_of_hex(s@) is None,
        },
{
    match s.parse::<secp256k1::PublicKey>() {
        Ok(pk) => Some(pk.serialize().to_vec()),
        Err(_) => None,
    }
}

/// Relies on secp256k1's SecretKey::from_slice and PublicKey::from_secret_key,
/// with the compressed serialization.
#[verifier::external_body]
fn public_key_of_secret(secret: &[u8]) -> (r: Option<Vec<u8>>)
    ensures
        match r {
            Some(pk) => secp256k1_public_key_of_secret(secret@) == Some(pk@),
            None => secp256k1_public_key_of_secret(secret@) is None,
        },
{
    match secp256k1::SecretKey::from_slice(secret) {
        Ok(sk) => {
            let secp = secp256k1::Secp256k1::signing_only();
            Some(secp256k1::PublicKey::from_secret_key(&secp, &sk).serialize().to_vec())
        },
        Err(_) => None,
    }
}

/// Relies on sha2's Sha256: a 32-byte digest.
#[verifier::external_body]
fn sha256(data: &[u8]) -> (r: Vec<u8>)
    ensures
        r@ == sha256_digest(data@),
        r@.len() == 32,
{
    <sha2::Sha256 as sha2::Digest>::digest(data).to_vec()
}

/// Relies on ripemd160's Ripemd160: a 20-byte digest.
#[verifier::external_body]
fn ripemd160(data: &[u8]) -> (r: Vec<u8>)
    ensures
        r@ == ripemd160_digest(data@),
        r@.len() == 20,
{
    <ripemd160::Ripemd160 as ripemd160::Digest>::digest(data).to_vec()
}

/// The pay-to-public-key-hash address of a serialized public key: the
/// RIPEMD-160 digest of its SHA-256 digest.
pub open spec fn key_hash_address(pk: Seq<u8>) -> AddressV {
    AddressV::PublicKey(ripemd160_digest(sha256_digest(pk)))
}

fn address_of_public_key(pk: &[u8]) -> (r: TransparentAddress)
    ensures
        r@ == key_hash_address(pk@),
{
    let digest = sha256(pk);
    TransparentAddress::PublicKey(ripemd160(&digest))
}

/// The address text of a public key written in hexadecimal.
pub open spec fn public_key_address_text(pubkey: Seq<char>, n: Network) -> Option<Seq<char>> {
    match secp256k1_public_key_of_hex(pubkey) {
        Some(pk) => Some(base58check_encoding(transparent_payload(key_hash_address(pk), n))),
        None => None,
    }
}

/// Derives the transparent address of a public key written in hexadecimal.
pub fn derive_transparent_address_from_public_key(pubkey: &str, n: Network) -> (r: Result<String, WalletError>)
    ensures
        match r {
            Ok(a) => public_key_address_text(pubkey@, n) == Some(a@),
            Err(e) => e == WalletError::EncodingError && public_key_address_text(pubkey@, n) is None,
        },
{
    match parse_public_key(pubkey) {
        Some(pk) => {
            let t = address_of_public_key(&pk);
            Ok(base58check_encode(&payload_of(&t, n)))
        },
        None => Err(WalletError::EncodingError),
    }
}

/// The Base58Check payload of a transparent address derived from a public key
/// written in hexadecimal.
pub open spec fn public_key_payload(pubkey: Seq<char>, n: Network) -> Option<Seq<u8>> {
    match secp256k1_public_key_of_hex(pubkey) {
        Some(pk) => Some(transparent_payload(key_hash_address(pk), n)),
        None => None,
    }
}

pub fn payload_of_public_key(pubkey: &str, n: Network) -> (r: Option<Vec<u8>>)
    ensures
        match r {
            Some(p) => public_key_payload(pubkey@, n) == Some(p@),
            None => public_key_payload(pubkey@, n) is None,
        },
{
    match parse_public_key(pubkey) {
        Some(pk) => Some(payload_of(&address_of_public_key(&pk), n)),
        None => None,
    }
}

/// The secret key that a Wallet Import Format payload carries: version byte
/// 0x80, 32 bytes of key, and an optional 0x01 that marks a compressed key.
pub open spec fn wif_secret(p: Seq<u8>) -> Option<Seq<u8>> {
    if p.len() >= 33 && p[0] == 0x80u8 && (p.len() == 33 || (p.len() == 34 && p[33] == 0x01u8)) {
        Some(p.subrange(1, 33))
    } else {
        None
    }
}

/// The address text of a secret key in Wallet Import Format.
pub open spec fn secret_key_address_text(wif: Seq<char>, n: Network) -> Option<Seq<char>> {
    match base58check_decoding(wif) {
        Some(p) => match wif_secret(p) {
            Some(secret) => match secp256k1_public_key_of_secret(secret) {
                Some(pk) => Some(base58check_encoding(transparent_payload(key_hash_address(pk), n))),
                None => None,
            },
            None => None,
        },
        None => None,
    }
}

/// Derives the transparent address of a secret key in Wallet Import Format.
pub fn derive_transparent_address_from_secret_key(wif: &str, n: Network) -> (r: Result<String, WalletError>)
    ensures
        match r {
            Ok(a) => secret_key_address_text(wif@, n) == Some(a@),
            Err(e) => e == WalletError::EncodingError && secret_key_address_text(wif@, n) is None,
        },
{
    let p = match base58check_decode(wif) {
        Some(p) => p,
        None => return Err(WalletError::EncodingError),
    };
    if p.len() < 33 || p[0] != 0x80 || !(p.len() == 33 || (p.len() == 34 && p[33] == 0x01)) {
        return Err(WalletError::EncodingError);
    }
    let mut secret: Vec<u8> = Vec::new();
    let mut i: usize = 1;
    while i < 33
        invariant
            1 <= i <= 33,
            p@.len() >= 33,
            secret@ == p@.subrange(1, i as int),
        decreases 33 - i,
    {
        secret.push(p[i]);
        i += 1;
        assert(secret@ =~= p@.subrange(1, i as int));
    }
    match public_key_of_secret(&secret) {
        Some(pk) => {
            let t = address_of_public_key(&pk);
            Ok(base58check_encode(&payload_of(&t, n)))
        },
        None => Err(WalletError::EncodingError),
    }
}

} // verus!
