use vstd::prelude::*;
use crate::codec::{
    lemma_hrps_distinct, lemma_hrps_plain, bech32_decoding, bech32_encoding, hrp_payment_address, hrp_spending_key, hrp_viewing_key,
    payment_address_hrp, spending_key_hrp, viewing_key_hrp,
};
use crate::codec::{bech32_decode, bech32_encode};
use crate::error::WalletError;
use crate::network::Network;

verus! {

/// Serialized ZIP 32 extended spending key derived from `seed` along the path of
/// hardened indices `path`.
pub uninterp spec fn sapling_spending_key_bytes(seed: Seq<u8>, path: Seq<u32>) -> Seq<u8>;

/// Serialized extended full viewing key of a serialized extended spending key;
/// None when the bytes do not read as a spending key.
pub uninterp spec fn sapling_viewing_key_bytes(spending_key: Seq<u8>) -> Option<Seq<u8>>;

/// The 43 bytes of the default payment address of a serialized extended full
/// viewing key; None when the bytes do not read as a viewing key or no
/// diversifier yields an address.
pub uninterp spec fn sapling_default_address_bytes(viewing_key: Seq<u8>) -> Option<Seq<u8>>;

/// Whether the bytes read as an extended full viewing key.
pub uninterp spec fn sapling_viewing_key_readable(viewing_key: Seq<u8>) -> bool;

/// Relies on zcash_primitives' ExtendedSpendingKey::master and from_path, and on
/// its serialization; the key depends on the seed and the path alone. Each step
/// adds one to a one-byte depth, so the path holds at most 255 indices. The
/// serialized key reads back (ExtendedSpendingKey::read), so its viewing key
/// exists.
#[verifier::external_body]
fn zip32_spending_key(seed: &[u8], path: &[u32]) -> (r: Vec<u8>)
    requires
        path@.len() <= 255,
        forall|i: int| 0 <= i < path@.len() ==> path@[i] < 0x8000_0000,
    ensures
        r@ == sapling_spending_key_bytes(seed@, path@),
        sapling_viewing_key_bytes(r@) is Some,
{
    let path: Vec<zcash_primitives::zip32::ChildIndex> =
        path.iter().map(|i| zcash_primitives::zip32::ChildIndex::Hardened(*i)).collect();
    let master = zcash_primitives::zip32::ExtendedSpendingKey::master(seed);
    let key = zcash_primitives::zip32::ExtendedSpendingKey::from_path(&master, &path);
    let mut bytes: Vec<u8> = Vec::new();
    let _ = key.write(&mut bytes);
    bytes
}

/// Relies on zcash_primitives' ExtendedSpendingKey::read, the conversion to
/// ExtendedFullViewingKey, and its serialization.
#[verifier::external_body]
fn zip32_viewing_key(spending_key: &[u8]) -> (r: Option<Vec<u8>>)
    ensures
        match r {
            Some(v) => sapling_viewing_key_bytes(spending_key@) == Some(v@),
            None => sapling_viewing_key_bytes(spending_key@) is None,
        },
{
    match zcash_primitives::zip32::ExtendedSpendingKey::read(spending_key) {
        Ok(key) => {
            let fvk = zcash_primitives::zip32::ExtendedFullViewingKey::from(&key);
            let mut bytes: Vec<u8> = Vec::new();
            let _ = fvk.write(&mut bytes);
            Some(bytes)
        },
        Err(_) => None,
    }
}

/// Relies on zcash_primitives' ExtendedFullViewingKey::read and default_address.
#[verifier::external_body]
fn zip32_default_address(viewing_key: &[u8]) -> (r: Option<Vec<u8>>)
    ensures
        match r {
            Some(a) => sapling_default_address_bytes(viewing_key@) == Some(a@),
            None => sapling_default_address_bytes(viewing_key@) is None,
        },
{
    match zcash_primitives::zip32::ExtendedFullViewingKey::read(viewing_key) {
        Ok(fvk) => match fvk.default_address() {
            Ok((_, address)) => Some(address.to_bytes().to_vec()),
            Err(()) => None,
        },
        Err(_) => None,
    }
}

/// Relies on zcash_primitives' ExtendedFullViewingKey::read.
#[verifier::external_body]
fn zip32_viewing_key_readable(viewing_key: &[u8]) -> (r: bool)
    ensures
        r == sapling_viewing_key_readable(viewing_key@),
{
    zcash_primitives::zip32::ExtendedFullViewingKey::read(viewing_key).is_ok()
}

/// The coin type of the network in hierarchical derivation paths.
pub open spec fn coin_type(n: Network) -> u32 {
    match n {
        Network::MainNetwork => 133,
        Network::TestNetwork => 1,
    }
}

pub fn network_coin_type(n: Network) -> (r: u32)
    ensures
        r == coin_type(n),
{
    match n {
        Network::MainNetwork => 133,
        Network::TestNetwork => 1,
    }
}

/// The shielded derivation path of an account: purpose 32, coin type, account,
/// all hardened.
pub open spec fn account_path(n: Network, account: u32) -> Seq<u32> {
    seq![32u32, coin_type(n), account]
}

pub open spec fn spending_key_bytes(seed: Seq<u8>, n: Network, account: u32) -> Seq<u8> {
    sapling_spending_key_bytes(seed, account_path(n, account))
}

/// Encoded extended spending key of an account.
pub open spec fn spending_key_text(seed: Seq<u8>, n: Network, account: u32) -> Option<Seq<char>> {
    bech32_encoding(hrp_spending_key(n), spending_key_bytes(seed, n, account))
}

/// Encoded extended full viewing key of an account.
pub open spec fn viewing_key_text(seed: Seq<u8>, n: Network, account: u32) -> Option<Seq<char>> {
    match sapling_viewing_key_bytes(spending_key_bytes(seed, n, account)) {
        Some(v) => bech32_encoding(hrp_viewing_key(n), v),
        None => None,
    }
}

/// Encoded default payment address of a serialized viewing key.
pub open spec fn address_text_of_viewing_key(v: Seq<u8>, n: Network) -> Option<Seq<char>> {
    match sapling_default_address_bytes(v) {
        Some(a) => bech32_encoding(hrp_payment_address(n), a),
        None => None,
    }
}

/// Encoded default payment address of an account.
pub open spec fn address_text(seed: Seq<u8>, n: Network, account: u32) -> Option<Seq<char>> {
    match sapling_viewing_key_bytes(spending_key_bytes(seed, n, account)) {
        Some(v) => address_text_of_viewing_key(v, n),
        None => None,
    }
}

/// Seeds must hold at least 32 bytes.
pub open spec fn seed_ok(seed: Seq<u8>) -> bool {
    seed.len() >= 32
}

fn account_spending_key(seed: &[u8], n: Network, account: u32) -> (r: Vec<u8>)
    requires
        account < 0x8000_0000,
    ensures
        r@ == spending_key_bytes(seed@, n, account),
        sapling_viewing_key_bytes(r@) is Some,
{
    let path: Vec<u32> = vec![32, network_coin_type(n), account];
    assert(path@ =~= account_path(n, account));
    zip32_spending_key(seed, path.as_slice())
}

/// A key text decodes back to `bytes` under the prefix of `n` and to nothing
/// under the prefix of the other network.
pub open spec fn key_round_trip(t: Seq<char>, bytes: Seq<u8>, hrp_of: spec_fn(Network) -> Seq<char>, n: Network) -> bool {
    &&& key_payload(t, hrp_of(n)) == Some(bytes)
    &&& forall|other: Network| other != n ==> (#[trigger] key_payload(t, hrp_of(other))) is None
}

fn encoded_spending_key(seed: &[u8], n: Network, account: u32) -> (r: Option<String>)
    requires
        account < 0x8000_0000,
    ensures
        match r {
            Some(s) => spending_key_text(seed@, n, account) == Some(s@),
            None => spending_key_text(seed@, n, account) is None,
        },
        r is Some,
        key_round_trip(r.unwrap()@, spending_key_bytes(seed@, n, account), |m: Network| hrp_spending_key(m), n),
        sapling_viewing_key_bytes(spending_key_bytes(seed@, n, account)) is Some,
{
    let sk = account_spending_key(seed, n, account);
    proof {
        lemma_hrps_plain(n);
        lemma_hrps_distinct(n, if n == Network::MainNetwork { Network::TestNetwork } else { Network::MainNetwork });
    }
    bech32_encode(spending_key_hrp(n), &sk)
}

fn encoded_viewing_key(seed: &[u8], n: Network, account: u32) -> (r: Option<String>)
    requires
        account < 0x8000_0000,
    ensures
        match r {
            Some(s) => viewing_key_text(seed@, n, account) == Some(s@),
            None => viewing_key_text(seed@, n, account) is None,
        },
        r is Some,
        key_round_trip(
            r.unwrap()@,
            sapling_viewing_key_bytes(spending_key_bytes(seed@, n, account)).unwrap(),
            |m: Network| hrp_viewing_key(m),
            n,
        ),
{
    proof {
        lemma_hrps_plain(n);
        lemma_hrps_distinct(n, if n == Network::MainNetwork { Network::TestNetwork } else { Network::MainNetwork });
    }
    let sk = account_spending_key(seed, n, account);
    match zip32_viewing_key(&sk) {
        Some(v) => bech32_encode(viewing_key_hrp(n), &v),
        None => None,
    }
}

fn encoded_address_of_viewing_key(v: &[u8], n: Network) -> (r: Option<String>)
    ensures
        match r {
            Some(s) => address_text_of_viewing_key(v@, n) == Some(s@),
            None => address_text_of_viewing_key(v@, n) is None,
        },
{
    match zip32_default_address(v) {
        Some(a) => bech32_encode(payment_address_hrp(n), &a),
        None => None,
    }
}

fn encoded_address(seed: &[u8], n: Network, account: u32) -> (r: Option<String>)
    requires
        account < 0x8000_0000,
    ensures
        match r {
            Some(s) => address_text(seed@, n, account) == Some(s@),
            None => address_text(seed@, n, account) is None,
        },
{
    let sk = account_spending_key(seed, n, account);
    match zip32_viewing_key(&sk) {
        Some(v) => encoded_address_of_viewing_key(&v, n),
        None => None,
    }
}

/// The key material of one account: its encoded spending key, viewing key and
/// default shielded address.
#[derive(Debug, Clone)]
pub struct AccountKeys {
    pub spending_key: String,
    pub viewing_key: String,
    pub address: String,
}

/// What deriving account `index` from `seed` gives: a negative index or a short
/// seed is refused; otherwise the three texts, unless an encoder refuses one.
pub open spec fn derived_account(seed: Seq<u8>, n: Network, index: i32) -> Result<
    (Seq<char>, Seq<char>, Seq<char>),
    WalletError,
> {
    if index < 0 || !seed_ok(seed) {
        Err(WalletError::InvalidArgument)
    } else {
        match (
            spending_key_text(seed, n, index as u32),
            viewing_key_text(seed, n, index as u32),
            address_text(seed, n, index as u32),
        ) {
            (Some(sk), Some(vk), Some(a)) => Ok((sk, vk, a)),
            _ => Err(WalletError::EncodingError),
        }
    }
}

pub open spec fn account_keys_view(r: Result<AccountKeys, WalletError>) -> Result<
    (Seq<char>, Seq<char>, Seq<char>),
    WalletError,
> {
    match r {
        Ok(k) => Ok((k.spending_key@, k.viewing_key@, k.address@)),
        Err(e) => Err(e),
    }
}

/// Derives the shielded key material of account `index` from `seed`.
pub fn derive_account(seed: &[u8], n: Network, index: i32) -> (r: Result<AccountKeys, WalletError>)
    ensures
        account_keys_view(r) == derived_account(seed@, n, index),
        index >= 0 && seed_ok(seed@) ==> spending_key_text(seed@, n, index as u32) is Some
            && viewing_key_text(seed@, n, index as u32) is Some,
        r matches Ok(k) ==> key_round_trip(
            k.spending_key@,
            spending_key_bytes(seed@, n, index as u32),
            |m: Network| hrp_spending_key(m),
            n,
        ) && key_round_trip(
            k.viewing_key@,
            sapling_viewing_key_bytes(spending_key_bytes(seed@, n, index as u32)).unwrap(),
            |m: Network| hrp_viewing_key(m),
            n,
        ),
{
    if index < 0 || seed.len() < 32 {
        return Err(WalletError::InvalidArgument);
    }
    let account = index as u32;
    let sk = encoded_spending_key(seed, n, account);
    let vk = encoded_viewing_key(seed, n, account);
    let a = encoded_address(seed, n, account);
    match (sk, vk, a) {
        (Some(sk), Some(vk), Some(a)) => Ok(AccountKeys { spending_key: sk, viewing_key: vk, address: a }),
        _ => Err(WalletError::EncodingError),
    }
}

/// Deriving an account twice from the same seed, network and index yields the
/// same keys and address, byte for byte.
pub proof fn lemma_derivation_deterministic(
    seed: Seq<u8>,
    n: Network,
    index: i32,
    first: Result<AccountKeys, WalletError>,
    second: Result<AccountKeys, WalletError>,
)
    requires
        account_keys_view(first) == derived_account(seed, n, index),
        account_keys_view(second) == derived_account(seed, n, index),
    ensures
        account_keys_view(first) == account_keys_view(second),
{
}

/// Derives the encoded extended spending keys of accounts `0..accounts`.
pub fn derive_extended_spending_keys(seed: &[u8], accounts: i32, n: Network) -> (r: Result<
    Vec<String>,
    WalletError,
>)
    ensures
        match r {
            Ok(keys) => accounts > 0 && seed_ok(seed@) && keys@.len() == accounts && forall|i: int|
                0 <= i < accounts ==> spending_key_text(seed@, n, i as u32) == Some(
                    #[trigger] keys@[i]@,
                ),
            Err(e) => if accounts <= 0 || !seed_ok(seed@) {
                e == WalletError::InvalidArgument
            } else {
                e == WalletError::EncodingError && exists|i: int|
                    0 <= i < accounts && #[trigger] spending_key_text(seed@, n, i as u32) is None
            },
        },
        accounts > 0 && seed_ok(seed@) ==> r is Ok,
        r matches Ok(keys) ==> forall|i: int|
            0 <= i < accounts ==> key_round_trip(
                #[trigger] keys@[i]@,
                spending_key_bytes(seed@, n, i as u32),
                |m: Network| hrp_spending_key(m),
                n,
            ),
{
    if accounts <= 0 || seed.len() < 32 {
        return Err(WalletError::InvalidArgument);
    }
    let mut keys: Vec<String> = Vec::new();
    let mut i: u32 = 0;
    while i < accounts as u32
        invariant
            accounts > 0,
            seed_ok(seed@),
            i <= accounts,
            keys@.len() == i,
            forall|j: int| 0 <= j < i ==> spending_key_text(seed@, n, j as u32) == Some(#[trigger] keys@[j]@),
            forall|j: int|
                0 <= j < i ==> key_round_trip(
                    #[trigger] keys@[j]@,
                    spending_key_bytes(seed@, n, j as u32),
                    |m: Network| hrp_spending_key(m),
                    n,
                ),
        decreases accounts - i,
    {
        match encoded_spending_key(seed, n, i) {
            Some(k) => keys.push(k),
            None => {
                assert(spending_key_text(seed@, n, (i as int) as u32) is None);
                return Err(WalletError::EncodingError);
            },
        }
        i += 1;
    }
    Ok(keys)
}

/// Derives the encoded extended full viewing keys of accounts `0..accounts`.
pub fn derive_extended_full_viewing_keys(seed: &[u8], accounts: i32, n: Network) -> (r: Result<
    Vec<String>,
    WalletError,
>)
    ensures
        match r {
            Ok(keys) => accounts > 0 && seed_ok(seed@) && keys@.len() == accounts && forall|i: int|
                0 <= i < accounts ==> viewing_key_text(seed@, n, i as u32) == Some(
                    #[trigger] keys@[i]@,
                ),
            Err(e) => if accounts <= 0 || !seed_ok(seed@) {
                e == WalletError::InvalidArgument
            } else {
                e == WalletError::EncodingError && exists|i: int|
                    0 <= i < accounts && #[trigger] viewing_key_text(seed@, n, i as u32) is None
            },
        },
        accounts > 0 && seed_ok(seed@) ==> r is Ok,
        r matches Ok(keys) ==> forall|i: int|
            0 <= i < accounts ==> key_round_trip(
                #[trigger] keys@[i]@,
                sapling_viewing_key_bytes(spending_key_bytes(seed@, n, i as u32)).unwrap(),
                |m: Network| hrp_viewing_key(m),
                n,
            ),
{
    if accounts <= 0 || seed.len() < 32 {
        return Err(WalletError::InvalidArgument);
    }
    let mut keys: Vec<String> = Vec::new();
    let mut i: u32 = 0;
    while i < accounts as u32
        invariant
            accounts > 0,
            seed_ok(seed@),
            i <= accounts,
            keys@.len() == i,
            forall|j: int| 0 <= j < i ==> viewing_key_text(seed@, n, j as u32) == Some(#[trigger] keys@[j]@),
            forall|j: int|
                0 <= j < i ==> key_round_trip(
                    #[trigger] keys@[j]@,
                    sapling_viewing_key_bytes(spending_key_bytes(seed@, n, j as u32)).unwrap(),
                    |m: Network| hrp_viewing_key(m),
                    n,
                ),
        decreases accounts - i,
    {
        match encoded_viewing_key(seed, n, i) {
            Some(k) => keys.push(k),
            None => {
                assert(viewing_key_text(seed@, n, (i as int) as u32) is None);
                return Err(WalletError::EncodingError);
            },
        }
        i += 1;
    }
    Ok(keys)
}

/// Derives the encoded default shielded address of account `account_index`.
pub fn derive_shielded_address_from_seed(seed: &[u8], account_index: i32, n: Network) -> (r: Result<
    String,
    WalletError,
>)
    ensures
        match r {
            Ok(a) => account_index >= 0 && seed_ok(seed@) && address_text(
                seed@,
                n,
                account_index as u32,
            ) == Some(a@),
            Err(e) => if account_index < 0 || !seed_ok(seed@) {
                e == WalletError::InvalidArgument
            } else {
                e == WalletError::EncodingError && address_text(seed@, n, account_index as u32) is None
            },
        },
{
    if account_index < 0 || seed.len() < 32 {
        return Err(WalletError::InvalidArgument);
    }
    match encoded_address(seed, n, account_index as u32) {
        Some(a) => Ok(a),
        None => Err(WalletError::EncodingError),
    }
}

/// The serialized key that a text encodes under the human-readable part `hr`.
pub open spec fn key_payload(s: Seq<char>, hr: Seq<char>) -> Option<Seq<u8>> {
    match bech32_decoding(s) {
        Some((h, data)) if h == hr => Some(data),
        _ => None,
    }
}

fn decode_key_payload(s: &str, hr: &str) -> (r: Option<Vec<u8>>)
    ensures
        match r {
            Some(d) => key_payload(s@, hr@) == Some(d@),
            None => key_payload(s@, hr@) is None,
        },
{
    match bech32_decode(s) {
        Some((h, data)) => {
            if h == hr.to_owned() {
                Some(data)
            } else {
                None
            }
        },
        None => None,
    }
}

/// Whether a text is an extended full viewing key of network `n`. Malformed text
/// gives false.
pub fn is_valid_viewing_key(key: &str, n: Network) -> (r: bool)
    ensures
        r == (key_payload(key@, hrp_viewing_key(n)) matches Some(v) && sapling_viewing_key_readable(
            v,
        )),
{
    match decode_key_payload(key, viewing_key_hrp(n)) {
        Some(v) => zip32_viewing_key_readable(&v),
        None => false,
    }
}

/// The encoded default shielded address of an encoded extended full viewing key.
pub fn derive_shielded_address_from_viewing_key(extfvk: &str, n: Network) -> (r: Result<
    String,
    WalletError,
>)
    ensures
        match r {
            Ok(a) => key_payload(extfvk@, hrp_viewing_key(n)) matches Some(v)
                && address_text_of_viewing_key(v, n) == Some(a@),
            Err(e) => e == WalletError::EncodingError && !(key_payload(
                extfvk@,
                hrp_viewing_key(n),
            ) matches Some(v) && address_text_of_viewing_key(v, n) is Some),
        },
{
    match decode_key_payload(extfvk, viewing_key_hrp(n)) {
        Some(v) => match encoded_address_of_viewing_key(&v, n) {
            Some(a) => Ok(a),
            None => Err(WalletError::EncodingError),
        },
        None => Err(WalletError::EncodingError),
    }
}

/// The encoded extended full viewing key of an encoded extended spending key.
pub fn derive_extended_full_viewing_key(extsk: &str, n: Network) -> (r: Result<String, WalletError>)
    ensures
        match r {
            Ok(v) => key_payload(extsk@, hrp_spending_key(n)) matches Some(sk)
                && sapling_viewing_key_bytes(sk) matches Some(vb) && bech32_encoding(
                hrp_viewing_key(n),
                vb,
            ) == Some(v@),
            Err(e) => e == WalletError::EncodingError && !(key_payload(
                extsk@,
                hrp_spending_key(n),
            ) matches Some(sk) && sapling_viewing_key_bytes(sk) matches Some(vb) && bech32_encoding(
                hrp_viewing_key(n),
                vb,
            ) is Some),
        },
{
    match decode_key_payload(extsk, spending_key_hrp(n)) {
        Some(sk) => match zip32_viewing_key(&sk) {
            Some(v) => match bech32_encode(viewing_key_hrp(n), &v) {
                Some(t) => Ok(t),
                None => Err(WalletError::EncodingError),
            },
            None => Err(WalletError::EncodingError),
        },
        None => Err(WalletError::EncodingError),
    }
}

/// Decodes an encoded extended full viewing key of network `n` into its
/// serialized bytes.
pub fn decode_extended_full_viewing_key(key: &str, n: Network) -> (r: Result<Vec<u8>, WalletError>)
    ensures
        match r {
            Ok(v) => key_payload(key@, hrp_viewing_key(n)) == Some(v@) && sapling_viewing_key_readable(v@),
            Err(e) => e == WalletError::EncodingError && !(key_payload(key@, hrp_viewing_key(n)) matches Some(
                v,
            ) && sapling_viewing_key_readable(v)),
        },
{
    match decode_key_payload(key, viewing_key_hrp(n)) {
        Some(v) => {
            if zip32_viewing_key_readable(&v) {
                Ok(v)
            } else {
                Err(WalletError::EncodingError)
            }
        },
        None => Err(WalletError::EncodingError),
    }
}

} // verus!
