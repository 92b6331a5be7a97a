use vstd::prelude::*;
use crate::bytes::bytes_to_vec;
use crate::network::Network;

verus! {

/// Bech32 text of `data` under `hr`, as the bech32 crate writes it.
pub uninterp spec fn bech32_encoding(hr: Seq<char>, data: Seq<u8>) -> Option<Seq<char>>;

/// Human-readable part and payload that the bech32 crate reads from a text.
pub uninterp spec fn bech32_decoding(s: Seq<char>) -> Option<(Seq<char>, Seq<u8>)>;

/// Base58Check text of a payload, as the bs58 crate writes it.
pub uninterp spec fn base58check_encoding(payload: Seq<u8>) -> Seq<char>;

/// Payload that the bs58 crate reads from a Base58Check text.
pub uninterp spec fn base58check_decoding(s: Seq<char>) -> Option<Seq<u8>>;

/// Whether 43 bytes are a valid shielded payment address (a valid diversifier
/// and a point of the prime-order subgroup).
pub uninterp spec fn sapling_address_bytes_valid(b: Seq<u8>) -> bool;

/// A human-readable part of lower-case letters and dashes, 1 to 83 long: bech32
/// accepts it, and it holds no separator '1'.
pub open spec fn plain_hrp(hr: Seq<char>) -> bool {
    &&& 1 <= hr.len() <= 83
    &&& forall|i: int| 0 <= i < hr.len() ==> ('a' <= #[trigger] hr[i] && hr[i] <= 'z') || hr[i] == '-'
}

/// Relies on bech32::encode with the Bech32 variant: the text depends on the
/// human-readable part and the data alone, and only an invalid human-readable
/// part (check_hrp) fails. bech32::decode of the text splits it at its last '1',
/// checks the checksum and returns the lower-case part, and FromBase32 undoes the
/// zero-padded ToBase32: for a plain part the text decodes to the part and data.
#[verifier::external_body]
pub(crate) fn bech32_encode(hr: &str, data: &[u8]) -> (r: Option<String>)
    ensures
        match r {
            Some(s) => bech32_encoding(hr@, data@) == Some(s@),
            None => bech32_encoding(hr@, data@) is None,
        },
        plain_hrp(hr@) ==> r is Some && bech32_decoding(r.unwrap()@) == Some((hr@, data@)),
{
    bech32::encode(hr, bech32::ToBase32::to_base32(&data), bech32::Variant::Bech32).ok()
}

/// Relies on bech32::decode and FromBase32: a Bech32 (not Bech32m) text gives its
/// human-readable part and its data as bytes.
#[verifier::external_body]
pub(crate) fn bech32_decode(s: &str) -> (r: Option<(String, Vec<u8>)>)
    ensures
        match r {
            Some((hr, data)) => bech32_decoding(s@) == Some((hr@, data@)),
            None => bech32_decoding(s@) is None,
        },
{
    match bech32::decode(s) {
        Ok((hr, data, bech32::Variant::Bech32)) => {
            match <Vec<u8> as bech32::FromBase32>::from_base32(&data) {
                Ok(bytes) => Some((hr, bytes)),
                Err(_) => None,
            }
        },
        _ => None,
    }
}

/// Relies on bs58's encoder with a checksum appended; bs58's decoder with the
/// checksum verified and removed gives the payload back.
#[verifier::external_body]
pub(crate) fn base58check_encode(payload: &[u8]) -> (r: String)
    ensures
        r@ == base58check_encoding(payload@),
        base58check_decoding(r@) == Some(payload@),
{
    bs58::encode(payload).with_check().into_string()
}

/// Relies on bs58's decoder with the checksum verified and removed.
#[verifier::external_body]
pub(crate) fn base58check_decode(s: &str) -> (r: Option<Vec<u8>>)
    ensures
        match r {
            Some(p) => base58check_decoding(s@) == Some(p@),
            None => base58check_decoding(s@) is None,
        },
{
    bs58::decode(s).with_check(None).into_vec().ok()
}

/// Relies on zcash_primitives' PaymentAddress::from_bytes, which checks the
/// diversifier and the transmission key.
#[verifier::external_body]
fn sapling_address_valid(b: &[u8]) -> (r: bool)
    requires
        b@.len() == 43,
    ensures
        r == sapling_address_bytes_valid(b@),
{
    let mut bytes = [0u8; 43];
    bytes.copy_from_slice(b);
    zcash_primitives::primitives::PaymentAddress::from_bytes(&bytes).is_some()
}

/// Human-readable part of encoded extended spending keys.
pub open spec fn hrp_spending_key(n: Network) -> Seq<char> {
    match n {
        Network::MainNetwork => "secret-extended-key-main"@,
        Network::TestNetwork => "secret-extended-key-test"@,
    }
}

/// Human-readable part of encoded extended full viewing keys.
pub open spec fn hrp_viewing_key(n: Network) -> Seq<char> {
    match n {
        Network::MainNetwork => "zxviews"@,
        Network::TestNetwork => "zxviewtestsapling"@,
    }
}

/// Human-readable part of encoded shielded payment addresses.
pub open spec fn hrp_payment_address(n: Network) -> Seq<char> {
    match n {
        Network::MainNetwork => "zs"@,
        Network::TestNetwork => "ztestsapling"@,
    }
}

/// Version bytes of transparent pay-to-public-key-hash addresses.
pub open spec fn pubkey_prefix(n: Network) -> Seq<u8> {
    match n {
        Network::MainNetwork => seq![0x1cu8, 0xb8u8],
        Network::TestNetwork => seq![0x1du8, 0x25u8],
    }
}

/// Version bytes of transparent pay-to-script-hash addresses.
pub open spec fn script_prefix(n: Network) -> Seq<u8> {
    match n {
        Network::MainNetwork => seq![0x1cu8, 0xbdu8],
        Network::TestNetwork => seq![0x1cu8, 0xbau8],
    }
}

pub fn spending_key_hrp(n: Network) -> (r: &'static str)
    ensures
        r@ == hrp_spending_key(n),
{
    match n {
        Network::MainNetwork => "secret-extended-key-main",
        Network::TestNetwork => "secret-extended-key-test",
    }
}

pub fn viewing_key_hrp(n: Network) -> (r: &'static str)
    ensures
        r@ == hrp_viewing_key(n),
{
    match n {
        Network::MainNetwork => "zxviews",
        Network::TestNetwork => "zxviewtestsapling",
    }
}

pub fn payment_address_hrp(n: Network) -> (r: &'static str)
    ensures
        r@ == hrp_payment_address(n),
{
    match n {
        Network::MainNetwork => "zs",
        Network::TestNetwork => "ztestsapling",
    }
}

fn transparent_prefixes(n: Network) -> (r: (u8, u8, u8, u8))
    ensures
        seq![r.0, r.1] == pubkey_prefix(n),
        seq![r.2, r.3] == script_prefix(n),
{
    match n {
        Network::MainNetwork => (0x1c, 0xb8, 0x1c, 0xbd),
        Network::TestNetwork => (0x1d, 0x25, 0x1c, 0xba),
    }
}

/// A transparent address: the 20-byte hash of a public key or of a script.
#[derive(Debug, Clone)]
pub enum TransparentAddress {
    PublicKey(Vec<u8>),
    Script(Vec<u8>),
}

/// An address that funds can be sent to.
#[derive(Debug, Clone)]
pub enum RecipientAddress {
    /// The 43 bytes of a shielded payment address.
    Shielded(Vec<u8>),
    Transparent(TransparentAddress),
}

/// The mathematical model of an address.
pub enum AddressV {
    Shielded(Seq<u8>),
    PublicKey(Seq<u8>),
    Script(Seq<u8>),
}

impl View for TransparentAddress {
    type V = AddressV;

    open spec fn view(&self) -> AddressV {
        match self {
            TransparentAddress::PublicKey(h) => AddressV::PublicKey(h@),
            TransparentAddress::Script(h) => AddressV::Script(h@),
        }
    }
}

impl View for RecipientAddress {
    type V = AddressV;

    open spec fn view(&self) -> AddressV {
        match self {
            RecipientAddress::Shielded(b) => AddressV::Shielded(b@),
            RecipientAddress::Transparent(t) => t@,
        }
    }
}

/// The bytes that Base58Check wraps for a transparent address: version bytes,
/// then the hash.
pub open spec fn transparent_payload(a: AddressV, n: Network) -> Seq<u8> {
    match a {
        AddressV::Script(h) => script_prefix(n) + h,
        AddressV::PublicKey(h) => pubkey_prefix(n) + h,
        AddressV::Shielded(b) => b,
    }
}

/// Reads a transparent address from a Base58Check payload: the version bytes
/// decide the kind and exactly 20 bytes of hash must follow.
pub open spec fn parse_transparent_payload(p: Seq<u8>, n: Network) -> Option<AddressV> {
    if p.len() >= 2 && p.subrange(0, 2) == pubkey_prefix(n) {
        if p.len() == 22 {
            Some(AddressV::PublicKey(p.subrange(2, 22)))
        } else {
            None
        }
    } else if p.len() >= 2 && p.subrange(0, 2) == script_prefix(n) {
        if p.len() == 22 {
            Some(AddressV::Script(p.subrange(2, 22)))
        } else {
            None
        }
    } else {
        None
    }
}

/// The transparent address a Base58Check text denotes on network `n`.
pub open spec fn decode_transparent(s: Seq<char>, n: Network) -> Option<AddressV> {
    match base58check_decoding(s) {
        Some(p) => parse_transparent_payload(p, n),
        None => None,
    }
}

/// The human-readable parts of both networks are plain.
pub proof fn lemma_hrps_plain(n: Network)
    ensures
        plain_hrp(hrp_spending_key(n)),
        plain_hrp(hrp_viewing_key(n)),
        plain_hrp(hrp_payment_address(n)),
{
    reveal_strlit("secret-extended-key-main");
    reveal_strlit("secret-extended-key-test");
    reveal_strlit("zxviews");
    reveal_strlit("zxviewtestsapling");
    reveal_strlit("zs");
    reveal_strlit("ztestsapling");
}

/// The human-readable parts of the two networks differ.
pub proof fn lemma_hrps_distinct(n: Network, other: Network)
    requires
        other != n,
    ensures
        hrp_spending_key(n) != hrp_spending_key(other),
        hrp_viewing_key(n) != hrp_viewing_key(other),
        hrp_payment_address(n) != hrp_payment_address(other),
{
    reveal_strlit("secret-extended-key-main");
    reveal_strlit("secret-extended-key-test");
    reveal_strlit("zxviews");
    reveal_strlit("zxviewtestsapling");
    reveal_strlit("zs");
    reveal_strlit("ztestsapling");
    assert(hrp_spending_key(n)[20] != hrp_spending_key(other)[20]);
    assert(hrp_viewing_key(n).len() != hrp_viewing_key(other).len());
    assert(hrp_payment_address(n).len() != hrp_payment_address(other).len());
}

/// The address a text denotes on network `n`: a shielded address when it is
/// Bech32 text under the network's prefix holding 43 valid bytes, else a
/// transparent address when it is Base58Check text of one.
pub open spec fn decode_address(s: Seq<char>, n: Network) -> Option<AddressV> {
    match bech32_decoding(s) {
        Some((hr, data)) if hr == hrp_payment_address(n) && data.len() == 43
            && sapling_address_bytes_valid(data) => Some(AddressV::Shielded(data)),
        _ => match base58check_decoding(s) {
            Some(p) => parse_transparent_payload(p, n),
            None => None,
        },
    }
}

/// The text of an address on network `n`.
pub open spec fn encode_address(a: AddressV, n: Network) -> Option<Seq<char>> {
    match a {
        AddressV::Shielded(b) => bech32_encoding(hrp_payment_address(n), b),
        _ => Some(base58check_encoding(transparent_payload(a, n))),
    }
}

fn parse_transparent(p: &Vec<u8>, n: Network) -> (r: Option<TransparentAddress>)
    ensures
        match r {
            Some(t) => parse_transparent_payload(p@, n) == Some(t@),
            None => parse_transparent_payload(p@, n) is None,
        },
{
    let (a, b, c, d) = transparent_prefixes(n);
    if p.len() < 2 {
        return None;
    }
    let mut hash: Vec<u8> = Vec::new();
    let mut i: usize = 2;
    while i < p.len()
        invariant
            2 <= i <= p@.len(),
            hash@ == p@.subrange(2, i as int),
        decreases p@.len() - i,
    {
        hash.push(p[i]);
        i += 1;
        assert(hash@ =~= p@.subrange(2, i as int));
    }
    let is_pubkey = p[0] == a && p[1] == b;
    let is_script = p[0] == c && p[1] == d;
    assert(is_pubkey == (p@.subrange(0, 2) == pubkey_prefix(n))) by {
        if is_pubkey {
            assert(p@.subrange(0, 2) =~= pubkey_prefix(n));
        }
    }
    assert(is_script == (p@.subrange(0, 2) == script_prefix(n))) by {
        if is_script {
            assert(p@.subrange(0, 2) =~= script_prefix(n));
        }
    }
    if is_pubkey {
        if p.len() == 22 {
            Some(TransparentAddress::PublicKey(hash))
        } else {
            None
        }
    } else if is_script {
        if p.len() == 22 {
            Some(TransparentAddress::Script(hash))
        } else {
            None
        }
    } else {
        None
    }
}

/// Decodes an address text for network `n`. Malformed text, text of another
/// network and text of another kind of value all give None.
pub fn decode_recipient_address(s: &str, n: Network) -> (r: Option<RecipientAddress>)
    ensures
        match r {
            Some(a) => decode_address(s@, n) == Some(a@),
            None => decode_address(s@, n) is None,
        },
{
    let hrp = payment_address_hrp(n);
    match bech32_decode(s) {
        Some((hr, data)) => {
            if hr == hrp.to_owned() && data.len() == 43 && sapling_address_valid(&data) {
                return Some(RecipientAddress::Shielded(data));
            }
        },
        None => {},
    }
    match base58check_decode(s) {
        Some(p) => match parse_transparent(&p, n) {
            Some(t) => Some(RecipientAddress::Transparent(t)),
            None => None,
        },
        None => None,
    }
}

/// Encodes an address for network `n`; None when the encoder refuses it. A
/// valid shielded address decodes back to itself on `n` and not as a shielded
/// address on the other network; a transparent address decodes back to itself
/// on `n` and to nothing on the other network.
pub fn encode_recipient_address(a: &RecipientAddress, n: Network) -> (r: Option<String>)
    ensures
        match r {
            Some(s) => encode_address(a@, n) == Some(s@),
            None => encode_address(a@, n) is None,
        },
        a@ matches AddressV::Shielded(b) ==> r is Some,
        (a@ matches AddressV::Shielded(b) && b.len() == 43 && sapling_address_bytes_valid(b)) ==> (
        decode_address(r.unwrap()@, n) == Some(a@) && forall|other: Network|
            other != n ==> !(#[trigger] decode_address(r.unwrap()@, other) matches Some(
                AddressV::Shielded(_),
            ))),
        !(a@ is Shielded) ==> r is Some,
        (!(a@ is Shielded) && (a@ matches AddressV::PublicKey(h) ==> h.len() == 20) && (a@ matches AddressV::Script(
            h,
        ) ==> h.len() == 20)) ==> (decode_transparent(r.unwrap()@, n) == Some(a@) && forall|other: Network|
            other != n ==> (#[trigger] decode_transparent(r.unwrap()@, other)) is None),
{
    proof {
        lemma_hrps_plain(n);
        lemma_hrps_plain(Network::MainNetwork);
        lemma_hrps_plain(Network::TestNetwork);
        reveal_strlit("zs");
        reveal_strlit("ztestsapling");
    }
    match a {
        RecipientAddress::Shielded(b) => bech32_encode(payment_address_hrp(n), b),
        RecipientAddress::Transparent(t) => {
            let payload = payload_of(t, n);
            proof {
                if (a@ matches AddressV::PublicKey(h) ==> h.len() == 20) && (a@ matches AddressV::Script(h)
                    ==> h.len() == 20) {
                    let other = if n == Network::MainNetwork {
                        Network::TestNetwork
                    } else {
                        Network::MainNetwork
                    };
                    lemma_transparent_payload_round_trip(a@, n, other);
                }
            }
            Some(base58check_encode(&payload))
        },
    }
}

/// The Base58Check payload of a transparent address on network `n`.
pub fn payload_of(t: &TransparentAddress, n: Network) -> (r: Vec<u8>)
    ensures
        r@ == transparent_payload(t@, n),
{
    let (p0, p1, s0, s1) = transparent_prefixes(n);
    let mut payload: Vec<u8> = Vec::new();
    let hash = match t {
        TransparentAddress::PublicKey(h) => {
            payload.push(p0);
            payload.push(p1);
            h
        },
        TransparentAddress::Script(h) => {
            payload.push(s0);
            payload.push(s1);
            h
        },
    };
    let ghost pre = payload@;
    assert(transparent_payload(t@, n) == pre + hash@) by {
        assert(pre =~= seq![p0, p1] || pre =~= seq![s0, s1]);
    }
    let mut i: usize = 0;
    while i < hash.len()
        invariant
            0 <= i <= hash@.len(),
            payload@ == pre + hash@.subrange(0, i as int),
        decreases hash@.len() - i,
    {
        payload.push(hash[i]);
        i += 1;
        assert(payload@ =~= pre + hash@.subrange(0, i as int));
    }
    assert(hash@.subrange(0, hash@.len() as int) =~= hash@);
    payload
}


/// Whether the text is a shielded payment address of network `n`.
pub fn is_valid_shielded_address(address: &str, n: Network) -> (r: bool)
    ensures
        r == (decode_address(address@, n) matches Some(AddressV::Shielded(_))),
{
    match decode_recipient_address(address, n) {
        Some(RecipientAddress::Shielded(_)) => true,
        _ => false,
    }
}

/// Whether the text is a transparent address of network `n`.
pub fn is_valid_transparent_address(address: &str, n: Network) -> (r: bool)
    ensures
        r == (decode_address(address@, n) matches Some(AddressV::PublicKey(_)) || decode_address(
            address@,
            n,
        ) matches Some(AddressV::Script(_))),
{
    match decode_recipient_address(address, n) {
        Some(RecipientAddress::Transparent(_)) => true,
        _ => false,
    }
}

/// Reading back the Base58Check payload of a transparent address gives the
/// address again on its own network, and nothing on the other network: the
/// version bytes of the two networks are disjoint.
pub proof fn lemma_transparent_payload_round_trip(a: AddressV, n: Network, other: Network)
    requires
        (a matches AddressV::PublicKey(h) && h.len() == 20) || (a matches AddressV::Script(h)
            && h.len() == 20),
        other != n,
    ensures
        parse_transparent_payload(transparent_payload(a, n), n) == Some(a),
        parse_transparent_payload(transparent_payload(a, n), other) is None,
{
    let p = transparent_payload(a, n);
    match a {
        AddressV::PublicKey(h) => {
            assert(p.subrange(0, 2) =~= pubkey_prefix(n));
            assert(p.subrange(2, 22) =~= h);
        },
        AddressV::Script(h) => {
            assert(p.subrange(0, 2) =~= script_prefix(n));
            assert(p.subrange(2, 22) =~= h);
            assert(script_prefix(n) != pubkey_prefix(n)) by {
                assert(script_prefix(n)[1] != pubkey_prefix(n)[1]);
            }
        },
        AddressV::Shielded(_) => {},
    }
    assert(pubkey_prefix(other) != p.subrange(0, 2)) by {
        assert(pubkey_prefix(other)[0] != p.subrange(0, 2)[0] || pubkey_prefix(other)[1] != p.subrange(0, 2)[1]);
    }
    assert(script_prefix(other) != p.subrange(0, 2)) by {
        assert(script_prefix(other)[0] != p.subrange(0, 2)[0] || script_prefix(other)[1] != p.subrange(0, 2)[1]);
    }
}

/// Shielded addresses of the two networks carry different human-readable parts,
/// so no Bech32 text is read as a shielded address on both.
pub proof fn lemma_shielded_prefixes_disjoint(s: Seq<char>, n: Network, other: Network)
    requires
        other != n,
        decode_address(s, n) matches Some(AddressV::Shielded(_)),
    ensures
        !(bech32_decoding(s) matches Some((hr, _)) && hr == hrp_payment_address(other)),
{
    reveal_strlit("zs");
    reveal_strlit("ztestsapling");
    assert(hrp_payment_address(n).len() != hrp_payment_address(other).len());
}

/// A text that decodes as a shielded address on one network never decodes as a
/// shielded address on the other, and a text that decodes as a transparent
/// address on one network never decodes as a transparent address on the other.
pub proof fn lemma_wrong_network_decoding(s: Seq<char>, n: Network, other: Network)
    requires
        other != n,
    ensures
        decode_address(s, n) matches Some(AddressV::Shielded(_)) ==> !(decode_address(
            s,
            other,
        ) matches Some(AddressV::Shielded(_))),
        (decode_address(s, n) matches Some(AddressV::PublicKey(_)) || decode_address(s, n) matches Some(
            AddressV::Script(_),
        )) ==> !(decode_address(s, other) matches Some(AddressV::PublicKey(_)) || decode_address(
            s,
            other,
        ) matches Some(AddressV::Script(_))),
{
    if decode_address(s, n) matches Some(AddressV::Shielded(_)) {
        lemma_shielded_prefixes_disjoint(s, n, other);
    }
    if decode_address(s, n) matches Some(AddressV::PublicKey(_)) || decode_address(s, n) matches Some(
        AddressV::Script(_),
    ) {
        let p = base58check_decoding(s).unwrap();
        assert(p.subrange(0, 2) == pubkey_prefix(n) || p.subrange(0, 2) == script_prefix(n));
        assert(p.len() == 22);
        assert(pubkey_prefix(other) != p.subrange(0, 2)) by {
            assert(pubkey_prefix(other)[0] != p.subrange(0, 2)[0] || pubkey_prefix(other)[1] != p.subrange(
                0,
                2,
            )[1]);
        }
        assert(script_prefix(other) != p.subrange(0, 2)) by {
            assert(script_prefix(other)[0] != p.subrange(0, 2)[0] || script_prefix(other)[1] != p.subrange(
                0,
                2,
            )[1]);
        }
    }
}

} // verus!
