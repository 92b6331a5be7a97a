use vstd::prelude::*;
use crate::bytes::{bytes_eq, bytes_to_vec};
use crate::codec::{
    decode_address, decode_recipient_address, hrp_viewing_key, payload_of, transparent_payload,
    AddressV, RecipientAddress,
};
use crate::error::WalletError;
use crate::balance::MAX_MONEY;
use crate::keys::{
    address_text_of_viewing_key, derive_account, derive_shielded_address_from_viewing_key,
    derived_account, key_payload, seed_ok,
};
use crate::scan::owner_from;
use crate::transparent::{payload_of_public_key, public_key_payload};
use crate::wallet::{
    AccountRecord, AddressV as TrackedV, ScannedBlock, TrackedAddress, Utxo, UtxoV, WalletState,
    WalletV, BlockV,
};

verus! {

/// The value of a hexadecimal digit, upper or lower case.
pub open spec fn hex_digit(c: char) -> Option<u8> {
    if '0' <= c && c <= '9' {
        Some((c as u32 - '0' as u32) as u8)
    } else if 'a' <= c && c <= 'f' {
        Some((c as u32 - 'a' as u32 + 10) as u8)
    } else if 'A' <= c && c <= 'F' {
        Some((c as u32 - 'A' as u32 + 10) as u8)
    } else {
        None
    }
}

/// The bytes a hexadecimal text denotes: an even number of digits, two per byte,
/// high digit first.
pub open spec fn hex_bytes(s: Seq<char>) -> Option<Seq<u8>>
    decreases s.len(),
{
    if s.len() == 0 {
        Some(Seq::empty())
    } else if s.len() < 2 {
        None
    } else {
        match (hex_digit(s[0]), hex_digit(s[1]), hex_bytes(s.subrange(2, s.len() as int))) {
            (Some(hi), Some(lo), Some(rest)) => Some(seq![(hi * 16 + lo) as u8] + rest),
            _ => None,
        }
    }
}

/// Relies on hex::decode: an even number of hexadecimal digits, either case, two
/// per byte; anything else is refused.
#[verifier::external_body]
fn hex_decode(s: &str) -> (r: Option<Vec<u8>>)
    ensures
        match r {
            Some(b) => hex_bytes(s@) == Some(b@),
            None => hex_bytes(s@) is None,
        },
{
    hex::decode(s).ok()
}

/// The block hash written in display order, as stored: its bytes reversed.
pub open spec fn reversed(b: Seq<u8>) -> Seq<u8> {
    Seq::new(b.len(), |i: int| b[b.len() - 1 - i])
}

fn reverse_bytes(b: &Vec<u8>) -> (r: Vec<u8>)
    ensures
        r@ == reversed(b@),
{
    let mut r: Vec<u8> = Vec::new();
    let mut i: usize = b.len();
    while i > 0
        invariant
            i <= b@.len(),
            r@ == reversed(b@).subrange(0, b@.len() - i),
        decreases i,
    {
        i -= 1;
        r.push(b[i]);
        assert(r@ =~= reversed(b@).subrange(0, b@.len() - i));
    }
    assert(r@ =~= reversed(b@));
    r
}

/// What initialising the scanned-blocks table with one known block does.
pub open spec fn init_blocks_result(w: WalletV, height: i32, hash_hex: Seq<char>, tree_size: u64) -> Result<
    WalletV,
    WalletError,
> {
    if height < 0 {
        Err(WalletError::InvalidArgument)
    } else if hex_bytes(hash_hex) is None {
        Err(WalletError::EncodingError)
    } else if hex_bytes(hash_hex).unwrap().len() != 32 {
        Err(WalletError::InvalidArgument)
    } else if w.blocks.len() > 0 {
        Err(WalletError::StorageError)
    } else {
        Ok(
            WalletV {
                blocks: seq![
                    BlockV {
                        height: height as u32,
                        hash: reversed(hex_bytes(hash_hex).unwrap()),
                        tree_size: tree_size as nat,
                    },
                ],
                tree_size: tree_size as nat,
                ..w
            },
        )
    }
}

/// What storing the accounts `0..accounts` derived from `seed` does: at least
/// one account is asked for, the table must be empty, and the encoded spending
/// keys are returned.
pub open spec fn init_accounts_result(w: WalletV, seed: Seq<u8>, accounts: i32) -> Result<
    (Seq<Seq<char>>, WalletV),
    WalletError,
> {
    if accounts <= 0 {
        Err(WalletError::InvalidArgument)
    } else if w.accounts.len() > 0 {
        Err(WalletError::StorageError)
    } else if !seed_ok(seed) {
        Err(WalletError::InvalidArgument)
    } else if exists|i: int|
        0 <= i < accounts && #[trigger] derived_account(seed, w.network, i as i32) is Err {
        Err(WalletError::EncodingError)
    } else {
        Ok(
            (
                Seq::new(accounts as nat, |i: int| derived_account(seed, w.network, i as i32).unwrap().0),
                WalletV {
                    accounts: Seq::new(
                        accounts as nat,
                        |i: int|
                            (
                                derived_account(seed, w.network, i as i32).unwrap().1,
                                derived_account(seed, w.network, i as i32).unwrap().2,
                            ),
                    ),
                    ..w
                },
            ),
        )
    }
}

impl WalletState {
    /// Records one known block (height, hash in display order as hexadecimal,
    /// and the size of the note commitment tree after it) so that scanning can
    /// start there instead of at the activation height.
    pub fn init_blocks_table(&mut self, height: i32, hash_hex: &str, tree_size: u64) -> (r: Result<
        (),
        WalletError,
    >)
        requires
            old(self).wf(),
        ensures
            final(self).wf(),
            match init_blocks_result(old(self)@, height, hash_hex@, tree_size) {
                Ok(w) => r is Ok && final(self)@ == w,
                Err(e) => r == Err::<(), WalletError>(e) && final(self)@ == old(self)@,
            },
    {
        if height < 0 {
            return Err(WalletError::InvalidArgument);
        }
        let hash = match hex_decode(hash_hex) {
            Some(h) => h,
            None => return Err(WalletError::EncodingError),
        };
        if hash.len() != 32 {
            return Err(WalletError::InvalidArgument);
        }
        if self.blocks.len() > 0 {
            return Err(WalletError::StorageError);
        }
        let stored = reverse_bytes(&hash);
        self.blocks.push(ScannedBlock { height: height as u32, hash: stored, tree_size });
        self.tree_size = tree_size;
        assert(self@.blocks =~= seq![
            BlockV { height: height as u32, hash: reversed(hash@), tree_size: tree_size as nat },
        ]);
        Ok(())
    }

    /// Derives accounts `0..accounts` (at least one) from `seed`, records each one's viewing key
    /// and default address, and returns their encoded spending keys, which the
    /// caller keeps. The table must be empty. On a failure nothing is recorded.
    pub fn init_accounts_table(&mut self, seed: &[u8], accounts: i32) -> (r: Result<Vec<String>, WalletError>)
        requires
            old(self).wf(),
        ensures
            final(self).wf(),
            match init_accounts_result(old(self)@, seed@, accounts) {
                Ok((keys, w)) => r matches Ok(v) && v@.map_values(|s: String| s@) == keys && final(self)@ == w,
                Err(e) => r == Err::<Vec<String>, WalletError>(e) && final(self)@ == old(self)@,
            },
    {
        if accounts <= 0 {
            return Err(WalletError::InvalidArgument);
        }
        if self.accounts.len() > 0 {
            return Err(WalletError::StorageError);
        }
        if seed.len() < 32 {
            return Err(WalletError::InvalidArgument);
        }
        let ghost net = self.network;
        let mut keys: Vec<String> = Vec::new();
        let mut records: Vec<AccountRecord> = Vec::new();
        let mut i: i32 = 0;
        while i < accounts
            invariant
                0 <= i <= accounts,
                net == self.network,
                self@ == old(self)@,
                self.wf(),
                old(self)@.accounts.len() == 0,
                seed_ok(seed@),
                keys@.len() == i,
                records@.len() == i,
                forall|j: int| 0 <= j < i ==> #[trigger] derived_account(seed@, net, j as i32) is Ok,
                forall|j: int| 0 <= j < i ==> #[trigger] keys@[j]@ == derived_account(seed@, net, j as i32).unwrap().0,
                forall|j: int| 0 <= j < i ==> (#[trigger] records@[j]).viewing_key@ == derived_account(seed@, net, j as i32).unwrap().1
                    && records@[j].address@ == derived_account(seed@, net, j as i32).unwrap().2,
            decreases accounts - i,
        {
            match derive_account(seed, self.network, i) {
                Ok(k) => {
                    keys.push(k.spending_key);
                    records.push(AccountRecord { viewing_key: k.viewing_key, address: k.address });
                },
                Err(e) => {
                    assert(derived_account(seed@, net, i) is Err);
                    assert(e == WalletError::EncodingError);
                    assert(derived_account(seed@, old(self)@.network, (i as int) as i32) is Err);
                    return Err(e);
                },
            }
            i += 1;
        }
        self.accounts = records;
        assert(keys@.map_values(|s: String| s@) =~= init_accounts_result(old(self)@, seed@, accounts).unwrap().0);
        assert(self@.accounts =~= init_accounts_result(old(self)@, seed@, accounts).unwrap().1.accounts);
        Ok(keys)
    }

    /// The recorded default address of `account`.
    pub fn get_address(&self, account: i32) -> (r: Result<String, WalletError>)
        ensures
            match r {
                Ok(a) => 0 <= account < self@.accounts.len() && a@ == self@.accounts[account as int].1,
                Err(e) => e == WalletError::InvalidArgument && !(0 <= account < self@.accounts.len()),
            },
    {
        if account < 0 || account as usize >= self.accounts.len() {
            return Err(WalletError::InvalidArgument);
        }
        Ok(self.accounts[account as usize].address.clone())
    }
}

/// The viewing key of an account and the public key of its transparent
/// address (hexadecimal), as texts.
#[derive(Debug, Clone)]
pub struct UnifiedViewingKey {
    pub extfvk: String,
    pub extpub: String,
}

/// What one imported key contributes: the account record (viewing key text and
/// default address text) and the payload of the transparent address of its
/// public key.
pub open spec fn imported_entry(k: UnifiedViewingKey, n: crate::network::Network) -> Option<
    ((Seq<char>, Seq<char>), Seq<u8>),
> {
    match key_payload(k.extfvk@, hrp_viewing_key(n)) {
        Some(v) => match (address_text_of_viewing_key(v, n), public_key_payload(k.extpub@, n)) {
            (Some(a), Some(p)) => Some(((k.extfvk@, a), p)),
            _ => None,
        },
        None => None,
    }
}

/// What recording accounts from their viewing keys does: account `i` gets key
/// `i`, and its transparent address is watched. The table must be empty.
pub open spec fn import_result(w: WalletV, keys: Seq<UnifiedViewingKey>) -> Result<WalletV, WalletError> {
    if w.accounts.len() > 0 {
        Err(WalletError::StorageError)
    } else if exists|i: int| 0 <= i < keys.len() && #[trigger] imported_entry(keys[i], w.network) is None {
        Err(WalletError::EncodingError)
    } else {
        Ok(
            WalletV {
                accounts: Seq::new(keys.len(), |i: int| imported_entry(keys[i], w.network).unwrap().0),
                addresses: w.addresses + Seq::new(
                    keys.len(),
                    |i: int|
                        TrackedV {
                            account: i as u32,
                            address: imported_entry(keys[i], w.network).unwrap().1,
                        },
                ),
                ..w
            },
        )
    }
}

/// The outputs of a transparent address above a height, which clearing removes.
pub open spec fn cleared(u: UtxoV, address: Seq<u8>, above: u32) -> bool {
    u.address == address && u.height > above
}

pub open spec fn remaining_utxos(utxos: Seq<UtxoV>, address: Seq<u8>, above: u32) -> Seq<UtxoV>
    decreases utxos.len(),
{
    if utxos.len() == 0 {
        Seq::empty()
    } else {
        remaining_utxos(utxos.drop_last(), address, above) + if cleared(utxos.last(), address, above) {
            Seq::empty()
        } else {
            seq![utxos.last()]
        }
    }
}

/// The payload of a transparent address text on network `n`.
pub open spec fn transparent_address_payload(s: Seq<char>, n: crate::network::Network) -> Option<Seq<u8>> {
    match decode_address(s, n) {
        Some(t) => if t is Shielded {
            None
        } else {
            Some(transparent_payload(t, n))
        },
        None => None,
    }
}

/// What recording a transparent output of a watched address does: the arguments
/// are checked, an output already recorded under the same transaction id and
/// index is kept as it is, and a new one is added unspent.
pub open spec fn put_utxo_result(
    w: WalletV,
    address: Seq<char>,
    txid: Seq<u8>,
    index: i32,
    script: Seq<u8>,
    value: i64,
    height: i32,
) -> Result<WalletV, WalletError> {
    if txid.len() != 32 || index < 0 || height < 0 || value < 0 || value > MAX_MONEY {
        Err(WalletError::InvalidArgument)
    } else {
        match transparent_address_payload(address, w.network) {
            None => Err(WalletError::EncodingError),
            Some(p) => match owner_from(w.addresses, p, 0) {
                None => Err(WalletError::InvalidArgument),
                Some(acct) => if exists|k: int|
                    0 <= k < w.utxos.len() && #[trigger] w.utxos[k].txid == txid && w.utxos[k].index
                        == index as u32 {
                    Ok(w)
                } else {
                    Ok(
                        WalletV {
                            utxos: w.utxos.push(
                                UtxoV {
                                    account: acct,
                                    address: p,
                                    txid: txid,
                                    index: index as u32,
                                    script: script,
                                    value: value as u64,
                                    height: height as u32,
                                    spent_at: None,
                                },
                            ),
                            ..w
                        },
                    )
                },
            },
        }
    }
}

/// Relies on zcash_primitives' Memo::from_bytes: the text of an empty or a text
/// memo (ZIP 302), and None for a memo of another kind or of more than 512 bytes.
#[verifier::external_body]
fn memo_text(memo: &[u8]) -> (r: Option<String>)
    ensures
        match r {
            Some(t) => memo_utf8(memo@) == Some(t@),
            None => memo_utf8(memo@) is None,
        },
{
    match zcash_primitives::memo::Memo::from_bytes(memo) {
        Ok(zcash_primitives::memo::Memo::Empty) => Some(String::new()),
        Ok(zcash_primitives::memo::Memo::Text(t)) => Some(t.into()),
        _ => None,
    }
}

/// The text of a memo: empty for the empty memo, the string of a text memo, and
/// None for any other memo.
pub uninterp spec fn memo_utf8(memo: Seq<u8>) -> Option<Seq<char>>;

impl WalletState {
    /// Records accounts from their viewing keys, tracking the transparent
    /// address of the public key given with each. The table must be empty; on a failure nothing is
    /// recorded.
    pub fn init_accounts_table_with_keys(&mut self, keys: &Vec<UnifiedViewingKey>) -> (r: Result<(), WalletError>)
        requires
            old(self).wf(),
        ensures
            final(self).wf(),
            match import_result(old(self)@, keys@) {
                Ok(w) => r is Ok && final(self)@ == w,
                Err(e) => r == Err::<(), WalletError>(e) && final(self)@ == old(self)@,
            },
    {
        if self.accounts.len() > 0 {
            return Err(WalletError::StorageError);
        }
        let ghost net = self.network;
        let mut records: Vec<AccountRecord> = Vec::new();
        let mut watched: Vec<TrackedAddress> = Vec::new();
        let mut i: usize = 0;
        while i < keys.len()
            invariant
                i <= keys@.len(),
                net == self.network,
                self@ == old(self)@,
                self.wf(),
                old(self)@.accounts.len() == 0,
                records@.len() == i,
                watched@.len() == i,
                forall|j: int| 0 <= j < i ==> #[trigger] imported_entry(keys@[j], net) is Some,
                forall|j: int|
                    0 <= j < i ==> ((#[trigger] records@[j]).viewing_key@, records@[j].address@)
                        == imported_entry(keys@[j], net).unwrap().0,
                forall|j: int|
                    0 <= j < i ==> (#[trigger] watched@[j])@ == (TrackedV {
                        account: j as u32,
                        address: imported_entry(keys@[j], net).unwrap().1,
                    }),
            decreases keys@.len() - i,
        {
            let k = &keys[i];
            let address = match derive_shielded_address_from_viewing_key(k.extfvk.as_str(), self.network) {
                Ok(a) => a,
                Err(_) => {
                    assert(imported_entry(keys@[i as int], net) is None);
                    return Err(WalletError::EncodingError);
                },
            };
            let payload = match payload_of_public_key(k.extpub.as_str(), self.network) {
                Some(p) => p,
                None => {
                    assert(imported_entry(keys@[i as int], net) is None);
                    return Err(WalletError::EncodingError);
                },
            };
            records.push(AccountRecord { viewing_key: k.extfvk.clone(), address });
            watched.push(TrackedAddress { account: #[verifier::truncate] (i as u32), address: payload });
            i += 1;
        }
        self.accounts = records;
        assert(!(exists|i: int| 0 <= i < keys@.len() && #[trigger] imported_entry(keys@[i], net) is None));
        assert(self@.accounts =~= import_result(old(self)@, keys@).unwrap().accounts);
        let ghost mid = self@;
        let ghost before = self@.addresses;
        let mut j: usize = 0;
        while j < watched.len()
            invariant
                j <= watched@.len(),
                self@ == (WalletV { addresses: self@.addresses, ..mid }),
                mid == (WalletV { accounts: import_result(old(self)@, keys@).unwrap().accounts, ..old(self)@ }),
                before == old(self)@.addresses,
                import_result(old(self)@, keys@) is Ok,
                watched@.len() == keys@.len(),
                forall|j: int|
                    0 <= j < keys@.len() ==> (#[trigger] watched@[j])@ == (TrackedV {
                        account: j as u32,
                        address: imported_entry(keys@[j], old(self)@.network).unwrap().1,
                    }),
                self.wf(),
                self@.addresses == before + watched@.subrange(0, j as int).map_values(|a: TrackedAddress| a@),
            decreases watched@.len() - j,
        {
            let a = TrackedAddress { account: watched[j].account, address: bytes_to_vec(&watched[j].address) };
            assert(a@ == watched@[j as int]@);
            let ghost prev = self@.addresses;
            self.addresses.push(a);
            assert(self@.addresses =~= prev.push(a@));
            assert(watched@.subrange(0, j + 1).map_values(|a: TrackedAddress| a@) =~= watched@.subrange(
                0,
                j as int,
            ).map_values(|a: TrackedAddress| a@).push(watched@[j as int]@));
            j += 1;
            assert(self@.addresses =~= before + watched@.subrange(0, j as int).map_values(|a: TrackedAddress| a@));
        }
        assert(watched@.subrange(0, watched@.len() as int) =~= watched@);
        assert(self@.addresses =~= import_result(old(self)@, keys@).unwrap().addresses);
        Ok(())
    }

    /// Records a transparent output that pays a watched address.
    pub fn put_utxo(
        &mut self,
        address: &str,
        txid: &[u8],
        index: i32,
        script: &[u8],
        value: i64,
        height: i32,
    ) -> (r: Result<(), WalletError>)
        requires
            old(self).wf(),
        ensures
            final(self).wf(),
            match put_utxo_result(old(self)@, address@, txid@, index, script@, value, height) {
                Ok(w) => r is Ok && final(self)@ == w,
                Err(e) => r == Err::<(), WalletError>(e) && final(self)@ == old(self)@,
            },
    {
        if txid.len() != 32 || index < 0 || height < 0 || value < 0 || value > MAX_MONEY as i64 {
            return Err(WalletError::InvalidArgument);
        }
        let t = match decode_recipient_address(address, self.network) {
            Some(RecipientAddress::Transparent(t)) => t,
            _ => return Err(WalletError::EncodingError),
        };
        let payload = payload_of(&t, self.network);
        let acct = match crate::scan::owner_of(&self.addresses, &payload) {
            Some(a) => a,
            None => return Err(WalletError::InvalidArgument),
        };
        let ghost utxos = self@.utxos;
        let mut k: usize = 0;
        while k < self.utxos.len()
            invariant
                k <= utxos.len(),
                utxos == self@.utxos,
                self@ == old(self)@,
                self.wf(),
                !(txid@.len() != 32 || index < 0 || height < 0 || value < 0 || value > MAX_MONEY),
                transparent_address_payload(address@, self@.network) == Some(payload@),
                owner_from(self@.addresses, payload@, 0) == Some(acct),
                forall|j: int| 0 <= j < k ==> !(#[trigger] utxos[j].txid == txid@ && utxos[j].index == index as u32),
            decreases utxos.len() - k,
        {
            if self.utxos[k].index == index as u32 && bytes_eq(&self.utxos[k].txid, txid) {
                assert(utxos[k as int] == self.utxos@[k as int]@);
                assert(utxos[k as int].txid == txid@ && utxos[k as int].index == index as u32);
                return Ok(());
            }
            k += 1;
        }
        let u = Utxo {
            account: acct,
            address: payload,
            txid: bytes_to_vec(txid),
            index: index as u32,
            script: bytes_to_vec(script),
            value: value as u64,
            height: height as u32,
            spent_at: None,
        };
        let ghost before = self@.utxos;
        self.utxos.push(u);
        assert(self@.utxos =~= before.push(u@));
        Ok(())
    }

    /// Removes the recorded outputs of a transparent address received above
    /// `above_height`, and returns how many were removed.
    pub fn clear_utxos(&mut self, address: &str, above_height: i32) -> (r: Result<usize, WalletError>)
        requires
            old(self).wf(),
        ensures
            final(self).wf(),
            match r {
                Ok(removed) => above_height >= 0 && (transparent_address_payload(
                    address@,
                    old(self)@.network,
                ) matches Some(p) && final(self)@ == (WalletV {
                    utxos: remaining_utxos(old(self)@.utxos, p, above_height as u32),
                    ..old(self)@
                }) && removed == old(self)@.utxos.len() - final(self)@.utxos.len()),
                Err(e) => final(self)@ == old(self)@ && if above_height < 0 {
                    e == WalletError::InvalidArgument
                } else {
                    e == WalletError::EncodingError && transparent_address_payload(address@, old(self)@.network) is None
                },
            },
    {
        if above_height < 0 {
            return Err(WalletError::InvalidArgument);
        }
        let t = match decode_recipient_address(address, self.network) {
            Some(RecipientAddress::Transparent(t)) => t,
            _ => return Err(WalletError::EncodingError),
        };
        let p = payload_of(&t, self.network);
        let above = above_height as u32;
        let ghost all = self@.utxos;
        let mut kept: Vec<Utxo> = Vec::new();
        let mut i: usize = 0;
        while i < self.utxos.len()
            invariant
                i <= all.len(),
                all == self@.utxos,
                crate::wallet::utxos_view(kept@) == remaining_utxos(all.subrange(0, i as int), p@, above),
                kept@.len() <= i,
            decreases all.len() - i,
        {
            let ghost prev = crate::wallet::utxos_view(kept@);
            assert(all.subrange(0, i + 1).drop_last() =~= all.subrange(0, i as int));
            let u = &self.utxos[i];
            assert(all[i as int] == u@);
            if !(u.height > above && bytes_eq(&u.address, &p)) {
                let c = Utxo {
                    account: u.account,
                    address: bytes_to_vec(&u.address),
                    txid: bytes_to_vec(&u.txid),
                    index: u.index,
                    script: bytes_to_vec(&u.script),
                    value: u.value,
                    height: u.height,
                    spent_at: u.spent_at,
                };
                kept.push(c);
                assert(crate::wallet::utxos_view(kept@) =~= prev.push(all[i as int]));
            }
            i += 1;
            assert(crate::wallet::utxos_view(kept@) =~= remaining_utxos(all.subrange(0, i as int), p@, above));
        }
        assert(all.subrange(0, all.len() as int) =~= all);
        let removed = self.utxos.len() - kept.len();
        self.utxos = kept;
        Ok(removed)
    }

    /// The text of the memo of recorded note `note`, when it is empty or text.
    pub fn get_received_memo_as_utf8(&self, note: usize) -> (r: Result<String, WalletError>)
        ensures
            match r {
                Ok(t) => note < self@.notes.len() && memo_utf8(self@.notes[note as int].memo) == Some(t@),
                Err(e) => if note >= self@.notes.len() {
                    e == WalletError::InvalidArgument
                } else {
                    e == WalletError::EncodingError && memo_utf8(self@.notes[note as int].memo) is None
                },
            },
    {
        if note >= self.notes.len() {
            return Err(WalletError::InvalidArgument);
        }
        match memo_text(&self.notes[note].memo) {
            Some(t) => Ok(t),
            None => Err(WalletError::EncodingError),
        }
    }
}

} // verus!
