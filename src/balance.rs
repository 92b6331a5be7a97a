use vstd::prelude::*;
use crate::bytes::bytes_eq;
use crate::error::WalletError;
use crate::wallet::{blocks_well_formed, tip_height, NoteV, UtxoV, WalletState, WalletV};

verus! {

/// How many blocks back from the next height the anchor of verified balances lies.
pub const ANCHOR_OFFSET: u32 = 10;

/// The largest amount of money, in the smallest unit, that can exist.
pub const MAX_MONEY: u64 = 2_100_000_000_000_000;

/// The sum of the values of the unspent notes of `account` received at or below
/// `bound`.
pub open spec fn unspent_note_sum(notes: Seq<NoteV>, account: u32, bound: int) -> nat
    decreases notes.len(),
{
    if notes.len() == 0 {
        0
    } else {
        let n = notes.last();
        unspent_note_sum(notes.drop_last(), account, bound) + if n.account == account
            && n.spent_at is None && n.height <= bound {
            n.value as nat
        } else {
            0
        }
    }
}

/// The sum of the values of the unspent outputs paying `address` received at or
/// below `bound`.
pub open spec fn unspent_utxo_sum(utxos: Seq<UtxoV>, address: Seq<u8>, bound: int) -> nat
    decreases utxos.len(),
{
    if utxos.len() == 0 {
        0
    } else {
        let u = utxos.last();
        unspent_utxo_sum(utxos.drop_last(), address, bound) + if u.address == address
            && u.spent_at is None && u.height <= bound {
            u.value as nat
        } else {
            0
        }
    }
}

/// The anchor height: `ANCHOR_OFFSET` below the next height (0 when the chain is
/// shorter than that). None before any scan.
pub open spec fn anchor_height(w: WalletV) -> Option<u32> {
    match tip_height(w) {
        None => None,
        Some(t) => Some(
            if t + 1 >= ANCHOR_OFFSET {
                (t + 1 - ANCHOR_OFFSET) as u32
            } else {
                0
            },
        ),
    }
}

/// A sum as an amount: refused as corrupt data above `MAX_MONEY`.
pub open spec fn as_amount(s: nat) -> Result<i64, WalletError> {
    if s > MAX_MONEY {
        Err(WalletError::Corruption)
    } else {
        Ok(s as i64)
    }
}

/// The shielded balance of `account`: every unspent note up to the scanned tip,
/// or, when `verified`, only those at or below the anchor height.
pub open spec fn shielded_balance(w: WalletV, account: i32, verified: bool) -> Result<i64, WalletError> {
    if account < 0 {
        Err(WalletError::InvalidArgument)
    } else {
        match tip_height(w) {
            None => Err(WalletError::ScanRequired),
            Some(t) => {
                let bound = if verified {
                    anchor_height(w).unwrap()
                } else {
                    t
                };
                as_amount(unspent_note_sum(w.notes, account as u32, bound as int))
            },
        }
    }
}

/// The transparent balance of `address`: every unspent output, or, when
/// `verified`, only those at or below the anchor height.
pub open spec fn transparent_balance(w: WalletV, address: Seq<u8>, verified: bool) -> Result<
    i64,
    WalletError,
> {
    match tip_height(w) {
        None => Err(WalletError::ScanRequired),
        Some(t) => {
            let bound = if verified {
                anchor_height(w).unwrap() as int
            } else {
                u32::MAX as int
            };
            as_amount(unspent_utxo_sum(w.utxos, address, bound))
        },
    }
}

proof fn lemma_note_sum_monotone(notes: Seq<NoteV>, account: u32, b1: int, b2: int)
    requires
        b1 <= b2,
    ensures
        unspent_note_sum(notes, account, b1) <= unspent_note_sum(notes, account, b2),
    decreases notes.len(),
{
    if notes.len() > 0 {
        lemma_note_sum_monotone(notes.drop_last(), account, b1, b2);
    }
}

proof fn lemma_utxo_sum_monotone(utxos: Seq<UtxoV>, address: Seq<u8>, b1: int, b2: int)
    requires
        b1 <= b2,
    ensures
        unspent_utxo_sum(utxos, address, b1) <= unspent_utxo_sum(utxos, address, b2),
    decreases utxos.len(),
{
    if utxos.len() > 0 {
        lemma_utxo_sum_monotone(utxos.drop_last(), address, b1, b2);
    }
}

proof fn lemma_anchor_below_tip(w: WalletV)
    requires
        w.blocks.len() > 0,
    ensures
        anchor_height(w).unwrap() <= tip_height(w).unwrap(),
{
}

/// Whenever both are computable, the verified balance of an account never
/// exceeds its total balance; and the verified balance is computable whenever
/// the total is.
pub proof fn lemma_verified_within_total(w: WalletV, account: i32)
    requires
        blocks_well_formed(w),
    ensures
        shielded_balance(w, account, false) is Ok ==> shielded_balance(w, account, true) is Ok,
        shielded_balance(w, account, false) is Ok && shielded_balance(w, account, true) is Ok
            ==> shielded_balance(w, account, true).unwrap() <= shielded_balance(
            w,
            account,
            false,
        ).unwrap(),
{
    if account >= 0 && w.blocks.len() > 0 {
        lemma_anchor_below_tip(w);
        lemma_note_sum_monotone(
            w.notes,
            account as u32,
            anchor_height(w).unwrap() as int,
            tip_height(w).unwrap() as int,
        );
    }
}

/// The same law for the transparent balance of an address.
pub proof fn lemma_verified_transparent_within_total(w: WalletV, address: Seq<u8>)
    requires
        blocks_well_formed(w),
    ensures
        transparent_balance(w, address, false) is Ok ==> transparent_balance(w, address, true) is Ok,
        transparent_balance(w, address, false) is Ok && transparent_balance(w, address, true) is Ok
            ==> transparent_balance(w, address, true).unwrap() <= transparent_balance(
            w,
            address,
            false,
        ).unwrap(),
{
    if w.blocks.len() > 0 {
        lemma_utxo_sum_monotone(w.utxos, address, anchor_height(w).unwrap() as int, u32::MAX as int);
    }
}

impl WalletState {
    pub(crate) fn anchor(&self) -> (r: u32)
        requires
            self@.blocks.len() > 0,
        ensures
            r == anchor_height(self@).unwrap(),
    {
        let t = self.blocks[self.blocks.len() - 1].height;
        if t >= ANCHOR_OFFSET - 1 {
            t - (ANCHOR_OFFSET - 1)
        } else {
            0
        }
    }

    fn note_sum(&self, account: u32, bound: u32) -> (r: Result<i64, WalletError>)
        ensures
            r == as_amount(unspent_note_sum(self@.notes, account, bound as int)),
    {
        let ghost notes = self@.notes;
        let mut sum: u64 = 0;
        let mut i: usize = 0;
        while i < self.notes.len()
            invariant
                i <= self.notes@.len(),
                notes == self@.notes,
                sum == unspent_note_sum(notes.subrange(0, i as int), account, bound as int),
                sum <= MAX_MONEY,
            decreases self.notes@.len() - i,
        {
            let n = &self.notes[i];
            proof {
                assert(notes.subrange(0, i + 1).drop_last() =~= notes.subrange(0, i as int));
                assert(notes[i as int] == n@);
            }
            if n.account == account && n.spent_at.is_none() && n.height <= bound {
                if n.value > MAX_MONEY - sum {
                    proof {
                        assert(notes.subrange(0, i + 1).drop_last() =~= notes.subrange(0, i as int));
                        lemma_note_sum_prefix(notes, account, bound as int, i + 1, notes.len() as int);
                        assert(notes.subrange(0, notes.len() as int) =~= notes);
                    }
                    return Err(WalletError::Corruption);
                }
                sum = sum + n.value;
            }
            i += 1;
        }
        assert(notes.subrange(0, notes.len() as int) =~= notes);
        Ok(sum as i64)
    }

    fn utxo_sum(&self, address: &[u8], bound: u32) -> (r: Result<i64, WalletError>)
        ensures
            r == as_amount(unspent_utxo_sum(self@.utxos, address@, bound as int)),
    {
        let ghost utxos = self@.utxos;
        let mut sum: u64 = 0;
        let mut i: usize = 0;
        while i < self.utxos.len()
            invariant
                i <= self.utxos@.len(),
                utxos == self@.utxos,
                sum == unspent_utxo_sum(utxos.subrange(0, i as int), address@, bound as int),
                sum <= MAX_MONEY,
            decreases self.utxos@.len() - i,
        {
            let u = &self.utxos[i];
            proof {
                assert(utxos.subrange(0, i + 1).drop_last() =~= utxos.subrange(0, i as int));
                assert(utxos[i as int] == u@);
            }
            if u.spent_at.is_none() && u.height <= bound && bytes_eq(&u.address, address) {
                if u.value > MAX_MONEY - sum {
                    proof {
                        lemma_utxo_sum_prefix(utxos, address@, bound as int, i + 1, utxos.len() as int);
                        assert(utxos.subrange(0, utxos.len() as int) =~= utxos);
                    }
                    return Err(WalletError::Corruption);
                }
                sum = sum + u.value;
            }
            i += 1;
        }
        assert(utxos.subrange(0, utxos.len() as int) =~= utxos);
        Ok(sum as i64)
    }

    /// The balance of `account` over every unspent note the wallet knows of.
    pub fn get_balance(&self, account: i32) -> (r: Result<i64, WalletError>)
        requires
            self.wf(),
        ensures
            r == shielded_balance(self@, account, false),
    {
        if account < 0 {
            return Err(WalletError::InvalidArgument);
        }
        let n = self.blocks.len();
        if n == 0 {
            return Err(WalletError::ScanRequired);
        }
        self.note_sum(account as u32, self.blocks[n - 1].height)
    }

    /// The balance of `account` over the unspent notes received at or below the
    /// anchor height, which are deemed spendable.
    pub fn get_verified_balance(&self, account: i32) -> (r: Result<i64, WalletError>)
        requires
            self.wf(),
        ensures
            r == shielded_balance(self@, account, true),
    {
        if account < 0 {
            return Err(WalletError::InvalidArgument);
        }
        if self.blocks.len() == 0 {
            return Err(WalletError::ScanRequired);
        }
        let anchor = self.anchor();
        self.note_sum(account as u32, anchor)
    }

    /// The balance of the transparent address over every unspent output paying it.
    pub fn get_total_transparent_balance(&self, address: &[u8]) -> (r: Result<i64, WalletError>)
        requires
            self.wf(),
        ensures
            r == transparent_balance(self@, address@, false),
    {
        if self.blocks.len() == 0 {
            return Err(WalletError::ScanRequired);
        }
        self.utxo_sum(address, u32::MAX)
    }

    /// The balance of the transparent address over the unspent outputs received
    /// at or below the anchor height.
    pub fn get_verified_transparent_balance(&self, address: &[u8]) -> (r: Result<i64, WalletError>)
        requires
            self.wf(),
        ensures
            r == transparent_balance(self@, address@, true),
    {
        if self.blocks.len() == 0 {
            return Err(WalletError::ScanRequired);
        }
        let anchor = self.anchor();
        self.utxo_sum(address, anchor)
    }
}

proof fn lemma_note_sum_prefix(notes: Seq<NoteV>, account: u32, bound: int, i: int, j: int)
    requires
        0 <= i <= j <= notes.len(),
    ensures
        unspent_note_sum(notes.subrange(0, i), account, bound) <= unspent_note_sum(
            notes.subrange(0, j),
            account,
            bound,
        ),
    decreases j - i,
{
    if i < j {
        lemma_note_sum_prefix(notes, account, bound, i, j - 1);
        assert(notes.subrange(0, j).drop_last() =~= notes.subrange(0, j - 1));
    }
}

proof fn lemma_utxo_sum_prefix(utxos: Seq<UtxoV>, address: Seq<u8>, bound: int, i: int, j: int)
    requires
        0 <= i <= j <= utxos.len(),
    ensures
        unspent_utxo_sum(utxos.subrange(0, i), address, bound) <= unspent_utxo_sum(
            utxos.subrange(0, j),
            address,
            bound,
        ),
    decreases j - i,
{
    if i < j {
        lemma_utxo_sum_prefix(utxos, address, bound, i, j - 1);
        assert(utxos.subrange(0, j).drop_last() =~= utxos.subrange(0, j - 1));
    }
}

} // verus!
