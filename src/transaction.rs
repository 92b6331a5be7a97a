use vstd::prelude::*;
use vstd::string::StringSliceAdditionalSpecFns;
use crate::balance::{anchor_height, MAX_MONEY};
use crate::codec::{decode_address, decode_recipient_address, AddressV, RecipientAddress};
use crate::error::WalletError;
use crate::codec::{bech32_encoding, hrp_spending_key, hrp_viewing_key};
use crate::keys::{derive_extended_full_viewing_key, key_payload, sapling_viewing_key_bytes};
use crate::wallet::{tip_height, NoteV, UtxoV, WalletState, WalletV};

verus! {

/// The fee of every transaction, in the smallest unit.
pub const DEFAULT_FEE: u64 = 1000;

/// Relies on zcash_primitives' Amount::from_i64, which accepts exactly the values
/// from -MAX_MONEY to MAX_MONEY.
#[verifier::external_body]
pub(crate) fn amount_in_range(value: i64) -> (r: bool)
    ensures
        r == (-(MAX_MONEY as int) <= value <= MAX_MONEY as int),
{
    zcash_primitives::transaction::components::Amount::from_i64(value).is_ok()
}

/// Relies on zcash_primitives' MemoBytes::from_bytes, which accepts a memo of at
/// most 512 bytes.
#[verifier::external_body]
pub(crate) fn memo_fits(memo: &[u8]) -> (r: bool)
    ensures
        r == (memo@.len() <= 512),
{
    zcash_primitives::memo::MemoBytes::from_bytes(memo).is_ok()
}

/// A note that may fund a transaction of `account`: unspent and received at or
/// below the anchor height.
pub open spec fn spendable(n: NoteV, account: u32, anchor: u32) -> bool {
    n.account == account && n.spent_at is None && n.height <= anchor
}

/// The notes chosen, in the wallet's order, from index `i` on when `acc` has
/// been gathered so far: spendable notes are taken until `target` is covered.
/// Returns the chosen indices and the value gathered in the end.
pub open spec fn select_notes(
    notes: Seq<NoteV>,
    account: u32,
    anchor: u32,
    target: nat,
    i: int,
    acc: nat,
) -> (Seq<int>, nat)
    decreases notes.len() - i,
{
    if acc >= target || i < 0 || i >= notes.len() {
        (Seq::empty(), acc)
    } else if spendable(notes[i], account, anchor) {
        let rest = select_notes(notes, account, anchor, target, i + 1, (acc + notes[i].value) as nat);
        (seq![i].add(rest.0), rest.1)
    } else {
        select_notes(notes, account, anchor, target, i + 1, acc)
    }
}

/// The inputs and amounts of a transaction that the wallet would build.
#[derive(Debug, Clone)]
pub struct TransactionPlan {
    /// Indices of the notes (or, when shielding, of the transparent outputs) spent.
    pub inputs: Vec<usize>,
    /// The value of the inputs.
    pub total_in: u64,
    /// The value sent to the recipient.
    pub amount: u64,
    pub fee: u64,
    /// The value returned to the sender.
    pub change: u64,
    /// The address text that receives `amount`.
    pub recipient: String,
}

pub open spec fn plan_view(p: TransactionPlan) -> (Seq<int>, nat, nat, nat, nat, Seq<char>) {
    (
        p.inputs@.map_values(|i: usize| i as int),
        p.total_in as nat,
        p.amount as nat,
        p.fee as nat,
        p.change as nat,
        p.recipient@,
    )
}

/// Whether `extsk` is the spending key of `account`: it must decode under the
/// network's prefix (else `EncodingError`), and its viewing key must be the one
/// the account records (else `InvalidArgument`).
pub open spec fn spending_key_check(w: WalletV, account: i32, extsk: Seq<char>) -> Result<(), WalletError> {
    match key_payload(extsk, hrp_spending_key(w.network)) {
        Some(sk) => match sapling_viewing_key_bytes(sk) {
            Some(vb) => match bech32_encoding(hrp_viewing_key(w.network), vb) {
                Some(v) => if 0 <= account < w.accounts.len() && w.accounts[account as int].0 == v {
                    Ok(())
                } else {
                    Err(WalletError::InvalidArgument)
                },
                None => Err(WalletError::EncodingError),
            },
            None => Err(WalletError::EncodingError),
        },
        None => Err(WalletError::EncodingError),
    }
}

/// What planning a payment does, in the order of its checks: the account, the
/// amount (strictly positive and within the valid range), the account's
/// spending key, the recipient text,
/// the memo (none for a transparent recipient, at most 512 bytes for a shielded
/// one), a scanned chain, and enough spendable notes to cover amount and fee
/// (a gathered value beyond 64 bits can only come from corrupt notes).
pub open spec fn spend_plan(
    w: WalletV,
    account: i32,
    extsk: Seq<char>,
    to: Seq<char>,
    value: i64,
    memo: Seq<u8>,
) -> Result<(Seq<int>, nat, nat, nat, nat, Seq<char>), WalletError> {
    if account < 0 {
        Err(WalletError::InvalidArgument)
    } else if !(-(MAX_MONEY as int) <= value <= MAX_MONEY as int) || value <= 0 {
        Err(WalletError::InvalidArgument)
    } else if spending_key_check(w, account, extsk) is Err {
        Err(spending_key_check(w, account, extsk)->Err_0)
    } else if decode_address(to, w.network) is None {
        Err(WalletError::EncodingError)
    } else if !(decode_address(to, w.network) matches Some(AddressV::Shielded(_))) && memo.len() > 0 {
        Err(WalletError::UnsupportedOperation)
    } else if memo.len() > 512 {
        Err(WalletError::InvalidArgument)
    } else if tip_height(w) is None {
        Err(WalletError::ScanRequired)
    } else {
        let target = (value + DEFAULT_FEE) as nat;
        let sel = select_notes(w.notes, account as u32, anchor_height(w).unwrap(), target, 0, 0);
        if sel.1 < target {
            Err(WalletError::InsufficientBalance)
        } else if sel.1 > u64::MAX {
            Err(WalletError::Corruption)
        } else {
            Ok((sel.0, sel.1, value as nat, DEFAULT_FEE as nat, (sel.1 - target) as nat, to))
        }
    }
}

pub open spec fn plan_result_view(r: Result<TransactionPlan, WalletError>) -> Result<
    (Seq<int>, nat, nat, nat, nat, Seq<char>),
    WalletError,
> {
    match r {
        Ok(p) => Ok(plan_view(p)),
        Err(e) => Err(e),
    }
}

proof fn lemma_select_grows(
    notes: Seq<NoteV>,
    account: u32,
    anchor: u32,
    target: nat,
    i: int,
    acc: nat,
)
    ensures
        select_notes(notes, account, anchor, target, i, acc).1 >= acc,
        acc < target ==> select_notes(notes, account, anchor, target, i, acc).1 < target + u64::MAX,
    decreases notes.len() - i,
{
    if acc >= target || i < 0 || i >= notes.len() {
    } else if spendable(notes[i], account, anchor) {
        lemma_select_grows(notes, account, anchor, target, i + 1, (acc + notes[i].value) as nat);
    } else {
        lemma_select_grows(notes, account, anchor, target, i + 1, acc);
    }
}

impl WalletState {
    /// Plans a payment of `value` to the address text `to` from `account`, whose
    /// spending key is `extsk`, with
    /// `memo` for a shielded recipient. Only spendable notes are chosen. The
    /// state is not changed.
    pub fn create_to_address(&self, account: i32, extsk: &str, to: &str, value: i64, memo: &str) -> (r:
        Result<TransactionPlan, WalletError>)
        requires
            self.wf(),
        ensures
            plan_result_view(r) == spend_plan(self@, account, extsk@, to@, value, memo.spec_bytes()),
    {
        if account < 0 {
            return Err(WalletError::InvalidArgument);
        }
        if !amount_in_range(value) || value <= 0 {
            return Err(WalletError::InvalidArgument);
        }
        if let Err(e) = self.check_spending_key(account, extsk) {
            return Err(e);
        }
        let recipient = match decode_recipient_address(to, self.network) {
            Some(a) => a,
            None => return Err(WalletError::EncodingError),
        };
        let memo_bytes = memo.as_bytes();
        let shielded = match recipient {
            RecipientAddress::Shielded(_) => true,
            RecipientAddress::Transparent(_) => false,
        };
        if !shielded && memo_bytes.len() > 0 {
            return Err(WalletError::UnsupportedOperation);
        }
        if !memo_fits(memo_bytes) {
            return Err(WalletError::InvalidArgument);
        }
        if self.blocks.len() == 0 {
            return Err(WalletError::ScanRequired);
        }
        let anchor = self.anchor_height();
        let acct = account as u32;
        let target: u128 = value as u128 + DEFAULT_FEE as u128;
        let ghost notes = self@.notes;
        let mut inputs: Vec<usize> = Vec::new();
        let mut acc: u128 = 0;
        let mut i: usize = 0;
        proof {
            lemma_select_grows(notes, acct, anchor, target as nat, 0, 0);
        }
        while i < self.notes.len() && acc < target
            invariant
                i <= notes.len(),
                notes == self@.notes,
                target == value + DEFAULT_FEE,
                value <= MAX_MONEY,
                acc <= target + u64::MAX,
                ({
                    let all = select_notes(notes, acct, anchor, target as nat, 0, 0);
                    let rest = select_notes(notes, acct, anchor, target as nat, i as int, acc as nat);
                    all.0 == inputs@.map_values(|k: usize| k as int).add(rest.0) && all.1 == rest.1
                }),
            decreases notes.len() - i,
        {
            let n = &self.notes[i];
            assert(notes[i as int] == n@);
            if n.account == acct && n.spent_at.is_none() && n.height <= anchor {
                let ghost before = inputs@.map_values(|k: usize| k as int);
                inputs.push(i);
                assert(inputs@.map_values(|k: usize| k as int) =~= before.push(i as int));
                let ghost rest = select_notes(notes, acct, anchor, target as nat, i + 1, (acc + n.value) as nat);
                assert(before.push(i as int).add(rest.0) =~= before.add(seq![i as int].add(rest.0)));
                acc = acc + n.value as u128;
            }
            i += 1;
        }
        assert(select_notes(notes, acct, anchor, target as nat, i as int, acc as nat).0 =~= Seq::<int>::empty());
        assert(inputs@.map_values(|k: usize| k as int).add(Seq::<int>::empty()) =~= inputs@.map_values(|k: usize| k as int));
        if acc < target {
            return Err(WalletError::InsufficientBalance);
        }
        if acc > u64::MAX as u128 {
            return Err(WalletError::Corruption);
        }
        Ok(TransactionPlan {
            inputs,
            total_in: acc as u64,
            amount: value as u64,
            fee: DEFAULT_FEE,
            change: (acc - target) as u64,
            recipient: to.to_owned(),
        })
    }

    fn check_spending_key(&self, account: i32, extsk: &str) -> (r: Result<(), WalletError>)
        ensures
            r == spending_key_check(self@, account, extsk@),
    {
        let v = match derive_extended_full_viewing_key(extsk, self.network) {
            Ok(v) => v,
            Err(e) => return Err(e),
        };
        if account < 0 || account as usize >= self.accounts.len() {
            return Err(WalletError::InvalidArgument);
        }
        if self.accounts[account as usize].viewing_key == v {
            Ok(())
        } else {
            Err(WalletError::InvalidArgument)
        }
    }

    pub(crate) fn anchor_height(&self) -> (r: u32)
        requires
            self.wf(),
            self@.blocks.len() > 0,
        ensures
            r == anchor_height(self@).unwrap(),
    {
        self.anchor()
    }
}

/// A transparent output that shielding of `account` takes: unspent and received
/// at or below the anchor height.
pub open spec fn shieldable(u: UtxoV, account: u32, anchor: u32) -> bool {
    u.account == account && u.spent_at is None && u.height <= anchor
}

/// The indices of the shieldable outputs among the first `k`.
pub open spec fn shieldable_indices(utxos: Seq<UtxoV>, account: u32, anchor: u32, k: int) -> Seq<int>
    decreases k,
{
    if k <= 0 || k > utxos.len() {
        Seq::empty()
    } else {
        shieldable_indices(utxos, account, anchor, k - 1) + if shieldable(
            utxos[k - 1],
            account,
            anchor,
        ) {
            seq![k - 1]
        } else {
            Seq::empty()
        }
    }
}

/// The value of the shieldable outputs among the first `k`.
pub open spec fn shieldable_value(utxos: Seq<UtxoV>, account: u32, anchor: u32, k: int) -> nat
    decreases k,
{
    if k <= 0 || k > utxos.len() {
        0
    } else {
        shieldable_value(utxos, account, anchor, k - 1) + if shieldable(
            utxos[k - 1],
            account,
            anchor,
        ) {
            utxos[k - 1].value as nat
        } else {
            0
        }
    }
}

/// What planning the shielding of an account's transparent funds does: the
/// account, its spending key and the memo are checked, a scanned chain is
/// needed, every shieldable output is taken, and their value less the fee goes
/// to one shielded note at the account's own address. No shieldable output gives `NothingToShield`; a value that does
/// not exceed the fee gives `InsufficientBalance`.
pub open spec fn shield_plan(w: WalletV, account: i32, extsk: Seq<char>, memo: Seq<u8>) -> Result<
    (Seq<int>, nat, nat, nat, nat, Seq<char>),
    WalletError,
> {
    if account < 0 {
        Err(WalletError::InvalidArgument)
    } else if spending_key_check(w, account, extsk) is Err {
        Err(spending_key_check(w, account, extsk)->Err_0)
    } else if memo.len() > 512 {
        Err(WalletError::InvalidArgument)
    } else if tip_height(w) is None {
        Err(WalletError::ScanRequired)
    } else {
        let anchor = anchor_height(w).unwrap();
        let n = w.utxos.len() as int;
        let ids = shieldable_indices(w.utxos, account as u32, anchor, n);
        let total = shieldable_value(w.utxos, account as u32, anchor, n);
        if ids.len() == 0 {
            Err(WalletError::NothingToShield)
        } else if total > MAX_MONEY {
            Err(WalletError::Corruption)
        } else if total <= DEFAULT_FEE {
            Err(WalletError::InsufficientBalance)
        } else {
            Ok((ids, total, (total - DEFAULT_FEE) as nat, DEFAULT_FEE as nat, 0, w.accounts[account as int].1))
        }
    }
}

proof fn lemma_shieldable_value_monotone(utxos: Seq<UtxoV>, account: u32, anchor: u32, j: int, k: int)
    requires
        0 <= j <= k <= utxos.len(),
    ensures
        shieldable_value(utxos, account, anchor, j) <= shieldable_value(utxos, account, anchor, k),
    decreases k - j,
{
    if j < k {
        lemma_shieldable_value_monotone(utxos, account, anchor, j, k - 1);
    }
}

impl WalletState {
    /// Plans the shielding of every shieldable transparent output of `account`
    /// (whose spending key is `extsk`) into one shielded note at the account's
    /// own address, with `memo`. The state is not
    /// changed.
    pub fn shield_funds(&self, account: i32, extsk: &str, memo: &str) -> (r: Result<TransactionPlan, WalletError>)
        requires
            self.wf(),
        ensures
            plan_result_view(r) == shield_plan(self@, account, extsk@, memo.spec_bytes()),
    {
        if account < 0 {
            return Err(WalletError::InvalidArgument);
        }
        if let Err(e) = self.check_spending_key(account, extsk) {
            return Err(e);
        }
        if !memo_fits(memo.as_bytes()) {
            return Err(WalletError::InvalidArgument);
        }
        if self.blocks.len() == 0 {
            return Err(WalletError::ScanRequired);
        }
        let anchor = self.anchor_height();
        let acct = account as u32;
        let ghost utxos = self@.utxos;
        let mut inputs: Vec<usize> = Vec::new();
        let mut total: u64 = 0;
        let mut i: usize = 0;
        while i < self.utxos.len()
            invariant
                i <= utxos.len(),
                utxos == self@.utxos,
                inputs@.map_values(|k: usize| k as int) == shieldable_indices(utxos, acct, anchor, i as int),
                total == shieldable_value(utxos, acct, anchor, i as int),
                total <= MAX_MONEY,
                account >= 0,
                acct == account as u32,
                memo.spec_bytes().len() <= 512,
                self@.blocks.len() > 0,
                spending_key_check(self@, account, extsk@) is Ok,
                anchor == anchor_height(self@).unwrap(),
            decreases utxos.len() - i,
        {
            let u = &self.utxos[i];
            assert(utxos[i as int] == u@);
            if u.account == acct && u.spent_at.is_none() && u.height <= anchor {
                if u.value > MAX_MONEY - total {
                    proof {
                        assert(shieldable(utxos[i as int], acct, anchor));
                        assert(shieldable_value(utxos, acct, anchor, i + 1) > MAX_MONEY);
                        lemma_shieldable_value_monotone(utxos, acct, anchor, i + 1, utxos.len() as int);
                        lemma_shieldable_nonempty(utxos, acct, anchor, i as int, utxos.len() as int);
                    }
                    return Err(WalletError::Corruption);
                }
                let ghost before = inputs@.map_values(|k: usize| k as int);
                inputs.push(i);
                assert(inputs@.map_values(|k: usize| k as int) =~= before.push(i as int));
                total = total + u.value;
            }
            i += 1;
            assert(inputs@.map_values(|k: usize| k as int) =~= shieldable_indices(utxos, acct, anchor, i as int));
        }
        if inputs.len() == 0 {
            return Err(WalletError::NothingToShield);
        }
        if total <= DEFAULT_FEE {
            return Err(WalletError::InsufficientBalance);
        }
        let recipient = self.accounts[account as usize].address.clone();
        Ok(
            TransactionPlan {
                inputs,
                total_in: total,
                amount: total - DEFAULT_FEE,
                fee: DEFAULT_FEE,
                change: 0,
                recipient,
            },
        )
    }
}

proof fn lemma_shieldable_nonempty(utxos: Seq<UtxoV>, account: u32, anchor: u32, i: int, k: int)
    requires
        0 <= i < k <= utxos.len(),
        shieldable(utxos[i], account, anchor),
    ensures
        shieldable_indices(utxos, account, anchor, k).len() > 0,
    decreases k - i,
{
    if k > i + 1 {
        lemma_shieldable_nonempty(utxos, account, anchor, i, k - 1);
    }
}

} // verus!
