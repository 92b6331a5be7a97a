use vstd::prelude::*;
use crate::bytes::{bytes_eq, bytes_to_vec};
use crate::error::WalletError;
use crate::network::{sapling_activation, sapling_activation_height};
use crate::wallet::{
    addresses_view, tip_height, AddressV, DecV, DecryptedNote, NoteV, ReceivedNote, TrackedAddress, Utxo, UtxoV,
    ScannedBlock, WalletState, WalletV, BlockV,
};

verus! {

/// A shielded output of a compact transaction, as trial decryption reads it.
#[derive(Debug, Clone)]
pub struct ShieldedOutput {
    pub cmu: Vec<u8>,
    pub epk: Vec<u8>,
    pub ciphertext: Vec<u8>,
}

/// A reference to a transparent output: transaction id and output index.
#[derive(Debug, Clone)]
pub struct OutPoint {
    pub txid: Vec<u8>,
    pub index: u32,
}

/// A transparent output: the address it pays, its script and its value.
#[derive(Debug, Clone)]
pub struct TxOut {
    pub address: Vec<u8>,
    pub script: Vec<u8>,
    pub value: u64,
}

/// A transaction of a compact block.
#[derive(Debug, Clone)]
pub struct CompactTx {
    pub txid: Vec<u8>,
    /// Nullifiers revealed by the shielded spends.
    pub nullifiers: Vec<Vec<u8>>,
    pub outputs: Vec<ShieldedOutput>,
    pub transparent_inputs: Vec<OutPoint>,
    pub transparent_outputs: Vec<TxOut>,
}

/// A compact block as the cache delivers it.
#[derive(Debug, Clone)]
pub struct CompactBlock {
    pub height: u32,
    pub hash: Vec<u8>,
    pub prev_hash: Vec<u8>,
    pub time: u32,
    pub txs: Vec<CompactTx>,
}

pub open spec fn nullifier_listed(nfs: Seq<Vec<u8>>, nf: Seq<u8>) -> bool {
    exists|k: int| 0 <= k < nfs.len() && #[trigger] nfs[k]@ == nf
}

pub open spec fn outpoint_listed(ins: Seq<OutPoint>, txid: Seq<u8>, index: u32) -> bool {
    exists|k: int| 0 <= k < ins.len() && #[trigger] ins[k].txid@ == txid && ins[k].index == index
}

/// A note is marked spent at `h` when a transaction of that block reveals its
/// nullifier.
pub open spec fn spend_note(n: NoteV, nfs: Seq<Vec<u8>>, h: u32) -> NoteV {
    if n.spent_at is None && nullifier_listed(nfs, n.nullifier) {
        NoteV { spent_at: Some(h), ..n }
    } else {
        n
    }
}

pub open spec fn spend_utxo(u: UtxoV, ins: Seq<OutPoint>, h: u32) -> UtxoV {
    if u.spent_at is None && outpoint_listed(ins, u.txid, u.index) {
        UtxoV { spent_at: Some(h), ..u }
    } else {
        u
    }
}

/// The view of one trial decryption result.
pub open spec fn dec_view(o: Option<DecryptedNote>) -> Option<DecV> {
    match o {
        Some(d) => Some(d@),
        None => None,
    }
}

/// The view of the trial decryption results of one transaction's outputs.
pub open spec fn tx_decs_view(v: Seq<Option<DecryptedNote>>) -> Seq<Option<DecV>> {
    v.map_values(|o: Option<DecryptedNote>| dec_view(o))
}

/// The view of the trial decryption results of one block, by transaction.
pub open spec fn block_decs_view(v: Seq<Vec<Option<DecryptedNote>>>) -> Seq<Seq<Option<DecV>>> {
    v.map_values(|t: Vec<Option<DecryptedNote>>| tx_decs_view(t@))
}

/// The view of the trial decryption results of a list of blocks.
pub open spec fn cache_decs_view(v: Seq<Vec<Vec<Option<DecryptedNote>>>>) -> Seq<Seq<Seq<Option<DecV>>>> {
    v.map_values(|b: Vec<Vec<Option<DecryptedNote>>>| block_decs_view(b@))
}

pub open spec fn decryption_at(decs: Seq<Option<DecV>>, o: int) -> Option<DecV> {
    if 0 <= o < decs.len() {
        decs[o]
    } else {
        None
    }
}

/// The notes found among the first `k` outputs of a transaction whose first
/// output takes tree position `start`.
pub open spec fn found_notes(decs: Seq<Option<DecV>>, h: u32, start: nat, k: int) -> Seq<
    NoteV,
>
    decreases k,
{
    if k <= 0 {
        Seq::empty()
    } else {
        found_notes(decs, h, start, k - 1) + match decryption_at(decs, k - 1) {
            Some(d) => seq![
                NoteV {
                    account: d.account,
                    value: d.value,
                    memo: d.memo,
                    nullifier: d.nullifier,
                    height: h,
                    position: (start + k - 1) as nat,
                    spent_at: None,
                },
            ],
            None => Seq::empty(),
        }
    }
}

/// The account of the first tracked address among `addrs[i..]` equal to `a`.
pub open spec fn owner_from(addrs: Seq<AddressV>, a: Seq<u8>, i: int) -> Option<u32>
    decreases addrs.len() - i,
{
    if i < 0 || i >= addrs.len() {
        None
    } else if addrs[i].address == a {
        Some(addrs[i].account)
    } else {
        owner_from(addrs, a, i + 1)
    }
}

/// The outputs among the first `k` transparent outputs of a transaction that pay
/// a tracked address.
pub open spec fn found_utxos(
    outs: Seq<TxOut>,
    txid: Seq<u8>,
    h: u32,
    addrs: Seq<AddressV>,
    k: int,
) -> Seq<UtxoV>
    decreases k,
{
    if k <= 0 {
        Seq::empty()
    } else {
        found_utxos(outs, txid, h, addrs, k - 1) + match owner_from(addrs, outs[k - 1].address@, 0) {
            Some(acct) => seq![
                UtxoV {
                    account: acct,
                    address: outs[k - 1].address@,
                    txid: txid,
                    index: (k - 1) as u32,
                    script: outs[k - 1].script@,
                    value: outs[k - 1].value,
                    height: h,
                    spent_at: None,
                },
            ],
            None => Seq::empty(),
        }
    }
}

/// The state after one transaction of the block at height `h`: its spends mark
/// notes and outputs spent, then each of its shielded outputs takes the next tree
/// position, and the decrypted ones and the transparent outputs that pay a
/// tracked address are recorded.
pub open spec fn apply_tx(w: WalletV, h: u32, tx: CompactTx, decs: Seq<Option<DecV>>) -> WalletV {
    WalletV {
        notes: w.notes.map_values(|n: NoteV| spend_note(n, tx.nullifiers@, h)) + found_notes(
            decs,
            h,
            w.tree_size,
            tx.outputs@.len() as int,
        ),
        utxos: w.utxos.map_values(|u: UtxoV| spend_utxo(u, tx.transparent_inputs@, h))
            + found_utxos(
            tx.transparent_outputs@,
            tx.txid@,
            h,
            w.addresses,
            tx.transparent_outputs@.len() as int,
        ),
        tree_size: w.tree_size + tx.outputs@.len(),
        ..w
    }
}

pub open spec fn tx_decryptions(decs: Seq<Seq<Option<DecV>>>, t: int) -> Seq<
    Option<DecV>,
> {
    if 0 <= t < decs.len() {
        decs[t]
    } else {
        Seq::empty()
    }
}

pub open spec fn apply_txs(
    w: WalletV,
    h: u32,
    txs: Seq<CompactTx>,
    decs: Seq<Seq<Option<DecV>>>,
    k: int,
) -> WalletV
    decreases k,
{
    if k <= 0 {
        w
    } else {
        apply_tx(apply_txs(w, h, txs, decs, k - 1), h, txs[k - 1], tx_decryptions(decs, k - 1))
    }
}

/// The number of shielded outputs in the first `k` transactions.
pub open spec fn outputs_in(txs: Seq<CompactTx>, k: int) -> nat
    decreases k,
{
    if k <= 0 {
        0
    } else {
        outputs_in(txs, k - 1) + txs[k - 1].outputs@.len()
    }
}

/// The state after scanning block `b` with the given trial decryption results
/// (`decs[t][o]` for output `o` of transaction `t`; a missing entry means that no
/// tracked key decrypted the output).
pub open spec fn apply_block(w: WalletV, b: CompactBlock, decs: Seq<Seq<Option<DecV>>>) -> WalletV {
    let w1 = apply_txs(w, b.height, b.txs@, decs, b.txs@.len() as int);
    WalletV {
        blocks: w1.blocks.push(BlockV { height: b.height, hash: b.hash@, tree_size: w1.tree_size }),
        ..w1
    }
}

/// The height that scanning expects next.
pub open spec fn next_height(w: WalletV) -> int {
    match tip_height(w) {
        Some(t) => t + 1,
        None => sapling_activation(w.network) as int,
    }
}

/// What scanning one block does: a block at or below the scanned tip is skipped,
/// a block that is not the next one reports the missing height, and a block that
/// would overflow the tree counter is refused.
pub open spec fn scan_block_result(w: WalletV, b: CompactBlock, decs: Seq<Seq<Option<DecV>>>) -> Result<
    WalletV,
    WalletError,
> {
    if tip_height(w) is Some && b.height <= tip_height(w).unwrap() {
        Ok(w)
    } else if b.height != next_height(w) {
        Err(WalletError::MissingBlock(next_height(w) as u32))
    } else if w.tree_size + outputs_in(b.txs@, b.txs@.len() as int) > u64::MAX {
        Err(WalletError::Corruption)
    } else {
        Ok(apply_block(w, b, decs))
    }
}

proof fn lemma_apply_txs_frame(
    w: WalletV,
    h: u32,
    txs: Seq<CompactTx>,
    decs: Seq<Seq<Option<DecV>>>,
    k: int,
)
    requires
        0 <= k <= txs.len(),
    ensures
        apply_txs(w, h, txs, decs, k).blocks == w.blocks,
        apply_txs(w, h, txs, decs, k).addresses == w.addresses,
        apply_txs(w, h, txs, decs, k).network == w.network,
        apply_txs(w, h, txs, decs, k).accounts == w.accounts,
        apply_txs(w, h, txs, decs, k).tree_size == w.tree_size + outputs_in(txs, k),
    decreases k,
{
    if k > 0 {
        lemma_apply_txs_frame(w, h, txs, decs, k - 1);
    }
}

pub(crate) proof fn lemma_outputs_in_monotone(txs: Seq<CompactTx>, j: int, k: int)
    requires
        j <= k,
    ensures
        outputs_in(txs, j) <= outputs_in(txs, k),
    decreases k - j,
{
    if j < k {
        lemma_outputs_in_monotone(txs, j, k - 1);
    }
}

fn nullifier_in(nfs: &Vec<Vec<u8>>, nf: &Vec<u8>) -> (r: bool)
    ensures
        r == nullifier_listed(nfs@, nf@),
{
    let mut k: usize = 0;
    while k < nfs.len()
        invariant
            k <= nfs@.len(),
            forall|j: int| 0 <= j < k ==> #[trigger] nfs@[j]@ != nf@,
        decreases nfs@.len() - k,
    {
        if bytes_eq(&nfs[k], nf) {
            return true;
        }
        k += 1;
    }
    false
}

fn outpoint_in(ins: &Vec<OutPoint>, txid: &Vec<u8>, index: u32) -> (r: bool)
    ensures
        r == outpoint_listed(ins@, txid@, index),
{
    let mut k: usize = 0;
    while k < ins.len()
        invariant
            k <= ins@.len(),
            forall|j: int|
                0 <= j < k ==> !(#[trigger] ins@[j].txid@ == txid@ && ins@[j].index == index),
        decreases ins@.len() - k,
    {
        if ins[k].index == index && bytes_eq(&ins[k].txid, txid) {
            return true;
        }
        k += 1;
    }
    false
}

pub(crate) fn owner_of(addrs: &Vec<TrackedAddress>, a: &Vec<u8>) -> (r: Option<u32>)
    ensures
        r == owner_from(addresses_view(addrs@), a@, 0),
{
    let ghost av = addresses_view(addrs@);
    let mut i: usize = 0;
    while i < addrs.len()
        invariant
            i <= addrs@.len(),
            av == addresses_view(addrs@),
            owner_from(av, a@, 0) == owner_from(av, a@, i as int),
        decreases addrs@.len() - i,
    {
        if bytes_eq(&addrs[i].address, a) {
            return Some(addrs[i].account);
        }
        i += 1;
    }
    None
}

impl WalletState {
    fn mark_spent_notes(&mut self, nfs: &Vec<Vec<u8>>, h: u32)
        ensures
            final(self)@ == (WalletV {
                notes: old(self)@.notes.map_values(|n: NoteV| spend_note(n, nfs@, h)),
                ..old(self)@
            }),
    {
        let ghost old_notes = old(self)@.notes;
        let mut i: usize = 0;
        while i < self.notes.len()
            invariant
                i <= self.notes@.len(),
                self.notes@.len() == old_notes.len(),
                self@ == (WalletV { notes: self@.notes, ..old(self)@ }),
                forall|j: int|
                    0 <= j < i ==> #[trigger] self.notes@[j]@ == spend_note(old_notes[j], nfs@, h),
                forall|j: int| i <= j < old_notes.len() ==> #[trigger] self.notes@[j]@ == old_notes[j],
            decreases old_notes.len() - i,
        {
            let ghost n0 = self.notes@[i as int]@;
            assert(n0 == old_notes[i as int]);
            if self.notes[i].spent_at.is_none() && nullifier_in(nfs, &self.notes[i].nullifier) {
                self.notes[i].spent_at = Some(h);
            }
            assert(self.notes@[i as int]@ == spend_note(n0, nfs@, h));
            i += 1;
        }
        assert(self@.notes =~= old_notes.map_values(|n: NoteV| spend_note(n, nfs@, h)));
        assert(self@ == (WalletV {
            notes: old(self)@.notes.map_values(|n: NoteV| spend_note(n, nfs@, h)),
            ..old(self)@
        }));
    }
}

impl WalletState {
    fn mark_spent_utxos(&mut self, ins: &Vec<OutPoint>, h: u32)
        ensures
            final(self)@ == (WalletV {
                utxos: old(self)@.utxos.map_values(|u: UtxoV| spend_utxo(u, ins@, h)),
                ..old(self)@
            }),
    {
        let ghost old_utxos = old(self)@.utxos;
        let mut i: usize = 0;
        while i < self.utxos.len()
            invariant
                i <= self.utxos@.len(),
                self.utxos@.len() == old_utxos.len(),
                self@ == (WalletV { utxos: self@.utxos, ..old(self)@ }),
                forall|j: int|
                    0 <= j < i ==> #[trigger] self.utxos@[j]@ == spend_utxo(old_utxos[j], ins@, h),
                forall|j: int| i <= j < old_utxos.len() ==> #[trigger] self.utxos@[j]@ == old_utxos[j],
            decreases old_utxos.len() - i,
        {
            let ghost u0 = self.utxos@[i as int]@;
            assert(u0 == old_utxos[i as int]);
            if self.utxos[i].spent_at.is_none() && outpoint_in(
                ins,
                &self.utxos[i].txid,
                self.utxos[i].index,
            ) {
                self.utxos[i].spent_at = Some(h);
            }
            assert(self.utxos@[i as int]@ == spend_utxo(u0, ins@, h));
            i += 1;
        }
        assert(self@.utxos =~= old_utxos.map_values(|u: UtxoV| spend_utxo(u, ins@, h)));
        assert(self@ == (WalletV {
            utxos: old(self)@.utxos.map_values(|u: UtxoV| spend_utxo(u, ins@, h)),
            ..old(self)@
        }));
    }

    fn add_found_notes(&mut self, decs: &Vec<Option<DecryptedNote>>, n_outputs: usize, h: u32)
        requires
            old(self).tree_size + n_outputs <= u64::MAX,
        ensures
            final(self)@ == (WalletV {
                notes: old(self)@.notes + found_notes(
                    tx_decs_view(decs@),
                    h,
                    old(self)@.tree_size,
                    n_outputs as int,
                ),
                tree_size: (old(self)@.tree_size + n_outputs) as nat,
                ..old(self)@
            }),
    {
        let start = self.tree_size;
        let mut o: usize = 0;
        while o < n_outputs
            invariant
                o <= n_outputs,
                start == old(self).tree_size,
                start + n_outputs <= u64::MAX,
                self@ == (WalletV {
                    notes: old(self)@.notes + found_notes(tx_decs_view(decs@), h, start as nat, o as int),
                    ..old(self)@
                }),
            decreases n_outputs - o,
        {
            let ghost prev = self@.notes;
            proof {
                reveal_with_fuel(found_notes, 2);
            }
            if o < decs.len() {
                match &decs[o] {
                    Some(d) => {
                        let note = ReceivedNote {
                            account: d.account,
                            value: d.value,
                            memo: bytes_to_vec(&d.memo),
                            nullifier: bytes_to_vec(&d.nullifier),
                            height: h,
                            position: start + o as u64,
                            spent_at: None,
                        };
                        self.notes.push(note);
                        assert(self@.notes =~= prev.push(note@));
                    },
                    None => {},
                }
            }
            o += 1;
            assert(self@.notes =~= old(self)@.notes + found_notes(
                tx_decs_view(decs@),
                h,
                start as nat,
                o as int,
            ));
        }
        self.tree_size = start + n_outputs as u64;
    }

    fn add_found_utxos(&mut self, outs: &Vec<TxOut>, txid: &Vec<u8>, h: u32)
        ensures
            final(self)@ == (WalletV {
                utxos: old(self)@.utxos + found_utxos(
                    outs@,
                    txid@,
                    h,
                    old(self)@.addresses,
                    outs@.len() as int,
                ),
                ..old(self)@
            }),
    {
        let mut k: usize = 0;
        while k < outs.len()
            invariant
                k <= outs@.len(),
                self@ == (WalletV {
                    utxos: old(self)@.utxos + found_utxos(
                        outs@,
                        txid@,
                        h,
                        old(self)@.addresses,
                        k as int,
                    ),
                    ..old(self)@
                }),
            decreases outs@.len() - k,
        {
            let out = &outs[k];
            let ghost prev = self@.utxos;
            proof {
                reveal_with_fuel(found_utxos, 2);
            }
            match owner_of(&self.addresses, &out.address) {
                Some(acct) => {
                    let u = Utxo {
                        account: acct,
                        address: bytes_to_vec(&out.address),
                        txid: bytes_to_vec(txid),
                        index: #[verifier::truncate] (k as u32),
                        script: bytes_to_vec(&out.script),
                        value: out.value,
                        height: h,
                        spent_at: None,
                    };
                    self.utxos.push(u);
                    assert(self@.utxos =~= prev.push(u@));
                },
                None => {},
            }
            k += 1;
            assert(self@.utxos =~= old(self)@.utxos + found_utxos(
                outs@,
                txid@,
                h,
                old(self)@.addresses,
                k as int,
            ));
        }
    }

    fn apply_tx(&mut self, h: u32, tx: &CompactTx, decs: &Vec<Option<DecryptedNote>>)
        requires
            old(self).tree_size + tx.outputs@.len() <= u64::MAX,
        ensures
            final(self)@ == apply_tx(old(self)@, h, *tx, tx_decs_view(decs@)),
    {
        self.mark_spent_notes(&tx.nullifiers, h);
        self.mark_spent_utxos(&tx.transparent_inputs, h);
        self.add_found_notes(decs, tx.outputs.len(), h);
        self.add_found_utxos(&tx.transparent_outputs, &tx.txid, h);
    }
}

impl WalletState {
    /// Scans one block with the results of trial decryption of its shielded
    /// outputs (`decrypted[t][o]` for output `o` of transaction `t`). A block at
    /// or below the scanned tip is skipped without any change; a block other than
    /// the next one fails with `MissingBlock` naming the expected height. On any
    /// failure the state is left as it was.
    pub fn scan_block(&mut self, block: &CompactBlock, decrypted: &Vec<Vec<Option<DecryptedNote>>>) -> (r:
        Result<(), WalletError>)
        requires
            old(self).wf(),
        ensures
            final(self).wf(),
            match scan_block_result(old(self)@, *block, block_decs_view(decrypted@)) {
                Ok(w) => r is Ok && final(self)@ == w,
                Err(e) => r == Err::<(), WalletError>(e) && final(self)@ == old(self)@,
            },
    {
        let n = self.blocks.len();
        if n > 0 && block.height <= self.blocks[n - 1].height {
            return Ok(());
        }
        let next: u32 = if n > 0 {
            self.blocks[n - 1].height + 1
        } else {
            sapling_activation_height(self.network)
        };
        if block.height != next {
            return Err(WalletError::MissingBlock(next));
        }
        assert(!(tip_height(old(self)@) is Some && block.height <= tip_height(
            old(self)@,
        ).unwrap()));
        assert(block.height == next_height(old(self)@));
        let ghost txs = block.txs@;
        let ghost nt = txs.len() as int;
        let mut total: u64 = self.tree_size;
        let mut t: usize = 0;
        while t < block.txs.len()
            invariant
                t <= txs.len(),
                txs == block.txs@,
                nt == txs.len(),
                self@ == old(self)@,
                self.wf(),
                !(tip_height(old(self)@) is Some && block.height <= tip_height(old(self)@).unwrap()),
                block.height == next_height(old(self)@),
                total == self.tree_size + outputs_in(txs, t as int),
            decreases nt - t,
        {
            let len = block.txs[t].outputs.len() as u64;
            if len > u64::MAX - total {
                proof {
                    lemma_outputs_in_monotone(txs, t + 1, nt);
                    assert(outputs_in(txs, t + 1) == outputs_in(txs, t as int) + len);
                    assert(old(self)@.tree_size + outputs_in(txs, nt) > u64::MAX);
                }
                return Err(WalletError::Corruption);
            }
            total = total + len;
            t += 1;
        }
        let ghost w0 = self@;
        let h = block.height;
        let empty: Vec<Option<DecryptedNote>> = Vec::new();
        assert(empty@ =~= Seq::<Option<DecryptedNote>>::empty());
        assert(tx_decs_view(empty@) =~= Seq::<Option<DecV>>::empty());
        let mut t: usize = 0;
        while t < block.txs.len()
            invariant
                t <= txs.len(),
                txs == block.txs@,
                nt == txs.len(),
                h == block.height,
                tx_decs_view(empty@) == Seq::<Option<DecV>>::empty(),
                w0.tree_size + outputs_in(txs, nt) <= u64::MAX,
                self@ == apply_txs(w0, h, txs, block_decs_view(decrypted@), t as int),
                self@.tree_size == w0.tree_size + outputs_in(txs, t as int),
            decreases nt - t,
        {
            let decs_t = if t < decrypted.len() {
                &decrypted[t]
            } else {
                &empty
            };
            assert(tx_decs_view(decs_t@) == tx_decryptions(block_decs_view(decrypted@), t as int));
            proof {
                lemma_outputs_in_monotone(txs, t + 1, nt);
            }
            self.apply_tx(h, &block.txs[t], decs_t);
            t += 1;
            proof {
                lemma_apply_txs_frame(w0, h, txs, block_decs_view(decrypted@), t as int);
            }
        }
        proof {
            lemma_apply_txs_frame(w0, h, txs, block_decs_view(decrypted@), nt);
        }
        let ghost before_push = self@;
        self.blocks.push(
            ScannedBlock { height: h, hash: bytes_to_vec(&block.hash), tree_size: self.tree_size },
        );
        assert(self@.blocks =~= before_push.blocks.push(
            BlockV { height: h, hash: block.hash@, tree_size: before_push.tree_size },
        ));
        Ok(())
    }
}

/// Where the trial decryption results of the blocks come from: given for every
/// block, or computed with viewing keys for the tree positions reached.
pub enum DecSource {
    Given(Seq<Seq<Seq<Option<DecV>>>>),
    Keys(Seq<crate::trial::ScanningKey>),
}

/// The trial decryption results used for `blocks[i]` when it is scanned onto `w`.
pub open spec fn source_decs(src: DecSource, w: WalletV, blocks: Seq<CompactBlock>, i: int) -> Seq<
    Seq<Option<DecV>>,
> {
    match src {
        DecSource::Given(d) => block_decryptions(d, i),
        DecSource::Keys(k) => crate::trial::block_trial(w.network, blocks[i], k, w.tree_size),
    }
}

/// The height expected after a scanned tip (or, for a wallet that scanned
/// nothing, the activation height of its network).
pub open spec fn expected_height(tip: Option<u32>, net: crate::network::Network) -> int {
    match tip {
        Some(t) => t + 1,
        None => sapling_activation(net) as int,
    }
}

pub open spec fn block_decryptions(decs: Seq<Seq<Seq<Option<DecV>>>>, i: int) -> Seq<
    Seq<Option<DecV>>,
> {
    if 0 <= i < decs.len() {
        decs[i]
    } else {
        Seq::empty()
    }
}

/// The state after scanning `blocks[i..]` with at most `budget` more blocks
/// taken; blocks at or below the tip reached so far are skipped and do not count.
pub open spec fn scan_from(
    w: WalletV,
    blocks: Seq<CompactBlock>,
    decs: DecSource,
    i: int,
    budget: nat,
) -> Result<WalletV, WalletError>
    decreases blocks.len() - i,
{
    if i < 0 || i >= blocks.len() || budget == 0 {
        Ok(w)
    } else if tip_height(w) is Some && blocks[i].height <= tip_height(w).unwrap() {
        scan_from(w, blocks, decs, i + 1, budget)
    } else {
        match scan_block_result(w, blocks[i], source_decs(decs, w, blocks, i)) {
            Err(e) => Err(e),
            Ok(w1) => scan_from(w1, blocks, decs, i + 1, (budget - 1) as nat),
        }
    }
}

/// How many blocks one call may scan: the limit, or the whole cache.
pub open spec fn scan_budget(limit: Option<u32>, n: nat) -> nat {
    match limit {
        Some(l) => l as nat,
        None => n,
    }
}

/// The decisions of `scan_from`, which depend on the tip and the tree size alone.
pub open spec fn scan_check(
    tip: Option<u32>,
    tree: nat,
    net: crate::network::Network,
    blocks: Seq<CompactBlock>,
    i: int,
    budget: nat,
) -> Result<(), WalletError>
    decreases blocks.len() - i,
{
    if i < 0 || i >= blocks.len() || budget == 0 {
        Ok(())
    } else if tip is Some && blocks[i].height <= tip.unwrap() {
        scan_check(tip, tree, net, blocks, i + 1, budget)
    } else if blocks[i].height != expected_height(tip, net) {
        Err(WalletError::MissingBlock(expected_height(tip, net) as u32))
    } else if tree + outputs_in(blocks[i].txs@, blocks[i].txs@.len() as int) > u64::MAX {
        Err(WalletError::Corruption)
    } else {
        scan_check(
            Some(blocks[i].height),
            tree + outputs_in(blocks[i].txs@, blocks[i].txs@.len() as int),
            net,
            blocks,
            i + 1,
            (budget - 1) as nat,
        )
    }
}

pub(crate) proof fn lemma_apply_block_frame(w: WalletV, b: CompactBlock, decs: Seq<Seq<Option<DecV>>>)
    ensures
        tip_height(apply_block(w, b, decs)) == Some(b.height),
        apply_block(w, b, decs).blocks == w.blocks.push(
            BlockV { height: b.height, hash: b.hash@, tree_size: apply_block(w, b, decs).tree_size },
        ),
        apply_block(w, b, decs).accounts == w.accounts,
        apply_block(w, b, decs).tree_size == w.tree_size + outputs_in(
            b.txs@,
            b.txs@.len() as int,
        ),
        apply_block(w, b, decs).network == w.network,
        apply_block(w, b, decs).addresses == w.addresses,
{
    lemma_apply_txs_frame(w, b.height, b.txs@, decs, b.txs@.len() as int);
}

pub(crate) proof fn lemma_scan_check_decides(
    w: WalletV,
    blocks: Seq<CompactBlock>,
    decs: DecSource,
    i: int,
    budget: nat,
)
    requires
        0 <= i,
    ensures
        scan_check(tip_height(w), w.tree_size, w.network, blocks, i, budget) matches Err(e)
            ==> scan_from(w, blocks, decs, i, budget) == Err::<WalletV, WalletError>(e),
        scan_check(tip_height(w), w.tree_size, w.network, blocks, i, budget) is Ok ==> scan_from(
            w,
            blocks,
            decs,
            i,
            budget,
        ) is Ok,
    decreases blocks.len() - i,
{
    if i >= blocks.len() || budget == 0 {
    } else if tip_height(w) is Some && blocks[i].height <= tip_height(w).unwrap() {
        lemma_scan_check_decides(w, blocks, decs, i + 1, budget);
    } else {
        assert(next_height(w) == expected_height(tip_height(w), w.network));
        let d = source_decs(decs, w, blocks, i);
        if blocks[i].height == next_height(w) && w.tree_size + outputs_in(
            blocks[i].txs@,
            blocks[i].txs@.len() as int,
        ) <= u64::MAX {
            lemma_apply_block_frame(w, blocks[i], d);
            lemma_scan_check_decides(
                apply_block(w, blocks[i], d),
                blocks,
                decs,
                i + 1,
                (budget - 1) as nat,
            );
        }
    }
}

impl WalletState {
    /// Decides, without changing anything, whether scanning `blocks` with the
    /// given limit succeeds, and which error it reports otherwise.
    pub(crate) fn check_scan(&self, blocks: &Vec<CompactBlock>, limit: Option<u32>) -> (r: Result<(), WalletError>)
        requires
            self.wf(),
        ensures
            r == scan_check(
                tip_height(self@),
                self@.tree_size,
                self@.network,
                blocks@,
                0,
                scan_budget(limit, blocks@.len()),
            ),
    {
        let ghost bs = blocks@;
        let ghost budget0 = scan_budget(limit, blocks@.len());
        let budget_start: u64 = match limit {
            Some(l) => l as u64,
            None => blocks.len() as u64,
        };
        let n = self.blocks.len();
        let mut tip: Option<u32> = if n > 0 {
            Some(self.blocks[n - 1].height)
        } else {
            None
        };
        let mut tree: u64 = self.tree_size;
        let mut budget: u64 = budget_start;
        let mut i: usize = 0;
        while i < blocks.len() && budget > 0
            invariant
                i <= bs.len(),
                bs == blocks@,
                budget0 == scan_budget(limit, blocks@.len()),
                                self.wf(),
                scan_check(tip_height(self@), self@.tree_size, self@.network, bs, 0, budget0)
                    == scan_check(tip, tree as nat, self@.network, bs, i as int, budget as nat),
            decreases bs.len() - i,
        {
            let b = &blocks[i];
            let skip = match tip {
                Some(t) => b.height <= t,
                None => false,
            };
            if !skip {
                let expected: u32 = match tip {
                    Some(t) => t + 1,
                    None => sapling_activation_height(self.network),
                };
                assert(expected == expected_height(tip, self@.network));
                if b.height != expected {
                    assert(scan_check(tip, tree as nat, self@.network, bs, i as int, budget as nat)
                        == Err::<(), WalletError>(WalletError::MissingBlock(expected)));
                    return Err(WalletError::MissingBlock(expected));
                }
                let mut total: u64 = tree;
                let mut t: usize = 0;
                let ghost txs = b.txs@;
                while t < b.txs.len()
                    invariant
                        t <= txs.len(),
                        txs == b.txs@,
                        total == tree + outputs_in(txs, t as int),
                        i < bs.len(),
                        bs == blocks@,
                        budget0 == scan_budget(limit, blocks@.len()),
                        *b == bs[i as int],
                        budget > 0,
                                                self.wf(),
                        !skip,
                        skip == (tip is Some && b.height <= tip.unwrap()),
                        b.height == expected_height(tip, self@.network),
                        scan_check(tip_height(self@), self@.tree_size, self@.network, bs, 0, budget0)
                            == scan_check(tip, tree as nat, self@.network, bs, i as int, budget as nat),
                    decreases txs.len() - t,
                {
                    let len = b.txs[t].outputs.len() as u64;
                    if len > u64::MAX - total {
                        proof {
                            lemma_outputs_in_monotone(txs, t + 1, txs.len() as int);
                            assert(scan_check(tip, tree as nat, self@.network, bs, i as int, budget as nat)
                                == Err::<(), WalletError>(WalletError::Corruption));
                        }

                        return Err(WalletError::Corruption);
                    }
                    total = total + len;
                    t += 1;
                }
                tip = Some(b.height);
                tree = total;
                budget = budget - 1;
            }
            i += 1;
        }
        Ok(())
    }
}

impl WalletState {
    /// Scans the cached blocks (oldest first) that lie above the scanned tip, at
    /// most `limit` of them when a limit is given, with the trial decryption
    /// results of each (`decrypted[b]` for `blocks[b]`). Blocks at or below the
    /// tip are skipped. The call is all or nothing: on a failure, such as a gap
    /// in the heights (`MissingBlock`), the state is left as it was.
    pub fn scan_cached_blocks(
        &mut self,
        blocks: &Vec<CompactBlock>,
        decrypted: &Vec<Vec<Vec<Option<DecryptedNote>>>>,
        limit: Option<u32>,
    ) -> (r: Result<(), WalletError>)
        requires
            old(self).wf(),
        ensures
            final(self).wf(),
            match scan_from(
                old(self)@,
                blocks@,
                DecSource::Given(cache_decs_view(decrypted@)),
                0,
                scan_budget(limit, blocks@.len()),
            ) {
                Ok(w) => r is Ok && final(self)@ == w,
                Err(e) => r == Err::<(), WalletError>(e) && final(self)@ == old(self)@,
            },
    {
        let ghost bs = blocks@;
        let ghost budget0 = scan_budget(limit, blocks@.len());
        let budget_start: u64 = match limit {
            Some(l) => l as u64,
            None => blocks.len() as u64,
        };
        let checked = self.check_scan(blocks, limit);
        proof {
            lemma_scan_check_decides(old(self)@, bs, DecSource::Given(cache_decs_view(decrypted@)), 0, budget0);
        }
        if let Err(e) = checked {
            return Err(e);
        }
        let empty: Vec<Vec<Option<DecryptedNote>>> = Vec::new();
        assert(empty@ =~= Seq::<Vec<Option<DecryptedNote>>>::empty());
        assert(block_decs_view(empty@) =~= Seq::<Seq<Option<DecV>>>::empty());
        let ghost result = scan_from(old(self)@, bs, DecSource::Given(cache_decs_view(decrypted@)), 0, budget0);
        let mut budget: u64 = budget_start;
        let mut i: usize = 0;
        while i < blocks.len() && budget > 0
            invariant
                i <= bs.len(),
                bs == blocks@,
                self.wf(),
                block_decs_view(empty@) == Seq::<Seq<Option<DecV>>>::empty(),
                self@.network == old(self)@.network,
                result is Ok,
                scan_from(self@, bs, DecSource::Given(cache_decs_view(decrypted@)), i as int, budget as nat) == result,
                scan_check(tip_height(self@), self@.tree_size, self@.network, bs, i as int, budget as nat) is Ok,
            decreases bs.len() - i,
        {
            let decs_b = if i < decrypted.len() {
                &decrypted[i]
            } else {
                &empty
            };
            assert(block_decs_view(decs_b@) == source_decs(DecSource::Given(cache_decs_view(decrypted@)), self@, bs, i as int));
            let ghost w = self@;
            let n = self.blocks.len();
            let skip = n > 0 && blocks[i].height <= self.blocks[n - 1].height;
            proof {
                if !skip {
                    assert(next_height(w) == expected_height(tip_height(w), w.network));
                    lemma_apply_block_frame(w, blocks@[i as int], block_decs_view(decs_b@));
                }
            }
            let _ = self.scan_block(&blocks[i], decs_b);
            if !skip {
                budget = budget - 1;
            }
            i += 1;
        }
        proof {
            lemma_scan_from_end(self@, bs, DecSource::Given(cache_decs_view(decrypted@)), i as int, budget as nat);
        }
        Ok(())
    }
}

pub(crate) proof fn lemma_scan_from_end(
    w: WalletV,
    blocks: Seq<CompactBlock>,
    decs: DecSource,
    i: int,
    budget: nat,
)
    requires
        0 <= i,
        i >= blocks.len() || budget == 0,
    ensures
        scan_from(w, blocks, decs, i, budget) == Ok::<WalletV, WalletError>(w),
{
}

proof fn lemma_scan_reaches_all(
    w: WalletV,
    blocks: Seq<CompactBlock>,
    decs: DecSource,
    i: int,
    budget: nat,
)
    requires
        0 <= i <= blocks.len(),
        budget >= blocks.len() - i,
        scan_from(w, blocks, decs, i, budget) is Ok,
    ensures
        ({
            let w1 = scan_from(w, blocks, decs, i, budget).unwrap();
            &&& tip_height(w) is Some ==> tip_height(w1) is Some && tip_height(w1).unwrap()
                >= tip_height(w).unwrap()
            &&& forall|j: int|
                i <= j < blocks.len() ==> tip_height(w1) is Some && #[trigger] blocks[j].height
                    <= tip_height(w1).unwrap()
        }),
    decreases blocks.len() - i,
{
    if i < blocks.len() {
        if tip_height(w) is Some && blocks[i].height <= tip_height(w).unwrap() {
            lemma_scan_reaches_all(w, blocks, decs, i + 1, budget);
        } else {
            let d = source_decs(decs, w, blocks, i);
            let w1 = apply_block(w, blocks[i], d);
            lemma_apply_block_frame(w, blocks[i], d);
            lemma_scan_reaches_all(w1, blocks, decs, i + 1, (budget - 1) as nat);
        }
    }
}

proof fn lemma_scan_below_tip(
    w: WalletV,
    blocks: Seq<CompactBlock>,
    decs: DecSource,
    i: int,
    budget: nat,
)
    requires
        0 <= i,
        forall|j: int|
            i <= j < blocks.len() ==> tip_height(w) is Some && #[trigger] blocks[j].height
                <= tip_height(w).unwrap(),
    ensures
        scan_from(w, blocks, decs, i, budget) == Ok::<WalletV, WalletError>(w),
    decreases blocks.len() - i,
{
    if i < blocks.len() && budget > 0 {
        assert(blocks[i].height <= tip_height(w).unwrap());
        lemma_scan_below_tip(w, blocks, decs, i + 1, budget);
    }
}

/// Scanning a cache again after a successful scan of all of it changes nothing:
/// no note, output or tree position is added twice, whatever the decryption
/// results and the limit handed to the second call.
pub proof fn lemma_rescan_changes_nothing(
    w: WalletV,
    blocks: Seq<CompactBlock>,
    decs: DecSource,
    decs_again: DecSource,
    limit: Option<u32>,
)
    requires
        scan_from(w, blocks, decs, 0, scan_budget(None, blocks.len())) is Ok,
    ensures
        ({
            let w1 = scan_from(w, blocks, decs, 0, scan_budget(None, blocks.len())).unwrap();
            scan_from(w1, blocks, decs_again, 0, scan_budget(limit, blocks.len()))
                == Ok::<WalletV, WalletError>(w1)
        }),
{
    let w1 = scan_from(w, blocks, decs, 0, scan_budget(None, blocks.len())).unwrap();
    lemma_scan_reaches_all(w, blocks, decs, 0, scan_budget(None, blocks.len()));
    lemma_scan_below_tip(w1, blocks, decs_again, 0, scan_budget(limit, blocks.len()));
}

} // verus!
