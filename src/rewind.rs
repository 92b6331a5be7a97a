use vstd::prelude::*;
use crate::bytes::bytes_to_vec;
use crate::error::WalletError;
use crate::balance::shielded_balance;
use crate::scan::{
    apply_block, apply_tx, apply_txs, source_decs, DecSource, found_notes, found_utxos, scan_block_result,
    scan_budget, scan_from, spend_note, spend_utxo, CompactBlock, CompactTx,
};
use crate::wallet::{
    lemma_block_heights, blocks_well_formed, notes_view, tip_height, utxos_view, DecV, NoteV, ReceivedNote, Utxo,
    UtxoV, WalletState, WalletV,
};

verus! {

/// A note whose spend lies above `h` is unspent again after a rewind to `h`.
pub open spec fn unspend_note(n: NoteV, h: u32) -> NoteV {
    if n.spent_at matches Some(s) && s > h {
        NoteV { spent_at: None, ..n }
    } else {
        n
    }
}

pub open spec fn unspend_utxo(u: UtxoV, h: u32) -> UtxoV {
    if u.spent_at matches Some(s) && s > h {
        UtxoV { spent_at: None, ..u }
    } else {
        u
    }
}

/// The notes received at or below `h`, with the spends above `h` undone.
pub open spec fn kept_notes(notes: Seq<NoteV>, h: u32) -> Seq<NoteV>
    decreases notes.len(),
{
    if notes.len() == 0 {
        Seq::empty()
    } else {
        kept_notes(notes.drop_last(), h) + if notes.last().height <= h {
            seq![unspend_note(notes.last(), h)]
        } else {
            Seq::empty()
        }
    }
}

/// The transparent outputs received at or below `h`, with the spends above `h`
/// undone.
pub open spec fn kept_utxos(utxos: Seq<UtxoV>, h: u32) -> Seq<UtxoV>
    decreases utxos.len(),
{
    if utxos.len() == 0 {
        Seq::empty()
    } else {
        kept_utxos(utxos.drop_last(), h) + if utxos.last().height <= h {
            seq![unspend_utxo(utxos.last(), h)]
        } else {
            Seq::empty()
        }
    }
}

/// The state once everything derived from blocks above `h` is discarded; `h`
/// lies within the scanned blocks.
pub open spec fn rewound(w: WalletV, h: u32) -> WalletV {
    let blocks = w.blocks.subrange(0, h - w.blocks[0].height + 1);
    WalletV {
        blocks: blocks,
        notes: kept_notes(w.notes, h),
        utxos: kept_utxos(w.utxos, h),
        tree_size: blocks.last().tree_size,
        ..w
    }
}

/// What a rewind to `height` does: a negative height is refused; a height at or
/// above the scanned tip changes nothing; a height below the first scanned block
/// is refused, since the tree's state there is not known; any other height
/// discards what lies above it.
pub open spec fn rewind_result(w: WalletV, height: i32) -> Result<WalletV, WalletError> {
    if height < 0 {
        Err(WalletError::InvalidArgument)
    } else {
        match tip_height(w) {
            None => Ok(w),
            Some(t) => if height >= t {
                Ok(w)
            } else if height < w.blocks[0].height {
                Err(WalletError::InvalidArgument)
            } else {
                Ok(rewound(w, height as u32))
            },
        }
    }
}

/// The lowest height of a block holding an unspent note, if any.
pub open spec fn lowest_unspent_from(notes: Seq<NoteV>, i: int) -> Option<u32>
    decreases notes.len() - i,
{
    if i < 0 || i >= notes.len() {
        None
    } else {
        let rest = lowest_unspent_from(notes, i + 1);
        if notes[i].spent_at is None {
            match rest {
                Some(r) if r <= notes[i].height => Some(r),
                _ => Some(notes[i].height),
            }
        } else {
            rest
        }
    }
}

/// The height to rewind to for a requested `height`: low heights are kept as
/// they are; otherwise the request is lowered to the lowest height holding an
/// unspent note.
pub open spec fn nearest_rewind_height(w: WalletV, height: i32) -> i32 {
    if height < 100 {
        height
    } else {
        match lowest_unspent_from(w.notes, 0) {
            Some(b) if (b as int) < (height as int) => b as i32,
            _ => height,
        }
    }
}

fn copy_note(n: &ReceivedNote) -> (r: ReceivedNote)
    ensures
        r@ == n@,
{
    ReceivedNote {
        account: n.account,
        value: n.value,
        memo: bytes_to_vec(&n.memo),
        nullifier: bytes_to_vec(&n.nullifier),
        height: n.height,
        position: n.position,
        spent_at: n.spent_at,
    }
}

fn copy_utxo(u: &Utxo) -> (r: Utxo)
    ensures
        r@ == u@,
{
    Utxo {
        account: u.account,
        address: bytes_to_vec(&u.address),
        txid: bytes_to_vec(&u.txid),
        index: u.index,
        script: bytes_to_vec(&u.script),
        value: u.value,
        height: u.height,
        spent_at: u.spent_at,
    }
}

fn keep_notes(notes: &Vec<ReceivedNote>, h: u32) -> (r: Vec<ReceivedNote>)
    ensures
        notes_view(r@) == kept_notes(notes_view(notes@), h),
{
    let ghost all = notes_view(notes@);
    let mut r: Vec<ReceivedNote> = Vec::new();
    let mut i: usize = 0;
    while i < notes.len()
        invariant
            i <= notes@.len(),
            all == notes_view(notes@),
            notes_view(r@) == kept_notes(all.subrange(0, i as int), h),
        decreases notes@.len() - i,
    {
        let ghost prev = notes_view(r@);
        assert(all.subrange(0, i + 1).drop_last() =~= all.subrange(0, i as int));
        let n = &notes[i];
        if n.height <= h {
            let mut c = copy_note(n);
            match c.spent_at {
                Some(s) => {
                    if s > h {
                        c.spent_at = None;
                    }
                },
                None => {},
            }
            r.push(c);
            assert(notes_view(r@) =~= prev.push(unspend_note(all[i as int], h)));
        }
        i += 1;
        assert(notes_view(r@) =~= kept_notes(all.subrange(0, i as int), h));
    }
    assert(all.subrange(0, notes@.len() as int) =~= all);
    r
}

fn keep_utxos(utxos: &Vec<Utxo>, h: u32) -> (r: Vec<Utxo>)
    ensures
        utxos_view(r@) == kept_utxos(utxos_view(utxos@), h),
{
    let ghost all = utxos_view(utxos@);
    let mut r: Vec<Utxo> = Vec::new();
    let mut i: usize = 0;
    while i < utxos.len()
        invariant
            i <= utxos@.len(),
            all == utxos_view(utxos@),
            utxos_view(r@) == kept_utxos(all.subrange(0, i as int), h),
        decreases utxos@.len() - i,
    {
        let ghost prev = utxos_view(r@);
        assert(all.subrange(0, i + 1).drop_last() =~= all.subrange(0, i as int));
        let u = &utxos[i];
        if u.height <= h {
            let mut c = copy_utxo(u);
            match c.spent_at {
                Some(s) => {
                    if s > h {
                        c.spent_at = None;
                    }
                },
                None => {},
            }
            r.push(c);
            assert(utxos_view(r@) =~= prev.push(unspend_utxo(all[i as int], h)));
        }
        i += 1;
        assert(utxos_view(r@) =~= kept_utxos(all.subrange(0, i as int), h));
    }
    assert(all.subrange(0, utxos@.len() as int) =~= all);
    r
}

impl WalletState {
    /// Discards every note, transparent output, spend and scanned block above
    /// `height`, restoring the note commitment tree to its size there.
    pub fn rewind_to_height(&mut self, height: i32) -> (r: Result<(), WalletError>)
        requires
            old(self).wf(),
        ensures
            final(self).wf(),
            match rewind_result(old(self)@, height) {
                Ok(w) => r is Ok && final(self)@ == w,
                Err(e) => r == Err::<(), WalletError>(e) && final(self)@ == old(self)@,
            },
    {
        if height < 0 {
            return Err(WalletError::InvalidArgument);
        }
        let n = self.blocks.len();
        if n == 0 || height as u32 >= self.blocks[n - 1].height {
            return Ok(());
        }
        let h = height as u32;
        let first = self.blocks[0].height;
        if h < first {
            return Err(WalletError::InvalidArgument);
        }
        let ghost w = self@;
        proof {
            lemma_block_heights(w, (n - 1) as int);
        }
        let k = (h - first + 1) as usize;
        let notes = keep_notes(&self.notes, h);
        let utxos = keep_utxos(&self.utxos, h);
        self.notes = notes;
        self.utxos = utxos;
        self.blocks.truncate(k);
        self.tree_size = self.blocks[k - 1].tree_size;
        assert(self@.blocks =~= w.blocks.subrange(0, h - w.blocks[0].height + 1));
        assert(self@ == rewound(w, h));
        Ok(())
    }

    /// The height to which a rewind requested at `height` should go, so that no
    /// unspent note is left behind a rescan.
    pub fn get_nearest_rewind_height(&self, height: i32) -> (r: i32)
        ensures
            r == nearest_rewind_height(self@, height),
    {
        if height < 100 {
            return height;
        }
        let ghost notes = self@.notes;
        let mut best: Option<u32> = None;
        let mut i: usize = self.notes.len();
        while i > 0
            invariant
                i <= self.notes@.len(),
                notes == self@.notes,
                best == lowest_unspent_from(notes, i as int),
            decreases i,
        {
            i -= 1;
            let nh = self.notes[i].height;
            if self.notes[i].spent_at.is_none() {
                best = match best {
                    Some(b) if b <= nh => Some(b),
                    _ => Some(nh),
                };
            }
        }
        match best {
            Some(b) if (b as i64) < (height as i64) => b as i32,
            _ => height,
        }
    }
}

/// Every note and output, and every spend of one, lies at or below `t`.
pub open spec fn settled(w: WalletV, t: int) -> bool {
    &&& forall|k: int|
        0 <= k < w.notes.len() ==> #[trigger] w.notes[k].height <= t && (w.notes[k].spent_at matches Some(
            s,
        ) ==> s <= t)
    &&& forall|k: int|
        0 <= k < w.utxos.len() ==> #[trigger] w.utxos[k].height <= t && (w.utxos[k].spent_at matches Some(
            s,
        ) ==> s <= t)
}

proof fn lemma_kept_notes_concat(a: Seq<NoteV>, b: Seq<NoteV>, h: u32)
    ensures
        kept_notes(a + b, h) == kept_notes(a, h) + kept_notes(b, h),
    decreases b.len(),
{
    if b.len() == 0 {
        assert(a + b =~= a);
        assert(kept_notes(a, h) + kept_notes(b, h) =~= kept_notes(a, h));
    } else {
        assert((a + b).drop_last() =~= a + b.drop_last());
        lemma_kept_notes_concat(a, b.drop_last(), h);
        assert(kept_notes(a + b, h) =~= kept_notes(a, h) + kept_notes(b, h));
    }
}

proof fn lemma_kept_utxos_concat(a: Seq<UtxoV>, b: Seq<UtxoV>, h: u32)
    ensures
        kept_utxos(a + b, h) == kept_utxos(a, h) + kept_utxos(b, h),
    decreases b.len(),
{
    if b.len() == 0 {
        assert(a + b =~= a);
        assert(kept_utxos(a, h) + kept_utxos(b, h) =~= kept_utxos(a, h));
    } else {
        assert((a + b).drop_last() =~= a + b.drop_last());
        lemma_kept_utxos_concat(a, b.drop_last(), h);
        assert(kept_utxos(a + b, h) =~= kept_utxos(a, h) + kept_utxos(b, h));
    }
}

proof fn lemma_kept_notes_above(b: Seq<NoteV>, h: u32)
    requires
        forall|k: int| 0 <= k < b.len() ==> #[trigger] b[k].height > h,
    ensures
        kept_notes(b, h) == Seq::<NoteV>::empty(),
    decreases b.len(),
{
    if b.len() > 0 {
        lemma_kept_notes_above(b.drop_last(), h);
    }
}

proof fn lemma_kept_utxos_above(b: Seq<UtxoV>, h: u32)
    requires
        forall|k: int| 0 <= k < b.len() ==> #[trigger] b[k].height > h,
    ensures
        kept_utxos(b, h) == Seq::<UtxoV>::empty(),
    decreases b.len(),
{
    if b.len() > 0 {
        lemma_kept_utxos_above(b.drop_last(), h);
    }
}

proof fn lemma_kept_notes_spend(a: Seq<NoteV>, nfs: Seq<Vec<u8>>, bh: u32, h: u32)
    requires
        bh > h,
    ensures
        kept_notes(a.map_values(|n: NoteV| spend_note(n, nfs, bh)), h) == kept_notes(a, h),
    decreases a.len(),
{
    if a.len() > 0 {
        let m = a.map_values(|n: NoteV| spend_note(n, nfs, bh));
        assert(m.drop_last() =~= a.drop_last().map_values(|n: NoteV| spend_note(n, nfs, bh)));
        lemma_kept_notes_spend(a.drop_last(), nfs, bh, h);
        assert(m.last() == spend_note(a.last(), nfs, bh));
    }
}

proof fn lemma_kept_utxos_spend(a: Seq<UtxoV>, ins: Seq<crate::scan::OutPoint>, bh: u32, h: u32)
    requires
        bh > h,
    ensures
        kept_utxos(a.map_values(|u: UtxoV| spend_utxo(u, ins, bh)), h) == kept_utxos(a, h),
    decreases a.len(),
{
    if a.len() > 0 {
        let m = a.map_values(|u: UtxoV| spend_utxo(u, ins, bh));
        assert(m.drop_last() =~= a.drop_last().map_values(|u: UtxoV| spend_utxo(u, ins, bh)));
        lemma_kept_utxos_spend(a.drop_last(), ins, bh, h);
        assert(m.last() == spend_utxo(a.last(), ins, bh));
    }
}

proof fn lemma_found_notes_height(decs: Seq<Option<DecV>>, bh: u32, start: nat, k: int)
    ensures
        forall|j: int|
            0 <= j < found_notes(decs, bh, start, k).len() ==> (#[trigger] found_notes(
                decs,
                bh,
                start,
                k,
            )[j]).height == bh && found_notes(decs, bh, start, k)[j].spent_at is None,
    decreases k,
{
    if k > 0 {
        lemma_found_notes_height(decs, bh, start, k - 1);
    }
}

proof fn lemma_found_utxos_height(
    outs: Seq<crate::scan::TxOut>,
    txid: Seq<u8>,
    bh: u32,
    addrs: Seq<crate::wallet::AddressV>,
    k: int,
)
    ensures
        forall|j: int|
            0 <= j < found_utxos(outs, txid, bh, addrs, k).len() ==> (#[trigger] found_utxos(
                outs,
                txid,
                bh,
                addrs,
                k,
            )[j]).height == bh && found_utxos(outs, txid, bh, addrs, k)[j].spent_at is None,
    decreases k,
{
    if k > 0 {
        lemma_found_utxos_height(outs, txid, bh, addrs, k - 1);
    }
}

/// The notes and outputs kept by a rewind to `h` ignore every transaction of a
/// block above `h`.
proof fn lemma_kept_apply_txs(
    w: WalletV,
    bh: u32,
    txs: Seq<CompactTx>,
    decs: Seq<Seq<Option<DecV>>>,
    k: int,
    h: u32,
)
    requires
        bh > h,
    ensures
        kept_notes(apply_txs(w, bh, txs, decs, k).notes, h) == kept_notes(w.notes, h),
        kept_utxos(apply_txs(w, bh, txs, decs, k).utxos, h) == kept_utxos(w.utxos, h),
    decreases k,
{
    if k > 0 {
        lemma_kept_apply_txs(w, bh, txs, decs, k - 1, h);
        let w1 = apply_txs(w, bh, txs, decs, k - 1);
        let tx = txs[k - 1];
        let d = crate::scan::tx_decryptions(decs, k - 1);
        let spent = w1.notes.map_values(|n: NoteV| spend_note(n, tx.nullifiers@, bh));
        let found = found_notes(d, bh, w1.tree_size, tx.outputs@.len() as int);
        lemma_kept_notes_concat(spent, found, h);
        lemma_found_notes_height(d, bh, w1.tree_size, tx.outputs@.len() as int);
        lemma_kept_notes_above(found, h);
        lemma_kept_notes_spend(w1.notes, tx.nullifiers@, bh, h);
        assert(kept_notes(spent, h) + Seq::<NoteV>::empty() =~= kept_notes(spent, h));
        let uspent = w1.utxos.map_values(|u: UtxoV| spend_utxo(u, tx.transparent_inputs@, bh));
        let ufound = found_utxos(
            tx.transparent_outputs@,
            tx.txid@,
            bh,
            w1.addresses,
            tx.transparent_outputs@.len() as int,
        );
        lemma_kept_utxos_concat(uspent, ufound, h);
        lemma_found_utxos_height(
            tx.transparent_outputs@,
            tx.txid@,
            bh,
            w1.addresses,
            tx.transparent_outputs@.len() as int,
        );
        lemma_kept_utxos_above(ufound, h);
        lemma_kept_utxos_spend(w1.utxos, tx.transparent_inputs@, bh, h);
        assert(kept_utxos(uspent, h) + Seq::<UtxoV>::empty() =~= kept_utxos(uspent, h));
    }
}

proof fn lemma_settled_apply_txs(
    w: WalletV,
    bh: u32,
    txs: Seq<CompactTx>,
    decs: Seq<Seq<Option<DecV>>>,
    k: int,
)
    requires
        settled(w, bh as int),
    ensures
        settled(apply_txs(w, bh, txs, decs, k), bh as int),
    decreases k,
{
    if k > 0 {
        lemma_settled_apply_txs(w, bh, txs, decs, k - 1);
        let w1 = apply_txs(w, bh, txs, decs, k - 1);
        let tx = txs[k - 1];
        let d = crate::scan::tx_decryptions(decs, k - 1);
        lemma_found_notes_height(d, bh, w1.tree_size, tx.outputs@.len() as int);
        lemma_found_utxos_height(
            tx.transparent_outputs@,
            tx.txid@,
            bh,
            w1.addresses,
            tx.transparent_outputs@.len() as int,
        );
        let w2 = apply_tx(w1, bh, tx, d);
        let spent = w1.notes.map_values(|n: NoteV| spend_note(n, tx.nullifiers@, bh));
        let uspent = w1.utxos.map_values(|u: UtxoV| spend_utxo(u, tx.transparent_inputs@, bh));
        assert forall|j: int| 0 <= j < w2.notes.len() implies #[trigger] w2.notes[j].height <= bh
            && (w2.notes[j].spent_at matches Some(s) ==> s <= bh) by {
            if j < spent.len() {
                assert(w2.notes[j] == spend_note(w1.notes[j], tx.nullifiers@, bh));
                assert(w1.notes[j].height <= bh);
            }
        }
        assert forall|j: int| 0 <= j < w2.utxos.len() implies #[trigger] w2.utxos[j].height <= bh
            && (w2.utxos[j].spent_at matches Some(s) ==> s <= bh) by {
            if j < uspent.len() {
                assert(w2.utxos[j] == spend_utxo(w1.utxos[j], tx.transparent_inputs@, bh));
                assert(w1.utxos[j].height <= bh);
            }
        }
    }
}

proof fn lemma_kept_notes_settled(a: Seq<NoteV>, h: u32)
    requires
        forall|k: int|
            0 <= k < a.len() ==> #[trigger] a[k].height <= h && (a[k].spent_at matches Some(s) ==> s
                <= h),
    ensures
        kept_notes(a, h) == a,
    decreases a.len(),
{
    if a.len() > 0 {
        lemma_kept_notes_settled(a.drop_last(), h);
        assert(a.drop_last().push(a.last()) =~= a);
    }
}

proof fn lemma_kept_utxos_settled(a: Seq<UtxoV>, h: u32)
    requires
        forall|k: int|
            0 <= k < a.len() ==> #[trigger] a[k].height <= h && (a[k].spent_at matches Some(s) ==> s
                <= h),
    ensures
        kept_utxos(a, h) == a,
    decreases a.len(),
{
    if a.len() > 0 {
        lemma_kept_utxos_settled(a.drop_last(), h);
        assert(a.drop_last().push(a.last()) =~= a);
    }
}

/// Rewinding to `h` after a block above `h` was scanned gives what rewinding
/// before it gave.
proof fn lemma_rewound_apply_block(w: WalletV, b: CompactBlock, d: Seq<Seq<Option<DecV>>>, h: u32)
    requires
        blocks_well_formed(w),
        w.blocks.len() > 0,
        w.blocks[0].height <= h <= w.blocks.last().height,
        b.height > h,
    ensures
        rewound(apply_block(w, b, d), h) == rewound(w, h),
{
    let w1 = apply_block(w, b, d);
    crate::scan::lemma_apply_block_frame(w, b, d);
    lemma_kept_apply_txs(w, b.height, b.txs@, d, b.txs@.len() as int, h);
    lemma_block_heights(w, w.blocks.len() - 1);
    let n = h - w.blocks[0].height + 1;
    assert(w1.blocks[0] == w.blocks[0]);
    assert(w1.blocks.subrange(0, n) =~= w.blocks.subrange(0, n));
}

/// Rewinding a settled state to its own tip changes nothing.
proof fn lemma_rewound_at_tip(w: WalletV)
    requires
        blocks_well_formed(w),
        w.blocks.len() > 0,
        settled(w, w.blocks.last().height as int),
    ensures
        rewound(w, w.blocks.last().height) == w,
{
    let h = w.blocks.last().height;
    lemma_block_heights(w, w.blocks.len() - 1);
    lemma_kept_notes_settled(w.notes, h);
    lemma_kept_utxos_settled(w.utxos, h);
    assert(w.blocks.subrange(0, h - w.blocks[0].height + 1) =~= w.blocks);
}

proof fn lemma_apply_block_keeps(w: WalletV, b: CompactBlock, d: Seq<Seq<Option<DecV>>>)
    requires
        blocks_well_formed(w),
        w.blocks.len() > 0,
        settled(w, w.blocks.last().height as int),
        b.height == w.blocks.last().height + 1,
    ensures
        blocks_well_formed(apply_block(w, b, d)),
        apply_block(w, b, d).blocks.len() > 0,
        apply_block(w, b, d).blocks[0] == w.blocks[0],
        settled(apply_block(w, b, d), b.height as int),
{
    crate::scan::lemma_apply_block_frame(w, b, d);
    let w1 = apply_txs(w, b.height, b.txs@, d, b.txs@.len() as int);
    assert(settled(w, b.height as int));
    lemma_settled_apply_txs(w, b.height, b.txs@, d, b.txs@.len() as int);
    let w2 = apply_block(w, b, d);
    assert forall|i: int| 0 < i < w2.blocks.len() implies #[trigger] w2.blocks[i].height == w2.blocks[i
        - 1].height + 1 by {
        if i < w.blocks.len() {
            assert(w2.blocks[i] == w.blocks[i]);
            assert(w2.blocks[i - 1] == w.blocks[i - 1]);
        }
    }
}

/// Rewinding to `h` after scanning on from a tip at or above `h` gives what
/// rewinding before the scan gave.
proof fn lemma_rewound_scan_above(
    w: WalletV,
    blocks: Seq<CompactBlock>,
    decs: DecSource,
    i: int,
    budget: nat,
    h: u32,
)
    requires
        0 <= i,
        blocks_well_formed(w),
        w.blocks.len() > 0,
        w.blocks[0].height <= h <= w.blocks.last().height,
        scan_from(w, blocks, decs, i, budget) is Ok,
    ensures
        ({
            let w1 = scan_from(w, blocks, decs, i, budget).unwrap();
            &&& blocks_well_formed(w1)
            &&& w1.blocks.len() > 0
            &&& w1.blocks[0] == w.blocks[0]
            &&& w1.blocks.last().height >= w.blocks.last().height
            &&& rewound(w1, h) == rewound(w, h)
        }),
    decreases blocks.len() - i,
{
    if i >= blocks.len() || budget == 0 {
    } else if tip_height(w) is Some && blocks[i].height <= tip_height(w).unwrap() {
        lemma_rewound_scan_above(w, blocks, decs, i + 1, budget, h);
    } else {
        let d = source_decs(decs, w, blocks, i);
        let w2 = apply_block(w, blocks[i], d);
        crate::scan::lemma_apply_block_frame(w, blocks[i], d);
        lemma_rewound_apply_block(w, blocks[i], d, h);
        assert(blocks_well_formed(w2)) by {
            lemma_apply_txs_blocks(w, blocks[i], d);
        }
        lemma_rewound_scan_above(w2, blocks, decs, i + 1, (budget - 1) as nat, h);
    }
}

proof fn lemma_apply_txs_blocks(w: WalletV, b: CompactBlock, d: Seq<Seq<Option<DecV>>>)
    requires
        blocks_well_formed(w),
        w.blocks.len() > 0,
        b.height == w.blocks.last().height + 1,
    ensures
        blocks_well_formed(apply_block(w, b, d)),
        apply_block(w, b, d).blocks[0] == w.blocks[0],
{
    crate::scan::lemma_apply_block_frame(w, b, d);
    let w2 = apply_block(w, b, d);
    assert forall|i: int| 0 < i < w2.blocks.len() implies #[trigger] w2.blocks[i].height == w2.blocks[i
        - 1].height + 1 by {
        if i < w.blocks.len() {
            assert(w2.blocks[i] == w.blocks[i]);
            assert(w2.blocks[i - 1] == w.blocks[i - 1]);
        }
    }
}

/// A budget that covers every block left does not change what scanning does.
proof fn lemma_scan_budget_irrelevant(
    w: WalletV,
    blocks: Seq<CompactBlock>,
    decs: DecSource,
    i: int,
    b1: nat,
    b2: nat,
)
    requires
        0 <= i,
        b1 >= blocks.len() - i,
        b2 >= blocks.len() - i,
    ensures
        scan_from(w, blocks, decs, i, b1) == scan_from(w, blocks, decs, i, b2),
    decreases blocks.len() - i,
{
    if i < blocks.len() {
        if tip_height(w) is Some && blocks[i].height <= tip_height(w).unwrap() {
            lemma_scan_budget_irrelevant(w, blocks, decs, i + 1, b1, b2);
        } else {
            match scan_block_result(w, blocks[i], source_decs(decs, w, blocks, i)) {
                Err(_) => {},
                Ok(w1) => {
                    lemma_scan_budget_irrelevant(w1, blocks, decs, i + 1, (b1 - 1) as nat, (b2 - 1) as nat);
                },
            }
        }
    }
}

proof fn lemma_skip_low(
    w: WalletV,
    blocks: Seq<CompactBlock>,
    decs: DecSource,
    i: int,
    k: int,
    budget: nat,
)
    requires
        0 <= i <= k <= blocks.len(),
        tip_height(w) is Some,
        forall|j: int| i <= j < k ==> #[trigger] blocks[j].height <= tip_height(w).unwrap(),
    ensures
        scan_from(w, blocks, decs, i, budget) == scan_from(w, blocks, decs, k, budget),
    decreases k - i,
{
    if i < k && budget > 0 {
        lemma_skip_low(w, blocks, decs, i + 1, k, budget);
    } else if i < k {
        lemma_scan_from_zero(w, blocks, decs, k);
    }
}

proof fn lemma_scan_from_zero(
    w: WalletV,
    blocks: Seq<CompactBlock>,
    decs: DecSource,
    k: int,
)
    ensures
        scan_from(w, blocks, decs, k, 0) == Ok::<WalletV, WalletError>(w),
{
}

/// The run of a scan from a settled state whose tip is at most `h`, up to the
/// first block above `h`: every block before it lies at or below `h`, and the
/// state reached there has its tip at `h` and is what a rewind of the final
/// state to `h` gives back.
proof fn lemma_scan_passes(
    w: WalletV,
    blocks: Seq<CompactBlock>,
    decs: DecSource,
    i: int,
    budget: nat,
    h: u32,
) -> (r: (int, WalletV))
    requires
        0 <= i <= blocks.len(),
        budget >= blocks.len() - i,
        blocks_well_formed(w),
        w.blocks.len() > 0,
        w.blocks[0].height <= h,
        w.blocks.last().height <= h,
        settled(w, w.blocks.last().height as int),
        scan_from(w, blocks, decs, i, budget) is Ok,
        tip_height(scan_from(w, blocks, decs, i, budget).unwrap()).unwrap() > h,
    ensures
        i <= r.0 <= blocks.len(),
        forall|j: int| i <= j < r.0 ==> #[trigger] blocks[j].height <= h,
        blocks_well_formed(r.1),
        r.1.blocks.len() > 0,
        r.1.blocks.last().height == h,
        r.1.blocks[0] == w.blocks[0],
        rewound(scan_from(w, blocks, decs, i, budget).unwrap(), h) == r.1,
        scan_from(r.1, blocks, decs, r.0, (blocks.len() - r.0) as nat) == scan_from(w, blocks, decs, i, budget),
    decreases blocks.len() - i,
{
    if i >= blocks.len() {
        (i, w)
    } else if blocks[i].height <= w.blocks.last().height {
        assert(tip_height(w) is Some && blocks[i].height <= tip_height(w).unwrap());
        let r = lemma_scan_passes(w, blocks, decs, i + 1, budget, h);
        r
    } else {
        let d = source_decs(decs, w, blocks, i);
        crate::scan::lemma_apply_block_frame(w, blocks[i], d);
        if blocks[i].height > h {
            assert(w.blocks.last().height == h);
            lemma_rewound_apply_block(w, blocks[i], d, h);
            lemma_apply_txs_blocks(w, blocks[i], d);
            let w2 = apply_block(w, blocks[i], d);
            lemma_rewound_scan_above(w2, blocks, decs, i + 1, (budget - 1) as nat, h);
            lemma_rewound_at_tip(w);
            lemma_scan_budget_irrelevant(w, blocks, decs, i, budget, (blocks.len() - i) as nat);
            (i, w)
        } else {
            let w2 = apply_block(w, blocks[i], d);
            lemma_apply_block_keeps(w, blocks[i], d);
            let r = lemma_scan_passes(w2, blocks, decs, i + 1, (budget - 1) as nat, h);
            r
        }
    }
}

/// Rewinding to `h` and then scanning the same cache again gives back the state
/// from before the rewind, and with it the same balances. This holds for a state
/// obtained by scanning the cache from a settled state whose tip is at most `h`
/// (so that the cache still holds every block above `h` that was scanned), and
/// for `h` not below the first scanned block.
pub proof fn lemma_rewind_then_rescan(
    w0: WalletV,
    blocks: Seq<CompactBlock>,
    decs: DecSource,
    h: i32,
    account: i32,
)
    requires
        blocks_well_formed(w0),
        w0.blocks.len() > 0,
        settled(w0, w0.blocks.last().height as int),
        h >= 0,
        w0.blocks[0].height <= h,
        w0.blocks.last().height <= h,
        scan_from(w0, blocks, decs, 0, scan_budget(None, blocks.len())) is Ok,
    ensures
        ({
            let w1 = scan_from(w0, blocks, decs, 0, scan_budget(None, blocks.len())).unwrap();
            &&& rewind_result(w1, h) is Ok
            &&& scan_from(rewind_result(w1, h).unwrap(), blocks, decs, 0, scan_budget(None, blocks.len()))
                == Ok::<WalletV, WalletError>(w1)
            &&& shielded_balance(
                scan_from(rewind_result(w1, h).unwrap(), blocks, decs, 0, scan_budget(None, blocks.len())).unwrap(),
                account,
                false,
            ) == shielded_balance(w1, account, false)
        }),
{
    let n = scan_budget(None, blocks.len());
    let w1 = scan_from(w0, blocks, decs, 0, n).unwrap();
    lemma_block_heights(w0, w0.blocks.len() - 1);
    lemma_rewound_scan_above(w0, blocks, decs, 0, n, w0.blocks.last().height);
    if h >= w1.blocks.last().height {
        crate::scan::lemma_rescan_changes_nothing(w0, blocks, decs, decs, None);
    } else {
        let r = lemma_scan_passes(w0, blocks, decs, 0, n, h as u32);
        lemma_skip_low(r.1, blocks, decs, 0, r.0, n);
        lemma_scan_budget_irrelevant(r.1, blocks, decs, r.0, n, (blocks.len() - r.0) as nat);
    }
}

} // verus!
