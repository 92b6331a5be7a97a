use vstd::prelude::*;
use crate::error::WalletError;
use crate::network::Network;
use crate::scan::{
    block_decs_view, expected_height, lemma_apply_block_frame, lemma_scan_check_decides,
    lemma_scan_from_end, next_height, outputs_in, scan_block_result, scan_budget, scan_check,
    scan_from, tx_decs_view, CompactBlock, DecSource, ShieldedOutput,
};
use crate::wallet::tip_height;
use crate::wallet::{DecV, DecryptedNote, WalletState};
use zcash_primitives::consensus::{BlockHeight, Network as Chain};
use zcash_primitives::note_encryption::try_sapling_compact_note_decryption;
use zcash_primitives::zip32::ExtendedFullViewingKey;

verus! {

/// Value and nullifier of the note that trial decryption of a compact output
/// yields with an extended full viewing key, for the note at tree position
/// `position`; None when the key does not decrypt the output.
pub uninterp spec fn compact_note_decryption(
    n: Network,
    height: u32,
    viewing_key: Seq<u8>,
    cmu: Seq<u8>,
    epk: Seq<u8>,
    ciphertext: Seq<u8>,
    position: u64,
) -> Option<(u64, Seq<u8>)>;

/// Relies on zcash_primitives' try_sapling_compact_note_decryption with the
/// incoming viewing key of the serialized viewing key, and on Note::nf for the
/// nullifier at `position`. Keys and outputs that do not parse decrypt nothing.
#[verifier::external_body]
fn try_decrypt(n: Network, height: u32, viewing_key: &[u8], out: &ShieldedOutput, position: u64) -> (r:
    Option<(u64, Vec<u8>)>)
    requires
        out.ciphertext@.len() == 52,
    ensures
        match r {
            Some((v, nf)) => compact_note_decryption(n, height, viewing_key@, out.cmu@, out.epk@, out.ciphertext@, position) == Some((v, nf@)),
            None => compact_note_decryption(n, height, viewing_key@, out.cmu@, out.epk@, out.ciphertext@, position) is None,
        },
{
    let params = match n {
        Network::MainNetwork => Chain::MainNetwork,
        Network::TestNetwork => Chain::TestNetwork,
    };
    let fvk = ExtendedFullViewingKey::read(viewing_key).ok()?;
    let epk: jubjub::AffinePoint = Option::from(jubjub::AffinePoint::from_bytes(out.epk.as_slice().try_into().ok()?))?;
    let cmu = Option::from(bls12_381::Scalar::from_bytes(&out.cmu.as_slice().try_into().ok()?))?;
    let h = BlockHeight::from_u32(height);
    let (note, _) = try_sapling_compact_note_decryption(&params, h, &fvk.fvk.vk.ivk(), &epk.into(), &cmu, &out.ciphertext)?;
    Some((note.value, note.nf(&fvk.fvk.vk, position).0.to_vec()))
}

/// A serialized extended full viewing key that scanning tries, with its account.
#[derive(Debug, Clone)]
pub struct ScanningKey {
    pub account: u32,
    pub viewing_key: Vec<u8>,
}

/// What trial decryption of `out` at tree position `pos` yields with the keys
/// `keys[i..]`: the note found with the first key that decrypts it. A compact
/// output carries no memo; outputs whose ciphertext is not 52 bytes long decrypt
/// to nothing.
pub open spec fn trial_from(
    n: Network,
    h: u32,
    keys: Seq<ScanningKey>,
    out: ShieldedOutput,
    pos: u64,
    i: int,
) -> Option<DecV>
    decreases keys.len() - i,
{
    if i < 0 || i >= keys.len() || out.ciphertext@.len() != 52 {
        None
    } else {
        match compact_note_decryption(n, h, keys[i].viewing_key@, out.cmu@, out.epk@, out.ciphertext@, pos) {
            Some((v, nf)) => Some(DecV { account: keys[i].account, value: v, memo: Seq::empty(), nullifier: nf }),
            None => trial_from(n, h, keys, out, pos, i + 1),
        }
    }
}

/// The trial decryption results of a block whose first output takes tree
/// position `start`: output `o` of transaction `t` takes the next position after
/// the outputs before it.
pub open spec fn block_trial(n: Network, b: CompactBlock, keys: Seq<ScanningKey>, start: nat) -> Seq<
    Seq<Option<DecV>>,
> {
    Seq::new(
        b.txs@.len(),
        |t: int|
            Seq::new(
                b.txs@[t].outputs@.len(),
                |o: int|
                    trial_from(
                        n,
                        b.height,
                        keys,
                        b.txs@[t].outputs@[o],
                        (start + outputs_in(b.txs@, t) + o) as u64,
                        0,
                    ),
            ),
    )
}

fn trial_keys(n: Network, h: u32, keys: &Vec<ScanningKey>, out: &ShieldedOutput, pos: u64) -> (r: Option<
    DecryptedNote,
>)
    ensures
        crate::scan::dec_view(r) == trial_from(n, h, keys@, *out, pos, 0),
{
    if out.ciphertext.len() != 52 {
        return None;
    }
    let mut i: usize = 0;
    while i < keys.len()
        invariant
            i <= keys@.len(),
            out.ciphertext@.len() == 52,
            trial_from(n, h, keys@, *out, pos, 0) == trial_from(n, h, keys@, *out, pos, i as int),
        decreases keys@.len() - i,
    {
        match try_decrypt(n, h, &keys[i].viewing_key, out, pos) {
            Some((value, nullifier)) => {
                let d = DecryptedNote { account: keys[i].account, value, memo: Vec::new(), nullifier };
                assert(d@.memo =~= Seq::<u8>::empty());
                return Some(d);
            },
            None => {},
        }
        i += 1;
    }
    None
}

impl WalletState {
    /// Scans one block, trying every output against every key in order (the
    /// first key that decrypts an output owns the note). Otherwise as
    /// `scan_block`: a block at or below the tip is skipped, another block than
    /// the next one fails with `MissingBlock`, and on any failure the state is
    /// left as it was.
    pub fn scan_block_with_keys(&mut self, block: &CompactBlock, keys: &Vec<ScanningKey>) -> (r: Result<
        (),
        WalletError,
    >)
        requires
            old(self).wf(),
        ensures
            final(self).wf(),
            match scan_block_result(
                old(self)@,
                *block,
                block_trial(old(self)@.network, *block, keys@, old(self)@.tree_size),
            ) {
                Ok(w) => r is Ok && final(self)@ == w,
                Err(e) => r == Err::<(), WalletError>(e) && final(self)@ == old(self)@,
            },
    {
        let ghost txs = block.txs@;
        let ghost spec_decs = block_trial(self@.network, *block, keys@, self@.tree_size);
        let start = self.tree_size;
        let mut offset: u64 = 0;
        let mut t: usize = 0;
        let mut decs: Vec<Vec<Option<DecryptedNote>>> = Vec::new();
        while t < block.txs.len()
            invariant
                t <= txs.len(),
                txs == block.txs@,
                start == self.tree_size,
                self@ == old(self)@,
                self.wf(),
                spec_decs == block_trial(self@.network, *block, keys@, self@.tree_size),
                offset == outputs_in(txs, t as int),
                start + offset <= u64::MAX,
                decs@.len() == t,
                forall|k: int| 0 <= k < t ==> #[trigger] tx_decs_view(decs@[k]@) == spec_decs[k],
            decreases txs.len() - t,
        {
            let outs = &block.txs[t].outputs;
            if outs.len() as u64 > u64::MAX - start - offset {
                proof {
                    crate::scan::lemma_outputs_in_monotone(txs, t + 1, txs.len() as int);
                }
                let none: Vec<Vec<Option<DecryptedNote>>> = Vec::new();
                proof {
                    assert(old(self)@.tree_size + outputs_in(txs, txs.len() as int) > u64::MAX);
                }
                return self.scan_block(block, &none);
            }
            let mut row: Vec<Option<DecryptedNote>> = Vec::new();
            let mut o: usize = 0;
            while o < outs.len()
                invariant
                    o <= outs@.len(),
                    *outs == txs[t as int].outputs,
                    t < txs.len(),
                    txs == block.txs@,
                    start + offset + outs@.len() <= u64::MAX,
                    offset == outputs_in(txs, t as int),
                    spec_decs == block_trial(self@.network, *block, keys@, start as nat),
                    row@.len() == o,
                    forall|k: int| 0 <= k < o ==> #[trigger] crate::scan::dec_view(row@[k]) == spec_decs[t as int][k],
                decreases outs@.len() - o,
            {
                let pos = start + offset + o as u64;
                row.push(trial_keys(self.network, block.height, keys, &outs[o], pos));
                o += 1;
            }
            assert(tx_decs_view(row@) =~= spec_decs[t as int]);
            offset = offset + outs.len() as u64;
            decs.push(row);
            t += 1;
        }
        assert(block_decs_view(decs@) =~= spec_decs);
        self.scan_block(block, &decs)
    }
}

impl WalletState {
    /// Scans the cached blocks (oldest first) that lie above the scanned tip, at
    /// most `limit` of them when a limit is given, trying every shielded output
    /// against every key. Blocks at or below the tip are skipped. The call is all
    /// or nothing: on a failure, such as a gap in the heights (`MissingBlock`),
    /// the state is left as it was.
    pub fn scan_cached_blocks_with_keys(
        &mut self,
        blocks: &Vec<CompactBlock>,
        keys: &Vec<ScanningKey>,
        limit: Option<u32>,
    ) -> (r: Result<(), WalletError>)
        requires
            old(self).wf(),
        ensures
            final(self).wf(),
            match scan_from(
                old(self)@,
                blocks@,
                DecSource::Keys(keys@),
                0,
                scan_budget(limit, blocks@.len()),
            ) {
                Ok(w) => r is Ok && final(self)@ == w,
                Err(e) => r == Err::<(), WalletError>(e) && final(self)@ == old(self)@,
            },
    {
        let ghost bs = blocks@;
        let ghost src = DecSource::Keys(keys@);
        let ghost budget0 = scan_budget(limit, blocks@.len());
        let budget_start: u64 = match limit {
            Some(l) => l as u64,
            None => blocks.len() as u64,
        };
        let checked = self.check_scan(blocks, limit);
        proof {
            lemma_scan_check_decides(old(self)@, bs, src, 0, budget0);
        }
        if let Err(e) = checked {
            return Err(e);
        }
        let ghost result = scan_from(old(self)@, bs, src, 0, budget0);
        let mut budget: u64 = budget_start;
        let mut i: usize = 0;
        while i < blocks.len() && budget > 0
            invariant
                i <= bs.len(),
                bs == blocks@,
                src == DecSource::Keys(keys@),
                self.wf(),
                self@.network == old(self)@.network,
                result is Ok,
                scan_from(self@, bs, src, i as int, budget as nat) == result,
                scan_check(tip_height(self@), self@.tree_size, self@.network, bs, i as int, budget as nat) is Ok,
            decreases bs.len() - i,
        {
            let ghost w = self@;
            let n = self.blocks.len();
            let skip = n > 0 && blocks[i].height <= self.blocks[n - 1].height;
            proof {
                if !skip {
                    assert(next_height(w) == expected_height(tip_height(w), w.network));
                    lemma_apply_block_frame(
                        w,
                        blocks@[i as int],
                        block_trial(w.network, blocks@[i as int], keys@, w.tree_size),
                    );
                }
            }
            let _ = self.scan_block_with_keys(&blocks[i], keys);
            if !skip {
                budget = budget - 1;
            }
            i += 1;
        }
        proof {
            lemma_scan_from_end(self@, bs, src, i as int, budget as nat);
        }
        Ok(())
    }
}

} // verus!
