use vstd::prelude::*;
use crate::bytes::bytes_eq;

verus! {

/// The part of a cached compact block that chain validation reads.
#[derive(Debug, Clone)]
pub struct BlockMeta {
    pub height: u32,
    pub hash: Vec<u8>,
    pub prev_hash: Vec<u8>,
}

/// A block the wallet has scanned, named by height and hash.
#[derive(Debug, Clone)]
pub struct BlockRef {
    pub height: u32,
    pub hash: Vec<u8>,
}

/// Outcome of checking that the cache continues the scanned chain.
#[derive(Debug, Clone, Copy, PartialEq, Eq)]
pub enum ChainStatus {
    Valid,
    /// The highest height at which the cache conflicts with itself or with the
    /// wallet's scanned tip.
    InvalidAtHeight(u32),
}

/// The cached block `b` stands at the wallet's scanned height with another hash.
pub open spec fn tip_conflict(tip: Option<BlockRef>, b: BlockMeta) -> bool {
    match tip {
        None => false,
        Some(t) => b.height == t.height && b.hash@ != t.hash@,
    }
}

/// The oldest cached block stands just above the wallet's scanned tip but names
/// another parent: the tip is the parent of the oldest cached block.
pub open spec fn tip_parent_conflict(tip: Option<BlockRef>, b: BlockMeta) -> bool {
    match tip {
        None => false,
        Some(t) => b.height == t.height + 1 && b.prev_hash@ != t.hash@,
    }
}

/// Cached block `i` does not extend cached block `i - 1`.
pub open spec fn pair_conflict(blocks: Seq<BlockMeta>, i: int) -> bool {
    0 < i < blocks.len() && (blocks[i].height != blocks[i - 1].height + 1 || blocks[i].prev_hash@
        != blocks[i - 1].hash@)
}

pub open spec fn conflict_at(tip: Option<BlockRef>, blocks: Seq<BlockMeta>, i: int) -> bool {
    0 <= i < blocks.len() && (tip_conflict(tip, blocks[i]) || (i == 0 && tip_parent_conflict(
        tip,
        blocks[i],
    )) || pair_conflict(blocks, i))
}

/// The highest height of a conflicting block among `blocks[i..]`.
pub open spec fn highest_conflict_from(tip: Option<BlockRef>, blocks: Seq<BlockMeta>, i: int) -> Option<
    u32,
>
    decreases blocks.len() - i,
{
    if i < 0 || i >= blocks.len() {
        None
    } else {
        let rest = highest_conflict_from(tip, blocks, i + 1);
        if conflict_at(tip, blocks, i) {
            match rest {
                Some(h) if h >= blocks[i].height => Some(h),
                _ => Some(blocks[i].height),
            }
        } else {
            rest
        }
    }
}

/// What validation reports for a scanned tip and a cache listed oldest first.
pub open spec fn chain_status(tip: Option<BlockRef>, blocks: Seq<BlockMeta>) -> ChainStatus {
    match highest_conflict_from(tip, blocks, 0) {
        None => ChainStatus::Valid,
        Some(h) => ChainStatus::InvalidAtHeight(h),
    }
}

fn block_conflicts(tip: &Option<BlockRef>, blocks: &Vec<BlockMeta>, i: usize) -> (r: bool)
    requires
        i < blocks@.len(),
    ensures
        r == conflict_at(*tip, blocks@, i as int),
{
    let b = &blocks[i];
    let with_tip = match tip {
        None => false,
        Some(t) => (b.height == t.height && !bytes_eq(&b.hash, &t.hash)) || (i == 0 && t.height
            < u32::MAX && b.height == t.height + 1 && !bytes_eq(&b.prev_hash, &t.hash)),
    };
    let with_parent = i > 0 && {
        let p = &blocks[i - 1];
        p.height == u32::MAX || b.height != p.height + 1 || !bytes_eq(&b.prev_hash, &p.hash)
    };
    with_tip || with_parent
}

/// Checks that the cached blocks (oldest first) form a hash-linked continuation of
/// the wallet's scanned tip. The cache is walked from its newest block down, and
/// where conflicts are found the highest conflicting height is reported. Nothing
/// is modified.
pub fn validate_chain(tip: &Option<BlockRef>, blocks: &Vec<BlockMeta>) -> (r: ChainStatus)
    ensures
        r == chain_status(*tip, blocks@),
{
    let mut i: usize = blocks.len();
    let mut best: Option<u32> = None;
    while i > 0
        invariant
            i <= blocks@.len(),
            best == highest_conflict_from(*tip, blocks@, i as int),
        decreases i,
    {
        i -= 1;
        if block_conflicts(tip, blocks, i) {
            let h = blocks[i].height;
            best = match best {
                Some(b) if b >= h => Some(b),
                _ => Some(h),
            };
        }
    }
    match best {
        None => ChainStatus::Valid,
        Some(h) => ChainStatus::InvalidAtHeight(h),
    }
}

proof fn lemma_highest_bounds(tip: Option<BlockRef>, blocks: Seq<BlockMeta>, i: int, j: int)
    requires
        0 <= i <= j,
        conflict_at(tip, blocks, j),
    ensures
        highest_conflict_from(tip, blocks, i) matches Some(h) && h >= blocks[j].height,
    decreases j - i,
{
    if i < j {
        lemma_highest_bounds(tip, blocks, i + 1, j);
    }
}

proof fn lemma_highest_is_conflict(tip: Option<BlockRef>, blocks: Seq<BlockMeta>, i: int)
    requires
        0 <= i,
        highest_conflict_from(tip, blocks, i) is Some,
    ensures
        exists|j: int|
            i <= j && #[trigger] conflict_at(tip, blocks, j) && blocks[j].height
                == highest_conflict_from(tip, blocks, i).unwrap(),
    decreases blocks.len() - i,
{
    let rest = highest_conflict_from(tip, blocks, i + 1);
    if conflict_at(tip, blocks, i) && (rest is None || rest.unwrap() < blocks[i].height) {
        assert(conflict_at(tip, blocks, i));
    } else {
        lemma_highest_is_conflict(tip, blocks, i + 1);
    }
}

/// A cache whose block at the wallet's scanned height carries another hash than
/// the one the wallet recorded is never reported valid: validation reports that
/// height, or a higher one where the cache conflicts further up.
pub proof fn lemma_mismatched_tip_is_invalid(tip: BlockRef, blocks: Seq<BlockMeta>, i: int)
    requires
        0 <= i < blocks.len(),
        blocks[i].height == tip.height,
        blocks[i].hash@ != tip.hash@,
    ensures
        chain_status(Some(tip), blocks) matches ChainStatus::InvalidAtHeight(h) && h >= tip.height,
        (forall|j: int|
            #[trigger] conflict_at(Some(tip), blocks, j) ==> blocks[j].height <= tip.height)
            ==> chain_status(Some(tip), blocks) == ChainStatus::InvalidAtHeight(tip.height),
{
    assert(conflict_at(Some(tip), blocks, i));
    lemma_highest_bounds(Some(tip), blocks, 0, i);
    lemma_highest_is_conflict(Some(tip), blocks, 0);
}

} // verus!
