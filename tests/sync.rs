use zcashlc::chain::{validate_chain, BlockMeta, BlockRef, ChainStatus};
use zcashlc::error::{unwrap_exc_or, WalletError};
use zcashlc::network::{branch_id_for_height, parse_network, sapling_activation_height, Network};
use zcashlc::scan::{CompactBlock, CompactTx, OutPoint, ShieldedOutput, TxOut};
use zcashlc::wallet::{DecryptedNote, TrackedAddress, WalletState};

fn hash(b: u8) -> Vec<u8> {
    let mut h = vec![0u8; 32];
    h[0] = b;
    h
}

fn meta(height: u32, h: u8, prev: u8) -> BlockMeta {
    BlockMeta { height, hash: hash(h), prev_hash: hash(prev) }
}

fn output() -> ShieldedOutput {
    ShieldedOutput { cmu: vec![1; 32], epk: vec![2; 32], ciphertext: vec![3; 52] }
}

fn tx(nullifiers: Vec<Vec<u8>>, outputs: usize) -> CompactTx {
    CompactTx {
        txid: vec![9; 32],
        nullifiers,
        outputs: (0..outputs).map(|_| output()).collect(),
        transparent_inputs: vec![],
        transparent_outputs: vec![],
    }
}

fn block(height: u32, h: u8, prev: u8, txs: Vec<CompactTx>) -> CompactBlock {
    CompactBlock { height, hash: hash(h), prev_hash: hash(prev), time: 0, txs }
}

fn note(account: u32, value: u64, nf: u8) -> Option<DecryptedNote> {
    Some(DecryptedNote { account, value, memo: vec![0xF6], nullifier: vec![nf; 32] })
}

/// A wallet whose scanned chain starts at height 1 with a block whose display hash is 0x00..01.
fn fresh_wallet() -> WalletState {
    let mut w = WalletState::new(Network::TestNetwork);
    let hex = format!("{}01", "0".repeat(62));
    w.init_blocks_table(1, &hex, 0).unwrap();
    w
}

#[test]
fn parse_network_ids() {
    assert_eq!(parse_network(0), Ok(Network::TestNetwork));
    assert_eq!(parse_network(1), Ok(Network::MainNetwork));
    assert_eq!(parse_network(2), Err(WalletError::InvalidArgument));
}

#[test]
fn unwrap_exc_or_default() {
    assert_eq!(unwrap_exc_or(Ok(5), 7), 5);
    assert_eq!(unwrap_exc_or(Err(()), 7), 7);
}

#[test]
fn branch_ids() {
    assert_eq!(branch_id_for_height(0, Network::MainNetwork), Ok(0));
    assert_eq!(branch_id_for_height(419_200, Network::MainNetwork), Ok(0x76b8_09bb));
    assert_eq!(branch_id_for_height(419_199, Network::MainNetwork), Ok(0x5ba8_1b19));
    assert_eq!(branch_id_for_height(1_046_400, Network::MainNetwork), Ok(0xe9ff_75a6));
    assert_eq!(branch_id_for_height(903_800, Network::TestNetwork), Ok(0xf5b9_230b));
    assert_eq!(branch_id_for_height(-1, Network::TestNetwork), Err(WalletError::InvalidArgument));
}

#[test]
fn chain_valid() {
    let tip = Some(BlockRef { height: 10, hash: hash(10) });
    let cache = vec![meta(11, 11, 10), meta(12, 12, 11), meta(13, 13, 12)];
    assert_eq!(validate_chain(&tip, &cache), ChainStatus::Valid);
    assert_eq!(validate_chain(&None, &cache), ChainStatus::Valid);
    assert_eq!(validate_chain(&tip, &vec![]), ChainStatus::Valid);
}

#[test]
fn chain_mismatch_at_scanned_height() {
    let tip = Some(BlockRef { height: 10, hash: hash(10) });
    let cache = vec![meta(10, 99, 9), meta(11, 11, 99), meta(12, 12, 11)];
    assert_eq!(validate_chain(&tip, &cache), ChainStatus::InvalidAtHeight(10));
}

#[test]
fn chain_reports_highest_conflict() {
    let tip = Some(BlockRef { height: 10, hash: hash(10) });
    let cache = vec![meta(10, 99, 9), meta(11, 11, 99), meta(12, 12, 50), meta(13, 13, 12)];
    assert_eq!(validate_chain(&tip, &cache), ChainStatus::InvalidAtHeight(12));
    let gap = vec![meta(11, 11, 10), meta(13, 13, 11)];
    assert_eq!(validate_chain(&tip, &gap), ChainStatus::InvalidAtHeight(13));
    let parent = vec![meta(11, 11, 7)];
    assert_eq!(validate_chain(&tip, &parent), ChainStatus::InvalidAtHeight(11));
}

#[test]
fn scan_one_note() {
    let mut w = fresh_wallet();
    let blocks = vec![block(2, 2, 1, vec![tx(vec![], 1)])];
    let decs = vec![vec![vec![Some(DecryptedNote {
        account: 0,
        value: 1000,
        memo: vec![],
        nullifier: vec![5; 32],
    })]]];
    assert_eq!(w.scan_cached_blocks(&blocks, &decs, None), Ok(()));
    assert_eq!(w.get_balance(0), Ok(1000));
    assert_eq!(w.notes.len(), 1);
    assert_eq!(w.notes[0].position, 0);
    assert_eq!(w.notes[0].height, 2);
    assert_eq!(w.tree_size, 1);
    assert_eq!(w.blocks.last().unwrap().height, 2);
}

#[test]
fn rescan_changes_nothing() {
    let mut w = fresh_wallet();
    let blocks = vec![
        block(2, 2, 1, vec![tx(vec![], 2)]),
        block(3, 3, 2, vec![tx(vec![], 1)]),
    ];
    let decs = vec![vec![vec![note(0, 10, 1), None]], vec![vec![note(0, 20, 2)]]];
    w.scan_cached_blocks(&blocks, &decs, None).unwrap();
    let (n, u, t, b) = (w.notes.len(), w.utxos.len(), w.tree_size, w.blocks.len());
    assert_eq!((n, u, t, b), (2, 0, 3, 3));
    w.scan_cached_blocks(&blocks, &decs, None).unwrap();
    assert_eq!((w.notes.len(), w.utxos.len(), w.tree_size, w.blocks.len()), (n, u, t, b));
    assert_eq!(w.scan_block(&blocks[0], &decs[0]), Ok(()));
    assert_eq!((w.notes.len(), w.utxos.len(), w.tree_size, w.blocks.len()), (n, u, t, b));
}

#[test]
fn scan_gap_is_missing_block() {
    let mut w = fresh_wallet();
    let blocks = vec![block(2, 2, 1, vec![tx(vec![], 1)]), block(4, 4, 3, vec![])];
    let decs = vec![vec![vec![note(0, 10, 1)]]];
    assert_eq!(w.scan_cached_blocks(&blocks, &decs, None), Err(WalletError::MissingBlock(3)));
    assert_eq!(w.notes.len(), 0);
    assert_eq!(w.tree_size, 0);
    assert_eq!(w.blocks.len(), 1);
}

#[test]
fn scan_fresh_wallet_starts_at_activation() {
    let mut w = WalletState::new(Network::TestNetwork);
    let start = sapling_activation_height(Network::TestNetwork);
    assert_eq!(start, 280_000);
    let wrong = vec![block(5, 5, 4, vec![])];
    assert_eq!(w.scan_cached_blocks(&wrong, &vec![], None), Err(WalletError::MissingBlock(280_000)));
    let right = vec![block(280_000, 1, 0, vec![])];
    assert_eq!(w.scan_cached_blocks(&right, &vec![], None), Ok(()));
    assert_eq!(w.blocks[0].height, 280_000);
}

#[test]
fn scan_limit_and_spends() {
    let mut w = fresh_wallet();
    let blocks = vec![
        block(2, 2, 1, vec![tx(vec![], 1)]),
        block(3, 3, 2, vec![tx(vec![vec![7; 32]], 0)]),
    ];
    let decs = vec![vec![vec![note(0, 500, 7)]], vec![vec![]]];
    w.scan_cached_blocks(&blocks, &decs, Some(1)).unwrap();
    assert_eq!(w.blocks.len(), 2);
    assert_eq!(w.get_balance(0), Ok(500));
    w.scan_cached_blocks(&blocks, &decs, Some(1)).unwrap();
    assert_eq!(w.blocks.len(), 3);
    assert_eq!(w.notes[0].spent_at, Some(3));
    assert_eq!(w.get_balance(0), Ok(0));
}

#[test]
fn scan_records_transparent_outputs() {
    let mut w = fresh_wallet();
    w.addresses.push(TrackedAddress { account: 0, address: vec![4; 22] });
    let mut t = tx(vec![], 0);
    t.transparent_outputs = vec![
        TxOut { address: vec![8; 22], script: vec![], value: 5 },
        TxOut { address: vec![4; 22], script: vec![1], value: 70 },
    ];
    let mut spend = tx(vec![], 0);
    spend.transparent_inputs = vec![OutPoint { txid: vec![9; 32], index: 1 }];
    let blocks = vec![block(2, 2, 1, vec![t]), block(3, 3, 2, vec![spend])];
    w.scan_cached_blocks(&blocks, &vec![], Some(1)).unwrap();
    assert_eq!(w.utxos.len(), 1);
    assert_eq!(w.utxos[0].index, 1);
    assert_eq!(w.get_total_transparent_balance(&[4; 22]), Ok(70));
    w.scan_cached_blocks(&blocks, &vec![], None).unwrap();
    assert_eq!(w.utxos[0].spent_at, Some(3));
    assert_eq!(w.get_total_transparent_balance(&[4; 22]), Ok(0));
}

#[test]
fn verified_balance_needs_scan() {
    let w = WalletState::new(Network::MainNetwork);
    assert_eq!(w.get_verified_balance(0), Err(WalletError::ScanRequired));
    assert_eq!(w.get_balance(0), Err(WalletError::ScanRequired));
    assert_eq!(w.get_balance(-1), Err(WalletError::InvalidArgument));
}

#[test]
fn verified_balance_within_total() {
    let mut w = fresh_wallet();
    let mut blocks = vec![];
    let mut decs = vec![];
    for h in 2..=14u32 {
        blocks.push(block(h, h as u8, (h - 1) as u8, vec![tx(vec![], 1)]));
        decs.push(vec![vec![note(0, h as u64, h as u8)]]);
    }
    w.scan_cached_blocks(&blocks, &decs, None).unwrap();
    let total = w.get_balance(0).unwrap();
    let verified = w.get_verified_balance(0).unwrap();
    assert_eq!(total, (2..=14).sum::<i64>());
    // The tip is 14: the anchor is 15 - 10 = 5, so notes of heights 2..=5 count.
    assert_eq!(verified, 2 + 3 + 4 + 5);
    assert!(verified <= total);
}

#[test]
fn rewind_then_rescan_restores_balance() {
    let mut w = fresh_wallet();
    let blocks = vec![
        block(2, 2, 1, vec![tx(vec![], 1)]),
        block(3, 3, 2, vec![tx(vec![vec![2; 32]], 1)]),
        block(4, 4, 3, vec![tx(vec![], 2)]),
    ];
    let decs = vec![
        vec![vec![note(0, 100, 2)]],
        vec![vec![note(0, 40, 3)]],
        vec![vec![None, note(0, 7, 4)]],
    ];
    w.scan_cached_blocks(&blocks, &decs, None).unwrap();
    let before = w.get_balance(0).unwrap();
    assert_eq!(before, 47);
    w.rewind_to_height(2).unwrap();
    assert_eq!(w.get_balance(0), Ok(100));
    assert_eq!(w.tree_size, 1);
    assert_eq!(w.notes.len(), 1);
    assert_eq!(w.notes[0].spent_at, None);
    w.scan_cached_blocks(&blocks, &decs, None).unwrap();
    assert_eq!(w.get_balance(0), Ok(before));
    assert_eq!(w.tree_size, 4);
}

#[test]
fn rewind_edges() {
    let mut w = fresh_wallet();
    assert_eq!(w.rewind_to_height(-1), Err(WalletError::InvalidArgument));
    assert_eq!(w.rewind_to_height(5), Ok(()));
    let blocks = vec![block(2, 2, 1, vec![])];
    w.scan_cached_blocks(&blocks, &vec![], None).unwrap();
    assert_eq!(w.rewind_to_height(0), Err(WalletError::InvalidArgument));
    assert_eq!(w.blocks.len(), 2);
}

#[test]
fn nearest_rewind_height() {
    let mut w = fresh_wallet();
    assert_eq!(w.get_nearest_rewind_height(50), 50);
    assert_eq!(w.get_nearest_rewind_height(500), 500);
    let blocks = vec![block(2, 2, 1, vec![tx(vec![], 1)])];
    w.scan_cached_blocks(&blocks, &vec![vec![vec![note(0, 1, 1)]]], None).unwrap();
    assert_eq!(w.get_nearest_rewind_height(500), 2);
    assert_eq!(w.get_nearest_rewind_height(99), 99);
}

#[test]
fn young_notes_are_not_verified() {
    let mut w = WalletState::new(Network::TestNetwork);
    let hex = format!("{}01", "0".repeat(62));
    w.init_blocks_table(999, &hex, 0).unwrap();
    let blocks = vec![block(1000, 2, 1, vec![tx(vec![], 1)])];
    w.scan_cached_blocks(&blocks, &vec![vec![vec![note(0, 5, 1)]]], None).unwrap();
    assert_eq!(w.get_balance(0), Ok(5));
    // The tip is 1000, so the anchor is 991 and the note has one confirmation only.
    assert_eq!(w.get_verified_balance(0), Ok(0));
}
