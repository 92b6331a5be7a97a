use vstd::prelude::*;
use crate::network::Network;

verus! {

/// What trial decryption of one shielded output with the tracked viewing keys
/// yielded: the owning account, the note's value and memo, and the nullifier that
/// will reveal its spending.
#[derive(Debug, Clone)]
pub struct DecryptedNote {
    pub account: u32,
    pub value: u64,
    pub memo: Vec<u8>,
    pub nullifier: Vec<u8>,
}

/// The mathematical model of a trial decryption result.
pub struct DecV {
    pub account: u32,
    pub value: u64,
    pub memo: Seq<u8>,
    pub nullifier: Seq<u8>,
}

impl View for DecryptedNote {
    type V = DecV;

    open spec fn view(&self) -> DecV {
        DecV { account: self.account, value: self.value, memo: self.memo@, nullifier: self.nullifier@ }
    }
}

/// A note that the wallet received.
#[derive(Debug, Clone)]
pub struct ReceivedNote {
    pub account: u32,
    pub value: u64,
    pub memo: Vec<u8>,
    pub nullifier: Vec<u8>,
    /// Height of the block that holds the note.
    pub height: u32,
    /// Position of the note's commitment in the note commitment tree.
    pub position: u64,
    /// Height of the block whose transaction revealed the note's nullifier.
    pub spent_at: Option<u32>,
}

/// A transparent output that the wallet owns.
#[derive(Debug, Clone)]
pub struct Utxo {
    pub account: u32,
    pub address: Vec<u8>,
    pub txid: Vec<u8>,
    pub index: u32,
    pub script: Vec<u8>,
    pub value: u64,
    pub height: u32,
    pub spent_at: Option<u32>,
}

/// A block the wallet has scanned, with the size of the note commitment tree
/// after it.
#[derive(Debug, Clone)]
pub struct ScannedBlock {
    pub height: u32,
    pub hash: Vec<u8>,
    pub tree_size: u64,
}

/// A transparent address whose outputs the wallet records for an account.
#[derive(Debug, Clone)]
pub struct TrackedAddress {
    pub account: u32,
    pub address: Vec<u8>,
}

/// An account the wallet tracks: its encoded viewing key and default address.
#[derive(Debug, Clone)]
pub struct AccountRecord {
    pub viewing_key: String,
    pub address: String,
}

/// The wallet's persisted state: the scanned blocks in height order, the notes
/// and transparent outputs found in them, and the size of the note commitment
/// tree.
#[derive(Debug)]
pub struct WalletState {
    pub network: Network,
    pub accounts: Vec<AccountRecord>,
    pub blocks: Vec<ScannedBlock>,
    pub notes: Vec<ReceivedNote>,
    pub utxos: Vec<Utxo>,
    pub addresses: Vec<TrackedAddress>,
    pub tree_size: u64,
}

pub struct NoteV {
    pub account: u32,
    pub value: u64,
    pub memo: Seq<u8>,
    pub nullifier: Seq<u8>,
    pub height: u32,
    pub position: nat,
    pub spent_at: Option<u32>,
}

pub struct UtxoV {
    pub account: u32,
    pub address: Seq<u8>,
    pub txid: Seq<u8>,
    pub index: u32,
    pub script: Seq<u8>,
    pub value: u64,
    pub height: u32,
    pub spent_at: Option<u32>,
}

pub struct BlockV {
    pub height: u32,
    pub hash: Seq<u8>,
    pub tree_size: nat,
}

pub struct AddressV {
    pub account: u32,
    pub address: Seq<u8>,
}

/// The mathematical model of a wallet state.
pub struct WalletV {
    pub network: Network,
    pub accounts: Seq<(Seq<char>, Seq<char>)>,
    pub blocks: Seq<BlockV>,
    pub notes: Seq<NoteV>,
    pub utxos: Seq<UtxoV>,
    pub addresses: Seq<AddressV>,
    pub tree_size: nat,
}

impl View for ReceivedNote {
    type V = NoteV;

    open spec fn view(&self) -> NoteV {
        NoteV {
            account: self.account,
            value: self.value,
            memo: self.memo@,
            nullifier: self.nullifier@,
            height: self.height,
            position: self.position as nat,
            spent_at: self.spent_at,
        }
    }
}

impl View for Utxo {
    type V = UtxoV;

    open spec fn view(&self) -> UtxoV {
        UtxoV {
            account: self.account,
            address: self.address@,
            txid: self.txid@,
            index: self.index,
            script: self.script@,
            value: self.value,
            height: self.height,
            spent_at: self.spent_at,
        }
    }
}

impl View for ScannedBlock {
    type V = BlockV;

    open spec fn view(&self) -> BlockV {
        BlockV { height: self.height, hash: self.hash@, tree_size: self.tree_size as nat }
    }
}

impl View for TrackedAddress {
    type V = AddressV;

    open spec fn view(&self) -> AddressV {
        AddressV { account: self.account, address: self.address@ }
    }
}

pub open spec fn accounts_view(v: Seq<AccountRecord>) -> Seq<(Seq<char>, Seq<char>)> {
    v.map_values(|a: AccountRecord| (a.viewing_key@, a.address@))
}

pub open spec fn notes_view(v: Seq<ReceivedNote>) -> Seq<NoteV> {
    v.map_values(|n: ReceivedNote| n@)
}

pub open spec fn utxos_view(v: Seq<Utxo>) -> Seq<UtxoV> {
    v.map_values(|u: Utxo| u@)
}

pub open spec fn blocks_view(v: Seq<ScannedBlock>) -> Seq<BlockV> {
    v.map_values(|b: ScannedBlock| b@)
}

pub open spec fn addresses_view(v: Seq<TrackedAddress>) -> Seq<AddressV> {
    v.map_values(|a: TrackedAddress| a@)
}

impl View for WalletState {
    type V = WalletV;

    open spec fn view(&self) -> WalletV {
        WalletV {
            network: self.network,
            accounts: accounts_view(self.accounts@),
            blocks: blocks_view(self.blocks@),
            notes: notes_view(self.notes@),
            utxos: utxos_view(self.utxos@),
            addresses: addresses_view(self.addresses@),
            tree_size: self.tree_size as nat,
        }
    }
}

/// The scanned blocks stand at consecutive heights, and the tree size recorded
/// with the newest block is the current tree size.
pub open spec fn blocks_well_formed(w: WalletV) -> bool {
    &&& forall|i: int|
        0 < i < w.blocks.len() ==> #[trigger] w.blocks[i].height == w.blocks[i - 1].height + 1
    &&& w.blocks.len() > 0 ==> w.blocks.last().tree_size == w.tree_size
}

/// The height of the newest scanned block, if any.
pub open spec fn tip_height(w: WalletV) -> Option<u32> {
    if w.blocks.len() == 0 {
        None
    } else {
        Some(w.blocks.last().height)
    }
}

impl WalletState {
    /// The well-formedness of the state that every operation keeps.
    pub open spec fn wf(&self) -> bool {
        blocks_well_formed(self@)
    }

    /// An empty wallet for `network` that tracks no account yet.
    pub fn new(network: Network) -> (r: WalletState)
        ensures
            r.wf(),
            r@.network == network,
            r@.accounts.len() == 0,
            r@.blocks.len() == 0,
            r@.notes.len() == 0,
            r@.utxos.len() == 0,
            r@.addresses.len() == 0,
            r@.tree_size == 0,
    {
        let r = WalletState {
            network,
            accounts: Vec::new(),
            blocks: Vec::new(),
            notes: Vec::new(),
            utxos: Vec::new(),
            addresses: Vec::new(),
            tree_size: 0,
        };
        assert(r@.blocks =~= Seq::<BlockV>::empty());
        assert(r@.accounts =~= Seq::<(Seq<char>, Seq<char>)>::empty());
        assert(r@.notes =~= Seq::<NoteV>::empty());
        assert(r@.utxos =~= Seq::<UtxoV>::empty());
        assert(r@.addresses =~= Seq::<AddressV>::empty());
        r
    }
}

/// In a well-formed state the scanned block `k` stands `k` above the first one.
pub proof fn lemma_block_heights(w: WalletV, k: int)
    requires
        blocks_well_formed(w),
        0 <= k < w.blocks.len(),
    ensures
        w.blocks[0].height + k == w.blocks[k].height,
    decreases k,
{
    if k > 0 {
        lemma_block_heights(w, k - 1);
    }
}

} // verus!
