//! The messages that a darksidewalletd server takes, and the calls that carry them.

use vstd::prelude::*;

verus! {

/// The state of the note commitment trees at the end of a block.
#[derive(Debug, PartialEq, Eq)]
pub struct TreeState {
    pub network: String,
    pub height: u64,
    pub hash: String,
    pub time: u32,
    /// The Sapling tree, serialized, in hexadecimal.
    pub sapling_tree: String,
    /// The Orchard tree, serialized, in hexadecimal.
    pub orchard_tree: String,
}

/// What a `TreeState` says.
pub struct TreeStateView {
    pub network: Seq<char>,
    pub height: u64,
    pub hash: Seq<char>,
    pub time: u32,
    pub sapling_tree: Seq<char>,
    pub orchard_tree: Seq<char>,
}

impl View for TreeState {
    type V = TreeStateView;

    open spec fn view(&self) -> TreeStateView {
        TreeStateView {
            network: self.network@,
            height: self.height,
            hash: self.hash@,
            time: self.time,
            sapling_tree: self.sapling_tree@,
            orchard_tree: self.orchard_tree@,
        }
    }
}

impl Clone for TreeState {
    fn clone(&self) -> (r: Self)
        ensures
            r@ == self@,
    {
        TreeState {
            network: self.network.clone(),
            height: self.height,
            hash: self.hash.clone(),
            time: self.time,
            sapling_tree: self.sapling_tree.clone(),
            orchard_tree: self.orchard_tree.clone(),
        }
    }
}

/// The same tree state under another height.
pub open spec fn at_height(state: TreeStateView, height: u64) -> TreeStateView {
    TreeStateView { height, ..state }
}

impl TreeState {
    /// This tree state under another height.
    pub fn at_height(&self, height: u64) -> (r: TreeState)
        ensures
            r@ == at_height(self@, height),
            r.height == height,
            r.network@ == self.network@,
            r.hash@ == self.hash@,
            r.time == self.time,
            r.sapling_tree@ == self.sapling_tree@,
            r.orchard_tree@ == self.orchard_tree@,
    {
        let mut state = self.clone();
        state.height = height;
        state
    }
}

/// A serialized transaction and the height of its block.
#[derive(Debug, PartialEq, Eq)]
pub struct RawTransaction {
    pub data: Vec<u8>,
    pub height: u64,
}

/// What a `RawTransaction` says.
pub struct RawTransactionView {
    pub data: Seq<u8>,
    pub height: u64,
}

impl View for RawTransaction {
    type V = RawTransactionView;

    open spec fn view(&self) -> RawTransactionView {
        RawTransactionView { data: self.data@, height: self.height }
    }
}

/// A serialized block, in hexadecimal.
#[derive(Debug, PartialEq, Eq)]
pub struct DarksideBlock {
    pub block: String,
}

/// The parameters of a server that starts anew.
#[derive(Debug, PartialEq, Eq)]
pub struct DarksideMetaState {
    pub sapling_activation: i32,
    pub branch_id: String,
    pub chain_name: String,
}

/// A run of empty blocks: `count` of them, the first at `height`.
#[derive(Debug, PartialEq, Eq)]
pub struct DarksideEmptyBlocks {
    pub height: i32,
    pub count: i32,
    pub nonce: i32,
}

/// A place from which the server fetches blocks.
#[derive(Debug, PartialEq, Eq)]
pub struct DarksideBlocksUrl {
    pub url: String,
}

/// A block height.
#[derive(Debug, PartialEq, Eq)]
pub struct DarksideHeight {
    pub height: i32,
}

/// A call of the server's interface.
#[derive(Debug, PartialEq, Eq)]
pub enum Call {
    ClearAddressUtxo,
    Reset(DarksideMetaState),
    StageBlocks(DarksideBlocksUrl),
    StageBlocksStream(Vec<DarksideBlock>),
    StageBlocksCreate(DarksideEmptyBlocks),
    StageTransactionsStream(Vec<RawTransaction>),
    AddTreeState(TreeState),
    ApplyStaged(DarksideHeight),
    GetIncomingTransactions,
    ClearIncomingTransactions,
}

/// What a `Call` says.
pub enum CallView {
    ClearAddressUtxo,
    Reset { sapling_activation: i32, branch_id: Seq<char>, chain_name: Seq<char> },
    StageBlocks { url: Seq<char> },
    StageBlocksStream { blocks: Seq<Seq<char>> },
    StageBlocksCreate { height: i32, count: i32, nonce: i32 },
    StageTransactionsStream { transactions: Seq<RawTransactionView> },
    AddTreeState { state: TreeStateView },
    ApplyStaged { height: i32 },
    GetIncomingTransactions,
    ClearIncomingTransactions,
}

impl View for Call {
    type V = CallView;

    open spec fn view(&self) -> CallView {
        match *self {
            Call::ClearAddressUtxo => CallView::ClearAddressUtxo,
            Call::Reset(meta) => CallView::Reset {
                sapling_activation: meta.sapling_activation,
                branch_id: meta.branch_id@,
                chain_name: meta.chain_name@,
            },
            Call::StageBlocks(place) => CallView::StageBlocks { url: place.url@ },
            Call::StageBlocksStream(blocks) => CallView::StageBlocksStream {
                blocks: blocks@.map_values(|b: DarksideBlock| b.block@),
            },
            Call::StageBlocksCreate(run) => CallView::StageBlocksCreate {
                height: run.height,
                count: run.count,
                nonce: run.nonce,
            },
            Call::StageTransactionsStream(transactions) => CallView::StageTransactionsStream {
                transactions: transactions@.map_values(|t: RawTransaction| t@),
            },
            Call::AddTreeState(state) => CallView::AddTreeState { state: state@ },
            Call::ApplyStaged(height) => CallView::ApplyStaged { height: height.height },
            Call::GetIncomingTransactions => CallView::GetIncomingTransactions,
            Call::ClearIncomingTransactions => CallView::ClearIncomingTransactions,
        }
    }
}

} // verus!
