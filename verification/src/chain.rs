//! The scripts of the chain builds.

use crate::connector::DarksideConnector;
use crate::dataset::texts;
use crate::flow::{OnFailure, Outcome, Script, ScriptView, Source, SourceView, Step, StepView};
use crate::messages::{
    at_height, Call, CallView, RawTransaction, RawTransactionView, TreeState, TreeStateView,
};
use vstd::prelude::*;
use vstd::string::StringExecFns;

verus! {

/// The name of the chain that the server plays.
pub const CHAIN_NAME: &'static str = "regtest";

/// The data that a chain build starts from.
#[derive(Debug, PartialEq, Eq)]
pub struct ChainConstants {
    /// The consensus branch of the chain.
    pub branch_id: String,
    /// The first block.
    pub genesis_block: String,
    /// The tree state at the end of the first block.
    pub first_tree_state: TreeState,
    /// A transaction that gives the wallet its startup funds, in hexadecimal.
    pub transaction_incoming_100taz: String,
}

/// What a `ChainConstants` says.
pub struct ChainConstantsView {
    pub branch_id: Seq<char>,
    pub genesis_block: Seq<char>,
    pub first_tree_state: TreeStateView,
    pub transaction_incoming_100taz: Seq<char>,
}

impl View for ChainConstants {
    type V = ChainConstantsView;

    open spec fn view(&self) -> ChainConstantsView {
        ChainConstantsView {
            branch_id: self.branch_id@,
            genesis_block: self.genesis_block@,
            first_tree_state: self.first_tree_state@,
            transaction_incoming_100taz: self.transaction_incoming_100taz@,
        }
    }
}

/// A call whose failure gives the build up.
pub open spec fn must(call: CallView) -> StepView {
    StepView::Perform { call, on_failure: OnFailure::Abort }
}

/// A call whose failure the build returns.
pub open spec fn may_fail(call: CallView) -> StepView {
    StepView::Perform { call, on_failure: OnFailure::Return }
}

/// The call that stages empty blocks.
pub open spec fn empty_blocks(height: i32, count: i32, nonce: i32) -> CallView {
    CallView::StageBlocksCreate { height, count, nonce }
}

/// The steps by which a server starts anew with its first block.
pub open spec fn fresh_steps(constants: ChainConstantsView) -> Seq<StepView> {
    seq![
        must(CallView::ClearAddressUtxo),
        must(
            CallView::Reset {
                sapling_activation: 1,
                branch_id: constants.branch_id,
                chain_name: CHAIN_NAME@,
            },
        ),
        may_fail(CallView::StageBlocksStream { blocks: seq![constants.genesis_block] }),
    ]
}

/// The steps that put the startup funds into the second block.
pub open spec fn funding_steps(constants: ChainConstantsView) -> Seq<StepView> {
    let source = SourceView::Hex(constants.transaction_incoming_100taz);
    seq![
        StepView::StageTransaction { source, height: 2 },
        StepView::UpdateTrees { source, height: 2 },
        StepView::AddTreeState { at: None },
        StepView::AddTreeState { at: Some(3) },
    ]
}

/// The steps that leave the second and the third block empty.
pub open spec fn empty_steps(constants: ChainConstantsView) -> Seq<StepView> {
    seq![
        must(CallView::AddTreeState { state: at_height(constants.first_tree_state, 2) }),
        must(CallView::AddTreeState { state: at_height(constants.first_tree_state, 3) }),
    ]
}

/// The build of a chain of three blocks, with or without startup funds.
pub open spec fn prepare_script(constants: ChainConstantsView, funds: bool) -> ScriptView {
    ScriptView {
        steps: fresh_steps(constants) + seq![
            must(empty_blocks(2, 2, 0)),
            must(CallView::AddTreeState { state: constants.first_tree_state }),
        ] + (if funds {
            funding_steps(constants)
        } else {
            empty_steps(constants)
        }) + seq![
            StepView::Sleep { seconds: 2 },
            may_fail(CallView::ApplyStaged { height: 3 }),
        ],
        network: constants.first_tree_state.network,
        outcome: Outcome::Nothing,
    }
}

/// The build of a chain with the first block alone, which is not yet applied.
pub open spec fn init_script(constants: ChainConstantsView) -> ScriptView {
    ScriptView {
        steps: fresh_steps(constants).push(
            must(CallView::AddTreeState { state: constants.first_tree_state }),
        ),
        network: constants.first_tree_state.network,
        outcome: Outcome::Nothing,
    }
}

/// The build of the empty blocks after `current_height` up to `target_height`.
pub open spec fn generate_script(
    tree_state: TreeStateView,
    current_height: i32,
    target_height: i32,
    nonce: i32,
) -> ScriptView {
    ScriptView {
        steps: seq![
            must(
                empty_blocks(
                    (current_height + 1) as i32,
                    (target_height - current_height) as i32,
                    nonce,
                ),
            ),
            must(CallView::AddTreeState { state: at_height(tree_state, target_height as u64) }),
            must(CallView::ApplyStaged { height: target_height }),
        ],
        network: tree_state.network,
        outcome: Outcome::Height(target_height),
    }
}

/// The build of the tree state that a transaction leaves behind.
pub open spec fn update_script(
    raw_tx: RawTransactionView,
    height: u64,
    network: Seq<char>,
) -> ScriptView {
    ScriptView {
        steps: seq![
            StepView::UpdateTrees { source: SourceView::Given(raw_tx), height },
            StepView::AddTreeState { at: None },
        ],
        network,
        outcome: Outcome::TreeState,
    }
}

/// The build of a block with one given transaction.
pub open spec fn stage_script(
    height: u64,
    hex_transaction: Seq<char>,
    network: Seq<char>,
) -> ScriptView {
    let source = SourceView::Hex(hex_transaction);
    ScriptView {
        steps: seq![
            must(empty_blocks(height as i32, 1, 0)),
            StepView::StageTransaction { source, height },
            StepView::UpdateTrees { source, height },
            StepView::AddTreeState { at: None },
            StepView::AddTreeState { at: None },
        ],
        network,
        outcome: Outcome::TreeState,
    }
}

/// The build of a block with one transaction that the funded wallet sends.
pub open spec fn send_script(
    receiver_address: Seq<char>,
    value: u64,
    height: u64,
    network: Seq<char>,
) -> ScriptView {
    ScriptView {
        steps: seq![
            must(empty_blocks(height as i32, 1, 0)),
            StepView::Send { receiver: receiver_address, value },
            must(CallView::GetIncomingTransactions),
            must(CallView::ClearIncomingTransactions),
            StepView::TakeTransaction,
            StepView::ExpectNoMore,
            StepView::RecordTransaction,
            StepView::StageTransaction { source: SourceView::Taken, height },
            StepView::UpdateTrees { source: SourceView::Taken, height },
            StepView::AddTreeState { at: None },
        ],
        network,
        outcome: Outcome::TreeState,
    }
}

/// The steps of a list.
pub open spec fn step_views(steps: Seq<Step>) -> Seq<StepView> {
    steps.map_values(|s: Step| s@)
}

/// Adds a step to a list.
fn add_step(steps: &mut Vec<Step>, step: Step)
    ensures
        step_views(final(steps)@) == step_views(old(steps)@).push(step@),
{
    steps.push(step);
    assert(step_views(steps@) =~= step_views(old(steps)@).push(step@));
}

/// Adds a call whose failure gives the build up.
fn add_must(steps: &mut Vec<Step>, call: Call)
    ensures
        step_views(final(steps)@) == step_views(old(steps)@).push(must(call@)),
{
    add_step(steps, Step::Perform { call, on_failure: OnFailure::Abort });
}

/// Adds a call whose failure the build returns.
fn add_may_fail(steps: &mut Vec<Step>, call: Call)
    ensures
        step_views(final(steps)@) == step_views(old(steps)@).push(may_fail(call@)),
{
    add_step(steps, Step::Perform { call, on_failure: OnFailure::Return });
}

/// Makes the steps by which a server starts anew with its first block.
fn start_fresh(connector: &DarksideConnector, constants: &ChainConstants) -> (r: Vec<Step>)
    ensures
        step_views(r@) == fresh_steps(constants@),
{
    let mut steps: Vec<Step> = Vec::new();
    let mut blocks: Vec<String> = Vec::new();
    blocks.push(constants.genesis_block.clone());
    assert(texts(blocks@) =~= seq![constants@.genesis_block]);
    add_must(&mut steps, connector.clear_address_utxo());
    add_must(
        &mut steps,
        connector.reset(1, constants.branch_id.clone(), CHAIN_NAME.to_owned()),
    );
    add_may_fail(&mut steps, connector.stage_blocks_stream(blocks));
    assert(step_views(steps@) =~= fresh_steps(constants@));
    steps
}

/// Brings the server to a chain of three blocks: the first one, and two more, the second of
/// which has the startup funds if they are wanted.
pub fn prepare_darksidewalletd(
    connector: &DarksideConnector,
    constants: &ChainConstants,
    include_startup_funds: bool,
) -> (r: Script)
    ensures
        r@ == prepare_script(constants@, include_startup_funds),
{
    let mut steps = start_fresh(connector, constants);
    add_must(&mut steps, connector.stage_blocks_create(2, 2, 0));
    add_must(&mut steps, connector.add_tree_state(constants.first_tree_state.clone()));
    if include_startup_funds {
        add_step(
            &mut steps,
            Step::StageTransaction {
                source: Source::Hex(constants.transaction_incoming_100taz.clone()),
                height: 2,
            },
        );
        add_step(
            &mut steps,
            Step::UpdateTrees {
                source: Source::Hex(constants.transaction_incoming_100taz.clone()),
                height: 2,
            },
        );
        add_step(&mut steps, Step::AddTreeState { at: None });
        add_step(&mut steps, Step::AddTreeState { at: Some(3) });
    } else {
        add_must(&mut steps, connector.add_tree_state(constants.first_tree_state.at_height(2)));
        add_must(&mut steps, connector.add_tree_state(constants.first_tree_state.at_height(3)));
    }
    add_step(&mut steps, Step::Sleep { seconds: 2 });
    add_may_fail(&mut steps, connector.apply_staged(3));
    assert(step_views(steps@) =~= prepare_script(constants@, include_startup_funds).steps);
    Script {
        steps,
        network: constants.first_tree_state.network.clone(),
        outcome: Outcome::Nothing,
    }
}

/// The address of the server that listens at a port of this machine.
pub open spec fn local_server(grpc_port: Seq<char>) -> Seq<char> {
    "http://127.0.0.1:"@ + grpc_port
}

/// Makes the address of the server that listens at a port of this machine.
pub fn server_address(grpc_port: &str) -> (r: String)
    ensures
        r@ == local_server(grpc_port@),
        r@ == "http://127.0.0.1:"@ + grpc_port@,
{
    "http://127.0.0.1:".to_owned().concat(grpc_port)
}

/// Gives the server its first block and the tree state at its end.
pub fn init_darksidewalletd(connector: &DarksideConnector, constants: &ChainConstants) -> (r: Script)
    ensures
        r@ == init_script(constants@),
{
    let mut steps = start_fresh(connector, constants);
    add_must(&mut steps, connector.add_tree_state(constants.first_tree_state.clone()));
    Script {
        steps,
        network: constants.first_tree_state.network.clone(),
        outcome: Outcome::Nothing,
    }
}

/// Stages and applies the empty blocks after `current_height` up to `target_height`, with
/// `tree_state` at the end of the last.
pub fn generate_blocks(
    connector: &DarksideConnector,
    tree_state: TreeState,
    current_height: i32,
    target_height: i32,
    nonce: i32,
) -> (r: Script)
    requires
        current_height < i32::MAX,
        i32::MIN <= target_height - current_height <= i32::MAX,
    ensures
        r@ == generate_script(tree_state@, current_height, target_height, nonce),
{
    let mut steps: Vec<Step> = Vec::new();
    let network = tree_state.network.clone();
    let count: i32 = target_height - current_height;
    add_must(&mut steps, connector.stage_blocks_create(current_height + 1, count, nonce));
    add_must(&mut steps, connector.add_tree_state(tree_state.at_height(target_height as u64)));
    add_must(&mut steps, connector.apply_staged(target_height));
    assert(step_views(steps@) =~= generate_script(
        tree_state@,
        current_height,
        target_height,
        nonce,
    ).steps);
    Script { steps, network, outcome: Outcome::Height(target_height) }
}

/// Takes a raw transaction, and then updates and returns the tree state from the block
/// before `height`.
pub fn update_tree_states_for_transaction(raw_tx: RawTransaction, height: u64, network: &str) -> (r:
    Script)
    ensures
        r@ == update_script(raw_tx@, height, network@),
{
    let mut steps: Vec<Step> = Vec::new();
    add_step(&mut steps, Step::UpdateTrees { source: Source::Given(raw_tx), height });
    add_step(&mut steps, Step::AddTreeState { at: None });
    assert(step_views(steps@) =~= update_script(raw_tx@, height, network@).steps);
    Script { steps, network: network.to_owned(), outcome: Outcome::TreeState }
}

/// Stages a block and a transaction, then updates the tree state.
pub fn stage_transaction(
    connector: &DarksideConnector,
    height: u64,
    hex_transaction: &str,
    network: &str,
) -> (r: Script)
    ensures
        r@ == stage_script(height, hex_transaction@, network@),
{
    let mut steps: Vec<Step> = Vec::new();
    add_must(&mut steps, connector.stage_blocks_create(height as i32, 1, 0));
    add_step(
        &mut steps,
        Step::StageTransaction { source: Source::Hex(hex_transaction.to_owned()), height },
    );
    add_step(
        &mut steps,
        Step::UpdateTrees { source: Source::Hex(hex_transaction.to_owned()), height },
    );
    add_step(&mut steps, Step::AddTreeState { at: None });
    add_step(&mut steps, Step::AddTreeState { at: None });
    assert(step_views(steps@) =~= stage_script(height, hex_transaction@, network@).steps);
    Script { steps, network: network.to_owned(), outcome: Outcome::TreeState }
}

/// Stages a block, has the funded wallet send a value, and stages and records the
/// transaction that comes of it, then updates the tree state.
pub fn send_and_stage_transaction(
    connector: &DarksideConnector,
    receiver_address: &str,
    value: u64,
    height: u64,
    network: &str,
) -> (r: Script)
    ensures
        r@ == send_script(receiver_address@, value, height, network@),
{
    let mut steps: Vec<Step> = Vec::new();
    add_must(&mut steps, connector.stage_blocks_create(height as i32, 1, 0));
    add_step(&mut steps, Step::Send { receiver: receiver_address.to_owned(), value });
    add_must(&mut steps, connector.get_incoming_transactions());
    add_must(&mut steps, connector.clear_incoming_transactions());
    add_step(&mut steps, Step::TakeTransaction);
    add_step(&mut steps, Step::ExpectNoMore);
    add_step(&mut steps, Step::RecordTransaction);
    add_step(&mut steps, Step::StageTransaction { source: Source::Taken, height });
    add_step(&mut steps, Step::UpdateTrees { source: Source::Taken, height });
    add_step(&mut steps, Step::AddTreeState { at: None });
    assert(step_views(steps@) =~= send_script(receiver_address@, value, height, network@).steps);
    Script { steps, network: network.to_owned(), outcome: Outcome::TreeState }
}

} // verus!
