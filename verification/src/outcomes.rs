//! What the builds ask for and come to, said request by request with the fields of each call,
//! and what the machine does with each step and each reply.

use crate::chain::{
    generate_script, init_script, prepare_script, send_script, stage_script, update_script,
    ChainConstantsView,
};
use crate::encoding::{decoded, encoded, is_hex};
use crate::flow::{
    issued, records_readably, resumed, started, step_request, AbortView, AwaitingView, FlowView,
    OnFailure, Outcome, OutputView, ProgressView, RegistersView, ReplyView, RequestView,
    ScriptView, SourceView, StepView,
};
use crate::laws::{
    all_done, ending, file_after, law_generate_blocks, law_init, law_prepare_with_funds,
    law_prepare_without_funds, law_send_and_stage, law_stage_transaction, law_steps_in_order,
    law_update, lemma_one_more_reply, lemma_trace_at, lemma_trace_len, trace,
};
use crate::messages::{CallView, RawTransactionView, TreeStateView};
use crate::transaction::{parsed_transaction, recorded, RecordError, TransactionParts};
use crate::update::{updated, TreeUpdateError};
use vstd::prelude::*;

verus! {

/// A build that waits has asked for one thing, and goes on with the first of the replies; one
/// that has ended asks for nothing more, and stays as it is.
pub proof fn law_requests_and_replies(
    request: RequestView,
    flow: FlowView,
    reply: ReplyView,
    replies: Seq<ReplyView>,
    end: ProgressView,
)
    ensures
        trace(ProgressView::Waiting { request, flow }, Seq::empty()) == seq![request],
        trace(ProgressView::Waiting { request, flow }, seq![reply] + replies) == seq![request]
            + trace(resumed(flow, reply), replies),
        !(end is Waiting) ==> trace(end, replies).len() == 0,
        ending(ProgressView::Waiting { request, flow }, Seq::empty()) == (ProgressView::Waiting {
            request,
            flow,
        }),
        ending(ProgressView::Waiting { request, flow }, seq![reply] + replies) == ending(
            resumed(flow, reply),
            replies,
        ),
        !(end is Waiting) ==> ending(end, replies) == end,
{
    assert((seq![reply] + replies).skip(1) =~= replies);
    assert((seq![reply] + replies)[0] == reply);
}

/// The first step of a script asks for this, and then waits for that; the rest of the script
/// is kept, and so is what the build has come by. Where a step lacks what it works on, the
/// build is given up.
pub proof fn law_first_step(script: ScriptView, registers: RegistersView)
    requires
        script.steps.len() > 0,
    ensures
        issued(script, registers) matches ProgressView::Waiting { request, flow } ==> {
            &&& flow.rest.steps == script.steps.skip(1)
            &&& flow.rest.network == script.network
            &&& flow.rest.outcome == script.outcome
            &&& flow.registers == registers
        },
        match script.steps[0] {
            StepView::Perform { call, on_failure } => {
                &&& issued(script, registers) matches ProgressView::Waiting { request, flow }
                &&& request == RequestView::Call(call)
                &&& flow.awaiting == AwaitingView::Done(on_failure)
            },
            StepView::Sleep { seconds } => {
                &&& issued(script, registers) matches ProgressView::Waiting { request, flow }
                &&& request == (RequestView::Sleep { seconds })
                &&& flow.awaiting == AwaitingView::Done(OnFailure::Abort)
            },
            StepView::Send { receiver, value } => {
                &&& issued(script, registers) matches ProgressView::Waiting { request, flow }
                &&& request == (RequestView::Send { receiver, value })
                &&& flow.awaiting == AwaitingView::Done(OnFailure::Abort)
            },
            StepView::TakeTransaction => {
                &&& issued(script, registers) matches ProgressView::Waiting { request, flow }
                &&& request is NextTransaction
                &&& flow.awaiting is Transaction
            },
            StepView::ExpectNoMore => {
                &&& issued(script, registers) matches ProgressView::Waiting { request, flow }
                &&& request is NextTransaction
                &&& flow.awaiting is EndOfTransactions
            },
            StepView::RecordTransaction => match registers.taken {
                None => issued(script, registers) == ProgressView::Aborted(
                    AbortView::NoTransaction,
                ),
                Some(taken) => match parsed_transaction(taken.data, 0xc2d6_d0b4) {
                    None => issued(script, registers) == ProgressView::Aborted(
                        AbortView::Record(RecordError::NotATransaction),
                    ),
                    Some(parts) => match parts.bytes {
                        None => issued(script, registers) == ProgressView::Aborted(
                            AbortView::Record(RecordError::NotWritable),
                        ),
                        Some(bytes) => {
                            &&& issued(script, registers) matches ProgressView::Waiting {
                                request,
                                flow,
                            }
                            &&& request == (RequestView::AppendToFile {
                                path: "transaction_hex.txt"@,
                                text: encoded(bytes) + seq!['\n'],
                            })
                            &&& flow.awaiting == AwaitingView::Done(OnFailure::Abort)
                        },
                    },
                },
            },
            StepView::StageTransaction { source, height } => match source {
                SourceView::Given(given) => {
                    &&& issued(script, registers) matches ProgressView::Waiting { request, flow }
                    &&& request == RequestView::Call(
                        CallView::StageTransactionsStream {
                            transactions: seq![RawTransactionView { data: given.data, height }],
                        },
                    )
                    &&& flow.awaiting == AwaitingView::Done(OnFailure::Abort)
                },
                SourceView::Hex(text) => if is_hex(text) {
                    &&& issued(script, registers) matches ProgressView::Waiting { request, flow }
                    &&& request == RequestView::Call(
                        CallView::StageTransactionsStream {
                            transactions: seq![RawTransactionView { data: decoded(text), height }],
                        },
                    )
                    &&& flow.awaiting == AwaitingView::Done(OnFailure::Abort)
                } else {
                    issued(script, registers) == ProgressView::Aborted(AbortView::NotHexadecimal)
                },
                SourceView::Taken => match registers.taken {
                    None => issued(script, registers) == ProgressView::Aborted(
                        AbortView::NoTransaction,
                    ),
                    Some(taken) => {
                        &&& issued(script, registers) matches ProgressView::Waiting { request, flow }
                        &&& request == RequestView::Call(
                            CallView::StageTransactionsStream {
                                transactions: seq![RawTransactionView { data: taken.data, height }],
                            },
                        )
                        &&& flow.awaiting == AwaitingView::Done(OnFailure::Abort)
                    },
                },
            },
            StepView::UpdateTrees { source, height } => {
                let data = match source {
                    SourceView::Given(given) => given.data,
                    SourceView::Hex(text) => decoded(text),
                    SourceView::Taken => registers.taken->0.data,
                };
                if (source matches SourceView::Hex(text) && !is_hex(text)) {
                    issued(script, registers) == ProgressView::Aborted(AbortView::NotHexadecimal)
                } else if source is Taken && registers.taken is None {
                    issued(script, registers) == ProgressView::Aborted(AbortView::NoTransaction)
                } else if height == 0 {
                    issued(script, registers) == ProgressView::Aborted(AbortView::NoBlockBefore)
                } else {
                    &&& issued(script, registers) matches ProgressView::Waiting { request, flow }
                    &&& request == (RequestView::GetTrees { height: (height - 1) as u64 })
                    &&& flow.awaiting == (AwaitingView::Trees { data, height })
                }
            },
            StepView::AddTreeState { at } => match registers.tree_state {
                None => issued(script, registers) == ProgressView::Aborted(AbortView::NoTreeState),
                Some(kept) => {
                    &&& issued(script, registers) matches ProgressView::Waiting { request, flow }
                    &&& request matches RequestView::Call(CallView::AddTreeState { state })
                    &&& state.network == kept.network
                    &&& state.height == (match at {
                        Some(height) => height,
                        None => kept.height,
                    })
                    &&& state.hash == kept.hash
                    &&& state.time == kept.time
                    &&& state.sapling_tree == kept.sapling_tree
                    &&& state.orchard_tree == kept.orchard_tree
                    &&& flow.awaiting == AwaitingView::Done(OnFailure::Abort)
                },
            },
        },
{
    if script.steps[0] is RecordTransaction && registers.taken is Some {
        let data = registers.taken->0.data;
        if recorded(data, 0xc2d6_d0b4) is Ok {
            let parts = parsed_transaction(data, 0xc2d6_d0b4)->0;
            crate::meaning::law_recording_succeeds(data, 0xc2d6_d0b4, parts, parts.bytes->0);
        }
    }
}

/// A build starts with its first step, and has come by nothing yet.
pub proof fn law_start(script: ScriptView)
    ensures
        started(script) == issued(script, RegistersView { taken: None, tree_state: None }),
{
}

/// A build without steps returns what it was to return: nothing, a height, or the tree state
/// that is kept, without which it is given up.
pub proof fn law_no_step_left(script: ScriptView, registers: RegistersView)
    requires
        script.steps.len() == 0,
    ensures
        match script.outcome {
            Outcome::Nothing => issued(script, registers) == ProgressView::Returned(
                Ok(OutputView::Nothing),
            ),
            Outcome::Height(height) => issued(script, registers) == ProgressView::Returned(
                Ok(OutputView::Height(height)),
            ),
            Outcome::TreeState => match registers.tree_state {
                Some(state) => issued(script, registers) == ProgressView::Returned(
                    Ok(OutputView::TreeState(state)),
                ),
                None => issued(script, registers) == ProgressView::Aborted(AbortView::NoTreeState),
            },
        },
{
}

/// What a build does with a reply. It goes on with the rest of its script where the reply is
/// the one that it waits for, with the transaction or the new tree state that came of it; it
/// ends where the outside failed, and is given up where the reply is of another kind, where no
/// transaction came or one too many, and where no new tree state comes out.
pub proof fn law_reply(flow: FlowView, reply: ReplyView)
    ensures
        match reply {
            ReplyView::Failed(reason) => resumed(flow, reply) == (if flow.awaiting
                == AwaitingView::Done(OnFailure::Return) {
                ProgressView::Returned(Err(reason))
            } else {
                ProgressView::Aborted(AbortView::Failed(reason))
            }),
            ReplyView::Done => resumed(flow, reply) == (if flow.awaiting is Done {
                issued(flow.rest, flow.registers)
            } else {
                ProgressView::Aborted(AbortView::UnexpectedReply)
            }),
            ReplyView::Transaction(Some(transaction)) => resumed(flow, reply) == (
            if flow.awaiting is Transaction {
                issued(
                    flow.rest,
                    RegistersView {
                        taken: Some(transaction),
                        tree_state: flow.registers.tree_state,
                    },
                )
            } else if flow.awaiting is EndOfTransactions {
                ProgressView::Aborted(AbortView::TooManyTransactions)
            } else {
                ProgressView::Aborted(AbortView::UnexpectedReply)
            }),
            ReplyView::Transaction(None) => resumed(flow, reply) == (
            if flow.awaiting is Transaction {
                ProgressView::Aborted(AbortView::NoTransaction)
            } else if flow.awaiting is EndOfTransactions {
                issued(flow.rest, flow.registers)
            } else {
                ProgressView::Aborted(AbortView::UnexpectedReply)
            }),
            ReplyView::Trees(trees) => match flow.awaiting {
                AwaitingView::Trees { data, height } => resumed(flow, reply) == (match updated(
                    trees,
                    data,
                    height,
                    flow.rest.network,
                ) {
                    Ok(state) => issued(
                        flow.rest,
                        RegistersView { taken: flow.registers.taken, tree_state: Some(state) },
                    ),
                    Err(error) => ProgressView::Aborted(AbortView::Trees(error)),
                }),
                _ => resumed(flow, reply) == ProgressView::Aborted(AbortView::UnexpectedReply),
            },
        },
{
}

/// What a build asks to record can be read back: the transaction that was taken, from the
/// bytes that it serializes to, whatever follows them.
pub proof fn law_records_readably(
    request: RequestView,
    flow: FlowView,
    parts: TransactionParts,
    bytes: Seq<u8>,
    rest: Seq<u8>,
)
    requires
        records_readably(ProgressView::Waiting { request, flow }),
        request is AppendToFile,
        parsed_transaction(flow.registers.taken->0.data, 0xc2d6_d0b4) == Some(parts),
        parts.bytes == Some(bytes),
    ensures
        flow.registers.taken is Some,
        parsed_transaction(bytes + rest, 0xc2d6_d0b4) == Some(parts),
{
}

/// A file that is written to has the text behind what it held, if it is the one that the
/// request names, and is left alone by every other request.
pub proof fn law_file_after(
    path: Seq<char>,
    contents: Seq<char>,
    requests: Seq<RequestView>,
    request: RequestView,
)
    ensures
        file_after(path, contents, Seq::empty()) == contents,
        match request {
            RequestView::AppendToFile { path: other, text } if other == path => file_after(
                path,
                contents,
                requests.push(request),
            ) == file_after(path, contents, requests) + text,
            _ => file_after(path, contents, requests.push(request)) == file_after(
                path,
                contents,
                requests,
            ),
        },
{
    assert(requests.push(request).drop_last() =~= requests);
}

/// How a build that asked for something at place `k` got there.
proof fn lemma_asked(script: ScriptView, replies: Seq<ReplyView>, k: int)
    requires
        0 <= k < trace(started(script), replies).len(),
    ensures
        k <= replies.len(),
        k < script.steps.len(),
        ({
            let now = ending(started(script), replies.take(k));
            &&& now is Waiting
            &&& trace(started(script), replies)[k] == now->request
            &&& now->flow.rest.steps == script.steps.skip(k + 1)
            &&& step_request(script.steps[k], now->flow.registers) == Ok::<_, AbortView>(
                (now->request, now->flow.awaiting),
            )
        }),
        k > 0 ==> {
            let before = ending(started(script), replies.take(k - 1));
            &&& before is Waiting
            &&& ending(started(script), replies.take(k)) == resumed(before->flow, replies[k - 1])
        },
{
    lemma_trace_len(started(script), replies);
    lemma_trace_at(started(script), replies, k);
    law_steps_in_order(script, replies.take(k));
    if k > 0 {
        lemma_one_more_reply(started(script), replies, k - 1);
    }
}

/// A failure ends a build: its reason is returned if the step that failed is a call whose
/// failure the build returns, and the build is given up for that reason otherwise.
proof fn lemma_failed(script: ScriptView, replies: Seq<ReplyView>, reason: Seq<char>)
    requires
        replies.len() > 0,
        trace(started(script), replies).len() == replies.len(),
        replies.last() == ReplyView::Failed(reason),
    ensures
        replies.len() <= script.steps.len(),
        ending(started(script), replies) == (if (script.steps[replies.len() - 1]
            matches StepView::Perform { on_failure: OnFailure::Return, .. }) {
            ProgressView::Returned(Err(reason))
        } else {
            ProgressView::Aborted(AbortView::Failed(reason))
        }),
{
    let k = replies.len() - 1;
    lemma_asked(script, replies, k);
    lemma_one_more_reply(started(script), replies, k);
    assert(replies.take(k + 1) =~= replies);
}

/// Whatever the replies are, preparing a chain without funds asks for these things, in this
/// order, as far as it comes. Failures of the first block and of the last call are returned;
/// every other failure gives the build up.
pub proof fn law_prepare_without_funds_asks(
    constants: ChainConstantsView,
    replies: Seq<ReplyView>,
    reason: Seq<char>,
)
    ensures
        ({
            let script = prepare_script(constants, false);
            let asked = trace(started(script), replies);
            let end = ending(started(script), replies);
            &&& asked.len() <= 9
            &&& asked.len() > 0
            &&& asked.len() > 0 ==> asked[0] == RequestView::Call(CallView::ClearAddressUtxo)
            &&& asked.len() > 1 ==> asked[1] == RequestView::Call(
                CallView::Reset {
                    sapling_activation: 1,
                    branch_id: constants.branch_id,
                    chain_name: "regtest"@,
                },
            )
            &&& asked.len() > 2 ==> asked[2] == RequestView::Call(
                CallView::StageBlocksStream { blocks: seq![constants.genesis_block] },
            )
            &&& asked.len() > 3 ==> asked[3] == RequestView::Call(
                CallView::StageBlocksCreate { height: 2, count: 2, nonce: 0 },
            )
            &&& asked.len() > 4 ==> asked[4] == RequestView::Call(
                CallView::AddTreeState { state: constants.first_tree_state },
            )
            &&& asked.len() > 5 ==> asked[5] == RequestView::Call(
                CallView::AddTreeState {
                    state: TreeStateView {
                        network: constants.first_tree_state.network,
                        height: 2,
                        hash: constants.first_tree_state.hash,
                        time: constants.first_tree_state.time,
                        sapling_tree: constants.first_tree_state.sapling_tree,
                        orchard_tree: constants.first_tree_state.orchard_tree,
                    },
                },
            )
            &&& asked.len() > 6 ==> asked[6] == RequestView::Call(
                CallView::AddTreeState {
                    state: TreeStateView {
                        network: constants.first_tree_state.network,
                        height: 3,
                        hash: constants.first_tree_state.hash,
                        time: constants.first_tree_state.time,
                        sapling_tree: constants.first_tree_state.sapling_tree,
                        orchard_tree: constants.first_tree_state.orchard_tree,
                    },
                },
            )
            &&& asked.len() > 7 ==> asked[7] == (RequestView::Sleep { seconds: 2 })
            &&& asked.len() > 8 ==> asked[8] == RequestView::Call(CallView::ApplyStaged { height: 3 })
            &&& (replies.len() > 0 && asked.len() == replies.len() && replies.last()
                == ReplyView::Failed(reason)) ==> end == (if replies.len() == 3 || replies.len() == 9 {
                ProgressView::Returned(Err(reason))
            } else {
                ProgressView::Aborted(AbortView::Failed(reason))
            })
        }),
{
    let script = prepare_script(constants, false);
    let asked = trace(started(script), replies);
    assert(script.steps.len() == 9);
    if replies.len() > 0 && asked.len() == replies.len() && replies.last() == ReplyView::Failed(
        reason,
    ) {
        lemma_failed(script, replies, reason);
    }
    lemma_trace_len(started(script), replies);
    if asked.len() > 9 {
        lemma_asked(script, replies, 9);
    }
    lemma_trace_at(started(script), replies, 0);
    assert(replies.take(0) =~= Seq::empty());
    assert(ending(started(script), replies.take(0)) == started(script));
    if asked.len() > 0 {
        lemma_asked(script, replies, 0);
    }
    if asked.len() > 1 {
        lemma_asked(script, replies, 1);
    }
    if asked.len() > 2 {
        lemma_asked(script, replies, 2);
    }
    if asked.len() > 3 {
        lemma_asked(script, replies, 3);
    }
    if asked.len() > 4 {
        lemma_asked(script, replies, 4);
    }
    if asked.len() > 5 {
        lemma_asked(script, replies, 5);
    }
    if asked.len() > 6 {
        lemma_asked(script, replies, 6);
    }
    if asked.len() > 7 {
        lemma_asked(script, replies, 7);
    }
    if asked.len() > 8 {
        lemma_asked(script, replies, 8);
    }
}

/// Whatever the replies are, preparing a chain with funds asks for these things, in this
/// order, as far as it comes: the tree state that is added twice is the one that the funding
/// transaction leaves behind the trees of the first block. Failures of the first block and of
/// the last call are returned; every other failure gives the build up.
pub proof fn law_prepare_with_funds_asks(
    constants: ChainConstantsView,
    replies: Seq<ReplyView>,
    reason: Seq<char>,
)
    ensures
        ({
            let script = prepare_script(constants, true);
            let asked = trace(started(script), replies);
            let end = ending(started(script), replies);
            &&& asked.len() <= 11
            &&& asked.len() > 0
            &&& asked.len() > 0 ==> asked[0] == RequestView::Call(CallView::ClearAddressUtxo)
            &&& asked.len() > 1 ==> asked[1] == RequestView::Call(
                CallView::Reset {
                    sapling_activation: 1,
                    branch_id: constants.branch_id,
                    chain_name: "regtest"@,
                },
            )
            &&& asked.len() > 2 ==> asked[2] == RequestView::Call(
                CallView::StageBlocksStream { blocks: seq![constants.genesis_block] },
            )
            &&& asked.len() > 3 ==> asked[3] == RequestView::Call(
                CallView::StageBlocksCreate { height: 2, count: 2, nonce: 0 },
            )
            &&& asked.len() > 4 ==> asked[4] == RequestView::Call(
                CallView::AddTreeState { state: constants.first_tree_state },
            )
            &&& asked.len() > 5 ==> is_hex(constants.transaction_incoming_100taz)
            &&& asked.len() > 5 ==> asked[5] == RequestView::Call(
                CallView::StageTransactionsStream {
                    transactions: seq![RawTransactionView { data: decoded(constants.transaction_incoming_100taz), height: 2 }],
                },
            )
            &&& asked.len() > 6 ==> asked[6] == (RequestView::GetTrees { height: 1 })
            &&& asked.len() > 7 ==> {
                &&& replies[6] matches ReplyView::Trees(trees)
                &&& updated(
                    trees,
                    decoded(constants.transaction_incoming_100taz),
                    2,
                    constants.first_tree_state.network,
                ) matches Ok(state)
                &&& asked[7] == RequestView::Call(CallView::AddTreeState { state })
                &&& asked.len() > 8 ==> asked[8] == RequestView::Call(
                    CallView::AddTreeState {
                        state: TreeStateView {
                            network: state.network,
                            height: 3,
                            hash: state.hash,
                            time: state.time,
                            sapling_tree: state.sapling_tree,
                            orchard_tree: state.orchard_tree,
                        },
                    },
                )
            }
            &&& asked.len() > 9 ==> asked[9] == (RequestView::Sleep { seconds: 2 })
            &&& asked.len() > 10 ==> asked[10] == RequestView::Call(CallView::ApplyStaged { height: 3 })
            &&& (replies.len() > 0 && asked.len() == replies.len() && replies.last()
                == ReplyView::Failed(reason)) ==> end == (if replies.len() == 3 || replies.len() == 11 {
                ProgressView::Returned(Err(reason))
            } else {
                ProgressView::Aborted(AbortView::Failed(reason))
            })
        }),
{
    let script = prepare_script(constants, true);
    let asked = trace(started(script), replies);
    assert(script.steps.len() == 11);
    if replies.len() > 0 && asked.len() == replies.len() && replies.last() == ReplyView::Failed(
        reason,
    ) {
        lemma_failed(script, replies, reason);
    }
    lemma_trace_len(started(script), replies);
    if asked.len() > 11 {
        lemma_asked(script, replies, 11);
    }
    lemma_trace_at(started(script), replies, 0);
    assert(replies.take(0) =~= Seq::empty());
    assert(ending(started(script), replies.take(0)) == started(script));
    if asked.len() > 0 {
        lemma_asked(script, replies, 0);
    }
    if asked.len() > 1 {
        lemma_asked(script, replies, 1);
    }
    if asked.len() > 2 {
        lemma_asked(script, replies, 2);
    }
    if asked.len() > 3 {
        lemma_asked(script, replies, 3);
    }
    if asked.len() > 4 {
        lemma_asked(script, replies, 4);
    }
    if asked.len() > 5 {
        lemma_asked(script, replies, 5);
    }
    if asked.len() > 6 {
        lemma_asked(script, replies, 6);
    }
    if asked.len() > 7 {
        lemma_asked(script, replies, 7);
    }
    if asked.len() > 8 {
        lemma_asked(script, replies, 8);
    }
    if asked.len() > 9 {
        lemma_asked(script, replies, 9);
    }
    if asked.len() > 10 {
        lemma_asked(script, replies, 10);
    }
}

/// Whatever the replies are, initialising a server asks for these things, in this order, as
/// far as it comes. A failure of the first block is returned; every other failure gives the
/// build up.
pub proof fn law_init_asks(
    constants: ChainConstantsView,
    replies: Seq<ReplyView>,
    reason: Seq<char>,
)
    ensures
        ({
            let script = init_script(constants);
            let asked = trace(started(script), replies);
            let end = ending(started(script), replies);
            &&& asked.len() <= 4
            &&& asked.len() > 0
            &&& asked.len() > 0 ==> asked[0] == RequestView::Call(CallView::ClearAddressUtxo)
            &&& asked.len() > 1 ==> asked[1] == RequestView::Call(
                CallView::Reset {
                    sapling_activation: 1,
                    branch_id: constants.branch_id,
                    chain_name: "regtest"@,
                },
            )
            &&& asked.len() > 2 ==> asked[2] == RequestView::Call(
                CallView::StageBlocksStream { blocks: seq![constants.genesis_block] },
            )
            &&& asked.len() > 3 ==> asked[3] == RequestView::Call(
                CallView::AddTreeState { state: constants.first_tree_state },
            )
            &&& (replies.len() > 0 && asked.len() == replies.len() && replies.last()
                == ReplyView::Failed(reason)) ==> end == (if replies.len() == 3 {
                ProgressView::Returned(Err(reason))
            } else {
                ProgressView::Aborted(AbortView::Failed(reason))
            })
        }),
{
    let script = init_script(constants);
    let asked = trace(started(script), replies);
    assert(script.steps.len() == 4);
    if replies.len() > 0 && asked.len() == replies.len() && replies.last() == ReplyView::Failed(
        reason,
    ) {
        lemma_failed(script, replies, reason);
    }
    lemma_trace_len(started(script), replies);
    if asked.len() > 4 {
        lemma_asked(script, replies, 4);
    }
    lemma_trace_at(started(script), replies, 0);
    assert(replies.take(0) =~= Seq::empty());
    assert(ending(started(script), replies.take(0)) == started(script));
    if asked.len() > 0 {
        lemma_asked(script, replies, 0);
    }
    if asked.len() > 1 {
        lemma_asked(script, replies, 1);
    }
    if asked.len() > 2 {
        lemma_asked(script, replies, 2);
    }
    if asked.len() > 3 {
        lemma_asked(script, replies, 3);
    }
}

/// Whatever the replies are, generating blocks asks for these things, in this order, as far as
/// it comes: the empty blocks behind the current height up to the target, then the given tree
/// state at the target height with every other field as it was, then the chain up to the
/// target. Every failure gives the build up.
pub proof fn law_generate_asks(
    tree_state: TreeStateView,
    current_height: i32,
    target_height: i32,
    nonce: i32,
    replies: Seq<ReplyView>,
    reason: Seq<char>,
)
    ensures
        ({
            let script = generate_script(tree_state, current_height, target_height, nonce);
            let asked = trace(started(script), replies);
            let end = ending(started(script), replies);
            &&& asked.len() <= 3
            &&& asked.len() > 0
            &&& asked.len() > 0 ==> asked[0] == RequestView::Call(
                CallView::StageBlocksCreate { height: (current_height + 1) as i32, count: (target_height - current_height) as i32, nonce: nonce },
            )
            &&& asked.len() > 1 ==> asked[1] == RequestView::Call(
                CallView::AddTreeState {
                    state: TreeStateView {
                        network: tree_state.network,
                        height: target_height as u64,
                        hash: tree_state.hash,
                        time: tree_state.time,
                        sapling_tree: tree_state.sapling_tree,
                        orchard_tree: tree_state.orchard_tree,
                    },
                },
            )
            &&& asked.len() > 2 ==> asked[2] == RequestView::Call(CallView::ApplyStaged { height: target_height })
            &&& (replies.len() > 0 && asked.len() == replies.len() && replies.last()
                == ReplyView::Failed(reason)) ==> end == ProgressView::Aborted(
                AbortView::Failed(reason),
            )
        }),
{
    let script = generate_script(tree_state, current_height, target_height, nonce);
    let asked = trace(started(script), replies);
    assert(script.steps.len() == 3);
    if replies.len() > 0 && asked.len() == replies.len() && replies.last() == ReplyView::Failed(
        reason,
    ) {
        lemma_failed(script, replies, reason);
    }
    lemma_trace_len(started(script), replies);
    if asked.len() > 3 {
        lemma_asked(script, replies, 3);
    }
    lemma_trace_at(started(script), replies, 0);
    assert(replies.take(0) =~= Seq::empty());
    assert(ending(started(script), replies.take(0)) == started(script));
    if asked.len() > 0 {
        lemma_asked(script, replies, 0);
    }
    if asked.len() > 1 {
        lemma_asked(script, replies, 1);
    }
    if asked.len() > 2 {
        lemma_asked(script, replies, 2);
    }
}

/// Whatever the replies are, updating the tree state asks for the trees of the block before,
/// and then, as far as it comes, adds the one that the transaction leaves behind them. Every
/// failure gives the build up.
pub proof fn law_update_asks(
    raw_tx: RawTransactionView,
    height: u64,
    network: Seq<char>,
    replies: Seq<ReplyView>,
    reason: Seq<char>,
)
    ensures
        ({
            let script = update_script(raw_tx, height, network);
            let asked = trace(started(script), replies);
            let end = ending(started(script), replies);
            &&& asked.len() <= 2
            &&& asked.len() > 0 <==> height > 0
            &&& height == 0 ==> end == ProgressView::Aborted(AbortView::NoBlockBefore)
            &&& asked.len() > 0 ==> asked[0] == (RequestView::GetTrees { height: (height - 1) as u64 })
            &&& asked.len() > 1 ==> {
                &&& replies[0] matches ReplyView::Trees(trees)
                &&& updated(trees, raw_tx.data, height, network) matches Ok(state)
                &&& asked[1] == RequestView::Call(CallView::AddTreeState { state })
            }
            &&& (replies.len() > 0 && asked.len() == replies.len() && replies.last()
                == ReplyView::Failed(reason)) ==> end == ProgressView::Aborted(
                AbortView::Failed(reason),
            )
        }),
{
    let script = update_script(raw_tx, height, network);
    let asked = trace(started(script), replies);
    assert(script.steps.len() == 2);
    if replies.len() > 0 && asked.len() == replies.len() && replies.last() == ReplyView::Failed(
        reason,
    ) {
        lemma_failed(script, replies, reason);
    }
    lemma_trace_len(started(script), replies);
    if asked.len() > 2 {
        lemma_asked(script, replies, 2);
    }
    lemma_trace_at(started(script), replies, 0);
    assert(replies.take(0) =~= Seq::empty());
    assert(ending(started(script), replies.take(0)) == started(script));
    if asked.len() > 0 {
        lemma_asked(script, replies, 0);
    }
    if asked.len() > 1 {
        lemma_asked(script, replies, 1);
    }
}

/// Whatever the replies are, staging a transaction asks for these things, in this order, as
/// far as it comes: one empty block at the height, the transaction at the height, the trees of
/// the block before, and twice for the tree state that the transaction leaves behind them.
/// Every failure gives the build up.
pub proof fn law_stage_asks(
    height: u64,
    hex_transaction: Seq<char>,
    network: Seq<char>,
    replies: Seq<ReplyView>,
    reason: Seq<char>,
)
    ensures
        ({
            let script = stage_script(height, hex_transaction, network);
            let asked = trace(started(script), replies);
            let end = ending(started(script), replies);
            &&& asked.len() <= 5
            &&& asked.len() > 0
            &&& asked.len() > 0 ==> asked[0] == RequestView::Call(
                CallView::StageBlocksCreate { height: height as i32, count: 1, nonce: 0 },
            )
            &&& asked.len() > 1 ==> is_hex(hex_transaction)
            &&& asked.len() > 1 ==> asked[1] == RequestView::Call(
                CallView::StageTransactionsStream {
                    transactions: seq![RawTransactionView { data: decoded(hex_transaction), height: height }],
                },
            )
            &&& asked.len() > 2 ==> height > 0
            &&& asked.len() > 2 ==> asked[2] == (RequestView::GetTrees { height: (height - 1) as u64 })
            &&& asked.len() > 3 ==> {
                &&& replies[2] matches ReplyView::Trees(trees)
                &&& updated(trees, decoded(hex_transaction), height, network) matches Ok(state)
                &&& asked[3] == RequestView::Call(CallView::AddTreeState { state })
                &&& asked.len() > 4 ==> asked[4] == RequestView::Call(
                    CallView::AddTreeState { state },
                )
            }
            &&& (replies.len() > 0 && asked.len() == replies.len() && replies.last()
                == ReplyView::Failed(reason)) ==> end == ProgressView::Aborted(
                AbortView::Failed(reason),
            )
        }),
{
    let script = stage_script(height, hex_transaction, network);
    let asked = trace(started(script), replies);
    assert(script.steps.len() == 5);
    if replies.len() > 0 && asked.len() == replies.len() && replies.last() == ReplyView::Failed(
        reason,
    ) {
        lemma_failed(script, replies, reason);
    }
    lemma_trace_len(started(script), replies);
    if asked.len() > 5 {
        lemma_asked(script, replies, 5);
    }
    lemma_trace_at(started(script), replies, 0);
    assert(replies.take(0) =~= Seq::empty());
    assert(ending(started(script), replies.take(0)) == started(script));
    if asked.len() > 0 {
        lemma_asked(script, replies, 0);
    }
    if asked.len() > 1 {
        lemma_asked(script, replies, 1);
    }
    if asked.len() > 2 {
        lemma_asked(script, replies, 2);
    }
    if asked.len() > 3 {
        lemma_asked(script, replies, 3);
    }
    if asked.len() > 4 {
        lemma_asked(script, replies, 4);
    }
}

/// Whatever the replies are, a send asks for these things, in this order, as far as it comes:
/// one empty block at the height, the send, the stream of transactions and its end, the record
/// of the one transaction that came, that transaction at the height, the trees of the block
/// before, and the tree state that the transaction leaves behind them. Every failure gives the
/// build up.
pub proof fn law_send_asks(
    receiver_address: Seq<char>,
    value: u64,
    height: u64,
    network: Seq<char>,
    replies: Seq<ReplyView>,
    reason: Seq<char>,
)
    ensures
        ({
            let script = send_script(receiver_address, value, height, network);
            let asked = trace(started(script), replies);
            let end = ending(started(script), replies);
            &&& asked.len() <= 10
            &&& asked.len() > 0
            &&& asked.len() > 0 ==> asked[0] == RequestView::Call(
                CallView::StageBlocksCreate { height: height as i32, count: 1, nonce: 0 },
            )
            &&& asked.len() > 1 ==> asked[1] == (RequestView::Send { receiver: receiver_address, value })
            &&& asked.len() > 2 ==> asked[2] == RequestView::Call(CallView::GetIncomingTransactions)
            &&& asked.len() > 3 ==> asked[3] == RequestView::Call(CallView::ClearIncomingTransactions)
            &&& asked.len() > 4 ==> asked[4] == RequestView::NextTransaction
            &&& asked.len() > 5 ==> asked[5] == RequestView::NextTransaction
            &&& asked.len() > 6 ==> {
                &&& replies[4] matches ReplyView::Transaction(Some(taken))
                &&& replies[5] == ReplyView::Transaction(None)
                &&& parsed_transaction(taken.data, 0xc2d6_d0b4) matches Some(parts)
                &&& parts.bytes matches Some(bytes)
                &&& asked[6] == (RequestView::AppendToFile {
                    path: "transaction_hex.txt"@,
                    text: encoded(bytes) + seq!['\n'],
                })
                &&& asked.len() > 7 ==> asked[7] == RequestView::Call(
                    CallView::StageTransactionsStream {
                        transactions: seq![RawTransactionView { data: taken.data, height }],
                    },
                )
                &&& asked.len() > 8 ==> height > 0 && asked[8] == (RequestView::GetTrees {
                    height: (height - 1) as u64,
                })
                &&& asked.len() > 9 ==> {
                    &&& replies[8] matches ReplyView::Trees(trees)
                    &&& updated(trees, taken.data, height, network) matches Ok(state)
                    &&& asked[9] == RequestView::Call(CallView::AddTreeState { state })
                }
            }
            &&& (replies.len() > 0 && asked.len() == replies.len() && replies.last()
                == ReplyView::Failed(reason)) ==> end == ProgressView::Aborted(
                AbortView::Failed(reason),
            )
        }),
{
    let script = send_script(receiver_address, value, height, network);
    let asked = trace(started(script), replies);
    assert(script.steps.len() == 10);
    if replies.len() > 0 && asked.len() == replies.len() && replies.last() == ReplyView::Failed(
        reason,
    ) {
        lemma_failed(script, replies, reason);
    }
    lemma_trace_len(started(script), replies);
    if asked.len() > 10 {
        lemma_asked(script, replies, 10);
    }
    lemma_trace_at(started(script), replies, 0);
    assert(replies.take(0) =~= Seq::empty());
    assert(ending(started(script), replies.take(0)) == started(script));
    if asked.len() > 0 {
        lemma_asked(script, replies, 0);
    }
    if asked.len() > 1 {
        lemma_asked(script, replies, 1);
    }
    if asked.len() > 2 {
        lemma_asked(script, replies, 2);
    }
    if asked.len() > 3 {
        lemma_asked(script, replies, 3);
    }
    if asked.len() > 4 {
        lemma_asked(script, replies, 4);
    }
    if asked.len() > 5 {
        lemma_asked(script, replies, 5);
    }
    if asked.len() > 6 {
        lemma_asked(script, replies, 6);
    }
    if asked.len() > 7 {
        lemma_asked(script, replies, 7);
    }
    if asked.len() > 8 {
        lemma_asked(script, replies, 8);
    }
    if asked.len() > 9 {
        lemma_asked(script, replies, 9);
    }
    if asked.len() > 6 {
        let taken = replies[4]->Transaction_0->0;
        let parts = parsed_transaction(taken.data, 0xc2d6_d0b4)->0;
        crate::meaning::law_recording_succeeds(taken.data, 0xc2d6_d0b4, parts, parts.bytes->0);
    }
}

/// Preparing a chain without funds comes to its end when everything that it asks for is done.
pub proof fn law_prepare_without_funds_returns(
    constants: ChainConstantsView,
    replies: Seq<ReplyView>,
)
    requires
        replies.len() == 9,
        forall|i: int| 0 <= i < 9 ==> #[trigger] replies[i] is Done,
    ensures
        trace(started(prepare_script(constants, false)), replies).len() == 9,
        ending(started(prepare_script(constants, false)), replies) == ProgressView::Returned(
            Ok(OutputView::Nothing),
        ),
{
    law_prepare_without_funds(constants);
    assert(replies =~= all_done(9));
}

/// Preparing a chain with funds comes to its end when everything that it asks for is done, and
/// the trees that come can take the funding transaction.
pub proof fn law_prepare_with_funds_returns(
    constants: ChainConstantsView,
    trees: TreeStateView,
    replies: Seq<ReplyView>,
)
    requires
        is_hex(constants.transaction_incoming_100taz),
        updated(
            trees,
            decoded(constants.transaction_incoming_100taz),
            2,
            constants.first_tree_state.network,
        ) is Ok,
        replies.len() == 11,
        forall|i: int| 0 <= i < 11 && i != 6 ==> #[trigger] replies[i] is Done,
        replies[6] == ReplyView::Trees(trees),
    ensures
        trace(started(prepare_script(constants, true)), replies).len() == 11,
        ending(started(prepare_script(constants, true)), replies) == ProgressView::Returned(
            Ok(OutputView::Nothing),
        ),
{
    let data = decoded(constants.transaction_incoming_100taz);
    let state = updated(trees, data, 2, constants.first_tree_state.network)->Ok_0;
    law_prepare_with_funds(constants, trees, state);
    assert(replies =~= all_done(6) + (seq![ReplyView::Trees(trees)] + all_done(4)));
}

/// Initialising a server comes to its end when everything that it asks for is done.
pub proof fn law_init_returns(constants: ChainConstantsView, replies: Seq<ReplyView>)
    requires
        replies.len() == 4,
        forall|i: int| 0 <= i < 4 ==> #[trigger] replies[i] is Done,
    ensures
        trace(started(init_script(constants)), replies).len() == 4,
        ending(started(init_script(constants)), replies) == ProgressView::Returned(
            Ok(OutputView::Nothing),
        ),
{
    law_init(constants);
    assert(replies =~= all_done(4));
}

/// Generating blocks returns the target height when everything that it asks for is done.
pub proof fn law_generate_returns(
    tree_state: TreeStateView,
    current_height: i32,
    target_height: i32,
    nonce: i32,
    replies: Seq<ReplyView>,
)
    requires
        current_height < i32::MAX,
        i32::MIN <= target_height - current_height <= i32::MAX,
        replies.len() == 3,
        forall|i: int| 0 <= i < 3 ==> #[trigger] replies[i] is Done,
    ensures
        ({
            let script = generate_script(tree_state, current_height, target_height, nonce);
            &&& trace(started(script), replies).len() == 3
            &&& ending(started(script), replies) == ProgressView::Returned(
                Ok(OutputView::Height(target_height)),
            )
        }),
{
    law_generate_blocks(tree_state, current_height, target_height, nonce);
    assert(replies =~= all_done(3));
}

/// Updating the tree state returns the one that the transaction leaves behind the trees that
/// came, when it is added.
pub proof fn law_update_returns(
    raw_tx: RawTransactionView,
    height: u64,
    network: Seq<char>,
    trees: TreeStateView,
    state: TreeStateView,
)
    requires
        height > 0,
        updated(trees, raw_tx.data, height, network) == Ok::<_, TreeUpdateError>(state),
    ensures
        ({
            let script = update_script(raw_tx, height, network);
            let replies = seq![ReplyView::Trees(trees), ReplyView::Done];
            &&& trace(started(script), replies).len() == 2
            &&& ending(started(script), replies) == ProgressView::Returned(
                Ok(OutputView::TreeState(state)),
            )
        }),
{
    law_update(raw_tx, height, network, trees, state);
}

/// Staging a transaction returns the tree state that it leaves behind the trees that came, when
/// everything that it asks for is done.
pub proof fn law_stage_returns(
    height: u64,
    hex_transaction: Seq<char>,
    network: Seq<char>,
    trees: TreeStateView,
    state: TreeStateView,
    replies: Seq<ReplyView>,
)
    requires
        height > 0,
        is_hex(hex_transaction),
        updated(trees, decoded(hex_transaction), height, network) == Ok::<_, TreeUpdateError>(
            state,
        ),
        replies.len() == 5,
        forall|i: int| 0 <= i < 5 && i != 2 ==> #[trigger] replies[i] is Done,
        replies[2] == ReplyView::Trees(trees),
    ensures
        ({
            let script = stage_script(height, hex_transaction, network);
            &&& trace(started(script), replies).len() == 5
            &&& ending(started(script), replies) == ProgressView::Returned(
                Ok(OutputView::TreeState(state)),
            )
        }),
{
    law_stage_transaction(height, hex_transaction, network, trees, state);
    assert(replies =~= all_done(2) + (seq![ReplyView::Trees(trees)] + all_done(2)));
}

/// A send returns the tree state that its transaction leaves behind the trees that came, when
/// one transaction comes, which serializes to bytes of whatever length, and everything else
/// that it asks for is done.
pub proof fn law_send_returns(
    receiver_address: Seq<char>,
    value: u64,
    height: u64,
    network: Seq<char>,
    raw_tx: RawTransactionView,
    parts: TransactionParts,
    bytes: Seq<u8>,
    trees: TreeStateView,
    state: TreeStateView,
    replies: Seq<ReplyView>,
)
    requires
        height > 0,
        parsed_transaction(raw_tx.data, 0xc2d6_d0b4) == Some(parts),
        parts.bytes == Some(bytes),
        updated(trees, raw_tx.data, height, network) == Ok::<_, TreeUpdateError>(state),
        replies.len() == 10,
        forall|i: int|
            0 <= i < 10 && i != 4 && i != 5 && i != 8 ==> #[trigger] replies[i] is Done,
        replies[4] == ReplyView::Transaction(Some(raw_tx)),
        replies[5] == ReplyView::Transaction(None),
        replies[8] == ReplyView::Trees(trees),
    ensures
        ({
            let script = send_script(receiver_address, value, height, network);
            &&& trace(started(script), replies).len() == 10
            &&& ending(started(script), replies) == ProgressView::Returned(
                Ok(OutputView::TreeState(state)),
            )
        }),
{
    let line = recorded(raw_tx.data, 0xc2d6_d0b4)->Ok_0;
    law_send_and_stage(receiver_address, value, height, network, raw_tx, line, trees, state);
    assert(replies =~= all_done(4) + (seq![
        ReplyView::Transaction(Some(raw_tx)),
        ReplyView::Transaction(None),
    ] + (all_done(2) + (seq![ReplyView::Trees(trees)] + all_done(1)))));
}

} // verus!
