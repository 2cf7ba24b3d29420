//! What holds of whole builds.

use crate::chain::{
    empty_blocks, generate_script, init_script, may_fail, prepare_script, send_script,
    stage_script, update_script, ChainConstantsView, CHAIN_NAME,
};
use crate::dataset::{is_line, law_read_of_written, lines_of, written};
use crate::encoding::{decoded, encoded, encoded_digit, is_hex, law_decode_of_encode};
use crate::flow::{
    finished, issued, no_registers, resumed, started, step_request, tail, AbortView, AwaitingView, FlowView,
    OnFailure, OutputView, ProgressView, RegistersView, ReplyView, RequestView, ScriptView,
    StepView,
};
use crate::messages::{at_height, CallView, RawTransactionView, TreeStateView};
use crate::transaction::{
    parsed_transaction, record_line, recorded, stays_readable, RecordError, NU5_BRANCH,
    TRANSACTION_FILE,
};
use crate::update::{updated, TreeUpdateError};
use vstd::prelude::*;

verus! {

/// The requests that a build makes while the replies last.
pub open spec fn trace(progress: ProgressView, replies: Seq<ReplyView>) -> Seq<RequestView>
    decreases replies.len(),
{
    match progress {
        ProgressView::Waiting { request, flow } => if replies.len() == 0 {
            seq![request]
        } else {
            seq![request] + trace(resumed(flow, replies[0]), replies.skip(1))
        },
        _ => Seq::empty(),
    }
}

/// How far a build has come once the replies are used up, or it has ended.
pub open spec fn ending(progress: ProgressView, replies: Seq<ReplyView>) -> ProgressView
    decreases replies.len(),
{
    match progress {
        ProgressView::Waiting { request, flow } => if replies.len() == 0 {
            progress
        } else {
            ending(resumed(flow, replies[0]), replies.skip(1))
        },
        _ => progress,
    }
}

/// A build that got a reply has used up one step: if it waits again, then for the request of
/// the step that was next, and that step is gone from the script.
pub proof fn law_one_step_for_each_reply(flow: FlowView, reply: ReplyView)
    ensures
        resumed(flow, reply) matches ProgressView::Waiting { request, flow: next } ==> {
            &&& flow.rest.steps.len() > 0
            &&& next.rest == tail(flow.rest)
            &&& step_request(flow.rest.steps[0], next.registers) == Ok::<_, AbortView>(
                (request, next.awaiting),
            )
        },
{
}

/// A build ends within as many requests as its script has steps, whatever the replies are.
pub proof fn law_requests_are_bounded(script: ScriptView, replies: Seq<ReplyView>)
    ensures
        trace(started(script), replies).len() <= script.steps.len(),
        replies.len() >= script.steps.len() ==> !(ending(started(script), replies) is Waiting),
{
    lemma_bounded(started(script), replies);
}

spec fn steps_left(progress: ProgressView) -> nat {
    match progress {
        ProgressView::Waiting { request, flow } => flow.rest.steps.len() + 1,
        _ => 0,
    }
}

proof fn lemma_bounded(progress: ProgressView, replies: Seq<ReplyView>)
    ensures
        trace(progress, replies).len() <= steps_left(progress),
        replies.len() >= steps_left(progress) ==> !(ending(progress, replies) is Waiting),
    decreases replies.len(),
{
    if progress is Waiting && replies.len() > 0 {
        lemma_bounded(resumed(progress->flow, replies[0]), replies.skip(1));
    }
}

/// The steps of a script are carried out in order: a build that still waits after some
/// replies waits for the step whose place is their number, and has every later step before
/// it.
pub proof fn law_steps_in_order(script: ScriptView, replies: Seq<ReplyView>)
    ensures
        ending(started(script), replies) matches ProgressView::Waiting { request, flow } ==> {
            &&& replies.len() < script.steps.len()
            &&& flow.rest.steps == script.steps.skip(replies.len() as int + 1)
            &&& step_request(script.steps[replies.len() as int], flow.registers) == Ok::<
                _,
                AbortView,
            >((request, flow.awaiting))
        },
{
    lemma_in_order(script, 0, started(script), replies);
}

proof fn lemma_in_order(
    script: ScriptView,
    done: int,
    progress: ProgressView,
    replies: Seq<ReplyView>,
)
    requires
        progress matches ProgressView::Waiting { request, flow } ==> {
            &&& 0 <= done < script.steps.len()
            &&& flow.rest.steps == script.steps.skip(done + 1)
            &&& step_request(script.steps[done], flow.registers) == Ok::<_, AbortView>(
                (request, flow.awaiting),
            )
        },
    ensures
        ending(progress, replies) matches ProgressView::Waiting { request, flow } ==> {
            &&& done + replies.len() < script.steps.len()
            &&& flow.rest.steps == script.steps.skip(done + replies.len() + 1)
            &&& step_request(script.steps[done + replies.len()], flow.registers) == Ok::<
                _,
                AbortView,
            >((request, flow.awaiting))
        },
    decreases replies.len(),
{
    if progress is Waiting && replies.len() > 0 {
        let flow = progress->flow;
        let next = resumed(flow, replies[0]);
        if next is Waiting {
            assert(flow.rest.steps.skip(1) =~= script.steps.skip(done + 2));
        }
        lemma_in_order(script, done + 1, next, replies.skip(1));
    }
}

/// The request at place `k` of a trace is that for which the build waits after `k` replies.
pub(crate) proof fn lemma_trace_at(progress: ProgressView, replies: Seq<ReplyView>, k: int)
    requires
        0 <= k <= replies.len(),
    ensures
        k < trace(progress, replies).len() <==> ending(progress, replies.take(k)) is Waiting,
        ending(progress, replies.take(k)) matches ProgressView::Waiting { request, .. } ==> trace(
            progress,
            replies,
        )[k] == request,
    decreases k,
{
    if k > 0 && progress is Waiting {
        assert(replies.take(k).skip(1) =~= replies.skip(1).take(k - 1));
        lemma_trace_at(resumed(progress->flow, replies[0]), replies.skip(1), k - 1);
    }
}

pub(crate) proof fn lemma_trace_len(progress: ProgressView, replies: Seq<ReplyView>)
    ensures
        trace(progress, replies).len() <= replies.len() + 1,
    decreases replies.len(),
{
    if progress is Waiting && replies.len() > 0 {
        lemma_trace_len(resumed(progress->flow, replies[0]), replies.skip(1));
    }
}

/// One more reply takes a build that waits one step further.
pub(crate) proof fn lemma_one_more_reply(progress: ProgressView, replies: Seq<ReplyView>, k: int)
    requires
        0 <= k < replies.len(),
    ensures
        ending(progress, replies.take(k + 1)) == match ending(progress, replies.take(k)) {
            ProgressView::Waiting { request, flow } => resumed(flow, replies[k]),
            end => end,
        },
    decreases k,
{
    assert(replies.take(k + 1).skip(1) =~= replies.skip(1).take(k));
    if progress is Waiting {
        let next = resumed(progress->flow, replies[0]);
        if k == 0 {
            assert(ending(next, replies.take(1).skip(1)) == next);
        } else {
            assert(replies.take(k).skip(1) =~= replies.skip(1).take(k - 1));
            lemma_one_more_reply(next, replies.skip(1), k - 1);
        }
    }
}

/// A failure ends a build. Its reason is returned where the call that failed allows it, and
/// in every other case the build is given up for that reason.
pub proof fn law_failure_ends_a_build(flow: FlowView, reason: Seq<char>)
    ensures
        resumed(flow, ReplyView::Failed(reason)) == (if flow.awaiting == AwaitingView::Done(
            OnFailure::Return,
        ) {
            ProgressView::Returned(Err(reason))
        } else {
            ProgressView::Aborted(AbortView::Failed(reason))
        }),
{
}

/// Of the calls that prepare a chain, two return their errors: the one that stages the first
/// block, and the last, which applies the chain.
pub proof fn law_prepare_returns_two_errors(constants: ChainConstantsView, funds: bool, n: int)
    requires
        0 <= n < prepare_script(constants, funds).steps.len(),
    ensures
        (prepare_script(constants, funds).steps[n] matches StepView::Perform {
            call,
            on_failure: OnFailure::Return,
        }) <==> n == 2 || n == prepare_script(constants, funds).steps.len() - 1,
        prepare_script(constants, funds).steps[2] == may_fail(
            CallView::StageBlocksStream { blocks: seq![constants.genesis_block] },
        ),
        prepare_script(constants, funds).steps.last() == may_fail(
            CallView::ApplyStaged { height: 3 },
        ),
{
}

/// Replies that say that everything is done.
pub open spec fn all_done(n: nat) -> Seq<ReplyView> {
    Seq::new(n, |i: int| ReplyView::Done)
}

/// The requests by which a server starts anew with its first block.
pub open spec fn fresh_requests(constants: ChainConstantsView) -> Seq<RequestView> {
    seq![
        RequestView::Call(CallView::ClearAddressUtxo),
        RequestView::Call(
            CallView::Reset {
                sapling_activation: 1,
                branch_id: constants.branch_id,
                chain_name: CHAIN_NAME@,
            },
        ),
        RequestView::Call(CallView::StageBlocksStream { blocks: seq![constants.genesis_block] }),
    ]
}

/// The call that adds a tree state.
pub open spec fn add_state(state: TreeStateView) -> RequestView {
    RequestView::Call(CallView::AddTreeState { state })
}

/// Whether a step can be carried out, and then only waits until its request is done.
pub open spec fn only_waits(step: StepView, registers: RegistersView) -> bool {
    step_request(step, registers) matches Ok((_, AwaitingView::Done(_)))
}

/// The requests of steps that can be carried out.
pub open spec fn requests(steps: Seq<StepView>, registers: RegistersView) -> Seq<RequestView> {
    steps.map_values(|step: StepView| step_request(step, registers)->Ok_0.0)
}

/// The script without its first `k` steps.
pub open spec fn without(script: ScriptView, k: int) -> ScriptView {
    ScriptView { steps: script.steps.skip(k), ..script }
}

/// Steps that only wait are carried out one after the other as long as each is done.
pub proof fn law_done_after_done(
    script: ScriptView,
    registers: RegistersView,
    k: nat,
    replies: Seq<ReplyView>,
)
    requires
        k <= script.steps.len(),
        forall|i: int| 0 <= i < k ==> only_waits(#[trigger] script.steps[i], registers),
    ensures
        trace(issued(script, registers), all_done(k) + replies) == requests(
            script.steps.take(k as int),
            registers,
        ) + trace(issued(without(script, k as int), registers), replies),
        ending(issued(script, registers), all_done(k) + replies) == ending(
            issued(without(script, k as int), registers),
            replies,
        ),
    decreases k,
{
    if k == 0 {
        assert(all_done(k) + replies =~= replies);
        assert(without(script, 0) =~= script);
        assert(requests(script.steps.take(0), registers) =~= Seq::empty());
        assert(Seq::empty() + trace(issued(script, registers), replies) =~= trace(
            issued(script, registers),
            replies,
        ));
    } else {
        let less = (k - 1) as nat;
        let next = tail(script);
        assert(only_waits(script.steps[0], registers));
        assert forall|i: int| 0 <= i < less implies only_waits(
            #[trigger] next.steps[i],
            registers,
        ) by {
            assert(next.steps[i] == script.steps[i + 1]);
        }
        law_done_after_done(next, registers, less, replies);
        assert((all_done(k) + replies).skip(1) =~= all_done(less) + replies);
        assert((all_done(k) + replies)[0] == ReplyView::Done);
        assert(without(next, less as int) =~= without(script, k as int));
        let first = issued(script, registers)->request;
        assert(requests(script.steps.take(k as int), registers) =~= seq![first] + requests(
            next.steps.take(less as int),
            registers,
        ));
        assert(seq![first] + (requests(next.steps.take(less as int), registers) + trace(
            issued(without(script, k as int), registers),
            replies,
        )) =~= requests(script.steps.take(k as int), registers) + trace(
            issued(without(script, k as int), registers),
            replies,
        ));
    }
}

/// A script whose steps only wait makes their requests in order and comes to its end.
proof fn lemma_all_done(script: ScriptView, registers: RegistersView)
    requires
        forall|i: int|
            0 <= i < script.steps.len() ==> only_waits(#[trigger] script.steps[i], registers),
    ensures
        trace(issued(script, registers), all_done(script.steps.len())) == requests(
            script.steps,
            registers,
        ),
        ending(issued(script, registers), all_done(script.steps.len())) == finished(
            script.outcome,
            registers,
        ),
{
    let n = script.steps.len();
    law_done_after_done(script, registers, n, Seq::empty());
    assert(all_done(n) + Seq::empty() =~= all_done(n));
    assert(script.steps.take(n as int) =~= script.steps);
    assert(without(script, n as int).steps.len() == 0);
    assert(requests(script.steps, registers) + Seq::empty() =~= requests(script.steps, registers));
}

/// Preparing a chain without funds makes these requests, and returns, when all goes well:
/// the chain is applied last.
pub proof fn law_prepare_without_funds(constants: ChainConstantsView)
    ensures
        trace(started(prepare_script(constants, false)), all_done(9)) == fresh_requests(constants)
            + seq![
            RequestView::Call(empty_blocks(2, 2, 0)),
            add_state(constants.first_tree_state),
            add_state(at_height(constants.first_tree_state, 2)),
            add_state(at_height(constants.first_tree_state, 3)),
            RequestView::Sleep { seconds: 2 },
            RequestView::Call(CallView::ApplyStaged { height: 3 }),
        ],
        ending(started(prepare_script(constants, false)), all_done(9)) == ProgressView::Returned(
            Ok(OutputView::Nothing),
        ),
{
    let script = prepare_script(constants, false);
    assert(script.steps.len() == 9);
    lemma_all_done(script, no_registers());
    assert(requests(script.steps, no_registers()) =~= fresh_requests(constants) + seq![
        RequestView::Call(empty_blocks(2, 2, 0)),
        add_state(constants.first_tree_state),
        add_state(at_height(constants.first_tree_state, 2)),
        add_state(at_height(constants.first_tree_state, 3)),
        RequestView::Sleep { seconds: 2 },
        RequestView::Call(CallView::ApplyStaged { height: 3 }),
    ]);
}

/// Initialising a server makes these requests, and returns, when all goes well. No block is
/// applied.
pub proof fn law_init(constants: ChainConstantsView)
    ensures
        trace(started(init_script(constants)), all_done(4)) == fresh_requests(constants).push(
            add_state(constants.first_tree_state),
        ),
        ending(started(init_script(constants)), all_done(4)) == ProgressView::Returned(
            Ok(OutputView::Nothing),
        ),
{
    let script = init_script(constants);
    assert(script.steps.len() == 4);
    lemma_all_done(script, no_registers());
    assert(requests(script.steps, no_registers()) =~= fresh_requests(constants).push(
        add_state(constants.first_tree_state),
    ));
}

/// Generating blocks makes these requests, and returns the target height, when all goes
/// well. The last of the blocks and the applied chain are at that height, and so is the tree
/// state, unless the height is negative.
pub proof fn law_generate_blocks(
    tree_state: TreeStateView,
    current_height: i32,
    target_height: i32,
    nonce: i32,
)
    requires
        current_height < i32::MAX,
        i32::MIN <= target_height - current_height <= i32::MAX,
    ensures
        ({
            let script = generate_script(tree_state, current_height, target_height, nonce);
            let first = (current_height + 1) as i32;
            let count = (target_height - current_height) as i32;
            &&& trace(started(script), all_done(3)) == seq![
                RequestView::Call(empty_blocks(first, count, nonce)),
                add_state(at_height(tree_state, target_height as u64)),
                RequestView::Call(CallView::ApplyStaged { height: target_height }),
            ]
            &&& ending(started(script), all_done(3)) == ProgressView::Returned(
                Ok(OutputView::Height(target_height)),
            )
            &&& first + count - 1 == target_height
            &&& target_height >= 0 ==> target_height as u64 == target_height as int
        }),
{
    let script = generate_script(tree_state, current_height, target_height, nonce);
    let first = (current_height + 1) as i32;
    let count = (target_height - current_height) as i32;
    assert(script.steps.len() == 3);
    lemma_all_done(script, no_registers());
    assert(requests(script.steps, no_registers()) =~= seq![
        RequestView::Call(empty_blocks(first, count, nonce)),
        add_state(at_height(tree_state, target_height as u64)),
        RequestView::Call(CallView::ApplyStaged { height: target_height }),
    ]);
}

/// Runs a script with one step that fetches trees in its midst: steps that only wait, the
/// fetch, and steps that only wait again, now with the new tree state.
proof fn lemma_through_trees(
    script: ScriptView,
    registers: RegistersView,
    k: nat,
    data: Seq<u8>,
    height: u64,
    trees: TreeStateView,
    state: TreeStateView,
)
    requires
        k < script.steps.len(),
        forall|i: int| 0 <= i < k ==> only_waits(#[trigger] script.steps[i], registers),
        height >= 1,
        step_request(script.steps[k as int], registers) == Ok::<_, AbortView>(
            (
                RequestView::GetTrees { height: (height - 1) as u64 },
                AwaitingView::Trees { data, height },
            ),
        ),
        updated(trees, data, height, script.network) == Ok::<_, TreeUpdateError>(state),
        forall|i: int|
            k < i < script.steps.len() ==> only_waits(
                #[trigger] script.steps[i],
                RegistersView { tree_state: Some(state), ..registers },
            ),
    ensures
        ({
            let later = RegistersView { tree_state: Some(state), ..registers };
            let n = (script.steps.len() - k - 1) as nat;
            let replies = all_done(k) + (seq![ReplyView::Trees(trees)] + all_done(n));
            &&& trace(issued(script, registers), replies) == requests(
                script.steps.take(k as int),
                registers,
            ) + (seq![RequestView::GetTrees { height: (height - 1) as u64 }] + requests(
                script.steps.skip(k as int + 1),
                later,
            ))
            &&& ending(issued(script, registers), replies) == finished(script.outcome, later)
        }),
{
    let later = RegistersView { tree_state: Some(state), ..registers };
    let n = (script.steps.len() - k - 1) as nat;
    let after = seq![ReplyView::Trees(trees)] + all_done(n);
    law_done_after_done(script, registers, k, after);
    let middle = without(script, k as int);
    let rest = tail(middle);
    assert(middle.steps[0] == script.steps[k as int]);
    assert(rest.steps =~= script.steps.skip(k as int + 1));
    assert(after.skip(1) =~= all_done(n));
    assert forall|i: int| 0 <= i < rest.steps.len() implies only_waits(
        #[trigger] rest.steps[i],
        later,
    ) by {
        assert(rest.steps[i] == script.steps[k + 1 + i]);
    }
    lemma_all_done(rest, later);
}

/// Preparing a chain with startup funds makes these requests, and returns, when all goes
/// well: the tree state that the funding transaction leaves behind stands at the end of the
/// second block and of the third, and the chain is applied last.
pub proof fn law_prepare_with_funds(
    constants: ChainConstantsView,
    trees: TreeStateView,
    state: TreeStateView,
)
    requires
        is_hex(constants.transaction_incoming_100taz),
        updated(
            trees,
            decoded(constants.transaction_incoming_100taz),
            2,
            constants.first_tree_state.network,
        ) == Ok::<_, TreeUpdateError>(state),
    ensures
        ({
            let replies = all_done(6) + (seq![ReplyView::Trees(trees)] + all_done(4));
            let data = decoded(constants.transaction_incoming_100taz);
            &&& trace(started(prepare_script(constants, true)), replies) == fresh_requests(
                constants,
            ) + seq![
                RequestView::Call(empty_blocks(2, 2, 0)),
                add_state(constants.first_tree_state),
                stage_one(data, 2),
                RequestView::GetTrees { height: 1 },
                add_state(state),
                add_state(at_height(state, 3)),
                RequestView::Sleep { seconds: 2 },
                RequestView::Call(CallView::ApplyStaged { height: 3 }),
            ]
            &&& ending(started(prepare_script(constants, true)), replies) == ProgressView::Returned(
                Ok(OutputView::Nothing),
            )
        }),
{
    let script = prepare_script(constants, true);
    let data = decoded(constants.transaction_incoming_100taz);
    let later = RegistersView { tree_state: Some(state), ..no_registers() };
    assert(script.steps.len() == 11);
    lemma_through_trees(script, no_registers(), 6, data, 2, trees, state);
    let expected = fresh_requests(constants) + seq![
        RequestView::Call(empty_blocks(2, 2, 0)),
        add_state(constants.first_tree_state),
        stage_one(data, 2),
        RequestView::GetTrees { height: 1 },
        add_state(state),
        add_state(at_height(state, 3)),
        RequestView::Sleep { seconds: 2 },
        RequestView::Call(CallView::ApplyStaged { height: 3 }),
    ];
    assert(requests(script.steps.take(6), no_registers()) + (seq![
        RequestView::GetTrees { height: 1 },
    ] + requests(script.steps.skip(7), later)) =~= expected);
}

/// The call that stages one transaction.
pub open spec fn stage_one(data: Seq<u8>, height: u64) -> RequestView {
    RequestView::Call(
        CallView::StageTransactionsStream {
            transactions: seq![RawTransactionView { data, height }],
        },
    )
}

/// The replies to the preparation of a chain when all goes well. The trees are asked for where
/// there are startup funds.
pub open spec fn prepare_replies(funds: bool, trees: TreeStateView) -> Seq<ReplyView> {
    if funds {
        all_done(6) + (seq![ReplyView::Trees(trees)] + all_done(4))
    } else {
        all_done(9)
    }
}

/// Whether a request adds a tree state at the given height.
pub open spec fn adds_state_at(request: RequestView, height: u64) -> bool {
    request matches RequestView::Call(CallView::AddTreeState { state }) && state.height == height
}

/// Whether two requests add tree states with the same trees.
pub open spec fn add_the_same_trees(one: RequestView, other: RequestView) -> bool {
    &&& one matches RequestView::Call(CallView::AddTreeState { state: first })
    &&& other matches RequestView::Call(CallView::AddTreeState { state: second })
    &&& first.sapling_tree == second.sapling_tree
    &&& first.orchard_tree == second.orchard_tree
}

/// Whether a request stages transactions.
pub open spec fn stages_transactions(request: RequestView) -> bool {
    request matches RequestView::Call(CallView::StageTransactionsStream { .. })
}

/// Whether a request applies the staged chain.
pub open spec fn applies(request: RequestView) -> bool {
    request matches RequestView::Call(CallView::ApplyStaged { .. })
}

/// However a chain is prepared, when all goes well one tree state is added at the second
/// height and one at the third, with the same trees, as the third block is empty; before them
/// stands the first tree state, at whatever height it is. A transaction is staged if and only
/// if there are startup funds. The chain is applied once, at the third height, and after every
/// other call.
pub proof fn law_prepare(constants: ChainConstantsView, funds: bool, trees: TreeStateView)
    requires
        funds ==> is_hex(constants.transaction_incoming_100taz) && updated(
            trees,
            decoded(constants.transaction_incoming_100taz),
            2,
            constants.first_tree_state.network,
        ) is Ok,
    ensures
        ({
            let script = prepare_script(constants, funds);
            let requests = trace(started(script), prepare_replies(funds, trees));
            let n = requests.len() as int;
            &&& ending(started(script), prepare_replies(funds, trees)) == ProgressView::Returned(
                Ok(OutputView::Nothing),
            )
            &&& n > 8
            &&& requests[4] == add_state(constants.first_tree_state)
            &&& forall|k: int|
                0 <= k < n && k != 4 ==> (adds_state_at(#[trigger] requests[k], 2) <==> k == n - 4)
            &&& forall|k: int|
                0 <= k < n && k != 4 ==> (adds_state_at(#[trigger] requests[k], 3) <==> k == n - 3)
            &&& add_the_same_trees(requests[n - 4], requests[n - 3])
            &&& (exists|k: int| 0 <= k < n && stages_transactions(#[trigger] requests[k])) <==> funds
            &&& forall|k: int| 0 <= k < n ==> (applies(#[trigger] requests[k]) <==> k == n - 1)
            &&& requests.last() == RequestView::Call(CallView::ApplyStaged { height: 3 })
        }),
{
    let requests = trace(started(prepare_script(constants, funds)), prepare_replies(funds, trees));
    if funds {
        let data = decoded(constants.transaction_incoming_100taz);
        let state = updated(trees, data, 2, constants.first_tree_state.network)->Ok_0;
        law_prepare_with_funds(constants, trees, state);
        assert(stages_transactions(requests[5]));
    } else {
        law_prepare_without_funds(constants);
    }
}

/// Updating the tree state asks for the one before the block, adds the one that the
/// transaction leaves behind, and returns it, when all goes well.
pub proof fn law_update(
    raw_tx: RawTransactionView,
    height: u64,
    network: Seq<char>,
    trees: TreeStateView,
    state: TreeStateView,
)
    requires
        height >= 1,
        updated(trees, raw_tx.data, height, network) == Ok::<_, TreeUpdateError>(state),
    ensures
        ({
            let replies = seq![ReplyView::Trees(trees), ReplyView::Done];
            &&& trace(started(update_script(raw_tx, height, network)), replies) == seq![
                RequestView::GetTrees { height: (height - 1) as u64 },
                add_state(state),
            ]
            &&& ending(started(update_script(raw_tx, height, network)), replies)
                == ProgressView::Returned(Ok(OutputView::TreeState(state)))
        }),
{
    let script = update_script(raw_tx, height, network);
    let later = RegistersView { tree_state: Some(state), ..no_registers() };
    lemma_through_trees(script, no_registers(), 0, raw_tx.data, height, trees, state);
    assert(all_done(0) + (seq![ReplyView::Trees(trees)] + all_done(1)) =~= seq![
        ReplyView::Trees(trees),
        ReplyView::Done,
    ]);
    assert(requests(script.steps.take(0), no_registers()) + (seq![
        RequestView::GetTrees { height: (height - 1) as u64 },
    ] + requests(script.steps.skip(1), later)) =~= seq![
        RequestView::GetTrees { height: (height - 1) as u64 },
        add_state(state),
    ]);
}

/// Staging a transaction makes these requests, and returns the new tree state, when all goes
/// well. The transaction and the tree state are at the same height, and so is the block, as
/// long as the height fits the server's type for it.
pub proof fn law_stage_transaction(
    height: u64,
    hex_transaction: Seq<char>,
    network: Seq<char>,
    trees: TreeStateView,
    state: TreeStateView,
)
    requires
        height >= 1,
        is_hex(hex_transaction),
        updated(trees, decoded(hex_transaction), height, network) == Ok::<_, TreeUpdateError>(
            state,
        ),
    ensures
        ({
            let script = stage_script(height, hex_transaction, network);
            let replies = all_done(2) + (seq![ReplyView::Trees(trees)] + all_done(2));
            &&& trace(started(script), replies) == seq![
                RequestView::Call(empty_blocks(height as i32, 1, 0)),
                stage_one(decoded(hex_transaction), height),
                RequestView::GetTrees { height: (height - 1) as u64 },
                add_state(state),
                add_state(state),
            ]
            &&& ending(started(script), replies) == ProgressView::Returned(
                Ok(OutputView::TreeState(state)),
            )
            &&& state.height == height
            &&& height <= i32::MAX ==> height as i32 == height as int
        }),
{
    let script = stage_script(height, hex_transaction, network);
    let data = decoded(hex_transaction);
    let later = RegistersView { tree_state: Some(state), ..no_registers() };
    lemma_through_trees(script, no_registers(), 2, data, height, trees, state);
    assert(requests(script.steps.take(2), no_registers()) + (seq![
        RequestView::GetTrees { height: (height - 1) as u64 },
    ] + requests(script.steps.skip(3), later)) =~= seq![
        RequestView::Call(empty_blocks(height as i32, 1, 0)),
        stage_one(data, height),
        RequestView::GetTrees { height: (height - 1) as u64 },
        add_state(state),
        add_state(state),
    ]);
}

/// The requests of a send up to the point where the transaction has to be there.
pub open spec fn sending_requests(
    receiver_address: Seq<char>,
    value: u64,
    height: u64,
) -> Seq<RequestView> {
    seq![
        RequestView::Call(empty_blocks(height as i32, 1, 0)),
        RequestView::Send { receiver: receiver_address, value },
        RequestView::Call(CallView::GetIncomingTransactions),
        RequestView::Call(CallView::ClearIncomingTransactions),
        RequestView::NextTransaction,
    ]
}

/// Carries a send to the point where the transaction has to be there.
proof fn lemma_sending(
    receiver_address: Seq<char>,
    value: u64,
    height: u64,
    network: Seq<char>,
    replies: Seq<ReplyView>,
)
    ensures
        ({
            let script = send_script(receiver_address, value, height, network);
            &&& trace(started(script), all_done(4) + replies) == sending_requests(
                receiver_address,
                value,
                height,
            ).take(4) + trace(issued(without(script, 4), no_registers()), replies)
            &&& ending(started(script), all_done(4) + replies) == ending(
                issued(without(script, 4), no_registers()),
                replies,
            )
            &&& without(script, 4).steps[0] == StepView::TakeTransaction
            &&& tail(without(script, 4)).steps[0] == StepView::ExpectNoMore
            &&& tail(tail(without(script, 4))) == without(script, 6)
        }),
{
    let script = send_script(receiver_address, value, height, network);
    law_done_after_done(script, no_registers(), 4, replies);
    assert(requests(script.steps.take(4), no_registers()) =~= sending_requests(
        receiver_address,
        value,
        height,
    ).take(4));
    assert(tail(tail(without(script, 4))) =~= without(script, 6));
}

/// Sending and staging makes these requests, and returns the new tree state, when all goes
/// well: the one transaction that was sent is recorded, staged at the given height, and
/// appended to the trees.
pub proof fn law_send_and_stage(
    receiver_address: Seq<char>,
    value: u64,
    height: u64,
    network: Seq<char>,
    raw_tx: RawTransactionView,
    line: Seq<char>,
    trees: TreeStateView,
    state: TreeStateView,
)
    requires
        height >= 1,
        recorded(raw_tx.data, NU5_BRANCH) == Ok::<_, RecordError>(line),
        updated(trees, raw_tx.data, height, network) == Ok::<_, TreeUpdateError>(state),
    ensures
        ({
            let script = send_script(receiver_address, value, height, network);
            let replies = all_done(4) + (seq![
                ReplyView::Transaction(Some(raw_tx)),
                ReplyView::Transaction(None),
            ] + (all_done(2) + (seq![ReplyView::Trees(trees)] + all_done(1))));
            &&& trace(started(script), replies) == sending_requests(
                receiver_address,
                value,
                height,
            ) + seq![
                RequestView::NextTransaction,
                RequestView::AppendToFile { path: TRANSACTION_FILE@, text: line },
                stage_one(raw_tx.data, height),
                RequestView::GetTrees { height: (height - 1) as u64 },
                add_state(state),
            ]
            &&& ending(started(script), replies) == ProgressView::Returned(
                Ok(OutputView::TreeState(state)),
            )
        }),
{
    let script = send_script(receiver_address, value, height, network);
    let last = all_done(2) + (seq![ReplyView::Trees(trees)] + all_done(1));
    let middle = seq![ReplyView::Transaction(Some(raw_tx)), ReplyView::Transaction(None)] + last;
    lemma_sending(receiver_address, value, height, network, middle);
    let taken = RegistersView { taken: Some(raw_tx), tree_state: None };
    let later = RegistersView { taken: Some(raw_tx), tree_state: Some(state) };
    let rest = without(script, 6);
    let waiting = tail(without(script, 4));
    lemma_through_trees(rest, taken, 2, raw_tx.data, height, trees, state);
    let after = seq![ReplyView::Transaction(None)] + last;
    assert(middle.skip(1) =~= after);
    assert(after.skip(1) =~= last);
    assert(trace(issued(waiting, taken), after) == seq![RequestView::NextTransaction] + trace(
        issued(rest, taken),
        last,
    ));
    assert(ending(issued(waiting, taken), after) == ending(issued(rest, taken), last));
    assert(issued(without(script, 4), no_registers())->request == RequestView::NextTransaction);
    assert(resumed(issued(without(script, 4), no_registers())->flow, middle[0]) == issued(
        waiting,
        taken,
    ));
    assert(sending_requests(receiver_address, value, height).take(4) + (seq![
        RequestView::NextTransaction,
    ] + (seq![RequestView::NextTransaction] + (requests(rest.steps.take(2), taken) + (seq![
        RequestView::GetTrees { height: (height - 1) as u64 },
    ] + requests(rest.steps.skip(3), later))))) =~= sending_requests(
        receiver_address,
        value,
        height,
    ) + seq![
        RequestView::NextTransaction,
        RequestView::AppendToFile { path: TRANSACTION_FILE@, text: line },
        stage_one(raw_tx.data, height),
        RequestView::GetTrees { height: (height - 1) as u64 },
        add_state(state),
    ]);
}

/// A send is given up unless exactly one transaction comes of it, and then nothing is
/// recorded or staged.
pub proof fn law_send_needs_one_transaction(
    receiver_address: Seq<char>,
    value: u64,
    height: u64,
    network: Seq<char>,
    first: RawTransactionView,
    second: RawTransactionView,
)
    ensures
        ({
            let script = send_script(receiver_address, value, height, network);
            let none = all_done(4) + seq![ReplyView::Transaction(None)];
            let two = all_done(4) + seq![
                ReplyView::Transaction(Some(first)),
                ReplyView::Transaction(Some(second)),
            ];
            &&& trace(started(script), none) == sending_requests(receiver_address, value, height)
            &&& ending(started(script), none) == ProgressView::Aborted(AbortView::NoTransaction)
            &&& trace(started(script), two) == sending_requests(
                receiver_address,
                value,
                height,
            ).push(RequestView::NextTransaction)
            &&& ending(started(script), two) == ProgressView::Aborted(
                AbortView::TooManyTransactions,
            )
        }),
{
    let none = seq![ReplyView::Transaction(None)];
    let two = seq![ReplyView::Transaction(Some(first)), ReplyView::Transaction(Some(second))];
    let sending = sending_requests(receiver_address, value, height);
    let script = send_script(receiver_address, value, height, network);
    let waiting = tail(without(script, 4));
    let taken = RegistersView { taken: Some(first), tree_state: None };
    reveal_with_fuel(trace, 3);
    reveal_with_fuel(ending, 3);
    lemma_sending(receiver_address, value, height, network, none);
    assert(trace(issued(without(script, 4), no_registers()), none) =~= seq![
        RequestView::NextTransaction,
    ]);
    assert(sending.take(4) + seq![RequestView::NextTransaction] =~= sending);
    lemma_sending(receiver_address, value, height, network, two);
    assert(two.skip(1) =~= seq![ReplyView::Transaction(Some(second))]);
    assert(trace(issued(waiting, taken), two.skip(1)) =~= seq![RequestView::NextTransaction]);
    assert(sending.take(4) + (seq![RequestView::NextTransaction] + seq![
        RequestView::NextTransaction,
    ]) =~= sending.push(RequestView::NextTransaction));
}

/// Blocks that are generated in two goes follow one another: the second go starts behind the
/// last block of the first.
pub proof fn law_generations_follow_one_another(
    tree_state: TreeStateView,
    start: i32,
    middle: i32,
    end: i32,
    nonce: i32,
)
    requires
        start < i32::MAX,
        middle < i32::MAX,
        i32::MIN <= middle - start <= i32::MAX,
        i32::MIN <= end - middle <= i32::MAX,
    ensures
        generate_script(tree_state, start, middle, nonce).steps[0] matches StepView::Perform {
            call: CallView::StageBlocksCreate { height: first, count, .. },
            ..
        } && generate_script(tree_state, middle, end, nonce).steps[0] matches StepView::Perform {
            call: CallView::StageBlocksCreate { height: next, .. },
            ..
        } && first + count == next,
{
}

/// The text of each of the transactions.
pub open spec fn hex_texts(transactions: Seq<Seq<u8>>) -> Seq<Seq<char>> {
    transactions.map_values(|bytes: Seq<u8>| encoded(bytes))
}

/// The record file of a chain build, to which the line of each transaction was appended in
/// turn.
pub open spec fn record_file(transactions: Seq<Seq<u8>>) -> Seq<char>
    decreases transactions.len(),
{
    if transactions.len() == 0 {
        Seq::empty()
    } else {
        record_file(transactions.drop_last()) + record_line(transactions.last())
    }
}

proof fn lemma_written_push(lines: Seq<Seq<char>>, line: Seq<char>)
    ensures
        written(lines.push(line)) == written(lines) + line.push('\n'),
    decreases lines.len(),
{
    let more = lines.push(line);
    if lines.len() == 0 {
        assert(more.skip(1) =~= Seq::empty());
        assert(written(more.skip(1)) =~= Seq::empty());
        assert(written(more) =~= written(lines) + line.push('\n'));
    } else {
        lemma_written_push(lines.skip(1), line);
        assert(more.skip(1) =~= lines.skip(1).push(line));
        assert(written(more) =~= written(lines) + line.push('\n'));
    }
}

proof fn lemma_record_file(transactions: Seq<Seq<u8>>)
    ensures
        record_file(transactions) == written(hex_texts(transactions)),
    decreases transactions.len(),
{
    if transactions.len() > 0 {
        let before = transactions.drop_last();
        lemma_record_file(before);
        lemma_written_push(hex_texts(before), encoded(transactions.last()));
        assert(hex_texts(transactions) =~= hex_texts(before).push(encoded(transactions.last())));
    } else {
        assert(hex_texts(transactions) =~= Seq::empty());
    }
}

/// The record file is a dataset of the transactions: read back, it has one line for each, in
/// the order in which they were sent, and each line stands for the transaction's bytes.
pub proof fn law_record_file_is_a_dataset(transactions: Seq<Seq<u8>>)
    ensures
        lines_of(record_file(transactions)) == hex_texts(transactions),
        forall|k: int|
            0 <= k < transactions.len() ==> {
                let line = #[trigger] lines_of(record_file(transactions))[k];
                is_hex(line) && decoded(line) == transactions[k]
            },
{
    let lines = hex_texts(transactions);
    lemma_record_file(transactions);
    assert forall|k: int| 0 <= k < lines.len() implies is_line(#[trigger] lines[k]) by {
        assert forall|i: int| 0 <= i < lines[k].len() implies lines[k][i] != '\n' by {
            assert(lines[k][i] == encoded_digit(transactions[k], i));
        }
    }
    assert forall|k: int| 0 <= k < lines.len() implies (#[trigger] lines[k]).len() == 0
        || lines[k].last() != '\r' by {
        if lines[k].len() > 0 {
            assert(lines[k].last() == encoded_digit(transactions[k], lines[k].len() - 1));
        }
    }
    law_read_of_written(lines);
    assert forall|k: int| 0 <= k < transactions.len() implies {
        let line = #[trigger] lines_of(record_file(transactions))[k];
        is_hex(line) && decoded(line) == transactions[k]
    } by {
        law_decode_of_encode(transactions[k]);
    }
}

/// What a file holds once the requests are carried out: behind what it held before, every
/// text that was to be written at its end, in order.
pub open spec fn file_after(
    path: Seq<char>,
    contents: Seq<char>,
    requests: Seq<RequestView>,
) -> Seq<char>
    decreases requests.len(),
{
    if requests.len() == 0 {
        contents
    } else {
        let before = file_after(path, contents, requests.drop_last());
        match requests.last() {
            RequestView::AppendToFile { path: written_path, text } => if written_path == path {
                before + text
            } else {
                before
            },
            _ => before,
        }
    }
}

proof fn lemma_file_after_both(
    path: Seq<char>,
    contents: Seq<char>,
    first: Seq<RequestView>,
    second: Seq<RequestView>,
)
    ensures
        file_after(path, contents, first + second) == file_after(
            path,
            file_after(path, contents, first),
            second,
        ),
    decreases second.len(),
{
    if second.len() == 0 {
        assert(first + second =~= first);
    } else {
        lemma_file_after_both(path, contents, first, second.drop_last());
        assert((first + second).drop_last() =~= first + second.drop_last());
    }
}

proof fn lemma_file_stays(path: Seq<char>, contents: Seq<char>, requests: Seq<RequestView>)
    requires
        forall|k: int| 0 <= k < requests.len() ==> !(#[trigger] requests[k] is AppendToFile),
    ensures
        file_after(path, contents, requests) == contents,
    decreases requests.len(),
{
    if requests.len() > 0 {
        lemma_file_stays(path, contents, requests.drop_last());
    }
}

/// Whether a script has no step that records a transaction.
pub open spec fn records_nothing(script: ScriptView) -> bool {
    forall|k: int|
        0 <= k < script.steps.len() ==> #[trigger] script.steps[k] != StepView::RecordTransaction
}

/// Only a send records: of the other builds none has a step that does.
pub proof fn law_only_sends_record(
    constants: ChainConstantsView,
    funds: bool,
    tree_state: TreeStateView,
    heights: (i32, i32),
    nonce: i32,
    raw_tx: RawTransactionView,
    hex_transaction: Seq<char>,
    receiver_address: Seq<char>,
    value: u64,
    height: u64,
    network: Seq<char>,
)
    ensures
        records_nothing(prepare_script(constants, funds)),
        records_nothing(init_script(constants)),
        records_nothing(generate_script(tree_state, heights.0, heights.1, nonce)),
        records_nothing(update_script(raw_tx, height, network)),
        records_nothing(stage_script(height, hex_transaction, network)),
        !records_nothing(send_script(receiver_address, value, height, network)),
{
    assert(send_script(receiver_address, value, height, network).steps[6]
        == StepView::RecordTransaction);
}

/// A build without a step that records asks for nothing to be written to a file, whatever the
/// replies are.
pub proof fn law_nothing_recorded(script: ScriptView, replies: Seq<ReplyView>)
    requires
        records_nothing(script),
    ensures
        forall|k: int|
            0 <= k < trace(started(script), replies).len() ==> !(#[trigger] trace(
                started(script),
                replies,
            )[k] is AppendToFile),
{
    lemma_nothing_recorded(started(script), replies);
}

proof fn lemma_nothing_recorded(progress: ProgressView, replies: Seq<ReplyView>)
    requires
        progress matches ProgressView::Waiting { request, flow } ==> {
            &&& !(request is AppendToFile)
            &&& records_nothing(flow.rest)
        },
    ensures
        forall|k: int|
            0 <= k < trace(progress, replies).len() ==> !(#[trigger] trace(progress, replies)[k]
                is AppendToFile),
    decreases replies.len(),
{
    if progress is Waiting && replies.len() > 0 {
        let rest = progress->flow.rest;
        let next = resumed(progress->flow, replies[0]);
        if next is Waiting {
            assert(rest.steps[0] != StepView::RecordTransaction);
            assert forall|k: int| 0 <= k < tail(rest).steps.len() implies #[trigger] tail(
                rest,
            ).steps[k] != StepView::RecordTransaction by {
                assert(tail(rest).steps[k] == rest.steps[k + 1]);
            }
        }
        lemma_nothing_recorded(next, replies.skip(1));
    }
}

/// The transaction that a send takes, where the replies bring it: the calls before it are done,
/// and the stream holds it and nothing more.
pub open spec fn sent_transaction(replies: Seq<ReplyView>) -> Option<RawTransactionView> {
    if replies.len() >= 6 && replies.take(4) == all_done(4) && replies[5]
        == ReplyView::Transaction(None) {
        match replies[4] {
            ReplyView::Transaction(taken) => taken,
            _ => None,
        }
    } else {
        None
    }
}

/// The line that a send records, where it comes to that.
pub open spec fn sent_line(replies: Seq<ReplyView>) -> Option<Seq<char>> {
    match sent_transaction(replies) {
        Some(transaction) => match recorded(transaction.data, NU5_BRANCH) {
            Ok(line) => Some(line),
            Err(_) => None,
        },
        None => None,
    }
}

/// Carries a send through the calls before its transaction: it waits on as long as they are
/// done.
proof fn lemma_send_begins(script: ScriptView, replies: Seq<ReplyView>, k: int)
    requires
        0 <= k <= 4,
        k <= replies.len(),
        script.steps.len() >= 4,
        forall|i: int| 0 <= i < 4 ==> only_waits(#[trigger] script.steps[i], no_registers()),
    ensures
        ending(started(script), replies.take(k)) is Waiting ==> replies.take(k) == all_done(
            k as nat,
        ),
        replies.take(k) == all_done(k as nat) ==> ending(started(script), replies.take(k))
            == issued(without(script, k), no_registers()),
    decreases k,
{
    if k == 0 {
        assert(without(script, 0) =~= script);
        assert(replies.take(0) =~= all_done(0));
        assert(ending(started(script), replies.take(0)) == started(script));
    } else {
        let less = k - 1;
        lemma_send_begins(script, replies, less);
        lemma_one_more_reply(started(script), replies, less);
        assert(replies.take(k) =~= replies.take(less).push(replies[less]));
        assert(all_done(k as nat) =~= all_done(less as nat).push(ReplyView::Done));
        assert(replies.take(k).drop_last() =~= replies.take(less));
        assert(all_done(k as nat).drop_last() =~= all_done(less as nat));
        assert(replies.take(k).last() == replies[less]);
        assert(all_done(k as nat).last() == ReplyView::Done);
        assert(without(script, less).steps[0] == script.steps[less]);
        assert(tail(without(script, less)) =~= without(script, k));
        assert(only_waits(script.steps[less], no_registers()));
    }
}

/// A send waits at its seventh request, whatever the replies are, if and only if it records.
proof fn lemma_send_at_record(
    receiver_address: Seq<char>,
    value: u64,
    height: u64,
    network: Seq<char>,
    replies: Seq<ReplyView>,
)
    requires
        replies.len() >= 6,
    ensures
        ({
            let script = send_script(receiver_address, value, height, network);
            match (ending(started(script), replies.take(6)), sent_line(replies)) {
                (ProgressView::Waiting { request, .. }, Some(line)) => request
                    == (RequestView::AppendToFile { path: TRANSACTION_FILE@, text: line }),
                (ProgressView::Waiting { .. }, None) => false,
                (_, line) => line is None,
            }
        }),
{
    let script = send_script(receiver_address, value, height, network);
    lemma_send_begins(script, replies, 4);
    lemma_one_more_reply(started(script), replies, 4);
    lemma_one_more_reply(started(script), replies, 5);
    assert(without(script, 4).steps[0] == StepView::TakeTransaction);
    assert(tail(without(script, 4)) =~= without(script, 5));
    assert(without(script, 5).steps[0] == StepView::ExpectNoMore);
    assert(tail(without(script, 5)) =~= without(script, 6));
    assert(without(script, 6).steps[0] == StepView::RecordTransaction);
}

/// A send records at most once, whatever the replies are: at its seventh request, in the
/// record file, with the line of the transaction that was taken. It does so if and only if the
/// calls before are done and the stream holds one transaction, which can be recorded; what
/// becomes of the send afterwards changes nothing of it.
pub proof fn law_send_records_at_most_once(
    receiver_address: Seq<char>,
    value: u64,
    height: u64,
    network: Seq<char>,
    replies: Seq<ReplyView>,
    contents: Seq<char>,
)
    ensures
        ({
            let script = send_script(receiver_address, value, height, network);
            let requests = trace(started(script), replies);
            &&& requests.len() > 6 <==> sent_line(replies) is Some
            &&& forall|k: int|
                0 <= k < requests.len() ==> (#[trigger] requests[k] is AppendToFile <==> k == 6)
            &&& sent_line(replies) matches Some(line) ==> requests[6] == (
            RequestView::AppendToFile { path: TRANSACTION_FILE@, text: line })
            &&& file_after(TRANSACTION_FILE@, contents, requests) == match sent_line(replies) {
                Some(line) => contents + line,
                None => contents,
            }
        }),
{
    let script = send_script(receiver_address, value, height, network);
    let requests = trace(started(script), replies);
    lemma_trace_len(started(script), replies);
    if replies.len() >= 6 {
        lemma_send_at_record(receiver_address, value, height, network, replies);
        lemma_trace_at(started(script), replies, 6);
    }
    assert forall|k: int| 0 <= k < requests.len() implies (#[trigger] requests[k] is AppendToFile
        <==> k == 6) by {
        lemma_trace_at(started(script), replies, k);
        law_steps_in_order(script, replies.take(k));
    }
    if requests.len() > 6 {
        let line = sent_line(replies)->0;
        let first = requests.take(6);
        let append = seq![RequestView::AppendToFile { path: TRANSACTION_FILE@, text: line }];
        let last = requests.skip(7);
        assert(requests =~= first + append + last);
        lemma_file_after_both(TRANSACTION_FILE@, contents, first + append, last);
        lemma_file_after_both(TRANSACTION_FILE@, contents, first, append);
        lemma_file_stays(TRANSACTION_FILE@, contents, first);
        lemma_file_stays(TRANSACTION_FILE@, contents, append.drop_last());
        assert(file_after(TRANSACTION_FILE@, contents, append) == contents + line);
        assert forall|k: int| 0 <= k < last.len() implies !(#[trigger] last[k] is AppendToFile) by {
            assert(last[k] == requests[k + 7]);
        }
        lemma_file_stays(TRANSACTION_FILE@, contents + line, last);
    } else {
        lemma_file_stays(TRANSACTION_FILE@, contents, requests);
    }
}

/// A build of a row, with the replies that it got, which may be any.
pub enum Build {
    Send {
        receiver_address: Seq<char>,
        value: u64,
        height: u64,
        network: Seq<char>,
        replies: Seq<ReplyView>,
    },
    Other { script: ScriptView, replies: Seq<ReplyView> },
}

/// Whether a build is a send, or one that records nothing.
pub open spec fn belongs_to_a_row(build: Build) -> bool {
    build matches Build::Other { script, .. } ==> records_nothing(script)
}

/// The requests that a build of a row makes.
pub open spec fn build_requests(build: Build) -> Seq<RequestView> {
    match build {
        Build::Send { receiver_address, value, height, network, replies } => trace(
            started(send_script(receiver_address, value, height, network)),
            replies,
        ),
        Build::Other { script, replies } => trace(started(script), replies),
    }
}

/// The requests that the builds of a row make, one build after the other.
pub open spec fn row_requests(builds: Seq<Build>) -> Seq<RequestView>
    decreases builds.len(),
{
    if builds.len() == 0 {
        Seq::empty()
    } else {
        row_requests(builds.drop_last()) + build_requests(builds.last())
    }
}

/// The bytes of the transactions that the sends of a row record, as they came.
pub open spec fn row_data(builds: Seq<Build>) -> Seq<Seq<u8>>
    decreases builds.len(),
{
    if builds.len() == 0 {
        Seq::empty()
    } else {
        let before = row_data(builds.drop_last());
        match builds.last() {
            Build::Send { replies, .. } => if sent_line(replies) is Some {
                before.push(sent_transaction(replies)->0.data)
            } else {
                before
            },
            Build::Other { .. } => before,
        }
    }
}

/// What each of the transactions serializes to.
pub open spec fn serialized(data: Seq<Seq<u8>>) -> Seq<Seq<u8>> {
    data.map_values(|bytes: Seq<u8>| parsed_transaction(bytes, NU5_BRANCH)->0.bytes->0)
}

/// All sends of a chain build go to the same file, in order: behind what the record file held
/// before, it has the line of each transaction that was sent and taken, and nothing else. It
/// does not matter which other builds stand between the sends, nor what becomes of a send
/// after its transaction is recorded.
pub proof fn law_sends_are_recorded_in_order(contents: Seq<char>, builds: Seq<Build>)
    requires
        forall|k: int| 0 <= k < builds.len() ==> belongs_to_a_row(#[trigger] builds[k]),
    ensures
        file_after(TRANSACTION_FILE@, contents, row_requests(builds)) == contents + record_file(
            serialized(row_data(builds)),
        ),
    decreases builds.len(),
{
    if builds.len() == 0 {
        assert(serialized(row_data(builds)) =~= Seq::empty());
        assert(contents + Seq::empty() =~= contents);
    } else {
        let before = builds.drop_last();
        let transactions = serialized(row_data(before));
        law_sends_are_recorded_in_order(contents, before);
        lemma_file_after_both(
            TRANSACTION_FILE@,
            contents,
            row_requests(before),
            build_requests(builds.last()),
        );
        let between = contents + record_file(transactions);
        assert(belongs_to_a_row(builds.last()));
        match builds.last() {
            Build::Send { receiver_address, value, height, network, replies } => {
                law_send_records_at_most_once(
                    receiver_address,
                    value,
                    height,
                    network,
                    replies,
                    between,
                );
                if sent_line(replies) is Some {
                    let data = sent_transaction(replies)->0.data;
                    let bytes = parsed_transaction(data, NU5_BRANCH)->0.bytes->0;
                    assert(serialized(row_data(builds)) =~= transactions.push(bytes));
                    assert(transactions.push(bytes).drop_last() =~= transactions);
                    assert(between + record_line(bytes) =~= contents + (record_file(transactions)
                        + record_line(bytes)));
                }
            },
            Build::Other { script, replies } => {
                law_nothing_recorded(script, replies);
                lemma_file_stays(TRANSACTION_FILE@, between, build_requests(builds.last()));
            },
        }
    }
}

/// A chain build that starts without a record file leaves one that is a dataset of its sends:
/// it has one line for each transaction that was recorded, in the order in which they were
/// sent, and from the bytes that a line stands for, whatever follows them, the transaction is read back that was
/// sent.
pub proof fn law_sends_are_read_back(builds: Seq<Build>, k: int, rest: Seq<u8>)
    requires
        forall|i: int| 0 <= i < builds.len() ==> belongs_to_a_row(#[trigger] builds[i]),
        0 <= k < row_data(builds).len(),
        stays_readable(row_data(builds)[k], NU5_BRANCH),
    ensures
        ({
            let file = file_after(TRANSACTION_FILE@, Seq::empty(), row_requests(builds));
            let data = row_data(builds);
            &&& lines_of(file) == hex_texts(serialized(data))
            &&& lines_of(file).len() == data.len()
            &&& is_hex(lines_of(file)[k])
            &&& parsed_transaction(data[k], NU5_BRANCH) is Some
            &&& parsed_transaction(decoded(lines_of(file)[k]) + rest, NU5_BRANCH)
                == parsed_transaction(data[k], NU5_BRANCH)
        }),
{
    let data = row_data(builds);
    let transactions = serialized(data);
    law_sends_are_recorded_in_order(Seq::empty(), builds);
    assert(Seq::empty() + record_file(transactions) =~= record_file(transactions));
    law_record_file_is_a_dataset(transactions);
    lemma_row_is_recordable(builds, k);
    assert(lines_of(record_file(transactions))[k] == encoded(transactions[k]));
}

proof fn lemma_row_is_recordable(builds: Seq<Build>, k: int)
    requires
        0 <= k < row_data(builds).len(),
    ensures
        recorded(row_data(builds)[k], NU5_BRANCH) is Ok,
    decreases builds.len(),
{
    let before = builds.drop_last();
    if k < row_data(before).len() {
        lemma_row_is_recordable(before, k);
    }
}

} // verus!
