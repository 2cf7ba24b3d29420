//! Chain builds as scripts of steps, and the machine that carries them out.
//!
//! A script is a list of steps. The machine turns the step that is next into a request to
//! the outside, waits for the reply, and goes on to the next step, returns, or aborts.

use crate::encoding::{decoded, hex_decode, is_hex};
use crate::messages::{
    at_height, Call, CallView, RawTransaction, RawTransactionView, TreeState, TreeStateView,
};
use crate::transaction::{
    nu5, recorded, stays_readable, write_raw_transaction, RecordError, NU5_BRANCH,
    TRANSACTION_FILE,
};
use crate::update::{updated, updated_tree_state, TreeUpdateError};
use vstd::prelude::*;

verus! {

/// What becomes of a build when a call fails.
#[derive(Clone, Copy, Debug, PartialEq, Eq)]
pub enum OnFailure {
    /// The build returns the error.
    Return,
    /// The build is given up.
    Abort,
}

/// Where the bytes of a transaction come from.
#[derive(Debug, PartialEq, Eq)]
pub enum Source {
    /// They are given.
    Given(RawTransaction),
    /// They are given in hexadecimal.
    Hex(String),
    /// They are those of the transaction that was taken from the server.
    Taken,
}

/// What a `Source` says.
pub enum SourceView {
    Given(RawTransactionView),
    Hex(Seq<char>),
    Taken,
}

impl View for Source {
    type V = SourceView;

    open spec fn view(&self) -> SourceView {
        match *self {
            Source::Given(transaction) => SourceView::Given(transaction@),
            Source::Hex(text) => SourceView::Hex(text@),
            Source::Taken => SourceView::Taken,
        }
    }
}

/// A step of a build.
#[derive(Debug, PartialEq, Eq)]
pub enum Step {
    /// Makes a call.
    Perform { call: Call, on_failure: OnFailure },
    /// Waits.
    Sleep { seconds: u64 },
    /// Has the funded wallet send a value.
    Send { receiver: String, value: u64 },
    /// Takes the next of the transactions that wallets have sent; there has to be one.
    TakeTransaction,
    /// Makes sure that wallets have sent no further transaction.
    ExpectNoMore,
    /// Records the transaction that was taken.
    RecordTransaction,
    /// Stages a transaction for the block at `height`.
    StageTransaction { source: Source, height: u64 },
    /// Fetches the tree state before the block at `height`, and keeps the one that the
    /// transaction leaves behind.
    UpdateTrees { source: Source, height: u64 },
    /// Gives the server the tree state that is kept, under another height if one is given.
    AddTreeState { at: Option<u64> },
}

/// What a `Step` says.
pub enum StepView {
    Perform { call: CallView, on_failure: OnFailure },
    Sleep { seconds: u64 },
    Send { receiver: Seq<char>, value: u64 },
    TakeTransaction,
    ExpectNoMore,
    RecordTransaction,
    StageTransaction { source: SourceView, height: u64 },
    UpdateTrees { source: SourceView, height: u64 },
    AddTreeState { at: Option<u64> },
}

impl View for Step {
    type V = StepView;

    open spec fn view(&self) -> StepView {
        match *self {
            Step::Perform { call, on_failure } => StepView::Perform { call: call@, on_failure },
            Step::Sleep { seconds } => StepView::Sleep { seconds },
            Step::Send { receiver, value } => StepView::Send { receiver: receiver@, value },
            Step::TakeTransaction => StepView::TakeTransaction,
            Step::ExpectNoMore => StepView::ExpectNoMore,
            Step::RecordTransaction => StepView::RecordTransaction,
            Step::StageTransaction { source, height } => StepView::StageTransaction {
                source: source@,
                height,
            },
            Step::UpdateTrees { source, height } => StepView::UpdateTrees {
                source: source@,
                height,
            },
            Step::AddTreeState { at } => StepView::AddTreeState { at },
        }
    }
}

/// What a build returns when every step is done.
#[derive(Clone, Copy, Debug, PartialEq, Eq)]
pub enum Outcome {
    Nothing,
    /// The given height.
    Height(i32),
    /// The tree state that is kept.
    TreeState,
}

/// A build: the steps that are left, the network that new tree states name, and what the
/// build returns.
#[derive(Debug, PartialEq, Eq)]
pub struct Script {
    pub steps: Vec<Step>,
    pub network: String,
    pub outcome: Outcome,
}

/// What a `Script` says.
#[verifier::ext_equal]
pub struct ScriptView {
    pub steps: Seq<StepView>,
    pub network: Seq<char>,
    pub outcome: Outcome,
}

impl View for Script {
    type V = ScriptView;

    open spec fn view(&self) -> ScriptView {
        ScriptView {
            steps: self.steps@.map_values(|s: Step| s@),
            network: self.network@,
            outcome: self.outcome,
        }
    }
}

/// What a build has come by so far: the transaction that was taken, and the tree state that
/// is kept.
#[derive(Debug, PartialEq, Eq)]
pub struct Registers {
    pub taken: Option<RawTransaction>,
    pub tree_state: Option<TreeState>,
}

/// What a `Registers` says.
pub struct RegistersView {
    pub taken: Option<RawTransactionView>,
    pub tree_state: Option<TreeStateView>,
}

/// An optional transaction.
pub open spec fn optional_transaction(t: Option<RawTransaction>) -> Option<RawTransactionView> {
    match t {
        Some(t) => Some(t@),
        None => None,
    }
}

/// An optional tree state.
pub open spec fn optional_state(state: Option<TreeState>) -> Option<TreeStateView> {
    match state {
        Some(state) => Some(state@),
        None => None,
    }
}

impl View for Registers {
    type V = RegistersView;

    open spec fn view(&self) -> RegistersView {
        RegistersView {
            taken: optional_transaction(self.taken),
            tree_state: optional_state(self.tree_state),
        }
    }
}

/// What a build asks of the outside.
#[derive(Debug, PartialEq, Eq)]
pub enum Request {
    /// Make a call of the server.
    Call(Call),
    /// Fetch the tree state at the end of the block at `height` from the server.
    GetTrees { height: u64 },
    /// Wait.
    Sleep { seconds: u64 },
    /// Have the funded wallet send a value, without a memo.
    Send { receiver: String, value: u64 },
    /// Read the next message of the stream of transactions that the server opened.
    NextTransaction,
    /// Write text at the end of a file, which is made if it is not there.
    AppendToFile { path: String, text: String },
}

/// What a `Request` says.
pub enum RequestView {
    Call(CallView),
    GetTrees { height: u64 },
    Sleep { seconds: u64 },
    Send { receiver: Seq<char>, value: u64 },
    NextTransaction,
    AppendToFile { path: Seq<char>, text: Seq<char> },
}

impl View for Request {
    type V = RequestView;

    open spec fn view(&self) -> RequestView {
        match *self {
            Request::Call(call) => RequestView::Call(call@),
            Request::GetTrees { height } => RequestView::GetTrees { height },
            Request::Sleep { seconds } => RequestView::Sleep { seconds },
            Request::Send { receiver, value } => RequestView::Send { receiver: receiver@, value },
            Request::NextTransaction => RequestView::NextTransaction,
            Request::AppendToFile { path, text } => RequestView::AppendToFile {
                path: path@,
                text: text@,
            },
        }
    }
}

/// The reply of the outside.
#[derive(Debug, PartialEq, Eq)]
pub enum Reply {
    /// It is done.
    Done,
    /// The tree state that was asked for.
    Trees(TreeState),
    /// The next message of the stream, `None` at its end.
    Transaction(Option<RawTransaction>),
    /// It failed, for the given reason.
    Failed(String),
}

/// What a `Reply` says.
pub enum ReplyView {
    Done,
    Trees(TreeStateView),
    Transaction(Option<RawTransactionView>),
    Failed(Seq<char>),
}

impl View for Reply {
    type V = ReplyView;

    open spec fn view(&self) -> ReplyView {
        match *self {
            Reply::Done => ReplyView::Done,
            Reply::Trees(state) => ReplyView::Trees(state@),
            Reply::Transaction(t) => ReplyView::Transaction(optional_transaction(t)),
            Reply::Failed(reason) => ReplyView::Failed(reason@),
        }
    }
}

/// Why a build is given up.
#[derive(Debug, PartialEq, Eq)]
pub enum Abort {
    /// The outside failed, for the given reason.
    Failed(String),
    /// The outside sent a reply of the wrong kind.
    UnexpectedReply,
    /// A transaction is not in hexadecimal.
    NotHexadecimal,
    /// No transaction was sent, or none was taken.
    NoTransaction,
    /// More than one transaction was sent.
    TooManyTransactions,
    /// There is no block before that at height zero.
    NoBlockBefore,
    /// No tree state is kept.
    NoTreeState,
    /// The transaction cannot be recorded.
    Record(RecordError),
    /// No tree state comes out of the transaction.
    Trees(TreeUpdateError),
}

/// What an `Abort` says.
pub enum AbortView {
    Failed(Seq<char>),
    UnexpectedReply,
    NotHexadecimal,
    NoTransaction,
    TooManyTransactions,
    NoBlockBefore,
    NoTreeState,
    Record(RecordError),
    Trees(TreeUpdateError),
}

impl View for Abort {
    type V = AbortView;

    open spec fn view(&self) -> AbortView {
        match *self {
            Abort::Failed(reason) => AbortView::Failed(reason@),
            Abort::UnexpectedReply => AbortView::UnexpectedReply,
            Abort::NotHexadecimal => AbortView::NotHexadecimal,
            Abort::NoTransaction => AbortView::NoTransaction,
            Abort::TooManyTransactions => AbortView::TooManyTransactions,
            Abort::NoBlockBefore => AbortView::NoBlockBefore,
            Abort::NoTreeState => AbortView::NoTreeState,
            Abort::Record(error) => AbortView::Record(error),
            Abort::Trees(error) => AbortView::Trees(error),
        }
    }
}

/// What a build that waits does with the reply.
#[derive(Debug, PartialEq, Eq)]
pub enum Awaiting {
    /// It goes on once the request is done.
    Done(OnFailure),
    /// It keeps the transaction that comes.
    Transaction,
    /// It goes on at the end of the stream.
    EndOfTransactions,
    /// It makes a new tree state, with the transaction in `data`, for the block at `height`.
    Trees { data: Vec<u8>, height: u64 },
}

/// What an `Awaiting` says.
pub enum AwaitingView {
    Done(OnFailure),
    Transaction,
    EndOfTransactions,
    Trees { data: Seq<u8>, height: u64 },
}

impl View for Awaiting {
    type V = AwaitingView;

    open spec fn view(&self) -> AwaitingView {
        match *self {
            Awaiting::Done(on_failure) => AwaitingView::Done(on_failure),
            Awaiting::Transaction => AwaitingView::Transaction,
            Awaiting::EndOfTransactions => AwaitingView::EndOfTransactions,
            Awaiting::Trees { data, height } => AwaitingView::Trees { data: data@, height },
        }
    }
}

/// A build that waits for a reply.
#[derive(Debug, PartialEq, Eq)]
pub struct Flow {
    pub rest: Script,
    pub registers: Registers,
    pub awaiting: Awaiting,
}

/// What a `Flow` says.
pub struct FlowView {
    pub rest: ScriptView,
    pub registers: RegistersView,
    pub awaiting: AwaitingView,
}

impl View for Flow {
    type V = FlowView;

    open spec fn view(&self) -> FlowView {
        FlowView {
            rest: self.rest@,
            registers: self.registers@,
            awaiting: self.awaiting@,
        }
    }
}

/// What a build returned.
#[derive(Debug, PartialEq, Eq)]
pub enum Output {
    Nothing,
    Height(i32),
    TreeState(TreeState),
}

/// What an `Output` says.
pub enum OutputView {
    Nothing,
    Height(i32),
    TreeState(TreeStateView),
}

impl View for Output {
    type V = OutputView;

    open spec fn view(&self) -> OutputView {
        match *self {
            Output::Nothing => OutputView::Nothing,
            Output::Height(height) => OutputView::Height(height),
            Output::TreeState(state) => OutputView::TreeState(state@),
        }
    }
}

/// How far a build has come.
#[derive(Debug, PartialEq, Eq)]
pub enum Progress {
    /// It made a request and waits for the reply.
    Waiting { request: Request, flow: Flow },
    /// It came to its end, or returned the error of a call.
    Returned(Result<Output, String>),
    /// It was given up.
    Aborted(Abort),
}

/// What a `Progress` says.
pub enum ProgressView {
    Waiting { request: RequestView, flow: FlowView },
    Returned(Result<OutputView, Seq<char>>),
    Aborted(AbortView),
}

impl View for Progress {
    type V = ProgressView;

    open spec fn view(&self) -> ProgressView {
        match *self {
            Progress::Waiting { request, flow } => ProgressView::Waiting {
                request: request@,
                flow: flow@,
            },
            Progress::Returned(Ok(output)) => ProgressView::Returned(Ok(output@)),
            Progress::Returned(Err(reason)) => ProgressView::Returned(Err(reason@)),
            Progress::Aborted(reason) => ProgressView::Aborted(reason@),
        }
    }
}

/// The bytes that a source gives.
pub open spec fn source_data(source: SourceView, registers: RegistersView) -> Result<
    Seq<u8>,
    AbortView,
> {
    match source {
        SourceView::Given(transaction) => Ok(transaction.data),
        SourceView::Hex(text) => if is_hex(text) {
            Ok(decoded(text))
        } else {
            Err(AbortView::NotHexadecimal)
        },
        SourceView::Taken => match registers.taken {
            Some(transaction) => Ok(transaction.data),
            None => Err(AbortView::NoTransaction),
        },
    }
}

/// What a step asks of the outside and waits for, or why it cannot.
pub open spec fn step_request(step: StepView, registers: RegistersView) -> Result<
    (RequestView, AwaitingView),
    AbortView,
> {
    match step {
        StepView::Perform { call, on_failure } => Ok(
            (RequestView::Call(call), AwaitingView::Done(on_failure)),
        ),
        StepView::Sleep { seconds } => Ok(
            (RequestView::Sleep { seconds }, AwaitingView::Done(OnFailure::Abort)),
        ),
        StepView::Send { receiver, value } => Ok(
            (RequestView::Send { receiver, value }, AwaitingView::Done(OnFailure::Abort)),
        ),
        StepView::TakeTransaction => Ok((RequestView::NextTransaction, AwaitingView::Transaction)),
        StepView::ExpectNoMore => Ok(
            (RequestView::NextTransaction, AwaitingView::EndOfTransactions),
        ),
        StepView::RecordTransaction => match registers.taken {
            None => Err(AbortView::NoTransaction),
            Some(transaction) => match recorded(transaction.data, NU5_BRANCH) {
                Err(error) => Err(AbortView::Record(error)),
                Ok(text) => Ok(
                    (
                        RequestView::AppendToFile { path: TRANSACTION_FILE@, text },
                        AwaitingView::Done(OnFailure::Abort),
                    ),
                ),
            },
        },
        StepView::StageTransaction { source, height } => match source_data(source, registers) {
            Err(reason) => Err(reason),
            Ok(data) => Ok(
                (
                    RequestView::Call(
                        CallView::StageTransactionsStream {
                            transactions: seq![RawTransactionView { data, height }],
                        },
                    ),
                    AwaitingView::Done(OnFailure::Abort),
                ),
            ),
        },
        StepView::UpdateTrees { source, height } => match source_data(source, registers) {
            Err(reason) => Err(reason),
            Ok(data) => if height == 0 {
                Err(AbortView::NoBlockBefore)
            } else {
                Ok(
                    (
                        RequestView::GetTrees { height: (height - 1) as u64 },
                        AwaitingView::Trees { data, height },
                    ),
                )
            },
        },
        StepView::AddTreeState { at } => match registers.tree_state {
            None => Err(AbortView::NoTreeState),
            Some(kept) => Ok(
                (
                    RequestView::Call(
                        CallView::AddTreeState {
                            state: match at {
                                Some(height) => at_height(kept, height),
                                None => kept,
                            },
                        },
                    ),
                    AwaitingView::Done(OnFailure::Abort),
                ),
            ),
        },
    }
}

/// What a build with no step left comes to.
pub open spec fn finished(outcome: Outcome, registers: RegistersView) -> ProgressView {
    match outcome {
        Outcome::Nothing => ProgressView::Returned(Ok(OutputView::Nothing)),
        Outcome::Height(height) => ProgressView::Returned(Ok(OutputView::Height(height))),
        Outcome::TreeState => match registers.tree_state {
            Some(state) => ProgressView::Returned(Ok(OutputView::TreeState(state))),
            None => ProgressView::Aborted(AbortView::NoTreeState),
        },
    }
}

/// The script without its first step.
pub open spec fn tail(script: ScriptView) -> ScriptView {
    ScriptView { steps: script.steps.skip(1), ..script }
}

/// How a build goes on with its next step.
pub open spec fn issued(script: ScriptView, registers: RegistersView) -> ProgressView {
    if script.steps.len() == 0 {
        finished(script.outcome, registers)
    } else {
        match step_request(script.steps[0], registers) {
            Ok((request, awaiting)) => ProgressView::Waiting {
                request,
                flow: FlowView { rest: tail(script), registers, awaiting },
            },
            Err(reason) => ProgressView::Aborted(reason),
        }
    }
}

/// What a build starts with: no transaction, and no tree state.
pub open spec fn no_registers() -> RegistersView {
    RegistersView { taken: None, tree_state: None }
}

/// How a build starts.
pub open spec fn started(script: ScriptView) -> ProgressView {
    issued(script, no_registers())
}

/// How a build goes on after a reply.
pub open spec fn resumed(flow: FlowView, reply: ReplyView) -> ProgressView {
    match (flow.awaiting, reply) {
        (AwaitingView::Done(OnFailure::Return), ReplyView::Failed(reason)) => {
            ProgressView::Returned(Err(reason))
        },
        (_, ReplyView::Failed(reason)) => ProgressView::Aborted(AbortView::Failed(reason)),
        (AwaitingView::Done(_), ReplyView::Done) => issued(flow.rest, flow.registers),
        (AwaitingView::Transaction, ReplyView::Transaction(Some(transaction))) => issued(
            flow.rest,
            RegistersView { taken: Some(transaction), ..flow.registers },
        ),
        (AwaitingView::Transaction, ReplyView::Transaction(None)) => ProgressView::Aborted(
            AbortView::NoTransaction,
        ),
        (AwaitingView::EndOfTransactions, ReplyView::Transaction(None)) => issued(
            flow.rest,
            flow.registers,
        ),
        (AwaitingView::EndOfTransactions, ReplyView::Transaction(Some(_))) => {
            ProgressView::Aborted(AbortView::TooManyTransactions)
        },
        (AwaitingView::Trees { data, height }, ReplyView::Trees(trees)) => match updated(
            trees,
            data,
            height,
            flow.rest.network,
        ) {
            Ok(state) => issued(
                flow.rest,
                RegistersView { tree_state: Some(state), ..flow.registers },
            ),
            Err(error) => ProgressView::Aborted(AbortView::Trees(error)),
        },
        _ => ProgressView::Aborted(AbortView::UnexpectedReply),
    }
}

/// Whether a build that asks to record a transaction has one that can be read back from its
/// record.
pub open spec fn records_readably(progress: ProgressView) -> bool {
    progress matches ProgressView::Waiting { request: RequestView::AppendToFile { .. }, flow }
        ==> flow.registers.taken is Some && stays_readable(
        flow.registers.taken->0.data,
        NU5_BRANCH,
    )
}

/// Fetches the bytes that a source gives.
fn data_of_source(source: Source, registers: &Registers) -> (r: Result<Vec<u8>, Abort>)
    ensures
        match source_data(source@, registers@) {
            Ok(data) => r is Ok && r->Ok_0@ == data,
            Err(reason) => r is Err && r->Err_0@ == reason,
        },
{
    match source {
        Source::Given(transaction) => Ok(transaction.data),
        Source::Hex(text) => match hex_decode(text.as_str()) {
            Ok(data) => Ok(data),
            Err(_) => Err(Abort::NotHexadecimal),
        },
        Source::Taken => match &registers.taken {
            Some(transaction) => {
                let data = transaction.data.clone();
                assert(data@ =~= transaction.data@);
                Ok(data)
            },
            None => Err(Abort::NoTransaction),
        },
    }
}

/// Turns a step into a request.
fn request_of_step(step: Step, registers: &Registers) -> (r: Result<(Request, Awaiting), Abort>)
    ensures
        match step_request(step@, registers@) {
            Ok((request, awaiting)) => r is Ok && r->Ok_0.0@ == request && r->Ok_0.1@ == awaiting,
            Err(reason) => r is Err && r->Err_0@ == reason,
        },
        r is Ok && r->Ok_0.0@ is AppendToFile ==> registers@.taken is Some && stays_readable(
            registers@.taken->0.data,
            NU5_BRANCH,
        ),
{
    match step {
        Step::Perform { call, on_failure } => Ok(
            (Request::Call(call), Awaiting::Done(on_failure)),
        ),
        Step::Sleep { seconds } => Ok(
            (Request::Sleep { seconds }, Awaiting::Done(OnFailure::Abort)),
        ),
        Step::Send { receiver, value } => Ok(
            (Request::Send { receiver, value }, Awaiting::Done(OnFailure::Abort)),
        ),
        Step::TakeTransaction => Ok((Request::NextTransaction, Awaiting::Transaction)),
        Step::ExpectNoMore => Ok((Request::NextTransaction, Awaiting::EndOfTransactions)),
        Step::RecordTransaction => match &registers.taken {
            None => Err(Abort::NoTransaction),
            Some(transaction) => match write_raw_transaction(transaction, nu5()) {
                Err(error) => Err(Abort::Record(error)),
                Ok(text) => Ok(
                    (
                        Request::AppendToFile { path: TRANSACTION_FILE.to_owned(), text },
                        Awaiting::Done(OnFailure::Abort),
                    ),
                ),
            },
        },
        Step::StageTransaction { source, height } => match data_of_source(source, registers) {
            Err(reason) => Err(reason),
            Ok(data) => {
                let mut transactions: Vec<RawTransaction> = Vec::new();
                transactions.push(RawTransaction { data, height });
                assert(transactions@.map_values(|t: RawTransaction| t@)
                    =~= seq![RawTransactionView { data: data@, height }]);
                Ok(
                    (
                        Request::Call(Call::StageTransactionsStream(transactions)),
                        Awaiting::Done(OnFailure::Abort),
                    ),
                )
            },
        },
        Step::UpdateTrees { source, height } => match data_of_source(source, registers) {
            Err(reason) => Err(reason),
            Ok(data) => if height == 0 {
                Err(Abort::NoBlockBefore)
            } else {
                Ok((Request::GetTrees { height: height - 1 }, Awaiting::Trees { data, height }))
            },
        },
        Step::AddTreeState { at } => match &registers.tree_state {
            None => Err(Abort::NoTreeState),
            Some(kept) => {
                let state = match at {
                    Some(height) => kept.at_height(height),
                    None => kept.clone(),
                };
                Ok((Request::Call(Call::AddTreeState(state)), Awaiting::Done(OnFailure::Abort)))
            },
        },
    }
}

/// Goes on with the next step of a build.
fn issue(script: Script, registers: Registers) -> (r: Progress)
    ensures
        r@ == issued(script@, registers@),
        records_readably(r@),
{
    let mut rest = script;
    if rest.steps.len() == 0 {
        return match rest.outcome {
            Outcome::Nothing => Progress::Returned(Ok(Output::Nothing)),
            Outcome::Height(height) => Progress::Returned(Ok(Output::Height(height))),
            Outcome::TreeState => match registers.tree_state {
                Some(state) => Progress::Returned(Ok(Output::TreeState(state))),
                None => Progress::Aborted(Abort::NoTreeState),
            },
        };
    }
    let step = rest.steps.remove(0);
    assert(rest@ =~= tail(script@));
    match request_of_step(step, &registers) {
        Ok((request, awaiting)) => Progress::Waiting {
            request,
            flow: Flow { rest, registers, awaiting },
        },
        Err(reason) => Progress::Aborted(reason),
    }
}

impl Script {
    /// Starts the build. What it records can be read back.
    pub fn start(self) -> (r: Progress)
        ensures
            r@ == started(self@),
            records_readably(r@),
    {
        issue(self, Registers { taken: None, tree_state: None })
    }
}

impl Flow {
    /// Goes on with the build after a reply. What it records can be read back.
    pub fn resume(self, reply: Reply) -> (r: Progress)
        ensures
            r@ == resumed(self@, reply@),
            records_readably(r@),
    {
        let Flow { rest, registers, awaiting } = self;
        match (awaiting, reply) {
            (Awaiting::Done(OnFailure::Return), Reply::Failed(reason)) => Progress::Returned(
                Err(reason),
            ),
            (_, Reply::Failed(reason)) => Progress::Aborted(Abort::Failed(reason)),
            (Awaiting::Done(_), Reply::Done) => issue(rest, registers),
            (Awaiting::Transaction, Reply::Transaction(Some(transaction))) => issue(
                rest,
                Registers { taken: Some(transaction), tree_state: registers.tree_state },
            ),
            (Awaiting::Transaction, Reply::Transaction(None)) => Progress::Aborted(
                Abort::NoTransaction,
            ),
            (Awaiting::EndOfTransactions, Reply::Transaction(None)) => issue(rest, registers),
            (Awaiting::EndOfTransactions, Reply::Transaction(Some(_))) => Progress::Aborted(
                Abort::TooManyTransactions,
            ),
            (Awaiting::Trees { data, height }, Reply::Trees(trees)) => match updated_tree_state(
                &trees,
                data.as_slice(),
                height,
                rest.network.as_str(),
            ) {
                Ok(state) => issue(
                    rest,
                    Registers { taken: registers.taken, tree_state: Some(state) },
                ),
                Err(error) => Progress::Aborted(Abort::Trees(error)),
            },
            _ => Progress::Aborted(Abort::UnexpectedReply),
        }
    }
}

} // verus!
