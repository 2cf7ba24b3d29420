//! What the values and the single operations mean, said of their inputs and results alone:
//! character by character, field by field, leaf by leaf.

use crate::chain::{local_server, ChainConstants};
use crate::connector::{can_redirect, raw_transactions, redirected, UriParts};
use crate::dataset::{lines_of, texts, written};
use crate::encoding::{decoded, digit_char, digit_value, encoded, encoded_digit, is_hex};
use crate::flow::{
    Abort, AbortView, Awaiting, AwaitingView, Flow, Output, OutputView, Progress, ProgressView,
    Registers, Reply, ReplyView, Request, RequestView, Script, Source, SourceView, Step, StepView,
};
use crate::handler::bind_address;
use crate::json::JsonNode;
use crate::merkle::{
    extended, is_full, leaf_count, optionals_bytes, orchard_appended, orchard_node, orchard_nodes,
    orchard_read, sapling_appended, sapling_node, sapling_nodes, sapling_read, tree_bytes, Pool,
    TreeParts,
};
use crate::messages::{
    at_height, Call, CallView, RawTransaction, RawTransactionView, TreeState, TreeStateView,
};
use crate::scenario::{same_ground, DarksideScenarioBuilder};
use crate::transaction::{
    is_branch, leaves, parsed_transaction, reads_back, record_line, recorded, stays_readable,
    RecordError, TransactionParts,
};
use crate::tree_state::{
    fields_of, state_of_fields, Field, FieldError, TreeStateFields, TreeStateFieldsView,
};
use crate::update::{
    leaves_for, state_with_trees, tree_follows, tree_of, tree_text, updated, TreeUpdateError,
};
use orchard::tree::MerkleHashOrchard;
use sapling_crypto::Node;
use vstd::arithmetic::power2::pow2;
use vstd::prelude::*;

verus! {

proof fn lemma_digit_of_value(value: int)
    requires
        0 <= value < 16,
    ensures
        digit_char(value) == "0123456789abcdef"@[value],
{
    reveal_strlit("0123456789abcdef");
    if value < 8 {
        assert(value == 0 || value == 1 || value == 2 || value == 3 || value == 4 || value == 5
            || value == 6 || value == 7);
    } else {
        assert(value == 8 || value == 9 || value == 10 || value == 11 || value == 12 || value == 13
            || value == 14 || value == 15);
    }
}

proof fn lemma_value_of_digit(c: char, value: int)
    requires
        0 <= value < 16,
        c == "0123456789abcdef"@[value] || c == "0123456789ABCDEF"@[value],
    ensures
        digit_value(c) == Some(value),
{
    reveal_strlit("0123456789abcdef");
    reveal_strlit("0123456789ABCDEF");
    if value < 8 {
        assert(value == 0 || value == 1 || value == 2 || value == 3 || value == 4 || value == 5
            || value == 6 || value == 7);
    } else {
        assert(value == 8 || value == 9 || value == 10 || value == 11 || value == 12 || value == 13
            || value == 14 || value == 15);
    }
}

proof fn lemma_digits(c: char)
    ensures
        digit_value(c) is Some <==> "0123456789abcdefABCDEF"@.contains(c),
{
    reveal_strlit("0123456789abcdefABCDEF");
    let digits = "0123456789abcdefABCDEF"@;
    if digit_value(c) is Some {
        let k = if 'A' <= c <= 'F' {
            c as int - 'A' as int + 16
        } else {
            digit_value(c)->0
        };
        assert(0 <= k < 22);
        if k < 11 {
            assert(k == 0 || k == 1 || k == 2 || k == 3 || k == 4 || k == 5 || k == 6 || k == 7 || k
                == 8 || k == 9 || k == 10);
        } else {
            assert(k == 11 || k == 12 || k == 13 || k == 14 || k == 15 || k == 16 || k == 17 || k
                == 18 || k == 19 || k == 20 || k == 21);
        }
        assert(digits[k] == c);
    }
    if digits.contains(c) {
        let k = choose|k: int| 0 <= k < digits.len() && digits[k] == c;
        if k < 11 {
            assert(k == 0 || k == 1 || k == 2 || k == 3 || k == 4 || k == 5 || k == 6 || k == 7 || k
                == 8 || k == 9 || k == 10);
        } else {
            assert(k == 11 || k == 12 || k == 13 || k == 14 || k == 15 || k == 16 || k == 17 || k
                == 18 || k == 19 || k == 20 || k == 21);
        }
    }
}

/// A byte is written as two digits, in lower case, the sixteens first.
pub proof fn law_two_digits_for_a_byte(bytes: Seq<u8>, i: int)
    requires
        0 <= i < bytes.len(),
    ensures
        encoded(bytes).len() == 2 * bytes.len(),
        encoded(bytes)[2 * i] == "0123456789abcdef"@[bytes[i] as int / 16],
        encoded(bytes)[2 * i + 1] == "0123456789abcdef"@[bytes[i] as int % 16],
{
    assert((2 * i) / 2 == i && (2 * i) % 2 == 0);
    assert((2 * i + 1) / 2 == i && (2 * i + 1) % 2 == 1);
    assert(encoded(bytes)[2 * i] == encoded_digit(bytes, 2 * i));
    assert(encoded(bytes)[2 * i + 1] == encoded_digit(bytes, 2 * i + 1));
    lemma_digit_of_value(bytes[i] as int / 16);
    lemma_digit_of_value(bytes[i] as int % 16);
}

/// Two digits, in either case, are read as one byte, the sixteens first.
pub proof fn law_byte_of_two_digits(text: Seq<char>, i: int, high: int, low: int)
    requires
        0 <= i,
        2 * i + 1 < text.len(),
        0 <= high < 16,
        0 <= low < 16,
        text[2 * i] == "0123456789abcdef"@[high] || text[2 * i] == "0123456789ABCDEF"@[high],
        text[2 * i + 1] == "0123456789abcdef"@[low] || text[2 * i + 1]
            == "0123456789ABCDEF"@[low],
    ensures
        decoded(text).len() == text.len() / 2,
        decoded(text)[i] as int == 16 * high + low,
{
    lemma_value_of_digit(text[2 * i], high);
    lemma_value_of_digit(text[2 * i + 1], low);
}

/// Text is hexadecimal if and only if it has an even number of characters, each of them a
/// digit in either case.
pub proof fn law_hexadecimal_text(text: Seq<char>)
    ensures
        is_hex(text) <==> text.len() % 2 == 0 && forall|i: int|
            0 <= i < text.len() ==> "0123456789abcdefABCDEF"@.contains(#[trigger] text[i]),
{
    assert forall|i: int| 0 <= i < text.len() implies (digit_value(#[trigger] text[i]) is Some
        <==> "0123456789abcdefABCDEF"@.contains(text[i])) by {
        lemma_digits(text[i]);
    }
}

/// A text without characters has no lines, and one without a line feed is one line, as it
/// stands.
pub proof fn law_text_without_line_feed(text: Seq<char>)
    requires
        forall|i: int| 0 <= i < text.len() ==> text[i] != '\n',
    ensures
        text.len() == 0 ==> lines_of(text).len() == 0,
        text.len() > 0 ==> lines_of(text) == seq![text],
{
    crate::dataset::lemma_last_line(text);
}

/// A line feed ends a line, and the lines of what follows come behind it. A carriage return
/// right before the line feed is no part of the line; any other is.
pub proof fn law_line_feed_ends_a_line(line: Seq<char>, rest: Seq<char>)
    requires
        forall|i: int| 0 <= i < line.len() ==> line[i] != '\n',
    ensures
        line.len() == 0 || line.last() != '\r' ==> lines_of(line + seq!['\n'] + rest) == seq![line]
            + lines_of(rest),
        lines_of(line + seq!['\r', '\n'] + rest) == seq![line] + lines_of(rest),
{
    assert(line + seq!['\n'] + rest =~= line.push('\n') + rest);
    assert(line + seq!['\r', '\n'] + rest =~= line.push('\r').push('\n') + rest);
    crate::dataset::lemma_first_line(line, rest);
    let longer = line.push('\r');
    assert forall|i: int| 0 <= i < longer.len() implies longer[i] != '\n' by {
        if i < line.len() {
            assert(longer[i] == line[i]);
        }
    }
    crate::dataset::lemma_first_line(longer, rest);
    assert(longer.drop_last() =~= line);
}

/// Lines are written with a line feed behind each.
pub proof fn law_line_feed_behind_each_line(line: Seq<char>, others: Seq<Seq<char>>)
    ensures
        written(Seq::empty()).len() == 0,
        written(seq![line] + others) == line + seq!['\n'] + written(others),
{
    assert((seq![line] + others).skip(1) =~= others);
    assert(line.push('\n') + written(others) =~= line + seq!['\n'] + written(others));
}

/// The texts of a list of strings are theirs, in order.
pub proof fn law_texts(strings: Seq<String>, i: int)
    requires
        0 <= i < strings.len(),
    ensures
        texts(strings).len() == strings.len(),
        texts(strings)[i] == strings[i]@,
{
}

/// A tree state is seen by its fields.
pub proof fn law_view_of_tree_state(state: TreeState)
    ensures
        state@.network == state.network@,
        state@.height == state.height,
        state@.hash == state.hash@,
        state@.time == state.time,
        state@.sapling_tree == state.sapling_tree@,
        state@.orchard_tree == state.orchard_tree@,
{
}

/// A tree state that is moved to another height has that height, and keeps every other field.
pub proof fn law_at_height(state: TreeStateView, height: u64)
    ensures
        at_height(state, height).height == height,
        at_height(state, height).network == state.network,
        at_height(state, height).hash == state.hash,
        at_height(state, height).time == state.time,
        at_height(state, height).sapling_tree == state.sapling_tree,
        at_height(state, height).orchard_tree == state.orchard_tree,
{
}

/// A raw transaction is seen by its fields.
pub proof fn law_view_of_raw_transaction(transaction: RawTransaction)
    ensures
        transaction@.data == transaction.data@,
        transaction@.height == transaction.height,
{
}

/// A call is seen by its kind and the fields of its message.
pub proof fn law_view_of_call(call: Call)
    ensures
        match call {
            Call::ClearAddressUtxo => call@ is ClearAddressUtxo,
            Call::Reset(meta) => call@ == (CallView::Reset {
                sapling_activation: meta.sapling_activation,
                branch_id: meta.branch_id@,
                chain_name: meta.chain_name@,
            }),
            Call::StageBlocks(place) => call@ == (CallView::StageBlocks { url: place.url@ }),
            Call::StageBlocksStream(blocks) => {
                &&& call@ matches CallView::StageBlocksStream { blocks: seen }
                &&& seen.len() == blocks@.len()
                &&& forall|i: int| 0 <= i < blocks@.len() ==> #[trigger] seen[i] == blocks@[i].block@
            },
            Call::StageBlocksCreate(run) => call@ == (CallView::StageBlocksCreate {
                height: run.height,
                count: run.count,
                nonce: run.nonce,
            }),
            Call::StageTransactionsStream(transactions) => {
                &&& call@ matches CallView::StageTransactionsStream { transactions: seen }
                &&& seen.len() == transactions@.len()
                &&& forall|i: int|
                    0 <= i < transactions@.len() ==> #[trigger] seen[i] == (RawTransactionView {
                        data: transactions@[i].data@,
                        height: transactions@[i].height,
                    })
            },
            Call::AddTreeState(state) => {
                &&& call@ matches CallView::AddTreeState { state: seen }
                &&& seen.network == state.network@
                &&& seen.height == state.height
                &&& seen.hash == state.hash@
                &&& seen.time == state.time
                &&& seen.sapling_tree == state.sapling_tree@
                &&& seen.orchard_tree == state.orchard_tree@
            },
            Call::ApplyStaged(height) => call@ == (CallView::ApplyStaged { height: height.height }),
            Call::GetIncomingTransactions => call@ is GetIncomingTransactions,
            Call::ClearIncomingTransactions => call@ is ClearIncomingTransactions,
        },
{
}

/// The constants of a chain are seen by their fields.
pub proof fn law_view_of_constants(constants: ChainConstants)
    ensures
        constants@.branch_id == constants.branch_id@,
        constants@.genesis_block == constants.genesis_block@,
        constants@.first_tree_state == constants.first_tree_state@,
        constants@.transaction_incoming_100taz == constants.transaction_incoming_100taz@,
{
}

/// A step is seen by its kind and its fields.
pub proof fn law_view_of_step(step: Step)
    ensures
        match step {
            Step::Perform { call, on_failure } => step@ == (StepView::Perform {
                call: call@,
                on_failure,
            }),
            Step::Sleep { seconds } => step@ == (StepView::Sleep { seconds }),
            Step::Send { receiver, value } => step@ == (StepView::Send {
                receiver: receiver@,
                value,
            }),
            Step::TakeTransaction => step@ is TakeTransaction,
            Step::ExpectNoMore => step@ is ExpectNoMore,
            Step::RecordTransaction => step@ is RecordTransaction,
            Step::StageTransaction { source, height } => step@ == (StepView::StageTransaction {
                source: source@,
                height,
            }),
            Step::UpdateTrees { source, height } => step@ == (StepView::UpdateTrees {
                source: source@,
                height,
            }),
            Step::AddTreeState { at } => step@ == (StepView::AddTreeState { at }),
        },
{
}

/// The source of a transaction is seen by its kind and what it gives.
pub proof fn law_view_of_source(source: Source)
    ensures
        match source {
            Source::Given(transaction) => source@ == SourceView::Given(transaction@),
            Source::Hex(text) => source@ == SourceView::Hex(text@),
            Source::Taken => source@ is Taken,
        },
{
}

/// A script is seen by its steps, in order, and its fields.
pub proof fn law_view_of_script(script: Script, i: int)
    requires
        0 <= i < script.steps@.len(),
    ensures
        script@.steps.len() == script.steps@.len(),
        script@.steps[i] == script.steps@[i]@,
        script@.network == script.network@,
        script@.outcome == script.outcome,
{
}

/// A build that waits is seen by the rest of its script, what it has come by, and what it
/// does with the reply.
pub proof fn law_view_of_flow(flow: Flow, registers: Registers, awaiting: Awaiting)
    ensures
        flow@.rest == flow.rest@,
        flow@.registers == flow.registers@,
        flow@.awaiting == flow.awaiting@,
        registers.taken is None ==> registers@.taken is None,
        registers.taken matches Some(transaction) ==> registers@.taken == Some(transaction@),
        registers.tree_state is None ==> registers@.tree_state is None,
        registers.tree_state matches Some(state) ==> registers@.tree_state == Some(state@),
        match awaiting {
            Awaiting::Done(on_failure) => awaiting@ == AwaitingView::Done(on_failure),
            Awaiting::Transaction => awaiting@ is Transaction,
            Awaiting::EndOfTransactions => awaiting@ is EndOfTransactions,
            Awaiting::Trees { data, height } => awaiting@ == (AwaitingView::Trees {
                data: data@,
                height,
            }),
        },
{
}

/// A request is seen by its kind and its fields.
pub proof fn law_view_of_request(request: Request)
    ensures
        match request {
            Request::Call(call) => request@ == RequestView::Call(call@),
            Request::GetTrees { height } => request@ == (RequestView::GetTrees { height }),
            Request::Sleep { seconds } => request@ == (RequestView::Sleep { seconds }),
            Request::Send { receiver, value } => request@ == (RequestView::Send {
                receiver: receiver@,
                value,
            }),
            Request::NextTransaction => request@ is NextTransaction,
            Request::AppendToFile { path, text } => request@ == (RequestView::AppendToFile {
                path: path@,
                text: text@,
            }),
        },
{
}

/// A reply is seen by its kind and what it brings.
pub proof fn law_view_of_reply(reply: Reply)
    ensures
        match reply {
            Reply::Done => reply@ is Done,
            Reply::Trees(state) => reply@ == ReplyView::Trees(state@),
            Reply::Transaction(Some(transaction)) => reply@ == ReplyView::Transaction(
                Some(transaction@),
            ),
            Reply::Transaction(None) => reply@ == ReplyView::Transaction(None),
            Reply::Failed(reason) => reply@ == ReplyView::Failed(reason@),
        },
{
}

/// How far a build has come is seen by its kind and what it brings.
pub proof fn law_view_of_progress(progress: Progress, output: Output, abort: Abort)
    ensures
        match progress {
            Progress::Waiting { request, flow } => progress@ == (ProgressView::Waiting {
                request: request@,
                flow: flow@,
            }),
            Progress::Returned(Ok(output)) => progress@ == ProgressView::Returned(Ok(output@)),
            Progress::Returned(Err(reason)) => progress@ == ProgressView::Returned(Err(reason@)),
            Progress::Aborted(reason) => progress@ == ProgressView::Aborted(reason@),
        },
        match output {
            Output::Nothing => output@ is Nothing,
            Output::Height(height) => output@ == OutputView::Height(height),
            Output::TreeState(state) => output@ == OutputView::TreeState(state@),
        },
        match abort {
            Abort::Failed(reason) => abort@ == AbortView::Failed(reason@),
            Abort::UnexpectedReply => abort@ is UnexpectedReply,
            Abort::NotHexadecimal => abort@ is NotHexadecimal,
            Abort::NoTransaction => abort@ is NoTransaction,
            Abort::TooManyTransactions => abort@ is TooManyTransactions,
            Abort::NoBlockBefore => abort@ is NoBlockBefore,
            Abort::NoTreeState => abort@ is NoTreeState,
            Abort::Record(error) => abort@ == AbortView::Record(error),
            Abort::Trees(error) => abort@ == AbortView::Trees(error),
        },
{
}

/// The fields of a document are seen one by one.
pub proof fn law_view_of_fields(fields: TreeStateFields)
    ensures
        fields@.height == fields.height,
        fields@.time == fields.time,
        fields.network is None ==> fields@.network is None,
        fields.network matches Some(text) ==> fields@.network == Some(text@),
        fields.hash is None ==> fields@.hash is None,
        fields.hash matches Some(text) ==> fields@.hash == Some(text@),
        fields.sapling_tree is None ==> fields@.sapling_tree is None,
        fields.sapling_tree matches Some(text) ==> fields@.sapling_tree == Some(text@),
        fields.orchard_tree is None ==> fields@.orchard_tree is None,
        fields.orchard_tree matches Some(text) ==> fields@.orchard_tree == Some(text@),
{
}

/// Where a document has all six fields, each of its type, and the time fits 32 bits, it makes
/// a tree state, each of whose fields is the member of its name.
pub proof fn law_document_makes_a_tree_state(
    members: Map<Seq<char>, JsonNode>,
    network: Seq<char>,
    height: u64,
    hash: Seq<char>,
    time: u32,
    sapling_tree: Seq<char>,
    orchard_tree: Seq<char>,
)
    requires
        members.contains_pair("network"@, JsonNode::Text(network)),
        members.contains_pair("height"@, JsonNode::Integer(height as int)),
        members.contains_pair("hash"@, JsonNode::Text(hash)),
        members.contains_pair("time"@, JsonNode::Integer(time as int)),
        members.contains_pair("saplingTree"@, JsonNode::Text(sapling_tree)),
        members.contains_pair("orchardTree"@, JsonNode::Text(orchard_tree)),
    ensures
        state_of_fields(fields_of(JsonNode::Object(members))) matches Ok(state) && {
            &&& state.network == network
            &&& state.height == height
            &&& state.hash == hash
            &&& state.time == time
            &&& state.sapling_tree == sapling_tree
            &&& state.orchard_tree == orchard_tree
        },
{
}

/// A field is there if and only if the document is an object that has a member of its name
/// and its type.
pub proof fn law_fields_of_a_document(document: JsonNode, text: Seq<char>, number: int)
    requires
        0 <= number,
    ensures
        !(document is Object) ==> {
            &&& fields_of(document).network is None
            &&& fields_of(document).height is None
            &&& fields_of(document).hash is None
            &&& fields_of(document).time is None
            &&& fields_of(document).sapling_tree is None
            &&& fields_of(document).orchard_tree is None
        },
        document matches JsonNode::Object(members) ==> {
            &&& fields_of(document).network == Some(text) <==> members.contains_pair(
                "network"@,
                JsonNode::Text(text),
            )
            &&& fields_of(document).hash == Some(text) <==> members.contains_pair(
                "hash"@,
                JsonNode::Text(text),
            )
            &&& fields_of(document).sapling_tree == Some(text) <==> members.contains_pair(
                "saplingTree"@,
                JsonNode::Text(text),
            )
            &&& fields_of(document).orchard_tree == Some(text) <==> members.contains_pair(
                "orchardTree"@,
                JsonNode::Text(text),
            )
            &&& fields_of(document).height matches Some(height) ==> members.contains_pair(
                "height"@,
                JsonNode::Integer(height as int),
            )
            &&& members.contains_pair("height"@, JsonNode::Integer(number)) ==> {
                &&& fields_of(document).height is Some <==> number <= u64::MAX
                &&& number <= u64::MAX ==> fields_of(document).height == Some(number as u64)
            }
            &&& fields_of(document).time matches Some(time) ==> members.contains_pair(
                "time"@,
                JsonNode::Integer(time as int),
            )
            &&& members.contains_pair("time"@, JsonNode::Integer(number)) ==> {
                &&& fields_of(document).time is Some <==> number <= i64::MAX
                &&& number <= i64::MAX ==> fields_of(document).time == Some(number as i64)
            }
            &&& members.contains_pair("time"@, JsonNode::Integer(-number)) ==> {
                &&& fields_of(document).time is Some <==> -number >= i64::MIN
                &&& -number >= i64::MIN ==> fields_of(document).time == Some((-number) as i64)
            }
        },
{
}

/// Fields make a tree state if and only if they are all there and the time fits 32 bits, and
/// then each field of it is the field of its name. Otherwise the first field that is missing
/// is named, in the order of the network, the height, the hash and the time, then the range of
/// the time, then the trees, the Sapling tree first.
pub proof fn law_fields_make_a_tree_state(f: TreeStateFieldsView)
    ensures
        state_of_fields(f) is Ok <==> {
            &&& f.network is Some
            &&& f.height is Some
            &&& f.hash is Some
            &&& f.time is Some
            &&& 0 <= f.time->0 < 0x1_0000_0000
            &&& f.sapling_tree is Some
            &&& f.orchard_tree is Some
        },
        state_of_fields(f) matches Ok(state) ==> {
            &&& Some(state.network) == f.network
            &&& Some(state.height) == f.height
            &&& Some(state.hash) == f.hash
            &&& state.time as int == f.time->0 as int
            &&& Some(state.sapling_tree) == f.sapling_tree
            &&& Some(state.orchard_tree) == f.orchard_tree
        },
        state_of_fields(f) matches Err(error) ==> match error {
            FieldError::Missing(Field::Network) => f.network is None,
            FieldError::Missing(Field::Height) => f.network is Some && f.height is None,
            FieldError::Missing(Field::Hash) => f.network is Some && f.height is Some
                && f.hash is None,
            FieldError::Missing(Field::Time) => f.network is Some && f.height is Some
                && f.hash is Some && f.time is None,
            FieldError::TimeOutOfRange => f.network is Some && f.height is Some && f.hash is Some
                && f.time is Some && !(0 <= f.time->0 < 0x1_0000_0000),
            FieldError::Missing(Field::SaplingTree) => f.network is Some && f.height is Some
                && f.hash is Some && f.time is Some && 0 <= f.time->0 < 0x1_0000_0000
                && f.sapling_tree is None,
            FieldError::Missing(Field::OrchardTree) => f.network is Some && f.height is Some
                && f.hash is Some && f.time is Some && 0 <= f.time->0 < 0x1_0000_0000
                && f.sapling_tree is Some && f.orchard_tree is None,
        },
{
}

/// The encodings of nodes are theirs, in order.
pub proof fn law_nodes(sapling: Seq<Node>, orchard: Seq<MerkleHashOrchard>, i: int)
    ensures
        sapling_nodes(sapling).len() == sapling.len(),
        orchard_nodes(orchard).len() == orchard.len(),
        0 <= i < sapling.len() ==> sapling_nodes(sapling)[i] == sapling_node(sapling[i]),
        0 <= i < orchard.len() ==> orchard_nodes(orchard)[i] == orchard_node(orchard[i]),
{
}

/// A tree of thirty-two levels is full if and only if both leaves of its last pair are taken
/// and there is a sibling at each of the thirty-one levels above.
pub proof fn law_full_tree(tree: TreeParts)
    ensures
        is_full(tree) <==> {
            &&& tree.left is Some
            &&& tree.right is Some
            &&& tree.parents.len() >= 31
            &&& forall|i: int| 0 <= i < 31 ==> (#[trigger] tree.parents[i]) is Some
        },
{
}

/// The leaves of a tree are counted by its pair, which holds up to two, and by the siblings
/// above: one at the first level stands for two leaves, and one at each level for twice as
/// many as one at the level below.
pub proof fn law_count_of_leaves(
    left: Option<Seq<u8>>,
    right: Option<Seq<u8>>,
    parents: Seq<Option<Seq<u8>>>,
    node: Seq<u8>,
)
    ensures
        leaf_count(TreeParts { left: None, right: None, parents: Seq::empty() }) == 0,
        leaf_count(TreeParts { left: Some(node), right, parents }) == leaf_count(
            TreeParts { left: None, right, parents },
        ) + 1,
        leaf_count(TreeParts { left, right: Some(node), parents }) == leaf_count(
            TreeParts { left, right: None, parents },
        ) + 1,
        leaf_count(TreeParts { left, right, parents: parents.push(None) }) == leaf_count(
            TreeParts { left, right, parents },
        ),
        leaf_count(TreeParts { left, right, parents: parents.push(Some(node)) }) == leaf_count(
            TreeParts { left, right, parents },
        ) + pow2(parents.len() + 1),
{
    assert(parents.push(None).drop_last() =~= parents);
    assert(parents.push(Some(node)).drop_last() =~= parents);
}

/// A tree is serialized as its left leaf, its right leaf, the number of levels above and the
/// siblings, each of the optional nodes with a flag byte in front: zero where there is none,
/// and one in front of a node.
pub proof fn law_serialized_tree(
    left: Option<Seq<u8>>,
    right: Option<Seq<u8>>,
    parents: Seq<Option<Seq<u8>>>,
    sibling: Seq<u8>,
)
    ensures
        ({
            let pair = (match left {
                Some(node) => seq![1u8] + node,
                None => seq![0u8],
            }) + (match right {
                Some(node) => seq![1u8] + node,
                None => seq![0u8],
            });
            let bytes = tree_bytes(TreeParts { left, right, parents });
            let one_more = bytes.update(pair.len() as int, (parents.len() + 1) as u8);
            &&& tree_bytes(TreeParts { left, right, parents: Seq::empty() }) == pair + seq![0u8]
            &&& tree_bytes(TreeParts { left, right, parents: parents.push(None) }) == one_more
                + seq![0u8]
            &&& tree_bytes(TreeParts { left, right, parents: parents.push(Some(sibling)) })
                == one_more + seq![1u8] + sibling
        }),
{
    let pair = (match left {
        Some(node) => seq![1u8] + node,
        None => seq![0u8],
    }) + (match right {
        Some(node) => seq![1u8] + node,
        None => seq![0u8],
    });
    let bytes = tree_bytes(TreeParts { left, right, parents });
    let one_more = bytes.update(pair.len() as int, (parents.len() + 1) as u8);
    assert(optionals_bytes(Seq::empty()) =~= Seq::empty());
    assert(tree_bytes(TreeParts { left, right, parents: Seq::empty() }) =~= pair + seq![0u8]);
    assert(parents.push(None).drop_last() =~= parents);
    assert(parents.push(Some(sibling)).drop_last() =~= parents);
    assert(tree_bytes(TreeParts { left, right, parents: parents.push(None) }) =~= one_more + seq![
        0u8,
    ]);
    assert(tree_bytes(TreeParts { left, right, parents: parents.push(Some(sibling)) })
        =~= one_more + seq![1u8] + sibling);
}

proof fn lemma_sapling_row(trees: Seq<TreeParts>, nodes: Seq<Seq<u8>>, k: int)
    requires
        0 <= k <= nodes.len(),
        k < trees.len(),
        forall|i: int|
            0 <= i < k ==> !is_full(#[trigger] trees[i]) && trees[i + 1] == sapling_appended(
                trees[i],
                nodes[i],
            ),
    ensures
        extended(Pool::Sapling, trees[0], nodes.take(k)) == Some(trees[k]),
    decreases k,
{
    if k > 0 {
        lemma_sapling_row(trees, nodes, k - 1);
        assert(nodes.take(k).drop_last() =~= nodes.take(k - 1));
        assert(!is_full(trees[k - 1]));
        assert(trees[k - 1 + 1] == sapling_appended(trees[k - 1], nodes[k - 1]));
    }
}

proof fn lemma_orchard_row(trees: Seq<TreeParts>, nodes: Seq<Seq<u8>>, k: int)
    requires
        0 <= k <= nodes.len(),
        k < trees.len(),
        forall|i: int|
            0 <= i < k ==> !is_full(#[trigger] trees[i]) && trees[i + 1] == orchard_appended(
                trees[i],
                nodes[i],
            ),
    ensures
        extended(Pool::Orchard, trees[0], nodes.take(k)) == Some(trees[k]),
    decreases k,
{
    if k > 0 {
        lemma_orchard_row(trees, nodes, k - 1);
        assert(nodes.take(k).drop_last() =~= nodes.take(k - 1));
        assert(!is_full(trees[k - 1]));
        assert(trees[k - 1 + 1] == orchard_appended(trees[k - 1], nodes[k - 1]));
    }
}

/// Each pool has its own tree in a tree state, and its own note commitments in a transaction.
pub proof fn law_pools(state: TreeStateView, parts: TransactionParts)
    ensures
        tree_text(Pool::Sapling, state) == state.sapling_tree,
        tree_text(Pool::Orchard, state) == state.orchard_tree,
        is_hex(state.sapling_tree) ==> tree_of(Pool::Sapling, state) == sapling_read(
            decoded(state.sapling_tree),
        ),
        !is_hex(state.sapling_tree) ==> tree_of(Pool::Sapling, state) is None,
        is_hex(state.orchard_tree) ==> tree_of(Pool::Orchard, state) == orchard_read(
            decoded(state.orchard_tree),
        ),
        !is_hex(state.orchard_tree) ==> tree_of(Pool::Orchard, state) is None,
        parts.sapling matches Some(commitments) ==> leaves_for(Pool::Sapling, parts) == commitments,
        parts.sapling is None ==> leaves_for(Pool::Sapling, parts).len() == 0,
        parts.orchard matches Some(commitments) ==> leaves_for(Pool::Orchard, parts) == commitments,
        parts.orchard is None ==> leaves_for(Pool::Orchard, parts).len() == 0,
{
}

/// The new tree state has every note commitment of the transaction: its Sapling tree is the
/// last of a row of trees that starts with the one before and in which each tree has the next
/// of the transaction's Sapling commitments appended, from the first to the last; its Orchard
/// tree likewise with the Orchard commitments. Its height and network are the given ones, and
/// it names no block and no time.
pub proof fn law_every_commitment_is_appended(
    before: TreeStateView,
    data: Seq<u8>,
    height: u64,
    network: Seq<char>,
    parts: TransactionParts,
    sapling: Seq<TreeParts>,
    orchard: Seq<TreeParts>,
)
    requires
        is_hex(before.sapling_tree),
        is_hex(before.orchard_tree),
        sapling.len() > 0,
        orchard.len() > 0,
        sapling_read(decoded(before.sapling_tree)) == Some(sapling[0]),
        orchard_read(decoded(before.orchard_tree)) == Some(orchard[0]),
        parsed_transaction(data, 0xc2d6_d0b4) == Some(parts),
        match parts.sapling {
            Some(commitments) => {
                &&& sapling.len() == commitments.len() + 1
                &&& forall|i: int|
                    0 <= i < commitments.len() ==> !is_full(#[trigger] sapling[i]) && sapling[i + 1]
                        == sapling_appended(sapling[i], commitments[i])
            },
            None => sapling.len() == 1,
        },
        match parts.orchard {
            Some(commitments) => {
                &&& orchard.len() == commitments.len() + 1
                &&& forall|i: int|
                    0 <= i < commitments.len() ==> !is_full(#[trigger] orchard[i]) && orchard[i + 1]
                        == orchard_appended(orchard[i], commitments[i])
            },
            None => orchard.len() == 1,
        },
    ensures
        updated(before, data, height, network) matches Ok(after) && {
            &&& after.network == network
            &&& after.height == height
            &&& after.hash.len() == 0
            &&& after.time == 0
            &&& after.sapling_tree == encoded(tree_bytes(sapling.last()))
            &&& after.orchard_tree == encoded(tree_bytes(orchard.last()))
        },
{
    let outputs = leaves(parts.sapling);
    let actions = leaves(parts.orchard);
    lemma_sapling_row(sapling, outputs, outputs.len() as int);
    lemma_orchard_row(orchard, actions, actions.len() as int);
    assert(outputs.take(outputs.len() as int) =~= outputs);
    assert(actions.take(actions.len() as int) =~= actions);
}

/// The tree of a pool has as many leaves more as the transaction has note commitments of that
/// pool, and no other; a transaction without the pool's part leaves the tree as it was.
pub proof fn law_one_leaf_for_each_commitment(
    before: TreeStateView,
    after: TreeStateView,
    parts: TransactionParts,
)
    requires
        tree_follows(Pool::Sapling, before, after, parts),
        tree_follows(Pool::Orchard, before, after, parts),
    ensures
        ({
            let old_sapling = sapling_read(decoded(before.sapling_tree));
            let new_sapling = sapling_read(decoded(after.sapling_tree));
            let old_orchard = orchard_read(decoded(before.orchard_tree));
            let new_orchard = orchard_read(decoded(after.orchard_tree));
            &&& is_hex(before.sapling_tree) && is_hex(after.sapling_tree)
            &&& is_hex(before.orchard_tree) && is_hex(after.orchard_tree)
            &&& old_sapling is Some && new_sapling is Some
            &&& old_orchard is Some && new_orchard is Some
            &&& parts.sapling matches Some(commitments) ==> leaf_count(new_sapling->0)
                == leaf_count(old_sapling->0) + commitments.len()
            &&& parts.sapling is None ==> new_sapling == old_sapling
            &&& parts.orchard matches Some(commitments) ==> leaf_count(new_orchard->0)
                == leaf_count(old_orchard->0) + commitments.len()
            &&& parts.orchard is None ==> new_orchard == old_orchard
        }),
{
}

/// The trees of the new state can be read back, and are the last of the rows of trees in which
/// each has the next of the transaction's note commitments appended; where there is none to
/// append, the old serialization starts with the new one.
pub proof fn law_new_trees_are_read_back(
    before: TreeStateView,
    after: TreeStateView,
    parts: TransactionParts,
    sapling: Seq<TreeParts>,
    orchard: Seq<TreeParts>,
)
    requires
        tree_follows(Pool::Sapling, before, after, parts),
        tree_follows(Pool::Orchard, before, after, parts),
        sapling.len() > 0,
        orchard.len() > 0,
        sapling_read(decoded(before.sapling_tree)) == Some(sapling[0]),
        orchard_read(decoded(before.orchard_tree)) == Some(orchard[0]),
        match parts.sapling {
            Some(commitments) => {
                &&& sapling.len() == commitments.len() + 1
                &&& forall|i: int|
                    0 <= i < commitments.len() ==> !is_full(#[trigger] sapling[i]) && sapling[i + 1]
                        == sapling_appended(sapling[i], commitments[i])
            },
            None => sapling.len() == 1,
        },
        match parts.orchard {
            Some(commitments) => {
                &&& orchard.len() == commitments.len() + 1
                &&& forall|i: int|
                    0 <= i < commitments.len() ==> !is_full(#[trigger] orchard[i]) && orchard[i + 1]
                        == orchard_appended(orchard[i], commitments[i])
            },
            None => orchard.len() == 1,
        },
    ensures
        sapling_read(decoded(after.sapling_tree)) == Some(sapling.last()),
        orchard_read(decoded(after.orchard_tree)) == Some(orchard.last()),
        sapling.len() == 1 ==> decoded(after.sapling_tree).is_prefix_of(
            decoded(before.sapling_tree),
        ),
        orchard.len() == 1 ==> decoded(after.orchard_tree).is_prefix_of(
            decoded(before.orchard_tree),
        ),
{
    let outputs = leaves(parts.sapling);
    let actions = leaves(parts.orchard);
    lemma_sapling_row(sapling, outputs, outputs.len() as int);
    lemma_orchard_row(orchard, actions, actions.len() as int);
    assert(outputs.take(outputs.len() as int) =~= outputs);
    assert(actions.take(actions.len() as int) =~= actions);
}

/// No new tree state comes out where something is wrong, and the first such thing is named:
/// the text of the Sapling tree, that tree, the text of the Orchard tree, that tree, the
/// transaction.
pub proof fn law_first_thing_wrong(
    before: TreeStateView,
    data: Seq<u8>,
    height: u64,
    network: Seq<char>,
)
    ensures
        ({
            let result = updated(before, data, height, network);
            let sapling = sapling_read(decoded(before.sapling_tree));
            let orchard = orchard_read(decoded(before.orchard_tree));
            let transaction = parsed_transaction(data, 0xc2d6_d0b4);
            let both = is_hex(before.sapling_tree) && sapling is Some && is_hex(before.orchard_tree)
                && orchard is Some;
            &&& result == Err::<TreeStateView, _>(TreeUpdateError::SaplingText) <==> !is_hex(
                before.sapling_tree,
            )
            &&& result == Err::<TreeStateView, _>(TreeUpdateError::SaplingTree) <==> is_hex(
                before.sapling_tree,
            ) && sapling is None
            &&& result == Err::<TreeStateView, _>(TreeUpdateError::OrchardText) <==> is_hex(
                before.sapling_tree,
            ) && sapling is Some && !is_hex(before.orchard_tree)
            &&& result == Err::<TreeStateView, _>(TreeUpdateError::OrchardTree) <==> is_hex(
                before.sapling_tree,
            ) && sapling is Some && is_hex(before.orchard_tree) && orchard is None
            &&& result == Err::<TreeStateView, _>(TreeUpdateError::Transaction) <==> both
                && transaction is None
        }),
{
}

/// Where the trees and the transaction can be read, and the Sapling tree is full before the
/// last of the Sapling commitments is appended, that is what is named.
pub proof fn law_full_sapling_tree(
    before: TreeStateView,
    data: Seq<u8>,
    height: u64,
    network: Seq<char>,
    parts: TransactionParts,
    commitments: Seq<Seq<u8>>,
    sapling: Seq<TreeParts>,
)
    requires
        is_hex(before.sapling_tree),
        is_hex(before.orchard_tree),
        0 < sapling.len() <= commitments.len(),
        sapling_read(decoded(before.sapling_tree)) == Some(sapling[0]),
        orchard_read(decoded(before.orchard_tree)) is Some,
        parsed_transaction(data, 0xc2d6_d0b4) == Some(parts),
        parts.sapling == Some(commitments),
        forall|i: int|
            0 <= i < sapling.len() - 1 ==> !is_full(#[trigger] sapling[i]) && sapling[i + 1]
                == sapling_appended(sapling[i], commitments[i]),
        is_full(sapling.last()),
    ensures
        updated(before, data, height, network) == Err::<TreeStateView, _>(
            TreeUpdateError::SaplingFull,
        ),
{
    let k = sapling.len() - 1;
    lemma_sapling_row(sapling, commitments, k);
    assert(commitments.take(k + 1).drop_last() =~= commitments.take(k));
    crate::merkle::lemma_no_room(Pool::Sapling, sapling[0], commitments, k + 1);
}

/// Where all goes well with the Sapling tree, and the Orchard tree is full before the last of
/// the Orchard commitments is appended, that is what is named.
pub proof fn law_full_orchard_tree(
    before: TreeStateView,
    data: Seq<u8>,
    height: u64,
    network: Seq<char>,
    parts: TransactionParts,
    sapling: Seq<TreeParts>,
    commitments: Seq<Seq<u8>>,
    orchard: Seq<TreeParts>,
)
    requires
        is_hex(before.sapling_tree),
        is_hex(before.orchard_tree),
        sapling.len() > 0,
        0 < orchard.len() <= commitments.len(),
        sapling_read(decoded(before.sapling_tree)) == Some(sapling[0]),
        orchard_read(decoded(before.orchard_tree)) == Some(orchard[0]),
        parsed_transaction(data, 0xc2d6_d0b4) == Some(parts),
        match parts.sapling {
            Some(outputs) => {
                &&& sapling.len() == outputs.len() + 1
                &&& forall|i: int|
                    0 <= i < outputs.len() ==> !is_full(#[trigger] sapling[i]) && sapling[i + 1]
                        == sapling_appended(sapling[i], outputs[i])
            },
            None => sapling.len() == 1,
        },
        parts.orchard == Some(commitments),
        forall|i: int|
            0 <= i < orchard.len() - 1 ==> !is_full(#[trigger] orchard[i]) && orchard[i + 1]
                == orchard_appended(orchard[i], commitments[i]),
        is_full(orchard.last()),
    ensures
        updated(before, data, height, network) == Err::<TreeStateView, _>(
            TreeUpdateError::OrchardFull,
        ),
{
    let outputs = leaves(parts.sapling);
    lemma_sapling_row(sapling, outputs, outputs.len() as int);
    assert(outputs.take(outputs.len() as int) =~= outputs);
    let k = orchard.len() - 1;
    lemma_orchard_row(orchard, commitments, k);
    assert(commitments.take(k + 1).drop_last() =~= commitments.take(k));
    crate::merkle::lemma_no_room(Pool::Orchard, orchard[0], commitments, k + 1);
}

/// The tree state with given serialized trees has their texts, each in its own pool's field.
pub proof fn law_state_with_trees(
    sapling_tree: Seq<u8>,
    orchard_tree: Seq<u8>,
    height: u64,
    network: Seq<char>,
)
    ensures
        ({
            let state = state_with_trees(sapling_tree, orchard_tree, height, network);
            &&& state.network == network
            &&& state.height == height
            &&& state.hash.len() == 0
            &&& state.time == 0
            &&& state.sapling_tree == encoded(sapling_tree)
            &&& state.orchard_tree == encoded(orchard_tree)
        }),
{
}

/// A transaction that is read and serializes to bytes is recorded, however long the bytes
/// are: by their hexadecimal text, with a line feed behind it.
pub proof fn law_recording_succeeds(
    data: Seq<u8>,
    branch: u32,
    parts: TransactionParts,
    bytes: Seq<u8>,
)
    requires
        parsed_transaction(data, branch) == Some(parts),
        parts.bytes == Some(bytes),
    ensures
        recorded(data, branch) == Ok::<_, RecordError>(encoded(bytes) + seq!['\n']),
        record_line(bytes) == encoded(bytes) + seq!['\n'],
{
    assert(record_line(bytes) =~= encoded(bytes) + seq!['\n']);
}

/// A transaction is not recorded if and only if it is not read, or does not serialize.
pub proof fn law_recording_fails(data: Seq<u8>, branch: u32)
    ensures
        recorded(data, branch) == Err::<Seq<char>, _>(RecordError::NotATransaction)
            <==> parsed_transaction(data, branch) is None,
        recorded(data, branch) == Err::<Seq<char>, _>(RecordError::NotWritable)
            <==> parsed_transaction(data, branch) is Some && parsed_transaction(
            data,
            branch,
        )->0.bytes is None,
{
}

/// What was read is read again from the bytes that it serializes to, whatever follows them.
pub proof fn law_reading_undoes_writing(
    data: Seq<u8>,
    branch: u32,
    parts: TransactionParts,
    bytes: Seq<u8>,
    rest: Seq<u8>,
)
    requires
        parts.bytes == Some(bytes),
        reads_back(parts, branch) || stays_readable(data, branch) && parsed_transaction(
            data,
            branch,
        ) == Some(parts),
    ensures
        parsed_transaction(bytes + rest, branch) == Some(parts),
{
}

/// The number of the fifth network upgrade's branch is one of a branch.
pub proof fn law_fifth_upgrade()
    ensures
        is_branch(0xc2d6_d0b4),
        crate::transaction::NU5_BRANCH == 0xc2d6_d0b4,
{
}

/// A request goes to the scheme and authority of the server, with the path and query of its
/// own, where these are there.
pub proof fn law_request_goes_to_the_server(server: UriParts, request: UriParts)
    ensures
        redirected(server, request).scheme == server.scheme,
        redirected(server, request).authority == server.authority,
        redirected(server, request).path_and_query == request.path_and_query,
        can_redirect(server, request) <==> server.scheme is Some && server.authority is Some
            && request.path_and_query is Some,
{
}

/// Transactions are packed in order, each with its bytes and its height.
pub proof fn law_packed_transactions(transactions: Seq<(Vec<u8>, u64)>, i: int)
    requires
        0 <= i < transactions.len(),
    ensures
        raw_transactions(transactions).len() == transactions.len(),
        raw_transactions(transactions)[i].data == transactions[i].0@,
        raw_transactions(transactions)[i].height == transactions[i].1,
{
}

/// A server listens to this machine alone, at its port, and is found there.
pub proof fn law_local_addresses(grpc_port: Seq<char>)
    ensures
        bind_address(grpc_port) == "127.0.0.1:"@ + grpc_port,
        local_server(grpc_port) == "http://127.0.0.1:"@ + grpc_port,
{
}

/// Scenarios on the same ground have the same server, builder of wallets, network and height.
pub proof fn law_same_ground<H, B, N, L>(
    a: DarksideScenarioBuilder<H, B, N, L>,
    b: DarksideScenarioBuilder<H, B, N, L>,
)
    requires
        same_ground(a, b),
    ensures
        a.darkside_handler == b.darkside_handler,
        a.darkside_connector == b.darkside_connector,
        a.client_builder == b.client_builder,
        a.regtest_network == b.regtest_network,
        a.blockheight == b.blockheight,
{
}

} // verus!
