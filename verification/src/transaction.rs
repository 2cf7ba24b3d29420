//! Transactions, their note commitments, and the file that records them.

use crate::encoding::{decoded, encoded, hex_encode, is_hex, law_decode_of_encode};
use crate::merkle::{orchard_nodes, sapling_nodes};
use crate::messages::RawTransaction;
use orchard::tree::MerkleHashOrchard;
use sapling_crypto::Node;
use vstd::prelude::*;
use zcash_primitives::transaction::Transaction;
use zcash_protocol::consensus::BranchId;

verus! {

/// A parsed transaction.
#[verifier::external_type_specification]
#[verifier::external_body]
pub struct ExTransaction(Transaction);

/// The set of consensus rules under which a transaction is read.
#[verifier::external_type_specification]
#[verifier::external_body]
pub struct ExBranchId(BranchId);

/// The number of the branch that the fifth network upgrade started.
pub const NU5_BRANCH: u32 = 0xc2d6_d0b4;

/// The file that records the transactions of a chain build.
pub const TRANSACTION_FILE: &'static str = "transaction_hex.txt";

/// What is read off a transaction: the note commitments of its Sapling outputs and of its
/// Orchard actions, in order, where it has such a part, and the bytes that it serializes
/// to, where it does.
#[verifier::ext_equal]
pub struct TransactionParts {
    pub sapling: Option<Seq<Seq<u8>>>,
    pub orchard: Option<Seq<Seq<u8>>>,
    pub bytes: Option<Seq<u8>>,
}

/// What a parsed transaction holds.
pub uninterp spec fn transaction_parts(transaction: Transaction) -> TransactionParts;

/// The number that stands for a consensus branch.
pub uninterp spec fn branch_number(branch: BranchId) -> u32;

/// What `Transaction::read` finds at the front of `data`, `None` where it reports an error.
pub uninterp spec fn parsed_transaction(data: Seq<u8>, branch: u32) -> Option<TransactionParts>;

/// Whether reading undoes writing: a transaction that can be serialized is read back from its
/// bytes, whatever follows them.
pub open spec fn reads_back(parts: TransactionParts, branch: u32) -> bool {
    parts.bytes matches Some(bytes) ==> forall|rest: Seq<u8>| #[trigger]
        parsed_transaction(bytes + rest, branch) == Some(parts)
}

/// Whether the transaction at the front of `data`, where there is one, is read back from the
/// bytes that it serializes to.
pub open spec fn stays_readable(data: Seq<u8>, branch: u32) -> bool {
    parsed_transaction(data, branch) matches Some(parts) ==> reads_back(parts, branch)
}

/// The numbers that stand for a consensus branch.
pub open spec fn is_branch(number: u32) -> bool {
    ||| number == 0
    ||| number == 0x5ba8_1b19
    ||| number == 0x76b8_09bb
    ||| number == 0x2bb4_0e60
    ||| number == 0xf5b9_230b
    ||| number == 0xe9ff_75a6
    ||| number == NU5_BRANCH
    ||| number == 0xc8e7_1055
    ||| number == 0x4dec_4df0
    ||| number == 0x5437_f330
    ||| number == 0x37a5_165b
    ||| number == 0x7719_0ad9
}

/// The note commitments of an optional part of a transaction: none where it has no such part.
pub open spec fn leaves(part: Option<Seq<Seq<u8>>>) -> Seq<Seq<u8>> {
    match part {
        Some(leaves) => leaves,
        None => Seq::empty(),
    }
}

/// Calls `BranchId::try_from`, which knows the branches by their numbers, and no other
/// number.
#[verifier::external_body]
pub(crate) fn branch_of_number(number: u32) -> (r: Result<BranchId, &'static str>)
    ensures
        r is Ok <==> is_branch(number),
        r matches Ok(branch) ==> branch_number(branch) == number,
{
    BranchId::try_from(number)
}

/// Calls `Transaction::read`, which reads the front of `data` and ignores the rest. Its
/// result depends on the bytes and the branch alone. A transaction that it gave, once it is
/// serialized with `Transaction::write`, is read back from the front of any bytes that start
/// with its own, with the same note commitments and the same serialization. Nothing is said
/// of reading back a transaction that was put together in another way.
#[verifier::external_body]
pub(crate) fn read_transaction(data: &[u8], branch: BranchId) -> (r: Result<
    Transaction,
    std::io::Error,
>)
    ensures
        match r {
            Ok(transaction) => {
                &&& parsed_transaction(data@, branch_number(branch)) == Some(
                    transaction_parts(transaction),
                )
                &&& reads_back(transaction_parts(transaction), branch_number(branch))
            },
            Err(_) => parsed_transaction(data@, branch_number(branch)) is None,
        },
{
    Transaction::read(data, branch)
}

/// Calls `Transaction::write` on a vector: the bytes that the transaction serializes to, or
/// an error where it has parts that its format does not take.
#[verifier::external_body]
pub(crate) fn transaction_bytes(transaction: &Transaction) -> (r: Result<Vec<u8>, std::io::Error>)
    ensures
        match r {
            Ok(bytes) => transaction_parts(*transaction).bytes == Some(bytes@),
            Err(_) => transaction_parts(*transaction).bytes is None,
        },
{
    let mut bytes = Vec::new();
    transaction.write(&mut bytes)?;
    Ok(bytes)
}

/// Calls `Transaction::sapling_bundle`, and makes a leaf of each of the bundle's shielded
/// outputs with `Node::from_cmu`.
#[verifier::external_body]
pub(crate) fn sapling_leaves(transaction: &Transaction) -> (r: Option<Vec<Node>>)
    ensures
        match r {
            Some(nodes) => transaction_parts(*transaction).sapling == Some(sapling_nodes(nodes@)),
            None => transaction_parts(*transaction).sapling is None,
        },
{
    transaction.sapling_bundle().map(
        |bundle|
            bundle.shielded_outputs().iter().map(|output| Node::from_cmu(output.cmu())).collect(),
    )
}

/// Calls `Transaction::orchard_bundle`, and makes a leaf of each of the bundle's actions
/// with `MerkleHashOrchard::from_cmx`.
#[verifier::external_body]
pub(crate) fn orchard_leaves(transaction: &Transaction) -> (r: Option<Vec<MerkleHashOrchard>>)
    ensures
        match r {
            Some(nodes) => transaction_parts(*transaction).orchard == Some(orchard_nodes(nodes@)),
            None => transaction_parts(*transaction).orchard is None,
        },
{
    transaction.orchard_bundle().map(
        |bundle|
            bundle.actions().iter().map(|action| MerkleHashOrchard::from_cmx(action.cmx())).collect(),
    )
}

/// Why a transaction cannot be recorded.
#[derive(Clone, Copy, Debug, PartialEq, Eq)]
pub enum RecordError {
    /// The bytes are no transaction.
    NotATransaction,
    /// The transaction cannot be serialized.
    NotWritable,
}

/// The line that records the bytes of a transaction.
pub open spec fn record_line(bytes: Seq<u8>) -> Seq<char> {
    encoded(bytes).push('\n')
}

/// The line that records a serialized transaction, read under the branch with the given
/// number and serialized again.
pub open spec fn recorded(data: Seq<u8>, branch: u32) -> Result<Seq<char>, RecordError> {
    match parsed_transaction(data, branch) {
        None => Err(RecordError::NotATransaction),
        Some(parts) => match parts.bytes {
            None => Err(RecordError::NotWritable),
            Some(bytes) => Ok(record_line(bytes)),
        },
    }
}

/// The branch that the fifth network upgrade started.
pub(crate) fn nu5() -> (r: BranchId)
    ensures
        branch_number(r) == NU5_BRANCH,
{
    branch_of_number(NU5_BRANCH).unwrap()
}

/// Makes the line that records the bytes of a transaction.
pub fn hex_line(bytes: &[u8]) -> (r: String)
    ensures
        r@ == record_line(bytes@),
{
    let mut line = hex_encode(bytes);
    line.push('\n');
    line
}

/// Reads a raw transaction. Its height has no part in it, nor have any bytes behind the
/// transaction. Reading undoes writing: what was read is read again from the bytes that it
/// serializes to, whatever follows them.
pub fn create_transaction_from_raw_transaction(
    raw_transaction: &RawTransaction,
    branch_id: BranchId,
) -> (r: Result<Transaction, std::io::Error>)
    ensures
        match r {
            Ok(transaction) => {
                &&& parsed_transaction(raw_transaction@.data, branch_number(branch_id)) == Some(
                    transaction_parts(transaction),
                )
                &&& reads_back(transaction_parts(transaction), branch_number(branch_id))
            },
            Err(_) => parsed_transaction(raw_transaction@.data, branch_number(branch_id)) is None,
        },
{
    read_transaction(raw_transaction.data.as_slice(), branch_id)
}

/// Makes the line that records a transaction.
pub fn write_transaction(transaction: &Transaction) -> (r: Result<String, RecordError>)
    ensures
        match transaction_parts(*transaction).bytes {
            Some(bytes) => r is Ok && r->Ok_0@ == record_line(bytes),
            None => r is Err && r->Err_0 == RecordError::NotWritable,
        },
        r is Ok <==> transaction_parts(*transaction).bytes is Some,
        r matches Ok(line) ==> line@ == encoded(transaction_parts(*transaction).bytes->0) + seq![
            '\n',
        ],
{
    match transaction_bytes(transaction) {
        Ok(bytes) => Ok(hex_line(bytes.as_slice())),
        Err(_) => Err(RecordError::NotWritable),
    }
}

/// Makes the line that records a raw transaction, read under the given branch. The recorded
/// transaction can be read back from its bytes.
pub fn write_raw_transaction(raw_transaction: &RawTransaction, branch_id: BranchId) -> (r: Result<
    String,
    RecordError,
>)
    ensures
        match recorded(raw_transaction@.data, branch_number(branch_id)) {
            Ok(line) => r is Ok && r->Ok_0@ == line,
            Err(error) => r is Err && r->Err_0 == error,
        },
        stays_readable(raw_transaction@.data, branch_number(branch_id)),
        r matches Ok(line) ==> {
            let parts = parsed_transaction(raw_transaction.data@, branch_number(branch_id));
            parts is Some && parts->0.bytes is Some && line@ == encoded(parts->0.bytes->0) + seq![
                '\n',
            ]
        },
        r is Err ==> {
            let parts = parsed_transaction(raw_transaction.data@, branch_number(branch_id));
            parts is None || parts->0.bytes is None
        },
{
    match create_transaction_from_raw_transaction(raw_transaction, branch_id) {
        Err(_) => Err(RecordError::NotATransaction),
        Ok(transaction) => write_transaction(&transaction),
    }
}

/// The line that a transaction is recorded by leads back to it: without its line feed it is
/// hexadecimal, and from the bytes that it stands for, whatever follows them, the same
/// transaction is read, and recorded by the same line again.
pub proof fn law_record_is_read_back(data: Seq<u8>, branch: u32, line: Seq<char>, rest: Seq<u8>)
    requires
        stays_readable(data, branch),
        recorded(data, branch) == Ok::<_, RecordError>(line),
    ensures
        line.last() == '\n',
        is_hex(line.drop_last()),
        parsed_transaction(data, branch) is Some,
        parsed_transaction(decoded(line.drop_last()) + rest, branch) == parsed_transaction(
            data,
            branch,
        ),
        recorded(decoded(line.drop_last()) + rest, branch) == Ok::<_, RecordError>(line),
{
    let bytes = parsed_transaction(data, branch)->0.bytes->0;
    law_decode_of_encode(bytes);
    assert(line.drop_last() =~= encoded(bytes));
}

} // verus!
