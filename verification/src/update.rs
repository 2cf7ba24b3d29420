//! The tree state that a transaction leaves behind.

use crate::encoding::{decoded, encoded, hex_decode, hex_encode, is_hex, law_decode_of_encode};
use crate::merkle::{
    extend_orchard, extend_sapling, extended, law_extended_in_two, leaf_count, orchard_nodes,
    orchard_read, read_orchard_tree, read_sapling_tree, sapling_nodes, sapling_read, tree_bytes, tree_read,
    write_orchard_tree, write_sapling_tree, Pool, TreeParts,
};
use crate::messages::{TreeState, TreeStateView};
use crate::transaction::{
    leaves, nu5, orchard_leaves, parsed_transaction, read_transaction, sapling_leaves,
    transaction_parts, TransactionParts, NU5_BRANCH,
};
use orchard::tree::MerkleHashOrchard;
use sapling_crypto::Node;
use vstd::prelude::*;

verus! {

/// Why no new tree state comes out of a tree state and a transaction.
#[derive(Clone, Copy, Debug, PartialEq, Eq)]
pub enum TreeUpdateError {
    /// The text of the Sapling tree is not hexadecimal.
    SaplingText,
    /// The bytes of the Sapling tree are no tree.
    SaplingTree,
    /// The text of the Orchard tree is not hexadecimal.
    OrchardText,
    /// The bytes of the Orchard tree are no tree.
    OrchardTree,
    /// The bytes of the transaction are no transaction.
    Transaction,
    /// The Sapling tree has no room for the outputs.
    SaplingFull,
    /// The Orchard tree has no room for the actions.
    OrchardFull,
}

/// The text of a pool's tree.
pub open spec fn tree_text(pool: Pool, state: TreeStateView) -> Seq<char> {
    match pool {
        Pool::Sapling => state.sapling_tree,
        Pool::Orchard => state.orchard_tree,
    }
}

/// A pool's tree, where its text stands for one.
pub open spec fn tree_of(pool: Pool, state: TreeStateView) -> Option<TreeParts> {
    if is_hex(tree_text(pool, state)) {
        tree_read(pool, decoded(tree_text(pool, state)))
    } else {
        None
    }
}

/// The note commitments that a transaction adds to a pool's tree.
pub open spec fn leaves_for(pool: Pool, transaction: TransactionParts) -> Seq<Seq<u8>> {
    match pool {
        Pool::Sapling => leaves(transaction.sapling),
        Pool::Orchard => leaves(transaction.orchard),
    }
}

/// The tree state with the given trees at the given height. It names no block, and no time.
pub open spec fn state_with_trees(
    sapling_tree: Seq<u8>,
    orchard_tree: Seq<u8>,
    height: u64,
    network: Seq<char>,
) -> TreeStateView {
    TreeStateView {
        network,
        height,
        hash: Seq::empty(),
        time: 0,
        sapling_tree: encoded(sapling_tree),
        orchard_tree: encoded(orchard_tree),
    }
}

/// The tree state at `height` that a transaction leaves behind, where `trees` is the one
/// before it: every note commitment of the transaction is appended to its pool's tree. Where
/// there is none, the first thing that stands against it.
pub open spec fn updated(
    trees: TreeStateView,
    data: Seq<u8>,
    height: u64,
    network: Seq<char>,
) -> Result<TreeStateView, TreeUpdateError> {
    let sapling = tree_of(Pool::Sapling, trees);
    let orchard = tree_of(Pool::Orchard, trees);
    let transaction = parsed_transaction(data, NU5_BRANCH);
    if sapling is None {
        Err(
            if is_hex(trees.sapling_tree) {
                TreeUpdateError::SaplingTree
            } else {
                TreeUpdateError::SaplingText
            },
        )
    } else if orchard is None {
        Err(
            if is_hex(trees.orchard_tree) {
                TreeUpdateError::OrchardTree
            } else {
                TreeUpdateError::OrchardText
            },
        )
    } else if transaction is None {
        Err(TreeUpdateError::Transaction)
    } else {
        let new_sapling = extended(
            Pool::Sapling,
            sapling->0,
            leaves_for(Pool::Sapling, transaction->0),
        );
        let new_orchard = extended(
            Pool::Orchard,
            orchard->0,
            leaves_for(Pool::Orchard, transaction->0),
        );
        if new_sapling is None {
            Err(TreeUpdateError::SaplingFull)
        } else if new_orchard is None {
            Err(TreeUpdateError::OrchardFull)
        } else {
            Ok(
                state_with_trees(
                    tree_bytes(new_sapling->0),
                    tree_bytes(new_orchard->0),
                    height,
                    network,
                ),
            )
        }
    }
}

/// How a pool's tree in `after` comes out of that in `before`: it has the transaction's note
/// commitments behind it, in order, and no other leaf more. Where there are none, the old
/// serialization starts with the new one.
pub open spec fn tree_follows(
    pool: Pool,
    before: TreeStateView,
    after: TreeStateView,
    transaction: TransactionParts,
) -> bool {
    &&& tree_of(pool, before) is Some
    &&& tree_of(pool, after) is Some
    &&& tree_of(pool, after) == extended(
        pool,
        tree_of(pool, before)->0,
        leaves_for(pool, transaction),
    )
    &&& leaf_count(tree_of(pool, after)->0) == leaf_count(tree_of(pool, before)->0) + leaves_for(
        pool,
        transaction,
    ).len()
    &&& leaves_for(pool, transaction).len() == 0 ==> decoded(
        tree_text(pool, after),
    ).is_prefix_of(decoded(tree_text(pool, before)))
}

/// Makes the tree state with the given serialized trees.
pub fn new_tree_state(
    sapling_tree: &[u8],
    orchard_tree: &[u8],
    height: u64,
    network: &str,
) -> (r: TreeState)
    ensures
        r@ == state_with_trees(sapling_tree@, orchard_tree@, height, network@),
{
    TreeState {
        network: network.to_owned(),
        height,
        hash: String::new(),
        time: 0,
        sapling_tree: hex_encode(sapling_tree),
        orchard_tree: hex_encode(orchard_tree),
    }
}

/// Makes the tree state at `height` that a transaction leaves behind. Its trees can be read
/// back, so that it can stand before the next transaction.
pub fn updated_tree_state(trees: &TreeState, data: &[u8], height: u64, network: &str) -> (r: Result<
    TreeState,
    TreeUpdateError,
>)
    ensures
        match updated(trees@, data@, height, network@) {
            Ok(state) => r is Ok && r->Ok_0@ == state,
            Err(error) => r is Err && r->Err_0 == error,
        },
        r matches Ok(state) ==> tree_follows(
            Pool::Sapling,
            trees@,
            state@,
            parsed_transaction(data@, NU5_BRANCH)->0,
        ),
        r matches Ok(state) ==> tree_follows(
            Pool::Orchard,
            trees@,
            state@,
            parsed_transaction(data@, NU5_BRANCH)->0,
        ),
        r matches Ok(state) ==> {
            let parts = parsed_transaction(data@, 0xc2d6_d0b4)->0;
            let old_sapling = sapling_read(decoded(trees.sapling_tree@))->0;
            let new_sapling = sapling_read(decoded(state.sapling_tree@))->0;
            let old_orchard = orchard_read(decoded(trees.orchard_tree@))->0;
            let new_orchard = orchard_read(decoded(state.orchard_tree@))->0;
            &&& parsed_transaction(data@, 0xc2d6_d0b4) is Some
            &&& state.height == height
            &&& state.network@ == network@
            &&& leaf_count(new_sapling) == leaf_count(old_sapling) + (match parts.sapling {
                Some(commitments) => commitments.len(),
                None => 0,
            })
            &&& leaf_count(new_orchard) == leaf_count(old_orchard) + (match parts.orchard {
                Some(commitments) => commitments.len(),
                None => 0,
            })
        },
{
    let sapling_bytes = match hex_decode(trees.sapling_tree.as_str()) {
        Ok(bytes) => bytes,
        Err(_) => return Err(TreeUpdateError::SaplingText),
    };
    let mut sapling_tree = match read_sapling_tree(sapling_bytes.as_slice()) {
        Ok(tree) => tree,
        Err(_) => return Err(TreeUpdateError::SaplingTree),
    };
    let orchard_bytes = match hex_decode(trees.orchard_tree.as_str()) {
        Ok(bytes) => bytes,
        Err(_) => return Err(TreeUpdateError::OrchardText),
    };
    let mut orchard_tree = match read_orchard_tree(orchard_bytes.as_slice()) {
        Ok(tree) => tree,
        Err(_) => return Err(TreeUpdateError::OrchardTree),
    };
    let transaction = match read_transaction(data, nu5()) {
        Ok(transaction) => transaction,
        Err(_) => return Err(TreeUpdateError::Transaction),
    };
    let ghost parts = transaction_parts(transaction);
    let sapling_outputs: Vec<Node> = match sapling_leaves(&transaction) {
        Some(nodes) => nodes,
        None => Vec::new(),
    };
    assert(sapling_nodes(sapling_outputs@) =~= leaves_for(Pool::Sapling, parts));
    if !extend_sapling(&mut sapling_tree, sapling_outputs) {
        return Err(TreeUpdateError::SaplingFull);
    }
    let orchard_actions: Vec<MerkleHashOrchard> = match orchard_leaves(&transaction) {
        Some(nodes) => nodes,
        None => Vec::new(),
    };
    assert(orchard_nodes(orchard_actions@) =~= leaves_for(Pool::Orchard, parts));
    if !extend_orchard(&mut orchard_tree, orchard_actions) {
        return Err(TreeUpdateError::OrchardFull);
    }
    let new_sapling = write_sapling_tree(&sapling_tree);
    let new_orchard = write_orchard_tree(&orchard_tree);
    proof {
        law_decode_of_encode(new_sapling@);
        law_decode_of_encode(new_orchard@);
    }
    Ok(new_tree_state(new_sapling.as_slice(), new_orchard.as_slice(), height, network))
}

/// After two updates in a row a pool's tree has the note commitments of both transactions
/// behind it, those of the first one first.
pub proof fn law_two_updates(
    pool: Pool,
    before: TreeStateView,
    between: TreeStateView,
    after: TreeStateView,
    first: TransactionParts,
    second: TransactionParts,
)
    requires
        tree_follows(pool, before, between, first),
        tree_follows(pool, between, after, second),
    ensures
        tree_of(pool, after) == extended(
            pool,
            tree_of(pool, before)->0,
            leaves_for(pool, first) + leaves_for(pool, second),
        ),
        leaf_count(tree_of(pool, after)->0) == leaf_count(tree_of(pool, before)->0) + leaves_for(
            pool,
            first,
        ).len() + leaves_for(pool, second).len(),
{
    law_extended_in_two(
        pool,
        tree_of(pool, before)->0,
        leaves_for(pool, first),
        leaves_for(pool, second),
    );
}

} // verus!
