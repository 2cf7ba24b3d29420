//! Note commitment trees of the Sapling and Orchard pools.
//!
//! The trees are those of `incrementalmerkletree`, with the nodes of `sapling-crypto` and
//! of `orchard`, and the serialization of `zcash_primitives`.

use incrementalmerkletree::frontier::CommitmentTree;
use orchard::tree::MerkleHashOrchard;
use sapling_crypto::Node;
use vstd::arithmetic::power2::pow2;
use vstd::prelude::*;
use zcash_primitives::merkle_tree::{read_commitment_tree, write_commitment_tree};

verus! {

/// A node of a Sapling tree.
#[verifier::external_type_specification]
#[verifier::external_body]
pub struct ExNode(Node);

/// A node of an Orchard tree.
#[verifier::external_type_specification]
#[verifier::external_body]
pub struct ExMerkleHashOrchard(MerkleHashOrchard);

/// An append-only Merkle tree, kept as its frontier.
#[verifier::external_type_specification]
#[verifier::external_body]
#[verifier::reject_recursive_types(H)]
pub struct ExCommitmentTree<H, const DEPTH: u8>(CommitmentTree<H, DEPTH>);

/// The error of reading from a byte source.
#[verifier::external_type_specification]
#[verifier::external_body]
pub struct ExIoError(std::io::Error);

/// The depth of both pools' trees.
pub const TREE_DEPTH: u8 = 32;

/// A shielded pool with a note commitment tree.
pub enum Pool {
    Sapling,
    Orchard,
}

/// What a tree keeps: the last pair of leaves, as far as it is filled, and above it, at
/// each level, the left sibling of the path to the root, where there is one. Nodes are
/// given by their encoding.
#[verifier::ext_equal]
pub struct TreeParts {
    pub left: Option<Seq<u8>>,
    pub right: Option<Seq<u8>>,
    pub parents: Seq<Option<Seq<u8>>>,
}

/// The encoding of a Sapling node.
pub uninterp spec fn sapling_node(node: Node) -> Seq<u8>;

/// The encoding of an Orchard node.
pub uninterp spec fn orchard_node(node: MerkleHashOrchard) -> Seq<u8>;

/// What a Sapling tree keeps.
pub uninterp spec fn sapling_parts(tree: CommitmentTree<Node, 32>) -> TreeParts;

/// What an Orchard tree keeps.
pub uninterp spec fn orchard_parts(tree: CommitmentTree<MerkleHashOrchard, 32>) -> TreeParts;

/// The Sapling tree that `read_commitment_tree` finds at the front of `bytes`.
pub uninterp spec fn sapling_read(bytes: Seq<u8>) -> Option<TreeParts>;

/// The Orchard tree that `read_commitment_tree` finds at the front of `bytes`.
pub uninterp spec fn orchard_read(bytes: Seq<u8>) -> Option<TreeParts>;

/// What `CommitmentTree::append` makes of a Sapling tree that is not full.
pub uninterp spec fn sapling_appended(tree: TreeParts, node: Seq<u8>) -> TreeParts;

/// What `CommitmentTree::append` makes of an Orchard tree that is not full.
pub uninterp spec fn orchard_appended(tree: TreeParts, node: Seq<u8>) -> TreeParts;

/// A flag byte, and the node where there is one.
pub open spec fn optional_bytes(node: Option<Seq<u8>>) -> Seq<u8> {
    match node {
        Some(node) => seq![1u8] + node,
        None => seq![0u8],
    }
}

/// The optional nodes one after the other.
pub open spec fn optionals_bytes(nodes: Seq<Option<Seq<u8>>>) -> Seq<u8>
    decreases nodes.len(),
{
    if nodes.len() == 0 {
        Seq::empty()
    } else {
        optionals_bytes(nodes.drop_last()) + optional_bytes(nodes.last())
    }
}

/// The serialization of a tree: the pair of leaves, the number of levels above, which is
/// below the depth, and the levels.
pub open spec fn tree_bytes(tree: TreeParts) -> Seq<u8> {
    optional_bytes(tree.left) + optional_bytes(tree.right) + seq![tree.parents.len() as u8]
        + optionals_bytes(tree.parents)
}

/// The leaves under the siblings above the last pair.
pub open spec fn leaves_above(parents: Seq<Option<Seq<u8>>>) -> nat
    decreases parents.len(),
{
    if parents.len() == 0 {
        0
    } else {
        leaves_above(parents.drop_last()) + (if parents.last() is Some {
            pow2(parents.len())
        } else {
            0
        })
    }
}

/// The number of leaves in a tree.
pub open spec fn leaf_count(tree: TreeParts) -> nat {
    leaves_above(tree.parents) + (if tree.left is Some {
        1nat
    } else {
        0
    }) + (if tree.right is Some {
        1nat
    } else {
        0
    })
}

/// Whether every leaf of the tree is taken.
pub open spec fn is_full(tree: TreeParts) -> bool {
    &&& tree.left is Some
    &&& tree.right is Some
    &&& tree.parents.len() >= TREE_DEPTH - 1
    &&& forall|i: int| 0 <= i < TREE_DEPTH - 1 ==> (#[trigger] tree.parents[i]) is Some
}

/// What a pool's tree reader finds at the front of `bytes`.
pub open spec fn tree_read(pool: Pool, bytes: Seq<u8>) -> Option<TreeParts> {
    match pool {
        Pool::Sapling => sapling_read(bytes),
        Pool::Orchard => orchard_read(bytes),
    }
}

/// What a leaf makes of a pool's tree that is not full.
pub open spec fn appended(pool: Pool, tree: TreeParts, node: Seq<u8>) -> TreeParts {
    match pool {
        Pool::Sapling => sapling_appended(tree, node),
        Pool::Orchard => orchard_appended(tree, node),
    }
}

/// The tree with all the leaves behind it, in order; `None` where it has no room for them.
pub open spec fn extended(pool: Pool, tree: TreeParts, nodes: Seq<Seq<u8>>) -> Option<TreeParts>
    decreases nodes.len(),
{
    if nodes.len() == 0 {
        Some(tree)
    } else {
        match extended(pool, tree, nodes.drop_last()) {
            Some(before) if !is_full(before) => Some(appended(pool, before, nodes.last())),
            _ => None,
        }
    }
}

/// The encodings of Sapling nodes.
pub open spec fn sapling_nodes(nodes: Seq<Node>) -> Seq<Seq<u8>> {
    nodes.map_values(|n: Node| sapling_node(n))
}

/// The encodings of Orchard nodes.
pub open spec fn orchard_nodes(nodes: Seq<MerkleHashOrchard>) -> Seq<Seq<u8>> {
    nodes.map_values(|n: MerkleHashOrchard| orchard_node(n))
}

/// Calls `zcash_primitives::merkle_tree::read_commitment_tree` for a Sapling tree. It reads
/// the front of `bytes` and ignores the rest; every encoding that it accepts is the one that
/// the tree has.
#[verifier::external_body]
pub(crate) fn read_sapling_tree(bytes: &[u8]) -> (r: Result<
    CommitmentTree<Node, 32>,
    std::io::Error,
>)
    ensures
        match r {
            Ok(tree) => sapling_read(bytes@) == Some(sapling_parts(tree)),
            Err(_) => sapling_read(bytes@) is None,
        },
        r matches Ok(tree) ==> tree_bytes(sapling_parts(tree)).is_prefix_of(bytes@),
{
    read_commitment_tree(bytes)
}

/// Calls `zcash_primitives::merkle_tree::read_commitment_tree` for an Orchard tree. It reads
/// the front of `bytes` and ignores the rest; every encoding that it accepts is the one that
/// the tree has.
#[verifier::external_body]
pub(crate) fn read_orchard_tree(bytes: &[u8]) -> (r: Result<
    CommitmentTree<MerkleHashOrchard, 32>,
    std::io::Error,
>)
    ensures
        match r {
            Ok(tree) => orchard_read(bytes@) == Some(orchard_parts(tree)),
            Err(_) => orchard_read(bytes@) is None,
        },
        r matches Ok(tree) ==> tree_bytes(orchard_parts(tree)).is_prefix_of(bytes@),
{
    read_commitment_tree(bytes)
}

/// Calls `zcash_primitives::merkle_tree::write_commitment_tree` for a Sapling tree. Writing
/// to a vector does not fail, and what is written is read back as the same tree.
#[verifier::external_body]
pub(crate) fn write_sapling_tree(tree: &CommitmentTree<Node, 32>) -> (r: Vec<u8>)
    ensures
        r@ == tree_bytes(sapling_parts(*tree)),
        sapling_read(r@) == Some(sapling_parts(*tree)),
{
    let mut bytes = Vec::new();
    write_commitment_tree(tree, &mut bytes).expect("a vector takes every byte");
    bytes
}

/// Calls `zcash_primitives::merkle_tree::write_commitment_tree` for an Orchard tree. Writing
/// to a vector does not fail, and what is written is read back as the same tree.
#[verifier::external_body]
pub(crate) fn write_orchard_tree(tree: &CommitmentTree<MerkleHashOrchard, 32>) -> (r: Vec<u8>)
    ensures
        r@ == tree_bytes(orchard_parts(*tree)),
        orchard_read(r@) == Some(orchard_parts(*tree)),
{
    let mut bytes = Vec::new();
    write_commitment_tree(tree, &mut bytes).expect("a vector takes every byte");
    bytes
}

/// Calls `CommitmentTree::append` on a Sapling tree. It fails where the tree is full, and
/// leaves it as it was; otherwise the tree has one leaf more.
#[verifier::external_body]
pub(crate) fn append_sapling(tree: &mut CommitmentTree<Node, 32>, node: Node) -> (r: Result<(), ()>)
    ensures
        r is Err <==> is_full(sapling_parts(*old(tree))),
        r is Err ==> sapling_parts(*final(tree)) == sapling_parts(*old(tree)),
        r is Ok ==> sapling_parts(*final(tree)) == sapling_appended(
            sapling_parts(*old(tree)),
            sapling_node(node),
        ),
        r is Ok ==> leaf_count(sapling_parts(*final(tree))) == leaf_count(
            sapling_parts(*old(tree)),
        ) + 1,
{
    tree.append(node)
}

/// Calls `CommitmentTree::append` on an Orchard tree. It fails where the tree is full, and
/// leaves it as it was; otherwise the tree has one leaf more.
#[verifier::external_body]
pub(crate) fn append_orchard(
    tree: &mut CommitmentTree<MerkleHashOrchard, 32>,
    node: MerkleHashOrchard,
) -> (r: Result<(), ()>)
    ensures
        r is Err <==> is_full(orchard_parts(*old(tree))),
        r is Err ==> orchard_parts(*final(tree)) == orchard_parts(*old(tree)),
        r is Ok ==> orchard_parts(*final(tree)) == orchard_appended(
            orchard_parts(*old(tree)),
            orchard_node(node),
        ),
        r is Ok ==> leaf_count(orchard_parts(*final(tree))) == leaf_count(
            orchard_parts(*old(tree)),
        ) + 1,
{
    tree.append(node)
}

/// Appends the leaves to a Sapling tree, up to the first that it has no room for.
pub(crate) fn extend_sapling(tree: &mut CommitmentTree<Node, 32>, nodes: Vec<Node>) -> (r: bool)
    ensures
        r <==> extended(Pool::Sapling, sapling_parts(*old(tree)), sapling_nodes(nodes@)) is Some,
        r ==> extended(Pool::Sapling, sapling_parts(*old(tree)), sapling_nodes(nodes@)) == Some(
            sapling_parts(*final(tree)),
        ),
        r ==> leaf_count(sapling_parts(*final(tree))) == leaf_count(sapling_parts(*old(tree)))
            + nodes@.len(),
{
    let ghost start = sapling_parts(*tree);
    let ghost all = sapling_nodes(nodes@);
    assert(all.take(0) =~= Seq::empty());
    for node in it: nodes
        invariant
            it.seq() == nodes@,
            all == sapling_nodes(nodes@),
            start == sapling_parts(*old(tree)),
            extended(Pool::Sapling, start, all.take(it.index() as int)) == Some(
                sapling_parts(*tree),
            ),
            leaf_count(sapling_parts(*tree)) == leaf_count(start) + it.index(),
    {
        proof {
            let k = it.index() as int;
            assert(all.take(k + 1).drop_last() =~= all.take(k));
            assert(all[k] == sapling_node(node));
        }
        if append_sapling(tree, node).is_err() {
            proof {
                lemma_no_room(Pool::Sapling, start, all, it.index() + 1);
            }
            return false;
        }
    }
    assert(all.take(all.len() as int) =~= all);
    true
}

/// Appends the leaves to an Orchard tree, up to the first that it has no room for.
pub(crate) fn extend_orchard(
    tree: &mut CommitmentTree<MerkleHashOrchard, 32>,
    nodes: Vec<MerkleHashOrchard>,
) -> (r: bool)
    ensures
        r <==> extended(Pool::Orchard, orchard_parts(*old(tree)), orchard_nodes(nodes@)) is Some,
        r ==> extended(Pool::Orchard, orchard_parts(*old(tree)), orchard_nodes(nodes@)) == Some(
            orchard_parts(*final(tree)),
        ),
        r ==> leaf_count(orchard_parts(*final(tree))) == leaf_count(orchard_parts(*old(tree)))
            + nodes@.len(),
{
    let ghost start = orchard_parts(*tree);
    let ghost all = orchard_nodes(nodes@);
    assert(all.take(0) =~= Seq::empty());
    for node in it: nodes
        invariant
            it.seq() == nodes@,
            all == orchard_nodes(nodes@),
            start == orchard_parts(*old(tree)),
            extended(Pool::Orchard, start, all.take(it.index() as int)) == Some(
                orchard_parts(*tree),
            ),
            leaf_count(orchard_parts(*tree)) == leaf_count(start) + it.index(),
    {
        proof {
            let k = it.index() as int;
            assert(all.take(k + 1).drop_last() =~= all.take(k));
            assert(all[k] == orchard_node(node));
        }
        if append_orchard(tree, node).is_err() {
            proof {
                lemma_no_room(Pool::Orchard, start, all, it.index() + 1);
            }
            return false;
        }
    }
    assert(all.take(all.len() as int) =~= all);
    true
}

/// Where a tree has no room for the first `k` leaves, it has none for all of them.
pub(crate) proof fn lemma_no_room(pool: Pool, tree: TreeParts, nodes: Seq<Seq<u8>>, k: int)
    requires
        0 <= k <= nodes.len(),
        extended(pool, tree, nodes.take(k)) is None,
    ensures
        extended(pool, tree, nodes) is None,
    decreases nodes.len() - k,
{
    if k < nodes.len() {
        assert(nodes.take(k + 1).drop_last() =~= nodes.take(k));
        lemma_no_room(pool, tree, nodes, k + 1);
    } else {
        assert(nodes.take(k) =~= nodes);
    }
}

/// Leaves may be appended in one go or in two: the tree comes out the same.
pub proof fn law_extended_in_two(
    pool: Pool,
    tree: TreeParts,
    first: Seq<Seq<u8>>,
    second: Seq<Seq<u8>>,
)
    ensures
        extended(pool, tree, first + second) == (match extended(pool, tree, first) {
            Some(between) => extended(pool, between, second),
            None => None,
        }),
    decreases second.len(),
{
    if second.len() == 0 {
        assert(first + second =~= first);
    } else {
        law_extended_in_two(pool, tree, first, second.drop_last());
        assert((first + second).drop_last() =~= first + second.drop_last());
        assert((first + second).last() == second.last());
        if extended(pool, tree, first) is None {
            assert(extended(pool, tree, first + second) is None);
        }
    }
}

} // verus!
