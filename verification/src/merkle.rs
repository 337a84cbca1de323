//! The Merkle store that a run leaves behind, and what the library asks of it.
//!
//! The store is a collection of `miden_crypto`: a map from the digest of an
//! inner node to the digests of its two children. The library never looks
//! inside it. Its contents have a name, [`store_nodes`], and each call into it
//! is a small function whose contract is taken on trust from the collection's
//! source.

use miden_crypto::hash::rpo::RpoDigest;
use miden_crypto::merkle::{InnerNodeInfo, NodeIndex};
use miden_crypto::{Felt, StarkField};
use vstd::prelude::*;

use crate::word::{canonical_word, Word};

verus! {

/// The error type of `miden_crypto`'s Merkle structures, carried as it comes.
#[verifier::external_type_specification]
#[verifier::external_body]
pub struct ExMerkleError(miden_crypto::merkle::MerkleError);

/// An inner node of a Merkle tree: its digest and the digests of its children.
#[derive(Clone, Copy, Debug)]
pub struct InnerNode {
    pub value: Word,
    pub left: Word,
    pub right: Word,
}

/// A `miden_crypto::merkle::MerkleStore` with its default backing map.
///
/// Nothing of the store is visible to proofs: what it holds is named by
/// [`store_nodes`].
#[verifier::external_body]
pub struct MerkleStore {
    inner: miden_crypto::merkle::MerkleStore,
}

/// The children that a store holds for each inner node's digest, digests being
/// words of integers below the field modulus.
pub uninterp spec fn store_nodes(store: MerkleStore) -> Map<Word, (Word, Word)>;

/// What a store holds after it was collected from a list of inner nodes. The
/// collection adds the roots of empty subtrees of every depth, so the contents
/// are more than the list.
pub uninterp spec fn collected_nodes(nodes: Seq<InnerNode>) -> Map<Word, (Word, Word)>;

/// What `merkle_tree_delta` returns for two roots of trees of one depth in a
/// store with the given contents: the cleared leaf indices and the updated
/// leaf indices with their new values, or nothing where it fails.
pub uninterp spec fn tree_delta(
    nodes: Map<Word, (Word, Word)>,
    root_a: Word,
    root_b: Word,
    depth: u8,
) -> Option<(Seq<u64>, Seq<(u64, Word)>)>;

/// The node reached from `node` by descending `depth` levels along the bits of
/// `index`, highest of the `depth` bits first (0 goes left, 1 goes right), or
/// nothing where a node on the way has no children in `nodes`.
pub open spec fn walk(
    nodes: Map<Word, (Word, Word)>,
    node: Word,
    depth: nat,
    index: u64,
) -> Option<Word>
    decreases depth,
{
    if depth == 0 {
        Some(node)
    } else if !nodes.contains_key(node) {
        None
    } else if (index >> ((depth - 1) as u64)) & 1 == 0 {
        walk(nodes, nodes[node].0, (depth - 1) as nat, index)
    } else {
        walk(nodes, nodes[node].1, (depth - 1) as nat, index)
    }
}

/// The number of leaf positions of a tree of the given depth.
pub open spec fn leaf_count(depth: u8) -> u64 {
    1u64 << depth
}

/// A tree is recorded in `nodes` when its root is there and every one of its
/// leaf positions can be reached from the root.
pub open spec fn tree_recorded(
    nodes: Map<Word, (Word, Word)>,
    root: Word,
    depth: u8,
) -> bool {
    &&& nodes.contains_key(root)
    &&& forall|index: u64|
        index < leaf_count(depth) ==> (#[trigger] walk(nodes, root, depth as nat, index)) is Some
}

/// Collects inner nodes into a store, through `MerkleStore`'s `FromIterator`
/// for inner nodes. The contract only names the contents that result.
#[verifier::external_body]
pub(crate) fn store_from_nodes(nodes: &Vec<InnerNode>) -> (store: MerkleStore)
    ensures
        store_nodes(store) == collected_nodes(nodes@),
{
    let inner = nodes.iter().map(|n| InnerNodeInfo {
        value: RpoDigest::from(n.value.map(Felt::new)),
        left: RpoDigest::from(n.left.map(Felt::new)),
        right: RpoDigest::from(n.right.map(Felt::new)),
    }).collect();
    MerkleStore { inner }
}

/// Calls `MerkleStore::get_node`. It fails where the root is not in the store
/// or a node on the way down has no children there; else it returns the node
/// that the descent along `index` ends in.
#[verifier::external_body]
pub(crate) fn store_get_node(store: &MerkleStore, root: &Word, depth: u8, index: u64) -> (node:
    Result<Word, miden_crypto::merkle::MerkleError>)
    requires
        depth <= 63,
        index < leaf_count(depth),
    ensures
        match node {
            Ok(found) => {
                &&& store_nodes(*store).contains_key(canonical_word(*root))
                &&& walk(store_nodes(*store), canonical_word(*root), depth as nat, index) == Some(
                    found,
                )
            },
            Err(_) => {
                ||| !store_nodes(*store).contains_key(canonical_word(*root))
                ||| walk(store_nodes(*store), canonical_word(*root), depth as nat, index) is None
            },
        },
{
    let root = RpoDigest::from(root.map(Felt::new));
    let node = store.inner.get_node(root, NodeIndex::new_unchecked(depth, index))?;
    Ok(<[u64; 4]>::from(node))
}

/// The shape that a tree delta has: every index is a leaf position of the
/// tree, the cleared indices ascend, the updated indices ascend, and no index
/// is both cleared and updated.
pub open spec fn delta_in_order(cleared: Seq<u64>, updated: Seq<(u64, Word)>, depth: u8) -> bool {
    &&& forall|i: int| 0 <= i < cleared.len() ==> (#[trigger] cleared[i]) < leaf_count(depth)
    &&& forall|i: int| 0 <= i < updated.len() ==> (#[trigger] updated[i]).0 < leaf_count(depth)
    &&& forall|i: int, j: int|
        0 <= i < j < cleared.len() ==> (#[trigger] cleared[i]) < (#[trigger] cleared[j])
    &&& forall|i: int, j: int|
        0 <= i < j < updated.len() ==> (#[trigger] updated[i]).0 < (#[trigger] updated[j]).0
    &&& forall|i: int, j: int|
        0 <= i < cleared.len() && 0 <= j < updated.len() ==> (#[trigger] cleared[i]) != (
        #[trigger] updated[j]).0
}

/// Calls `merkle_tree_delta`. The function walks both trees and, in a debug
/// build, asserts of every node that it does not find in the store that the
/// node lies at one of a few depths; with both trees recorded it finds every
/// node that it looks up. The contract names what comes back, and adds what
/// the function's source shows of it whatever the store holds: it always
/// returns a delta; equal roots have an empty delta; the delta is collected
/// from a set and a map that are ordered by leaf position, the one of
/// positions that the first tree alone holds a leaf at, the other of
/// positions that the second tree holds a leaf at.
#[verifier::external_body]
pub(crate) fn store_tree_delta(
    store: &MerkleStore,
    root_a: &Word,
    root_b: &Word,
    depth: u8,
) -> (delta: Result<(Vec<u64>, Vec<(u64, Word)>), miden_crypto::merkle::MerkleError>)
    requires
        depth <= 63,
        tree_recorded(store_nodes(*store), canonical_word(*root_a), depth),
        tree_recorded(store_nodes(*store), canonical_word(*root_b), depth),
    ensures
        match delta {
            Ok(slots) => tree_delta(store_nodes(*store), *root_a, *root_b, depth) == Some(
                (slots.0@, slots.1@),
            ),
            Err(_) => tree_delta(store_nodes(*store), *root_a, *root_b, depth) is None,
        },
        delta matches Ok(slots) ==> (canonical_word(*root_a) == canonical_word(*root_b)
            ==> slots.0@.len() == 0 && slots.1@.len() == 0),
        delta is Ok,
        delta matches Ok(slots) ==> delta_in_order(slots.0@, slots.1@, depth),
{
    let a = RpoDigest::from(root_a.map(Felt::new));
    let b = RpoDigest::from(root_b.map(Felt::new));
    let delta = miden_crypto::merkle::merkle_tree_delta(a, b, depth, &store.inner)?;
    let cleared = delta.cleared_slots().to_vec();
    let updated = delta.updated_slots().iter().map(|(i, v)| (*i, v.map(|e| e.as_int()))).collect();
    Ok((cleared, updated))
}

/// The leaves of the tree of the given depth under `root`, by position, as
/// far as `nodes` records them.
pub open spec fn tree_leaves(nodes: Map<Word, (Word, Word)>, root: Word, depth: u8) -> Seq<Word> {
    Seq::new(
        leaf_count(depth) as nat,
        |index: int| walk(nodes, root, depth as nat, index as u64).unwrap(),
    )
}

/// Reads every leaf of the tree of the given depth under `root` from the
/// store, by looking up each leaf position. It succeeds exactly when the tree
/// is recorded in the store; where it is not, the error of the first lookup
/// that failed is returned.
pub(crate) fn store_tree_leaves(store: &MerkleStore, root: &Word, depth: u8) -> (leaves: Result<
    Vec<Word>,
    miden_crypto::merkle::MerkleError,
>)
    requires
        depth <= 16,
    ensures
        leaves is Ok <==> tree_recorded(store_nodes(*store), canonical_word(*root), depth),
        leaves matches Ok(found) ==> found@ == tree_leaves(
            store_nodes(*store),
            canonical_word(*root),
            depth,
        ),
{
    let count: u64 = 1u64 << depth;
    assert(1 <= count <= 65536) by (bit_vector)
        requires
            depth <= 16,
            count == 1u64 << depth,
    ;
    let ghost nodes = store_nodes(*store);
    let ghost top = canonical_word(*root);
    let mut found: Vec<Word> = Vec::new();
    let mut index: u64 = 0;
    while index < count
        invariant
            depth <= 16,
            count == leaf_count(depth),
            count <= 65536,
            index <= count,
            nodes == store_nodes(*store),
            top == canonical_word(*root),
            index > 0 ==> nodes.contains_key(top),
            found@.len() == index,
            forall|i: u64| i < index ==> (#[trigger] walk(nodes, top, depth as nat, i)) is Some,
            forall|i: int|
                0 <= i < index ==> found@[i] == (#[trigger] walk(
                    nodes,
                    top,
                    depth as nat,
                    i as u64,
                )).unwrap(),
        decreases count - index,
    {
        match store_get_node(store, root, depth, index) {
            Ok(leaf) => {
                found.push(leaf);
            },
            Err(error) => {
                return Err(error);
            },
        }
        index = index + 1;
    }
    assert(found@ =~= tree_leaves(nodes, top, depth));
    Ok(found)
}

} // verus!
