//! What holds of the transparency log as it grows.
use vstd::prelude::*;

use crate::proof_data::{
    consistency_of, inclusion_of, index_of, lemma_index_of, lemma_leaf_nodes_even,
};
use crate::proof_index::ErrorView;
use crate::proof_log::{log_root, proof_bundle, BundleView, Leaves};

verus! {

/// The root that the log had with its first `length` leaves.
pub open spec fn root_at(leaves: Leaves, length: int) -> Seq<char> {
    log_root(leaves.take(length))
}

/// Every root that the log ever had is found, with the last length that it had it
/// with; and no other root is found.
pub proof fn law_roots_are_found(leaves: Leaves, root: Seq<char>)
    ensures
        index_of(leaves).lengths.contains_key(root) <==> exists|n: int|
            1 <= n <= leaves.len() && #[trigger] root_at(leaves, n) == root,
        index_of(leaves).lengths.contains_key(root) ==> {
            let length = index_of(leaves).lengths[root];
            &&& 1 <= length <= leaves.len()
            &&& root_at(leaves, length as int) == root
            &&& forall|n: int| length < n <= leaves.len() ==> #[trigger] root_at(leaves, n) != root
        },
    decreases leaves.len(),
{
    if leaves.len() > 0 {
        let shorter = leaves.drop_last();
        law_roots_are_found(shorter, root);
        assert forall|n: int| 1 <= n < leaves.len() implies #[trigger] root_at(leaves, n)
            == root_at(shorter, n) by {
            assert(leaves.take(n) =~= shorter.take(n));
        }
        assert(leaves.take(leaves.len() as int) =~= leaves);
        let len = leaves.len() as int;
        assert(root_at(leaves, len) == log_root(leaves));
        if index_of(shorter).lengths.contains_key(root) {
            let n = index_of(shorter).lengths[root] as int;
            assert(root_at(leaves, n) == root_at(shorter, n));
        }
        if exists|n: int| 1 <= n <= leaves.len() && #[trigger] root_at(leaves, n) == root {
            let n = choose|n: int|
                1 <= n <= leaves.len() && #[trigger] root_at(leaves, n) == root;
            if n < len {
                assert(root_at(shorter, n) == root);
            }
        }
    }
}

/// Every leaf of the log is found, at the node of the last position that it has;
/// and no other leaf is found.
pub proof fn law_leaves_are_found(leaves: Leaves, leaf: (Seq<char>, Seq<char>))
    ensures
        index_of(leaves).nodes.contains_key(leaf) <==> leaves.contains(leaf),
        index_of(leaves).nodes.contains_key(leaf) ==> {
            let node = index_of(leaves).nodes[leaf];
            &&& node % 2 == 0
            &&& node / 2 < leaves.len()
            &&& leaves[node as int / 2] == leaf
            &&& forall|i: int| node / 2 < i < leaves.len() ==> #[trigger] leaves[i] != leaf
        },
    decreases leaves.len(),
{
    if leaves.len() > 0 {
        let shorter = leaves.drop_last();
        law_leaves_are_found(shorter, leaf);
        if shorter.contains(leaf) {
            let i = choose|i: int| 0 <= i < shorter.len() && shorter[i] == leaf;
            assert(leaves[i] == leaf);
        }
        if leaves.contains(leaf) && leaf != leaves.last() {
            let i = choose|i: int| 0 <= i < leaves.len() && leaves[i] == leaf;
            assert(shorter[i] == leaf);
        }
        if leaf != leaves.last() && shorter.contains(leaf) {
            let node = index_of(leaves).nodes[leaf];
            assert forall|i: int| node / 2 < i < leaves.len() implies #[trigger] leaves[i]
                != leaf by {
                if i < shorter.len() {
                    assert(shorter[i] == leaves[i]);
                }
            }
        }
    }
}

/// That the log only grew from one length to another can be proved from the roots
/// that it had with them, unless it got the older root once more after the newer
/// one.
pub proof fn law_growth_is_proved(leaves: Leaves, older: int, newer: int)
    requires
        1 <= older <= newer <= leaves.len(),
        forall|n: int|
            newer < n <= leaves.len() ==> #[trigger] root_at(leaves, n) != root_at(leaves, older),
    ensures
        consistency_of(leaves, root_at(leaves, older), root_at(leaves, newer)) is Ok,
{
    law_roots_are_found(leaves, root_at(leaves, older));
    law_roots_are_found(leaves, root_at(leaves, newer));
}

/// Where the log has every root once, the proof of growth is the one for the two
/// lengths that were asked for.
pub proof fn law_growth_is_proved_exactly(leaves: Leaves, older: int, newer: int)
    requires
        1 <= older <= newer <= leaves.len(),
        forall|n: int|
            older < n <= leaves.len() ==> #[trigger] root_at(leaves, n) != root_at(leaves, older),
        forall|n: int|
            newer < n <= leaves.len() ==> #[trigger] root_at(leaves, n) != root_at(leaves, newer),
    ensures
        consistency_of(leaves, root_at(leaves, older), root_at(leaves, newer)) == Ok::<
            _,
            ErrorView,
        >(proof_bundle(leaves.take(newer), seq![older as nat], Seq::empty())),
{
    law_roots_are_found(leaves, root_at(leaves, older));
    law_roots_are_found(leaves, root_at(leaves, newer));
    let index = index_of(leaves);
    assert(root_at(leaves, index.lengths[root_at(leaves, older)] as int) == root_at(leaves, older));
    assert(root_at(leaves, index.lengths[root_at(leaves, newer)] as int) == root_at(leaves, newer));
}

/// Whatever proof of growth is made is one from a length with the older root to a
/// length with the newer root that is no smaller.
pub proof fn law_growth_proofs_are_of_the_roots(
    leaves: Leaves,
    old_root: Seq<char>,
    new_root: Seq<char>,
)
    ensures
        consistency_of(leaves, old_root, new_root) matches Ok(bundle) ==> exists|
            older: int,
            newer: int,
        |
            {
                &&& 1 <= older <= newer <= leaves.len()
                &&& #[trigger] root_at(leaves, older) == old_root
                &&& #[trigger] root_at(leaves, newer) == new_root
                &&& bundle == proof_bundle(leaves.take(newer), seq![older as nat], Seq::empty())
            },
{
    law_roots_are_found(leaves, old_root);
    law_roots_are_found(leaves, new_root);
    if let Ok(bundle) = consistency_of(leaves, old_root, new_root) {
        let older = index_of(leaves).lengths[old_root] as int;
        let newer = index_of(leaves).lengths[new_root] as int;
        assert(seq![older as nat][0] == older);
        assert(root_at(leaves, older) == old_root && root_at(leaves, newer) == new_root);
    }
}

/// Whatever proof of membership is made is one for a length with the root, and for
/// positions below that length at which the leaves stand.
pub proof fn law_membership_proofs_are_of_the_leaves(
    leaves: Leaves,
    root: Seq<char>,
    included: Leaves,
)
    ensures
        inclusion_of(leaves, root, included) matches Ok(bundle) ==> {
            &&& bundle.nodes.len() == included.len()
            &&& exists|length: int|
                {
                    &&& 1 <= length <= leaves.len()
                    &&& #[trigger] root_at(leaves, length) == root
                    &&& bundle == proof_bundle(leaves.take(length), Seq::empty(), bundle.nodes)
                    &&& forall|i: int|
                        0 <= i < included.len() ==> {
                            &&& (#[trigger] bundle.nodes[i]) % 2 == 0
                            &&& bundle.nodes[i] / 2 < length
                            &&& leaves[bundle.nodes[i] as int / 2] == included[i]
                        }
                }
        },
{
    law_roots_are_found(leaves, root);
    lemma_index_of(leaves);
    lemma_leaf_nodes_even(leaves, included);
    if let Ok(bundle) = inclusion_of(leaves, root, included) {
        let length = index_of(leaves).lengths[root] as int;
        assert(root_at(leaves, length) == root);
        assert forall|i: int| 0 <= i < included.len() implies {
            &&& (#[trigger] bundle.nodes[i]) % 2 == 0
            &&& bundle.nodes[i] / 2 < length
            &&& leaves[bundle.nodes[i] as int / 2] == included[i]
        } by {
            assert(bundle.nodes[i] == index_of(leaves).nodes[included[i]]);
        }
    }
}

/// That the log shrank is never proved: where the older root was last had after the
/// newer one, there is no bundle.
pub proof fn law_shrinking_is_not_proved(leaves: Leaves, older: int, newer: int)
    requires
        1 <= newer < older <= leaves.len(),
        forall|n: int|
            newer < n <= leaves.len() ==> #[trigger] root_at(leaves, n) != root_at(leaves, newer),
    ensures
        consistency_of(leaves, root_at(leaves, older), root_at(leaves, newer)) == Err::<
            BundleView,
            _,
        >(ErrorView::BundleFailure("tries to prove later value comes before earlier"@)),
{
    let old_root = root_at(leaves, older);
    let new_root = root_at(leaves, newer);
    law_roots_are_found(leaves, old_root);
    law_roots_are_found(leaves, new_root);
    let index = index_of(leaves);
    let old_length = index.lengths[old_root];
    assert(root_at(leaves, index.lengths[new_root] as int) == new_root);
    assert(seq![old_length][0] > index.lengths[new_root]);
}

/// No proof is made for a root that the log never had.
pub proof fn law_unknown_roots_are_refused(leaves: Leaves, root: Seq<char>, other: Seq<char>)
    requires
        forall|n: int| 1 <= n <= leaves.len() ==> #[trigger] root_at(leaves, n) != root,
    ensures
        consistency_of(leaves, root, other) == Err::<BundleView, _>(ErrorView::RootNotFound(root)),
        consistency_of(leaves, other, root) is Err,
        forall|included: Leaves| #[trigger]
            inclusion_of(leaves, root, included) == Err::<BundleView, _>(
                ErrorView::RootNotFound(root),
            ),
{
    law_roots_are_found(leaves, root);
}

/// That leaves were in the log at some length can be proved from the root that it
/// had then, unless one of them was added once more afterwards.
pub proof fn law_membership_is_proved(leaves: Leaves, length: int, included: Leaves)
    requires
        1 <= length <= leaves.len(),
        included.len() > 0,
        forall|i: int|
            0 <= i < included.len() ==> leaves.take(length).contains(#[trigger] included[i]),
        forall|i: int, j: int|
            0 <= i < included.len() && length <= j < leaves.len() ==> #[trigger] leaves[j]
                != #[trigger] included[i],
    ensures
        inclusion_of(leaves, root_at(leaves, length), included) is Ok,
{
    let index = index_of(leaves);
    law_roots_are_found(leaves, root_at(leaves, length));
    let found = index.lengths[root_at(leaves, length)];
    assert forall|i: int| 0 <= i < included.len() implies {
        &&& index.nodes.contains_key(#[trigger] included[i])
        &&& index.nodes[included[i]] < 2 * found
    } by {
        let leaf = included[i];
        law_leaves_are_found(leaves, leaf);
        let k = choose|k: int| 0 <= k < length && leaves.take(length)[k] == leaf;
        assert(leaves[k] == leaf);
        let position = index.nodes[leaf] as int / 2;
        if position >= length {
            assert(leaves[position] != included[i]);
        }
    }
    lemma_leaf_nodes_found(leaves, included);
    lemma_leaf_nodes_even(leaves, included);
}

/// Where every leaf is found, so are the nodes of them all.
proof fn lemma_leaf_nodes_found(leaves: Leaves, included: Leaves)
    requires
        forall|i: int|
            0 <= i < included.len() ==> index_of(leaves).nodes.contains_key(
                #[trigger] included[i],
            ),
    ensures
        index_of(leaves).leaf_nodes(included) is Ok,
    decreases included.len(),
{
    if included.len() > 0 {
        let shorter = included.drop_last();
        assert forall|i: int| 0 <= i < shorter.len() implies index_of(leaves).nodes.contains_key(
            #[trigger] shorter[i],
        ) by {
            assert(shorter[i] == included[i]);
        }
        lemma_leaf_nodes_found(leaves, shorter);
        assert(index_of(leaves).nodes.contains_key(included[included.len() - 1]));
    }
}

/// The membership of a leaf that the log does not have is not proved.
pub proof fn law_unknown_leaves_are_refused(
    leaves: Leaves,
    root: Seq<char>,
    included: Leaves,
    i: int,
)
    requires
        0 <= i < included.len(),
        !leaves.contains(included[i]),
    ensures
        inclusion_of(leaves, root, included) is Err,
{
    law_leaves_are_found(leaves, included[i]);
    lemma_leaf_nodes_even(leaves, included);
    if index_of(leaves).leaf_nodes(included) is Ok {
        let nodes = index_of(leaves).leaf_nodes(included)->Ok_0;
        assert(nodes[i] == index_of(leaves).nodes[included[i]]);
    }
}

/// The membership of a leaf is not proved for a root that is older than the leaf.
pub proof fn law_newer_leaves_are_refused(
    leaves: Leaves,
    length: int,
    included: Leaves,
    i: int,
)
    requires
        1 <= length <= leaves.len(),
        forall|n: int|
            length < n <= leaves.len() ==> #[trigger] root_at(leaves, n) != root_at(leaves, length),
        0 <= i < included.len(),
        !leaves.take(length).contains(included[i]),
    ensures
        inclusion_of(leaves, root_at(leaves, length), included) is Err,
{
    let index = index_of(leaves);
    let root = root_at(leaves, length);
    law_roots_are_found(leaves, root);
    law_leaves_are_found(leaves, included[i]);
    lemma_leaf_nodes_even(leaves, included);
    assert(root_at(leaves, index.lengths[root] as int) == root);
    if index.leaf_nodes(included) is Ok {
        let nodes = index.leaf_nodes(included)->Ok_0;
        let position = nodes[i] as int / 2;
        if nodes[i] < 2 * length {
            assert(leaves.take(length)[position] == included[i]);
        }
    }
}

/// A proof of growth stays the same when a leaf is added, unless the log gets one
/// of the two roots once more.
pub proof fn law_growth_proofs_stay(
    leaves: Leaves,
    added: (Seq<char>, Seq<char>),
    old_root: Seq<char>,
    new_root: Seq<char>,
)
    requires
        log_root(leaves.push(added)) != old_root,
        log_root(leaves.push(added)) != new_root,
    ensures
        consistency_of(leaves.push(added), old_root, new_root) == consistency_of(
            leaves,
            old_root,
            new_root,
        ),
{
    let longer = leaves.push(added);
    assert(longer.drop_last() =~= leaves);
    lemma_index_of(leaves);
    if index_of(leaves).lengths.contains_key(new_root) {
        let length = index_of(leaves).lengths[new_root] as int;
        assert(longer.take(length) =~= leaves.take(length));
    }
}

/// A proof of membership stays the same when a leaf is added, unless that is one of
/// the leaves of the proof or the log gets the root once more.
pub proof fn law_membership_proofs_stay(
    leaves: Leaves,
    added: (Seq<char>, Seq<char>),
    root: Seq<char>,
    included: Leaves,
)
    requires
        log_root(leaves.push(added)) != root,
        !included.contains(added),
    ensures
        inclusion_of(leaves.push(added), root, included) == inclusion_of(leaves, root, included),
{
    let longer = leaves.push(added);
    assert(longer.drop_last() =~= leaves);
    lemma_index_of(leaves);
    lemma_leaf_nodes_stay(leaves, added, included);
    if index_of(leaves).lengths.contains_key(root) {
        let length = index_of(leaves).lengths[root] as int;
        assert(longer.take(length) =~= leaves.take(length));
    }
}

/// The nodes of leaves stay the same when another leaf is added.
proof fn lemma_leaf_nodes_stay(leaves: Leaves, added: (Seq<char>, Seq<char>), included: Leaves)
    requires
        !included.contains(added),
    ensures
        index_of(leaves.push(added)).leaf_nodes(included) == index_of(leaves).leaf_nodes(included),
    decreases included.len(),
{
    assert(leaves.push(added).drop_last() =~= leaves);
    if included.len() > 0 {
        let shorter = included.drop_last();
        if shorter.contains(added) {
            let i = choose|i: int| 0 <= i < shorter.len() && shorter[i] == added;
            assert(included[i] == added);
        }
        lemma_leaf_nodes_stay(leaves, added, shorter);
        assert(included[included.len() - 1] != added);
    }
}

} // verus!
