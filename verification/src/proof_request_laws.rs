//! What callers of the transparency log get, whatever they ask for.
use vstd::prelude::*;

use crate::hash::{leaf_views, DynHash, LogLeaf};
use crate::proof_data::{index_of, lemma_leaf_nodes_even, process, ProofData};
use crate::proof_index::{DataServiceError, ErrorView, IndexView, ProofIndex};
use crate::proof_laws::{law_leaves_are_found, law_roots_are_found, root_at};
use crate::proof_log::{
    bundle_beginnings, bundle_hashes, bundle_length, bundle_message, bundle_nodes, log_root, nats,
    proof_hashes, Leaves, LogProofBundle,
};

verus! {

/// Whether the log with `leaves` had `root` with `length` leaves, and with no more.
pub open spec fn had_last(leaves: Leaves, root: Seq<char>, length: int) -> bool {
    &&& 1 <= length <= leaves.len()
    &&& log_root(leaves.take(length)) == root
    &&& forall|n: int| length < n <= leaves.len() ==> log_root(#[trigger] leaves.take(n)) != root
}

/// Whether the log with `leaves` never had `root`.
pub open spec fn never_had(leaves: Leaves, root: Seq<char>) -> bool {
    forall|n: int| 1 <= n <= leaves.len() ==> log_root(#[trigger] leaves.take(n)) != root
}

/// Whether `leaf` stands at `position` among `leaves`, and nowhere behind it.
pub open spec fn stands_last(leaves: Leaves, leaf: LogLeaf, position: int) -> bool {
    &&& 0 <= position < leaves.len()
    &&& leaves[position] == (leaf.log_id@, leaf.record_id@)
    &&& forall|i: int|
        position < i < leaves.len() ==> #[trigger] leaves[i] != (leaf.log_id@, leaf.record_id@)
}

/// Whether `leaf` is among `leaves`.
pub open spec fn stands(leaves: Leaves, leaf: LogLeaf) -> bool {
    leaves.contains((leaf.log_id@, leaf.record_id@))
}

proof fn lemma_root(leaves: Leaves, root: Seq<char>)
    ensures
        never_had(leaves, root) <==> !index_of(leaves).lengths.contains_key(root),
        forall|n: int| #[trigger]
            had_last(leaves, root, n) ==> index_of(leaves).lengths.contains_key(root)
                && index_of(leaves).lengths[root] == n,
{
    law_roots_are_found(leaves, root);
    let index = index_of(leaves);
    if index.lengths.contains_key(root) {
        let length = index.lengths[root] as int;
        assert(log_root(leaves.take(length)) == root_at(leaves, length));
        assert forall|n: int| #[trigger] had_last(leaves, root, n) implies length == n by {
            assert(root_at(leaves, n) == root);
            if n < length {
                assert(log_root(leaves.take(length)) != root);
            }
        }
    } else {
        assert forall|n: int| 1 <= n <= leaves.len() implies log_root(#[trigger] leaves.take(n))
            != root by {
            assert(root_at(leaves, n) == log_root(leaves.take(n)));
        }
        assert forall|n: int| !(#[trigger] had_last(leaves, root, n)) by {
            assert(root_at(leaves, n) == log_root(leaves.take(n)));
        }
    }
}

/// Asked to prove that the log only grew between two roots, the log says which root
/// it never had, the older one first; refuses where it had the older root with more
/// leaves; and otherwise gives the proof for the lengths that it had them with last.
pub proof fn law_growth_is_proved_or_refused(
    data: ProofData,
    old_root: DynHash,
    new_root: DynHash,
    result: Result<LogProofBundle, DataServiceError>,
    older: int,
    newer: int,
)
    requires
        data.wf(),
        call_ensures(ProofData::consistency, (&data, &old_root, &new_root), result),
    ensures
        never_had(data@, old_root@) ==> (result matches Err(DataServiceError::RootNotFound(root))
            && root@ == old_root@),
        !never_had(data@, old_root@) && never_had(data@, new_root@) ==> (result matches Err(
            DataServiceError::RootNotFound(root),
        ) && root@ == new_root@),
        had_last(data@, old_root@, older) && had_last(data@, new_root@, newer) && older > newer
            ==> (result matches Err(DataServiceError::BundleFailure(reason)) && reason@
            == "tries to prove later value comes before earlier"@),
        had_last(data@, old_root@, older) && had_last(data@, new_root@, newer) && older <= newer
            ==> {
            &&& result matches Ok(bundle)
            &&& bundle_length(bundle) == newer % 0x1_0000_0000
            &&& bundle_beginnings(bundle) == seq![(older % 0x1_0000_0000) as nat]
            &&& bundle_nodes(bundle).len() == 0
            &&& bundle_hashes(bundle) == proof_hashes(
                data@.take(newer),
                seq![older as nat],
                Seq::empty(),
            )
        },
        call_requires(ProofData::consistency, (&data, &old_root, &new_root)),
{
    lemma_root(data@, old_root@);
    lemma_root(data@, new_root@);
    if had_last(data@, old_root@, older) && had_last(data@, new_root@, newer) {
        let asked = seq![older as nat];
        assert(asked[0] == older);
        assert(data@.take(newer).len() == newer);
        if let Ok(bundle) = result {
            assert(bundle@.beginnings == bundle_beginnings(bundle));
            assert(bundle_beginnings(bundle) =~= seq![(older % 0x1_0000_0000) as nat]);
        }
    }
}

/// The nodes of leaves, or the first leaf that has none.
proof fn lemma_nodes(leaves: Leaves, included: Seq<LogLeaf>)
    ensures
        (forall|i: int| 0 <= i < included.len() ==> stands(leaves, #[trigger] included[i]))
            ==> index_of(leaves).leaf_nodes(leaf_views(included)) is Ok,
        forall|k: int|
            0 <= k < included.len() && !stands(leaves, #[trigger] included[k]) && (forall|i: int|
                0 <= i < k ==> stands(leaves, #[trigger] included[i])) ==> index_of(
                leaves,
            ).leaf_nodes(leaf_views(included)) == Err::<Seq<nat>, _>(
                ErrorView::LeafNotFound((included[k].log_id@, included[k].record_id@)),
            ),
    decreases included.len(),
{
    let index = index_of(leaves);
    if included.len() > 0 {
        let shorter = included.drop_last();
        lemma_nodes(leaves, shorter);
        assert(leaf_views(included).drop_last() =~= leaf_views(shorter));
        let last = included.last();
        assert(leaf_views(included).last() == (last.log_id@, last.record_id@));
        law_leaves_are_found(leaves, (last.log_id@, last.record_id@));
        assert forall|i: int| 0 <= i < shorter.len() implies included[i]
            == #[trigger] shorter[i] by {}
        if forall|i: int| 0 <= i < included.len() ==> stands(leaves, #[trigger] included[i]) {
            assert forall|i: int| 0 <= i < shorter.len() implies stands(
                leaves,
                #[trigger] shorter[i],
            ) by {
                assert(stands(leaves, included[i]));
            }
            assert(stands(leaves, included[included.len() - 1]));
        }
        assert forall|k: int|
            0 <= k < included.len() && !stands(leaves, #[trigger] included[k]) && (forall|i: int|
                0 <= i < k ==> stands(leaves, #[trigger] included[i])) implies index.leaf_nodes(
            leaf_views(included),
        ) == Err::<Seq<nat>, _>(
            ErrorView::LeafNotFound((included[k].log_id@, included[k].record_id@)),
        ) by {
            assert forall|i: int| 0 <= i < shorter.len() && i < k implies stands(
                leaves,
                #[trigger] shorter[i],
            ) by {
                assert(stands(leaves, included[i]));
            }
            if k < shorter.len() {
                assert(!stands(leaves, shorter[k]));
            }
        }
    }
}

/// Asked to prove that leaves were in the log with some root, the log says so where
/// it never had the root; otherwise which leaf it does not have, the first of them;
/// refuses leaves that came after the root, and to prove nothing; and otherwise gives
/// the proof for the length that it had the root with last and the positions at which
/// the leaves stand last.
pub proof fn law_membership_is_proved_or_refused(
    data: ProofData,
    root: DynHash,
    leaves: &[LogLeaf],
    result: Result<LogProofBundle, DataServiceError>,
    length: int,
    positions: Seq<int>,
)
    requires
        data.wf(),
        call_ensures(ProofData::inclusion, (&data, &root, leaves), result),
    ensures
        never_had(data@, root@) ==> (result matches Err(DataServiceError::RootNotFound(unknown))
            && unknown@ == root@),
        forall|k: int|
            !never_had(data@, root@) && 0 <= k < leaves@.len() && !stands(
                data@,
                #[trigger] leaves@[k],
            ) && (forall|i: int| 0 <= i < k ==> stands(data@, #[trigger] leaves@[i])) ==> {
                &&& result matches Err(DataServiceError::LeafNotFound(unknown))
                &&& unknown.log_id@ == leaves@[k].log_id@
                &&& unknown.record_id@ == leaves@[k].record_id@
            },
        had_last(data@, root@, length) && positions.len() == leaves@.len() && (forall|i: int|
            0 <= i < positions.len() ==> stands_last(
                data@,
                leaves@[i],
                #[trigger] positions[i],
            )) ==> {
            &&& leaves@.len() == 0 ==> (result matches Err(DataServiceError::BundleFailure(reason))
                && reason@ == "A bundle can not be made from no proofs"@)
            &&& (exists|i: int| 0 <= i < positions.len() && #[trigger] positions[i] >= length)
                ==> (result matches Err(DataServiceError::BundleFailure(reason)) && reason@
                == "leaf newer than when it should be included"@)
            &&& leaves@.len() > 0 && (forall|i: int|
                0 <= i < positions.len() ==> #[trigger] positions[i] < length) ==> {
                &&& result matches Ok(bundle)
                &&& bundle_length(bundle) == length % 0x1_0000_0000
                &&& bundle_beginnings(bundle).len() == 0
                &&& bundle_nodes(bundle).len() == leaves@.len()
                &&& forall|i: int|
                    0 <= i < leaves@.len() ==> #[trigger] bundle_nodes(bundle)[i] == 2
                        * positions[i]
                &&& bundle_hashes(bundle) == proof_hashes(
                    data@.take(length),
                    Seq::empty(),
                    bundle_nodes(bundle),
                )
            }
        },
        call_requires(ProofData::inclusion, (&data, &root, leaves)),
{
    let all = data@;
    let index = index_of(all);
    let included = leaf_views(leaves@);
    lemma_root(all, root@);
    lemma_nodes(all, leaves@);
    lemma_leaf_nodes_even(all, included);
    if had_last(all, root@, length) && positions.len() == leaves@.len() && (forall|i: int|
        0 <= i < positions.len() ==> stands_last(all, leaves@[i], #[trigger] positions[i])) {
        assert forall|i: int| 0 <= i < leaves@.len() implies {
            &&& stands(all, #[trigger] leaves@[i])
            &&& index.nodes.contains_key(included[i])
            &&& index.nodes[included[i]] == 2 * positions[i]
        } by {
            let leaf = leaves@[i];
            let p = positions[i];
            assert(stands_last(all, leaves@[i], positions[i]));
            assert(included[i] == (leaf.log_id@, leaf.record_id@));
            assert(all[p] == included[i]);
            law_leaves_are_found(all, included[i]);
            let found = index.nodes[included[i]] as int / 2;
            if found < p {
                assert(all[p] != included[i]);
            }
            if p < found {
                assert(all[found] != included[i]);
            }
        }
        let nodes = index.leaf_nodes(included)->Ok_0;
        assert forall|i: int| 0 <= i < nodes.len() implies #[trigger] nodes[i] == 2
            * positions[i] by {
            assert(stands(all, leaves@[i]));
        }
        if exists|i: int| 0 <= i < positions.len() && #[trigger] positions[i] >= length {
            let i = choose|i: int| 0 <= i < positions.len() && #[trigger] positions[i] >= length;
            assert(nodes[i] >= 2 * length);
        }
        assert(all.take(length).len() == length);
        if let Ok(bundle) = result {
            assert(bundle@.nodes == bundle_nodes(bundle));
            assert(bundle@.beginnings == bundle_beginnings(bundle));
        }
    }
}

/// A leaf goes behind all others. The log takes it as long as its tree fits in
/// memory, which can be found out.
pub proof fn law_leaves_go_behind(data: &mut ProofData, leaf: LogLeaf, room: bool)
    requires
        old(data).wf(),
        call_ensures(process, (data, leaf), ()),
        call_ensures(ProofData::has_room, (&*old(data),), room),
    ensures
        call_requires(ProofData::has_room, (&*old(data),)),
        room <==> 128 * (old(data)@.len() + 1) <= isize::MAX,
        room ==> {
            &&& call_requires(process, (data, leaf))
            &&& final(data).wf()
            &&& final(data)@.len() == old(data)@.len() + 1
            &&& final(data)@.drop_last() == old(data)@
            &&& final(data)@.last() == (leaf.log_id@, leaf.record_id@)
        },
{
    assert(old(data)@.push(leaf@).drop_last() =~= old(data)@);
}

/// A log begins without leaves, or with one.
pub proof fn law_logs_begin_small(
    init: LogLeaf,
    empty: ProofData,
    unset: ProofData,
    one: ProofData,
)
    requires
        call_ensures(ProofData::empty, (), empty),
        call_ensures(ProofData::default, (), unset),
        call_ensures(ProofData::new, (init,), one),
    ensures
        empty.wf() && unset.wf() && one.wf(),
        empty@.len() == 0,
        unset@.len() == 0,
        one@.len() == 1,
        one@[0] == (init.log_id@, init.record_id@),
        call_requires(ProofData::new, (init,)),
{
}

/// The message of a bundle is made of all that it holds.
pub proof fn law_messages_are_of_whole_bundles(bundle: LogProofBundle, message: Vec<u8>)
    requires
        call_ensures(LogProofBundle::encode, (bundle,), message),
    ensures
        message@ == bundle_message(
            bundle_length(bundle),
            bundle_beginnings(bundle),
            bundle_nodes(bundle),
            bundle_hashes(bundle),
        ),
        call_requires(LogProofBundle::encode, (bundle,)),
{
}

/// An index begins with nothing in it, and what is added changes nothing but the
/// length of one root and the node of one leaf.
pub proof fn law_index_keeps_what_is_added(
    fresh: ProofIndex,
    index: &mut ProofIndex,
    leaf: LogLeaf,
    node: usize,
    root: DynHash,
    length: usize,
)
    requires
        call_ensures(ProofIndex::new, (), fresh),
        call_ensures(ProofIndex::extend, (index, leaf, node, root, length), ()),
    ensures
        forall|other: Seq<char>| !(#[trigger] fresh@.lengths.contains_key(other)),
        forall|other: (Seq<char>, Seq<char>)| !(#[trigger] fresh@.nodes.contains_key(other)),
        ({
            let added = (leaf.log_id@, leaf.record_id@);
            let (before, after) = (old(index)@, final(index)@);
            &&& after.lengths.contains_key(root@) && after.lengths[root@] == length
            &&& after.nodes.contains_key(added) && after.nodes[added] == node
            &&& forall|other: Seq<char>| #![trigger after.lengths.contains_key(other)]
                other != root@ ==> {
                    &&& after.lengths.contains_key(other) == before.lengths.contains_key(other)
                    &&& after.lengths.contains_key(other) ==> after.lengths[other]
                        == before.lengths[other]
                }
            &&& forall|other: (Seq<char>, Seq<char>)| #![trigger after.nodes.contains_key(other)]
                other != added ==> {
                    &&& after.nodes.contains_key(other) == before.nodes.contains_key(other)
                    &&& after.nodes.contains_key(other) ==> after.nodes[other]
                        == before.nodes[other]
                }
        }),
        call_requires(ProofIndex::extend, (index, leaf, node, root, length)),
{
}

/// An index finds the lengths of two roots, or says which of them it does not have,
/// the first of them.
pub proof fn law_index_finds_lengths(
    index: ProofIndex,
    old_root: DynHash,
    new_root: DynHash,
    result: Result<(usize, usize), DataServiceError>,
)
    requires
        call_ensures(ProofIndex::length_pair, (&index, &old_root, &new_root), result),
    ensures
        ({
            let lengths = index@.lengths;
            &&& !lengths.contains_key(old_root@) ==> (result matches Err(
                DataServiceError::RootNotFound(root),
            ) && root@ == old_root@)
            &&& lengths.contains_key(old_root@) && !lengths.contains_key(new_root@) ==> (
            result matches Err(DataServiceError::RootNotFound(root)) && root@ == new_root@)
            &&& lengths.contains_key(old_root@) && lengths.contains_key(new_root@) ==> {
                &&& result matches Ok((older, newer))
                &&& older == lengths[old_root@]
                &&& newer == lengths[new_root@]
            }
        }),
        call_requires(ProofIndex::length_pair, (&index, &old_root, &new_root)),
{
}

/// An index finds the length of a root and the nodes of all leaves, each in its
/// place, or says what it does not have: the root, or the first of the leaves.
pub proof fn law_index_finds_nodes(
    index: ProofIndex,
    root: DynHash,
    leaves: &[LogLeaf],
    result: Result<(usize, Vec<usize>), DataServiceError>,
)
    requires
        call_ensures(ProofIndex::length_and_nodes, (&index, &root, leaves), result),
    ensures
        !index@.lengths.contains_key(root@) ==> (result matches Err(
            DataServiceError::RootNotFound(unknown),
        ) && unknown@ == root@),
        forall|k: int|
            index@.lengths.contains_key(root@) && 0 <= k < leaves@.len()
                && !index@.nodes.contains_key((#[trigger] leaves@[k])@) && (forall|i: int|
                0 <= i < k ==> index@.nodes.contains_key((#[trigger] leaves@[i])@)) ==> {
                &&& result matches Err(DataServiceError::LeafNotFound(unknown))
                &&& unknown.log_id@ == leaves@[k].log_id@
                &&& unknown.record_id@ == leaves@[k].record_id@
            },
        index@.lengths.contains_key(root@) && (forall|i: int|
            0 <= i < leaves@.len() ==> index@.nodes.contains_key((#[trigger] leaves@[i])@)) ==> {
            &&& result matches Ok((length, nodes))
            &&& length == index@.lengths[root@]
            &&& nodes@.len() == leaves@.len()
            &&& forall|i: int|
                0 <= i < leaves@.len() ==> #[trigger] nodes@[i] == index@.nodes[leaves@[i]@]
        },
        call_requires(ProofIndex::length_and_nodes, (&index, &root, leaves)),
{
    lemma_index_nodes(index@, leaves@);
    if let Ok((length, nodes)) = result {
        assert forall|i: int| 0 <= i < nodes@.len() implies #[trigger] nodes@[i] == nats(
            nodes@,
        )[i] by {}
        assert(nats(nodes@).len() == nodes@.len());
    }
}

proof fn lemma_index_nodes(index: IndexView, leaves: Seq<LogLeaf>)
    ensures
        (forall|i: int|
            0 <= i < leaves.len() ==> index.nodes.contains_key((#[trigger] leaves[i])@)) ==> {
            &&& index.leaf_nodes(leaf_views(leaves)) matches Ok(nodes)
            &&& nodes.len() == leaves.len()
            &&& forall|i: int|
                0 <= i < leaves.len() ==> #[trigger] nodes[i] == index.nodes[leaves[i]@]
        },
        forall|k: int|
            0 <= k < leaves.len() && !index.nodes.contains_key((#[trigger] leaves[k])@) && (
            forall|i: int| 0 <= i < k ==> index.nodes.contains_key((#[trigger] leaves[i])@))
                ==> index.leaf_nodes(leaf_views(leaves)) == Err::<Seq<nat>, _>(
                ErrorView::LeafNotFound(leaves[k]@),
            ),
    decreases leaves.len(),
{
    if leaves.len() > 0 {
        let shorter = leaves.drop_last();
        lemma_index_nodes(index, shorter);
        assert(leaf_views(leaves).drop_last() =~= leaf_views(shorter));
        assert(leaf_views(leaves).last() == leaves.last()@);
        assert forall|i: int| 0 <= i < shorter.len() implies leaves[i]
            == #[trigger] shorter[i] by {}
        if forall|i: int|
            0 <= i < leaves.len() ==> index.nodes.contains_key((#[trigger] leaves[i])@) {
            assert forall|i: int| 0 <= i < shorter.len() implies index.nodes.contains_key(
                (#[trigger] shorter[i])@,
            ) by {
                assert(index.nodes.contains_key(leaves[i]@));
            }
            assert(index.nodes.contains_key(leaves[leaves.len() - 1]@));
        }
        assert forall|k: int|
            0 <= k < leaves.len() && !index.nodes.contains_key((#[trigger] leaves[k])@) && (
            forall|i: int|
                0 <= i < k ==> index.nodes.contains_key((#[trigger] leaves[i])@)) implies
            index.leaf_nodes(leaf_views(leaves)) == Err::<Seq<nat>, _>(
            ErrorView::LeafNotFound(leaves[k]@),
        ) by {
            assert forall|i: int| 0 <= i < shorter.len() && i < k implies index.nodes.contains_key(
                (#[trigger] shorter[i])@,
            ) by {
                assert(index.nodes.contains_key(leaves[i]@));
            }
            if k < shorter.len() {
                assert(!index.nodes.contains_key(shorter[k]@));
            }
        }
    }
}

} // verus!
