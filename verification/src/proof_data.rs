//! The transparency log together with its index, and the proofs made from them.
use vstd::prelude::*;

use crate::hash::{leaf_views, DynHash, LogLeaf};
use crate::proof_index::{DataServiceError, ErrorView, IndexView, ProofIndex};
use crate::proof_log::{
    bundle_failure, entries, has_room, log_root, nats, proof_bundle, BundleView, Leaves,
    LogProofBundle, ProofLog,
};

verus! {

/// The index of a log with `leaves`: each root that the log had with the length it
/// had then, and each leaf with its node. A root or a leaf that comes up again
/// counts where it came up last.
pub open spec fn index_of(leaves: Leaves) -> IndexView
    decreases leaves.len(),
{
    if leaves.len() == 0 {
        IndexView::empty()
    } else {
        index_of(leaves.drop_last()).extended(
            leaves.last(),
            (2 * (leaves.len() - 1)) as nat,
            log_root(leaves),
            leaves.len(),
        )
    }
}

/// Proofs, or why they could not be bundled.
pub open spec fn bundled(
    leaves: Leaves,
    length: nat,
    consistent: Seq<nat>,
    included: Seq<nat>,
) -> Result<BundleView, ErrorView> {
    match bundle_failure(length, consistent, included) {
        Some(reason) => Err(ErrorView::BundleFailure(reason)),
        None => Ok(proof_bundle(leaves.take(length as int), consistent, included)),
    }
}

/// The proof that the log with `leaves` only grew from one root to the other.
pub open spec fn consistency_of(
    leaves: Leaves,
    old_root: Seq<char>,
    new_root: Seq<char>,
) -> Result<BundleView, ErrorView> {
    match index_of(leaves).length_pair(old_root, new_root) {
        Err(error) => Err(error),
        Ok((old_length, new_length)) => bundled(
            leaves,
            new_length,
            seq![old_length],
            Seq::empty(),
        ),
    }
}

/// The proof that the log with `leaves` had all of `included` with `root`.
pub open spec fn inclusion_of(leaves: Leaves, root: Seq<char>, included: Leaves) -> Result<
    BundleView,
    ErrorView,
> {
    match index_of(leaves).length_and_nodes(root, included) {
        Err(error) => Err(error),
        Ok((length, nodes)) => bundled(leaves, length, Seq::empty(), nodes),
    }
}

/// What an index holds: lengths that the log had, with their roots, and positions
/// of leaves.
pub proof fn lemma_index_of(leaves: Leaves)
    ensures
        forall|root: Seq<char>| #[trigger]
            index_of(leaves).lengths.contains_key(root) ==> {
                let length = index_of(leaves).lengths[root];
                1 <= length <= leaves.len() && log_root(leaves.take(length as int)) == root
            },
        forall|leaf: (Seq<char>, Seq<char>)| #[trigger]
            index_of(leaves).nodes.contains_key(leaf) ==> {
                let node = index_of(leaves).nodes[leaf];
                &&& node % 2 == 0
                &&& node / 2 < leaves.len()
                &&& leaves[node as int / 2] == leaf
            },
    decreases leaves.len(),
{
    if leaves.len() > 0 {
        let shorter = leaves.drop_last();
        let index = index_of(leaves);
        lemma_index_of(shorter);
        assert forall|root: Seq<char>| #[trigger] index.lengths.contains_key(root) implies {
            let length = index.lengths[root];
            1 <= length <= leaves.len() && log_root(leaves.take(length as int)) == root
        } by {
            if root == log_root(leaves) {
                assert(leaves.take(leaves.len() as int) =~= leaves);
            } else {
                assert(index_of(shorter).lengths.contains_key(root));
                let length = index.lengths[root];
                assert(leaves.take(length as int) =~= shorter.take(length as int));
            }
        }
        assert forall|leaf: (Seq<char>, Seq<char>)| #[trigger]
            index.nodes.contains_key(leaf) implies {
            let node = index.nodes[leaf];
            &&& node % 2 == 0
            &&& node / 2 < leaves.len()
            &&& leaves[node as int / 2] == leaf
        } by {
            if leaf != leaves.last() {
                assert(index_of(shorter).nodes.contains_key(leaf));
            }
        }
    }
}

/// The nodes found for leaves are those of leaves: their indices are even.
pub proof fn lemma_leaf_nodes_even(leaves: Leaves, included: Leaves)
    ensures
        index_of(leaves).leaf_nodes(included) matches Ok(nodes) ==> {
            &&& nodes.len() == included.len()
            &&& forall|i: int|
                0 <= i < nodes.len() ==> {
                    &&& (#[trigger] nodes[i]) % 2 == 0
                    &&& index_of(leaves).nodes.contains_key(included[i])
                    &&& nodes[i] == index_of(leaves).nodes[included[i]]
                }
        },
    decreases included.len(),
{
    lemma_index_of(leaves);
    if included.len() > 0 {
        lemma_leaf_nodes_even(leaves, included.drop_last());
    }
}

/// The transparency log together with its index.
pub struct ProofData {
    log: ProofLog,
    index: ProofIndex,
}

impl View for ProofData {
    type V = Leaves;

    closed spec fn view(&self) -> Leaves {
        entries(self.log)
    }
}

impl ProofData {
    /// Whether the index is that of the log.
    pub closed spec fn wf(&self) -> bool {
        self.index@ == index_of(entries(self.log))
    }

    /// A log without leaves.
    pub fn empty() -> (data: ProofData)
        ensures
            data.wf(),
            data@ == Seq::<(Seq<char>, Seq<char>)>::empty(),
    {
        ProofData { log: ProofLog::empty(), index: ProofIndex::new() }
    }

    /// A log with one leaf.
    pub fn new(init: LogLeaf) -> (data: ProofData)
        ensures
            data.wf(),
            data@ == seq![init@],
    {
        let mut data = ProofData::empty();
        process(&mut data, init);
        assert(data@ =~= seq![init@]);
        data
    }

    /// Whether there is room for one more leaf.
    pub fn has_room(&self) -> (room: bool)
        ensures
            room == has_room(self@.len()),
    {
        self.log.length() < isize::MAX as usize / 128
    }

    /// Generate a proof bundle for the consistency of the log across two times.
    pub fn consistency(&self, old_root: &DynHash, new_root: &DynHash) -> (result: Result<
        LogProofBundle,
        DataServiceError,
    >)
        requires
            self.wf(),
        ensures
            (match result {
                Ok(bundle) => Ok(bundle@),
                Err(error) => Err(error@),
            }) == consistency_of(self@, old_root@, new_root@),
    {
        proof {
            lemma_index_of(self@);
        }
        match self.index.length_pair(old_root, new_root) {
            Err(error) => Err(error),
            Ok((old_length, new_length)) => {
                let mut earlier: Vec<usize> = Vec::new();
                earlier.push(old_length);
                let none: Vec<usize> = Vec::new();
                proof {
                    assert(self.index@.lengths.contains_key(old_root@));
                    assert(self.index@.lengths.contains_key(new_root@));
                    assert(nats(earlier@) =~= seq![old_length as nat]);
                    assert(nats(none@) =~= Seq::empty());
                }
                match self.log.bundle(new_length, &earlier, &none) {
                    Ok(bundle) => Ok(bundle),
                    Err(reason) => Err(DataServiceError::BundleFailure(reason)),
                }
            },
        }
    }

    /// Generate a proof bundle for a group of inclusion proofs.
    pub fn inclusion(&self, root: &DynHash, leaves: &[LogLeaf]) -> (result: Result<
        LogProofBundle,
        DataServiceError,
    >)
        requires
            self.wf(),
        ensures
            (match result {
                Ok(bundle) => Ok(bundle@),
                Err(error) => Err(error@),
            }) == inclusion_of(self@, root@, leaf_views(leaves@)),
    {
        proof {
            lemma_index_of(self@);
            lemma_leaf_nodes_even(self@, leaf_views(leaves@));
        }
        match self.index.length_and_nodes(root, leaves) {
            Err(error) => Err(error),
            Ok((length, nodes)) => {
                let none: Vec<usize> = Vec::new();
                proof {
                    assert(self.index@.lengths.contains_key(root@));
                    assert(nats(none@) =~= Seq::empty());
                    assert forall|i: int| 0 <= i < nodes@.len() implies #[trigger] nodes@[i] % 2
                        == 0 by {
                        assert(nats(nodes@)[i] % 2 == 0);
                    }
                }
                match self.log.bundle(length, &none, &nodes) {
                    Ok(bundle) => Ok(bundle),
                    Err(reason) => Err(DataServiceError::BundleFailure(reason)),
                }
            },
        }
    }
}

impl Default for ProofData {
    fn default() -> (data: Self)
        ensures
            data.wf(),
            data@ == Seq::<(Seq<char>, Seq<char>)>::empty(),
    {
        ProofData::empty()
    }
}

/// Adds a leaf to the log.
pub fn process(data: &mut ProofData, leaf: LogLeaf)
    requires
        old(data).wf(),
        has_room(old(data)@.len()),
    ensures
        final(data).wf(),
        final(data)@ == old(data)@.push(leaf@),
{
    let node = data.log.push(leaf.log_id.as_str(), leaf.record_id.as_str());
    let (root, length) = data.log.checkpoint();
    data.index.extend(leaf, node, DynHash::from_text(root), length);
    proof {
        assert(data@.drop_last() =~= old(data)@);
    }
}

} // verus!
