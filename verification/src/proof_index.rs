//! Where the roots and the leaves of the transparency log are found.
use vstd::hash_map::StringHashMap;
use vstd::prelude::*;
use vstd::string::*;

use crate::hash::{is_hash_text, leaf_views, lemma_hash_text_has_no_slash, DynHash, LogLeaf};
use crate::proof_log::nats;

verus! {

/// Why there is no proof.
#[derive(Debug, PartialEq, Eq)]
pub enum DataServiceError {
    /// The log never had the root.
    RootNotFound(DynHash),
    /// The log does not have the leaf.
    LeafNotFound(LogLeaf),
    /// The proofs could not be bundled.
    BundleFailure(String),
}

/// The model of [`DataServiceError`].
pub enum ErrorView {
    RootNotFound(Seq<char>),
    LeafNotFound((Seq<char>, Seq<char>)),
    BundleFailure(Seq<char>),
}

impl View for DataServiceError {
    type V = ErrorView;

    open spec fn view(&self) -> ErrorView {
        match self {
            DataServiceError::RootNotFound(root) => ErrorView::RootNotFound(root@),
            DataServiceError::LeafNotFound(leaf) => ErrorView::LeafNotFound(leaf@),
            DataServiceError::BundleFailure(reason) => ErrorView::BundleFailure(reason@),
        }
    }
}

/// The text under which a leaf is filed.
pub open spec fn leaf_key(leaf: (Seq<char>, Seq<char>)) -> Seq<char> {
    leaf.0 + "/"@ + leaf.1
}

/// Whether both identifiers of `leaf` are hash texts.
pub open spec fn is_leaf(leaf: (Seq<char>, Seq<char>)) -> bool {
    is_hash_text(leaf.0) && is_hash_text(leaf.1)
}

/// Different leaves are filed under different texts.
proof fn lemma_leaf_key_injective(a: (Seq<char>, Seq<char>), b: (Seq<char>, Seq<char>))
    requires
        is_leaf(a),
        is_leaf(b),
        leaf_key(a) == leaf_key(b),
    ensures
        a == b,
{
    reveal_strlit("/");
    lemma_hash_text_has_no_slash(a.0);
    lemma_hash_text_has_no_slash(b.0);
    let key = leaf_key(a);
    assert(key[a.0.len() as int] == '/');
    assert(leaf_key(b)[b.0.len() as int] == '/');
    if a.0.len() < b.0.len() {
        assert(leaf_key(b)[a.0.len() as int] == b.0[a.0.len() as int]);
        assert(b.0.contains('/'));
    }
    if b.0.len() < a.0.len() {
        assert(key[b.0.len() as int] == a.0[b.0.len() as int]);
        assert(a.0.contains('/'));
    }
    assert(key.take(a.0.len() as int) =~= a.0);
    assert(leaf_key(b).take(b.0.len() as int) =~= b.0);
    assert(key.skip(a.0.len() as int + 1) =~= a.1);
    assert(leaf_key(b).skip(b.0.len() as int + 1) =~= b.1);
}

/// The text under which a leaf is filed.
fn key_of(leaf: &LogLeaf) -> (key: String)
    ensures
        key@ == leaf_key(leaf@),
        is_leaf(leaf@),
{
    let mut key = String::from_str(leaf.log_id.as_str());
    key.append("/");
    key.append(leaf.record_id.as_str());
    key
}

/// The model of [`ProofIndex`].
#[verifier::ext_equal]
pub struct IndexView {
    /// The length that the log had with each root.
    pub lengths: Map<Seq<char>, nat>,
    /// The node of each leaf.
    pub nodes: Map<(Seq<char>, Seq<char>), nat>,
}

impl IndexView {
    /// An index that holds nothing.
    pub open spec fn empty() -> IndexView {
        IndexView { lengths: Map::empty(), nodes: Map::empty() }
    }

    /// The index with one more leaf and the root that the log has with it.
    pub open spec fn extended(
        self,
        leaf: (Seq<char>, Seq<char>),
        node: nat,
        root: Seq<char>,
        length: nat,
    ) -> IndexView {
        IndexView {
            lengths: self.lengths.insert(root, length),
            nodes: self.nodes.insert(leaf, node),
        }
    }

    /// The length that the log had with `root`.
    pub open spec fn length(self, root: Seq<char>) -> Result<nat, ErrorView> {
        if self.lengths.contains_key(root) {
            Ok(self.lengths[root])
        } else {
            Err(ErrorView::RootNotFound(root))
        }
    }

    /// The lengths that the log had with the two roots.
    pub open spec fn length_pair(self, old_root: Seq<char>, new_root: Seq<char>) -> Result<
        (nat, nat),
        ErrorView,
    > {
        match self.length(old_root) {
            Err(error) => Err(error),
            Ok(old_length) => match self.length(new_root) {
                Err(error) => Err(error),
                Ok(new_length) => Ok((old_length, new_length)),
            },
        }
    }

    /// The nodes of `leaves`, or the first of them that has none.
    pub open spec fn leaf_nodes(self, leaves: Seq<(Seq<char>, Seq<char>)>) -> Result<
        Seq<nat>,
        ErrorView,
    >
        decreases leaves.len(),
    {
        if leaves.len() == 0 {
            Ok(Seq::empty())
        } else {
            match self.leaf_nodes(leaves.drop_last()) {
                Err(error) => Err(error),
                Ok(nodes) => if self.nodes.contains_key(leaves.last()) {
                    Ok(nodes.push(self.nodes[leaves.last()]))
                } else {
                    Err(ErrorView::LeafNotFound(leaves.last()))
                },
            }
        }
    }

    /// The length that the log had with `root`, and the nodes of `leaves`.
    pub open spec fn length_and_nodes(
        self,
        root: Seq<char>,
        leaves: Seq<(Seq<char>, Seq<char>)>,
    ) -> Result<(nat, Seq<nat>), ErrorView> {
        match self.length(root) {
            Err(error) => Err(error),
            Ok(length) => match self.leaf_nodes(leaves) {
                Err(error) => Err(error),
                Ok(nodes) => Ok((length, nodes)),
            },
        }
    }
}

/// A leaf without a node is reported, whatever follows it.
proof fn lemma_leaf_nodes_error_stays(
    index: IndexView,
    leaves: Seq<(Seq<char>, Seq<char>)>,
    n: int,
)
    requires
        0 <= n <= leaves.len(),
        index.leaf_nodes(leaves.take(n)) is Err,
    ensures
        index.leaf_nodes(leaves) == index.leaf_nodes(leaves.take(n)),
    decreases leaves.len(),
{
    if n == leaves.len() {
        assert(leaves.take(n) =~= leaves);
    } else {
        assert(leaves.drop_last().take(n) =~= leaves.take(n));
        lemma_leaf_nodes_error_stays(index, leaves.drop_last(), n);
    }
}

/// The lengths that the transparency log had with its roots, and the nodes of its
/// leaves.
pub struct ProofIndex {
    leaf_index: StringHashMap<usize>,
    root_index: StringHashMap<usize>,
}

impl View for ProofIndex {
    type V = IndexView;

    closed spec fn view(&self) -> IndexView {
        IndexView {
            lengths: self.root_index@.map_values(|length: usize| length as nat),
            nodes: Map::new(
                |leaf: (Seq<char>, Seq<char>)|
                    is_leaf(leaf) && self.leaf_index@.contains_key(leaf_key(leaf)),
                |leaf: (Seq<char>, Seq<char>)| self.leaf_index@[leaf_key(leaf)] as nat,
            ),
        }
    }
}

impl ProofIndex {
    /// An index that holds nothing.
    pub fn new() -> (index: ProofIndex)
        ensures
            index@ == IndexView::empty(),
    {
        let index = ProofIndex {
            leaf_index: StringHashMap::new(),
            root_index: StringHashMap::new(),
        };
        assert(index@.lengths =~= Map::empty());
        assert(index@.nodes =~= Map::empty());
        index
    }

    /// Adds a leaf with its node, and the root and length that the log has with
    /// it.
    pub fn extend(&mut self, leaf: LogLeaf, node: usize, root: DynHash, length: usize)
        ensures
            final(self)@ == old(self)@.extended(leaf@, node as nat, root@, length as nat),
    {
        let key = key_of(&leaf);
        self.root_index.insert(String::from_str(root.as_str()), length);
        self.leaf_index.insert(key, node);
        proof {
            let after = old(self)@.extended(leaf@, node as nat, root@, length as nat);
            assert(self@.lengths =~= after.lengths);
            assert forall|other: (Seq<char>, Seq<char>)| #[trigger]
                self@.nodes.contains_key(other) <==> after.nodes.contains_key(other) by {
                if is_leaf(other) && leaf_key(other) == leaf_key(leaf@) {
                    lemma_leaf_key_injective(other, leaf@);
                }
            }
            assert forall|other: (Seq<char>, Seq<char>)| #[trigger]
                self@.nodes.contains_key(other) implies self@.nodes[other]
                == after.nodes[other] by {
                if leaf_key(other) == leaf_key(leaf@) {
                    lemma_leaf_key_injective(other, leaf@);
                }
            }
            assert(self@.nodes =~= after.nodes);
        }
    }

    /// The length that the log had with `root`.
    fn length(&self, root: &DynHash) -> (result: Result<usize, DataServiceError>)
        ensures
            (match result {
                Ok(length) => Ok(length as nat),
                Err(error) => Err(error@),
            }) == self@.length(root@),
    {
        match self.root_index.get(root.as_str()) {
            Some(length) => Ok(*length),
            None => Err(DataServiceError::RootNotFound(root.clone())),
        }
    }

    /// The lengths that the log had with the two roots.
    pub fn length_pair(&self, old_root: &DynHash, new_root: &DynHash) -> (result: Result<
        (usize, usize),
        DataServiceError,
    >)
        ensures
            (match result {
                Ok((old_length, new_length)) => Ok((old_length as nat, new_length as nat)),
                Err(error) => Err(error@),
            }) == self@.length_pair(old_root@, new_root@),
    {
        match self.length(old_root) {
            Err(error) => Err(error),
            Ok(old_length) => match self.length(new_root) {
                Err(error) => Err(error),
                Ok(new_length) => Ok((old_length, new_length)),
            },
        }
    }

    /// The length that the log had with `root`, and the nodes of `leaves`.
    pub fn length_and_nodes(&self, root: &DynHash, leaves: &[LogLeaf]) -> (result: Result<
        (usize, Vec<usize>),
        DataServiceError,
    >)
        ensures
            (match result {
                Ok((length, nodes)) => Ok((length as nat, nats(nodes@))),
                Err(error) => Err(error@),
            }) == self@.length_and_nodes(root@, leaf_views(leaves@)),
    {
        let length: usize = match self.length(root) {
            Err(error) => {
                return Err(error);
            },
            Ok(length) => length,
        };
        let mut nodes: Vec<usize> = Vec::new();
        let mut i: usize = 0;
        let ghost views = leaf_views(leaves@);
        assert(nats(nodes@) =~= Seq::empty());
        while i < leaves.len()
            invariant
                i <= leaves@.len(),
                views == leaf_views(leaves@),
                self@.leaf_nodes(views.take(i as int)) == Ok::<_, ErrorView>(nats(nodes@)),
                self@.length(root@) == Ok::<_, ErrorView>(length as nat),
            decreases leaves@.len() - i,
        {
            proof {
                assert(views.take(i + 1).drop_last() =~= views.take(i as int));
                assert(views.take(i + 1).last() == leaves@[i as int]@);
            }
            let key = key_of(&leaves[i]);
            let ghost before = nodes@;
            match self.leaf_index.get(key.as_str()) {
                Some(node) => {
                    nodes.push(*node);
                    assert(nats(nodes@) =~= nats(before).push(*node as nat));
                },
                None => {
                    proof {
                        lemma_leaf_nodes_error_stays(self@, views, i + 1);
                    }
                    return Err(DataServiceError::LeafNotFound(leaves[i].clone()));
                },
            }
            i = i + 1;
        }
        assert(views.take(i as int) =~= views);
        Ok((length, nodes))
    }
}

} // verus!
