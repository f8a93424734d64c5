//! The transparency log: a Merkle tree over the leaves of all package logs.
use std::str::FromStr;
use vstd::prelude::*;
use warg_crypto::hash::{AnyHash, Sha256};
use warg_transparency::log::{LogBuilder, LogData, Node, VecLog};

use crate::hash::is_hash_text;

verus! {

/// The leaves of the transparency log, oldest first. A leaf is the identifier of a
/// package log and that of a record.
pub type Leaves = Seq<(Seq<char>, Seq<char>)>;

/// A log whose node hashes are kept in memory.
#[verifier::external_body]
pub struct ProofLog {
    log: VecLog<Sha256, warg_protocol::registry::LogLeaf>,
}

/// The leaves of `log`, oldest first.
pub uninterp spec fn entries(log: ProofLog) -> Seq<(Seq<char>, Seq<char>)>;

/// The root hash of a log with `leaves`, in textual form.
pub uninterp spec fn log_root(leaves: Seq<(Seq<char>, Seq<char>)>) -> Seq<char>;

/// A bundle of proofs about one point in the history of the log. The outside type
/// is kept whole, because only it can hold every node index that a log can have.
#[verifier::external_body]
pub struct LogProofBundle {
    bundle: warg_transparency::log::LogProofBundle<Sha256, warg_protocol::registry::LogLeaf>,
}

/// The length of the log that the proofs of `bundle` are about.
pub uninterp spec fn bundle_length(bundle: LogProofBundle) -> nat;

/// The lengths of the logs that `bundle` proves to be beginnings of that log.
pub uninterp spec fn bundle_beginnings(bundle: LogProofBundle) -> Seq<nat>;

/// The indices of the nodes that `bundle` proves to be leaves of that log.
pub uninterp spec fn bundle_nodes(bundle: LogProofBundle) -> Seq<nat>;

/// The hashes that `bundle` gives for its proofs, each with the index of its node,
/// by ascending index.
pub uninterp spec fn bundle_hashes(bundle: LogProofBundle) -> Seq<(nat, Seq<char>)>;

/// The hashes that it takes to prove that, in a log with `leaves`, the logs with the
/// `consistent` lengths are its beginnings and the nodes at the `included` indices
/// are its leaves.
pub uninterp spec fn proof_hashes(
    leaves: Seq<(Seq<char>, Seq<char>)>,
    consistent: Seq<nat>,
    included: Seq<nat>,
) -> Seq<(nat, Seq<char>)>;

/// The protobuf message of a bundle.
pub uninterp spec fn bundle_message(
    length: nat,
    beginnings: Seq<nat>,
    nodes: Seq<nat>,
    hashes: Seq<(nat, Seq<char>)>,
) -> Seq<u8>;

/// The model of [`LogProofBundle`].
#[verifier::ext_equal]
pub struct BundleView {
    pub length: nat,
    pub beginnings: Seq<nat>,
    pub nodes: Seq<nat>,
    pub hashes: Seq<(nat, Seq<char>)>,
}

impl View for LogProofBundle {
    type V = BundleView;

    open spec fn view(&self) -> BundleView {
        BundleView {
            length: bundle_length(*self),
            beginnings: bundle_beginnings(*self),
            nodes: bundle_nodes(*self),
            hashes: bundle_hashes(*self),
        }
    }
}

/// A length as a bundle gives it: in 32 bits.
pub open spec fn length_field(length: nat) -> nat {
    length % 0x1_0000_0000
}

/// Lengths as a bundle gives them.
pub open spec fn length_fields(lengths: Seq<nat>) -> Seq<nat> {
    lengths.map_values(|length: nat| length_field(length))
}

/// The bundle of the proofs that, in the log with `leaves`, the logs with the
/// `consistent` lengths are its beginnings and the nodes at the `included` indices
/// are its leaves.
pub open spec fn proof_bundle(
    leaves: Leaves,
    consistent: Seq<nat>,
    included: Seq<nat>,
) -> BundleView {
    BundleView {
        length: length_field(leaves.len()),
        beginnings: length_fields(consistent),
        nodes: included,
        hashes: proof_hashes(leaves, consistent, included),
    }
}

impl LogProofBundle {
    /// Calls `ProofBundle::encode`. Claimed: the message depends on what the bundle
    /// holds, and on nothing else.
    #[verifier::external_body]
    fn message(self) -> (bytes: Vec<u8>)
        ensures
            bytes@ == bundle_message(
                bundle_length(self),
                bundle_beginnings(self),
                bundle_nodes(self),
                bundle_hashes(self),
            ),
    {
        self.bundle.encode()
    }

    /// The protobuf message of the bundle, in which the indices of nodes have 32
    /// bits.
    pub fn encode(self) -> (bytes: Vec<u8>)
        ensures
            bytes@ == bundle_message(
                self@.length,
                self@.beginnings,
                self@.nodes,
                self@.hashes,
            ),
    {
        self.message()
    }
}

/// Whether the tree of a log with `length` leaves and one more can be kept in
/// memory: it has two hashes of 32 bytes to a leaf, and a vector that is full
/// doubles.
pub open spec fn has_room(length: nat) -> bool {
    128 * (length + 1) <= isize::MAX
}

/// Machine integers as numbers.
pub open spec fn nats(numbers: Seq<usize>) -> Seq<nat> {
    numbers.map_values(|n: usize| n as nat)
}

/// Why there is no bundle of the proofs that, in a log of `length`, the logs with
/// the `consistent` lengths are its beginnings and the nodes at the `included`
/// indices are its leaves.
pub open spec fn bundle_failure(length: nat, consistent: Seq<nat>, included: Seq<nat>) -> Option<
    Seq<char>,
> {
    if exists|i: int| 0 <= i < consistent.len() && #[trigger] consistent[i] > length {
        Some("tries to prove later value comes before earlier"@)
    } else if exists|i: int| 0 <= i < included.len() && #[trigger] included[i] >= 2 * length {
        Some("leaf newer than when it should be included"@)
    } else if consistent.len() == 0 && included.len() == 0 {
        Some("A bundle can not be made from no proofs"@)
    } else {
        None
    }
}

impl ProofLog {
    /// Calls `VecLog::default`. Claimed: the log has no leaves.
    #[verifier::external_body]
    pub(crate) fn empty() -> (log: ProofLog)
        ensures
            entries(log) == Seq::<(Seq<char>, Seq<char>)>::empty(),
    {
        ProofLog { log: VecLog::default() }
    }

    /// Calls `VecLog::length`. Claimed: it is the number of leaves.
    #[verifier::external_body]
    pub(crate) fn length(&self) -> (length: usize)
        ensures
            length == entries(*self).len(),
    {
        self.log.length()
    }

    /// Calls `VecLog::push` on the leaf of the two identifiers. Claimed: it goes
    /// behind the others, and the index of its node is twice its position.
    #[verifier::external_body]
    pub(crate) fn push(&mut self, log_id: &str, record_id: &str) -> (node: usize)
        requires
            is_hash_text(log_id@),
            is_hash_text(record_id@),
            has_room(entries(*old(self)).len()),
        ensures
            entries(*final(self)) == entries(*old(self)).push((log_id@, record_id@)),
            node == 2 * entries(*old(self)).len(),
    {
        let log_id = AnyHash::from_str(log_id).unwrap().into();
        let record_id = AnyHash::from_str(record_id).unwrap().into();
        self.log.push(&warg_protocol::registry::LogLeaf { log_id, record_id }).index()
    }

    /// Calls `VecLog::checkpoint`. Claimed: the length is the number of leaves,
    /// and the root depends on the leaves alone and its text is a hash text.
    #[verifier::external_body]
    pub(crate) fn checkpoint(&self) -> (result: (String, usize))
        ensures
            result.0@ == log_root(entries(*self)),
            is_hash_text(result.0@),
            result.1 == entries(*self).len(),
    {
        let checkpoint = self.log.checkpoint();
        (checkpoint.root().to_string(), checkpoint.length())
    }

    /// Calls `ProofBundle::bundle` on what `VecLog::prove_consistency` and
    /// `VecLog::prove_inclusion` return for a log of `length`. Claimed: it fails on
    /// proofs that are out of order, on leaves that are too new and where there are
    /// no proofs, and on nothing else; the bundle has the lengths, cut to 32 bits,
    /// and the nodes that it was asked for; and its hashes depend on the first
    /// `length` leaves, because the nodes on the way to their root do not change when
    /// leaves are added. That the hashes lead to the roots is not claimed.
    #[verifier::external_body]
    pub(crate) fn bundle(
        &self,
        length: usize,
        consistent: &Vec<usize>,
        included: &Vec<usize>,
    ) -> (result: Result<LogProofBundle, String>)
        requires
            1 <= length <= entries(*self).len(),
            forall|i: int| 0 <= i < consistent@.len() ==> 1 <= #[trigger] consistent@[i],
            forall|i: int| 0 <= i < included@.len() ==> #[trigger] included@[i] % 2 == 0,
        ensures
            match result {
                Ok(bundle) => {
                    &&& bundle_failure(length as nat, nats(consistent@), nats(included@)) is None
                    &&& bundle_length(bundle) == length_field(length as nat)
                    &&& bundle_beginnings(bundle) == length_fields(nats(consistent@))
                    &&& bundle_nodes(bundle) == nats(included@)
                    &&& bundle_hashes(bundle) == proof_hashes(
                        entries(*self).take(length as int),
                        nats(consistent@),
                        nats(included@),
                    )
                },
                Err(reason) => bundle_failure(length as nat, nats(consistent@), nats(included@))
                    == Some(reason@),
            },
    {
        let earlier = consistent.iter().map(|old| self.log.prove_consistency(*old, length));
        let leaves = included.iter().map(|node| self.log.prove_inclusion(Node(*node), length));
        let (earlier, leaves) = (earlier.collect(), leaves.collect());
        warg_transparency::log::LogProofBundle::bundle(earlier, leaves, &self.log)
            .map(|bundle| LogProofBundle { bundle })
            .map_err(|error| error.to_string())
    }
}

} // verus!
