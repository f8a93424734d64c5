//! Hashes and the identifiers made of them, in their textual form.
use std::str::FromStr;
use vstd::prelude::*;
use warg_crypto::hash::{AnyHash, Digest, Sha256};

verus! {

/// Whether `c` is a hexadecimal digit in lower case.
pub open spec fn is_lower_hex(c: char) -> bool {
    ('0' <= c && c <= '9') || ('a' <= c && c <= 'f')
}

/// Whether `text` is the textual form of a hash: the name of the algorithm, a
/// colon, and whole bytes in lower-case hexadecimal.
pub open spec fn is_hash_text(text: Seq<char>) -> bool {
    &&& text.len() >= 7
    &&& text.take(7) == "sha256:"@
    &&& (text.len() - 7) % 2 == 0
    &&& forall|i: int| 7 <= i < text.len() ==> is_lower_hex(#[trigger] text[i])
}

/// A hash text holds no slash.
pub proof fn lemma_hash_text_has_no_slash(text: Seq<char>)
    requires
        is_hash_text(text),
    ensures
        !text.contains('/'),
{
    reveal_strlit("sha256:");
    assert forall|i: int| 0 <= i < text.len() implies text[i] != '/' by {
        if i < 7 {
            assert(text[i] == text.take(7)[i]);
        }
    }
}

/// The SHA-256 digest of `bytes`, in textual form.
pub uninterp spec fn sha256_text(bytes: Seq<u8>) -> Seq<char>;

/// Calls `warg_crypto`'s `Sha256` (`new`, `update`, `finalize`) and turns the
/// digest into an `AnyHash` and that into text. Claimed: the text depends on
/// `bytes` alone, and is a hash text of 32 bytes.
#[verifier::external_body]
fn sha256(bytes: &[u8]) -> (text: String)
    ensures
        text@ == sha256_text(bytes@),
        is_hash_text(text@),
        text@.len() == 71,
{
    let mut digest = Sha256::new();
    digest.update(bytes);
    let hash: warg_crypto::hash::Hash<Sha256> = digest.finalize().into();
    AnyHash::from(hash).to_string()
}

/// Calls `AnyHash::from_str`. Claimed: it accepts hash texts and nothing else.
#[verifier::external_body]
fn accepts_hash_text(text: &String) -> (accepted: bool)
    ensures
        accepted == is_hash_text(text@),
{
    AnyHash::from_str(text).is_ok()
}

/// A hash of any supported algorithm.
#[derive(Debug, PartialEq, Eq)]
pub struct DynHash {
    text: String,
}

impl View for DynHash {
    type V = Seq<char>;

    closed spec fn view(&self) -> Seq<char> {
        self.text@
    }
}

impl DynHash {
    #[verifier::type_invariant]
    spec fn valid(&self) -> bool {
        is_hash_text(self.text@)
    }

    /// Reads a hash from its textual form.
    pub fn parse(text: String) -> (result: Option<DynHash>)
        ensures
            result is Some <==> is_hash_text(text@),
            result matches Some(hash) ==> hash@ == text@,
    {
        if accepts_hash_text(&text) {
            Some(DynHash { text })
        } else {
            None
        }
    }

    /// The hash of which `text` is the textual form.
    pub(crate) fn from_text(text: String) -> (hash: DynHash)
        requires
            is_hash_text(text@),
        ensures
            hash@ == text@,
    {
        DynHash { text }
    }

    /// The SHA-256 digest of `bytes`.
    pub fn sha256(bytes: &[u8]) -> (hash: DynHash)
        ensures
            hash@ == sha256_text(bytes@),
    {
        DynHash { text: sha256(bytes) }
    }

    /// The textual form.
    pub fn as_str(&self) -> (text: &str)
        ensures
            text@ == self@,
            is_hash_text(text@),
    {
        proof {
            use_type_invariant(self);
        }
        self.text.as_str()
    }

    /// Whether the two are the same hash.
    pub fn same(&self, other: &DynHash) -> (result: bool)
        ensures
            result == (self@ == other@),
    {
        self.text == other.text
    }
}

impl Clone for DynHash {
    fn clone(&self) -> (copy: Self)
        ensures
            copy@ == self@,
    {
        proof {
            use_type_invariant(self);
        }
        DynHash { text: self.text.clone() }
    }
}

/// Identifies the log of one package.
#[derive(Debug, PartialEq, Eq)]
pub struct LogId {
    hash: DynHash,
}

impl View for LogId {
    type V = Seq<char>;

    closed spec fn view(&self) -> Seq<char> {
        self.hash@
    }
}

impl LogId {
    /// The identifier that `hash` makes.
    pub fn from_hash(hash: DynHash) -> (id: LogId)
        ensures
            id@ == hash@,
    {
        LogId { hash }
    }

    /// The textual form.
    pub fn as_str(&self) -> (text: &str)
        ensures
            text@ == self@,
            is_hash_text(text@),
    {
        self.hash.as_str()
    }
}

impl Clone for LogId {
    fn clone(&self) -> (copy: Self)
        ensures
            copy@ == self@,
    {
        LogId { hash: self.hash.clone() }
    }
}

/// Identifies one record of a package log.
#[derive(Debug, PartialEq, Eq)]
pub struct RecordId {
    hash: DynHash,
}

impl View for RecordId {
    type V = Seq<char>;

    closed spec fn view(&self) -> Seq<char> {
        self.hash@
    }
}

impl RecordId {
    /// The identifier that `hash` makes.
    pub fn from_hash(hash: DynHash) -> (id: RecordId)
        ensures
            id@ == hash@,
    {
        RecordId { hash }
    }

    /// The textual form.
    pub fn as_str(&self) -> (text: &str)
        ensures
            text@ == self@,
            is_hash_text(text@),
    {
        self.hash.as_str()
    }
}

impl Clone for RecordId {
    fn clone(&self) -> (copy: Self)
        ensures
            copy@ == self@,
    {
        RecordId { hash: self.hash.clone() }
    }
}

/// An entry of the transparency log: a record, and the log that took it.
#[derive(Debug, PartialEq, Eq)]
pub struct LogLeaf {
    pub log_id: LogId,
    pub record_id: RecordId,
}

impl View for LogLeaf {
    type V = (Seq<char>, Seq<char>);

    open spec fn view(&self) -> (Seq<char>, Seq<char>) {
        (self.log_id@, self.record_id@)
    }
}

impl Clone for LogLeaf {
    fn clone(&self) -> (copy: Self)
        ensures
            copy@ == self@,
    {
        LogLeaf { log_id: self.log_id.clone(), record_id: self.record_id.clone() }
    }
}

/// The identifiers in leaves.
pub open spec fn leaf_views(leaves: Seq<LogLeaf>) -> Seq<(Seq<char>, Seq<char>)> {
    leaves.map_values(|leaf: LogLeaf| leaf@)
}

} // verus!
