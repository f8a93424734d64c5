//! What the registry keeps of a submitted record.
use std::sync::Arc;
use vstd::prelude::*;

use crate::hash::DynHash;
use crate::protocol::RecordEnvelope;

verus! {

/// `warg_protocol`'s `SerdeEnvelope`, a signed value. It is carried through and
/// never looked into.
#[verifier::external_type_specification]
#[verifier::external_body]
#[verifier::reject_recursive_types(Contents)]
pub struct ExSerdeEnvelope<Contents>(warg_protocol::SerdeEnvelope<Contents>);

/// `warg_protocol`'s `TimestampedCheckpoint`, the roots of the registry at some
/// time. It is carried through and never looked into.
#[verifier::external_type_specification]
#[verifier::external_body]
pub struct ExTimestampedCheckpoint(warg_protocol::registry::TimestampedCheckpoint);

/// A signed checkpoint of the registry.
pub type CheckpointEnvelope = warg_protocol::SerdeEnvelope<
    warg_protocol::registry::TimestampedCheckpoint,
>;

/// How a content can be fetched.
#[derive(Debug, PartialEq, Eq)]
pub enum ContentSourceKind {
    /// By HTTP, without credentials.
    HttpAnonymous { url: String },
}

/// The model of [`ContentSourceKind`].
pub enum KindView {
    HttpAnonymous { url: Seq<char> },
}

impl View for ContentSourceKind {
    type V = KindView;

    open spec fn view(&self) -> KindView {
        match self {
            ContentSourceKind::HttpAnonymous { url } => KindView::HttpAnonymous { url: url@ },
        }
    }
}

impl Clone for ContentSourceKind {
    fn clone(&self) -> (copy: Self)
        ensures
            copy@ == self@,
    {
        match self {
            ContentSourceKind::HttpAnonymous { url } => ContentSourceKind::HttpAnonymous {
                url: url.clone(),
            },
        }
    }
}

/// Where the content with some digest comes from.
#[derive(Debug, PartialEq, Eq)]
pub struct ContentSource {
    pub content_digest: DynHash,
    pub kind: ContentSourceKind,
}

/// The model of [`ContentSource`].
pub struct SourceView {
    pub content_digest: Seq<char>,
    pub kind: KindView,
}

impl View for ContentSource {
    type V = SourceView;

    open spec fn view(&self) -> SourceView {
        SourceView { content_digest: self.content_digest@, kind: self.kind@ }
    }
}

impl Clone for ContentSource {
    fn clone(&self) -> (copy: Self)
        ensures
            copy@ == self@,
    {
        ContentSource { content_digest: self.content_digest.clone(), kind: self.kind.clone() }
    }
}

/// The models of sources.
pub open spec fn source_views(sources: Seq<ContentSource>) -> Seq<SourceView> {
    sources.map_values(|source: ContentSource| source@)
}

/// How far a record has come.
#[derive(Debug, PartialEq, Eq)]
pub enum RecordState {
    /// The registry does not know the record.
    Unknown,
    /// The record is in its package log and on its way to the transparency log.
    Processing,
    /// The record is part of the registry as of a checkpoint.
    Published { checkpoint: Arc<CheckpointEnvelope> },
    /// The record was turned down.
    Rejected { reason: String },
}

/// The model of [`RecordState`].
pub enum StateView {
    Unknown,
    Processing,
    Published { checkpoint: CheckpointEnvelope },
    Rejected { reason: Seq<char> },
}

impl View for RecordState {
    type V = StateView;

    open spec fn view(&self) -> StateView {
        match self {
            RecordState::Unknown => StateView::Unknown,
            RecordState::Processing => StateView::Processing,
            RecordState::Published { checkpoint } => StateView::Published {
                checkpoint: **checkpoint,
            },
            RecordState::Rejected { reason } => StateView::Rejected { reason: reason@ },
        }
    }
}

impl Default for RecordState {
    fn default() -> (state: Self)
        ensures
            state@ == StateView::Unknown,
    {
        RecordState::Unknown
    }
}

impl Clone for RecordState {
    fn clone(&self) -> (copy: Self)
        ensures
            copy@ == self@,
    {
        match self {
            RecordState::Unknown => RecordState::Unknown,
            RecordState::Processing => RecordState::Processing,
            RecordState::Published { checkpoint } => RecordState::Published {
                checkpoint: checkpoint.clone(),
            },
            RecordState::Rejected { reason } => RecordState::Rejected { reason: reason.clone() },
        }
    }
}

/// A submitted record, the sources that came with it, and how far it has come.
#[derive(Debug, PartialEq, Eq)]
pub struct PackageRecordInfo {
    pub record: Arc<RecordEnvelope>,
    pub content_sources: Arc<Vec<ContentSource>>,
    pub state: RecordState,
}

/// The model of [`PackageRecordInfo`].
pub struct RecordView {
    pub record: Seq<u8>,
    pub content_sources: Seq<SourceView>,
    pub state: StateView,
}

impl View for PackageRecordInfo {
    type V = RecordView;

    open spec fn view(&self) -> RecordView {
        RecordView {
            record: self.record@,
            content_sources: source_views(self.content_sources@),
            state: self.state@,
        }
    }
}

impl Clone for PackageRecordInfo {
    fn clone(&self) -> (copy: Self)
        ensures
            copy@ == self@,
    {
        PackageRecordInfo {
            record: self.record.clone(),
            content_sources: self.content_sources.clone(),
            state: self.state.clone(),
        }
    }
}

} // verus!
