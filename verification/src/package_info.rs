//! The log of one package, and what becomes of the records submitted to it.
use std::sync::Arc;
use vstd::hash_map::StringHashMap;
use vstd::hash_set::StringHashSet;
use vstd::prelude::*;
use vstd::string::*;
use warg_protocol::package::LogState;

use crate::hash::{DynHash, LogId, LogLeaf, RecordId};
use crate::protocol::{
    hash_texts, package_log_id, package_record_id, record_digest, released_contents, validate,
    validated, validation, RecordEnvelope,
};
use crate::record::{
    source_views, CheckpointEnvelope, ContentSource, PackageRecordInfo, RecordState, RecordView,
    SourceView, StateView,
};

verus! {

/// Whether one of `sources` is for the content with `digest`.
pub open spec fn is_provided(sources: Seq<SourceView>, digest: Seq<char>) -> bool {
    exists|i: int| 0 <= i < sources.len() && #[trigger] sources[i].content_digest == digest
}

/// The first of the `needed` digests that no source is for.
pub open spec fn first_missing(needed: Seq<Seq<char>>, sources: Seq<SourceView>) -> Option<
    Seq<char>,
>
    decreases needed.len(),
{
    if needed.len() == 0 {
        None
    } else if first_missing(needed.drop_last(), sources) is Some {
        first_missing(needed.drop_last(), sources)
    } else if is_provided(sources, needed.last()) {
        None
    } else {
        Some(needed.last())
    }
}

/// What a record is turned down with that needs the content with `digest`.
pub open spec fn missing_reason(digest: Seq<char>) -> Seq<char> {
    "Needed content "@ + digest + " but not provided"@
}

/// What is made of a submitted record, in the model.
pub enum Verdict {
    /// It breaks the rules of package logs.
    Invalid { reason: Seq<char> },
    /// It follows the rules, but a content that it releases has no source.
    Incomplete { reason: Seq<char> },
    /// It is taken.
    Accepted,
}

/// What is made of a record of which the rules of package logs say `validation`
/// and that releases the contents with the `needed` digests, submitted with
/// `sources`.
pub open spec fn verdict(
    validation: Result<(), Seq<char>>,
    needed: Seq<Seq<char>>,
    sources: Seq<SourceView>,
) -> Verdict {
    match validation {
        Err(reason) => Verdict::Invalid { reason },
        Ok(()) => match first_missing(needed, sources) {
            Some(digest) => Verdict::Incomplete { reason: missing_reason(digest) },
            None => Verdict::Accepted,
        },
    }
}

/// What is made of a submitted record.
#[derive(Debug, PartialEq, Eq)]
pub enum Review {
    /// It breaks the rules of package logs.
    Invalid { reason: String },
    /// It follows the rules, but a content that it releases has no source.
    Incomplete { reason: String },
    /// It is taken.
    Accepted,
}

impl View for Review {
    type V = Verdict;

    open spec fn view(&self) -> Verdict {
        match self {
            Review::Invalid { reason } => Verdict::Invalid { reason: reason@ },
            Review::Incomplete { reason } => Verdict::Incomplete { reason: reason@ },
            Review::Accepted => Verdict::Accepted,
        }
    }
}

/// A result with a message, in the model.
pub open spec fn outcome(result: Result<(), String>) -> Result<(), Seq<char>> {
    match result {
        Ok(()) => Ok(()),
        Err(reason) => Err(reason@),
    }
}

/// The digests that `sources` are for.
fn provided_contents(sources: &Vec<ContentSource>) -> (digests: StringHashSet)
    ensures
        forall|d: Seq<char>|
            #[trigger] digests@.contains(d) <==> is_provided(source_views(sources@), d),
{
    let mut digests = StringHashSet::new();
    let mut i: usize = 0;
    let ghost views = source_views(sources@);
    while i < sources.len()
        invariant
            i <= sources@.len(),
            views == source_views(sources@),
            forall|d: Seq<char>|
                #[trigger] digests@.contains(d) <==> is_provided(views.take(i as int), d),
        decreases sources@.len() - i,
    {
        let ghost before = digests@;
        digests.insert(String::from_str(sources[i].content_digest.as_str()));
        assert forall|d: Seq<char>| #[trigger] digests@.contains(d) <==> is_provided(
            views.take(i + 1),
            d,
        ) by {
            let shorter = views.take(i as int);
            let longer = views.take(i + 1);
            assert(longer[i as int].content_digest == views[i as int].content_digest);
            assert(before.contains(d) <==> is_provided(shorter, d));
            if is_provided(shorter, d) {
                let k = choose|k: int|
                    0 <= k < shorter.len() && #[trigger] shorter[k].content_digest == d;
                assert(longer[k].content_digest == d);
            }
            if is_provided(longer, d) {
                let k = choose|k: int|
                    0 <= k < longer.len() && #[trigger] longer[k].content_digest == d;
                if k < i {
                    assert(shorter[k].content_digest == d);
                }
            }
        }
        i = i + 1;
    }
    assert(views.take(i as int) =~= views);
    digests
}

/// What is made of a record of which the rules of package logs say `validation`
/// and that releases the contents with the `needed` digests, submitted with
/// `content_sources`.
pub fn review(
    validation: Result<(), String>,
    needed: &Vec<DynHash>,
    content_sources: &Vec<ContentSource>,
) -> (review: Review)
    ensures
        review@ == verdict(
            outcome(validation),
            hash_texts(needed@),
            source_views(content_sources@),
        ),
{
    match validation {
        Err(reason) => Review::Invalid { reason },
        Ok(()) => {
            let provided = provided_contents(content_sources);
            let ghost digests = hash_texts(needed@);
            let ghost sources = source_views(content_sources@);
            let mut i: usize = 0;
            while i < needed.len()
                invariant
                    i <= needed@.len(),
                    digests == hash_texts(needed@),
                    sources == source_views(content_sources@),
                    forall|d: Seq<char>|
                        #[trigger] provided@.contains(d) <==> is_provided(sources, d),
                    first_missing(digests.take(i as int), sources) is None,
                    outcome(validation) is Ok,
                decreases needed@.len() - i,
            {
                proof {
                    assert(digests.take(i + 1).drop_last() =~= digests.take(i as int));
                    assert(digests.take(i + 1).last() == needed@[i as int]@);
                }
                if !provided.contains(needed[i].as_str()) {
                    let mut reason = String::from_str("Needed content ");
                    reason.append(needed[i].as_str());
                    reason.append(" but not provided");
                    proof {
                        lemma_first_missing_stays(digests, sources, i + 1);
                    }
                    return Review::Incomplete { reason };
                }
                i = i + 1;
            }
            assert(digests.take(i as int) =~= digests);
            Review::Accepted
        },
    }
}

/// What is missing first stays so when more is needed.
proof fn lemma_first_missing_stays(needed: Seq<Seq<char>>, sources: Seq<SourceView>, n: int)
    requires
        0 <= n <= needed.len(),
        first_missing(needed.take(n), sources) is Some,
    ensures
        first_missing(needed, sources) == first_missing(needed.take(n), sources),
    decreases needed.len(),
{
    if n == needed.len() {
        assert(needed.take(n) =~= needed);
    } else {
        assert(needed.drop_last().take(n) =~= needed.take(n));
        lemma_first_missing_stays(needed.drop_last(), sources, n);
    }
}

/// Nothing is missing exactly where every needed digest has a source.
pub proof fn lemma_nothing_missing(needed: Seq<Seq<char>>, sources: Seq<SourceView>)
    ensures
        first_missing(needed, sources) is None <==> forall|i: int|
            0 <= i < needed.len() ==> is_provided(sources, #[trigger] needed[i]),
    decreases needed.len(),
{
    if needed.len() > 0 {
        let shorter = needed.drop_last();
        lemma_nothing_missing(shorter, sources);
        if first_missing(needed, sources) is None {
            assert forall|i: int| 0 <= i < needed.len() implies is_provided(
                sources,
                #[trigger] needed[i],
            ) by {
                if i < shorter.len() {
                    assert(shorter[i] == needed[i]);
                }
            }
        }
        if forall|i: int| 0 <= i < needed.len() ==> is_provided(sources, #[trigger] needed[i]) {
            assert forall|i: int| 0 <= i < shorter.len() implies is_provided(
                sources,
                #[trigger] shorter[i],
            ) by {
                assert(shorter[i] == needed[i]);
            }
            assert(is_provided(sources, needed[needed.len() - 1]));
        }
    }
}

/// The protobuf messages of envelopes.
pub open spec fn messages(envelopes: Seq<Arc<RecordEnvelope>>) -> Seq<Seq<u8>> {
    envelopes.map_values(|envelope: Arc<RecordEnvelope>| envelope@)
}

/// The digests of the records in the envelopes of `log`.
pub open spec fn digests(log: Seq<Seq<u8>>) -> Seq<Seq<char>> {
    log.map_values(|encoded: Seq<u8>| record_digest(encoded))
}

/// Why records could not be fetched.
#[derive(Debug, PartialEq, Eq, Structural, Clone, Copy)]
pub enum FetchError {
    /// The registry has no such package.
    PackageNotFound,
    /// No record of the package has the digest.
    HashNotFound,
}

/// What a [`FetchError`] says.
pub open spec fn fetch_message(error: FetchError) -> Seq<char> {
    match error {
        FetchError::PackageNotFound => "Package not found"@,
        FetchError::HashNotFound => "Hash value not found"@,
    }
}

impl FetchError {
    /// What the error says.
    pub fn message(&self) -> (text: String)
        ensures
            text@ == fetch_message(*self),
    {
        match self {
            FetchError::PackageNotFound => String::from_str("Package not found"),
            FetchError::HashNotFound => String::from_str("Hash value not found"),
        }
    }
}

/// Where `digest` first stands among `digests`.
pub open spec fn first_index(digests: Seq<Seq<char>>, digest: Seq<char>) -> Option<int>
    decreases digests.len(),
{
    if digests.len() == 0 {
        None
    } else if first_index(digests.drop_last(), digest) is Some {
        first_index(digests.drop_last(), digest)
    } else if digests.last() == digest {
        Some(digests.len() - 1)
    } else {
        None
    }
}

/// What [`first_index`] finds is the first index, and it finds one wherever there
/// is one.
pub proof fn lemma_first_index(digests: Seq<Seq<char>>, digest: Seq<char>)
    ensures
        match first_index(digests, digest) {
            Some(index) => {
                &&& 0 <= index < digests.len()
                &&& digests[index] == digest
                &&& forall|j: int| 0 <= j < index ==> #[trigger] digests[j] != digest
            },
            None => !digests.contains(digest),
        },
    decreases digests.len(),
{
    if digests.len() > 0 {
        let shorter = digests.drop_last();
        lemma_first_index(shorter, digest);
        if first_index(digests, digest) is None {
            assert forall|j: int| 0 <= j < digests.len() implies digests[j] != digest by {
                if j < shorter.len() {
                    assert(shorter[j] == digests[j]);
                }
            }
        } else {
            let index = first_index(digests, digest)->0;
            assert forall|j: int| 0 <= j < index implies #[trigger] digests[j] != digest by {
                assert(shorter[j] == digests[j]);
            }
        }
    }
}

/// The items from the first on whose digest is `since`, of items with `digests`.
pub open spec fn from_digest<T>(
    items: Seq<T>,
    digests: Seq<Seq<char>>,
    since: Seq<char>,
) -> Result<Seq<T>, FetchError> {
    match first_index(digests, since) {
        Some(index) => Ok(items.skip(index)),
        None => Err(FetchError::HashNotFound),
    }
}

/// A record that was accepted and whose leaf is on its way to the transparency
/// log, in the model.
#[verifier::ext_equal]
pub struct PendingView {
    pub record: Seq<u8>,
    pub sources: Seq<SourceView>,
}

/// The model of [`PackageInfo`].
#[verifier::ext_equal]
pub struct PackageView {
    pub id: Seq<char>,
    pub name: Seq<char>,
    /// The envelopes of the log, oldest first.
    pub log: Seq<Seq<u8>>,
    /// Every record that was taken or found invalid, by its identifier.
    pub records: Map<Seq<char>, RecordView>,
    /// The record whose leaf is on its way to the transparency log.
    pub pending: Option<PendingView>,
}

impl PackageView {
    /// The package `name` before the first submission.
    pub open spec fn fresh(name: Seq<char>) -> PackageView {
        PackageView {
            id: package_log_id(name),
            name,
            log: Seq::empty(),
            records: Map::empty(),
            pending: None,
        }
    }

    /// Whether the package can have come about by submissions and checkpoints.
    pub open spec fn valid(self) -> bool {
        &&& self.id == package_log_id(self.name)
        // every record of the log may follow those before it
        &&& forall|i: int|
            0 <= i < self.log.len() ==> validation(self.log.take(i), #[trigger] self.log[i]) is Ok
        // every record of the log is known
        &&& forall|i: int|
            0 <= i < self.log.len() ==> self.records.contains_key(
                package_record_id(#[trigger] self.log[i]),
            )
        // records are filed under their identifiers
        &&& forall|id: Seq<char>| #[trigger]
            self.records.contains_key(id) ==> id == package_record_id(self.records[id].record)
        // no known record is said to be unknown
        &&& forall|id: Seq<char>| #[trigger]
            self.records.contains_key(id) ==> !(self.records[id].state is Unknown)
        // a record in process is in the log, with sources for all its contents
        &&& forall|id: Seq<char>| #[trigger]
            self.records.contains_key(id) && self.records[id].state is Processing ==> {
                &&& self.log.contains(self.records[id].record)
                &&& first_missing(
                    released_contents(self.records[id].record),
                    self.records[id].content_sources,
                ) is None
            }
        // a pending record is one that the package accepts
        &&& self.pending matches Some(pending) ==> self.verdict(
            pending.record,
            pending.sources,
        ) is Accepted
    }

    /// What is made of `record`, submitted with `sources`.
    pub open spec fn verdict(self, record: Seq<u8>, sources: Seq<SourceView>) -> Verdict {
        verdict(validation(self.log, record), released_contents(record), sources)
    }

    /// The package with `record` filed under its identifier.
    pub open spec fn filed(
        self,
        record: Seq<u8>,
        content_sources: Seq<SourceView>,
        state: StateView,
    ) -> PackageView {
        PackageView {
            records: self.records.insert(
                package_record_id(record),
                RecordView { record, content_sources, state },
            ),
            ..self
        }
    }

    /// The package with `record` at the end of its log, and no record pending.
    pub open spec fn accepted(self, record: Seq<u8>, sources: Seq<SourceView>) -> PackageView {
        PackageView {
            log: self.log.push(record),
            pending: None,
            ..self.filed(record, sources, StateView::Processing)
        }
    }

    /// The package after the submission of `record` with `sources`. Where it is
    /// accepted, it waits for its leaf to be sent.
    pub open spec fn submitted(self, record: Seq<u8>, sources: Seq<SourceView>) -> PackageView {
        match self.verdict(record, sources) {
            Verdict::Invalid { reason } => self.filed(
                record,
                sources,
                StateView::Rejected { reason },
            ),
            Verdict::Incomplete { reason } => self,
            Verdict::Accepted => PackageView {
                pending: Some(PendingView { record, sources }),
                ..self
            },
        }
    }

    /// The package after the leaf of the pending record has been sent, or could not
    /// be.
    pub open spec fn delivered(self, sent: bool) -> PackageView {
        if sent {
            self.accepted(self.pending->0.record, self.pending->0.sources)
        } else {
            PackageView { pending: None, ..self }
        }
    }

    /// The package with the record `id` published as of `checkpoint`.
    pub open spec fn published(self, id: Seq<char>, checkpoint: CheckpointEnvelope) -> PackageView {
        PackageView {
            records: self.records.insert(
                id,
                RecordView { state: StateView::Published { checkpoint }, ..self.records[id] },
            ),
            ..self
        }
    }

    /// How far the record `id` has come.
    pub open spec fn status(self, id: Seq<char>) -> StateView {
        if self.records.contains_key(id) {
            self.records[id].state
        } else {
            StateView::Unknown
        }
    }

    /// What is known of the record `id`.
    pub open spec fn info(self, id: Seq<char>) -> Option<RecordView> {
        if self.records.contains_key(id) {
            Some(self.records[id])
        } else {
            None
        }
    }

    /// The envelopes from the record with the digest `since` on, or all of them.
    pub open spec fn since(self, since: Option<Seq<char>>) -> Result<Seq<Seq<u8>>, FetchError> {
        match since {
            Some(digest) => from_digest(self.log, digests(self.log), digest),
            None => Ok(self.log),
        }
    }
}

/// The log of one package, and all that is known of the records submitted to it.
pub struct PackageInfo {
    id: LogId,
    name: String,
    validator: LogState,
    log: Vec<Arc<RecordEnvelope>>,
    records: StringHashMap<PackageRecordInfo>,
    pending: Option<AcceptedRecord>,
}

impl View for PackageInfo {
    type V = PackageView;

    closed spec fn view(&self) -> PackageView {
        PackageView {
            id: self.id@,
            name: self.name@,
            log: messages(self.log@),
            records: self.records@.map_values(|info: PackageRecordInfo| info@),
            pending: match self.pending {
                Some(accepted) => Some(accepted@),
                None => None,
            },
        }
    }
}

/// A record that was accepted and that the transparency log is about to get.
struct AcceptedRecord {
    record_id: RecordId,
    record: Arc<RecordEnvelope>,
    content_sources: Arc<Vec<ContentSource>>,
    /// The rules of package logs, with the record at the end of the log.
    validator: LogState,
}

impl View for AcceptedRecord {
    type V = PendingView;

    closed spec fn view(&self) -> PendingView {
        PendingView { record: self.record@, sources: source_views(self.content_sources@) }
    }
}

/// What a submission leads to.
#[derive(Debug, PartialEq, Eq)]
pub enum Submission {
    /// It is answered at once.
    Answered { state: RecordState },
    /// The record was accepted. Its leaf goes to the transparency log first, and
    /// the record enters the package log when the leaf has been sent.
    Announce { leaf: LogLeaf },
}

/// Whether `submission` is what `verdict` on the record `record_id` of the log
/// `log_id` leads to.
pub open spec fn answers(
    verdict: Verdict,
    submission: Submission,
    log_id: Seq<char>,
    record_id: Seq<char>,
) -> bool {
    match (verdict, submission) {
        (Verdict::Invalid { reason }, Submission::Answered { state }) => state@
            == StateView::Rejected { reason },
        (Verdict::Incomplete { reason }, Submission::Answered { state }) => state@
            == StateView::Rejected { reason },
        (Verdict::Accepted, Submission::Announce { leaf }) => leaf@ == (log_id, record_id),
        _ => false,
    }
}

impl PackageInfo {
    /// Whether the package can have come about by submissions and checkpoints.
    pub closed spec fn wf(&self) -> bool {
        &&& self@.valid()
        &&& validated(self.validator) == self@.log
        &&& self.pending matches Some(accepted) ==> {
            &&& accepted.record_id@ == package_record_id(accepted.record@)
            &&& validated(accepted.validator) == self@.log.push(accepted.record@)
        }
    }

    /// A well-formed package is valid.
    pub proof fn lemma_wf_valid(&self)
        requires
            self.wf(),
        ensures
            self@.valid(),
    {
    }

    /// The package `name` before the first submission.
    pub fn new(name: String) -> (package: PackageInfo)
        ensures
            package.wf(),
            package@ == PackageView::fresh(name@),
    {
        let package = PackageInfo {
            id: LogId::package_log(name.as_str()),
            name,
            validator: <LogState as Default>::default(),
            log: Vec::new(),
            records: StringHashMap::new(),
            pending: None,
        };
        assert(package@ =~= PackageView::fresh(name@));
        package
    }

    /// Takes or turns down a record.
    pub fn new_record(
        &mut self,
        record: Arc<RecordEnvelope>,
        content_sources: Vec<ContentSource>,
    ) -> (submission: Submission)
        requires
            old(self).wf(),
            old(self)@.pending is None,
        ensures
            final(self).wf(),
            final(self)@ == old(self)@.submitted(record@, source_views(content_sources@)),
            answers(
                old(self)@.verdict(record@, source_views(content_sources@)),
                submission,
                old(self)@.id,
                package_record_id(record@),
            ),
    {
        let record_id = record.record_id();
        let mut hypothetical = self.validator.clone();
        let validation = validate(&mut hypothetical, record.encoded());
        match review(validation, record.contents(), &content_sources) {
            Review::Accepted => {
                let leaf = LogLeaf { log_id: self.id.clone(), record_id: record_id.clone() };
                self.pending = Some(
                    AcceptedRecord {
                        record_id,
                        record,
                        content_sources: Arc::new(content_sources),
                        validator: hypothetical,
                    },
                );
                assert(self@ =~= old(self)@.submitted(record@, source_views(content_sources@)));
                Submission::Announce { leaf }
            },
            Review::Incomplete { reason } => Submission::Answered {
                state: RecordState::Rejected { reason },
            },
            Review::Invalid { reason } => {
                let state = RecordState::Rejected { reason };
                let info = PackageRecordInfo {
                    record,
                    content_sources: Arc::new(content_sources),
                    state: state.clone(),
                };
                self.records.insert(String::from_str(record_id.as_str()), info);
                proof {
                    assert(self@ =~= old(self)@.submitted(record@, source_views(content_sources@)));
                    lemma_filed_valid(
                        old(self)@,
                        record@,
                        source_views(content_sources@),
                        state@,
                    );
                }
                Submission::Answered { state }
            },
        }
    }

    /// Takes note of whether the leaf of the pending record could be sent. Where it
    /// could, the record enters the log, and the answer to the submission is
    /// returned. Where it could not, nothing is kept of the record.
    pub fn leaf_delivered(&mut self, sent: bool) -> (answer: Option<RecordState>)
        requires
            old(self).wf(),
            old(self)@.pending is Some,
        ensures
            final(self).wf(),
            final(self)@ == old(self)@.delivered(sent),
            match answer {
                Some(state) => sent && state@ == StateView::Processing,
                None => !sent,
            },
    {
        let pending = self.pending.take();
        if !sent {
            assert(self@ =~= old(self)@.delivered(false));
            return None;
        }
        match pending {
            Some(accepted) => {
                let state = RecordState::Processing;
                let info = PackageRecordInfo {
                    record: accepted.record.clone(),
                    content_sources: accepted.content_sources,
                    state: state.clone(),
                };
                self.validator = accepted.validator;
                self.log.push(accepted.record);
                self.records.insert(String::from_str(accepted.record_id.as_str()), info);
                proof {
                    let after = old(self)@.delivered(true);
                    assert(self@.log =~= after.log);
                    assert(self@.records =~= after.records);
                    lemma_accepted_valid(old(self)@, accepted@.record, accepted@.sources);
                }
                Some(state)
            },
            None => None,
        }
    }

    /// Whether a record waits for its leaf to be sent.
    pub fn is_pending(&self) -> (pending: bool)
        ensures
            pending == (self@.pending is Some),
    {
        self.pending.is_some()
    }

    /// Notes that the record is published as of `checkpoint`.
    pub fn mark_published(&mut self, record_id: &RecordId, checkpoint: Arc<CheckpointEnvelope>)
        requires
            old(self).wf(),
            old(self)@.records.contains_key(record_id@),
        ensures
            final(self).wf(),
            final(self)@ == old(self)@.published(record_id@, *checkpoint),
    {
        if let Some(known) = self.records.get(record_id.as_str()) {
            let info = PackageRecordInfo {
                record: known.record.clone(),
                content_sources: known.content_sources.clone(),
                state: RecordState::Published { checkpoint },
            };
            self.records.insert(String::from_str(record_id.as_str()), info);
        }
        proof {
            assert(self@.records =~= old(self)@.published(record_id@, *checkpoint).records);
            lemma_published_valid(old(self)@, record_id@, checkpoint);
        }
    }

    /// Whether the package knows the record.
    pub fn knows(&self, record_id: &RecordId) -> (known: bool)
        ensures
            known == self@.records.contains_key(record_id@),
    {
        self.records.contains_key(record_id.as_str())
    }

    /// How far the record has come.
    pub fn record_status(&self, record_id: &RecordId) -> (state: RecordState)
        ensures
            state@ == self@.status(record_id@),
    {
        match self.records.get(record_id.as_str()) {
            Some(info) => info.state.clone(),
            None => RecordState::Unknown,
        }
    }

    /// What is known of the record.
    pub fn record_info(&self, record_id: &RecordId) -> (info: Option<PackageRecordInfo>)
        ensures
            (match info {
                Some(found) => Some(found@),
                None => None,
            }) == self@.info(record_id@),
    {
        match self.records.get(record_id.as_str()) {
            Some(info) => Some(info.clone()),
            None => None,
        }
    }

    /// The envelopes from the record with the digest `since` on, or all of them.
    pub fn fetch_since(&self, since: Option<DynHash>) -> (result: Result<
        Vec<Arc<RecordEnvelope>>,
        FetchError,
    >)
        ensures
            (match result {
                Ok(envelopes) => Ok(messages(envelopes@)),
                Err(error) => Err(error),
            }) == self@.since(
                match since {
                    Some(digest) => Some(digest@),
                    None => None,
                },
            ),
    {
        match since {
            Some(digest) => {
                let found = self.digests();
                let result = records_since(&self.log, &found, &digest);
                proof {
                    let log = self@.log;
                    assert(hash_texts(found@) =~= digests(log));
                    lemma_first_index(digests(log), digest@);
                    if let Some(index) = first_index(digests(log), digest@) {
                        assert(messages(self.log@.skip(index)) =~= log.skip(index));
                    }
                }
                result
            },
            None => {
                let log = clone_from(&self.log, 0);
                assert(messages(self.log@.skip(0)) =~= messages(self.log@));
                Ok(log)
            },
        }
    }

    /// The digests of the records of the log.
    fn digests(&self) -> (found: Vec<DynHash>)
        ensures
            hash_texts(found@) == digests(self@.log),
    {
        let mut found: Vec<DynHash> = Vec::new();
        let mut i: usize = 0;
        while i < self.log.len()
            invariant
                i <= self.log@.len(),
                found@.len() == i,
                forall|j: int|
                    0 <= j < i ==> (#[trigger] found@[j])@ == record_digest(self.log@[j]@),
            decreases self.log@.len() - i,
        {
            found.push(self.log[i].digest());
            i = i + 1;
        }
        assert(hash_texts(found@) =~= digests(self@.log));
        found
    }
}

/// The envelopes of `log` from `start` on.
fn clone_from(log: &Vec<Arc<RecordEnvelope>>, start: usize) -> (rest: Vec<Arc<RecordEnvelope>>)
    requires
        start <= log@.len(),
    ensures
        rest@ == log@.skip(start as int),
{
    let mut rest: Vec<Arc<RecordEnvelope>> = Vec::new();
    let mut i: usize = start;
    while i < log.len()
        invariant
            start <= i <= log@.len(),
            rest@ == log@.subrange(start as int, i as int),
        decreases log@.len() - i,
    {
        rest.push(log[i].clone());
        i = i + 1;
        assert(rest@ =~= log@.subrange(start as int, i as int));
    }
    rest
}

/// The envelopes of `log` from the first on whose digest is `since`, where the
/// digests of the envelopes are `digests`.
pub fn records_since(
    log: &Vec<Arc<RecordEnvelope>>,
    digests: &Vec<DynHash>,
    since: &DynHash,
) -> (result: Result<Vec<Arc<RecordEnvelope>>, FetchError>)
    requires
        log@.len() == digests@.len(),
    ensures
        (match result {
            Ok(envelopes) => Ok(envelopes@),
            Err(error) => Err(error),
        }) == from_digest(log@, hash_texts(digests@), since@),
{
    let ghost texts = hash_texts(digests@);
    let mut i: usize = 0;
    proof {
        lemma_first_index(texts, since@);
    }
    while i < digests.len()
        invariant
            i <= digests@.len() == log@.len(),
            texts == hash_texts(digests@),
            forall|j: int| 0 <= j < i ==> #[trigger] texts[j] != since@,
            match first_index(texts, since@) {
                Some(index) => {
                    &&& 0 <= index < texts.len()
                    &&& texts[index] == since@
                    &&& forall|j: int| 0 <= j < index ==> #[trigger] texts[j] != since@
                },
                None => !texts.contains(since@),
            },
        decreases digests@.len() - i,
    {
        assert(texts[i as int] == digests@[i as int]@);
        if digests[i].same(since) {
            return Ok(clone_from(log, i));
        }
        i = i + 1;
    }
    Err(FetchError::HashNotFound)
}

/// Filing a record that was found invalid keeps a package valid.
pub(crate) proof fn lemma_filed_valid(
    package: PackageView,
    record: Seq<u8>,
    sources: Seq<SourceView>,
    state: StateView,
)
    requires
        package.valid(),
        state is Rejected,
    ensures
        package.filed(record, sources, state).valid(),
{
}

/// Taking a record that was accepted keeps a package valid.
pub(crate) proof fn lemma_accepted_valid(
    package: PackageView,
    record: Seq<u8>,
    sources: Seq<SourceView>,
)
    requires
        package.valid(),
        package.verdict(record, sources) is Accepted,
    ensures
        package.accepted(record, sources).valid(),
{
    let after = package.accepted(record, sources);
    assert forall|i: int| 0 <= i < after.log.len() implies validation(
        after.log.take(i),
        #[trigger] after.log[i],
    ) is Ok && after.records.contains_key(package_record_id(after.log[i])) by {
        assert(after.log.take(i) =~= package.log.take(i));
        if i < package.log.len() {
            assert(after.log[i] == package.log[i]);
        } else {
            assert(package.log.take(i) =~= package.log);
        }
    }
    assert forall|id: Seq<char>| #[trigger]
        after.records.contains_key(id) && after.records[id].state is Processing implies {
        &&& after.log.contains(after.records[id].record)
        &&& first_missing(
            released_contents(after.records[id].record),
            after.records[id].content_sources,
        ) is None
    } by {
        if id == package_record_id(record) {
            assert(after.log[package.log.len() as int] == record);
        } else {
            let filed = package.records[id].record;
            assert(package.records.contains_key(id));
            let k = choose|k: int| 0 <= k < package.log.len() && package.log[k] == filed;
            assert(after.log[k] == filed);
        }
    }
}

/// Publishing a known record keeps a package valid.
pub(crate) proof fn lemma_published_valid(
    package: PackageView,
    id: Seq<char>,
    checkpoint: Arc<CheckpointEnvelope>,
)
    requires
        package.valid(),
        package.records.contains_key(id),
    ensures
        package.published(id, *checkpoint).valid(),
{
}

} // verus!
