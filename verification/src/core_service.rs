//! The packages of the registry, and the requests that the service answers.
use std::sync::Arc;
use vstd::hash_map::StringHashMap;
use vstd::prelude::*;
use vstd::string::*;

use crate::hash::{leaf_views, DynHash, LogId, LogLeaf, RecordId};
use crate::package_info::{
    answers, messages, FetchError, PackageInfo, PackageView, Submission, Verdict,
};
use crate::protocol::{package_log_id, package_record_id, RecordEnvelope};
use crate::record::{
    source_views, CheckpointEnvelope, ContentSource, PackageRecordInfo, RecordState, RecordView,
    SourceView, StateView,
};

verus! {

/// All packages of the registry.
pub struct State {
    /// The position in `packages` of each package, by the identifier of its log.
    index: StringHashMap<usize>,
    packages: Vec<PackageInfo>,
}

/// The packages of a [`State`], by the identifiers of their logs.
pub type Packages = Map<Seq<char>, PackageView>;

impl View for State {
    type V = Packages;

    closed spec fn view(&self) -> Packages {
        self.index@.map_values(|i: usize| self.packages@[i as int]@)
    }
}

/// Whether every package is valid and filed under the identifier of its log.
pub open spec fn packages_valid(packages: Packages) -> bool {
    forall|id: Seq<char>| #[trigger]
        packages.contains_key(id) ==> packages[id].valid() && packages[id].id == id
}

/// The package with the log `package_log_id(name)`, or a fresh one.
pub open spec fn package_or_fresh(packages: Packages, name: Seq<char>) -> PackageView {
    if packages.contains_key(package_log_id(name)) {
        packages[package_log_id(name)]
    } else {
        PackageView::fresh(name)
    }
}

/// Whether the registry knows the record of `leaf`.
pub open spec fn knows_leaf(packages: Packages, leaf: (Seq<char>, Seq<char>)) -> bool {
    packages.contains_key(leaf.0) && packages[leaf.0].records.contains_key(leaf.1)
}

impl State {
    /// Whether the packages are well-formed and found where they are.
    pub closed spec fn wf(&self) -> bool {
        &&& forall|id: Seq<char>| #[trigger]
            self.index@.contains_key(id) ==> {
                &&& self.index@[id] < self.packages@.len()
                &&& self.packages@[self.index@[id] as int]@.id == id
            }
        &&& forall|i: int|
            0 <= i < self.packages@.len() ==> (#[trigger] self.packages@[i]).wf()
    }

    /// The packages of a well-formed state are valid.
    pub proof fn lemma_wf_valid(&self)
        requires
            self.wf(),
        ensures
            packages_valid(self@),
    {
        assert forall|id: Seq<char>| #[trigger] self@.contains_key(id) implies self@[id].valid()
            && self@[id].id == id by {
            assert(self.index@.contains_key(id));
            self.packages@[self.index@[id] as int].lemma_wf_valid();
        }
    }

    /// A registry without packages.
    pub fn new() -> (state: State)
        ensures
            state.wf(),
            state@ == Map::<Seq<char>, PackageView>::empty(),
    {
        let state = State { index: StringHashMap::new(), packages: Vec::new() };
        assert(state@ =~= Map::<Seq<char>, PackageView>::empty());
        state
    }

    /// The package with the log `id`.
    pub fn package(&self, id: &LogId) -> (package: Option<&PackageInfo>)
        requires
            self.wf(),
        ensures
            match package {
                Some(found) => self@.contains_key(id@) && found.wf() && found@ == self@[id@],
                None => !self@.contains_key(id@),
            },
    {
        match self.index.get(id.as_str()) {
            Some(i) => {
                assert(self.index@.contains_key(id@));
                Some(&self.packages[*i])
            },
            None => None,
        }
    }

    /// Where the package `name` stands, which is added where there is none.
    fn entry(&mut self, name: String) -> (i: usize)
        requires
            old(self).wf(),
        ensures
            final(self).wf(),
            i < final(self).packages@.len(),
            final(self)@ == old(self)@.insert(
                package_log_id(name@),
                package_or_fresh(old(self)@, name@),
            ),
            final(self).index@.contains_key(package_log_id(name@)),
            final(self).index@[package_log_id(name@)] == i,
    {
        let id = LogId::package_log(name.as_str());
        match self.index.get(id.as_str()) {
            Some(i) => {
                proof {
                    assert(self.index@.contains_key(id@));
                    assert(self@ =~= old(self)@.insert(id@, package_or_fresh(old(self)@, name@)));
                }
                *i
            },
            None => {
                let i: usize = self.packages.len();
                self.packages.push(PackageInfo::new(name));
                self.index.insert(String::from_str(id.as_str()), i);
                proof {
                    assert(self@ =~= old(self)@.insert(id@, package_or_fresh(old(self)@, name@)));
                }
                i
            },
        }
    }
}

impl Default for State {
    fn default() -> (state: Self)
        ensures
            state.wf(),
            state@ == Map::<Seq<char>, PackageView>::empty(),
    {
        State::new()
    }
}

/// The model of [`CoreService`].
#[verifier::ext_equal]
pub struct ServiceView {
    pub packages: Packages,
}

/// `packages` with every record published as of `checkpoint` that `leaves` speak
/// of.
pub open spec fn published(
    packages: Packages,
    leaves: Seq<(Seq<char>, Seq<char>)>,
    checkpoint: CheckpointEnvelope,
) -> Packages {
    packages.map_entries(
        |log_id: Seq<char>, package: PackageView|
            PackageView {
                records: package.records.map_entries(
                    |record_id: Seq<char>, record: RecordView|
                        if leaves.contains((log_id, record_id)) {
                            RecordView { state: StateView::Published { checkpoint }, ..record }
                        } else {
                            record
                        },
                ),
                ..package
            },
    )
}

impl ServiceView {
    /// Whether every package is valid and filed under the identifier of its log.
    pub open spec fn valid(self) -> bool {
        packages_valid(self.packages)
    }

    /// Whether an accepted record of the log `log_id` waits for its leaf to be sent.
    pub open spec fn is_pending(self, log_id: Seq<char>) -> bool {
        self.packages.contains_key(log_id) && self.packages[log_id].pending is Some
    }

    /// The service with the package `name`, which comes into being where there is
    /// none.
    pub open spec fn opened(self, name: Seq<char>) -> ServiceView {
        ServiceView {
            packages: self.packages.insert(
                package_log_id(name),
                package_or_fresh(self.packages, name),
            ),
        }
    }

    /// What is made of `record`, submitted to the package `name` with `sources`.
    pub open spec fn verdict(
        self,
        name: Seq<char>,
        record: Seq<u8>,
        sources: Seq<SourceView>,
    ) -> Verdict {
        package_or_fresh(self.packages, name).verdict(record, sources)
    }

    /// The service after that submission.
    pub open spec fn submitted(
        self,
        name: Seq<char>,
        record: Seq<u8>,
        sources: Seq<SourceView>,
    ) -> ServiceView {
        ServiceView {
            packages: self.packages.insert(
                package_log_id(name),
                package_or_fresh(self.packages, name).submitted(record, sources),
            ),
        }
    }

    /// The service after the leaf of the pending record of the log `log_id` has been
    /// sent, or could not be.
    pub open spec fn delivered(self, log_id: Seq<char>, sent: bool) -> ServiceView {
        ServiceView {
            packages: self.packages.insert(log_id, self.packages[log_id].delivered(sent)),
        }
    }

    /// Whether all leaves of a checkpoint are known, and no record of their packages
    /// waits for its leaf to be sent.
    pub open spec fn covers(self, leaves: Seq<(Seq<char>, Seq<char>)>) -> bool {
        forall|i: int|
            0 <= i < leaves.len() ==> {
                &&& knows_leaf(self.packages, #[trigger] leaves[i])
                &&& !self.is_pending(leaves[i].0)
            }
    }

    /// The service after `checkpoint`, which covers `leaves`.
    pub open spec fn checkpointed(
        self,
        leaves: Seq<(Seq<char>, Seq<char>)>,
        checkpoint: CheckpointEnvelope,
    ) -> ServiceView {
        ServiceView { packages: published(self.packages, leaves, checkpoint) }
    }

    /// How far the record `id` in the log `log_id` has come.
    pub open spec fn status(self, log_id: Seq<char>, id: Seq<char>) -> StateView {
        if self.packages.contains_key(log_id) {
            self.packages[log_id].status(id)
        } else {
            StateView::Unknown
        }
    }

    /// What is known of the record `id` in the log `log_id`.
    pub open spec fn info(self, log_id: Seq<char>, id: Seq<char>) -> Option<RecordView> {
        if self.packages.contains_key(log_id) {
            self.packages[log_id].info(id)
        } else {
            None
        }
    }

    /// The envelopes of the log `log_id` from the record with the digest `since` on,
    /// or all of them.
    pub open spec fn since(self, log_id: Seq<char>, since: Option<Seq<char>>) -> Result<
        Seq<Seq<u8>>,
        FetchError,
    > {
        if self.packages.contains_key(log_id) {
            self.packages[log_id].since(since)
        } else {
            Err(FetchError::PackageNotFound)
        }
    }
}

/// A digest that may be there, in the model.
pub open spec fn digest_view(digest: Option<DynHash>) -> Option<Seq<char>> {
    match digest {
        Some(hash) => Some(hash@),
        None => None,
    }
}

/// What may be known of a record, in the model.
pub open spec fn info_view(info: Option<PackageRecordInfo>) -> Option<RecordView> {
    match info {
        Some(found) => Some(found@),
        None => None,
    }
}

/// Fetched envelopes, in the model.
pub open spec fn fetched_view(fetched: Result<Vec<Arc<RecordEnvelope>>, FetchError>) -> Result<
    Seq<Seq<u8>>,
    FetchError,
> {
    match fetched {
        Ok(envelopes) => Ok(messages(envelopes@)),
        Err(error) => Err(error),
    }
}

/// A request to the service.
#[derive(Debug)]
pub enum Message {
    SubmitPackageRecord {
        package_name: String,
        record: Arc<RecordEnvelope>,
        content_sources: Vec<ContentSource>,
    },
    GetPackageRecordStatus { package_id: LogId, record_id: RecordId },
    GetPackageRecordInfo { package_id: LogId, record_id: RecordId },
    NewCheckpoint { checkpoint: Arc<CheckpointEnvelope>, leaves: Vec<LogLeaf> },
    FetchSince { package_id: LogId, since: Option<DynHash> },
}

impl Message {
    /// Whether the service can take the request as it is: no accepted record of the
    /// packages that the request changes waits for its leaf to be sent, and all
    /// leaves of a checkpoint are known.
    pub open spec fn admissible(&self, service: ServiceView) -> bool {
        match self {
            Message::SubmitPackageRecord { package_name, .. } => !service.is_pending(
                package_log_id(package_name@),
            ),
            Message::NewCheckpoint { leaves, .. } => service.covers(leaf_views(leaves@)),
            _ => true,
        }
    }

    /// The service after the request.
    pub open spec fn applied(&self, service: ServiceView) -> ServiceView {
        match self {
            Message::SubmitPackageRecord { package_name, record, content_sources } =>
                service.submitted(package_name@, record@, source_views(content_sources@)),
            Message::NewCheckpoint { checkpoint, leaves } => service.checkpointed(
                leaf_views(leaves@),
                **checkpoint,
            ),
            _ => service,
        }
    }

    /// Whether `reply` is the reply to the request.
    pub open spec fn answered(&self, service: ServiceView, reply: Reply) -> bool {
        match (self, reply) {
            (
                Message::SubmitPackageRecord { package_name, record, content_sources },
                Reply::Submission { submission },
            ) => answers(
                service.verdict(package_name@, record@, source_views(content_sources@)),
                submission,
                package_log_id(package_name@),
                package_record_id(record@),
            ),
            (
                Message::GetPackageRecordStatus { package_id, record_id },
                Reply::Status { state },
            ) => state@ == service.status(package_id@, record_id@),
            (
                Message::GetPackageRecordInfo { package_id, record_id },
                Reply::Info { info },
            ) => info_view(info) == service.info(package_id@, record_id@),
            (Message::NewCheckpoint { .. }, Reply::Done) => true,
            (Message::FetchSince { package_id, since }, Reply::Fetched { result }) =>
                fetched_view(result) == service.since(package_id@, digest_view(*since)),
            _ => false,
        }
    }
}

/// What a request is replied to with.
#[derive(Debug)]
pub enum Reply {
    Submission { submission: Submission },
    Status { state: RecordState },
    Info { info: Option<PackageRecordInfo> },
    Fetched { result: Result<Vec<Arc<RecordEnvelope>>, FetchError> },
    /// There is nothing to say.
    Done,
}

/// The service that keeps the package logs.
pub struct CoreService {
    state: State,
}

impl View for CoreService {
    type V = ServiceView;

    closed spec fn view(&self) -> ServiceView {
        ServiceView { packages: self.state@ }
    }
}

impl CoreService {
    /// Whether the packages are well-formed.
    pub closed spec fn wf(&self) -> bool {
        self.state.wf()
    }

    /// A well-formed service is valid.
    pub proof fn lemma_wf_valid(&self)
        requires
            self.wf(),
        ensures
            self@.valid(),
    {
        self.state.lemma_wf_valid();
    }

    /// The service with the packages of `initial_state`.
    pub fn start(initial_state: State) -> (service: CoreService)
        requires
            initial_state.wf(),
        ensures
            service.wf(),
            service@ == (ServiceView { packages: initial_state@ }),
    {
        CoreService { state: initial_state }
    }

    /// The packages, when the service ends.
    pub fn into_state(self) -> (state: State)
        requires
            self.wf(),
        ensures
            state.wf(),
            state@ == self@.packages,
    {
        self.state
    }

    /// Whether there is a package with the log `log_id`.
    pub fn has_package(&self, log_id: &LogId) -> (found: bool)
        requires
            self.wf(),
        ensures
            found == self@.packages.contains_key(log_id@),
    {
        self.state.package(log_id).is_some()
    }

    /// Whether an accepted record of the log `log_id` waits for its leaf to be sent.
    pub fn is_pending(&self, log_id: &LogId) -> (pending: bool)
        requires
            self.wf(),
        ensures
            pending == self@.is_pending(log_id@),
    {
        match self.state.package(log_id) {
            Some(package) => package.is_pending(),
            None => false,
        }
    }

    /// Lets a package come into being where there is none.
    pub fn open_package(&mut self, package_name: String)
        requires
            old(self).wf(),
        ensures
            final(self).wf(),
            final(self)@ == old(self)@.opened(package_name@),
    {
        self.state.entry(package_name);
    }

    /// Submits a record to a package, which comes into being with its first
    /// submission.
    pub fn submit_package_record(
        &mut self,
        package_name: String,
        record: Arc<RecordEnvelope>,
        content_sources: Vec<ContentSource>,
    ) -> (submission: Submission)
        requires
            old(self).wf(),
            !old(self)@.is_pending(package_log_id(package_name@)),
        ensures
            final(self).wf(),
            final(self)@ == old(self)@.submitted(
                package_name@,
                record@,
                source_views(content_sources@),
            ),
            answers(
                old(self)@.verdict(package_name@, record@, source_views(content_sources@)),
                submission,
                package_log_id(package_name@),
                package_record_id(record@),
            ),
    {
        let ghost log_id = package_log_id(package_name@);
        proof {
            self.lemma_wf_valid();
        }
        let position: usize = self.state.entry(package_name);
        let ghost entered = self.state;
        assert(self.state.packages@[position as int]@ == self.state@[log_id]);
        let submission = self.state.packages[position].new_record(record, content_sources);
        proof {
            assert(self.state@ =~= entered@.insert(
                log_id,
                self.state.packages@[position as int]@,
            ));
            assert(self.state@ =~= old(self)@.submitted(
                package_name@,
                record@,
                source_views(content_sources@),
            ).packages);
        }
        submission
    }

    /// Takes note of whether the leaf of the pending record of the log `log_id` could
    /// be sent. Where it could, the record enters its log, and the answer to the
    /// submission is returned. Where it could not, nothing is kept of the record.
    pub fn leaf_delivered(&mut self, log_id: &LogId, sent: bool) -> (answer: Option<RecordState>)
        requires
            old(self).wf(),
            old(self)@.is_pending(log_id@),
        ensures
            final(self).wf(),
            final(self)@ == old(self)@.delivered(log_id@, sent),
            match answer {
                Some(state) => sent && state@ == StateView::Processing,
                None => !sent,
            },
    {
        let ghost before = self.state;
        assert(before.index@.contains_key(log_id@));
        match self.state.index.get(log_id.as_str()) {
            Some(position) => {
                let position: usize = *position;
                let answer = self.state.packages[position].leaf_delivered(sent);
                assert(self.state@ =~= before@.insert(
                    log_id@,
                    self.state.packages@[position as int]@,
                ));
                answer
            },
            None => None,
        }
    }

    /// How far a record of a log has come.
    fn status_in(&self, package_id: &LogId, record_id: &RecordId) -> (state: RecordState)
        requires
            self.wf(),
        ensures
            state@ == self@.status(package_id@, record_id@),
    {
        match self.state.package(package_id) {
            Some(package) => package.record_status(record_id),
            None => RecordState::Unknown,
        }
    }

    /// What is known of a record of a log.
    fn info_in(&self, package_id: &LogId, record_id: &RecordId) -> (info: Option<PackageRecordInfo>)
        requires
            self.wf(),
        ensures
            info_view(info) == self@.info(package_id@, record_id@),
    {
        match self.state.package(package_id) {
            Some(package) => package.record_info(record_id),
            None => None,
        }
    }

    /// The envelopes of a log from the record with the digest `since` on, or all of
    /// them.
    fn fetch_in(&self, package_id: &LogId, since: Option<DynHash>) -> (result: Result<
        Vec<Arc<RecordEnvelope>>,
        FetchError,
    >)
        requires
            self.wf(),
        ensures
            fetched_view(result) == self@.since(package_id@, digest_view(since)),
    {
        match self.state.package(package_id) {
            Some(package) => package.fetch_since(since),
            None => Err(FetchError::PackageNotFound),
        }
    }

    /// Takes a request, and returns the reply.
    pub fn process(&mut self, request: Message) -> (reply: Reply)
        requires
            old(self).wf(),
            request.admissible(old(self)@),
        ensures
            final(self).wf(),
            final(self)@ == request.applied(old(self)@),
            request.answered(old(self)@, reply),
    {
        match request {
            Message::SubmitPackageRecord { package_name, record, content_sources } => {
                let submission = self.submit_package_record(package_name, record, content_sources);
                Reply::Submission { submission }
            },
            Message::GetPackageRecordStatus { package_id, record_id } => Reply::Status {
                state: self.status_in(&package_id, &record_id),
            },
            Message::GetPackageRecordInfo { package_id, record_id } => Reply::Info {
                info: self.info_in(&package_id, &record_id),
            },
            Message::NewCheckpoint { checkpoint, leaves } => {
                self.publish(checkpoint, leaves);
                Reply::Done
            },
            Message::FetchSince { package_id, since } => Reply::Fetched {
                result: self.fetch_in(&package_id, since),
            },
        }
    }

    /// How far a record of a package has come.
    pub fn get_package_record_status(&self, package_name: String, record_id: RecordId) -> (state:
        RecordState)
        requires
            self.wf(),
        ensures
            state@ == self@.status(package_log_id(package_name@), record_id@),
    {
        self.status_in(&LogId::package_log(package_name.as_str()), &record_id)
    }

    /// What is known of a record of a package.
    pub fn get_package_record_info(&self, package_name: String, record_id: RecordId) -> (info:
        Option<PackageRecordInfo>)
        requires
            self.wf(),
        ensures
            info_view(info) == self@.info(package_log_id(package_name@), record_id@),
    {
        self.info_in(&LogId::package_log(package_name.as_str()), &record_id)
    }

    /// Whether the registry knows the record of `leaf`.
    pub fn knows_leaf(&self, leaf: &LogLeaf) -> (known: bool)
        requires
            self.wf(),
        ensures
            known == knows_leaf(self@.packages, leaf@),
    {
        match self.state.package(&leaf.log_id) {
            Some(package) => package.knows(&leaf.record_id),
            None => false,
        }
    }

    /// Publishes the records of `leaves` as of `checkpoint`.
    pub fn new_checkpoint(&mut self, checkpoint: CheckpointEnvelope, leaves: Vec<LogLeaf>)
        requires
            old(self).wf(),
            old(self)@.covers(leaf_views(leaves@)),
        ensures
            final(self).wf(),
            final(self)@ == old(self)@.checkpointed(leaf_views(leaves@), checkpoint),
    {
        self.publish(Arc::new(checkpoint), leaves)
    }

    /// Publishes the records of `leaves` as of `checkpoint`.
    fn publish(&mut self, checkpoint: Arc<CheckpointEnvelope>, leaves: Vec<LogLeaf>)
        requires
            old(self).wf(),
            old(self)@.covers(leaf_views(leaves@)),
        ensures
            final(self).wf(),
            final(self)@ == old(self)@.checkpointed(leaf_views(leaves@), *checkpoint),
    {
        let ghost views = leaf_views(leaves@);
        let mut i: usize = 0;
        proof {
            lemma_published_none(self@.packages, shared(checkpoint));
            assert(views.take(0) =~= Seq::empty());
        }
        while i < leaves.len()
            invariant
                i <= leaves@.len(),
                views == leaf_views(leaves@),
                self.wf(),
                self@.packages == published(old(self)@.packages, views.take(i as int), *checkpoint),
                old(self)@.covers(views),
            decreases leaves@.len() - i,
        {
            let leaf = &leaves[i];
            assert(views[i as int] == leaf@);
            assert(knows_leaf(old(self)@.packages, leaf@));
            assert(self@.packages.contains_key(leaf.log_id@));
            let ghost before = self.state;
            if let Some(position) = self.state.index.get(leaf.log_id.as_str()) {
                let position: usize = *position;
                assert(self@.packages[leaf.log_id@].records.contains_key(leaf.record_id@));
                self.state.packages[position].mark_published(&leaf.record_id, checkpoint.clone());
                proof {
                    assert(self.state@ =~= before@.insert(
                        leaf.log_id@,
                        before@[leaf.log_id@].published(leaf.record_id@, *checkpoint),
                    ));
                    lemma_published_step(
                        old(self)@.packages,
                        views,
                        i as int,
                        shared(checkpoint),
                    );
                }
            }
            i = i + 1;
        }
        assert(views.take(i as int) =~= views);
    }

    /// The envelopes of a package from the record with the digest `since` on, or
    /// all of them.
    pub fn fetch_since(&self, package_name: String, since: Option<DynHash>) -> (result: Result<
        Vec<Arc<RecordEnvelope>>,
        FetchError,
    >)
        requires
            self.wf(),
        ensures
            fetched_view(result) == self@.since(package_log_id(package_name@), digest_view(since)),
    {
        self.fetch_in(&LogId::package_log(package_name.as_str()), since)
    }
}

/// The checkpoint behind a shared pointer.
spec fn shared(checkpoint: Arc<CheckpointEnvelope>) -> CheckpointEnvelope {
    *checkpoint
}

/// A checkpoint without leaves publishes nothing.
proof fn lemma_published_none(packages: Packages, checkpoint: CheckpointEnvelope)
    ensures
        published(packages, Seq::empty(), checkpoint) == packages,
{
    let after = published(packages, Seq::empty(), checkpoint);
    assert forall|id: Seq<char>| packages.contains_key(id) implies #[trigger] after[id]
        == packages[id] by {
        assert(after[id].records =~= packages[id].records);
    }
    assert(after =~= packages);
}

/// One more leaf publishes one more record.
proof fn lemma_published_step(
    packages: Packages,
    leaves: Seq<(Seq<char>, Seq<char>)>,
    i: int,
    checkpoint: CheckpointEnvelope,
)
    requires
        0 <= i < leaves.len(),
        knows_leaf(packages, leaves[i]),
    ensures
        ({
            let before = published(packages, leaves.take(i), checkpoint);
            published(packages, leaves.take(i + 1), checkpoint) == before.insert(
                leaves[i].0,
                before[leaves[i].0].published(leaves[i].1, checkpoint),
            )
        }),
{
    let shorter = leaves.take(i);
    let longer = leaves.take(i + 1);
    assert(longer =~= shorter.push(leaves[i]));
    assert forall|leaf: (Seq<char>, Seq<char>)| #[trigger]
        longer.contains(leaf) <==> shorter.contains(leaf) || leaf == leaves[i] by {
        if shorter.contains(leaf) {
            let k = choose|k: int| 0 <= k < shorter.len() && shorter[k] == leaf;
            assert(longer[k] == leaf);
        }
        assert(longer[i] == leaves[i]);
        if longer.contains(leaf) && leaf != leaves[i] {
            let k = choose|k: int| 0 <= k < longer.len() && longer[k] == leaf;
            assert(shorter[k] == leaf);
        }
    }
    let before = published(packages, shorter, checkpoint);
    let after = published(packages, longer, checkpoint);
    let stepped = before.insert(
        leaves[i].0,
        before[leaves[i].0].published(leaves[i].1, checkpoint),
    );
    assert forall|id: Seq<char>| packages.contains_key(id) implies #[trigger] after[id]
        == stepped[id] by {
        assert(after[id].records =~= stepped[id].records);
    }
    assert(after =~= stepped);
}

} // verus!
