//! What callers of the service get, whatever they ask for: each law speaks of
//! calls, of what went into them and of what came out.
use std::sync::Arc;
use vstd::prelude::*;

use crate::core_service::{
    digest_view, fetched_view, knows_leaf, CoreService, Message, Packages, Reply, ServiceView,
    State,
};
use crate::hash::{leaf_views, DynHash, LogId, LogLeaf, RecordId};
use crate::package_info::{
    digests, first_index, first_missing, is_provided, lemma_first_index, lemma_nothing_missing,
    messages, FetchError, PendingView, Submission,
};
use crate::protocol::{
    package_log_id, package_record_id, record_digest, released_contents, validation, RecordEnvelope,
};
use crate::record::{
    source_views, CheckpointEnvelope, ContentSource, PackageRecordInfo, RecordState, RecordView,
    SourceView, StateView,
};

verus! {

/// The log `log_id`: that of its package, or nothing where there is no package.
pub open spec fn log_of(packages: Packages, log_id: Seq<char>) -> Seq<Seq<u8>> {
    if packages.contains_key(log_id) {
        packages[log_id].log
    } else {
        Seq::empty()
    }
}

/// What is on file under `id` in the log `log_id`.
pub open spec fn on_file(packages: Packages, log_id: Seq<char>, id: Seq<char>) -> Option<
    RecordView,
> {
    if packages.contains_key(log_id) && packages[log_id].records.contains_key(id) {
        Some(packages[log_id].records[id])
    } else {
        None
    }
}

/// What waits for its leaf to be sent in the log `log_id`.
pub open spec fn waiting(packages: Packages, log_id: Seq<char>) -> Option<PendingView> {
    if packages.contains_key(log_id) {
        packages[log_id].pending
    } else {
        None
    }
}

/// Whether the logs other than `log_id` are the same in both.
pub open spec fn others_stay(before: Packages, after: Packages, log_id: Seq<char>) -> bool {
    forall|other: Seq<char>| #![trigger after.contains_key(other)]
        other != log_id ==> {
            &&& after.contains_key(other) == before.contains_key(other)
            &&& after.contains_key(other) ==> after[other] == before[other]
        }
}

/// Whether one of `sources` is for the content with `digest`.
pub open spec fn provides(sources: Seq<ContentSource>, digest: Seq<char>) -> bool {
    exists|i: int| 0 <= i < sources.len() && (#[trigger] sources[i]).content_digest@ == digest
}

/// Whether `sources` are for all contents that `record` releases.
pub open spec fn provides_all(sources: Seq<ContentSource>, record: Seq<u8>) -> bool {
    forall|i: int|
        0 <= i < released_contents(record).len() ==> provides(
            sources,
            #[trigger] released_contents(record)[i],
        )
}

/// Whether `views` stand for `sources`.
pub open spec fn stand_for(views: Seq<SourceView>, sources: Seq<ContentSource>) -> bool {
    &&& views.len() == sources.len()
    &&& forall|i: int|
        0 <= i < sources.len() ==> {
            &&& (#[trigger] views[i]).content_digest == sources[i].content_digest@
            &&& views[i].kind->url == sources[i].kind->url@
        }
}

pub(crate) proof fn lemma_provides(sources: Seq<ContentSource>, digest: Seq<char>)
    ensures
        provides(sources, digest) <==> is_provided(source_views(sources), digest),
{
    let views = source_views(sources);
    if provides(sources, digest) {
        let i = choose|i: int|
            0 <= i < sources.len() && (#[trigger] sources[i]).content_digest@ == digest;
        assert(views[i].content_digest == digest);
    }
    if is_provided(views, digest) {
        let i = choose|i: int|
            0 <= i < views.len() && #[trigger] views[i].content_digest == digest;
        assert(sources[i].content_digest@ == digest);
    }
}

pub(crate) proof fn lemma_provides_all(sources: Seq<ContentSource>, record: Seq<u8>)
    ensures
        provides_all(sources, record) <==> first_missing(
            released_contents(record),
            source_views(sources),
        ) is None,
{
    let needed = released_contents(record);
    lemma_nothing_missing(needed, source_views(sources));
    assert forall|i: int| 0 <= i < needed.len() implies (provides(sources, #[trigger] needed[i])
        <==> is_provided(source_views(sources), needed[i])) by {
        lemma_provides(sources, needed[i]);
    }
}

/// The first digest without a source is the one that is missing first.
pub(crate) proof fn lemma_missing_first(needed: Seq<Seq<char>>, sources: Seq<SourceView>, k: int)
    requires
        0 <= k < needed.len(),
        !is_provided(sources, needed[k]),
        forall|i: int| 0 <= i < k ==> is_provided(sources, #[trigger] needed[i]),
    ensures
        first_missing(needed, sources) == Some(needed[k]),
    decreases needed.len(),
{
    let shorter = needed.drop_last();
    if k < shorter.len() {
        lemma_missing_first(shorter, sources, k);
    } else {
        lemma_nothing_missing(shorter, sources);
    }
}

/// Whatever requests a service has had: every record of a log may follow those before
/// it by the rules of package logs, and is on file; every record is on file under its
/// own identifier, and in some state; one in process is in its log; and one that
/// waits may follow the log as it is and has sources for all its contents.
pub proof fn law_every_log_follows_the_rules(
    service: CoreService,
    log_id: Seq<char>,
    i: int,
    id: Seq<char>,
)
    requires
        service.wf(),
    ensures
        ({
            let packages = service@.packages;
            let log = log_of(packages, log_id);
            &&& 0 <= i < log.len() ==> {
                &&& validation(log.take(i), log[i]) is Ok
                &&& on_file(packages, log_id, package_record_id(log[i])) is Some
            }
            &&& on_file(packages, log_id, id) matches Some(filed) ==> {
                &&& id == package_record_id(filed.record)
                &&& !(filed.state is Unknown)
                &&& filed.state is Processing ==> {
                    &&& log.contains(filed.record)
                    &&& forall|k: int|
                        0 <= k < released_contents(filed.record).len() ==> exists|j: int|
                            0 <= j < filed.content_sources.len() && (
                            #[trigger] filed.content_sources[j]).content_digest
                                == #[trigger] released_contents(filed.record)[k]
                }
            }
            &&& waiting(packages, log_id) matches Some(pending) ==> {
                &&& validation(log, pending.record) is Ok
                &&& forall|k: int|
                    0 <= k < released_contents(pending.record).len() ==> exists|j: int|
                        0 <= j < pending.sources.len() && (
                        #[trigger] pending.sources[j]).content_digest
                            == #[trigger] released_contents(pending.record)[k]
            }
        }),
{
    service.lemma_wf_valid();
    let packages = service@.packages;
    if packages.contains_key(log_id) {
        let package = packages[log_id];
        assert(package.valid());
        if 0 <= i < package.log.len() {
            assert(package.records.contains_key(package_record_id(package.log[i])));
        }
        if package.records.contains_key(id) {
            let filed = package.records[id];
            lemma_nothing_missing(released_contents(filed.record), filed.content_sources);
            assert forall|k: int|
                filed.state is Processing && 0 <= k < released_contents(
                    filed.record,
                ).len() implies exists|j: int|
                0 <= j < filed.content_sources.len() && (
                #[trigger] filed.content_sources[j]).content_digest
                    == #[trigger] released_contents(filed.record)[k] by {
                assert(is_provided(filed.content_sources, released_contents(filed.record)[k]));
            }
        }
        if let Some(pending) = package.pending {
            lemma_nothing_missing(released_contents(pending.record), pending.sources);
            assert forall|k: int| 0 <= k < released_contents(pending.record).len() implies exists|
                j: int,
            |
                0 <= j < pending.sources.len() && (#[trigger] pending.sources[j]).content_digest
                    == #[trigger] released_contents(pending.record)[k] by {
                assert(is_provided(pending.sources, released_contents(pending.record)[k]));
            }
        }
    }
}

/// A submission is answered by what the rules of package logs say of the record
/// behind the log as it is, and by nothing else but the sources: a record that the
/// rules turn down is rejected with what they say; one that they let pass and whose
/// contents all have sources is taken, and the leaf to be sent names its log and
/// itself; any other is rejected for the first content that has no source.
pub proof fn law_submission_is_judged(
    service: &mut CoreService,
    package_name: String,
    record: Arc<RecordEnvelope>,
    content_sources: Vec<ContentSource>,
    submission: Submission,
)
    requires
        old(service).wf(),
        waiting(old(service)@.packages, package_log_id(package_name@)) is None,
        call_ensures(
            CoreService::submit_package_record,
            (service, package_name, record, content_sources),
            submission,
        ),
    ensures
        ({
            let log_id = package_log_id(package_name@);
            let said = validation(log_of(old(service)@.packages, log_id), record@);
            let needed = released_contents(record@);
            &&& said is Err ==> {
                &&& submission matches Submission::Answered { state }
                &&& state matches RecordState::Rejected { reason }
                &&& reason@ == said->Err_0
            }
            &&& said is Ok && provides_all(content_sources@, record@) ==> {
                &&& submission matches Submission::Announce { leaf }
                &&& leaf.log_id@ == log_id
                &&& leaf.record_id@ == package_record_id(record@)
            }
            &&& forall|k: int|
                said is Ok && 0 <= k < needed.len() && !provides(
                    content_sources@,
                    #[trigger] needed[k],
                ) && (forall|i: int|
                    0 <= i < k ==> provides(content_sources@, #[trigger] needed[i])) ==> {
                    &&& submission matches Submission::Answered { state }
                    &&& state matches RecordState::Rejected { reason }
                    &&& reason@ == "Needed content "@ + needed[k] + " but not provided"@
                }
        }),
{
    let needed = released_contents(record@);
    let views = source_views(content_sources@);
    lemma_provides_all(content_sources@, record@);
    assert forall|k: int|
        0 <= k < needed.len() && !provides(content_sources@, #[trigger] needed[k]) && (forall|
            i: int,
        |
            0 <= i < k ==> provides(content_sources@, #[trigger] needed[i])) implies first_missing(
        needed,
        views,
    ) == Some(needed[k]) by {
        lemma_provides(content_sources@, needed[k]);
        assert forall|i: int| 0 <= i < k implies is_provided(views, #[trigger] needed[i]) by {
            assert(provides(content_sources@, needed[i]));
            lemma_provides(content_sources@, needed[i]);
        }
        lemma_missing_first(needed, views, k);
    }
}

/// A submission leaves every other package alone, and of its own package the log and
/// all that is on file of other records. Only a record that the rules turn down goes
/// on file, as rejected; only one that is taken waits for its leaf to be sent.
pub proof fn law_submission_keeps_the_rest(
    service: &mut CoreService,
    package_name: String,
    record: Arc<RecordEnvelope>,
    content_sources: Vec<ContentSource>,
    submission: Submission,
)
    requires
        old(service).wf(),
        waiting(old(service)@.packages, package_log_id(package_name@)) is None,
        call_ensures(
            CoreService::submit_package_record,
            (service, package_name, record, content_sources),
            submission,
        ),
    ensures
        ({
            let log_id = package_log_id(package_name@);
            let record_id = package_record_id(record@);
            let before = old(service)@.packages;
            let after = final(service)@.packages;
            let said = validation(log_of(before, log_id), record@);
            &&& final(service).wf()
            &&& others_stay(before, after, log_id)
            &&& after.contains_key(log_id)
            &&& log_of(after, log_id) == log_of(before, log_id)
            &&& forall|id: Seq<char>| #![trigger on_file(after, log_id, id)]
                id != record_id || said is Ok ==> on_file(after, log_id, id) == on_file(
                    before,
                    log_id,
                    id,
                )
            &&& said is Err ==> {
                &&& on_file(after, log_id, record_id) matches Some(filed)
                &&& filed.record == record@
                &&& stand_for(filed.content_sources, content_sources@)
                &&& filed.state == StateView::Rejected { reason: said->Err_0 }
            }
            &&& said is Ok && provides_all(content_sources@, record@) ==> {
                &&& waiting(after, log_id) matches Some(pending)
                &&& pending.record == record@
                &&& stand_for(pending.sources, content_sources@)
            }
            &&& said is Err || !provides_all(content_sources@, record@) ==> waiting(
                after,
                log_id,
            ) is None
        }),
{
    lemma_provides_all(content_sources@, record@);
    old(service).lemma_wf_valid();
}

/// When the leaf of a waiting record has been sent, the record stands at the end of
/// its log and is on file as in process, with the sources that it came with; when it
/// could not be sent, nothing remains of the record. Either way nothing waits any
/// longer, and nothing else changes.
pub proof fn law_delivery_settles_what_waits(
    service: &mut CoreService,
    log_id: LogId,
    sent: bool,
    answer: Option<RecordState>,
)
    requires
        old(service).wf(),
        waiting(old(service)@.packages, log_id@) is Some,
        call_ensures(CoreService::leaf_delivered, (service, &log_id, sent), answer),
    ensures
        ({
            let before = old(service)@.packages;
            let after = final(service)@.packages;
            let pending = waiting(before, log_id@)->0;
            let record_id = package_record_id(pending.record);
            &&& final(service).wf()
            &&& others_stay(before, after, log_id@)
            &&& after.contains_key(log_id@)
            &&& waiting(after, log_id@) is None
            &&& log_of(after, log_id@) == if sent {
                log_of(before, log_id@).push(pending.record)
            } else {
                log_of(before, log_id@)
            }
            &&& forall|id: Seq<char>| #![trigger on_file(after, log_id@, id)]
                !sent || id != record_id ==> on_file(after, log_id@, id) == on_file(
                    before,
                    log_id@,
                    id,
                )
            &&& sent ==> {
                &&& on_file(after, log_id@, record_id) matches Some(filed)
                &&& filed.record == pending.record
                &&& filed.content_sources == pending.sources
                &&& filed.state is Processing
            }
            &&& sent ==> (answer matches Some(state) && state is Processing)
            &&& !sent ==> answer is None
        }),
{
}

/// To open a package changes no package that is there; a new one has an empty log,
/// nothing on file and nothing that waits.
pub proof fn law_opening_adds_an_empty_package(service: &mut CoreService, package_name: String)
    requires
        old(service).wf(),
        call_ensures(CoreService::open_package, (service, package_name), ()),
    ensures
        ({
            let log_id = package_log_id(package_name@);
            let before = old(service)@.packages;
            let after = final(service)@.packages;
            &&& final(service).wf()
            &&& others_stay(before, after, log_id)
            &&& after.contains_key(log_id)
            &&& before.contains_key(log_id) ==> after[log_id] == before[log_id]
            &&& !before.contains_key(log_id) ==> {
                &&& log_of(after, log_id).len() == 0
                &&& waiting(after, log_id) is None
                &&& forall|id: Seq<char>| (#[trigger] on_file(after, log_id, id)) is None
            }
        }),
{
}

/// The status of a record is the state that is on file for it, and unknown where
/// nothing is.
pub proof fn law_status_is_what_is_on_file(
    service: CoreService,
    package_name: String,
    record_id: RecordId,
    state: RecordState,
)
    requires
        service.wf(),
        call_ensures(
            CoreService::get_package_record_status,
            (&service, package_name, record_id),
            state,
        ),
    ensures
        match on_file(service@.packages, package_log_id(package_name@), record_id@) {
            Some(filed) => state@ == filed.state,
            None => state is Unknown,
        },
{
}

/// What is said of a record is what is on file for it, all of it, and nothing where
/// nothing is.
pub proof fn law_info_is_what_is_on_file(
    service: CoreService,
    package_name: String,
    record_id: RecordId,
    info: Option<PackageRecordInfo>,
)
    requires
        service.wf(),
        call_ensures(
            CoreService::get_package_record_info,
            (&service, package_name, record_id),
            info,
        ),
    ensures
        match on_file(service@.packages, package_log_id(package_name@), record_id@) {
            Some(filed) => {
                &&& info matches Some(found)
                &&& found.record@ == filed.record
                &&& stand_for(filed.content_sources, found.content_sources@)
                &&& found.state@ == filed.state
            },
            None => info is None,
        },
{
}

/// Whether `envelopes` are those of `log`.
pub open spec fn hold(envelopes: Seq<Arc<RecordEnvelope>>, log: Seq<Seq<u8>>) -> bool {
    &&& envelopes.len() == log.len()
    &&& forall|i: int| 0 <= i < log.len() ==> (#[trigger] envelopes[i])@ == log[i]
}

/// Whether `result` is what a fetch from `packages` is to give: an error where there
/// is no package; the whole log where no digest is given; otherwise the log from the
/// first record on that has the digest, and an error where none has it.
pub open spec fn fetched(
    packages: Packages,
    log_id: Seq<char>,
    since: Option<DynHash>,
    result: Result<Vec<Arc<RecordEnvelope>>, FetchError>,
) -> bool {
    let log = log_of(packages, log_id);
    &&& !packages.contains_key(log_id) ==> result == Err::<Vec<Arc<RecordEnvelope>>, _>(
        FetchError::PackageNotFound,
    )
    &&& packages.contains_key(log_id) && since is None ==> {
        &&& result matches Ok(envelopes)
        &&& hold(envelopes@, log)
    }
    &&& packages.contains_key(log_id) && since is Some ==> {
        &&& forall|k: int|
            0 <= k < log.len() && record_digest(#[trigger] log[k]) == since->0@ && (forall|i: int|
                0 <= i < k ==> record_digest(#[trigger] log[i]) != since->0@) ==> {
                &&& result matches Ok(envelopes)
                &&& hold(envelopes@, log.skip(k))
            }
        &&& (forall|i: int|
            0 <= i < log.len() ==> record_digest(#[trigger] log[i]) != since->0@) ==> result
            == Err::<Vec<Arc<RecordEnvelope>>, _>(FetchError::HashNotFound)
    }
}

pub(crate) proof fn lemma_fetched(
    service: ServiceView,
    log_id: Seq<char>,
    since: Option<DynHash>,
    result: Result<Vec<Arc<RecordEnvelope>>, FetchError>,
)
    requires
        fetched_view(result) == service.since(log_id, digest_view(since)),
    ensures
        fetched(service.packages, log_id, since, result),
{
    let packages = service.packages;
    let log = log_of(packages, log_id);
    if let Ok(envelopes) = result {
        let views = messages(envelopes@);
        assert forall|part: Seq<Seq<u8>>| views == part implies #[trigger] hold(
            envelopes@,
            part,
        ) by {
            assert forall|i: int| 0 <= i < part.len() implies (#[trigger] envelopes@[i])@
                == part[i] by {
                assert(views[i] == envelopes@[i]@);
            }
        }
    }
    if packages.contains_key(log_id) && since is Some {
        let digest = since->0@;
        let found = digests(log);
        lemma_first_index(found, digest);
        assert forall|i: int| 0 <= i < log.len() implies #[trigger] found[i] == record_digest(
            log[i],
        ) by {}
        assert forall|k: int|
            0 <= k < log.len() && record_digest(#[trigger] log[k]) == digest && (forall|i: int|
                0 <= i < k ==> record_digest(#[trigger] log[i]) != digest) implies {
            &&& result matches Ok(envelopes)
            &&& hold(envelopes@, log.skip(k))
        } by {
            assert(found[k] == digest);
            let index = first_index(found, digest)->0;
            if index < k {
                assert(record_digest(log[index]) != digest);
            }
            if k < index {
                assert(found[k] != digest);
            }
            assert(hold(result->Ok_0@, log.skip(k)));
        }
        if forall|i: int| 0 <= i < log.len() ==> record_digest(#[trigger] log[i]) != digest {
            if first_index(found, digest) is Some {
                let index = first_index(found, digest)->0;
                assert(record_digest(log[index]) != digest);
            }
        }
    }
}

/// A fetch gives the whole log, or the whole rest of it from the first record on
/// that has the digest.
pub proof fn law_fetch_leaves_nothing_out(
    service: CoreService,
    package_name: String,
    since: Option<DynHash>,
    result: Result<Vec<Arc<RecordEnvelope>>, FetchError>,
)
    requires
        service.wf(),
        call_ensures(CoreService::fetch_since, (&service, package_name, since), result),
    ensures
        fetched(service@.packages, package_log_id(package_name@), since, result),
{
    lemma_fetched(service@, package_log_id(package_name@), since, result);
}

/// What a caller can find out about the requests that the service takes is right.
pub proof fn law_conditions_can_be_tested(
    service: CoreService,
    log_id: LogId,
    leaf: LogLeaf,
    has_package: bool,
    is_pending: bool,
    knows_leaf: bool,
)
    requires
        service.wf(),
        call_ensures(CoreService::has_package, (&service, &log_id), has_package),
        call_ensures(CoreService::is_pending, (&service, &log_id), is_pending),
        call_ensures(CoreService::knows_leaf, (&service, &leaf), knows_leaf),
    ensures
        has_package == service@.packages.contains_key(log_id@),
        is_pending == (waiting(service@.packages, log_id@) is Some),
        knows_leaf == (on_file(service@.packages, leaf.log_id@, leaf.record_id@) is Some),
{
}

/// Whether one of `leaves` names the record `id` of the log `log_id`.
pub open spec fn names(leaves: Seq<LogLeaf>, log_id: Seq<char>, id: Seq<char>) -> bool {
    exists|i: int|
        0 <= i < leaves.len() && (#[trigger] leaves[i]).log_id@ == log_id
            && leaves[i].record_id@ == id
}

/// Whether `after` is `before` with every record published that `leaves` name, and
/// nothing else changed.
pub open spec fn publishes(
    before: Packages,
    after: Packages,
    leaves: Seq<LogLeaf>,
    checkpoint: CheckpointEnvelope,
) -> bool {
    &&& forall|log_id: Seq<char>| #[trigger]
        after.contains_key(log_id) == before.contains_key(log_id)
    &&& forall|log_id: Seq<char>| #[trigger] log_of(after, log_id) == log_of(before, log_id)
    &&& forall|log_id: Seq<char>| #[trigger] waiting(after, log_id) == waiting(before, log_id)
    &&& forall|log_id: Seq<char>, id: Seq<char>| #![trigger on_file(after, log_id, id)]
        match on_file(before, log_id, id) {
            None => on_file(after, log_id, id) is None,
            Some(filed) => {
                &&& on_file(after, log_id, id) matches Some(now)
                &&& now.record == filed.record
                &&& now.content_sources == filed.content_sources
                &&& names(leaves, log_id, id) ==> now.state == StateView::Published { checkpoint }
                &&& !names(leaves, log_id, id) ==> now.state == filed.state
            },
        }
}

/// Whether the service knows all that `leaves` name, and none of their packages
/// waits for a leaf to be sent.
pub open spec fn ready_for(packages: Packages, leaves: Seq<LogLeaf>) -> bool {
    forall|i: int|
        0 <= i < leaves.len() ==> {
            &&& on_file(packages, (#[trigger] leaves[i]).log_id@, leaves[i].record_id@) is Some
            &&& waiting(packages, leaves[i].log_id@) is None
        }
}

proof fn lemma_names(leaves: Seq<LogLeaf>, log_id: Seq<char>, id: Seq<char>)
    ensures
        names(leaves, log_id, id) <==> leaf_views(leaves).contains((log_id, id)),
{
    let views = leaf_views(leaves);
    if names(leaves, log_id, id) {
        let i = choose|i: int|
            0 <= i < leaves.len() && (#[trigger] leaves[i]).log_id@ == log_id
                && leaves[i].record_id@ == id;
        assert(views[i] == (log_id, id));
    }
    if views.contains((log_id, id)) {
        let i = choose|i: int| 0 <= i < views.len() && views[i] == (log_id, id);
        assert(leaves[i]@ == (log_id, id));
    }
}

proof fn lemma_publishes(service: ServiceView, leaves: Seq<LogLeaf>, checkpoint: CheckpointEnvelope)
    ensures
        publishes(
            service.packages,
            service.checkpointed(leaf_views(leaves), checkpoint).packages,
            leaves,
            checkpoint,
        ),
{
    let before = service.packages;
    let after = service.checkpointed(leaf_views(leaves), checkpoint).packages;
    assert forall|log_id: Seq<char>, id: Seq<char>| names(leaves, log_id, id) <==> #[trigger]
        leaf_views(leaves).contains((log_id, id)) by {
        lemma_names(leaves, log_id, id);
    }
    assert forall|log_id: Seq<char>, id: Seq<char>|
        #![trigger on_file(after, log_id, id)]
        match on_file(before, log_id, id) {
            None => on_file(after, log_id, id) is None,
            Some(filed) => {
                &&& on_file(after, log_id, id) matches Some(now)
                &&& now.record == filed.record
                &&& now.content_sources == filed.content_sources
                &&& names(leaves, log_id, id) ==> now.state == StateView::Published { checkpoint }
                &&& !names(leaves, log_id, id) ==> now.state == filed.state
            },
        } by {
        lemma_names(leaves, log_id, id);
    }
}

proof fn lemma_ready(service: ServiceView, leaves: Seq<LogLeaf>)
    ensures
        ready_for(service.packages, leaves) ==> service.covers(leaf_views(leaves)),
{
    let views = leaf_views(leaves);
    if ready_for(service.packages, leaves) {
        assert forall|i: int| 0 <= i < views.len() implies {
            &&& knows_leaf(service.packages, #[trigger] views[i])
            &&& !service.is_pending(views[i].0)
        } by {
            assert(views[i] == leaves[i]@);
            assert(on_file(service.packages, leaves[i].log_id@, leaves[i].record_id@) is Some);
        }
    }
}

/// A checkpoint publishes every record that one of its leaves names, whichever leaf
/// that is, and changes nothing else.
pub proof fn law_checkpoint_publishes_all_it_names(
    service: &mut CoreService,
    checkpoint: CheckpointEnvelope,
    leaves: Vec<LogLeaf>,
)
    requires
        old(service).wf(),
        ready_for(old(service)@.packages, leaves@),
        call_ensures(CoreService::new_checkpoint, (service, checkpoint, leaves), ()),
    ensures
        final(service).wf(),
        publishes(old(service)@.packages, final(service)@.packages, leaves@, checkpoint),
{
    lemma_ready(old(service)@, leaves@);
    lemma_publishes(old(service)@, leaves@, checkpoint);
}

/// Whether two submissions were answered alike.
pub open spec fn answered_alike(a: Submission, b: Submission) -> bool {
    match (a, b) {
        (Submission::Announce { leaf: a }, Submission::Announce { leaf: b }) => {
            a.log_id@ == b.log_id@ && a.record_id@ == b.record_id@
        },
        (Submission::Answered { state: a }, Submission::Answered { state: b }) => a@ == b@,
        _ => false,
    }
}

/// A request to submit a record does what the submission of that record does, and
/// the reply is the answer to it.
pub proof fn law_submit_request_is_a_submission(
    service: &mut CoreService,
    other: &mut CoreService,
    package_name: String,
    record: Arc<RecordEnvelope>,
    content_sources: Vec<ContentSource>,
    reply: Reply,
    submission: Submission,
)
    requires
        old(service).wf(),
        *old(service) == *old(other),
        waiting(old(service)@.packages, package_log_id(package_name@)) is None,
        call_ensures(
            CoreService::process,
            (service, Message::SubmitPackageRecord { package_name, record, content_sources }),
            reply,
        ),
        call_ensures(
            CoreService::submit_package_record,
            (other, package_name, record, content_sources),
            submission,
        ),
    ensures
        final(service).wf(),
        final(service)@ == final(other)@,
        reply matches Reply::Submission { submission: replied } && answered_alike(
            replied,
            submission,
        ),
{
}

/// The reply to a request for the status of a record is the state that is on file
/// for it, and unknown where nothing is. The request changes nothing.
pub proof fn law_status_request_is_answered(
    service: &mut CoreService,
    package_id: LogId,
    record_id: RecordId,
    reply: Reply,
)
    requires
        old(service).wf(),
        call_ensures(
            CoreService::process,
            (service, Message::GetPackageRecordStatus { package_id, record_id }),
            reply,
        ),
    ensures
        final(service).wf(),
        final(service)@ == old(service)@,
        ({
            &&& reply matches Reply::Status { state }
            &&& match on_file(old(service)@.packages, package_id@, record_id@) {
                Some(filed) => state@ == filed.state,
                None => state is Unknown,
            }
        }),
{
}

/// The reply to a request for what is known of a record is all that is on file for
/// it, and nothing only where nothing is. The request changes nothing.
pub proof fn law_info_request_is_answered(
    service: &mut CoreService,
    package_id: LogId,
    record_id: RecordId,
    reply: Reply,
)
    requires
        old(service).wf(),
        call_ensures(
            CoreService::process,
            (service, Message::GetPackageRecordInfo { package_id, record_id }),
            reply,
        ),
    ensures
        final(service).wf(),
        final(service)@ == old(service)@,
        ({
            &&& reply matches Reply::Info { info }
            &&& match on_file(old(service)@.packages, package_id@, record_id@) {
                Some(filed) => {
                    &&& info matches Some(found)
                    &&& found.record@ == filed.record
                    &&& stand_for(filed.content_sources, found.content_sources@)
                    &&& found.state@ == filed.state
                },
                None => info is None,
            }
        }),
{
}

/// The reply to a request for records is the whole log, or the whole rest of it. The
/// request changes nothing.
pub proof fn law_fetch_request_is_answered(
    service: &mut CoreService,
    package_id: LogId,
    since: Option<DynHash>,
    reply: Reply,
)
    requires
        old(service).wf(),
        call_ensures(
            CoreService::process,
            (service, Message::FetchSince { package_id, since }),
            reply,
        ),
    ensures
        final(service).wf(),
        final(service)@ == old(service)@,
        reply matches Reply::Fetched { result } && fetched(
            old(service)@.packages,
            package_id@,
            since,
            result,
        ),
{
    if let Reply::Fetched { result } = reply {
        lemma_fetched(old(service)@, package_id@, since, result);
    }
}

/// A request with a checkpoint publishes every record that one of its leaves names,
/// and changes nothing else.
pub proof fn law_checkpoint_request_publishes_all_it_names(
    service: &mut CoreService,
    checkpoint: Arc<CheckpointEnvelope>,
    leaves: Vec<LogLeaf>,
    reply: Reply,
)
    requires
        old(service).wf(),
        ready_for(old(service)@.packages, leaves@),
        call_ensures(
            CoreService::process,
            (service, Message::NewCheckpoint { checkpoint, leaves }),
            reply,
        ),
    ensures
        final(service).wf(),
        publishes(old(service)@.packages, final(service)@.packages, leaves@, *checkpoint),
        reply is Done,
{
    lemma_ready(old(service)@, leaves@);
    lemma_publishes_shared(old(service)@, leaves@, checkpoint);
}

proof fn lemma_publishes_shared(
    service: ServiceView,
    leaves: Seq<LogLeaf>,
    checkpoint: Arc<CheckpointEnvelope>,
)
    ensures
        publishes(
            service.packages,
            service.checkpointed(leaf_views(leaves), *checkpoint).packages,
            leaves,
            *checkpoint,
        ),
{
    lemma_publishes(service, leaves, shared(checkpoint));
}

/// The checkpoint behind a shared pointer.
spec fn shared(checkpoint: Arc<CheckpointEnvelope>) -> CheckpointEnvelope {
    *checkpoint
}

/// The service takes a submission to every package that waits for nothing, a
/// checkpoint whose leaves it knows and whose packages wait for nothing, the delivery
/// of a leaf that is waited for, and every question.
pub proof fn law_requests_are_taken(
    service: &mut CoreService,
    package_name: String,
    record: Arc<RecordEnvelope>,
    content_sources: Vec<ContentSource>,
    log_id: LogId,
    record_id: RecordId,
    sent: bool,
    checkpoint: CheckpointEnvelope,
    shared: Arc<CheckpointEnvelope>,
    leaves: Vec<LogLeaf>,
    leaf: LogLeaf,
    since: Option<DynHash>,
)
    requires
        old(service).wf(),
    ensures
        waiting(old(service)@.packages, package_log_id(package_name@)) is None ==> {
            &&& call_requires(
                CoreService::submit_package_record,
                (service, package_name, record, content_sources),
            )
            &&& call_requires(
                CoreService::process,
                (service, Message::SubmitPackageRecord { package_name, record, content_sources }),
            )
        },
        ready_for(old(service)@.packages, leaves@) ==> {
            &&& call_requires(CoreService::new_checkpoint, (service, checkpoint, leaves))
            &&& call_requires(
                CoreService::process,
                (service, Message::NewCheckpoint { checkpoint: shared, leaves }),
            )
        },
        waiting(old(service)@.packages, log_id@) is Some ==> call_requires(
            CoreService::leaf_delivered,
            (service, &log_id, sent),
        ),
        call_requires(CoreService::open_package, (service, package_name)),
        call_requires(
            CoreService::process,
            (service, Message::GetPackageRecordStatus { package_id: log_id, record_id }),
        ),
        call_requires(
            CoreService::process,
            (service, Message::GetPackageRecordInfo { package_id: log_id, record_id }),
        ),
        call_requires(
            CoreService::process,
            (service, Message::FetchSince { package_id: log_id, since }),
        ),
        call_requires(
            CoreService::get_package_record_status,
            (&*old(service), package_name, record_id),
        ),
        call_requires(
            CoreService::get_package_record_info,
            (&*old(service), package_name, record_id),
        ),
        call_requires(CoreService::fetch_since, (&*old(service), package_name, since)),
        call_requires(CoreService::has_package, (&*old(service), &log_id)),
        call_requires(CoreService::is_pending, (&*old(service), &log_id)),
        call_requires(CoreService::knows_leaf, (&*old(service), &leaf)),
        call_requires(CoreService::into_state, (*old(service),)),
{
    lemma_ready(old(service)@, leaves@);
}

/// A registry begins without packages, and what one service leaves behind another
/// begins with.
pub proof fn law_packages_outlive_the_service(
    fresh: State,
    unset: State,
    initial: State,
    service: CoreService,
    ended: CoreService,
    state: State,
)
    requires
        call_ensures(State::new, (), fresh),
        call_ensures(State::default, (), unset),
        initial.wf(),
        call_ensures(CoreService::start, (initial,), service),
        ended.wf(),
        call_ensures(CoreService::into_state, (ended,), state),
    ensures
        fresh.wf() && unset.wf() && state.wf() && service.wf(),
        forall|log_id: Seq<char>| !(#[trigger] fresh@.contains_key(log_id)),
        forall|log_id: Seq<char>| !(#[trigger] unset@.contains_key(log_id)),
        service@.packages == initial@,
        state@ == ended@.packages,
        call_requires(CoreService::start, (initial,)),
        call_requires(CoreService::start, (state,)),
{
}

/// A submission, and the delivery of its leaf, change nothing that is said of any
/// other record, be it of another package or an earlier one of the same package.
pub proof fn law_other_records_keep_their_status(
    submitting: &mut CoreService,
    delivering: &mut CoreService,
    package_name: String,
    record: Arc<RecordEnvelope>,
    content_sources: Vec<ContentSource>,
    submission: Submission,
    log_id: LogId,
    sent: bool,
    answer: Option<RecordState>,
    other_name: String,
    other_id: RecordId,
    before: RecordState,
    between: RecordState,
    after: RecordState,
)
    requires
        old(submitting).wf(),
        waiting(old(submitting)@.packages, package_log_id(package_name@)) is None,
        package_log_id(other_name@) != package_log_id(package_name@) || other_id@
            != package_record_id(record@),
        call_ensures(
            CoreService::get_package_record_status,
            (&*old(submitting), other_name, other_id),
            before,
        ),
        call_ensures(
            CoreService::submit_package_record,
            (submitting, package_name, record, content_sources),
            submission,
        ),
        call_ensures(
            CoreService::get_package_record_status,
            (&*final(submitting), other_name, other_id),
            between,
        ),
        submission is Announce,
        *old(delivering) == *final(submitting),
        log_id@ == submission->leaf.log_id@,
        call_ensures(CoreService::leaf_delivered, (delivering, &log_id, sent), answer),
        call_ensures(
            CoreService::get_package_record_status,
            (&*final(delivering), other_name, other_id),
            after,
        ),
    ensures
        before@ == between@,
        between@ == after@,
{
    old(submitting).lemma_wf_valid();
}

/// A record that was announced and whose leaf was sent is then in process, and
/// fetched behind all that was fetched before.
pub proof fn law_what_is_taken_is_fetched(
    submitting: &mut CoreService,
    delivering: &mut CoreService,
    package_name: String,
    record: Arc<RecordEnvelope>,
    content_sources: Vec<ContentSource>,
    leaf: LogLeaf,
    answer: Option<RecordState>,
    before: Vec<Arc<RecordEnvelope>>,
    after: Result<Vec<Arc<RecordEnvelope>>, FetchError>,
    state: RecordState,
)
    requires
        old(submitting).wf(),
        waiting(old(submitting)@.packages, package_log_id(package_name@)) is None,
        call_ensures(
            CoreService::fetch_since,
            (&*old(submitting), package_name, None::<DynHash>),
            Ok::<_, FetchError>(before),
        ),
        call_ensures(
            CoreService::submit_package_record,
            (submitting, package_name, record, content_sources),
            Submission::Announce { leaf },
        ),
        *old(delivering) == *final(submitting),
        call_ensures(CoreService::leaf_delivered, (delivering, &leaf.log_id, true), answer),
        call_ensures(
            CoreService::fetch_since,
            (&*final(delivering), package_name, None::<DynHash>),
            after,
        ),
        call_ensures(
            CoreService::get_package_record_status,
            (&*final(delivering), package_name, leaf.record_id),
            state,
        ),
    ensures
        state is Processing,
        ({
            &&& after matches Ok(envelopes)
            &&& envelopes@.len() == before@.len() + 1
            &&& forall|i: int|
                0 <= i < before@.len() ==> (#[trigger] envelopes@[i])@ == before@[i]@
            &&& envelopes@[before@.len() as int]@ == record@
        }),
{
    let log_id = package_log_id(package_name@);
    old(submitting).lemma_wf_valid();
    lemma_fetched(old(submitting)@, log_id, None, Ok(before));
    lemma_fetched(final(delivering)@, log_id, None, after);
}

/// A published record is said to be published as of that checkpoint, and all else
/// that is said of it stays.
pub proof fn law_what_is_published_is_said_to_be(
    service: &mut CoreService,
    checkpoint: CheckpointEnvelope,
    leaves: Vec<LogLeaf>,
    i: int,
    package_name: String,
    record_id: RecordId,
    before: Option<PackageRecordInfo>,
    after: Option<PackageRecordInfo>,
    state: RecordState,
)
    requires
        old(service).wf(),
        ready_for(old(service)@.packages, leaves@),
        0 <= i < leaves@.len(),
        leaves@[i].log_id@ == package_log_id(package_name@),
        leaves@[i].record_id@ == record_id@,
        call_ensures(
            CoreService::get_package_record_info,
            (&*old(service), package_name, record_id),
            before,
        ),
        call_ensures(CoreService::new_checkpoint, (service, checkpoint, leaves), ()),
        call_ensures(
            CoreService::get_package_record_info,
            (&*final(service), package_name, record_id),
            after,
        ),
        call_ensures(
            CoreService::get_package_record_status,
            (&*final(service), package_name, record_id),
            state,
        ),
    ensures
        before is Some && after is Some,
        after->0.record@ == before->0.record@,
        forall|j: int|
            0 <= j < before->0.content_sources@.len() ==> after->0.content_sources@.len()
                == before->0.content_sources@.len() && (#[trigger] after->0.content_sources@[j])@
                == before->0.content_sources@[j]@,
        state matches RecordState::Published { checkpoint: said } && *said == checkpoint,
        after->0.state matches RecordState::Published { checkpoint: said } && *said == checkpoint,
{
    let before_packages = old(service)@.packages;
    let after_packages = final(service)@.packages;
    let log_id = package_log_id(package_name@);
    lemma_ready(old(service)@, leaves@);
    lemma_publishes(old(service)@, leaves@, checkpoint);
    assert(names(leaves@, log_id, record_id@));
    assert(on_file(before_packages, log_id, record_id@) is Some);
    let filed = on_file(before_packages, log_id, record_id@)->0;
    let now = on_file(after_packages, log_id, record_id@)->0;
    assert(now.content_sources == filed.content_sources);
    let old_sources = source_views(before->0.content_sources@);
    let new_sources = source_views(after->0.content_sources@);
    assert(old_sources == new_sources);
    assert forall|j: int| 0 <= j < before->0.content_sources@.len() implies
        after->0.content_sources@.len() == before->0.content_sources@.len() && (
    #[trigger] after->0.content_sources@[j])@ == before->0.content_sources@[j]@ by {
        assert(old_sources[j] == before->0.content_sources@[j]@);
        assert(new_sources[j] == after->0.content_sources@[j]@);
    }
}

} // verus!
