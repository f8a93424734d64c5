//! What callers of one package get, whatever they ask for.
use std::sync::Arc;
use vstd::prelude::*;

use crate::core_service::State;
use crate::hash::{DynHash, LogId, RecordId};
use crate::package_info::{
    first_index, is_provided, lemma_first_index, lemma_nothing_missing, records_since, review,
    FetchError, PackageInfo, Review, Submission,
};
use crate::protocol::{hash_texts, package_log_id, package_record_id, validation, RecordEnvelope};
use crate::record::{
    source_views, CheckpointEnvelope, ContentSource, PackageRecordInfo, RecordState, StateView,
};
use crate::request_laws::{
    fetched, lemma_fetched, lemma_missing_first, lemma_provides, lemma_provides_all, provides,
    provides_all, stand_for,
};

verus! {

/// A new package has an empty log, nothing on file and nothing that waits, and its
/// log has the identifier that its name gives.
pub proof fn law_new_package_is_empty(name: String, package: PackageInfo)
    requires
        call_ensures(PackageInfo::new, (name,), package),
    ensures
        call_requires(PackageInfo::new, (name,)),
        package.wf(),
        package@.id == package_log_id(name@),
        package@.name == name@,
        package@.log.len() == 0,
        package@.pending is None,
        forall|id: Seq<char>| !(#[trigger] package@.records.contains_key(id)),
{
}

/// A package judges a record by what the rules of package logs say of it behind the
/// log as it is and by the sources, and by nothing else.
pub proof fn law_package_judges(
    package: &mut PackageInfo,
    record: Arc<RecordEnvelope>,
    content_sources: Vec<ContentSource>,
    submission: Submission,
)
    requires
        old(package).wf(),
        old(package)@.pending is None,
        call_ensures(PackageInfo::new_record, (package, record, content_sources), submission),
    ensures
        ({
            let before = old(package)@;
            let after = final(package)@;
            let record_id = package_record_id(record@);
            let said = validation(before.log, record@);
            let all = provides_all(content_sources@, record@);
            &&& final(package).wf()
            &&& after.id == before.id && after.name == before.name && after.log == before.log
            &&& forall|id: Seq<char>| #![trigger after.records.contains_key(id)]
                id != record_id || said is Ok ==> {
                    &&& after.records.contains_key(id) == before.records.contains_key(id)
                    &&& after.records.contains_key(id) ==> after.records[id] == before.records[id]
                }
            &&& said is Err ==> {
                &&& after.pending is None
                &&& after.records.contains_key(record_id)
                &&& after.records[record_id].record == record@
                &&& stand_for(after.records[record_id].content_sources, content_sources@)
                &&& after.records[record_id].state == StateView::Rejected {
                    reason: said->Err_0,
                }
                &&& submission matches Submission::Answered { state }
                &&& state matches RecordState::Rejected { reason }
                &&& reason@ == said->Err_0
            }
            &&& said is Ok && all ==> {
                &&& after.pending matches Some(pending)
                &&& pending.record == record@
                &&& stand_for(pending.sources, content_sources@)
                &&& submission matches Submission::Announce { leaf }
                &&& leaf.log_id@ == before.id
                &&& leaf.record_id@ == record_id
            }
            &&& said is Ok && !all ==> {
                &&& after.pending is None
                &&& submission is Answered
            }
        }),
{
    lemma_provides_all(content_sources@, record@);
}

/// A package takes every record while nothing waits, and every delivery while
/// something does.
pub proof fn law_package_takes_records(
    package: &mut PackageInfo,
    record: Arc<RecordEnvelope>,
    content_sources: Vec<ContentSource>,
    sent: bool,
    record_id: RecordId,
    checkpoint: Arc<CheckpointEnvelope>,
)
    requires
        old(package).wf(),
    ensures
        old(package)@.pending is None ==> call_requires(
            PackageInfo::new_record,
            (package, record, content_sources),
        ),
        old(package)@.pending is Some ==> call_requires(
            PackageInfo::leaf_delivered,
            (package, sent),
        ),
        old(package)@.records.contains_key(record_id@) ==> call_requires(
            PackageInfo::mark_published,
            (package, &record_id, checkpoint),
        ),
{
}

/// A delivery puts the waiting record at the end of the log and on file as in
/// process, or drops it.
pub proof fn law_package_settles(
    package: &mut PackageInfo,
    sent: bool,
    answer: Option<RecordState>,
)
    requires
        old(package).wf(),
        old(package)@.pending is Some,
        call_ensures(PackageInfo::leaf_delivered, (package, sent), answer),
    ensures
        ({
            let before = old(package)@;
            let after = final(package)@;
            let pending = before.pending->0;
            let record_id = package_record_id(pending.record);
            &&& final(package).wf()
            &&& after.pending is None
            &&& after.id == before.id && after.name == before.name
            &&& after.log == if sent {
                before.log.push(pending.record)
            } else {
                before.log
            }
            &&& forall|id: Seq<char>| #![trigger after.records.contains_key(id)]
                !sent || id != record_id ==> {
                    &&& after.records.contains_key(id) == before.records.contains_key(id)
                    &&& after.records.contains_key(id) ==> after.records[id] == before.records[id]
                }
            &&& sent ==> {
                &&& after.records.contains_key(record_id)
                &&& after.records[record_id].record == pending.record
                &&& after.records[record_id].content_sources == pending.sources
                &&& after.records[record_id].state is Processing
            }
            &&& sent ==> (answer matches Some(state) && state is Processing)
            &&& !sent ==> answer is None
        }),
{
}

/// To publish a record changes its state, and nothing else.
pub proof fn law_package_publishes(
    package: &mut PackageInfo,
    record_id: RecordId,
    checkpoint: Arc<CheckpointEnvelope>,
)
    requires
        old(package).wf(),
        old(package)@.records.contains_key(record_id@),
        call_ensures(PackageInfo::mark_published, (package, &record_id, checkpoint), ()),
    ensures
        ({
            let before = old(package)@;
            let after = final(package)@;
            &&& final(package).wf()
            &&& after.id == before.id && after.name == before.name && after.log == before.log
            &&& after.pending == before.pending
            &&& forall|id: Seq<char>| #[trigger]
                after.records.contains_key(id) == before.records.contains_key(id)
            &&& forall|id: Seq<char>| #![trigger after.records[id]]
                id != record_id@ && before.records.contains_key(id) ==> after.records[id]
                    == before.records[id]
            &&& after.records[record_id@].record == before.records[record_id@].record
            &&& after.records[record_id@].content_sources
                == before.records[record_id@].content_sources
            &&& after.records[record_id@].state == StateView::Published { checkpoint: *checkpoint }
        }),
{
}

/// What a package says of a record is what it has on file.
pub proof fn law_package_says_what_is_on_file(
    package: PackageInfo,
    record_id: RecordId,
    known: bool,
    state: RecordState,
    info: Option<PackageRecordInfo>,
    pending: bool,
)
    requires
        call_ensures(PackageInfo::knows, (&package, &record_id), known),
        call_ensures(PackageInfo::record_status, (&package, &record_id), state),
        call_ensures(PackageInfo::record_info, (&package, &record_id), info),
        call_ensures(PackageInfo::is_pending, (&package,), pending),
    ensures
        call_requires(PackageInfo::knows, (&package, &record_id)),
        call_requires(PackageInfo::record_status, (&package, &record_id)),
        call_requires(PackageInfo::record_info, (&package, &record_id)),
        call_requires(PackageInfo::is_pending, (&package,)),
        pending == (package@.pending is Some),
        known == package@.records.contains_key(record_id@),
        known == info is Some,
        !known ==> state is Unknown,
        known ==> {
            let filed = package@.records[record_id@];
            &&& state@ == filed.state
            &&& info->0.state@ == filed.state
            &&& info->0.record@ == filed.record
            &&& stand_for(filed.content_sources, info->0.content_sources@)
        },
{
}

/// A package hands out its whole log, or the whole rest of it from the first record
/// on that has the digest.
pub proof fn law_package_leaves_nothing_out(
    package: PackageInfo,
    since: Option<DynHash>,
    result: Result<Vec<Arc<RecordEnvelope>>, FetchError>,
)
    requires
        call_ensures(PackageInfo::fetch_since, (&package, since), result),
    ensures
        fetched(map![package@.id => package@], package@.id, since, result),
        call_requires(PackageInfo::fetch_since, (&package, since)),
{
    let service = crate::core_service::ServiceView { packages: map![package@.id => package@] };
    lemma_fetched(service, package@.id, since, result);
}

/// A package is found under the identifier of its log, and as it is.
pub proof fn law_packages_are_found(state: State, id: LogId, package: Option<&PackageInfo>)
    requires
        state.wf(),
        call_ensures(State::package, (&state, &id), package),
    ensures
        call_requires(State::package, (&state, &id)),
        package is Some <==> state@.contains_key(id@),
        package matches Some(found) ==> found.wf() && found@ == state@[id@] && found@.id == id@,
{
    state.lemma_wf_valid();
}

/// A review goes by what the rules say first, and then by the first needed content
/// that has no source.
pub proof fn law_review_is_exact(
    validation: Result<(), String>,
    needed: Vec<DynHash>,
    content_sources: Vec<ContentSource>,
    result: Review,
)
    requires
        call_ensures(review, (validation, &needed, &content_sources), result),
    ensures
        call_requires(review, (validation, &needed, &content_sources)),
        validation matches Err(said) ==> (result matches Review::Invalid { reason } && reason@
            == said@),
        validation is Ok && (forall|i: int|
            0 <= i < needed@.len() ==> provides(content_sources@, (#[trigger] needed@[i])@))
            ==> result is Accepted,
        forall|k: int|
            validation is Ok && 0 <= k < needed@.len() && !provides(
                content_sources@,
                (#[trigger] needed@[k])@,
            ) && (forall|i: int|
                0 <= i < k ==> provides(content_sources@, (#[trigger] needed@[i])@)) ==> (
            result matches Review::Incomplete { reason } && reason@ == "Needed content "@
                + needed@[k]@ + " but not provided"@),
{
    let texts = hash_texts(needed@);
    let views = source_views(content_sources@);
    lemma_nothing_missing(texts, views);
    assert forall|i: int| 0 <= i < needed@.len() implies (provides(
        content_sources@,
        (#[trigger] needed@[i])@,
    ) <==> is_provided(views, texts[i])) by {
        lemma_provides(content_sources@, needed@[i]@);
    }
    if forall|i: int|
        0 <= i < needed@.len() ==> provides(content_sources@, (#[trigger] needed@[i])@) {
        assert forall|i: int| 0 <= i < texts.len() implies is_provided(
            views,
            #[trigger] texts[i],
        ) by {
            assert(provides(content_sources@, needed@[i]@));
        }
    }
    assert forall|k: int|
        validation is Ok && 0 <= k < needed@.len() && !provides(
            content_sources@,
            (#[trigger] needed@[k])@,
        ) && (forall|i: int|
            0 <= i < k ==> provides(content_sources@, (#[trigger] needed@[i])@)) implies (
    result matches Review::Incomplete { reason } && reason@ == "Needed content "@ + needed@[k]@
        + " but not provided"@) by {
        assert forall|i: int| 0 <= i < k implies is_provided(views, #[trigger] texts[i]) by {
            assert(provides(content_sources@, needed@[i]@));
        }
        assert(texts[k] == needed@[k]@);
        lemma_missing_first(texts, views, k);
    }
}

/// Records since a digest are all from the first on whose digest it is.
pub proof fn law_records_since_leaves_nothing_out(
    log: Vec<Arc<RecordEnvelope>>,
    digests: Vec<DynHash>,
    since: DynHash,
    result: Result<Vec<Arc<RecordEnvelope>>, FetchError>,
)
    requires
        log@.len() == digests@.len(),
        call_ensures(records_since, (&log, &digests, &since), result),
    ensures
        forall|k: int|
            0 <= k < log@.len() && (#[trigger] digests@[k])@ == since@ && (forall|i: int|
                0 <= i < k ==> (#[trigger] digests@[i])@ != since@) ==> (result matches Ok(
                rest,
            ) && rest@ == log@.skip(k)),
        (forall|i: int| 0 <= i < log@.len() ==> (#[trigger] digests@[i])@ != since@) ==> result
            == Err::<Vec<Arc<RecordEnvelope>>, _>(FetchError::HashNotFound),
        call_requires(records_since, (&log, &digests, &since)),
{
    let texts = hash_texts(digests@);
    lemma_first_index(texts, since@);
    assert forall|i: int| 0 <= i < log@.len() implies texts[i] == (#[trigger] digests@[i])@ by {}
    if let Some(index) = first_index(texts, since@) {
        assert(digests@[index]@ == since@);
        assert forall|i: int| 0 <= i < index implies (#[trigger] digests@[i])@ != since@ by {
            assert(texts[i] != since@);
        }
    } else {
        assert forall|i: int| 0 <= i < log@.len() implies (#[trigger] digests@[i])@ != since@ by {
            assert(texts[i] == digests@[i]@);
        }
    }
}

/// What an error says tells the two errors apart.
pub proof fn law_fetch_errors_say_what_was_not_found(error: FetchError, text: String)
    requires
        call_ensures(FetchError::message, (&error,), text),
    ensures
        call_requires(FetchError::message, (&error,)),
        error is PackageNotFound ==> text@ == "Package not found"@,
        error is HashNotFound ==> text@ == "Hash value not found"@,
{
}

} // verus!
