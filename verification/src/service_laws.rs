//! What holds of the package logs, whatever requests the service gets.
use vstd::prelude::*;

use crate::core_service::{knows_leaf, package_or_fresh, published, ServiceView};
use crate::package_info::{
    digests, first_index, is_provided, lemma_accepted_valid, lemma_filed_valid,
    lemma_first_index, lemma_nothing_missing, FetchError, PackageView, Verdict,
};
use crate::protocol::{
    package_log_id, package_record_id, record_content, record_digest, released_contents, validation,
};
use crate::record::{CheckpointEnvelope, RecordView, SourceView, StateView};

verus! {

/// Whether every package of `before` is in `after`, with all of its log at the
/// beginning of the log there and all of its records.
pub open spec fn grows(before: ServiceView, after: ServiceView) -> bool {
    forall|log_id: Seq<char>| #[trigger]
        before.packages.contains_key(log_id) ==> {
            &&& after.packages.contains_key(log_id)
            &&& before.packages[log_id].log.is_prefix_of(after.packages[log_id].log)
            &&& before.packages[log_id].records.dom().subset_of(
                after.packages[log_id].records.dom(),
            )
        }
}

/// A record is accepted exactly where the rules of package logs let it follow the
/// log and each content that it releases has a source.
pub proof fn law_acceptance(package: PackageView, record: Seq<u8>, sources: Seq<SourceView>)
    ensures
        package.verdict(record, sources) is Accepted <==> {
            &&& validation(package.log, record) is Ok
            &&& forall|i: int|
                0 <= i < released_contents(record).len() ==> is_provided(
                    sources,
                    #[trigger] released_contents(record)[i],
                )
        },
{
    lemma_nothing_missing(released_contents(record), sources);
}

/// The service judges a record as the rules of package logs do behind the log of the
/// package as it is, or behind no record at all where there is no package: it is
/// invalid exactly where they turn it down, with what they say, and accepted exactly
/// where they do not and each content that it releases has a source.
pub proof fn law_service_judges_by_the_rules(
    service: ServiceView,
    name: Seq<char>,
    record: Seq<u8>,
    sources: Seq<SourceView>,
)
    ensures
        ({
            let log_id = package_log_id(name);
            let log = if service.packages.contains_key(log_id) {
                service.packages[log_id].log
            } else {
                Seq::empty()
            };
            let judged = service.verdict(name, record, sources);
            &&& judged is Accepted <==> {
                &&& validation(log, record) is Ok
                &&& forall|i: int|
                    0 <= i < released_contents(record).len() ==> exists|j: int|
                        0 <= j < sources.len() && (#[trigger] sources[j]).content_digest
                            == #[trigger] released_contents(record)[i]
            }
            &&& judged is Invalid <==> validation(log, record) is Err
            &&& judged is Invalid ==> judged->Invalid_reason == validation(log, record)->Err_0
        }),
{
    let needed = released_contents(record);
    lemma_nothing_missing(needed, sources);
    assert forall|i: int| 0 <= i < needed.len() implies (is_provided(sources, #[trigger] needed[i])
        <==> exists|j: int|
        0 <= j < sources.len() && (#[trigger] sources[j]).content_digest == needed[i]) by {}
}

/// A submission, and the delivery of its leaf, leave the status and the information
/// of every record with another identifier as they were, in the same package too.
pub proof fn law_earlier_records_stay(
    service: ServiceView,
    name: Seq<char>,
    record: Seq<u8>,
    sources: Seq<SourceView>,
    sent: bool,
    log_id: Seq<char>,
    id: Seq<char>,
)
    requires
        log_id != package_log_id(name) || id != package_record_id(record),
    ensures
        ({
            let after = service.submitted(name, record, sources);
            let done = after.delivered(package_log_id(name), sent);
            &&& after.status(log_id, id) == service.status(log_id, id)
            &&& after.info(log_id, id) == service.info(log_id, id)
            &&& service.verdict(name, record, sources) is Accepted ==> {
                &&& done.status(log_id, id) == service.status(log_id, id)
                &&& done.info(log_id, id) == service.info(log_id, id)
            }
        }),
{
}

/// What the service gives since a digest begins with the first record of the log
/// that has it and is the whole rest of the log; it is an error exactly where no
/// record has the digest, or where there is no package.
pub proof fn law_service_gives_the_rest(
    service: ServiceView,
    log_id: Seq<char>,
    digest: Seq<char>,
    k: int,
)
    ensures
        !service.packages.contains_key(log_id) ==> service.since(log_id, Some(digest)) == Err::<
            Seq<Seq<u8>>,
            _,
        >(FetchError::PackageNotFound),
        service.packages.contains_key(log_id) ==> {
            let log = service.packages[log_id].log;
            &&& service.since(log_id, None) == Ok::<_, FetchError>(log)
            &&& 0 <= k < log.len() && record_digest(log[k]) == digest && (forall|i: int|
                0 <= i < k ==> record_digest(#[trigger] log[i]) != digest) ==> {
                &&& service.since(log_id, Some(digest)) matches Ok(rest)
                &&& log.take(k) + rest == log
            }
            &&& (forall|i: int|
                0 <= i < log.len() ==> record_digest(#[trigger] log[i]) != digest)
                <==> service.since(log_id, Some(digest)) == Err::<Seq<Seq<u8>>, _>(
                FetchError::HashNotFound,
            )
        },
{
    if service.packages.contains_key(log_id) {
        let log = service.packages[log_id].log;
        let found = digests(log);
        lemma_first_index(found, digest);
        assert forall|i: int| 0 <= i < log.len() implies #[trigger] found[i] == record_digest(
            log[i],
        ) by {}
        if let Some(index) = first_index(found, digest) {
            assert(record_digest(log[index]) == digest);
            if 0 <= k < log.len() && record_digest(log[k]) == digest && (forall|i: int|
                0 <= i < k ==> record_digest(#[trigger] log[i]) != digest) {
                if k < index {
                    assert(found[k] != digest);
                }
                assert(log.take(k) + log.skip(k) =~= log);
            }
        } else {
            assert forall|i: int| 0 <= i < log.len() implies record_digest(#[trigger] log[i])
                != digest by {
                assert(found[i] == record_digest(log[i]));
            }
        }
    }
}

/// Submissions keep the service valid: above all, each record of a log may follow
/// those before it, and each record in process has sources for all its contents.
pub proof fn law_submission_keeps_validity(
    service: ServiceView,
    name: Seq<char>,
    record: Seq<u8>,
    sources: Seq<SourceView>,
)
    requires
        service.valid(),
        !service.is_pending(package_log_id(name)),
    ensures
        service.submitted(name, record, sources).valid(),
{
    let package = package_or_fresh(service.packages, name);
    assert(package.valid());
    if let Verdict::Invalid { reason } = package.verdict(record, sources) {
        lemma_filed_valid(package, record, sources, StateView::Rejected { reason });
    }
}

/// Deliveries keep the service valid.
pub proof fn law_delivery_keeps_validity(service: ServiceView, log_id: Seq<char>, sent: bool)
    requires
        service.valid(),
        service.is_pending(log_id),
    ensures
        service.delivered(log_id, sent).valid(),
{
    let package = service.packages[log_id];
    let pending = package.pending->0;
    lemma_accepted_valid(package, pending.record, pending.sources);
}

/// Checkpoints keep the service valid.
pub proof fn law_checkpoint_keeps_validity(
    service: ServiceView,
    leaves: Seq<(Seq<char>, Seq<char>)>,
    checkpoint: CheckpointEnvelope,
)
    requires
        service.valid(),
    ensures
        service.checkpointed(leaves, checkpoint).valid(),
{
    let after = published(service.packages, leaves, checkpoint);
    assert forall|id: Seq<char>| #[trigger] after.contains_key(id) implies after[id].valid()
        && after[id].id == id by {
        assert(service.packages.contains_key(id));
        let package = service.packages[id];
        assert(package.valid());
        assert(after[id].log == package.log);
        assert forall|i: int| 0 <= i < after[id].log.len() implies after[id].records.contains_key(
            package_record_id(#[trigger] after[id].log[i]),
        ) by {
            assert(package.records.contains_key(package_record_id(package.log[i])));
        }
        assert forall|record_id: Seq<char>| #[trigger]
            after[id].records.contains_key(record_id) implies {
            &&& package.records.contains_key(record_id)
            &&& after[id].records[record_id].record == package.records[record_id].record
            &&& after[id].records[record_id].state is Processing ==> after[id].records[record_id]
                == package.records[record_id]
            &&& !(after[id].records[record_id].state is Unknown)
        } by {
            assert(package.records.contains_key(record_id));
        }
    }
}

/// No request takes a record from a log, changes one, or puts one before another:
/// logs only grow at their end. No request makes a known record unknown.
pub proof fn law_logs_only_grow(
    service: ServiceView,
    name: Seq<char>,
    record: Seq<u8>,
    sources: Seq<SourceView>,
    log_id: Seq<char>,
    sent: bool,
    leaves: Seq<(Seq<char>, Seq<char>)>,
    checkpoint: CheckpointEnvelope,
)
    ensures
        grows(service, service.opened(name)),
        grows(service, service.submitted(name, record, sources)),
        grows(service, service.delivered(log_id, sent)),
        grows(service, service.checkpointed(leaves, checkpoint)),
{
}

/// A leaf that the service knows, it always knows.
pub proof fn law_known_leaves_stay_known(
    before: ServiceView,
    after: ServiceView,
    leaf: (Seq<char>, Seq<char>),
)
    requires
        grows(before, after),
        knows_leaf(before.packages, leaf),
    ensures
        knows_leaf(after.packages, leaf),
{
}

/// Whatever grows and grows again has grown.
pub proof fn law_growth_adds_up(first: ServiceView, second: ServiceView, third: ServiceView)
    requires
        grows(first, second),
        grows(second, third),
    ensures
        grows(first, third),
{
    assert forall|log_id: Seq<char>| #[trigger] first.packages.contains_key(log_id) implies {
        &&& third.packages.contains_key(log_id)
        &&& first.packages[log_id].log.is_prefix_of(third.packages[log_id].log)
        &&& first.packages[log_id].records.dom().subset_of(third.packages[log_id].records.dom())
    } by {
        assert(second.packages.contains_key(log_id));
        assert(first.packages[log_id].log.is_prefix_of(second.packages[log_id].log));
        assert(second.packages[log_id].log.is_prefix_of(third.packages[log_id].log));
    }
}

/// Whether the package with the log `log_id` is the same in both, or in neither.
pub open spec fn same_log(before: ServiceView, after: ServiceView, log_id: Seq<char>) -> bool {
    &&& after.packages.contains_key(log_id) == before.packages.contains_key(log_id)
    &&& after.packages.contains_key(log_id) ==> after.packages[log_id] == before.packages[log_id]
}

/// A submission touches no package but its own, and neither does the delivery of
/// its leaf: nothing that is asked of another package is answered otherwise, and
/// what another package waits for it still waits for.
pub proof fn law_other_packages_stay(
    service: ServiceView,
    name: Seq<char>,
    record: Seq<u8>,
    sources: Seq<SourceView>,
    sent: bool,
    other: Seq<char>,
)
    requires
        other != package_log_id(name),
    ensures
        same_log(service, service.opened(name), other),
        same_log(service, service.submitted(name, record, sources), other),
        same_log(service, service.delivered(package_log_id(name), sent), other),
{
}

/// Where the package with some log is the same, all that is asked of it is answered
/// alike.
pub proof fn law_same_log_same_answers(
    before: ServiceView,
    after: ServiceView,
    log_id: Seq<char>,
    id: Seq<char>,
    since: Option<Seq<char>>,
)
    requires
        same_log(before, after, log_id),
    ensures
        after.status(log_id, id) == before.status(log_id, id),
        after.info(log_id, id) == before.info(log_id, id),
        after.since(log_id, since) == before.since(log_id, since),
        after.is_pending(log_id) == before.is_pending(log_id),
        knows_leaf(after.packages, (log_id, id)) == knows_leaf(before.packages, (log_id, id)),
{
}

/// Submissions to two packages do not get in each other's way: in whichever order
/// they come, and whether or not the leaf of the first is sent before the second
/// comes, the service ends up the same.
pub proof fn law_submissions_to_two_packages_commute(
    service: ServiceView,
    first: Seq<char>,
    first_record: Seq<u8>,
    first_sources: Seq<SourceView>,
    sent: bool,
    second: Seq<char>,
    second_record: Seq<u8>,
    second_sources: Seq<SourceView>,
)
    requires
        package_log_id(first) != package_log_id(second),
    ensures
        service.submitted(first, first_record, first_sources).submitted(
            second,
            second_record,
            second_sources,
        ) == service.submitted(second, second_record, second_sources).submitted(
            first,
            first_record,
            first_sources,
        ),
        service.submitted(first, first_record, first_sources).delivered(
            package_log_id(first),
            sent,
        ).submitted(second, second_record, second_sources) == service.submitted(
            first,
            first_record,
            first_sources,
        ).submitted(second, second_record, second_sources).delivered(package_log_id(first), sent),
{
    let started = service.submitted(first, first_record, first_sources);
    let other = service.submitted(second, second_record, second_sources);
    assert(started.submitted(second, second_record, second_sources) =~= other.submitted(
        first,
        first_record,
        first_sources,
    ));
    let log_id = package_log_id(first);
    assert(started.delivered(log_id, sent).submitted(second, second_record, second_sources)
        =~= started.submitted(second, second_record, second_sources).delivered(log_id, sent));
}

/// A package that comes into being has no records and no log, and to open one ahead
/// of a submission changes nothing about the submission.
pub proof fn law_opening_comes_before_a_submission(
    service: ServiceView,
    name: Seq<char>,
    record: Seq<u8>,
    sources: Seq<SourceView>,
    id: Seq<char>,
)
    ensures
        service.opened(name).info(package_log_id(name), id) == service.info(
            package_log_id(name),
            id,
        ),
        !service.packages.contains_key(package_log_id(name)) ==> service.opened(name).since(
            package_log_id(name),
            None,
        ) == Ok::<_, FetchError>(Seq::<Seq<u8>>::empty()),
        service.opened(name).is_pending(package_log_id(name)) == service.is_pending(
            package_log_id(name),
        ),
        service.opened(name).submitted(name, record, sources) == service.submitted(
            name,
            record,
            sources,
        ),
        service.opened(name).verdict(name, record, sources) == service.verdict(
            name,
            record,
            sources,
        ),
{
    assert(service.opened(name).submitted(name, record, sources) =~= service.submitted(
        name,
        record,
        sources,
    ));
}

/// A record that was accepted and whose leaf was sent is in process, with the
/// sources that came with it, and stands at the end of its log.
pub proof fn law_accepted_record_is_in_process(
    service: ServiceView,
    name: Seq<char>,
    record: Seq<u8>,
    sources: Seq<SourceView>,
)
    requires
        service.verdict(name, record, sources) is Accepted,
    ensures
        ({
            let log_id = package_log_id(name);
            let waiting = service.submitted(name, record, sources);
            let after = waiting.delivered(log_id, true);
            let id = package_record_id(record);
            let log = package_or_fresh(service.packages, name).log;
            &&& waiting.is_pending(log_id) && !after.is_pending(log_id)
            &&& after.status(log_id, id) == StateView::Processing
            &&& after.info(log_id, id) == Some(
                RecordView { record, content_sources: sources, state: StateView::Processing },
            )
            &&& after.since(log_id, None) == Ok::<_, FetchError>(log.push(record))
            &&& after.since(log_id, Some(record_digest(record))) is Ok
            &&& knows_leaf(after.packages, (log_id, id))
        }),
{
    let log = package_or_fresh(service.packages, name).log.push(record);
    lemma_first_index(digests(log), record_digest(record));
    assert(digests(log)[log.len() - 1] == record_digest(record));
}

/// A record that breaks the rules of package logs is answered and remembered as
/// rejected, and the log stays as it was.
pub proof fn law_invalid_record_is_rejected(
    service: ServiceView,
    name: Seq<char>,
    record: Seq<u8>,
    sources: Seq<SourceView>,
)
    requires
        service.verdict(name, record, sources) is Invalid,
    ensures
        ({
            let reason = service.verdict(name, record, sources)->Invalid_reason;
            let after = service.submitted(name, record, sources);
            let log = package_or_fresh(service.packages, name).log;
            &&& validation(log, record) == Err::<(), _>(reason)
            &&& after.info(package_log_id(name), package_record_id(record)) == Some(
                RecordView {
                    record,
                    content_sources: sources,
                    state: StateView::Rejected { reason },
                },
            )
            &&& after.since(package_log_id(name), None) == Ok::<_, FetchError>(log)
            &&& after.is_pending(package_log_id(name)) == service.is_pending(package_log_id(name))
        }),
{
}

/// Whether the log of the package `name` and all of its records are the same in
/// both.
pub open spec fn same_package(before: ServiceView, after: ServiceView, name: Seq<char>) -> bool {
    let log_id = package_log_id(name);
    &&& forall|id: Seq<char>| #[trigger] after.info(log_id, id) == before.info(log_id, id)
    &&& forall|id: Seq<char>| #[trigger] after.status(log_id, id) == before.status(log_id, id)
    &&& package_or_fresh(after.packages, name) == package_or_fresh(before.packages, name)
}

/// A record that lacks a content, and one whose leaf could not be sent, leave
/// nothing behind: the log and every record of it stand as before.
pub proof fn law_refused_record_leaves_nothing(
    service: ServiceView,
    name: Seq<char>,
    record: Seq<u8>,
    sources: Seq<SourceView>,
)
    requires
        !service.is_pending(package_log_id(name)),
    ensures
        service.verdict(name, record, sources) is Incomplete ==> same_package(
            service,
            service.submitted(name, record, sources),
            name,
        ),
        service.verdict(name, record, sources) is Accepted ==> same_package(
            service,
            service.submitted(name, record, sources).delivered(package_log_id(name), false),
            name,
        ),
{
}

/// A checkpoint publishes the known records of its leaves, and changes no other
/// record, no log and nothing that a package waits for.
pub proof fn law_checkpoint_publishes_its_leaves(
    service: ServiceView,
    leaves: Seq<(Seq<char>, Seq<char>)>,
    checkpoint: CheckpointEnvelope,
    log_id: Seq<char>,
    id: Seq<char>,
)
    ensures
        ({
            let after = service.checkpointed(leaves, checkpoint);
            let leaf = (log_id, id);
            &&& leaves.contains(leaf) && knows_leaf(service.packages, leaf) ==> {
                &&& after.status(log_id, id) == StateView::Published { checkpoint }
                &&& after.info(log_id, id) == Some(
                    RecordView {
                        state: StateView::Published { checkpoint },
                        ..service.info(log_id, id)->0
                    },
                )
            }
            &&& !leaves.contains(leaf) ==> after.info(log_id, id) == service.info(log_id, id)
            &&& forall|since: Option<Seq<char>>| #[trigger]
                after.since(log_id, since) == service.since(log_id, since)
            &&& after.is_pending(log_id) == service.is_pending(log_id)
        }),
{
}

/// A record that was accepted is published by the next checkpoint that covers its
/// leaf.
pub proof fn law_accepted_record_can_be_published(
    service: ServiceView,
    name: Seq<char>,
    record: Seq<u8>,
    sources: Seq<SourceView>,
    leaves: Seq<(Seq<char>, Seq<char>)>,
    checkpoint: CheckpointEnvelope,
)
    requires
        service.verdict(name, record, sources) is Accepted,
        leaves.contains((package_log_id(name), package_record_id(record))),
    ensures
        ({
            let log_id = package_log_id(name);
            let after = service.submitted(name, record, sources).delivered(log_id, true);
            let published = after.checkpointed(leaves, checkpoint);
            published.status(log_id, package_record_id(record)) == StateView::Published {
                checkpoint,
            }
        }),
{
    let log_id = package_log_id(name);
    let after = service.submitted(name, record, sources).delivered(log_id, true);
    law_accepted_record_is_in_process(service, name, record, sources);
    law_checkpoint_publishes_its_leaves(
        after,
        leaves,
        checkpoint,
        package_log_id(name),
        package_record_id(record),
    );
}

/// The service has no information exactly on the records whose state it says is
/// unknown, and otherwise gives the same state either way.
pub proof fn law_status_is_that_of_info(service: ServiceView, log_id: Seq<char>, id: Seq<char>)
    requires
        service.valid(),
    ensures
        service.info(log_id, id) is None <==> service.status(log_id, id) == StateView::Unknown,
        service.info(log_id, id) matches Some(info) ==> {
            &&& service.status(log_id, id) == info.state
            &&& package_record_id(info.record) == id
        },
{
    if service.packages.contains_key(log_id) {
        let package = service.packages[log_id];
        assert(package.valid());
        assert(package.records.contains_key(id) ==> !(package.records[id].state is Unknown));
    }
}

/// What is fetched since a digest begins with a record that has it and is the whole
/// rest of the log; nothing before has the digest. A digest that no record has is an
/// error.
pub proof fn law_fetch_gives_the_rest(package: PackageView, digest: Seq<char>)
    ensures
        match package.since(Some(digest)) {
            Ok(rest) => {
                &&& 0 < rest.len() <= package.log.len()
                &&& record_digest(rest[0]) == digest
                &&& package.log == package.log.take(package.log.len() - rest.len()) + rest
                &&& forall|i: int|
                    0 <= i < package.log.len() - rest.len() ==> record_digest(
                        #[trigger] package.log[i],
                    ) != digest
            },
            Err(error) => {
                &&& error == FetchError::HashNotFound
                &&& forall|i: int|
                    0 <= i < package.log.len() ==> record_digest(#[trigger] package.log[i])
                        != digest
            },
        },
{
    let found = digests(package.log);
    lemma_first_index(found, digest);
    match first_index(found, digest) {
        Some(index) => {
            let rest = package.log.skip(index);
            assert(package.log =~= package.log.take(index) + rest);
            assert(rest[0] == package.log[index]);
            assert forall|i: int| 0 <= i < index implies record_digest(#[trigger] package.log[i])
                != digest by {
                assert(found[i] != digest);
            }
        },
        None => {
            assert forall|i: int| 0 <= i < package.log.len() implies record_digest(
                #[trigger] package.log[i],
            ) != digest by {
                assert(found[i] == record_digest(package.log[i]));
            }
        },
    }
}

/// Who has the log up to some record, and fetches since the digest of that record,
/// has the whole log with what comes back, as long as no earlier record has the
/// digest.
pub proof fn law_fetch_completes_a_copy(package: PackageView, known: int)
    requires
        0 < known <= package.log.len(),
        forall|i: int|
            0 <= i < known - 1 ==> record_digest(#[trigger] package.log[i]) != record_digest(
                package.log[known - 1],
            ),
    ensures
        package.since(Some(record_digest(package.log[known - 1]))) matches Ok(rest)
            && package.log.take(known - 1) + rest == package.log,
{
    let digest = record_digest(package.log[known - 1]);
    law_fetch_gives_the_rest(package, digest);
    let found = digests(package.log);
    lemma_first_index(found, digest);
    assert(found[known - 1] == digest);
    let index = first_index(found, digest)->0;
    if index < known - 1 {
        assert(found[index] == record_digest(package.log[index]));
    }
    if index > known - 1 {
        assert(found[known - 1] != digest);
    }
}

/// What identifies a record and its digest is what the record says, not who signed
/// it.
pub proof fn law_identifiers_go_by_content(a: Seq<u8>, b: Seq<u8>)
    requires
        record_content(a) == record_content(b),
    ensures
        package_record_id(a) == package_record_id(b),
        record_digest(a) == record_digest(b),
{
}

} // verus!
