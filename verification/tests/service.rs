use std::str::FromStr;
use std::sync::Arc;
use std::time::{Duration, SystemTime};
use warg_crypto::hash::{AnyHash, HashAlgorithm, Sha256};
use warg_crypto::signing::{generate_p256_pair, PrivateKey};
use warg_protocol::package::{PackageEntry, PackageRecord};
use warg_protocol::registry::{Checkpoint, TimestampedCheckpoint};
use warg_protocol::{ProtoEnvelope, SerdeEnvelope, Version};
use warg_server::core_service::{CoreService, Message, Reply, State};
use warg_server::hash::{DynHash, LogId, LogLeaf, RecordId};
use warg_server::package_info::{records_since, review, FetchError, Review, Submission};
use warg_server::protocol::{keep_present, RecordEnvelope};
use warg_server::record::{
    CheckpointEnvelope, ContentSource, ContentSourceKind, PackageRecordInfo, RecordState,
};

fn name(text: &str) -> String {
    text.to_string()
}

fn source(content: &[u8]) -> ContentSource {
    ContentSource {
        content_digest: DynHash::sha256(content),
        kind: ContentSourceKind::HttpAnonymous {
            url: "http://localhost/content".to_string(),
        },
    }
}

fn rejected(reason: &str) -> RecordState {
    RecordState::Rejected {
        reason: reason.to_string(),
    }
}

fn signed(key: &PrivateKey, record: PackageRecord) -> ProtoEnvelope<PackageRecord> {
    ProtoEnvelope::signed_contents(key, record).unwrap()
}

fn parsed(envelope: &ProtoEnvelope<PackageRecord>) -> Arc<RecordEnvelope> {
    Arc::new(RecordEnvelope::parse(envelope.to_protobuf()).unwrap())
}

fn init(key: &PrivateKey) -> Arc<RecordEnvelope> {
    let record = PackageRecord {
        prev: None,
        version: 0,
        timestamp: SystemTime::UNIX_EPOCH + Duration::from_secs(1000),
        entries: vec![PackageEntry::Init {
            hash_algorithm: HashAlgorithm::Sha256,
            key: key.public_key(),
        }],
    };
    parsed(&signed(key, record))
}

/// A record behind `previous` that releases `contents` as 1.0.0, 2.0.0 and so on.
fn release(
    key: &PrivateKey,
    previous: &RecordEnvelope,
    first: u64,
    contents: &[&[u8]],
) -> Arc<RecordEnvelope> {
    let prev = AnyHash::from_str(previous.record_id().as_str()).unwrap();
    let mut entries = Vec::new();
    for (i, content) in contents.iter().enumerate() {
        entries.push(PackageEntry::Release {
            version: Version::new(first + i as u64, 0, 0),
            content: HashAlgorithm::Sha256.digest(content),
        });
    }
    let record = PackageRecord {
        prev: Some(prev.into()),
        version: 0,
        timestamp: SystemTime::UNIX_EPOCH + Duration::from_secs(2000),
        entries,
    };
    parsed(&signed(key, record))
}

fn checkpoint(length: usize) -> CheckpointEnvelope {
    let (_, key) = generate_p256_pair();
    let contents = TimestampedCheckpoint {
        checkpoint: Checkpoint {
            log_root: HashAlgorithm::Sha256.digest(b"log"),
            log_length: length,
            map_root: HashAlgorithm::Sha256.digest(b"map"),
        },
        timestamp: 3000,
    };
    SerdeEnvelope::signed_contents(&key, contents).unwrap()
}

fn leaf_of(package: &str, record: &RecordEnvelope) -> LogLeaf {
    LogLeaf {
        log_id: LogId::package_log(package),
        record_id: record.record_id(),
    }
}

/// Submits a record that is accepted.
fn accept(
    service: &mut CoreService,
    package: &str,
    record: &Arc<RecordEnvelope>,
    sources: Vec<ContentSource>,
) {
    let submission = service.submit_package_record(package.to_string(), record.clone(), sources);
    assert_eq!(
        submission,
        Submission::Announce {
            leaf: leaf_of(package, record)
        }
    );
    let log_id = LogId::package_log(package);
    assert!(service.is_pending(&log_id));
    let answer = service.leaf_delivered(&log_id, true);
    assert_eq!(answer, Some(RecordState::Processing));
    assert!(!service.is_pending(&log_id));
}

/// The answer to a submission that is turned down.
fn refuse(
    service: &mut CoreService,
    package: &str,
    record: &Arc<RecordEnvelope>,
    sources: Vec<ContentSource>,
) -> RecordState {
    match service.submit_package_record(package.to_string(), record.clone(), sources) {
        Submission::Answered { state } => state,
        Submission::Announce { .. } => panic!("the record was accepted"),
    }
}

fn status(service: &CoreService, package: &str, record: &RecordEnvelope) -> RecordState {
    service.get_package_record_status(package.to_string(), record.record_id())
}

#[test]
fn envelopes_are_read() {
    let (_, key) = generate_p256_pair();
    let first = init(&key);
    let record = release(&key, &first, 1, &[b"one", b"two", b"one"]);
    let outer: ProtoEnvelope<PackageRecord> =
        ProtoEnvelope::from_protobuf(record.encoded().clone()).unwrap();
    assert_eq!(record.content_bytes().as_slice(), outer.content_bytes());
    assert_eq!(
        record.record_id().as_str(),
        warg_protocol::registry::RecordId::package_record::<Sha256>(&outer).to_string()
    );
    let mut prefixed = b"WARG-PACKAGE-LOG-RECORD-V0:".to_vec();
    prefixed.extend_from_slice(outer.content_bytes());
    assert_eq!(
        record.record_id().as_str(),
        DynHash::sha256(&prefixed).as_str()
    );
    assert_eq!(record.digest(), DynHash::sha256(outer.content_bytes()));
    let one = DynHash::sha256(b"one");
    let two = DynHash::sha256(b"two");
    assert_eq!(record.contents(), &vec![one.clone(), two, one]);
    assert!(first.contents().is_empty());
}

#[test]
fn present_hashes_are_kept_in_order() {
    let (a, b) = ("sha256:aa".to_string(), "sha256:bb".to_string());
    let options = vec![None, Some(b.clone()), None, Some(a.clone()), Some(b.clone())];
    let hash = |text: &String| DynHash::parse(text.clone()).unwrap();
    assert_eq!(keep_present(options), vec![hash(&b), hash(&a), hash(&b)]);
    assert_eq!(keep_present(vec![None, None]), vec![]);
}

#[test]
fn other_bytes_are_no_envelope() {
    assert_eq!(
        RecordEnvelope::parse(vec![255, 255]),
        Err("failed to parse the outer envelope protobuf message".to_string())
    );
    assert_eq!(
        RecordEnvelope::parse(vec![]),
        Err("failed to parse envelope contents from bytes".to_string())
    );
}

#[test]
fn identifiers_go_by_content() {
    let (_, alice) = generate_p256_pair();
    let (_, bob) = generate_p256_pair();
    let first = init(&alice);
    let a = release(&alice, &first, 1, &[b"one"]);
    let b = release(&bob, &first, 1, &[b"one"]);
    assert!(a.encoded() != b.encoded());
    assert_eq!(a.record_id(), b.record_id());
    assert_eq!(a.digest(), b.digest());
    assert!(a.record_id().as_str() != a.digest().as_str());
}

#[test]
fn reviews_are_exact() {
    let one = DynHash::sha256(b"one");
    let two = DynHash::sha256(b"two");
    let needed = vec![one.clone(), two.clone()];
    assert_eq!(
        review(Err("because".to_string()), &needed, &vec![]),
        Review::Invalid {
            reason: "because".to_string()
        }
    );
    assert_eq!(
        review(Ok(()), &needed, &vec![source(b"one"), source(b"three")]),
        Review::Incomplete {
            reason: "Needed content sha256:3fc4ccfe745870e2c0d99f71f30ff0656c8dedd41cc1d7d3d376b0dbe685e2f3 but not provided".to_string()
        }
    );
    assert_eq!(
        review(Ok(()), &needed, &vec![]),
        Review::Incomplete {
            reason: format!("Needed content {} but not provided", one.as_str())
        }
    );
    assert_eq!(
        review(Ok(()), &needed, &vec![source(b"two"), source(b"one")]),
        Review::Accepted
    );
    assert_eq!(review(Ok(()), &vec![], &vec![]), Review::Accepted);
}

#[test]
fn records_are_taken_from_the_first_match_on() {
    let (_, key) = generate_p256_pair();
    let first = init(&key);
    let second = release(&key, &first, 1, &[b"one"]);
    let log = vec![first.clone(), second.clone(), first.clone()];
    let a = DynHash::sha256(b"a");
    let b = DynHash::sha256(b"b");
    let digests = vec![b.clone(), a.clone(), a.clone()];
    assert_eq!(
        records_since(&log, &digests, &a),
        Ok(vec![second.clone(), first.clone()])
    );
    assert_eq!(records_since(&log, &digests, &b), Ok(log.clone()));
    assert_eq!(
        records_since(&log, &digests, &DynHash::sha256(b"c")),
        Err(FetchError::HashNotFound)
    );
}

#[test]
fn an_accepted_record_is_in_process() {
    let (_, key) = generate_p256_pair();
    let package = name("foo:bar");
    let mut service = CoreService::start(State::new());
    let first = init(&key);
    assert_eq!(status(&service, &package, &first), RecordState::Unknown);
    accept(&mut service, &package, &first, vec![]);
    assert_eq!(status(&service, &package, &first), RecordState::Processing);
    let second = release(&key, &first, 1, &[b"one"]);
    accept(&mut service, &package, &second, vec![source(b"one")]);
    assert_eq!(
        service.get_package_record_info(package.clone(), second.record_id()),
        Some(PackageRecordInfo {
            record: second.clone(),
            content_sources: Arc::new(vec![source(b"one")]),
            state: RecordState::Processing,
        })
    );
    assert_eq!(
        service.fetch_since(package.clone(), None),
        Ok(vec![first.clone(), second.clone()])
    );
}

#[test]
fn a_record_enters_its_log_with_the_delivery_of_its_leaf() {
    let (_, key) = generate_p256_pair();
    let package = name("foo:bar");
    let mut service = CoreService::start(State::new());
    let first = init(&key);
    service.submit_package_record(package.clone(), first.clone(), vec![]);
    assert_eq!(status(&service, &package, &first), RecordState::Unknown);
    assert_eq!(service.fetch_since(package.clone(), None), Ok(vec![]));
    let log_id = LogId::package_log(&package);
    assert!(service.is_pending(&log_id));
    assert_eq!(service.leaf_delivered(&log_id, false), None);
    assert!(!service.is_pending(&log_id));
    assert_eq!(status(&service, &package, &first), RecordState::Unknown);
    assert_eq!(service.fetch_since(package.clone(), None), Ok(vec![]));
    accept(&mut service, &package, &first, vec![]);
    assert_eq!(service.fetch_since(package.clone(), None), Ok(vec![first]));
}

#[test]
fn an_invalid_record_is_remembered_as_rejected() {
    let (_, key) = generate_p256_pair();
    let package = name("foo:bar");
    let mut service = CoreService::start(State::new());
    let first = init(&key);
    let early = release(&key, &first, 1, &[b"one"]);
    let state = refuse(&mut service, &package, &early, vec![source(b"one")]);
    assert_eq!(state, rejected("the first record contained a previous hash value"));
    assert_eq!(status(&service, &package, &early), state);
    let info = service
        .get_package_record_info(package.clone(), early.record_id())
        .unwrap();
    assert_eq!(info.record, early);
    assert_eq!(info.content_sources, Arc::new(vec![source(b"one")]));
    assert_eq!(service.fetch_since(package.clone(), None), Ok(vec![]));
    accept(&mut service, &package, &first, vec![]);
    accept(&mut service, &package, &early, vec![source(b"one")]);
    assert_eq!(status(&service, &package, &early), RecordState::Processing);
}

#[test]
fn a_record_submitted_again_is_rejected_and_stays_in_the_log() {
    let (_, key) = generate_p256_pair();
    let package = name("foo:bar");
    let mut service = CoreService::start(State::new());
    let first = init(&key);
    accept(&mut service, &package, &first, vec![]);
    let state = refuse(&mut service, &package, &first, vec![]);
    assert_eq!(state, rejected("non-initial record contained no previous hash"));
    assert_eq!(status(&service, &package, &first), state);
    assert_eq!(service.fetch_since(package.clone(), None), Ok(vec![first]));
}

#[test]
fn a_refused_record_does_not_change_the_rules() {
    let (_, alice) = generate_p256_pair();
    let (_, bob) = generate_p256_pair();
    let package = name("foo:bar");
    let mut service = CoreService::start(State::new());
    let first = init(&alice);
    accept(&mut service, &package, &first, vec![]);
    let forged = release(&bob, &first, 1, &[b"one"]);
    assert!(matches!(
        refuse(&mut service, &package, &forged, vec![source(b"one")]),
        RecordState::Rejected { .. }
    ));
    let real = release(&alice, &first, 1, &[b"one"]);
    accept(&mut service, &package, &real, vec![source(b"one")]);
}

#[test]
fn a_record_without_its_content_leaves_nothing() {
    let (_, key) = generate_p256_pair();
    let package = name("foo:bar");
    let mut service = CoreService::start(State::new());
    let first = init(&key);
    accept(&mut service, &package, &first, vec![]);
    let second = release(&key, &first, 1, &[b"one", b"two"]);
    let state = refuse(&mut service, &package, &second, vec![source(b"one")]);
    assert_eq!(
        state,
        rejected("Needed content sha256:3fc4ccfe745870e2c0d99f71f30ff0656c8dedd41cc1d7d3d376b0dbe685e2f3 but not provided")
    );
    assert_eq!(status(&service, &package, &second), RecordState::Unknown);
    assert_eq!(
        service.get_package_record_info(package.clone(), second.record_id()),
        None
    );
    assert_eq!(
        service.fetch_since(package.clone(), None),
        Ok(vec![first.clone()])
    );
    let sources = vec![source(b"two"), source(b"one")];
    accept(&mut service, &package, &second, sources);
}

#[test]
fn a_checkpoint_publishes_its_leaves() {
    let (_, key) = generate_p256_pair();
    let package = name("foo:bar");
    let mut service = CoreService::start(State::default());
    let first = init(&key);
    accept(&mut service, &package, &first, vec![]);
    let second = release(&key, &first, 1, &[b"one"]);
    accept(&mut service, &package, &second, vec![source(b"one")]);
    let envelope = checkpoint(1);
    assert!(service.knows_leaf(&leaf_of(&package, &first)));
    service.new_checkpoint(envelope.clone(), vec![leaf_of(&package, &first)]);
    assert_eq!(
        status(&service, &package, &first),
        RecordState::Published {
            checkpoint: Arc::new(envelope.clone())
        }
    );
    assert_eq!(status(&service, &package, &second), RecordState::Processing);
    let later = checkpoint(2);
    let both = vec![leaf_of(&package, &second), leaf_of(&package, &first)];
    service.new_checkpoint(later.clone(), both);
    let published = RecordState::Published {
        checkpoint: Arc::new(later),
    };
    assert_eq!(status(&service, &package, &first), published);
    let info = service
        .get_package_record_info(package.clone(), second.record_id())
        .unwrap();
    assert_eq!(info.state, published);
    assert_eq!(info.record, second);
    assert_eq!(info.content_sources, Arc::new(vec![source(b"one")]));
    assert_eq!(
        service.fetch_since(package.clone(), None),
        Ok(vec![first, second])
    );
}

#[test]
fn unknown_leaves_are_not_known() {
    let (_, key) = generate_p256_pair();
    let package = name("foo:bar");
    let mut service = CoreService::start(State::new());
    let first = init(&key);
    assert!(!service.knows_leaf(&leaf_of(&package, &first)));
    accept(&mut service, &package, &first, vec![]);
    let second = release(&key, &first, 1, &[]);
    assert!(!service.knows_leaf(&leaf_of(&package, &second)));
    assert!(!service.knows_leaf(&leaf_of(&name("foo:baz"), &first)));
}

#[test]
fn records_are_fetched_since_a_digest() {
    let (_, key) = generate_p256_pair();
    let package = name("foo:bar");
    let mut service = CoreService::start(State::new());
    let mut log = vec![init(&key)];
    accept(&mut service, &package, &log[0], vec![]);
    for i in 1..4 {
        let next = release(&key, &log[i - 1], i as u64, &[b"one"]);
        accept(&mut service, &package, &next, vec![source(b"one")]);
        log.push(next);
    }
    for i in 0..4 {
        assert_eq!(
            service.fetch_since(package.clone(), Some(log[i].digest())),
            Ok(log[i..].to_vec())
        );
    }
    let error = service
        .fetch_since(package.clone(), Some(DynHash::sha256(b"none")))
        .unwrap_err();
    assert_eq!(error, FetchError::HashNotFound);
    assert_eq!(error.message(), "Hash value not found");
    let error = service.fetch_since(name("foo:baz"), None).unwrap_err();
    assert_eq!(error, FetchError::PackageNotFound);
    assert_eq!(error.message(), "Package not found");
}

#[test]
fn packages_do_not_touch_each_other() {
    let (_, key) = generate_p256_pair();
    let (foo, baz) = (name("foo:bar"), name("foo:baz"));
    let mut service = CoreService::start(State::new());
    let first = init(&key);
    accept(&mut service, &foo, &first, vec![]);
    assert_eq!(status(&service, &baz, &first), RecordState::Unknown);
    assert!(service.fetch_since(baz.clone(), None).is_err());
    accept(&mut service, &baz, &first, vec![]);
    service.new_checkpoint(checkpoint(1), vec![leaf_of(&baz, &first)]);
    assert_eq!(status(&service, &foo, &first), RecordState::Processing);
    let service = CoreService::start(service.into_state());
    assert_eq!(status(&service, &foo, &first), RecordState::Processing);
    assert!(matches!(
        status(&service, &baz, &first),
        RecordState::Published { .. }
    ));
}

#[test]
fn packages_do_not_wait_for_each_other() {
    let (_, key) = generate_p256_pair();
    let (foo, baz) = (name("foo:bar"), name("foo:baz"));
    let (foo_log, baz_log) = (LogId::package_log(&foo), LogId::package_log(&baz));
    let mut service = CoreService::start(State::new());
    let first = init(&key);
    accept(&mut service, &foo, &first, vec![]);
    let second = release(&key, &first, 1, &[b"one"]);
    service.submit_package_record(foo.clone(), second.clone(), vec![source(b"one")]);
    assert!(service.is_pending(&foo_log));
    assert!(!service.is_pending(&baz_log));
    service.submit_package_record(baz.clone(), first.clone(), vec![]);
    assert!(service.is_pending(&foo_log));
    assert!(service.is_pending(&baz_log));
    assert_eq!(service.leaf_delivered(&foo_log, false), None);
    assert!(service.is_pending(&baz_log));
    let answer = service.leaf_delivered(&baz_log, true);
    assert_eq!(answer, Some(RecordState::Processing));
    assert_eq!(status(&service, &baz, &first), RecordState::Processing);
    assert_eq!(status(&service, &foo, &second), RecordState::Unknown);
    service.submit_package_record(foo.clone(), second.clone(), vec![source(b"one")]);
    service.new_checkpoint(checkpoint(1), vec![leaf_of(&baz, &first)]);
    assert!(service.is_pending(&foo_log));
    service.leaf_delivered(&foo_log, true);
    assert_eq!(service.fetch_since(foo, None), Ok(vec![first, second]));
}

#[test]
fn a_package_that_was_opened_is_empty() {
    let (_, key) = generate_p256_pair();
    let package = name("foo:bar");
    let log_id = LogId::package_log(&package);
    let mut service = CoreService::start(State::new());
    assert!(!service.has_package(&log_id));
    service.open_package(package.clone());
    assert!(service.has_package(&log_id));
    assert!(!service.is_pending(&log_id));
    assert_eq!(service.fetch_since(package.clone(), None), Ok(vec![]));
    let first = init(&key);
    accept(&mut service, &package, &first, vec![]);
    service.open_package(package.clone());
    assert_eq!(service.fetch_since(package, None), Ok(vec![first]));
}

#[test]
fn every_name_is_taken() {
    let (_, key) = generate_p256_pair();
    let mut service = CoreService::start(State::new());
    let first = init(&key);
    for package in ["a", "", "Some Package", "f\u{f6}o"] {
        accept(&mut service, package, &first, vec![]);
        assert_eq!(status(&service, package, &first), RecordState::Processing);
        assert_eq!(
            service.fetch_since(name(package), None),
            Ok(vec![first.clone()])
        );
    }
}

#[test]
fn requests_are_processed() {
    let (_, key) = generate_p256_pair();
    let package = name("foo:bar");
    let mut service = CoreService::start(State::new());
    let first = init(&key);
    let reply = service.process(Message::SubmitPackageRecord {
        package_name: package.clone(),
        record: first.clone(),
        content_sources: vec![],
    });
    assert!(matches!(
        reply,
        Reply::Submission { submission: Submission::Announce { leaf } }
            if leaf == leaf_of(&package, &first)
    ));
    let answer = service.leaf_delivered(&LogId::package_log(&package), true);
    assert_eq!(answer, Some(RecordState::Processing));
    let reply = service.process(Message::GetPackageRecordStatus {
        package_id: LogId::package_log(&package),
        record_id: first.record_id(),
    });
    assert!(matches!(reply, Reply::Status { state: RecordState::Processing }));
    let reply = service.process(Message::GetPackageRecordInfo {
        package_id: LogId::package_log(&package),
        record_id: RecordId::from_hash(DynHash::sha256(b"other")),
    });
    assert!(matches!(reply, Reply::Info { info: None }));
    let envelope = Arc::new(checkpoint(1));
    let reply = service.process(Message::NewCheckpoint {
        checkpoint: envelope.clone(),
        leaves: vec![leaf_of(&package, &first)],
    });
    assert!(matches!(reply, Reply::Done));
    assert_eq!(
        status(&service, &package, &first),
        RecordState::Published {
            checkpoint: envelope
        }
    );
    let reply = service.process(Message::FetchSince {
        package_id: LogId::package_log(&package),
        since: Some(first.digest()),
    });
    assert!(matches!(reply, Reply::Fetched { result: Ok(log) } if log == vec![first]));
    let reply = service.process(Message::FetchSince {
        package_id: LogId::from_hash(DynHash::sha256(b"other")),
        since: None,
    });
    assert!(matches!(
        reply,
        Reply::Fetched { result: Err(FetchError::PackageNotFound) }
    ));
}

#[test]
fn states_begin_unknown() {
    assert_eq!(RecordState::default(), RecordState::Unknown);
}
