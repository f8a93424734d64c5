use warg_crypto::hash::Sha256;
use warg_server::hash::{DynHash, LogId, LogLeaf, RecordId};
use warg_server::protocol::push_leb128;

fn parses(text: &str) -> bool {
    DynHash::parse(text.to_string()).is_some()
}

#[test]
fn hash_texts_are_parsed() {
    let text = "sha256:7d38b5cd25a2baf85ad3bb5b9311383e671a8a142eb302b324d4a5fba8748c69";
    assert_eq!(DynHash::parse(text.to_string()).unwrap().as_str(), text);
    assert!(parses("sha256:"));
    assert!(parses("sha256:0f"));
}

#[test]
fn other_texts_are_refused() {
    assert!(!parses(""));
    assert!(!parses("sha256"));
    assert!(!parses("sha256:0"));
    assert!(!parses("sha256:0F"));
    assert!(!parses("sha256:0g"));
    assert!(!parses("sha256:00:00"));
    assert!(!parses("sha512:00"));
    assert!(!parses("SHA256:00"));
    assert!(!parses(" sha256:00"));
    assert!(!parses("sha256:\u{e9}"));
}

#[test]
fn digests_are_sha256() {
    let hash = DynHash::sha256(b"The quick brown fox jumped over the lazy dog");
    assert_eq!(
        hash.as_str(),
        "sha256:7d38b5cd25a2baf85ad3bb5b9311383e671a8a142eb302b324d4a5fba8748c69"
    );
    assert_eq!(
        DynHash::sha256(b"").as_str(),
        "sha256:e3b0c44298fc1c149afbf4c8996fb92427ae41e4649b934ca495991b7852b855"
    );
}

#[test]
fn hashes_are_compared() {
    let a = DynHash::sha256(b"a");
    let b = DynHash::sha256(b"b");
    assert!(a.same(&a.clone()));
    assert!(!a.same(&b));
    assert_eq!(a, a.clone());
}

#[test]
fn leaves_keep_their_identifiers() {
    let leaf = LogLeaf {
        log_id: LogId::from_hash(DynHash::sha256(b"log")),
        record_id: RecordId::from_hash(DynHash::sha256(b"record")),
    };
    assert_eq!(leaf, leaf.clone());
    assert_eq!(leaf.log_id.as_str(), DynHash::sha256(b"log").as_str());
    assert_eq!(leaf.record_id.as_str(), DynHash::sha256(b"record").as_str());
}

/// The bytes whose digest is the identifier of the log of the package `name`.
fn log_bytes(name: &str) -> Vec<u8> {
    let mut bytes = b"WARG-PACKAGE-LOG-ID-V0:WARG-PACKAGE-ID-V0".to_vec();
    push_leb128(&mut bytes, name.len());
    bytes.extend_from_slice(name.as_bytes());
    bytes
}

#[test]
fn numbers_are_written_in_groups_of_seven_bits() {
    let written = |n: usize| {
        let mut bytes = vec![9];
        push_leb128(&mut bytes, n);
        bytes
    };
    assert_eq!(written(0), vec![9, 0]);
    assert_eq!(written(127), vec![9, 127]);
    assert_eq!(written(128), vec![9, 128, 1]);
    assert_eq!(written(300), vec![9, 172, 2]);
    assert_eq!(written(624485), vec![9, 229, 142, 38]);
}

#[test]
fn log_ids_of_names_in_kebab_case_are_those_of_the_protocol() {
    let long = format!("{}:b", "a".repeat(500));
    for name in ["a:b", "foo-bar:baz2", "FOO-bar:b2-C3", "a1-b:c", long.as_str()] {
        let id = warg_protocol::registry::PackageId::new(name).unwrap();
        let expected = warg_protocol::registry::LogId::package_log::<Sha256>(&id);
        assert_eq!(LogId::package_log(name).as_str(), expected.to_string());
        assert_eq!(
            LogId::package_log(name).as_str(),
            DynHash::sha256(&log_bytes(name)).as_str()
        );
    }
}

#[test]
fn every_name_has_a_log_id() {
    let long = "x".repeat(200);
    let names = [
        "", "a", "foo", ":foo", "foo:", "a:b:c", "Foo:bar", "fOO:bar", "foo-:bar", "-foo:bar",
        "foo--x:bar", "1foo:bar", "foo-1x:bar", "foo_x:bar", "f\u{f6}o:bar", long.as_str(),
    ];
    for name in names {
        assert!(warg_protocol::registry::PackageId::new(name).is_err());
        assert_eq!(
            LogId::package_log(name).as_str(),
            DynHash::sha256(&log_bytes(name)).as_str()
        );
    }
    assert!(LogId::package_log("a") != LogId::package_log("b"));
}

#[test]
fn the_log_id_of_a_name_is_fixed() {
    let mut bytes = b"WARG-PACKAGE-LOG-ID-V0:WARG-PACKAGE-ID-V0".to_vec();
    bytes.push(7);
    bytes.extend_from_slice(b"foo:bar");
    assert_eq!(
        LogId::package_log("foo:bar").as_str(),
        DynHash::sha256(&bytes).as_str()
    );
}
