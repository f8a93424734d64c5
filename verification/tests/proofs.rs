use std::str::FromStr;
use warg_crypto::hash::{AnyHash, Sha256};
use warg_server::hash::{DynHash, LogId, LogLeaf, RecordId};
use warg_server::proof_data::{process, ProofData};
use warg_server::proof_index::{DataServiceError, ProofIndex};
use warg_transparency::log::{LogBuilder, LogProofBundle, VecLog};

type OuterLeaf = warg_protocol::registry::LogLeaf;

fn leaf(n: u8) -> LogLeaf {
    LogLeaf {
        log_id: LogId::from_hash(DynHash::sha256(&[n, 0])),
        record_id: RecordId::from_hash(DynHash::sha256(&[n, 1])),
    }
}

fn outer(leaf: &LogLeaf) -> OuterLeaf {
    OuterLeaf {
        log_id: AnyHash::from_str(leaf.log_id.as_str()).unwrap().into(),
        record_id: AnyHash::from_str(leaf.record_id.as_str()).unwrap().into(),
    }
}

/// A log with `n` leaves, and the roots that it had on the way.
fn log_of(n: u8) -> (ProofData, Vec<DynHash>) {
    let mut reference: VecLog<Sha256, OuterLeaf> = VecLog::default();
    let mut data = ProofData::new(leaf(0));
    let mut roots = Vec::new();
    for i in 0..n {
        reference.push(&outer(&leaf(i)));
        roots.push(DynHash::parse(reference.checkpoint().root().to_string()).unwrap());
        if i > 0 {
            assert!(data.has_room());
            process(&mut data, leaf(i));
        }
    }
    (data, roots)
}

#[test]
fn consistency_is_proved() {
    let (data, roots) = log_of(9);
    for old in 0..9 {
        for new in old..9 {
            let bundle = data.consistency(&roots[old], &roots[new]).unwrap();
            let bundle: LogProofBundle<Sha256, OuterLeaf> =
                LogProofBundle::decode(&bundle.encode()).unwrap();
            let (hashes, consistency, inclusion) = bundle.unbundle();
            assert!(inclusion.is_empty());
            assert_eq!(consistency.len(), 1);
            assert_eq!(consistency[0].old_length, old + 1);
            assert_eq!(consistency[0].new_length, new + 1);
            let (old_root, new_root) = consistency[0].evaluate(&hashes).unwrap();
            assert_eq!(old_root.to_string(), roots[old].as_str());
            assert_eq!(new_root.to_string(), roots[new].as_str());
        }
    }
}

#[test]
fn consistency_backwards_is_refused() {
    let (data, roots) = log_of(4);
    assert_eq!(
        data.consistency(&roots[3], &roots[1]).err(),
        Some(DataServiceError::BundleFailure(
            "tries to prove later value comes before earlier".to_string()
        ))
    );
}

#[test]
fn unknown_roots_are_refused() {
    let (data, roots) = log_of(4);
    let unknown = DynHash::sha256(b"unknown");
    let other = DynHash::sha256(b"other");
    assert_eq!(
        data.consistency(&unknown, &other).err(),
        Some(DataServiceError::RootNotFound(unknown.clone()))
    );
    assert_eq!(
        data.consistency(&roots[0], &other).err(),
        Some(DataServiceError::RootNotFound(other.clone()))
    );
    assert_eq!(
        data.inclusion(&unknown, &[leaf(77)]).err(),
        Some(DataServiceError::RootNotFound(unknown))
    );
}

#[test]
fn inclusion_is_proved() {
    let (data, roots) = log_of(9);
    for length in 1..10 {
        let leaves: Vec<LogLeaf> = (0..length as u8).rev().map(leaf).collect();
        let bundle = data.inclusion(&roots[length - 1], &leaves).unwrap();
        let bundle: LogProofBundle<Sha256, OuterLeaf> =
            LogProofBundle::decode(&bundle.encode()).unwrap();
        let (hashes, consistency, inclusion) = bundle.unbundle();
        assert!(consistency.is_empty());
        assert_eq!(inclusion.len(), length);
        for (proof, leaf) in inclusion.iter().zip(leaves.iter()) {
            let root = proof.evaluate_value(&hashes, &outer(leaf)).unwrap();
            assert_eq!(root.to_string(), roots[length - 1].as_str());
            assert_eq!(proof.log_length(), length);
        }
        for (i, proof) in inclusion.iter().enumerate() {
            assert_eq!(proof.leaf().index(), 2 * (length - 1 - i));
        }
    }
}

#[test]
fn inclusion_of_nothing_is_refused() {
    let (data, roots) = log_of(2);
    assert_eq!(
        data.inclusion(&roots[1], &[]).err(),
        Some(DataServiceError::BundleFailure(
            "A bundle can not be made from no proofs".to_string()
        ))
    );
}

#[test]
fn newer_leaves_are_refused() {
    let (data, roots) = log_of(4);
    assert_eq!(
        data.inclusion(&roots[1], &[leaf(0), leaf(2)]).err(),
        Some(DataServiceError::BundleFailure(
            "leaf newer than when it should be included".to_string()
        ))
    );
}

#[test]
fn the_first_unknown_leaf_is_named() {
    let (data, roots) = log_of(2);
    assert_eq!(
        data.inclusion(&roots[1], &[leaf(0), leaf(5), leaf(6)]).err(),
        Some(DataServiceError::LeafNotFound(leaf(5)))
    );
}

#[test]
fn a_leaf_that_comes_again_counts_where_it_came_last() {
    let (mut data, roots) = log_of(3);
    assert!(data.inclusion(&roots[0], &[leaf(0)]).is_ok());
    process(&mut data, leaf(0));
    assert!(data.inclusion(&roots[0], &[leaf(0)]).is_err());
    assert!(data.inclusion(&roots[0], &[leaf(1)]).is_err());
    assert!(data.inclusion(&roots[2], &[leaf(1)]).is_ok());
}

#[test]
fn proofs_stay_when_leaves_are_added() {
    let (mut data, roots) = log_of(5);
    let growth = |data: &ProofData| data.consistency(&roots[1], &roots[3]).unwrap().encode();
    let membership = |data: &ProofData| {
        let bundle = data.inclusion(&roots[2], &[leaf(1), leaf(2)]).unwrap();
        bundle.encode()
    };
    let (growth_before, membership_before) = (growth(&data), membership(&data));
    for n in 5..12 {
        process(&mut data, leaf(n));
        assert_eq!(growth(&data), growth_before);
        assert_eq!(membership(&data), membership_before);
    }
}

#[test]
fn an_empty_log_has_no_root() {
    let data = ProofData::default();
    let root = DynHash::sha256(b"");
    assert_eq!(
        data.inclusion(&root, &[]).err(),
        Some(DataServiceError::RootNotFound(root))
    );
}

#[test]
fn the_index_finds_lengths_and_nodes() {
    let mut index = ProofIndex::new();
    let (first, second) = (DynHash::sha256(b"first"), DynHash::sha256(b"second"));
    index.extend(leaf(0), 0, first.clone(), 1);
    index.extend(leaf(1), 2, second.clone(), 2);
    assert_eq!(index.length_pair(&first, &second), Ok((1, 2)));
    assert_eq!(index.length_pair(&second, &first), Ok((2, 1)));
    assert_eq!(
        index.length_and_nodes(&second, &[leaf(1), leaf(0), leaf(1)]),
        Ok((2, vec![2, 0, 2]))
    );
    assert_eq!(
        index.length_and_nodes(&first, &[leaf(1), leaf(2)]),
        Err(DataServiceError::LeafNotFound(leaf(2)))
    );
    index.extend(leaf(0), 4, first.clone(), 3);
    assert_eq!(index.length_and_nodes(&first, &[leaf(0)]), Ok((3, vec![4])));
}

#[test]
fn the_index_tells_the_two_identifiers_apart() {
    let mut index = ProofIndex::new();
    let root = DynHash::sha256(b"root");
    let swapped = LogLeaf {
        log_id: LogId::from_hash(DynHash::sha256(&[0, 1])),
        record_id: RecordId::from_hash(DynHash::sha256(&[0, 0])),
    };
    index.extend(leaf(0), 0, root.clone(), 1);
    assert_eq!(
        index.length_and_nodes(&root, &[swapped.clone()]),
        Err(DataServiceError::LeafNotFound(swapped))
    );
}
