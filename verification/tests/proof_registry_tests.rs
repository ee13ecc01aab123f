use infinity_ledger::hashing::sha256_hex_digest;
use infinity_ledger::metadata::{is_volatile_key, normalize_key_fragment};
use infinity_ledger::proof_registry::{
    build_collection_root, leaf_hash, CollectionState, MembershipProof, ProofRegistry, VectorLeaf,
};

fn leaf(id: &str, material: &str) -> VectorLeaf {
    VectorLeaf { id: id.to_string(), material: material.as_bytes().to_vec() }
}

fn state(vectors: Vec<VectorLeaf>, proof_version: i64) -> CollectionState {
    CollectionState { vectors, proof_version }
}

#[test]
fn test_is_volatile_key() {
    assert!(is_volatile_key("timestamp"));
    assert!(is_volatile_key("created_at"));
    assert!(is_volatile_key("user.updated_at"));
    assert!(is_volatile_key("some_ts"));
    assert!(!is_volatile_key("username"));
    assert!(!is_volatile_key("data"));
}

#[test]
fn volatile_key_forms() {
    assert!(is_volatile_key("createdAt"));
    assert!(is_volatile_key("CREATED-AT"));
    assert!(is_volatile_key("meta.lastUpdateTime"));
    assert!(!is_volatile_key("timestamp.value"));
    assert!(!is_volatile_key(""));
}

#[test]
fn normalize_fragment_cases() {
    assert_eq!(normalize_key_fragment("createdAt"), "created_at");
    assert_eq!(normalize_key_fragment("CREATED_AT"), "created_at");
    assert_eq!(normalize_key_fragment("some-key"), "some_key");
    assert_eq!(normalize_key_fragment("v2Value"), "v2_value");
    assert_eq!(normalize_key_fragment("HTTPServer"), "httpserver");
    assert_eq!(normalize_key_fragment(""), "");
}

#[test]
fn test_proof_registry_creation() {
    let registry = ProofRegistry::new(None, None);
    assert_eq!(registry.kid(), "ledger-root");
    assert_eq!(registry.commit_root().len(), 64);
}

#[test]
fn new_registry_commit_root_is_zeros() {
    let registry = ProofRegistry::new(None, None);
    assert_eq!(registry.commit_root(), "0".repeat(64));
    assert_eq!(registry.signature().len(), 64);
}

#[test]
fn test_membership_proof_verify() {
    let proof = MembershipProof {
        collection: "test".to_string(),
        vector_id: "vec1".to_string(),
        leaf: "abc".to_string(),
        siblings: vec![],
        collection_root: "abc".to_string(),
        commit_root: "xyz".to_string(),
    };

    assert!(proof.verify(Some("abc"), Some("xyz")));
    assert!(!proof.verify(Some("wrong"), Some("xyz")));
}

#[test]
fn verify_rejects_unknown_side_and_wrong_commit() {
    let proof = MembershipProof {
        collection: "test".to_string(),
        vector_id: "vec1".to_string(),
        leaf: "abc".to_string(),
        siblings: vec![("up".to_string(), "def".to_string())],
        collection_root: "abc".to_string(),
        commit_root: "xyz".to_string(),
    };
    assert!(!proof.verify(None, None));
    let plain = MembershipProof { siblings: vec![], ..proof };
    assert!(plain.verify(None, None));
    assert!(!plain.verify(None, Some("other")));
}

#[test]
fn test_refresh_from_collections() {
    let mut registry = ProofRegistry::new(None, None);
    let collections = vec![(
        "test_collection".to_string(),
        state(vec![leaf("vec1", "{\"epoch\":null,\"id\":\"vec1\",\"metadata\":{},\"vector\":[1.0,2.0,3.0]}")], 0),
    )];

    registry.refresh_from_collections(&collections);

    let proof = registry.get_membership_proof("test_collection", "vec1");
    assert!(proof.is_some());
}

#[test]
fn refreshed_proofs_verify_against_commit_root() {
    let mut registry = ProofRegistry::new(None, None);
    let vectors = vec![leaf("b", "bee"), leaf("a", "ay"), leaf("c", "sea")];
    let collections = vec![("docs".to_string(), state(vectors, 1)), ("alpha".to_string(), state(vec![], 0))];
    registry.refresh_from_collections(&collections);
    let commit = registry.commit_root();
    assert_ne!(commit, "0".repeat(64));
    for id in ["a", "b", "c"] {
        let proof = registry.get_membership_proof("docs", id).unwrap();
        assert_eq!(proof.vector_id, id);
        assert!(proof.verify(None, Some(commit.as_str())));
        assert_eq!(proof.commit_root, commit);
    }
    assert!(registry.get_membership_proof("docs", "z").is_none());
    assert!(registry.get_membership_proof("alpha", "a").is_none());
    assert!(registry.get_collection_root("alpha").is_some());
    assert!(registry.get_collection_root("zeta").is_none());
}

#[test]
fn refresh_with_same_collections_keeps_commit_root() {
    let mut registry = ProofRegistry::new(None, None);
    let collections = vec![("docs".to_string(), state(vec![leaf("a", "ay")], 3))];
    registry.refresh_from_collections(&collections);
    let first = registry.commit_root();
    let again = vec![("docs".to_string(), state(vec![leaf("a", "changed")], 3))];
    registry.refresh_from_collections(&again);
    assert_eq!(registry.commit_root(), first);
    let bumped = vec![("docs".to_string(), state(vec![leaf("a", "changed")], 4))];
    registry.refresh_from_collections(&bumped);
    assert_ne!(registry.commit_root(), first);
}

#[test]
fn dropping_a_collection_gives_the_digest_of_what_is_left() {
    let a = || ("alpha".to_string(), state(vec![leaf("x", "ex")], 1));
    let b = ("beta".to_string(), state(vec![leaf("y", "why")], 1));
    let mut both = ProofRegistry::new(None, None);
    both.refresh_from_collections(&vec![a(), b]);
    let with_both = both.commit_root();
    both.refresh_from_collections(&vec![a()]);
    let mut fresh = ProofRegistry::new(None, None);
    fresh.refresh_from_collections(&vec![a()]);
    assert_ne!(both.commit_root(), with_both);
    assert_eq!(both.commit_root(), fresh.commit_root());
    assert_eq!(both.signature(), fresh.signature());
    assert!(both.get_collection_root("beta").is_none());
}

#[test]
fn refresh_with_nothing_commits_empty_root() {
    let mut registry = ProofRegistry::new(None, None);
    registry.refresh_from_collections(&vec![]);
    let empty = registry.commit_root();
    assert_ne!(empty, "0".repeat(64));
    assert_eq!(empty.len(), 64);
}

#[test]
fn test_get_commit_snapshot() {
    let registry = ProofRegistry::new(Some("test-kid".to_string()), None);
    let snapshot = registry.get_commit_snapshot();

    assert_eq!(snapshot.kid, "test-kid");
    assert_eq!(snapshot.commit_root, registry.commit_root());
    assert_eq!(snapshot.signature, registry.signature());
}

#[test]
fn rotate_secret_changes_signature_only() {
    let mut registry = ProofRegistry::new(None, None);
    let before = registry.get_commit_snapshot();
    let after = registry.rotate_secret(Some("k2".to_string()), Some("other-secret".to_string()));
    assert_eq!(after.kid, "k2");
    assert_eq!(after.commit_root, before.commit_root);
    assert_ne!(after.signature, before.signature);
    let same = registry.rotate_secret(None, None);
    assert_eq!(same.signature, after.signature);
}

#[test]
fn single_leaf_root_is_leaf_hash() {
    let vectors = vec![leaf("only", "payload")];
    let (root, proofs) = build_collection_root("c", &vectors);
    assert_eq!(root, leaf_hash(b"payload"));
    assert_eq!(proofs.len(), 1);
    assert!(proofs[0].siblings.is_empty());
    assert_ne!(leaf_hash(b"payload"), leaf_hash(b"payload2"));
}

#[test]
fn test_sha256() {
    let hash = sha256_hex_digest(b"test");
    assert_eq!(hash.len(), 64);
    assert_eq!(hash, "9f86d081884c7d659a2feaa0c55ad015a3bf4f1b2b0b822cd15d6c15b0f00a08");
}

#[test]
fn ascii_fragments_normalize_as_stated() {
    assert_eq!(normalize_key_fragment("CREATED-AT"), "created_at");
    assert_eq!(normalize_key_fragment("value2X"), "value2_x");
    assert_eq!(normalize_key_fragment("ingestedAt"), "ingested_at");
    assert!(is_volatile_key("meta.ingestedAt"));
    assert!(!is_volatile_key("meta.ingest"));
}

#[test]
fn refresh_digest_matches_a_fresh_registry() {
    let a = || ("alpha".to_string(), state(vec![leaf("x", "ex"), leaf("w", "dub")], 2));
    let b = || ("beta".to_string(), state(vec![leaf("y", "why")], 1));
    let c = || ("gamma".to_string(), state(vec![leaf("z", "zed")], 5));
    let mut used = ProofRegistry::new(None, None);
    used.refresh_from_collections(&vec![a(), b()]);
    used.refresh_from_collections(&vec![c(), a()]);
    let mut fresh = ProofRegistry::new(None, None);
    fresh.refresh_from_collections(&vec![a(), c()]);
    assert_eq!(used.commit_root(), fresh.commit_root());
    assert_eq!(used.signature(), fresh.signature());
    assert_eq!(used.get_collection_root("alpha"), fresh.get_collection_root("alpha"));
    assert_eq!(used.get_collection_root("gamma"), fresh.get_collection_root("gamma"));
}
