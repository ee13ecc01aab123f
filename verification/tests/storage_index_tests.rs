use infinity_ledger::index_book::{
    apply_updates, next_proof_version, plan_updates, provider_or_default, remove_ids, RecordHeader, UpsertError,
    VectorEntry,
};
use infinity_ledger::manifest::{should_sync, version_dir_name, JsonField, Manifest, PersistenceConfig};
use infinity_ledger::metadata_tree::JsonValue;
use infinity_ledger::spiral_storage::{
    list_snapshot_order, orphaned_files, storage_counts, verify_integrity, IndexMetadata, IndexedFile, ListingEntry,
    SnapshotEntry, SnapshotListing, TicMetadata,
};
use infinity_ledger::tic_gating::{active_units, gate_levels, proof_status, should_commit};

fn entry(ext: Option<&str>, stem: Option<&str>) -> ListingEntry {
    ListingEntry { extension: ext.map(|s| s.to_string()), stem: stem.map(|s| s.to_string()) }
}

fn text(s: &str) -> JsonField {
    JsonField::Text(s.to_string())
}

#[test]
fn test_verify_integrity() {
    let snapshots = vec![IndexedFile { id: "test-snapshot-123".to_string(), present: true }];
    let tics = vec![IndexedFile { id: "test-tic-456".to_string(), present: true }];
    let listing = vec![entry(Some("spiral"), Some("test-snapshot-123")), entry(Some("json"), Some("index"))];
    let results = verify_integrity(&snapshots, &tics, &listing);
    assert!(results.valid);
    assert!(results.errors.is_empty());
    assert!(results.warnings.is_empty());
}

#[test]
fn test_verify_integrity_missing_file() {
    let snapshots = vec![IndexedFile { id: "test-snapshot-123".to_string(), present: false }];
    let results = verify_integrity(&snapshots, &vec![], &vec![]);
    assert!(!results.valid);
    assert_eq!(results.errors, vec!["Missing snapshot file: test-snapshot-123".to_string()]);
}

#[test]
fn test_cleanup_orphaned_files() {
    let listing = vec![
        entry(Some("spiral"), Some("orphan")),
        entry(Some("spiral"), Some("kept")),
        entry(Some("tic"), Some("stray")),
        entry(None, Some("README")),
    ];
    let snapshot_ids = vec!["kept".to_string()];
    assert_eq!(orphaned_files(&snapshot_ids, &vec![], &listing), vec![0, 2]);
    let results = verify_integrity(
        &vec![IndexedFile { id: "kept".to_string(), present: true }],
        &vec![],
        &listing,
    );
    assert!(results.valid);
    assert_eq!(
        results.warnings,
        vec!["Unindexed snapshot: orphan".to_string(), "Unindexed TIC: stray".to_string()]
    );
}

#[test]
fn test_get_statistics() {
    let listing = vec![entry(Some("spiral"), Some("a")), entry(Some("tic"), Some("b")), entry(Some("spiral"), Some("c"))];
    let (snapshots, tics) = storage_counts(&listing, 1, 4);
    assert_eq!((snapshots.count, snapshots.indexed), (2, 1));
    assert_eq!((tics.count, tics.indexed), (1, 4));
}

#[test]
fn test_store_and_retrieve_tic() {
    let entry = TicMetadata::from_fields(Some("test-tic-456"), Some("test-seed"), None, Some(10), Some("valid")).ok().unwrap();
    assert_eq!(entry.id, "test-tic-456");
    assert_eq!(entry.seed, "test-seed");
    assert_eq!(entry.source_snapshot, "");
    assert_eq!(entry.window, 10);
    assert_eq!(entry.por, "valid");
    assert_eq!(entry.file, "test-tic-456.tic");
    let missing = TicMetadata::from_fields(None, None, None, None, None);
    assert_eq!(missing.err().unwrap(), "Missing tic_id");
    let defaults = TicMetadata::from_fields(Some("t"), None, None, None, None).ok().unwrap();
    assert_eq!(defaults.por, "unknown");
    assert_eq!(IndexMetadata::fresh("2025-01-01T00:00:00Z".to_string()).version, "1.0.0");
}

#[test]
fn test_multiscale_gating() {
    let (meso, macro_level) = gate_levels(true, true, true);
    assert!(meso.passed);
    assert!(macro_level.passed);
    assert!(macro_level.commit);
    let (meso, macro_level) = gate_levels(false, true, true);
    assert_eq!((meso.value, macro_level.value), (0, 0));
    assert!(!macro_level.commit);
    assert_eq!(active_units(&vec![1, 0, 1, 1]), 3);
}

#[test]
fn test_validate_proof() {
    assert_eq!(proof_status("valid", true, true, true), "valid");
    assert_eq!(proof_status("invalid", true, true, true), "invalid");
    assert_eq!(proof_status("valid", true, false, true), "invalid");
}

#[test]
fn test_should_commit() {
    assert!(should_commit("valid", true, true, true));
    assert!(!should_commit("invalid", true, true, true));
    assert!(!should_commit("valid", false, true, true));
    assert!(!should_commit("valid", true, true, false));
}

#[test]
fn test_persistence_config_from_dict() {
    let json = obj(vec![("provider", jtext("s3")), ("bucket", jtext("test-bucket")), ("prefix", jtext("test/prefix"))]);
    let config = PersistenceConfig::from_dict(Some(&json));
    assert_eq!(config.provider, Some("s3".to_string()));
    assert_eq!(config.bucket, Some("test-bucket".to_string()));
    assert_eq!(config.prefix, Some("test/prefix".to_string()));
    assert!(config.is_s3());
}

#[test]
fn test_persistence_config_type_alias() {
    let json = obj(vec![("type", jtext("s3")), ("bucket", jtext("test-bucket"))]);
    let config = PersistenceConfig::from_dict(Some(&json));
    assert_eq!(config.provider, Some("s3".to_string()));
    assert!(config.is_s3());
    let upper = PersistenceConfig { provider: Some("S3".to_string()), bucket: Some("b".to_string()), prefix: None };
    assert!(upper.is_s3());
    let no_bucket = PersistenceConfig { provider: Some("s3".to_string()), bucket: None, prefix: None };
    assert!(!no_bucket.is_s3());
    let shadowed = PersistenceConfig::from_fields(true, &JsonField::Other, &text("s3"), &text("b"), &JsonField::Absent);
    assert_eq!(shadowed.provider, None);
    assert!(!should_sync(0, &upper));
    assert!(should_sync(2, &upper));
    assert!(PersistenceConfig::default().provider.is_none());
}

#[test]
fn version_directories() {
    assert_eq!(version_dir_name(3), "v3");
    assert_eq!(version_dir_name(-2), "v-2");
    assert_eq!(version_dir_name(i64::MIN), "v-9223372036854775808");
}

fn header(id: &str, epoch: Option<i64>) -> RecordHeader {
    RecordHeader { id: id.to_string(), epoch }
}

#[test]
fn test_upsert_vectors() {
    let existing = vec![VectorEntry { id: "vec1".to_string(), epoch: 1, updated_at: "epoch-1".to_string() }];
    let records = vec![header("vec1", None), header("vec2", Some(7))];
    let updates = plan_updates(&existing, &records, Some(5)).ok().unwrap();
    assert_eq!(updates[0].epoch, 5);
    assert_eq!(updates[0].updated_at, "epoch-1");
    assert_eq!(updates[1].epoch, 7);
    assert_eq!(updates[1].updated_at, "epoch-7");
    let mut entries = existing;
    apply_updates(&mut entries, &updates);
    assert_eq!(entries.len(), 2);
    assert_eq!(entries[0].epoch, 5);
    assert!(matches!(plan_updates(&entries, &vec![header("x", None)], None), Err(UpsertError::MissingEpoch)));
    assert_eq!(
        UpsertError::MissingEpoch.message(),
        "Epoch must be provided either per record or as an argument"
    );
    assert_eq!(next_proof_version(None), 1);
    assert_eq!(next_proof_version(Some(4)), 5);
    assert_eq!(provider_or_default(None), "hnsw");
    assert_eq!(provider_or_default(Some("ivf_pq")), "ivf_pq");
}

#[test]
fn test_delete_vectors() {
    let mut entries = vec![
        VectorEntry { id: "vec1".to_string(), epoch: 1, updated_at: "epoch-1".to_string() },
        VectorEntry { id: "vec2".to_string(), epoch: 1, updated_at: "epoch-1".to_string() },
    ];
    assert!(remove_ids(&mut entries, &vec!["vec1".to_string(), "zzz".to_string()]));
    assert_eq!(entries.len(), 1);
    assert_eq!(entries[0].id, "vec2");
    assert!(!remove_ids(&mut entries, &vec!["vec1".to_string()]));
}

fn listing(seed: &str, por: &str, ts: &str) -> SnapshotListing {
    SnapshotListing { seed: seed.to_string(), por: por.to_string(), timestamp: ts.to_string() }
}

#[test]
fn test_list_snapshots() {
    let entries = vec![listing("test-seed", "valid", "2025-01-01T00:00:00Z")];
    let order = list_snapshot_order(&entries, None, None);
    assert_eq!(order, vec![0]);
}

#[test]
fn test_list_snapshots_with_filter() {
    let entries = vec![listing("test-seed", "valid", "2025-01-01T00:00:00Z")];
    assert_eq!(list_snapshot_order(&entries, Some("test-seed"), None).len(), 1);
    assert_eq!(list_snapshot_order(&entries, Some("wrong-seed"), None).len(), 0);
}

#[test]
fn listing_sorts_by_timestamp_and_filters_por() {
    let entries = vec![
        listing("a", "valid", "2025-03-01"),
        listing("a", "invalid", "2025-01-01"),
        listing("b", "valid", "2025-02-01"),
        listing("a", "valid", "2025-01-15"),
        listing("a", "valid", "2025-01-15"),
    ];
    assert_eq!(list_snapshot_order(&entries, None, None), vec![1, 3, 4, 2, 0]);
    assert_eq!(list_snapshot_order(&entries, Some("a"), Some("valid")), vec![3, 4, 0]);
    assert_eq!(list_snapshot_order(&entries, None, Some("invalid")), vec![1]);
}

#[test]
fn test_store_and_retrieve_snapshot() {
    let entry = SnapshotEntry::from_fields(Some("test-snapshot-123"), Some("2025-01-01T00:00:00Z"), Some("test-seed"), Some("valid"))
        .ok()
        .unwrap();
    assert_eq!(entry.id, "test-snapshot-123");
    assert_eq!(entry.file, "test-snapshot-123.spiral");
    assert_eq!(entry.timestamp, "2025-01-01T00:00:00Z");
    assert_eq!(entry.seed, "test-seed");
    assert_eq!(entry.por, "valid");
    let bare = SnapshotEntry::from_fields(Some("s"), None, None, None).ok().unwrap();
    assert_eq!((bare.timestamp.as_str(), bare.seed.as_str(), bare.por.as_str()), ("", "", "unknown"));
    match SnapshotEntry::from_fields(None, None, None, None) {
        Err(m) => assert_eq!(m, "Missing snapshot id"),
        Ok(_) => panic!("snapshot without id accepted"),
    }
}

fn jtext(s: &str) -> JsonValue {
    JsonValue::Text(s.to_string())
}

fn obj(pairs: Vec<(&str, JsonValue)>) -> JsonValue {
    JsonValue::Object(pairs.into_iter().map(|(k, v)| (k.to_string(), v)).collect())
}

fn lookup<'a>(entries: &'a [(String, JsonValue)], key: &str) -> Option<&'a JsonValue> {
    entries.iter().find(|(k, _)| k == key).map(|(_, v)| v)
}

#[test]
fn test_manifest_from_dict() {
    let json = obj(vec![
        (
            "collections",
            obj(vec![("test_collection", obj(vec![("latest_epoch", JsonValue::Number("1".to_string())), ("updated_at", jtext("2025-01-01T00:00:00.000Z"))]))]),
        ),
        ("persistence", obj(vec![("provider", jtext("s3")), ("bucket", jtext("test-bucket"))])),
    ]);
    let manifest = Manifest::from_dict(Some(&json));
    assert_eq!(manifest.collections.len(), 1);
    assert!(lookup(&manifest.collections, "test_collection").is_some());
    assert!(manifest.persistence.is_s3());
    let empty = Manifest::from_dict(Some(&jtext("not an object")));
    assert!(empty.collections.is_empty());
    assert!(empty.persistence.provider.is_none());
    assert!(PersistenceConfig::from_dict(None).bucket.is_none());
    let odd_provider = obj(vec![("provider", JsonValue::Bool(true)), ("type", jtext("s3"))]);
    assert_eq!(PersistenceConfig::from_dict(Some(&odd_provider)).provider, None);
}

#[test]
fn test_set_active_epoch() {
    let mut manifest = Manifest::from_dict(None);
    manifest.set_active_epoch("test_collection", 5, "2025-01-01T00:00:00.000Z".to_string());
    let entry = match lookup(&manifest.collections, "test_collection") {
        Some(JsonValue::Object(e)) => e,
        _ => panic!("entry missing"),
    };
    assert_eq!(lookup(entry, "active_epoch"), Some(&JsonValue::Number("5".to_string())));
    assert!(matches!(lookup(entry, "activated_at"), Some(JsonValue::Text(_))));
}

#[test]
fn test_manifest_store_persist_state() {
    let mut manifest = Manifest::from_dict(None);
    manifest.record_version("test_collection", 1, "2025-01-01T00:00:00.000Z".to_string(), "test_collection/v1".to_string());
    manifest.set_active_epoch("test_collection", -3, "t".to_string());
    manifest.record_version("other", 2, "u".to_string(), "other/v2".to_string());
    let entry = match lookup(&manifest.collections, "test_collection") {
        Some(JsonValue::Object(e)) => e,
        _ => panic!("entry missing"),
    };
    assert_eq!(lookup(entry, "latest_epoch"), Some(&JsonValue::Number("1".to_string())));
    assert_eq!(lookup(entry, "path"), Some(&jtext("test_collection/v1")));
    assert_eq!(lookup(entry, "active_epoch"), Some(&JsonValue::Number("-3".to_string())));
    assert_eq!(manifest.collections.len(), 2);
    manifest.record_version("test_collection", 4, "v".to_string(), "test_collection/v4".to_string());
    let entry = match lookup(&manifest.collections, "test_collection") {
        Some(JsonValue::Object(e)) => e,
        _ => panic!("entry missing"),
    };
    assert_eq!(lookup(entry, "active_epoch"), None);
    assert_eq!(lookup(entry, "latest_epoch"), Some(&JsonValue::Number("4".to_string())));
}

#[test]
fn manifest_to_dict() {
    let mut manifest = Manifest::from_dict(None);
    manifest.persistence = PersistenceConfig { provider: Some("s3".to_string()), bucket: None, prefix: Some("p/".to_string()) };
    manifest.record_version("c", 1, "t".to_string(), "c/v1".to_string());
    let json = manifest.to_dict();
    let top = match json {
        JsonValue::Object(e) => e,
        _ => panic!("not an object"),
    };
    assert!(matches!(lookup(&top, "collections"), Some(JsonValue::Object(c)) if c.len() == 1));
    assert_eq!(
        lookup(&top, "persistence"),
        Some(&obj(vec![("provider", jtext("s3")), ("bucket", JsonValue::Null), ("prefix", jtext("p/"))]))
    );
}

#[test]
fn manifest_well_formedness() {
    let ok = Manifest::from_dict(Some(&obj(vec![("collections", obj(vec![("a", obj(vec![("x", JsonValue::Null)])), ("b", jtext("t"))]))])));
    assert!(ok.is_well_formed());
    let dup_top = Manifest::from_dict(Some(&obj(vec![("collections", obj(vec![("a", JsonValue::Null), ("a", JsonValue::Null)]))])));
    assert!(!dup_top.is_well_formed());
    let dup_inner = Manifest::from_dict(Some(&obj(vec![(
        "collections",
        obj(vec![("a", obj(vec![("x", JsonValue::Null), ("x", JsonValue::Bool(true))]))]),
    )])));
    assert!(!dup_inner.is_well_formed());
}
