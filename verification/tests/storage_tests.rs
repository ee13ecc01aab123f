use infinity_ledger::hashing::{hmac_sha256_hex_digest, sha256_hex_digest, to_lower_hex};
use infinity_ledger::s3_adapter::{
    artifact_for_ext, checksum_matches, content_checksum, key_file_name, metered_artifact_types, plan_upload, tally_listing,
    ArtifactType, S3Config, StorageError, StorageTotals, SyncStats, UploadPlan,
};

#[test]
fn test_config_default() {
    let config = S3Config::default();
    assert_eq!(config.bucket, "mef-core");
    assert_eq!(config.prefix, "mef/");
    assert_eq!(config.region, "us-east-1");
}

#[test]
fn test_artifact_type_prefix() {
    assert_eq!(ArtifactType::Snapshot.prefix(), "snapshots");
    assert_eq!(ArtifactType::Tic.prefix(), "tics");
    assert_eq!(ArtifactType::Block.prefix(), "ledger");
    assert_eq!(ArtifactType::Hdag.prefix(), "hdag");
    assert_eq!(ArtifactType::Index.prefix(), "indices");
}

#[test]
fn test_get_s3_key() {
    let config = S3Config::default();

    let key = format!("{}{}/{}", config.prefix, ArtifactType::Snapshot.prefix(), "test.spiral");
    assert_eq!(key, "mef/snapshots/test.spiral");

    let key = format!("{}{}/{}", config.prefix, ArtifactType::Block.prefix(), "block_000001.mef");
    assert_eq!(key, "mef/ledger/block_000001.mef");
}

#[test]
fn artifact_keys_from_config() {
    let config = S3Config::default();
    assert_eq!(config.get_s3_key(ArtifactType::Snapshot, "test.spiral"), "mef/snapshots/test.spiral");
    assert_eq!(config.snapshot_key(Some("test")).ok().unwrap(), "mef/snapshots/test.spiral");
    assert_eq!(config.tic_key(Some("t1")).ok().unwrap(), "mef/tics/t1.tic");
    assert_eq!(config.block_key(Some(1)).ok().unwrap(), "mef/ledger/block_000001.mef");
    assert_eq!(config.block_key(Some(1234567)).ok().unwrap(), "mef/ledger/block_1234567.mef");
    assert!(matches!(config.snapshot_key(None), Err(StorageError::MissingSnapshotId)));
    assert!(matches!(config.tic_key(None), Err(StorageError::MissingTicId)));
    assert!(matches!(config.block_key(None), Err(StorageError::MissingBlockIndex)));
    assert_eq!(config.get_s3_key(ArtifactType::Index, ""), "mef/indices/");
    assert!(!config.needs_location_constraint());
    let eu = S3Config { region: "eu-west-1".to_string(), ..S3Config::default() };
    assert!(eu.needs_location_constraint());
}

#[test]
fn test_sync_stats_default() {
    let stats = SyncStats::default();
    assert_eq!(stats.uploaded, 0);
    assert_eq!(stats.downloaded, 0);
    assert_eq!(stats.skipped, 0);
    assert_eq!(stats.failed, 0);
    assert_eq!(stats.errors.len(), 0);
}

#[test]
fn sync_stats_counting() {
    let mut stats = SyncStats::default();
    stats.record_uploaded();
    stats.record_skipped();
    stats.record_skipped();
    stats.record_downloaded();
    stats.record_failure("a.tic: broken".to_string());
    assert_eq!((stats.uploaded, stats.downloaded, stats.skipped, stats.failed), (1, 1, 2, 1));
    assert_eq!(stats.errors, vec!["a.tic: broken".to_string()]);
}

#[test]
fn upload_plans() {
    assert_eq!(plan_upload(false, Some("tic")), UploadPlan::Ignore);
    assert_eq!(plan_upload(true, None), UploadPlan::Skip);
    assert_eq!(plan_upload(true, Some("json")), UploadPlan::Skip);
    assert_eq!(plan_upload(true, Some("spiral")), UploadPlan::Upload(ArtifactType::Snapshot));
    assert_eq!(plan_upload(true, Some("tic")), UploadPlan::Upload(ArtifactType::Tic));
    assert_eq!(plan_upload(true, Some("mef")), UploadPlan::Upload(ArtifactType::Block));
    assert_eq!(artifact_for_ext("mef"), None);
}

#[test]
fn checksums() {
    let sum = content_checksum("test");
    assert_eq!(sum, "9f86d081884c7d659a2feaa0c55ad015a3bf4f1b2b0b822cd15d6c15b0f00a08");
    assert!(checksum_matches(&sum, "test"));
    assert!(!checksum_matches(&sum, "test2"));
}

#[test]
fn hex_rendering() {
    assert_eq!(to_lower_hex(&[0x00, 0x0f, 0xa0, 0xff]), "000fa0ff");
    assert_eq!(sha256_hex_digest(b"test"), "9f86d081884c7d659a2feaa0c55ad015a3bf4f1b2b0b822cd15d6c15b0f00a08");
    assert_eq!(
        hmac_sha256_hex_digest(b"key", b"The quick brown fox jumps over the lazy dog"),
        "f7bc83f430538424b13298e6aa6fb143ef4d59a14946175997479dbc2d1a3cd8"
    );
}

#[test]
fn storage_metrics_tally() {
    let snapshots = tally_listing(&vec![Some(100), Some(2048), None]);
    assert_eq!((snapshots.count, snapshots.size_bytes), (3, 2148));
    let tics = tally_listing(&vec![]);
    assert_eq!((tics.count, tics.size_bytes), (0, 0));
    let mut totals = StorageTotals::new();
    totals.add(&snapshots);
    totals.add(&tics);
    totals.add(&tally_listing(&vec![Some(52)]));
    assert_eq!((totals.total_objects, totals.total_size), (4, 2200));
    let types: Vec<&str> = metered_artifact_types().iter().map(|t| t.prefix()).collect();
    assert_eq!(types, vec!["snapshots", "tics", "ledger"]);
}

#[test]
fn artifact_listing_prefix() {
    let config = S3Config::default();
    assert_eq!(config.listing_prefix(ArtifactType::Tic, None), "mef/tics/");
    assert_eq!(config.listing_prefix(ArtifactType::Snapshot, Some("seed-")), "mef/snapshots/seed-");
}

#[test]
fn key_file_name_matches_path() {
    for key in [
        "mef/snapshots/snap-1.spiral",
        "file.tic",
        "mef/tics/",
        "a//b",
        "a/./",
        "a/..",
        "..",
        ".",
        "./",
        "/",
        "",
        ".hidden",
        "a/../b",
        "mef/ledger/block_000001.mef",
    ] {
        let expected = std::path::Path::new(key).file_name().and_then(|s| s.to_str()).map(|s| s.to_string());
        assert_eq!(key_file_name(key), expected, "{:?}", key);
    }
    assert_eq!(key_file_name("mef/snapshots/snap-1.spiral"), Some("snap-1.spiral".to_string()));
    assert_eq!(key_file_name("a/.."), None);
}

#[test]
fn stored_key_gives_back_its_file_name() {
    let config = S3Config::default();
    for (t, id) in [(ArtifactType::Snapshot, "snap-1.spiral"), (ArtifactType::Tic, "t.tic"), (ArtifactType::Block, "block_000042.mef")] {
        let key = config.get_s3_key(t, id);
        assert_eq!(key_file_name(&key), Some(id.to_string()));
    }
}
