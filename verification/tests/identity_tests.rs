use sha2::{Digest, Sha256};
use infinity_ledger::identity::{phase_seed, sigma_seed_words, tic_identity, tic_identity_from_digest, SnapshotSequence};

#[test]
fn tic_identity_from_material() {
    let id = tic_identity("snap-1_seed-A__[1.0, 2.0]_Null");
    assert_eq!(id.tic_id, "53ba6389a517a916");
    assert_eq!(id.window, vec!["2025-01-01T20:53:12+00:00".to_string(), "2025-01-01T20:58:12+00:00".to_string()]);
}

#[test]
fn tic_identity_of_empty_material() {
    let id = tic_identity("");
    assert_eq!(id.tic_id, "e3b0c44298fc1c14");
    assert_eq!(id.window, vec!["2025-01-01T22:39:24+00:00".to_string(), "2025-01-01T22:44:24+00:00".to_string()]);
}

#[test]
fn tic_window_may_start_the_day_before() {
    let digest = format!("{}{}{}", "abcdef0123456789", "00000064", "0".repeat(40));
    let id = tic_identity_from_digest(&digest);
    assert_eq!(id.tic_id, "abcdef0123456789");
    assert_eq!(id.window, vec!["2024-12-31T23:56:40+00:00".to_string(), "2025-01-01T00:01:40+00:00".to_string()]);
}

#[test]
fn tic_offset_wraps_at_one_day() {
    // ffffffff = 4294967295, which is 23295 modulo 86400.
    let digest = format!("{}{}{}", "0".repeat(16), "ffffffff", "0".repeat(40));
    let id = tic_identity_from_digest(&digest);
    assert_eq!(id.window[1], "2025-01-01T06:28:15+00:00");
}

#[test]
fn test_create_snapshot() {
    let mut sequence = SnapshotSequence::new();
    let first = sequence.snapshot_identity("{\"a\":1}", "MEF_SEED_42");
    assert_eq!(first.snapshot_id, "2f6789aabd3f50f9");
    assert_eq!(first.timestamp, "2025-01-01T00:01:43");
    assert_eq!(first.hdag_node, "N-2f6789aabd3f50f9");
    assert_eq!(sequence.next, 1);
}

#[test]
fn snapshot_test_determinism() {
    let payload = "{\"test\":\"data\"}";
    let mut engine = SnapshotSequence::new();
    let first = engine.snapshot_identity(payload, "MEF_SEED_42");
    engine.next = 0;
    let second = engine.snapshot_identity(payload, "MEF_SEED_42");
    assert_eq!(first.snapshot_id, second.snapshot_id);
    assert_eq!(first.timestamp, second.timestamp);
    assert_eq!(first.snapshot_id, "f7f234744c0caf00");
    assert_eq!(first.timestamp, "2025-01-01T00:00:54");
}

#[test]
fn snapshot_sequence_spaces_snapshots_five_minutes_apart() {
    let mut a = SnapshotSequence::new();
    let x = a.snapshot_identity("{\"a\":1}", "MEF_SEED_42");
    let later = a.snapshot_identity("{\"a\":1}", "MEF_SEED_42");
    assert_eq!(later.snapshot_id, x.snapshot_id);
    assert_eq!(later.timestamp, "2025-01-01T00:06:43");
}

#[test]
fn snapshot_identity_with_non_ascii_payload() {
    let mut seq = SnapshotSequence { next: 5 };
    let id = seq.snapshot_identity("{\"k\":\"\u{fc}\"}", "s");
    assert_eq!(id.snapshot_id, "34abd7cfccfc1da8");
    assert_eq!(id.timestamp, "2025-01-01T00:27:37");
}

#[test]
fn snapshot_phase_seed() {
    assert_eq!(phase_seed("{\"a\":1}", "MEF_SEED_42"), 1725953943);
}

#[test]
fn sigma_words_are_the_big_endian_digest_words() {
    let words = sigma_seed_words("seed-A", "[1.0, 2.0]");
    let digest = Sha256::digest(b"seed-A[1.0, 2.0]");
    assert_eq!(words.len(), 3);
    for k in 0..3 {
        let expected = u32::from_be_bytes([digest[4 * k], digest[4 * k + 1], digest[4 * k + 2], digest[4 * k + 3]]);
        assert_eq!(words[k], expected);
    }
}
