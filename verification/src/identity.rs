//! Deterministic identities of spiral snapshots and temporal information
//! crystals: ids are prefixes of SHA-256 digests of their material, and
//! their times are digest-chosen offsets from 2025-01-01T00:00:00 UTC.
//! Instants are rendered by `chrono`.

use chrono::{DateTime, Utc};
use vstd::prelude::*;
use crate::hashing::sha256_hex_digest;
use crate::text::push_char;

verus! {

/// The RFC 3339 text that `chrono` renders for the UTC instant `secs`
/// seconds after the Unix epoch.
pub uninterp spec fn utc_rfc3339(secs: int) -> Seq<char>;

/// The last second that `chrono` represents, 262142-12-31T23:59:59 UTC, in
/// seconds after the Unix epoch.
pub open spec fn chrono_max_seconds() -> int {
    8210266876799
}

/// The text that `chrono` formats with `pattern` for the UTC instant `secs`
/// seconds after the Unix epoch.
pub uninterp spec fn utc_formatted(secs: int, pattern: Seq<char>) -> Seq<char>;

/// Trusted: `chrono::DateTime::<Utc>::from_timestamp(secs, 0)` rendered by
/// `DateTime::to_rfc3339`.  The contract names the text; `from_timestamp`
/// accepts every instant from the epoch to the end of chrono's last year
/// (its day count stays inside `i32` and chrono's year range), so the call
/// succeeds there.
#[verifier::external_body]
fn rfc3339_at(secs: i64) -> (text: Option<String>)
    ensures
        0 <= secs <= chrono_max_seconds() ==> text is Some,
        text matches Some(t) ==> t@ == utc_rfc3339(secs as int),
{
    match DateTime::<Utc>::from_timestamp(secs, 0) {
        Some(t) => Some(t.to_rfc3339()),
        None => None,
    }
}

/// Trusted: `chrono::DateTime::<Utc>::from_timestamp(secs, 0)`, formatted
/// by `DateTime::format` with `pattern` and rendered with `to_string`.  The
/// contract names the text and admits only the pattern the library uses,
/// whose specifiers chrono knows, so rendering cannot fail; the instant is
/// accepted in the same range as for `rfc3339_at`.
#[verifier::external_body]
fn formatted_at(secs: i64, pattern: &str) -> (text: Option<String>)
    requires
        pattern@ == "%Y-%m-%dT%H:%M:%S"@,
    ensures
        0 <= secs <= chrono_max_seconds() ==> text is Some,
        text matches Some(t) ==> t@ == utc_formatted(secs as int, pattern@),
{
    match DateTime::<Utc>::from_timestamp(secs, 0) {
        Some(t) => Some(t.format(pattern).to_string()),
        None => None,
    }
}

/// 2025-01-01T00:00:00Z in seconds after the Unix epoch.
pub open spec fn tic_base_seconds() -> int {
    1735689600
}

/// A lowercase hexadecimal digit.
pub open spec fn is_lower_hex_digit(c: char) -> bool {
    ('0' <= c <= '9') || ('a' <= c <= 'f')
}

/// The value of a lowercase hexadecimal digit.
pub open spec fn hex_char_value(c: char) -> int {
    if c <= '9' {
        c as int - 48
    } else {
        c as int - 87
    }
}

/// The number that a sequence of hexadecimal digits denotes.
pub open spec fn hex_value(s: Seq<char>) -> int
    decreases s.len(),
{
    if s.len() == 0 {
        0
    } else {
        16 * hex_value(s.drop_last()) + hex_char_value(s.last())
    }
}

/// A digest in lowercase hexadecimal: 64 hexadecimal digits.
pub open spec fn is_hex_digest(d: Seq<char>) -> bool {
    d.len() == 64 && forall|i: int| 0 <= i < d.len() ==> is_lower_hex_digit(#[trigger] d[i])
}

/// The crystal's id: the first 16 digits of its digest.
pub open spec fn tic_id_of(digest: Seq<char>) -> Seq<char> {
    digest.subrange(0, 16)
}

/// The seconds after the base instant at which the crystal's window ends:
/// digits 16 to 23 of the digest, as a number, modulo one day.
pub open spec fn tic_offset_of(digest: Seq<char>) -> int {
    hex_value(digest.subrange(16, 24)) % 86400
}

/// The crystal's window: from five minutes before its end to its end.
pub open spec fn tic_window_of(digest: Seq<char>) -> Seq<Seq<char>> {
    let end = tic_base_seconds() + tic_offset_of(digest);
    seq![utc_rfc3339(end - 300), utc_rfc3339(end)]
}

/// The id and time window of a crystal.
pub struct TicIdentity {
    pub tic_id: String,
    pub window: Vec<String>,
}

proof fn lemma_lower_hex_digits(bytes: Seq<u8>)
    ensures
        forall|i: int|
            0 <= i < crate::hashing::lower_hex(bytes).len() ==> is_lower_hex_digit(
                #[trigger] crate::hashing::lower_hex(bytes)[i],
            ),
    decreases bytes.len(),
{
    if bytes.len() > 0 {
        lemma_lower_hex_digits(bytes.drop_last());
        let b = bytes[bytes.len() - 1];
        let prev = crate::hashing::lower_hex(bytes.drop_last());
        let hi = crate::hashing::hex_digit((b / 16) as int);
        let lo = crate::hashing::hex_digit((b % 16) as int);
        assert(crate::hashing::lower_hex(bytes) == prev + seq![hi, lo]);
        assert(is_lower_hex_digit(hi) && is_lower_hex_digit(lo));
    }
}

/// 16 to the power `k`.
pub open spec fn pow16(k: nat) -> nat
    decreases k,
{
    if k == 0 {
        1
    } else {
        16 * pow16((k - 1) as nat)
    }
}

proof fn lemma_pow16_bound(k: nat)
    requires
        k <= 8,
    ensures
        pow16(k) <= 4294967296,
    decreases 8 - k,
{
    reveal_with_fuel(pow16, 9);
    if k < 8 {
        lemma_pow16_bound(k + 1);
    }
}

/// The id and window of a crystal whose material has the lowercase
/// hexadecimal SHA-256 digest `digest`.
pub fn tic_identity_from_digest(digest: &str) -> (id: TicIdentity)
    requires
        is_hex_digest(digest@),
    ensures
        id.tic_id@ == tic_id_of(digest@),
        id.window@.len() == 2,
        id.window@[0]@ == tic_window_of(digest@)[0],
        id.window@[1]@ == tic_window_of(digest@)[1],
{
    let chars = crate::text::chars_of(digest);
    let mut tic_id = String::new();
    let mut i: usize = 0;
    while i < 16
        invariant
            chars@ == digest@,
            chars@.len() == 64,
            0 <= i <= 16,
            tic_id@ == digest@.subrange(0, i as int),
        decreases 16 - i,
    {
        push_char(&mut tic_id, chars[i]);
        assert(tic_id@ =~= digest@.subrange(0, i + 1));
        i = i + 1;
    }
    let mut value: u64 = 0;
    let mut j: usize = 16;
    while j < 24
        invariant
            chars@ == digest@,
            is_hex_digest(digest@),
            16 <= j <= 24,
            value == hex_value(digest@.subrange(16, j as int)),
            value < pow16((j - 16) as nat),
        decreases 24 - j,
    {
        let c = chars[j];
        assert(is_lower_hex_digit(digest@[j as int]));
        let d: u64 = if c <= '9' {
            (c as u64) - 48
        } else {
            (c as u64) - 87
        };
        let ghost next = digest@.subrange(16, j + 1);
        assert(next.drop_last() =~= digest@.subrange(16, j as int));
        proof {
            lemma_pow16_bound((j - 15) as nat);
            assert(pow16((j - 15) as nat) == 16 * pow16((j - 16) as nat));
        }
        assert(value * 16 + d < pow16((j - 15) as nat)) by (nonlinear_arith)
            requires
                value < pow16((j - 16) as nat),
                d < 16,
                pow16((j - 15) as nat) == pow16((j - 16) as nat) * 16,
        ;
        value = value * 16 + d;
        j = j + 1;
    }
    let offset: i64 = (value % 86400) as i64;
    let end: i64 = 1735689600 + offset;
    let start_text = rfc3339_at(end - 300);
    let end_text = rfc3339_at(end);
    let mut window: Vec<String> = Vec::new();
    match start_text {
        Some(t) => window.push(t),
        None => {},
    }
    match end_text {
        Some(t) => window.push(t),
        None => {},
    }
    TicIdentity { tic_id, window }
}

/// The id and window of a crystal: the digest is taken of the UTF-8 bytes
/// of `material`, the text that identifies the crystal's inputs.
pub fn tic_identity(material: &str) -> (id: TicIdentity)
    ensures
        id.tic_id@ == tic_id_of(crate::hashing::sha256_hex(vstd::string::StringSliceAdditionalSpecFns::spec_bytes(material))),
        id.window@.len() == 2,
        id.window@[0]@ == tic_window_of(crate::hashing::sha256_hex(vstd::string::StringSliceAdditionalSpecFns::spec_bytes(material)))[0],
        id.window@[1]@ == tic_window_of(crate::hashing::sha256_hex(vstd::string::StringSliceAdditionalSpecFns::spec_bytes(material)))[1],
{
    let digest = sha256_hex_digest(material.as_bytes());
    proof {
        lemma_lower_hex_digits(crate::hashing::sha256_digest(vstd::string::StringSliceAdditionalSpecFns::spec_bytes(material)));
    }
    tic_identity_from_digest(digest.as_str())
}

/// The strftime pattern of snapshot timestamps.
pub open spec fn snapshot_time_pattern() -> Seq<char> {
    "%Y-%m-%dT%H:%M:%S"@
}

/// A snapshot's id: the first 16 digits of the SHA-256 digest of its
/// serialized payload, `_` and its seed.
pub open spec fn snapshot_id_of(payload: Seq<char>, seed: Seq<char>) -> Seq<char> {
    crate::hashing::sha256_hex(vstd::utf8::encode_utf8(payload + "_"@ + seed)).subrange(0, 16)
}

/// The seconds a snapshot is placed after the start of its five-minute
/// slot: the first four bytes of the digest of its id and seed, read
/// big-endian, modulo 300.
pub open spec fn snapshot_offset_of(id: Seq<char>, seed: Seq<char>) -> int {
    crate::route_candidates::be_u32_value(crate::hashing::sha256_digest(vstd::utf8::encode_utf8(id + seed)))
        % 300
}

/// The instant of the `sequence`-th snapshot: five minutes per earlier
/// snapshot after the base instant, plus its offset.
pub open spec fn snapshot_seconds_of(payload: Seq<char>, seed: Seq<char>, sequence: int) -> int {
    tic_base_seconds() + 300 * sequence + snapshot_offset_of(snapshot_id_of(payload, seed), seed)
}

/// The id, timestamp and hypergraph node of a snapshot.
pub struct SnapshotIdentity {
    pub snapshot_id: String,
    pub timestamp: String,
    pub hdag_node: String,
}

/// The counter of snapshots created so far by one snapshot engine.
pub struct SnapshotSequence {
    pub next: u64,
}

/// The largest sequence number whose snapshot time chrono can represent
/// whatever its offset.
pub open spec fn max_snapshot_sequence() -> int {
    27361770623
}

fn be_u32_prefix(bytes: &Vec<u8>) -> (v: u32)
    requires
        bytes@.len() >= 4,
    ensures
        v == crate::route_candidates::be_u32_value(bytes@),
{
    (bytes[0] as u32) * 16777216 + (bytes[1] as u32) * 65536 + (bytes[2] as u32) * 256 + bytes[3] as u32
}

/// The UTF-8 bytes of the concatenation of two texts.
fn joined_bytes(a: &str, b: &str) -> (bytes: Vec<u8>)
    ensures
        bytes@ == vstd::utf8::encode_utf8(a@ + b@),
{
    let mut joined = String::from_str(a);
    joined.append(b);
    let s = joined.as_str();
    let raw = s.as_bytes();
    let mut bytes: Vec<u8> = Vec::new();
    let mut i: usize = 0;
    while i < raw.len()
        invariant
            0 <= i <= raw@.len(),
            bytes@ == raw@.subrange(0, i as int),
        decreases raw@.len() - i,
    {
        bytes.push(raw[i]);
        i = i + 1;
    }
    assert(raw@.subrange(0, raw@.len() as int) =~= raw@);
    bytes
}

impl SnapshotSequence {
    /// A fresh engine: no snapshot created yet.
    pub fn new() -> (sequence: SnapshotSequence)
        ensures
            sequence.next == 0,
    {
        SnapshotSequence { next: 0 }
    }

    /// The identity of the next snapshot of serialized payload
    /// `payload_json` and seed `seed`; the counter moves on by one.
    pub fn snapshot_identity(&mut self, payload_json: &str, seed: &str) -> (id: SnapshotIdentity)
        requires
            old(self).next <= max_snapshot_sequence(),
        ensures
            final(self).next == old(self).next + 1,
            id.snapshot_id@ == snapshot_id_of(payload_json@, seed@),
            id.timestamp@ == utc_formatted(
                snapshot_seconds_of(payload_json@, seed@, old(self).next as int),
                snapshot_time_pattern(),
            ),
            id.hdag_node@ == "N-"@ + snapshot_id_of(payload_json@, seed@),
    {
        let mut source = String::from_str(payload_json);
        source.append("_");
        let digest = sha256_hex_digest(joined_bytes(source.as_str(), seed).as_slice());
        let chars = crate::text::chars_of(digest.as_str());
        let mut snapshot_id = String::new();
        let mut i: usize = 0;
        while i < 16
            invariant
                chars@ == digest@,
                chars@.len() == 64,
                0 <= i <= 16,
                snapshot_id@ == digest@.subrange(0, i as int),
            decreases 16 - i,
        {
            push_char(&mut snapshot_id, chars[i]);
            assert(snapshot_id@ =~= digest@.subrange(0, i + 1));
            i = i + 1;
        }
        assert(source@ == payload_json@ + "_"@);
        let time_digest = crate::hashing::sha256_bytes(joined_bytes(snapshot_id.as_str(), seed).as_slice());
        let offset: u32 = be_u32_prefix(&time_digest) % 300;
        let sequence = self.next;
        let seconds: i64 = 1735689600 + 300 * (sequence as i64) + offset as i64;
        let timestamp = match formatted_at(seconds, "%Y-%m-%dT%H:%M:%S") {
            Some(t) => t,
            None => String::new(),
        };
        let mut hdag_node = String::from_str("N-");
        hdag_node.append(snapshot_id.as_str());
        self.next = sequence + 1;
        SnapshotIdentity { snapshot_id, timestamp, hdag_node }
    }
}

/// The integer behind a snapshot's default phase: the first four bytes of
/// the SHA-256 digest of its serialized data followed by its seed, read
/// big-endian (the phase is this fraction of 2^32 of a full turn).
pub fn phase_seed(data_json: &str, seed: &str) -> (v: u32)
    ensures
        v == crate::route_candidates::be_u32_value(
            crate::hashing::sha256_digest(vstd::utf8::encode_utf8(data_json@ + seed@)),
        ),
{
    let digest = crate::hashing::sha256_bytes(joined_bytes(data_json, seed).as_slice());
    be_u32_prefix(&digest)
}

/// The three words behind a crystal's sigma values: bytes 0–3, 4–7 and
/// 8–11 of the SHA-256 digest of its seed followed by the rendering of its
/// fixpoint, each read big-endian (each value is that fraction of
/// `u32::MAX`).
pub fn sigma_seed_words(seed: &str, fixpoint_text: &str) -> (words: Vec<u32>)
    ensures
        words@.len() == 3,
        forall|k: int|
            0 <= k < 3 ==> #[trigger] words@[k] == crate::route_candidates::be_u32_value(
                crate::hashing::sha256_digest(vstd::utf8::encode_utf8(seed@ + fixpoint_text@)).subrange(4 * k, 4 * k + 4),
            ),
{
    let digest = crate::hashing::sha256_bytes(joined_bytes(seed, fixpoint_text).as_slice());
    let ghost d = digest@;
    let mut words: Vec<u32> = Vec::new();
    let mut k: usize = 0;
    while k < 3
        invariant
            0 <= k <= 3,
            d == digest@,
            d.len() == 32,
            words@.len() == k,
            forall|t: int|
                0 <= t < k ==> #[trigger] words@[t] == crate::route_candidates::be_u32_value(d.subrange(4 * t, 4 * t + 4)),
        decreases 3 - k,
    {
        let base = 4 * k;
        let word = (digest[base] as u32) * 16777216 + (digest[base + 1] as u32) * 65536 + (digest[base + 2] as u32) * 256
            + digest[base + 3] as u32;
        assert(word == crate::route_candidates::be_u32_value(d.subrange(4 * k, 4 * k + 4)));
        words.push(word);
        k = k + 1;
    }
    words
}

} // verus!
