//! Object-store layout for snapshots, TICs and ledger blocks: the bucket
//! configuration, how artifact keys are formed, which local files a sync
//! uploads, and the bookkeeping of a sync run.  The network calls
//! themselves are made by the caller.

use std::collections::HashMap;
use vstd::prelude::*;
use crate::hashing::sha256_hex_digest;
use crate::text::{push_zero_padded, text_eq};

verus! {

/// Configuration of the object store.
pub struct S3Config {
    /// Bucket name.
    pub bucket: String,
    /// Key prefix for all objects.
    pub prefix: String,
    /// Region.
    pub region: String,
    /// Custom endpoint URL (for S3-compatible services).
    pub endpoint_url: Option<String>,
    /// Access key id.
    pub access_key_id: Option<String>,
    /// Secret access key.
    pub secret_access_key: Option<String>,
}

impl Default for S3Config {
    fn default() -> (config: S3Config)
        ensures
            config.bucket@ == "mef-core"@,
            config.prefix@ == "mef/"@,
            config.region@ == "us-east-1"@,
            config.endpoint_url is None,
            config.access_key_id is None,
            config.secret_access_key is None,
    {
        S3Config {
            bucket: String::from_str("mef-core"),
            prefix: String::from_str("mef/"),
            region: String::from_str("us-east-1"),
            endpoint_url: None,
            access_key_id: None,
            secret_access_key: None,
        }
    }
}

/// Kinds of stored artifacts; each lives under a prefix of its own.
#[derive(Clone, Copy, Debug, PartialEq, Eq, Structural)]
pub enum ArtifactType {
    Snapshot,
    Tic,
    Block,
    Hdag,
    Index,
}

/// The key prefix of an artifact type.
pub open spec fn artifact_prefix(t: ArtifactType) -> Seq<char> {
    match t {
        ArtifactType::Snapshot => "snapshots"@,
        ArtifactType::Tic => "tics"@,
        ArtifactType::Block => "ledger"@,
        ArtifactType::Hdag => "hdag"@,
        ArtifactType::Index => "indices"@,
    }
}

impl ArtifactType {
    /// The key prefix of this artifact type.
    pub fn prefix(&self) -> (p: &'static str)
        ensures
            p@ == artifact_prefix(*self),
    {
        match self {
            ArtifactType::Snapshot => "snapshots",
            ArtifactType::Tic => "tics",
            ArtifactType::Block => "ledger",
            ArtifactType::Hdag => "hdag",
            ArtifactType::Index => "indices",
        }
    }
}

/// What an upload reports back.
pub struct UploadMetadata {
    pub key: String,
    pub etag: String,
    pub version_id: Option<String>,
    pub checksum: String,
}

/// A listed artifact.
pub struct ArtifactMetadata {
    pub key: String,
    pub size: i64,
    pub last_modified: String,
    pub etag: String,
    pub metadata: HashMap<String, String>,
}

/// Counters and error messages of a sync run.
pub struct SyncStats {
    pub uploaded: usize,
    pub downloaded: usize,
    pub skipped: usize,
    pub failed: usize,
    pub errors: Vec<String>,
}

impl Default for SyncStats {
    fn default() -> (stats: SyncStats)
        ensures
            stats.uploaded == 0,
            stats.downloaded == 0,
            stats.skipped == 0,
            stats.failed == 0,
            stats.errors@.len() == 0,
    {
        SyncStats { uploaded: 0, downloaded: 0, skipped: 0, failed: 0, errors: Vec::new() }
    }
}

/// Failures in forming an artifact's key.
#[derive(Clone, Copy, Debug, PartialEq, Eq, Structural)]
pub enum StorageError {
    /// The snapshot has no `id` field.
    MissingSnapshotId,
    /// The TIC has no `tic_id` field.
    MissingTicId,
    /// The block has no `index` field.
    MissingBlockIndex,
}

/// The key of an artifact: the configured prefix, the type's prefix, a
/// slash, then the artifact id.
pub open spec fn s3_key_spec(prefix: Seq<char>, t: ArtifactType, artifact_id: Seq<char>) -> Seq<char> {
    prefix + artifact_prefix(t) + "/"@ + artifact_id
}

/// The file name of a snapshot: its id with `.spiral`.
pub open spec fn snapshot_file_spec(id: Seq<char>) -> Seq<char> {
    id + ".spiral"@
}

/// The file name of a TIC: its id with `.tic`.
pub open spec fn tic_file_spec(id: Seq<char>) -> Seq<char> {
    id + ".tic"@
}

/// The file name of a block: `block_`, its index padded to six digits,
/// then `.mef`.
pub open spec fn block_file_spec(index: nat) -> Seq<char> {
    "block_"@ + crate::text::zero_padded(index, 6) + ".mef"@
}

impl S3Config {
    /// The key of the artifact `artifact_id` of type `artifact_type`.
    pub fn get_s3_key(&self, artifact_type: ArtifactType, artifact_id: &str) -> (key: String)
        ensures
            key@ == s3_key_spec(self.prefix@, artifact_type, artifact_id@),
    {
        let mut key = self.prefix.clone();
        key.append(artifact_type.prefix());
        key.append("/");
        key.append(artifact_id);
        key
    }

    /// The key of a snapshot, from its `id` field.
    pub fn snapshot_key(&self, snapshot_id: Option<&str>) -> (key: Result<String, StorageError>)
        ensures
            match snapshot_id {
                Some(id) => key matches Ok(k) && k@ == s3_key_spec(
                    self.prefix@,
                    ArtifactType::Snapshot,
                    snapshot_file_spec(id@),
                ),
                None => key == Err::<String, StorageError>(StorageError::MissingSnapshotId),
            },
    {
        match snapshot_id {
            Some(id) => {
                let mut file = String::from_str(id);
                file.append(".spiral");
                Ok(self.get_s3_key(ArtifactType::Snapshot, file.as_str()))
            },
            None => Err(StorageError::MissingSnapshotId),
        }
    }

    /// The key of a TIC, from its `tic_id` field.
    pub fn tic_key(&self, tic_id: Option<&str>) -> (key: Result<String, StorageError>)
        ensures
            match tic_id {
                Some(id) => key matches Ok(k) && k@ == s3_key_spec(self.prefix@, ArtifactType::Tic, tic_file_spec(id@)),
                None => key == Err::<String, StorageError>(StorageError::MissingTicId),
            },
    {
        match tic_id {
            Some(id) => {
                let mut file = String::from_str(id);
                file.append(".tic");
                Ok(self.get_s3_key(ArtifactType::Tic, file.as_str()))
            },
            None => Err(StorageError::MissingTicId),
        }
    }

    /// The key of a ledger block, from its `index` field.
    pub fn block_key(&self, block_index: Option<u64>) -> (key: Result<String, StorageError>)
        ensures
            match block_index {
                Some(i) => key matches Ok(k) && k@ == s3_key_spec(
                    self.prefix@,
                    ArtifactType::Block,
                    block_file_spec(i as nat),
                ),
                None => key == Err::<String, StorageError>(StorageError::MissingBlockIndex),
            },
    {
        match block_index {
            Some(i) => {
                let mut file = String::from_str("block_");
                push_zero_padded(&mut file, i, 6);
                file.append(".mef");
                Ok(self.get_s3_key(ArtifactType::Block, file.as_str()))
            },
            None => Err(StorageError::MissingBlockIndex),
        }
    }

    /// Whether a bucket in this region is created with a location
    /// constraint (every region but `us-east-1`).
    pub fn needs_location_constraint(&self) -> (needed: bool)
        ensures
            needed == (self.region@ != "us-east-1"@),
    {
        !text_eq(self.region.as_str(), "us-east-1")
    }
}

/// The checksum stored with an uploaded snapshot: SHA-256 of its text.
pub fn content_checksum(text: &str) -> (checksum: String)
    ensures
        checksum@ == crate::hashing::sha256_hex(vstd::utf8::encode_utf8(text@)),
{
    sha256_hex_digest(text.as_bytes())
}

/// Whether a downloaded snapshot's text matches the checksum stored with it.
pub fn checksum_matches(expected: &str, text: &str) -> (matches: bool)
    ensures
        matches == (expected@ == crate::hashing::sha256_hex(vstd::utf8::encode_utf8(text@))),
{
    let actual = content_checksum(text);
    text_eq(expected, actual.as_str())
}

/// The artifact type that files with extension `ext` (dot included) hold.
pub open spec fn artifact_for_extension(ext: Seq<char>) -> Option<ArtifactType> {
    if ext == ".spiral"@ {
        Some(ArtifactType::Snapshot)
    } else if ext == ".tic"@ {
        Some(ArtifactType::Tic)
    } else if ext == ".mef"@ {
        Some(ArtifactType::Block)
    } else {
        None
    }
}

/// What a sync to the store does with a walked directory entry.
#[derive(Clone, Copy, Debug, PartialEq, Eq, Structural)]
pub enum UploadPlan {
    /// Not a file: passed over without counting.
    Ignore,
    /// A file without a supported extension: counted as skipped.
    Skip,
    /// A file to upload as an artifact of this type.
    Upload(ArtifactType),
}

/// The plan for an entry: what `plan_upload` returns.
pub open spec fn upload_plan_spec(is_file: bool, extension: Option<Seq<char>>) -> UploadPlan {
    if !is_file {
        UploadPlan::Ignore
    } else {
        match extension {
            None => UploadPlan::Skip,
            Some(e) => match artifact_for_extension("."@ + e) {
                Some(t) => UploadPlan::Upload(t),
                None => UploadPlan::Skip,
            },
        }
    }
}

/// The artifact type stored in files with extension `ext` (dot included).
pub fn artifact_for_ext(ext: &str) -> (t: Option<ArtifactType>)
    ensures
        t == artifact_for_extension(ext@),
{
    if text_eq(ext, ".spiral") {
        Some(ArtifactType::Snapshot)
    } else if text_eq(ext, ".tic") {
        Some(ArtifactType::Tic)
    } else if text_eq(ext, ".mef") {
        Some(ArtifactType::Block)
    } else {
        None
    }
}

/// Decides what a sync does with a directory entry, from whether it is a
/// file and its extension (without the dot), if any.
pub fn plan_upload(is_file: bool, extension: Option<&str>) -> (plan: UploadPlan)
    ensures
        plan == upload_plan_spec(
            is_file,
            match extension {
                Some(e) => Some(e@),
                None => None,
            },
        ),
{
    if !is_file {
        return UploadPlan::Ignore;
    }
    match extension {
        None => UploadPlan::Skip,
        Some(e) => {
            let mut ext = String::from_str(".");
            ext.append(e);
            match artifact_for_ext(ext.as_str()) {
                Some(t) => UploadPlan::Upload(t),
                None => UploadPlan::Skip,
            }
        },
    }
}

impl SyncStats {
    /// Counts an entry passed over.
    pub fn record_skipped(&mut self)
        requires
            old(self).skipped < usize::MAX,
        ensures
            final(self).skipped == old(self).skipped + 1,
            final(self).uploaded == old(self).uploaded,
            final(self).downloaded == old(self).downloaded,
            final(self).failed == old(self).failed,
            final(self).errors@ == old(self).errors@,
    {
        self.skipped = self.skipped + 1;
    }

    /// Counts an uploaded artifact.
    pub fn record_uploaded(&mut self)
        requires
            old(self).uploaded < usize::MAX,
        ensures
            final(self).uploaded == old(self).uploaded + 1,
            final(self).skipped == old(self).skipped,
            final(self).downloaded == old(self).downloaded,
            final(self).failed == old(self).failed,
            final(self).errors@ == old(self).errors@,
    {
        self.uploaded = self.uploaded + 1;
    }

    /// Counts a downloaded artifact.
    pub fn record_downloaded(&mut self)
        requires
            old(self).downloaded < usize::MAX,
        ensures
            final(self).downloaded == old(self).downloaded + 1,
            final(self).uploaded == old(self).uploaded,
            final(self).skipped == old(self).skipped,
            final(self).failed == old(self).failed,
            final(self).errors@ == old(self).errors@,
    {
        self.downloaded = self.downloaded + 1;
    }

    /// Counts a failure and keeps its message.
    pub fn record_failure(&mut self, message: String)
        requires
            old(self).failed < usize::MAX,
        ensures
            final(self).failed == old(self).failed + 1,
            final(self).errors@ == old(self).errors@.push(message),
            final(self).uploaded == old(self).uploaded,
            final(self).downloaded == old(self).downloaded,
            final(self).skipped == old(self).skipped,
    {
        self.failed = self.failed + 1;
        self.errors.push(message);
    }
}

/// The sum of the known sizes.
pub open spec fn known_size_sum(sizes: Seq<Option<i64>>) -> int
    decreases sizes.len(),
{
    if sizes.len() == 0 {
        0
    } else {
        known_size_sum(sizes.drop_last()) + match sizes.last() {
            Some(v) => v as int,
            None => 0,
        }
    }
}

/// Every running sum of the known sizes fits in an `i64`.
pub open spec fn sums_fit(sizes: Seq<Option<i64>>) -> bool {
    forall|k: int| 0 <= k <= sizes.len() ==> i64::MIN <= #[trigger] known_size_sum(sizes.subrange(0, k)) <= i64::MAX
}

/// The objects listed under one artifact prefix: how many, and their
/// total size in bytes (objects without a size count as listed but add
/// nothing).
pub struct ArtifactTally {
    pub count: usize,
    pub size_bytes: i64,
}

/// Tallies the sizes of listed objects.
pub fn tally_listing(sizes: &Vec<Option<i64>>) -> (tally: ArtifactTally)
    requires
        sums_fit(sizes@),
    ensures
        tally.count == sizes@.len(),
        tally.size_bytes == known_size_sum(sizes@),
{
    let mut total: i64 = 0;
    let mut i: usize = 0;
    while i < sizes.len()
        invariant
            0 <= i <= sizes@.len(),
            sums_fit(sizes@),
            total == known_size_sum(sizes@.subrange(0, i as int)),
        decreases sizes@.len() - i,
    {
        let ghost next = sizes@.subrange(0, i + 1);
        assert(next.drop_last() =~= sizes@.subrange(0, i as int));
        assert(i64::MIN <= known_size_sum(next) <= i64::MAX);
        match sizes[i] {
            Some(v) => {
                total = total + v;
            },
            None => {},
        }
        i = i + 1;
    }
    assert(sizes@.subrange(0, sizes@.len() as int) =~= sizes@);
    ArtifactTally { count: sizes.len(), size_bytes: total }
}

/// The totals of the storage metrics over the artifact types counted so far.
pub struct StorageTotals {
    pub total_size: i64,
    pub total_objects: usize,
}

impl StorageTotals {
    /// No artifacts counted yet.
    pub fn new() -> (totals: StorageTotals)
        ensures
            totals.total_size == 0,
            totals.total_objects == 0,
    {
        StorageTotals { total_size: 0, total_objects: 0 }
    }

    /// Adds the tally of one artifact type.
    pub fn add(&mut self, tally: &ArtifactTally)
        requires
            i64::MIN <= old(self).total_size + tally.size_bytes <= i64::MAX,
            old(self).total_objects + tally.count <= usize::MAX,
        ensures
            final(self).total_size == old(self).total_size + tally.size_bytes,
            final(self).total_objects == old(self).total_objects + tally.count,
    {
        self.total_size = self.total_size + tally.size_bytes;
        self.total_objects = self.total_objects + tally.count;
    }
}

/// The artifact types that the storage metrics cover, in order.
pub fn metered_artifact_types() -> (types: Vec<ArtifactType>)
    ensures
        types@ == seq![ArtifactType::Snapshot, ArtifactType::Tic, ArtifactType::Block],
{
    vec![ArtifactType::Snapshot, ArtifactType::Tic, ArtifactType::Block]
}

impl S3Config {
    /// The key prefix under which artifacts of a type are listed, narrowed
    /// by an optional filter.
    pub fn listing_prefix(&self, artifact_type: ArtifactType, filter: Option<&str>) -> (prefix: String)
        ensures
            prefix@ == s3_key_spec(self.prefix@, artifact_type, Seq::empty()) + match filter {
                Some(f) => f@,
                None => Seq::empty(),
            },
    {
        let mut prefix = self.get_s3_key(artifact_type, "");
        proof {
            reveal_strlit("");
        }
        match filter {
            Some(f) => prefix.append(f),
            None => {},
        }
        prefix
    }
}

/// The last path component among the pieces of a key, passing over empty
/// pieces and `.` (as `std::path::Path::components` does).
pub open spec fn last_component(pieces: Seq<Seq<char>>) -> Option<Seq<char>>
    decreases pieces.len(),
{
    if pieces.len() == 0 {
        None
    } else {
        let p = pieces.last();
        if p.len() == 0 || p == seq!['.'] {
            last_component(pieces.drop_last())
        } else {
            Some(p)
        }
    }
}

/// The file name of a `/`-separated key, as `Path::file_name` gives it:
/// the last component, unless there is none or it is `..`.
pub open spec fn file_name_of(key: Seq<char>) -> Option<Seq<char>> {
    match last_component(crate::text::split_pieces(key, '/')) {
        Some(p) => if p == seq!['.', '.'] {
            None
        } else {
            Some(p)
        },
        None => None,
    }
}

/// The file name of an object key (see `file_name_of`).
pub fn key_file_name(key: &str) -> (name: Option<String>)
    ensures
        match name {
            Some(n) => file_name_of(key@) == Some(n@),
            None => file_name_of(key@) is None,
        },
{
    let pieces = crate::text::split_text(key, '/');
    let ghost views = crate::text::char_lists(pieces@);
    let mut i: usize = pieces.len();
    assert(views.subrange(0, i as int) =~= views);
    while i > 0
        invariant
            i <= pieces@.len(),
            views == crate::text::char_lists(pieces@),
            views == crate::text::split_pieces(key@, '/'),
            last_component(views) == last_component(views.subrange(0, i as int)),
        decreases i,
    {
        let p = &pieces[i - 1];
        let ghost front = views.subrange(0, i as int);
        assert(front.drop_last() =~= views.subrange(0, i - 1));
        assert(front.last() == p@);
        let is_dot = p.len() == 1 && p[0] == '.';
        assert(is_dot == (p@ == seq!['.'])) by {
            if p@.len() == 1 && p@[0] == '.' {
                assert(p@ =~= seq!['.']);
            }
        }
        if p.len() != 0 && !is_dot {
            let is_parent = p.len() == 2 && p[0] == '.' && p[1] == '.';
            assert(is_parent == (p@ == seq!['.', '.'])) by {
                if p@.len() == 2 && p@[0] == '.' && p@[1] == '.' {
                    assert(p@ =~= seq!['.', '.']);
                }
            }
            if is_parent {
                return None;
            }
            return Some(crate::text::text_of(p));
        }
        i = i - 1;
    }
    assert(views.subrange(0, 0) =~= Seq::<Seq<char>>::empty());
    None
}

proof fn lemma_split_last_piece(front: Seq<char>, tail: Seq<char>)
    requires
        forall|i: int| 0 <= i < tail.len() ==> tail[i] != '/',
    ensures
        crate::text::split_pieces(front + seq!['/'] + tail, '/').len() >= 1,
        crate::text::split_pieces(front + seq!['/'] + tail, '/').last() == tail,
    decreases tail.len(),
{
    let whole = front + seq!['/'] + tail;
    if tail.len() == 0 {
        assert(whole.drop_last() =~= front);
        crate::text::lemma_split_pieces_nonempty(front, '/');
    } else {
        let shorter = tail.drop_last();
        assert forall|i: int| 0 <= i < shorter.len() implies shorter[i] != '/' by {
            assert(shorter[i] == tail[i]);
        }
        lemma_split_last_piece(front, shorter);
        assert(whole.drop_last() =~= front + seq!['/'] + shorter);
        assert(whole[whole.len() - 1] == tail[tail.len() - 1]);
        assert(shorter.push(tail[tail.len() - 1]) =~= tail);
    }
}

/// Law: an artifact stored under its key is found again under its own
/// name: the file name of the key of `artifact_id` is `artifact_id`, for
/// every id that is a plain file name (not empty, without `/`, and neither
/// `.` nor `..`).
pub proof fn lemma_key_file_name_is_artifact_id(prefix: Seq<char>, t: ArtifactType, artifact_id: Seq<char>)
    requires
        artifact_id.len() > 0,
        forall|i: int| 0 <= i < artifact_id.len() ==> artifact_id[i] != '/',
        artifact_id != seq!['.'],
        artifact_id != seq!['.', '.'],
    ensures
        file_name_of(s3_key_spec(prefix, t, artifact_id)) == Some(artifact_id),
{
    reveal_strlit("/");
    let front = prefix + artifact_prefix(t);
    assert(s3_key_spec(prefix, t, artifact_id) =~= front + seq!['/'] + artifact_id);
    lemma_split_last_piece(front, artifact_id);
}

} // verus!
