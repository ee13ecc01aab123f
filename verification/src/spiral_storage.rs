//! Bookkeeping of the spiral snapshot store: index metadata, the entries
//! kept for TICs, and the checks run over the index and a directory
//! listing (integrity report, orphaned files, counts).  Reading and
//! writing files is left to the caller, which hands in what it saw.

use vstd::prelude::*;
use crate::text::text_eq;

verus! {

/// Metadata of the storage index.
pub struct IndexMetadata {
    pub created: String,
    pub last_updated: String,
    pub version: String,
}

impl IndexMetadata {
    /// The metadata of a new index created at `now`: version `1.0.0`.
    pub fn fresh(now: String) -> (m: IndexMetadata)
        ensures
            m.created@ == now@,
            m.last_updated@ == now@,
            m.version@ == "1.0.0"@,
    {
        IndexMetadata { created: now.clone(), last_updated: now, version: String::from_str("1.0.0") }
    }
}

/// The index entry of a TIC.
pub struct TicMetadata {
    pub id: String,
    pub seed: String,
    pub source_snapshot: String,
    pub window: usize,
    pub por: String,
    pub file: String,
}

/// A text field of a stored document, or `default` when it is absent.
pub open spec fn text_or(t: Option<&str>, default: Seq<char>) -> Seq<char> {
    match t {
        Some(s) => s@,
        None => default,
    }
}

fn copy_or(t: Option<&str>, default: &str) -> (s: String)
    ensures
        s@ == text_or(t, default@),
{
    match t {
        Some(v) => String::from_str(v),
        None => String::from_str(default),
    }
}

impl TicMetadata {
    /// The index entry of a TIC from its fields: its id is required;
    /// missing seed and source snapshot are empty, a missing window is 0,
    /// a missing proof-of-resonance status is `unknown`, and the file is
    /// the id with `.tic`.
    pub fn from_fields(
        tic_id: Option<&str>,
        seed: Option<&str>,
        source_snapshot: Option<&str>,
        window: Option<u64>,
        por: Option<&str>,
    ) -> (entry: Result<TicMetadata, String>)
        ensures
            tic_id is None ==> (entry matches Err(m) && m@ == "Missing tic_id"@),
            tic_id matches Some(id) ==> (entry matches Ok(e) && e.id@ == id@ && e.seed@ == text_or(seed, Seq::empty())
                && e.source_snapshot@ == text_or(source_snapshot, Seq::empty()) && e.window as int == (match window {
                Some(w) => (w as usize) as int,
                None => 0,
            }) && e.por@ == text_or(por, "unknown"@) && e.file@ == id@ + ".tic"@),
    {
        match tic_id {
            None => Err(String::from_str("Missing tic_id")),
            Some(id) => {
                let mut file = String::from_str(id);
                file.append(".tic");
                proof {
                    reveal_strlit("");
                }
                Ok(
                    TicMetadata {
                        id: String::from_str(id),
                        seed: copy_or(seed, ""),
                        source_snapshot: copy_or(source_snapshot, ""),
                        window: match window {
                            Some(w) => w as usize,
                            None => 0,
                        },
                        por: copy_or(por, "unknown"),
                        file,
                    },
                )
            },
        }
    }
}

/// The index entry of a snapshot, but for its phase (a floating-point
/// value that the caller keeps beside it).
pub struct SnapshotEntry {
    pub id: String,
    pub timestamp: String,
    pub seed: String,
    pub por: String,
    pub file: String,
}

impl SnapshotEntry {
    /// The index entry of a snapshot from its fields: its id is required;
    /// missing timestamp and seed are empty, a missing proof-of-resonance
    /// status is `unknown`, and the file is the id with `.spiral`.
    pub fn from_fields(
        snapshot_id: Option<&str>,
        timestamp: Option<&str>,
        seed: Option<&str>,
        por: Option<&str>,
    ) -> (entry: Result<SnapshotEntry, String>)
        ensures
            snapshot_id is None ==> (entry matches Err(m) && m@ == "Missing snapshot id"@),
            snapshot_id matches Some(id) ==> (entry matches Ok(e) && e.id@ == id@ && e.timestamp@ == text_or(
                timestamp,
                Seq::empty(),
            ) && e.seed@ == text_or(seed, Seq::empty()) && e.por@ == text_or(por, "unknown"@) && e.file@ == id@
                + ".spiral"@),
    {
        match snapshot_id {
            None => Err(String::from_str("Missing snapshot id")),
            Some(id) => {
                let mut file = String::from_str(id);
                file.append(".spiral");
                proof {
                    reveal_strlit("");
                }
                Ok(
                    SnapshotEntry {
                        id: String::from_str(id),
                        timestamp: copy_or(timestamp, ""),
                        seed: copy_or(seed, ""),
                        por: copy_or(por, "unknown"),
                        file,
                    },
                )
            },
        }
    }
}

/// Counts of snapshot files on disk and in the index.
pub struct SnapshotStats {
    pub count: usize,
    pub indexed: usize,
}

/// Counts of TIC files on disk and in the index.
pub struct TicStats {
    pub count: usize,
    pub indexed: usize,
}

/// The outcome of an integrity check.
pub struct IntegrityResults {
    pub valid: bool,
    pub errors: Vec<String>,
    pub warnings: Vec<String>,
}

/// An indexed artifact and whether its file was found.
pub struct IndexedFile {
    pub id: String,
    pub present: bool,
}

/// A directory entry: its extension and file stem, when it has them.
pub struct ListingEntry {
    pub extension: Option<String>,
    pub stem: Option<String>,
}

/// Ids of indexed artifacts.
pub open spec fn indexed_ids(files: Seq<IndexedFile>) -> Seq<Seq<char>> {
    files.map_values(|f: IndexedFile| f.id@)
}

/// The errors for indexed artifacts whose file is missing, in order.
pub open spec fn missing_errors(files: Seq<IndexedFile>, head: Seq<char>) -> Seq<Seq<char>>
    decreases files.len(),
{
    if files.len() == 0 {
        Seq::empty()
    } else {
        let front = missing_errors(files.drop_last(), head);
        let f = files[files.len() - 1];
        if f.present {
            front
        } else {
            front.push(head + f.id@)
        }
    }
}

/// Whether `ids` holds `id`.
pub open spec fn holds_id(ids: Seq<Seq<char>>, id: Seq<char>) -> bool {
    exists|i: int| 0 <= i < ids.len() && ids[i] == id
}

/// What a directory entry is when checked against the index: an
/// unindexed snapshot (`Some((true, stem))`), an unindexed TIC
/// (`Some((false, stem))`), or nothing to report.
pub open spec fn orphan_kind(
    e: ListingEntry,
    snapshot_ids: Seq<Seq<char>>,
    tic_ids: Seq<Seq<char>>,
) -> Option<(bool, Seq<char>)> {
    match (e.extension, e.stem) {
        (Some(ext), Some(stem)) => {
            if ext@ == "spiral"@ && !holds_id(snapshot_ids, stem@) {
                Some((true, stem@))
            } else if ext@ == "tic"@ && !holds_id(tic_ids, stem@) {
                Some((false, stem@))
            } else {
                None
            }
        },
        _ => None,
    }
}

/// The warnings for unindexed files of a listing, in order.
pub open spec fn orphan_warnings(
    listing: Seq<ListingEntry>,
    snapshot_ids: Seq<Seq<char>>,
    tic_ids: Seq<Seq<char>>,
) -> Seq<Seq<char>>
    decreases listing.len(),
{
    if listing.len() == 0 {
        Seq::empty()
    } else {
        let front = orphan_warnings(listing.drop_last(), snapshot_ids, tic_ids);
        match orphan_kind(listing[listing.len() - 1], snapshot_ids, tic_ids) {
            Some((true, stem)) => front.push("Unindexed snapshot: "@ + stem),
            Some((false, stem)) => front.push("Unindexed TIC: "@ + stem),
            None => front,
        }
    }
}

/// Positions of the listing entries that are unindexed files.
pub open spec fn orphan_positions(
    listing: Seq<ListingEntry>,
    snapshot_ids: Seq<Seq<char>>,
    tic_ids: Seq<Seq<char>>,
) -> Seq<usize>
    decreases listing.len(),
{
    if listing.len() == 0 {
        Seq::empty()
    } else {
        let front = orphan_positions(listing.drop_last(), snapshot_ids, tic_ids);
        if orphan_kind(listing[listing.len() - 1], snapshot_ids, tic_ids) is Some {
            front.push((listing.len() - 1) as usize)
        } else {
            front
        }
    }
}

/// Strings as character sequences.
pub open spec fn texts(v: Seq<String>) -> Seq<Seq<char>> {
    v.map_values(|s: String| s@)
}

/// The ids of indexed artifacts.
fn id_list(files: &Vec<IndexedFile>) -> (ids: Vec<String>)
    ensures
        texts(ids@) == indexed_ids(files@),
{
    let mut ids: Vec<String> = Vec::new();
    let mut i: usize = 0;
    while i < files.len()
        invariant
            0 <= i <= files@.len(),
            ids@.len() == i,
            forall|t: int| 0 <= t < i ==> #[trigger] ids@[t]@ == files@[t].id@,
        decreases files@.len() - i,
    {
        ids.push(files[i].id.clone());
        i = i + 1;
    }
    assert(texts(ids@) =~= indexed_ids(files@));
    ids
}

/// Whether `ids` holds `id`.
fn has_id(ids: &Vec<String>, id: &str) -> (found: bool)
    ensures
        found == holds_id(texts(ids@), id@),
{
    let ghost tv = texts(ids@);
    let mut i: usize = 0;
    while i < ids.len()
        invariant
            0 <= i <= ids@.len(),
            tv == texts(ids@),
            forall|t: int| 0 <= t < i ==> #[trigger] tv[t] != id@,
        decreases ids@.len() - i,
    {
        if text_eq(ids[i].as_str(), id) {
            assert(tv[i as int] == id@);
            return true;
        }
        i = i + 1;
    }
    false
}

/// What `orphan_kind` says of one entry.
fn classify_entry(e: &ListingEntry, snapshot_ids: &Vec<String>, tic_ids: &Vec<String>) -> (kind: Option<(bool, String)>)
    ensures
        match orphan_kind(*e, texts(snapshot_ids@), texts(tic_ids@)) {
            Some((snap, stem)) => kind matches Some((s, t)) && s == snap && t@ == stem,
            None => kind is None,
        },
{
    match (&e.extension, &e.stem) {
        (Some(ext), Some(stem)) => {
            if text_eq(ext.as_str(), "spiral") && !has_id(snapshot_ids, stem.as_str()) {
                Some((true, stem.clone()))
            } else if text_eq(ext.as_str(), "tic") && !has_id(tic_ids, stem.as_str()) {
                Some((false, stem.clone()))
            } else {
                None
            }
        },
        _ => None,
    }
}

/// Appends an error for every indexed artifact whose file is missing.
fn push_missing(errors: &mut Vec<String>, files: &Vec<IndexedFile>, head: &str)
    ensures
        texts(final(errors)@) == texts(old(errors)@) + missing_errors(files@, head@),
{
    let mut i: usize = 0;
    assert(files@.subrange(0, 0) =~= Seq::<IndexedFile>::empty());
    assert(texts(errors@) =~= texts(old(errors)@) + missing_errors(files@.subrange(0, 0), head@));
    while i < files.len()
        invariant
            0 <= i <= files@.len(),
            texts(errors@) == texts(old(errors)@) + missing_errors(files@.subrange(0, i as int), head@),
        decreases files@.len() - i,
    {
        let ghost before = texts(errors@);
        proof {
            let next = files@.subrange(0, i + 1);
            assert(next.drop_last() =~= files@.subrange(0, i as int));
        }
        if !files[i].present {
            let mut m = String::from_str(head);
            m.append(files[i].id.as_str());
            errors.push(m);
            assert(texts(errors@) =~= before.push(m@));
        }
        i = i + 1;
    }
    assert(files@.subrange(0, files@.len() as int) =~= files@);
}

/// Checks the index against the files found: an error for each indexed
/// snapshot or TIC without its file (valid only when there is none), and a
/// warning for each listed snapshot or TIC file that is not indexed.
pub fn verify_integrity(
    snapshots: &Vec<IndexedFile>,
    tics: &Vec<IndexedFile>,
    listing: &Vec<ListingEntry>,
) -> (results: IntegrityResults)
    ensures
        texts(results.errors@) == missing_errors(snapshots@, "Missing snapshot file: "@) + missing_errors(
            tics@,
            "Missing TIC file: "@,
        ),
        results.valid == (results.errors@.len() == 0),
        texts(results.warnings@) == orphan_warnings(listing@, indexed_ids(snapshots@), indexed_ids(tics@)),
{
    let mut errors: Vec<String> = Vec::new();
    assert(texts(errors@) =~= Seq::<Seq<char>>::empty());
    push_missing(&mut errors, snapshots, "Missing snapshot file: ");
    push_missing(&mut errors, tics, "Missing TIC file: ");
    let snapshot_ids = id_list(snapshots);
    let tic_ids = id_list(tics);
    let ghost sv = indexed_ids(snapshots@);
    let ghost tv = indexed_ids(tics@);
    let mut warnings: Vec<String> = Vec::new();
    let mut i: usize = 0;
    while i < listing.len()
        invariant
            0 <= i <= listing@.len(),
            texts(snapshot_ids@) == sv,
            texts(tic_ids@) == tv,
            texts(warnings@) == orphan_warnings(listing@.subrange(0, i as int), sv, tv),
        decreases listing@.len() - i,
    {
        let ghost before = texts(warnings@);
        proof {
            let next = listing@.subrange(0, i + 1);
            assert(next.drop_last() =~= listing@.subrange(0, i as int));
            assert(next[next.len() - 1] == listing@[i as int]);
        }
        match classify_entry(&listing[i], &snapshot_ids, &tic_ids) {
            Some((true, stem)) => {
                let mut m = String::from_str("Unindexed snapshot: ");
                m.append(stem.as_str());
                warnings.push(m);
                assert(texts(warnings@) =~= before.push(m@));
            },
            Some((false, stem)) => {
                let mut m = String::from_str("Unindexed TIC: ");
                m.append(stem.as_str());
                warnings.push(m);
                assert(texts(warnings@) =~= before.push(m@));
            },
            None => {},
        }
        i = i + 1;
    }
    assert(listing@.subrange(0, listing@.len() as int) =~= listing@);
    let valid = errors.len() == 0;
    IntegrityResults { valid, errors, warnings }
}

/// The positions of the listed files that are neither indexed snapshots
/// nor indexed TICs but carry their extensions: the files a cleanup
/// removes.
pub fn orphaned_files(snapshot_ids: &Vec<String>, tic_ids: &Vec<String>, listing: &Vec<ListingEntry>) -> (positions: Vec<usize>)
    ensures
        positions@ == orphan_positions(listing@, texts(snapshot_ids@), texts(tic_ids@)),
{
    let mut positions: Vec<usize> = Vec::new();
    let mut i: usize = 0;
    while i < listing.len()
        invariant
            0 <= i <= listing@.len(),
            positions@ == orphan_positions(listing@.subrange(0, i as int), texts(snapshot_ids@), texts(tic_ids@)),
        decreases listing@.len() - i,
    {
        proof {
            let next = listing@.subrange(0, i + 1);
            assert(next.drop_last() =~= listing@.subrange(0, i as int));
            assert(next[next.len() - 1] == listing@[i as int]);
        }
        if classify_entry(&listing[i], snapshot_ids, tic_ids).is_some() {
            positions.push(i);
        }
        i = i + 1;
    }
    assert(listing@.subrange(0, listing@.len() as int) =~= listing@);
    positions
}

/// The number of listing entries with extension `ext`.
pub open spec fn count_with_extension(listing: Seq<ListingEntry>, ext: Seq<char>) -> nat
    decreases listing.len(),
{
    if listing.len() == 0 {
        0
    } else {
        count_with_extension(listing.drop_last(), ext) + (match listing[listing.len() - 1].extension {
            Some(e) => if e@ == ext {
                1nat
            } else {
                0nat
            },
            None => 0nat,
        })
    }
}

/// Counts the listed files with extension `ext`.
pub fn count_extension(listing: &Vec<ListingEntry>, ext: &str) -> (count: usize)
    ensures
        count == count_with_extension(listing@, ext@),
{
    let mut count: usize = 0;
    let mut i: usize = 0;
    while i < listing.len()
        invariant
            0 <= i <= listing@.len(),
            count == count_with_extension(listing@.subrange(0, i as int), ext@),
            count <= i,
        decreases listing@.len() - i,
    {
        proof {
            let next = listing@.subrange(0, i + 1);
            assert(next.drop_last() =~= listing@.subrange(0, i as int));
            assert(next[next.len() - 1] == listing@[i as int]);
        }
        match &listing[i].extension {
            Some(e) => {
                if text_eq(e.as_str(), ext) {
                    count = count + 1;
                }
            },
            None => {},
        }
        i = i + 1;
    }
    assert(listing@.subrange(0, listing@.len() as int) =~= listing@);
    count
}

/// Snapshot and TIC counts: files of each kind in the listing, and
/// entries of each kind in the index.
pub fn storage_counts(listing: &Vec<ListingEntry>, indexed_snapshots: usize, indexed_tics: usize) -> (counts: (
    SnapshotStats,
    TicStats,
))
    ensures
        counts.0.count == count_with_extension(listing@, "spiral"@),
        counts.0.indexed == indexed_snapshots,
        counts.1.count == count_with_extension(listing@, "tic"@),
        counts.1.indexed == indexed_tics,
{
    (
        SnapshotStats { count: count_extension(listing, "spiral"), indexed: indexed_snapshots },
        TicStats { count: count_extension(listing, "tic"), indexed: indexed_tics },
    )
}

} // verus!

verus! {

/// What listing reads of an indexed snapshot.
pub struct SnapshotListing {
    pub seed: String,
    pub por: String,
    pub timestamp: String,
}

/// A snapshot passes the listing filters (a missing filter passes all).
pub open spec fn listed(e: SnapshotListing, seed: Option<Seq<char>>, por: Option<Seq<char>>) -> bool {
    &&& match seed {
        Some(s) => e.seed@ == s,
        None => true,
    }
    &&& match por {
        Some(p) => e.por@ == p,
        None => true,
    }
}

/// The listing order: by timestamp, and in index order among equal
/// timestamps (a stable sort by timestamp).
pub open spec fn listed_before(entries: Seq<SnapshotListing>, a: int, b: int) -> bool {
    crate::order::text_lt(entries[a].timestamp@, entries[b].timestamp@) || (entries[a].timestamp@
        == entries[b].timestamp@ && a < b)
}

proof fn lemma_listed_before_total(entries: Seq<SnapshotListing>, a: int, b: int)
    requires
        a != b,
    ensures
        listed_before(entries, a, b) || listed_before(entries, b, a),
{
    if entries[a].timestamp@ != entries[b].timestamp@ {
        crate::order::lemma_text_lt_total(entries[a].timestamp@, entries[b].timestamp@);
    }
}

proof fn lemma_listed_before_trans(entries: Seq<SnapshotListing>, a: int, b: int, c: int)
    requires
        listed_before(entries, a, b),
        listed_before(entries, b, c),
    ensures
        listed_before(entries, a, c),
{
    let (ta, tb, tc) = (entries[a].timestamp@, entries[b].timestamp@, entries[c].timestamp@);
    if crate::order::text_lt(ta, tb) && crate::order::text_lt(tb, tc) {
        crate::order::lemma_text_lt_transitive(ta, tb, tc);
    }
}

fn passes(e: &SnapshotListing, seed: Option<&str>, por_filter: Option<&str>) -> (ok: bool)
    ensures
        ok == listed(
            *e,
            match seed {
                Some(s) => Some(s@),
                None => None,
            },
            match por_filter {
                Some(p) => Some(p@),
                None => None,
            },
        ),
{
    let seed_ok = match seed {
        Some(s) => text_eq(e.seed.as_str(), s),
        None => true,
    };
    let por_ok = match por_filter {
        Some(p) => text_eq(e.por.as_str(), p),
        None => true,
    };
    seed_ok && por_ok
}

fn before(entries: &Vec<SnapshotListing>, a: usize, b: usize) -> (r: bool)
    requires
        a < entries@.len(),
        b < entries@.len(),
    ensures
        r == listed_before(entries@, a as int, b as int),
{
    let ta = entries[a].timestamp.as_str();
    let tb = entries[b].timestamp.as_str();
    crate::order::text_less(ta, tb) || (text_eq(ta, tb) && a < b)
}

/// The positions of the snapshots that pass the filters, in listing order
/// (see `listed_before`).
pub fn list_snapshot_order(entries: &Vec<SnapshotListing>, seed: Option<&str>, por_filter: Option<&str>) -> (order: Vec<
    usize,
>)
    ensures
        forall|i: int|
            0 <= i < order@.len() ==> #[trigger] order@[i] < entries@.len() && listed(
                entries@[order@[i] as int],
                match seed {
                    Some(s) => Some(s@),
                    None => None,
                },
                match por_filter {
                    Some(p) => Some(p@),
                    None => None,
                },
            ),
        forall|p: int|
            0 <= p < entries@.len() && listed(
                entries@[p],
                match seed {
                    Some(s) => Some(s@),
                    None => None,
                },
                match por_filter {
                    Some(f) => Some(f@),
                    None => None,
                },
            ) ==> #[trigger] order@.contains(p as usize),
        forall|a: int, b: int| 0 <= a < b < order@.len() ==> listed_before(entries@, #[trigger] order@[a] as int, #[trigger] order@[b] as int),
{
    let ghost sf = match seed {
        Some(s) => Some(s@),
        None => None,
    };
    let ghost pf = match por_filter {
        Some(f) => Some(f@),
        None => None,
    };
    let ghost ev = entries@;
    let mut order: Vec<usize> = Vec::new();
    let mut p: usize = 0;
    while p < entries.len()
        invariant
            ev == entries@,
            sf == (match seed {
                Some(s) => Some(s@),
                None => None,
            }),
            pf == (match por_filter {
                Some(f) => Some(f@),
                None => None,
            }),
            0 <= p <= ev.len(),
            forall|i: int| 0 <= i < order@.len() ==> #[trigger] order@[i] < p && listed(ev[order@[i] as int], sf, pf),
            forall|q: int| 0 <= q < p && listed(ev[q], sf, pf) ==> #[trigger] order@.contains(q as usize),
            forall|a: int, b: int| 0 <= a < b < order@.len() ==> listed_before(ev, #[trigger] order@[a] as int, #[trigger] order@[b] as int),
        decreases ev.len() - p,
    {
        let ok = passes(&entries[p], seed, por_filter);
        assert(ok == listed(ev[p as int], sf, pf));
        if ok {
            let mut j: usize = 0;
            while j < order.len() && !before(entries, p, order[j])
                invariant
                    ev == entries@,
                    p < ev.len(),
                    0 <= j <= order@.len(),
                    forall|i: int| 0 <= i < order@.len() ==> #[trigger] order@[i] < p,
                    forall|t: int| 0 <= t < j ==> !listed_before(ev, p as int, #[trigger] order@[t] as int),
                decreases order@.len() - j,
            {
                j = j + 1;
            }
            let ghost old_order = order@;
            order.insert(j, p);
            proof {
                assert(order@ == old_order.insert(j as int, p));
                assert forall|t: int| 0 <= t < j implies listed_before(ev, #[trigger] old_order[t] as int, p as int) by {
                    assert(old_order[t] < p);
                    lemma_listed_before_total(ev, old_order[t] as int, p as int);
                }
                if j < old_order.len() {
                    assert(listed_before(ev, p as int, old_order[j as int] as int));
                    assert forall|t: int| j <= t < old_order.len() implies listed_before(ev, p as int, #[trigger] old_order[t] as int) by {
                        if t > j {
                            lemma_listed_before_trans(ev, p as int, old_order[j as int] as int, old_order[t] as int);
                        }
                    }
                }
                assert forall|a: int, b: int| 0 <= a < b < order@.len() implies listed_before(ev, #[trigger] order@[a] as int, #[trigger] order@[b] as int) by {
                    if a < j && b < j {
                        assert(order@[a] == old_order[a] && order@[b] == old_order[b]);
                    } else if a < j && b == j {
                        assert(order@[a] == old_order[a]);
                    } else if a < j {
                        assert(order@[a] == old_order[a] && order@[b] == old_order[b - 1]);
                        lemma_listed_before_trans(ev, old_order[a] as int, p as int, old_order[b - 1] as int);
                    } else if a == j {
                        assert(order@[b] == old_order[b - 1]);
                    } else {
                        assert(order@[a] == old_order[a - 1] && order@[b] == old_order[b - 1]);
                    }
                }
                assert forall|i: int| 0 <= i < order@.len() implies #[trigger] order@[i] < p + 1 && listed(ev[order@[i] as int], sf, pf) by {
                    if i < j {
                        assert(order@[i] == old_order[i]);
                    } else if i > j {
                        assert(order@[i] == old_order[i - 1]);
                    } else {
                        assert(order@[i] == p);
                    }
                }
                assert forall|q: int| 0 <= q < p + 1 && listed(ev[q], sf, pf) implies #[trigger] order@.contains(q as usize) by {
                    if q == p {
                        assert(order@[j as int] == p);
                    } else {
                        assert(old_order.contains(q as usize));
                        let k = choose|k: int| 0 <= k < old_order.len() && old_order[k] == q as usize;
                        if k < j {
                            assert(order@[k] == old_order[k]);
                        } else {
                            assert(order@[k + 1] == old_order[k]);
                        }
                    }
                }
            }
        } else {
            proof {
                assert forall|q: int| 0 <= q < p + 1 && listed(ev[q], sf, pf) implies #[trigger] order@.contains(q as usize) by {
                    if q == p {
                    }
                }
            }
        }
        p = p + 1;
    }
    order
}


/// Law: the files a cleanup removes are exactly the listed files with
/// extension `spiral` whose stem is not an indexed snapshot id, and those
/// with extension `tic` whose stem is not an indexed TIC id; an indexed
/// snapshot or TIC file is never among them.
pub proof fn lemma_orphaned_files_are_unindexed(
    listing: Seq<ListingEntry>,
    snapshot_ids: Seq<Seq<char>>,
    tic_ids: Seq<Seq<char>>,
)
    requires
        listing.len() <= usize::MAX,
    ensures
        forall|k: int| 0 <= k < orphan_positions(listing, snapshot_ids, tic_ids).len() ==> (#[trigger] orphan_positions(listing, snapshot_ids, tic_ids)[k]) < listing.len(),
        forall|p: int|
            0 <= p < listing.len() ==> (orphan_positions(listing, snapshot_ids, tic_ids).contains(p as usize) <==> ((((#[trigger] listing[p])).extension is Some && listing[p].stem is Some && listing[p].extension->0@ == "spiral"@ && !snapshot_ids.contains(listing[p].stem->0@)) || (listing[p].extension is Some && listing[p].stem is Some && listing[p].extension->0@ == "tic"@ && !tic_ids.contains(listing[p].stem->0@)))),
    decreases listing.len(),
{
    if listing.len() > 0 {
        let init = listing.drop_last();
        let n = listing.len() - 1;
        lemma_orphaned_files_are_unindexed(init, snapshot_ids, tic_ids);
        let front = orphan_positions(init, snapshot_ids, tic_ids);
        let all = orphan_positions(listing, snapshot_ids, tic_ids);
        assert forall|k: int| 0 <= k < all.len() implies (#[trigger] all[k]) < listing.len() by {
            if k < front.len() {
                assert(all[k] == front[k]);
            }
        }
        assert forall|p: int| 0 <= p < listing.len() implies (all.contains(p as usize) <==> ((listing[p].extension is Some && listing[p].stem is Some && listing[p].extension->0@ == "spiral"@ && !snapshot_ids.contains(listing[p].stem->0@)) || (listing[p].extension is Some && listing[p].stem is Some && listing[p].extension->0@ == "tic"@ && !tic_ids.contains(listing[p].stem->0@)))) by {
            if p < n {
                assert(init[p] == listing[p]);
                if all.contains(p as usize) {
                    let k = choose|k: int| 0 <= k < all.len() && all[k] == p as usize;
                    if k >= front.len() {
                        assert(all[k] == n as usize);
                    } else {
                        assert(all[k] == front[k]);
                    }
                }
                if front.contains(p as usize) {
                    let k = choose|k: int| 0 <= k < front.len() && front[k] == p as usize;
                    assert(all[k] == front[k]);
                }
            } else {
                if all.contains(p as usize) {
                    let k = choose|k: int| 0 <= k < all.len() && all[k] == p as usize;
                    if k < front.len() {
                        assert(all[k] == front[k]);
                        assert(front[k] < init.len());
                    }
                }
                if orphan_kind(listing[n], snapshot_ids, tic_ids) is Some {
                    assert(all[all.len() - 1] == n as usize);
                }
            }
        }
    }
}

/// `w` is the warning for some listed file that is not indexed:
/// `Unindexed snapshot: <stem>` for a `spiral` file whose stem is not among
/// `snapshot_ids`, `Unindexed TIC: <stem>` for a `tic` file whose stem is
/// not among `tic_ids`.
pub open spec fn warns_of_unindexed_file(
    listing: Seq<ListingEntry>,
    snapshot_ids: Seq<Seq<char>>,
    tic_ids: Seq<Seq<char>>,
    w: Seq<char>,
) -> bool {
    exists|p: int| 0 <= p < listing.len() && ((((#[trigger] listing[p]).extension is Some && listing[p].stem is Some && listing[p].extension->0@ == "spiral"@ && !snapshot_ids.contains(listing[p].stem->0@)) && w == "Unindexed snapshot: "@ + listing[p].stem->0@) || ((listing[p].extension is Some && listing[p].stem is Some && listing[p].extension->0@ == "tic"@ && !tic_ids.contains(listing[p].stem->0@)) && w == "Unindexed TIC: "@ + listing[p].stem->0@))
}

/// Law: every warning of an integrity check names a listed file that is
/// not indexed (see `warns_of_unindexed_file`).
pub proof fn lemma_warnings_name_unindexed_files(
    listing: Seq<ListingEntry>,
    snapshot_ids: Seq<Seq<char>>,
    tic_ids: Seq<Seq<char>>,
)
    ensures
        forall|k: int|
            0 <= k < orphan_warnings(listing, snapshot_ids, tic_ids).len() ==> warns_of_unindexed_file(
                listing,
                snapshot_ids,
                tic_ids,
                #[trigger] orphan_warnings(listing, snapshot_ids, tic_ids)[k],
            ),
    decreases listing.len(),
{
    if listing.len() > 0 {
        let init = listing.drop_last();
        let n = listing.len() - 1;
        lemma_warnings_name_unindexed_files(init, snapshot_ids, tic_ids);
        let front = orphan_warnings(init, snapshot_ids, tic_ids);
        let all = orphan_warnings(listing, snapshot_ids, tic_ids);
        assert forall|k: int| 0 <= k < all.len() implies warns_of_unindexed_file(listing, snapshot_ids, tic_ids, #[trigger] all[k]) by {
            if k < front.len() {
                assert(all[k] == front[k]);
                assert(warns_of_unindexed_file(init, snapshot_ids, tic_ids, front[k]));
                let p = choose|p: int| 0 <= p < init.len() && ((((#[trigger] init[p]).extension is Some && init[p].stem is Some && init[p].extension->0@ == "spiral"@ && !snapshot_ids.contains(init[p].stem->0@)) && front[k] == "Unindexed snapshot: "@ + init[p].stem->0@) || ((init[p].extension is Some && init[p].stem is Some && init[p].extension->0@ == "tic"@ && !tic_ids.contains(init[p].stem->0@)) && front[k] == "Unindexed TIC: "@ + init[p].stem->0@));
                assert(init[p] == listing[p]);
                assert((((listing[p].extension is Some && listing[p].stem is Some && listing[p].extension->0@ == "spiral"@ && !snapshot_ids.contains(listing[p].stem->0@)) && all[k] == "Unindexed snapshot: "@ + listing[p].stem->0@) || ((listing[p].extension is Some && listing[p].stem is Some && listing[p].extension->0@ == "tic"@ && !tic_ids.contains(listing[p].stem->0@)) && all[k] == "Unindexed TIC: "@ + listing[p].stem->0@)));
            } else {
                assert((((listing[n].extension is Some && listing[n].stem is Some && listing[n].extension->0@ == "spiral"@ && !snapshot_ids.contains(listing[n].stem->0@)) && all[k] == "Unindexed snapshot: "@ + listing[n].stem->0@) || ((listing[n].extension is Some && listing[n].stem is Some && listing[n].extension->0@ == "tic"@ && !tic_ids.contains(listing[n].stem->0@)) && all[k] == "Unindexed TIC: "@ + listing[n].stem->0@)));
            }
        }
    }
}

/// Law: every listed `spiral` file whose stem is not an indexed snapshot id,
/// and every `tic` file whose stem is not an indexed TIC id, is warned of.
pub proof fn lemma_unindexed_files_warned(
    listing: Seq<ListingEntry>,
    snapshot_ids: Seq<Seq<char>>,
    tic_ids: Seq<Seq<char>>,
)
    ensures
        forall|p: int|
            0 <= p < listing.len() && (((#[trigger] listing[p])).extension is Some && listing[p].stem is Some && listing[p].extension->0@ == "spiral"@ && !snapshot_ids.contains(listing[p].stem->0@)) ==> orphan_warnings(listing, snapshot_ids, tic_ids).contains(
                "Unindexed snapshot: "@ + listing[p].stem->0@,
            ),
        forall|p: int|
            0 <= p < listing.len() && (((#[trigger] listing[p])).extension is Some && listing[p].stem is Some && listing[p].extension->0@ == "tic"@ && !tic_ids.contains(listing[p].stem->0@)) ==> orphan_warnings(listing, snapshot_ids, tic_ids).contains(
                "Unindexed TIC: "@ + listing[p].stem->0@,
            ),
    decreases listing.len(),
{
    if listing.len() > 0 {
        let init = listing.drop_last();
        let n = listing.len() - 1;
        lemma_unindexed_files_warned(init, snapshot_ids, tic_ids);
        let front = orphan_warnings(init, snapshot_ids, tic_ids);
        let all = orphan_warnings(listing, snapshot_ids, tic_ids);
        assert forall|p: int| 0 <= p < listing.len() && (((#[trigger] listing[p])).extension is Some && listing[p].stem is Some && listing[p].extension->0@ == "spiral"@ && !snapshot_ids.contains(listing[p].stem->0@)) implies all.contains(
            "Unindexed snapshot: "@ + listing[p].stem->0@,
        ) by {
            let m = "Unindexed snapshot: "@ + listing[p].stem->0@;
            if p < n {
                assert(init[p] == listing[p]);
                assert((init[p].extension is Some && init[p].stem is Some && init[p].extension->0@ == "spiral"@ && !snapshot_ids.contains(init[p].stem->0@)));
                let k = choose|k: int| 0 <= k < front.len() && front[k] == m;
                assert(all[k] == front[k]);
            } else {
                assert(all[all.len() - 1] == m);
            }
        }
        assert forall|p: int| 0 <= p < listing.len() && (((#[trigger] listing[p])).extension is Some && listing[p].stem is Some && listing[p].extension->0@ == "tic"@ && !tic_ids.contains(listing[p].stem->0@)) implies all.contains(
            "Unindexed TIC: "@ + listing[p].stem->0@,
        ) by {
            let m = "Unindexed TIC: "@ + listing[p].stem->0@;
            if p < n {
                assert(init[p] == listing[p]);
                assert((init[p].extension is Some && init[p].stem is Some && init[p].extension->0@ == "tic"@ && !tic_ids.contains(init[p].stem->0@)));
                let k = choose|k: int| 0 <= k < front.len() && front[k] == m;
                assert(all[k] == front[k]);
            } else {
                reveal_strlit("spiral");
                reveal_strlit("tic");
                assert(p == n);
                assert("tic"@.len() == 3 && "spiral"@.len() == 6);
                assert(listing[p].extension->0@ != "spiral"@);
                assert(!holds_id(tic_ids, listing[p].stem->0@));
                assert(all[all.len() - 1] == m);
            }
        }
    }
}


} // verus!
