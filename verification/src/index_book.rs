//! The entry bookkeeping of the vector index manager: which epoch and
//! update stamp each upserted vector gets, how updates and deletions
//! change a collection's entries, and how the proof version advances.
//!
//! A vector's values and metadata are floating point and JSON; the
//! collection is modelled here by its entries' ids, epochs and stamps.

use vstd::prelude::*;
use crate::text::{push_signed_decimal, text_eq};

verus! {

/// Failures of an upsert.
#[derive(Clone, Copy, Debug, PartialEq, Eq, Structural)]
pub enum UpsertError {
    /// A record has no epoch and none was given for the batch.
    MissingEpoch,
}

/// The message of an upsert failure.
pub open spec fn upsert_error_message(e: UpsertError) -> Seq<char> {
    match e {
        UpsertError::MissingEpoch => "Epoch must be provided either per record or as an argument"@,
    }
}

impl UpsertError {
    /// The failure's message.
    pub fn message(&self) -> (m: String)
        ensures
            m@ == upsert_error_message(*self),
    {
        match self {
            UpsertError::MissingEpoch => String::from_str("Epoch must be provided either per record or as an argument"),
        }
    }
}

/// A record handed to an upsert: its id and its own epoch, if any.
pub struct RecordHeader {
    pub id: String,
    pub epoch: Option<i64>,
}

/// A stored vector: its id, epoch and update stamp.
pub struct VectorEntry {
    pub id: String,
    pub epoch: i64,
    pub updated_at: String,
}

/// The entries as a map from id to epoch and stamp.
pub open spec fn entries_map(entries: Seq<VectorEntry>) -> Map<Seq<char>, (i64, Seq<char>)>
    decreases entries.len(),
{
    if entries.len() == 0 {
        Map::empty()
    } else {
        let e = entries[entries.len() - 1];
        entries_map(entries.drop_last()).insert(e.id@, (e.epoch, e.updated_at@))
    }
}

/// No two entries share an id.
pub open spec fn distinct_ids(entries: Seq<VectorEntry>) -> bool {
    forall|a: int, b: int| 0 <= a < entries.len() && 0 <= b < entries.len() && a != b ==> entries[a].id@ != entries[b].id@
}

/// The stamp of a vector that had none: `epoch-` and the epoch.
pub open spec fn epoch_stamp(epoch: i64) -> Seq<char> {
    "epoch-"@ + crate::text::signed_decimal(epoch as int)
}

/// What an upsert writes for one record: its id, its own epoch or else
/// the batch epoch, and the stamp the collection already has for that id,
/// or else the epoch stamp.
pub open spec fn planned_entry(
    existing: Map<Seq<char>, (i64, Seq<char>)>,
    record: RecordHeader,
    batch_epoch: i64,
) -> (Seq<char>, i64, Seq<char>) {
    let epoch = match record.epoch {
        Some(e) => e,
        None => batch_epoch,
    };
    let stamp = if existing.dom().contains(record.id@) {
        existing[record.id@].1
    } else {
        epoch_stamp(epoch)
    };
    (record.id@, epoch, stamp)
}

/// Some record has no epoch of its own.
pub open spec fn some_without_epoch(records: Seq<RecordHeader>) -> bool {
    exists|i: int| 0 <= i < records.len() && (#[trigger] records[i]).epoch is None
}

/// The entry with id `id`, if any.
fn find_entry(entries: &Vec<VectorEntry>, id: &str) -> (pos: Option<usize>)
    requires
        distinct_ids(entries@),
    ensures
        match pos {
            Some(i) => i < entries@.len() && entries@[i as int].id@ == id@,
            None => forall|i: int| 0 <= i < entries@.len() ==> #[trigger] entries@[i].id@ != id@,
        },
{
    let mut i: usize = 0;
    while i < entries.len()
        invariant
            0 <= i <= entries@.len(),
            forall|t: int| 0 <= t < i ==> #[trigger] entries@[t].id@ != id@,
        decreases entries@.len() - i,
    {
        if text_eq(entries[i].id.as_str(), id) {
            return Some(i);
        }
        i = i + 1;
    }
    None
}

/// With distinct ids, the map holds each entry's id with its values, and
/// nothing else.
proof fn lemma_entries_map(entries: Seq<VectorEntry>)
    requires
        distinct_ids(entries),
    ensures
        forall|i: int| 0 <= i < entries.len() ==> #[trigger] entries_map(entries).dom().contains(entries[i].id@)
            && entries_map(entries)[entries[i].id@] == (entries[i].epoch, entries[i].updated_at@),
        forall|k: Seq<char>| #[trigger] entries_map(entries).dom().contains(k) ==> exists|i: int|
            0 <= i < entries.len() && entries[i].id@ == k,
    decreases entries.len(),
{
    if entries.len() > 0 {
        let front = entries.drop_last();
        assert(distinct_ids(front)) by {
            assert forall|a: int, b: int| 0 <= a < front.len() && 0 <= b < front.len() && a != b implies front[a].id@
                != front[b].id@ by {
                assert(front[a] == entries[a] && front[b] == entries[b]);
            }
        }
        lemma_entries_map(front);
        let last = entries.len() - 1;
        assert forall|i: int| 0 <= i < entries.len() implies #[trigger] entries_map(entries).dom().contains(
            entries[i].id@,
        ) && entries_map(entries)[entries[i].id@] == (entries[i].epoch, entries[i].updated_at@) by {
            if i < last {
                assert(front[i] == entries[i]);
                assert(entries_map(front).dom().contains(front[i].id@));
                assert(entries[i].id@ != entries[last].id@);
            }
        }
        assert forall|k: Seq<char>| #[trigger] entries_map(entries).dom().contains(k) implies exists|i: int|
            0 <= i < entries.len() && entries[i].id@ == k by {
            if k != entries[last].id@ {
                assert(entries_map(front).dom().contains(k));
                let i = choose|i: int| 0 <= i < front.len() && front[i].id@ == k;
                assert(entries[i] == front[i]);
            }
        }
    }
}

/// The entries an upsert writes, one per record in order (see
/// `planned_entry`), computed from the collection as it was before the
/// upsert; refused when a record has no epoch and no batch epoch is given.
pub fn plan_updates(existing: &Vec<VectorEntry>, records: &Vec<RecordHeader>, epoch: Option<i64>) -> (r: Result<
    Vec<VectorEntry>,
    UpsertError,
>)
    requires
        distinct_ids(existing@),
    ensures
        (epoch is None && some_without_epoch(records@)) <==> r is Err,
        r matches Err(e) ==> e == UpsertError::MissingEpoch,
        r matches Ok(updates) ==> updates@.len() == records@.len() && forall|i: int|
            0 <= i < records@.len() ==> {
                let p = planned_entry(
                    entries_map(existing@),
                    records@[i],
                    match epoch {
                        Some(e) => e,
                        None => 0,
                    },
                );
                &&& (#[trigger] updates@[i]).id@ == p.0
                &&& updates@[i].epoch == p.1
                &&& updates@[i].updated_at@ == p.2
            },
{
    proof {
        lemma_entries_map(existing@);
    }
    let ghost batch = match epoch {
        Some(e) => e,
        None => 0,
    };
    let mut updates: Vec<VectorEntry> = Vec::new();
    let mut i: usize = 0;
    while i < records.len()
        invariant
            distinct_ids(existing@),
            batch == (match epoch {
                Some(e) => e,
                None => 0,
            }),
            0 <= i <= records@.len(),
            epoch is None ==> forall|t: int| 0 <= t < i ==> (#[trigger] records@[t]).epoch is Some,
            updates@.len() == i,
            forall|t: int|
                0 <= t < i ==> {
                    let p = planned_entry(entries_map(existing@), records@[t], batch);
                    &&& (#[trigger] updates@[t]).id@ == p.0
                    &&& updates@[t].epoch == p.1
                    &&& updates@[t].updated_at@ == p.2
                },
        decreases records@.len() - i,
    {
        proof {
            lemma_entries_map(existing@);
        }
        let record = &records[i];
        let record_epoch = match record.epoch {
            Some(e) => e,
            None => match epoch {
                Some(e) => e,
                None => {
                    assert(some_without_epoch(records@)) by {
                        assert(records@[i as int].epoch is None);
                    }
                    return Err(UpsertError::MissingEpoch);
                },
            },
        };
        let stamp = match find_entry(existing, record.id.as_str()) {
            Some(j) => existing[j].updated_at.clone(),
            None => {
                let mut s = String::from_str("epoch-");
                push_signed_decimal(&mut s, record_epoch);
                proof {
                    assert(!entries_map(existing@).dom().contains(record.id@)) by {
                        if entries_map(existing@).dom().contains(record.id@) {
                            let t = choose|t: int| 0 <= t < existing@.len() && existing@[t].id@ == record.id@;
                            assert(existing@[t].id@ != record.id@);
                        }
                    }
                }
                s
            },
        };
        updates.push(VectorEntry { id: record.id.clone(), epoch: record_epoch, updated_at: stamp });
        i = i + 1;
    }
    proof {
        if epoch is None {
            assert(!some_without_epoch(records@)) by {
                if some_without_epoch(records@) {
                    let t = choose|t: int| 0 <= t < records@.len() && (#[trigger] records@[t]).epoch is None;
                    assert(records@[t].epoch is Some);
                }
            }
        }
    }
    Ok(updates)
}

} // verus!

verus! {

/// Replacing an entry by one with the same id updates the map at that id.
proof fn lemma_set_entry(entries: Seq<VectorEntry>, j: int, e: VectorEntry)
    requires
        distinct_ids(entries),
        0 <= j < entries.len(),
        entries[j].id@ == e.id@,
    ensures
        distinct_ids(entries.update(j, e)),
        entries_map(entries.update(j, e)) == entries_map(entries).insert(e.id@, (e.epoch, e.updated_at@)),
{
    let u = entries.update(j, e);
    assert(distinct_ids(u)) by {
        assert forall|a: int, b: int| 0 <= a < u.len() && 0 <= b < u.len() && a != b implies u[a].id@ != u[b].id@ by {
            assert(u[a].id@ == entries[a].id@ && u[b].id@ == entries[b].id@);
        }
    }
    lemma_entries_map(entries);
    lemma_entries_map(u);
    let target = entries_map(entries).insert(e.id@, (e.epoch, e.updated_at@));
    assert forall|k: Seq<char>| entries_map(u).dom().contains(k) <==> target.dom().contains(k) by {
        if entries_map(u).dom().contains(k) {
            let i = choose|i: int| 0 <= i < u.len() && u[i].id@ == k;
            assert(entries[i].id@ == k);
            assert(entries_map(entries).dom().contains(entries[i].id@));
        }
        if target.dom().contains(k) {
            if k == e.id@ {
                assert(u[j].id@ == k);
                assert(entries_map(u).dom().contains(u[j].id@));
            } else {
                let i = choose|i: int| 0 <= i < entries.len() && entries[i].id@ == k;
                assert(u[i].id@ == k);
                assert(entries_map(u).dom().contains(u[i].id@));
            }
        }
    }
    assert forall|k: Seq<char>| #[trigger] entries_map(u).dom().contains(k) implies entries_map(u)[k] == target[k] by {
        let i = choose|i: int| 0 <= i < u.len() && u[i].id@ == k;
        assert(entries_map(u).dom().contains(u[i].id@));
        if i == j {
        } else {
            assert(entries[i].id@ == k);
            assert(entries_map(entries).dom().contains(entries[i].id@));
            assert(k != e.id@);
        }
    }
    assert(entries_map(u) =~= target);
}

/// Writes each update over the entry with its id, or adds it, in order.
pub fn apply_updates(entries: &mut Vec<VectorEntry>, updates: &Vec<VectorEntry>)
    requires
        distinct_ids(old(entries)@),
    ensures
        distinct_ids(final(entries)@),
        entries_map(final(entries)@) == entries_map(old(entries)@ + updates@),
{
    let ghost start = entries@;
    let mut i: usize = 0;
    assert(start + updates@.subrange(0, 0) =~= start);
    while i < updates.len()
        invariant
            0 <= i <= updates@.len(),
            distinct_ids(entries@),
            entries_map(entries@) == entries_map(start + updates@.subrange(0, i as int)),
        decreases updates@.len() - i,
    {
        let u = &updates[i];
        let e = VectorEntry { id: u.id.clone(), epoch: u.epoch, updated_at: u.updated_at.clone() };
        let ghost before = entries@;
        proof {
            let next = start + updates@.subrange(0, i + 1);
            assert(next.drop_last() =~= start + updates@.subrange(0, i as int));
            assert(next[next.len() - 1] == updates@[i as int]);
        }
        match find_entry(entries, u.id.as_str()) {
            Some(j) => {
                proof {
                    lemma_set_entry(before, j as int, e);
                }
                entries.set(j, e);
            },
            None => {
                entries.push(e);
                proof {
                    assert(entries@.drop_last() =~= before);
                    assert forall|a: int, b: int|
                        0 <= a < entries@.len() && 0 <= b < entries@.len() && a != b implies entries@[a].id@
                        != entries@[b].id@ by {
                        if a < before.len() && b < before.len() {
                            assert(entries@[a] == before[a] && entries@[b] == before[b]);
                        } else if a < before.len() {
                            assert(entries@[a] == before[a]);
                        } else {
                            assert(entries@[b] == before[b]);
                        }
                    }
                }
            },
        }
        i = i + 1;
    }
    assert(updates@.subrange(0, updates@.len() as int) =~= updates@);
}

/// Ids as character sequences.
pub open spec fn id_set(ids: Seq<String>) -> Set<Seq<char>> {
    ids.map_values(|s: String| s@).to_set()
}

/// Whether `ids` holds `id`.
fn holds(ids: &Vec<String>, id: &str) -> (found: bool)
    ensures
        found == id_set(ids@).contains(id@),
{
    let ghost v = ids@.map_values(|s: String| s@);
    let mut i: usize = 0;
    while i < ids.len()
        invariant
            0 <= i <= ids@.len(),
            v == ids@.map_values(|s: String| s@),
            forall|t: int| 0 <= t < i ==> #[trigger] v[t] != id@,
        decreases ids@.len() - i,
    {
        if text_eq(ids[i].as_str(), id) {
            assert(v[i as int] == id@);
            assert(v.contains(id@));
            return true;
        }
        i = i + 1;
    }
    assert(!v.contains(id@));
    false
}

/// Removes the entries whose id is listed; says whether any was there.
pub fn remove_ids(entries: &mut Vec<VectorEntry>, ids: &Vec<String>) -> (removed: bool)
    requires
        distinct_ids(old(entries)@),
    ensures
        distinct_ids(final(entries)@),
        entries_map(final(entries)@) == entries_map(old(entries)@).remove_keys(id_set(ids@)),
        removed == exists|k: Seq<char>| #[trigger] id_set(ids@).contains(k) && entries_map(old(entries)@).dom().contains(k),
{
    let ghost start = entries@;
    let ghost gone = id_set(ids@);
    let mut kept: Vec<VectorEntry> = Vec::new();
    let mut removed = false;
    let mut i: usize = 0;
    while i < entries.len()
        invariant
            entries@ == start,
            distinct_ids(start),
            gone == id_set(ids@),
            0 <= i <= start.len(),
            distinct_ids(kept@),
            forall|t: int| 0 <= t < kept@.len() ==> exists|s: int| 0 <= s < i && (#[trigger] kept@[t]).id@ == start[s].id@,
            entries_map(kept@) == entries_map(start.subrange(0, i as int)).remove_keys(gone),
            removed == exists|s: int| 0 <= s < i && #[trigger] gone.contains(start[s].id@),
        decreases start.len() - i,
    {
        let e = &entries[i];
        let ghost before = kept@;
        proof {
            let next = start.subrange(0, i + 1);
            assert(next.drop_last() =~= start.subrange(0, i as int));
            assert(next[next.len() - 1] == start[i as int]);
        }
        if holds(ids, e.id.as_str()) {
            removed = true;
            proof {
                let m = entries_map(start.subrange(0, i as int));
                assert(entries_map(start.subrange(0, i + 1)).remove_keys(gone) =~= m.remove_keys(gone));
            }
        } else {
            kept.push(VectorEntry { id: e.id.clone(), epoch: e.epoch, updated_at: e.updated_at.clone() });
            proof {
                assert(kept@.drop_last() =~= before);
                let m = entries_map(start.subrange(0, i as int));
                assert(entries_map(kept@) =~= m.remove_keys(gone).insert(
                    start[i as int].id@,
                    (start[i as int].epoch, start[i as int].updated_at@),
                ));
                assert(entries_map(start.subrange(0, i + 1)).remove_keys(gone) =~= m.remove_keys(gone).insert(
                    start[i as int].id@,
                    (start[i as int].epoch, start[i as int].updated_at@),
                ));
                assert forall|a: int, b: int| 0 <= a < kept@.len() && 0 <= b < kept@.len() && a != b implies kept@[a].id@
                    != kept@[b].id@ by {
                    if a < before.len() && b < before.len() {
                        assert(kept@[a] == before[a] && kept@[b] == before[b]);
                    } else if a < before.len() {
                        assert(kept@[a] == before[a]);
                        let s = choose|s: int| 0 <= s < i && (#[trigger] before[a]).id@ == start[s].id@;
                        assert(start[s].id@ != start[i as int].id@);
                    } else {
                        assert(kept@[b] == before[b]);
                        let s = choose|s: int| 0 <= s < i && (#[trigger] before[b]).id@ == start[s].id@;
                        assert(start[s].id@ != start[i as int].id@);
                    }
                }
                assert forall|t: int| 0 <= t < kept@.len() implies exists|s: int|
                    0 <= s < i + 1 && (#[trigger] kept@[t]).id@ == start[s].id@ by {
                    if t < before.len() {
                        assert(kept@[t] == before[t]);
                        let s = choose|s: int| 0 <= s < i && (#[trigger] before[t]).id@ == start[s].id@;
                    } else {
                        assert(kept@[t].id@ == start[i as int].id@);
                    }
                }
            }
        }
        proof {
            if removed {
                if !(exists|s: int| 0 <= s < i && #[trigger] gone.contains(start[s].id@)) {
                    assert(gone.contains(start[i as int].id@));
                }
            }
            if exists|s: int| 0 <= s < i + 1 && #[trigger] gone.contains(start[s].id@) {
                let s = choose|s: int| 0 <= s < i + 1 && #[trigger] gone.contains(start[s].id@);
                if s < i {
                    assert(exists|s2: int| 0 <= s2 < i && #[trigger] gone.contains(start[s2].id@));
                }
            }
        }
        i = i + 1;
    }
    proof {
        assert(start.subrange(0, start.len() as int) =~= start);
        lemma_entries_map(start);
        if removed {
            let s = choose|s: int| 0 <= s < start.len() && #[trigger] gone.contains(start[s].id@);
            assert(entries_map(start).dom().contains(start[s].id@));
        }
        if exists|k: Seq<char>| #[trigger] gone.contains(k) && entries_map(start).dom().contains(k) {
            let k = choose|k: Seq<char>| #[trigger] gone.contains(k) && entries_map(start).dom().contains(k);
            let s = choose|s: int| 0 <= s < start.len() && start[s].id@ == k;
            assert(gone.contains(start[s].id@));
        }
    }
    *entries = kept;
    removed
}

/// The proof version after a change: one more than the recorded one (0
/// when none is recorded).
pub fn next_proof_version(current: Option<i64>) -> (v: i64)
    requires
        current != Some(i64::MAX),
    ensures
        v == (match current {
            Some(c) => c + 1,
            None => 1,
        }),
{
    match current {
        Some(c) => c + 1,
        None => 1,
    }
}

/// The index provider of a collection: the recorded one, or `hnsw`.
pub fn provider_or_default(current: Option<&str>) -> (name: String)
    ensures
        name@ == (match current {
            Some(p) => p@,
            None => "hnsw"@,
        }),
{
    match current {
        Some(p) => String::from_str(p),
        None => String::from_str("hnsw"),
    }
}

} // verus!

verus! {

/// Law: after updates are applied, the entry of the last update's id holds
/// that update's epoch and stamp, and entries whose id no update names
/// keep theirs.
pub proof fn lemma_last_update_wins(start: Seq<VectorEntry>, updates: Seq<VectorEntry>, k: Seq<char>)
    ensures
        updates.len() > 0 ==> entries_map(start + updates)[updates.last().id@] == (
            updates.last().epoch,
            updates.last().updated_at@,
        ),
        (forall|i: int| 0 <= i < updates.len() ==> (#[trigger] updates[i]).id@ != k) ==> entries_map(start + updates).dom().contains(k)
            == entries_map(start).dom().contains(k) && entries_map(start + updates)[k] == entries_map(start)[k],
    decreases updates.len(),
{
    if updates.len() > 0 {
        let all = start + updates;
        assert(all.drop_last() =~= start + updates.drop_last());
        assert(all[all.len() - 1] == updates.last());
        lemma_last_update_wins(start, updates.drop_last(), k);
        if forall|i: int| 0 <= i < updates.len() ==> (#[trigger] updates[i]).id@ != k {
            assert forall|i: int| 0 <= i < updates.drop_last().len() implies (#[trigger] updates.drop_last()[i]).id@ != k by {
                assert(updates.drop_last()[i] == updates[i]);
            }
            assert(updates[updates.len() - 1].id@ != k);
        }
    } else {
        assert(start + updates =~= start);
    }
}

} // verus!
