//! Vector metadata as a tree of JSON values, and its canonical form for
//! the index manager: every key whose name is volatile (see
//! `providers::is_volatile_metadata_key`) is dropped, at any depth of
//! nested objects, and the dotted paths of the dropped keys are reported.

use vstd::prelude::*;
use crate::providers::{is_volatile_metadata_key, qualify_key};

verus! {

/// A JSON value; numbers are kept as their text.
#[derive(Debug, PartialEq)]
pub enum JsonValue {
    Null,
    Bool(bool),
    Number(String),
    Text(String),
    List(Vec<JsonValue>),
    Object(Vec<(String, JsonValue)>),
}

/// The mathematical form of a JSON value.
pub enum JsonModel {
    Null,
    Bool(bool),
    Number(Seq<char>),
    Text(Seq<char>),
    List(Seq<JsonModel>),
    Object(Seq<(Seq<char>, JsonModel)>),
}

/// The model of a value.
pub open spec fn json_model(v: JsonValue) -> JsonModel
    decreases v, 0nat,
{
    match v {
        JsonValue::Null => JsonModel::Null,
        JsonValue::Bool(b) => JsonModel::Bool(b),
        JsonValue::Number(n) => JsonModel::Number(n@),
        JsonValue::Text(t) => JsonModel::Text(t@),
        JsonValue::List(items) => {
            proof {
                assert(decreases_to!(v => items));
                assert(decreases_to!(items => items@));
            }
            JsonModel::List(list_models(items@))
        },
        JsonValue::Object(entries) => {
            proof {
                assert(decreases_to!(v => entries));
                assert(decreases_to!(entries => entries@));
            }
            JsonModel::Object(entry_models(entries@))
        },
    }
}

/// The models of the items of a list.
pub open spec fn list_models(items: Seq<JsonValue>) -> Seq<JsonModel>
    decreases items, 1nat,
{
    if items.len() == 0 {
        Seq::empty()
    } else {
        proof {
            assert(decreases_to!(items => items[items.len() - 1]));
        }
        list_models(items.drop_last()).push(json_model(items[items.len() - 1]))
    }
}

/// The models of the entries of an object.
pub open spec fn entry_models(entries: Seq<(String, JsonValue)>) -> Seq<(Seq<char>, JsonModel)>
    decreases entries, 1nat,
{
    if entries.len() == 0 {
        Seq::empty()
    } else {
        let e = entries[entries.len() - 1];
        proof {
            assert(decreases_to!(entries => entries[entries.len() - 1]));
            assert(decreases_to!(e => e.1));
        }
        entry_models(entries.drop_last()).push((e.0@, json_model(e.1)))
    }
}

/// Texts as character sequences.
pub open spec fn strings(v: Seq<String>) -> Seq<Seq<char>> {
    v.map_values(|s: String| s@)
}

/// The canonical form of the entries of an object whose path is `prefix`,
/// with the paths of the keys dropped from it, in the order met: a
/// volatile key is dropped with its value; a nested object is made
/// canonical in turn; every other value is kept as it is.
pub open spec fn strip_entries(entries: Seq<(Seq<char>, JsonModel)>, prefix: Seq<char>) -> (
    Seq<(Seq<char>, JsonModel)>,
    Seq<Seq<char>>,
)
    decreases entries,
{
    if entries.len() == 0 {
        (Seq::empty(), Seq::empty())
    } else {
        let rest = strip_entries(entries.drop_last(), prefix);
        let e = entries[entries.len() - 1];
        let full = crate::providers::qualified_key(prefix, e.0);
        if crate::providers::index_key_is_volatile(e.0) {
            (rest.0, rest.1.push(full))
        } else {
            match e.1 {
                JsonModel::Object(nested) => {
                    proof {
                        assert(decreases_to!(entries => entries[entries.len() - 1]));
                        assert(decreases_to!(e => e.1));
                        assert(decreases_to!(e.1 => nested));
                    }
                    let inner = strip_entries(nested, full);
                    (rest.0.push((e.0, JsonModel::Object(inner.0))), rest.1 + inner.1)
                },
                _ => (rest.0.push(e), rest.1),
            }
        }
    }
}

/// A copy of a value.
pub fn copy_json(v: &JsonValue) -> (c: JsonValue)
    ensures
        json_model(c) == json_model(*v),
    decreases *v, 0nat,
{
    match v {
        JsonValue::Null => JsonValue::Null,
        JsonValue::Bool(b) => JsonValue::Bool(*b),
        JsonValue::Number(n) => JsonValue::Number(n.clone()),
        JsonValue::Text(t) => JsonValue::Text(t.clone()),
        JsonValue::List(items) => {
            proof {
                assert(decreases_to!(*v => *items));
            }
            JsonValue::List(copy_list(items))
        },
        JsonValue::Object(entries) => {
            proof {
                assert(decreases_to!(*v => *entries));
            }
            JsonValue::Object(copy_entries(entries))
        },
    }
}

pub(crate) fn copy_list(items: &Vec<JsonValue>) -> (c: Vec<JsonValue>)
    ensures
        list_models(c@) == list_models(items@),
    decreases *items, 1nat,
{
    let mut c: Vec<JsonValue> = Vec::new();
    let mut i: usize = 0;
    while i < items.len()
        invariant
            0 <= i <= items@.len(),
            list_models(c@) == list_models(items@.subrange(0, i as int)),
        decreases items@.len() - i,
    {
        proof {
            assert(decreases_to!(*items => items@));
            assert(decreases_to!(items@ => items@[i as int]));
        }
        let item = copy_json(&items[i]);
        let ghost before = c@;
        c.push(item);
        proof {
            let next = items@.subrange(0, i + 1);
            assert(next.drop_last() =~= items@.subrange(0, i as int));
            assert(c@.drop_last() =~= before);
        }
        i = i + 1;
    }
    assert(items@.subrange(0, items@.len() as int) =~= items@);
    c
}

pub(crate) fn copy_entries(entries: &Vec<(String, JsonValue)>) -> (c: Vec<(String, JsonValue)>)
    ensures
        entry_models(c@) == entry_models(entries@),
    decreases *entries, 1nat,
{
    let mut c: Vec<(String, JsonValue)> = Vec::new();
    let mut i: usize = 0;
    while i < entries.len()
        invariant
            0 <= i <= entries@.len(),
            entry_models(c@) == entry_models(entries@.subrange(0, i as int)),
        decreases entries@.len() - i,
    {
        proof {
            assert(decreases_to!(*entries => entries@));
            assert(decreases_to!(entries@ => entries@[i as int]));
            assert(decreases_to!(entries@[i as int] => entries@[i as int].1));
        }
        let value = copy_json(&entries[i].1);
        let key = entries[i].0.clone();
        let ghost before = c@;
        c.push((key, value));
        proof {
            let next = entries@.subrange(0, i + 1);
            assert(next.drop_last() =~= entries@.subrange(0, i as int));
            assert(c@.drop_last() =~= before);
        }
        i = i + 1;
    }
    assert(entries@.subrange(0, entries@.len() as int) =~= entries@);
    c
}

/// The canonical form of an object's entries (see `strip_entries`); the
/// paths of the dropped keys are appended to `removed`.
pub fn strip_volatile(entries: &Vec<(String, JsonValue)>, prefix: &str, removed: &mut Vec<String>) -> (kept: Vec<
    (String, JsonValue),
>)
    ensures
        entry_models(kept@) == strip_entries(entry_models(entries@), prefix@).0,
        strings(final(removed)@) == strings(old(removed)@) + strip_entries(entry_models(entries@), prefix@).1,
    decreases *entries,
{
    let ghost start = strings(removed@);
    let mut kept: Vec<(String, JsonValue)> = Vec::new();
    let mut i: usize = 0;
    while i < entries.len()
        invariant
            0 <= i <= entries@.len(),
            entry_models(kept@) == strip_entries(entry_models(entries@.subrange(0, i as int)), prefix@).0,
            strings(removed@) == start + strip_entries(entry_models(entries@.subrange(0, i as int)), prefix@).1,
        decreases entries@.len() - i,
    {
        let ghost front = entries@.subrange(0, i as int);
        let ghost next = entries@.subrange(0, i + 1);
        assert(next.drop_last() =~= front);
        let ghost models = entry_models(next);
        assert(models.drop_last() == entry_models(front));
        let ghost prior = strip_entries(entry_models(front), prefix@);
        let ghost before_kept = kept@;
        let ghost before_removed = strings(removed@);
        let key = &entries[i].0;
        let value = &entries[i].1;
        let full = qualify_key(prefix, key.as_str());
        assert(models == entry_models(front).push((key@, json_model(*value))));
        assert(models.last() == (key@, json_model(*value)));
        if is_volatile_metadata_key(key.as_str()) {
            removed.push(full);
            proof {
                assert(strings(removed@) =~= before_removed.push(full@));
                assert(strip_entries(models, prefix@) == (prior.0, prior.1.push(full@)));
            }
        } else {
            match value {
                JsonValue::Object(nested) => {
                    proof {
                        assert(decreases_to!(*entries => entries@));
                        assert(decreases_to!(entries@ => entries@[i as int]));
                        assert(decreases_to!(entries@[i as int] => entries@[i as int].1));
                        assert(decreases_to!(entries@[i as int].1 => *nested));
                    }
                    let inner = strip_volatile(nested, full.as_str(), removed);
                    let ghost inner_ghost = inner;
                    let key_copy = key.clone();
                    kept.push((key_copy, JsonValue::Object(inner)));
                    proof {
                        assert(kept@.drop_last() =~= before_kept);
                        assert(json_model(*value) == JsonModel::Object(entry_models(nested@)));
                        let inner_model = strip_entries(entry_models(nested@), full@);
                        assert(strip_entries(models, prefix@) == (
                            prior.0.push((key@, JsonModel::Object(inner_model.0))),
                            prior.1 + inner_model.1,
                        ));
                        assert(kept@.last() == (key_copy, JsonValue::Object(inner_ghost)));
                        assert(json_model(JsonValue::Object(inner_ghost)) == JsonModel::Object(entry_models(inner_ghost@)));
                        assert(entry_models(kept@) == entry_models(before_kept).push(
                            (key_copy@, json_model(JsonValue::Object(inner_ghost))),
                        ));
                        assert(entry_models(kept@) =~= prior.0.push((key@, JsonModel::Object(inner_model.0))));
                        assert(strings(removed@) =~= start + (prior.1 + inner_model.1));
                    }
                },
                _ => {
                    let copy = copy_json(value);
                    kept.push((key.clone(), copy));
                    proof {
                        assert(kept@.drop_last() =~= before_kept);
                        assert(!(json_model(*value) is Object));
                        assert(strip_entries(models, prefix@) == (prior.0.push(models.last()), prior.1));
                        assert(entry_models(kept@) =~= prior.0.push(models.last()));
                    }
                },
            }
        }
        i = i + 1;
    }
    assert(entries@.subrange(0, entries@.len() as int) =~= entries@);
    kept
}

/// The canonical metadata of a vector (the paths of the dropped keys go
/// to the log of the caller).
pub fn canonicalize_metadata(metadata: &Vec<(String, JsonValue)>) -> (canonical: (Vec<(String, JsonValue)>, Vec<String>))
    ensures
        entry_models(canonical.0@) == strip_entries(entry_models(metadata@), Seq::empty()).0,
        strings(canonical.1@) == strip_entries(entry_models(metadata@), Seq::empty()).1,
{
    let mut removed: Vec<String> = Vec::new();
    proof {
        reveal_strlit("");
        assert(""@ =~= Seq::<char>::empty());
    }
    let kept = strip_volatile(metadata, "", &mut removed);
    assert(strings(Seq::<String>::empty()) =~= Seq::<Seq<char>>::empty());
    assert(strings(removed@) =~= strip_entries(entry_models(metadata@), Seq::empty()).1);
    (kept, removed)
}

/// No key is volatile, at any depth of nested objects.
pub open spec fn all_clean(entries: Seq<(Seq<char>, JsonModel)>) -> bool
    decreases entries,
{
    if entries.len() == 0 {
        true
    } else {
        let e = entries[entries.len() - 1];
        &&& all_clean(entries.drop_last())
        &&& !crate::providers::index_key_is_volatile(e.0)
        &&& match e.1 {
            JsonModel::Object(nested) => {
                proof {
                    assert(decreases_to!(entries => entries[entries.len() - 1]));
                    assert(decreases_to!(e => e.1));
                    assert(decreases_to!(e.1 => nested));
                }
                all_clean(nested)
            },
            _ => true,
        }
    }
}

/// Law: canonical metadata holds no volatile key, at any depth.
pub proof fn lemma_canonical_is_clean(entries: Seq<(Seq<char>, JsonModel)>, prefix: Seq<char>)
    ensures
        all_clean(strip_entries(entries, prefix).0),
    decreases entries,
{
    if entries.len() > 0 {
        let rest = strip_entries(entries.drop_last(), prefix);
        lemma_canonical_is_clean(entries.drop_last(), prefix);
        let e = entries[entries.len() - 1];
        let full = crate::providers::qualified_key(prefix, e.0);
        if !crate::providers::index_key_is_volatile(e.0) {
            match e.1 {
                JsonModel::Object(nested) => {
                    assert(decreases_to!(entries => entries[entries.len() - 1]));
                    assert(decreases_to!(e => e.1));
                    assert(decreases_to!(e.1 => nested));
                    lemma_canonical_is_clean(nested, full);
                    let out = rest.0.push((e.0, JsonModel::Object(strip_entries(nested, full).0)));
                    assert(out.drop_last() =~= rest.0);
                },
                _ => {
                    assert(rest.0.push(e).drop_last() =~= rest.0);
                },
            }
        }
    }
}

/// Metadata without volatile keys is already canonical: nothing is
/// dropped and nothing changes.
pub proof fn lemma_clean_is_canonical(entries: Seq<(Seq<char>, JsonModel)>, prefix: Seq<char>)
    requires
        all_clean(entries),
    ensures
        strip_entries(entries, prefix) == (entries, Seq::<Seq<char>>::empty()),
    decreases entries,
{
    if entries.len() > 0 {
        let front = entries.drop_last();
        lemma_clean_is_canonical(front, prefix);
        let e = entries[entries.len() - 1];
        let full = crate::providers::qualified_key(prefix, e.0);
        match e.1 {
            JsonModel::Object(nested) => {
                assert(decreases_to!(entries => entries[entries.len() - 1]));
                assert(decreases_to!(e => e.1));
                assert(decreases_to!(e.1 => nested));
                lemma_clean_is_canonical(nested, full);
                assert(e == (e.0, JsonModel::Object(nested)));
                assert(Seq::<Seq<char>>::empty() + Seq::<Seq<char>>::empty() =~= Seq::<Seq<char>>::empty());
            },
            _ => {},
        }
        assert(front.push(e) =~= entries);
    } else {
        assert(entries =~= Seq::<(Seq<char>, JsonModel)>::empty());
    }
}

/// Law: canonicalizing canonical metadata changes nothing and drops
/// nothing.
pub proof fn lemma_canonicalize_idempotent(entries: Seq<(Seq<char>, JsonModel)>, prefix: Seq<char>)
    ensures
        strip_entries(strip_entries(entries, prefix).0, prefix) == (
            strip_entries(entries, prefix).0,
            Seq::<Seq<char>>::empty(),
        ),
{
    lemma_canonical_is_clean(entries, prefix);
    lemma_clean_is_canonical(strip_entries(entries, prefix).0, prefix);
}

/// The models of entries, position by position.
pub proof fn lemma_entry_models_index(entries: Seq<(String, JsonValue)>)
    ensures
        entry_models(entries).len() == entries.len(),
        forall|t: int|
            0 <= t < entries.len() ==> #[trigger] entry_models(entries)[t] == (entries[t].0@, json_model(entries[t].1)),
    decreases entries.len(),
{
    if entries.len() > 0 {
        lemma_entry_models_index(entries.drop_last());
    }
}

/// The models of list items, position by position.
pub proof fn lemma_list_models_index(items: Seq<JsonValue>)
    ensures
        list_models(items).len() == items.len(),
        forall|t: int| 0 <= t < items.len() ==> #[trigger] list_models(items)[t] == json_model(items[t]),
    decreases items.len(),
{
    if items.len() > 0 {
        lemma_list_models_index(items.drop_last());
    }
}

} // verus!
