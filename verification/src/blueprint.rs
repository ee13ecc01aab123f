//! The model of an evolution blueprint read from its JSON document: the
//! spec section, priorities, components, storage and API descriptions,
//! the remaining sections as they are, and the keys nothing reads.

use vstd::prelude::*;
use crate::metadata_tree::{copy_entries, copy_json, JsonModel, JsonValue};
use crate::specs::Spec;
use crate::text::text_eq;

verus! {

/// The value under `key` among `entries` (the first entry with that key).
pub open spec fn json_lookup(entries: Seq<(Seq<char>, JsonModel)>, key: Seq<char>) -> Option<JsonModel>
    decreases entries.len(),
{
    if entries.len() == 0 {
        None
    } else if entries[0].0 == key {
        Some(entries[0].1)
    } else {
        json_lookup(entries.drop_first(), key)
    }
}

/// The text under `key`, or the empty text when it is absent or not a
/// text.
pub open spec fn json_text(entries: Seq<(Seq<char>, JsonModel)>, key: Seq<char>) -> Seq<char> {
    match json_lookup(entries, key) {
        Some(JsonModel::Text(t)) => t,
        _ => Seq::empty(),
    }
}

/// The texts among list items, in order.
pub open spec fn model_texts(items: Seq<JsonModel>) -> Seq<Seq<char>>
    decreases items.len(),
{
    if items.len() == 0 {
        Seq::empty()
    } else {
        let rest = model_texts(items.drop_last());
        match items[items.len() - 1] {
            JsonModel::Text(t) => rest.push(t),
            _ => rest,
        }
    }
}

/// The texts of the list under `key`, when it is a list.
pub open spec fn json_text_list(entries: Seq<(Seq<char>, JsonModel)>, key: Seq<char>) -> Option<Seq<Seq<char>>> {
    match json_lookup(entries, key) {
        Some(JsonModel::List(items)) => Some(model_texts(items)),
        _ => None,
    }
}

/// The texts of the list under `key`, or none at all.
pub open spec fn json_text_list_or_empty(entries: Seq<(Seq<char>, JsonModel)>, key: Seq<char>) -> Seq<Seq<char>> {
    match json_text_list(entries, key) {
        Some(l) => l,
        None => Seq::empty(),
    }
}

/// The entries of the object under `key`, or none when it is absent or not
/// an object.
pub open spec fn json_object(entries: Seq<(Seq<char>, JsonModel)>, key: Seq<char>) -> Seq<(Seq<char>, JsonModel)> {
    match json_lookup(entries, key) {
        Some(JsonModel::Object(o)) => o,
        _ => Seq::empty(),
    }
}

/// The entries whose key is not among `known`, in order.
pub open spec fn extras_of(entries: Seq<(Seq<char>, JsonModel)>, known: Seq<Seq<char>>) -> Seq<(Seq<char>, JsonModel)>
    decreases entries.len(),
{
    if entries.len() == 0 {
        Seq::empty()
    } else {
        let rest = extras_of(entries.drop_last(), known);
        let e = entries[entries.len() - 1];
        if known.contains(e.0) {
            rest
        } else {
            rest.push(e)
        }
    }
}

/// Law: the extras kept aside are exactly the entries whose key is not
/// among `known`: none of them has a known key, each is an entry, and each
/// entry with an unknown key is among them.
pub proof fn lemma_extras_are_unknown_entries(entries: Seq<(Seq<char>, JsonModel)>, known: Seq<Seq<char>>)
    ensures
        forall|k: int|
            0 <= k < extras_of(entries, known).len() ==> !known.contains((#[trigger] extras_of(entries, known)[k]).0)
                && entries.contains(extras_of(entries, known)[k]),
        forall|i: int| 0 <= i < entries.len() && !known.contains((#[trigger] entries[i]).0) ==> extras_of(
            entries,
            known,
        ).contains(entries[i]),
    decreases entries.len(),
{
    if entries.len() > 0 {
        let init = entries.drop_last();
        let e = entries[entries.len() - 1];
        let rest = extras_of(init, known);
        lemma_extras_are_unknown_entries(init, known);
        let ex = extras_of(entries, known);
        assert forall|k: int| 0 <= k < ex.len() implies !known.contains((#[trigger] ex[k]).0) && entries.contains(ex[k]) by {
            if k < rest.len() {
                assert(ex[k] == rest[k]);
                let t = choose|t: int| 0 <= t < init.len() && init[t] == rest[k];
                assert(entries[t] == init[t]);
            } else {
                assert(ex[k] == e);
                assert(entries[entries.len() - 1] == e);
            }
        }
        assert forall|i: int| 0 <= i < entries.len() && !known.contains((#[trigger] entries[i]).0) implies ex.contains(
            entries[i],
        ) by {
            if i < init.len() {
                assert(init[i] == entries[i]);
                assert(rest.contains(init[i]));
                let t = choose|t: int| 0 <= t < rest.len() && rest[t] == init[i];
                if known.contains(e.0) {
                    assert(ex[t] == rest[t]);
                } else {
                    assert(ex[t] == rest[t]);
                }
            } else {
                assert(ex[ex.len() - 1] == e);
            }
        }
    }
}

proof fn lemma_lookup_at(entries: Seq<(Seq<char>, JsonModel)>, key: Seq<char>, i: int)
    requires
        0 <= i < entries.len(),
        entries[i].0 == key,
        forall|t: int| 0 <= t < i ==> entries[t].0 != key,
    ensures
        json_lookup(entries, key) == Some(entries[i].1),
    decreases i,
{
    if i > 0 {
        let rest = entries.drop_first();
        assert forall|t: int| 0 <= t < i - 1 implies rest[t].0 != key by {
            assert(rest[t] == entries[t + 1]);
        }
        lemma_lookup_at(rest, key, i - 1);
    }
}

proof fn lemma_lookup_absent(entries: Seq<(Seq<char>, JsonModel)>, key: Seq<char>)
    requires
        forall|t: int| 0 <= t < entries.len() ==> entries[t].0 != key,
    ensures
        json_lookup(entries, key) is None,
    decreases entries.len(),
{
    if entries.len() > 0 {
        let rest = entries.drop_first();
        assert forall|t: int| 0 <= t < rest.len() implies rest[t].0 != key by {
            assert(rest[t] == entries[t + 1]);
        }
        lemma_lookup_absent(rest, key);
    }
}

/// The position of the first entry with key `key` (see `json_lookup`).
pub fn find_entry(entries: &Vec<(String, JsonValue)>, key: &str) -> (found: Option<usize>)
    ensures
        match found {
            Some(i) => i < entries@.len() && entries@[i as int].0@ == key@ && json_lookup(
                crate::metadata_tree::entry_models(entries@),
                key@,
            ) == Some(crate::metadata_tree::json_model(entries@[i as int].1)),
            None => json_lookup(crate::metadata_tree::entry_models(entries@), key@) is None,
        },
{
    let ghost models = crate::metadata_tree::entry_models(entries@);
    proof {
        crate::metadata_tree::lemma_entry_models_index(entries@);
    }
    let mut i: usize = 0;
    while i < entries.len()
        invariant
            0 <= i <= entries@.len(),
            models == crate::metadata_tree::entry_models(entries@),
            models.len() == entries@.len(),
            forall|t: int|
                0 <= t < entries@.len() ==> #[trigger] models[t] == (
                    entries@[t].0@,
                    crate::metadata_tree::json_model(entries@[t].1),
                ),
            forall|t: int| 0 <= t < i ==> models[t].0 != key@,
        decreases entries@.len() - i,
    {
        if text_eq(entries[i].0.as_str(), key) {
            proof {
                assert(models[i as int].0 == key@);
                lemma_lookup_at(models, key@, i as int);
            }
            return Some(i);
        }
        assert(models[i as int].0 != key@);
        i = i + 1;
    }
    proof {
        lemma_lookup_absent(models, key@);
    }
    None
}

/// No two entries share a key.
pub open spec fn distinct_entry_keys(entries: Seq<(Seq<char>, JsonModel)>) -> bool {
    forall|a: int, b: int| 0 <= a < b < entries.len() ==> entries[a].0 != entries[b].0
}

/// Whether no two entries share a key (see `distinct_entry_keys`).
pub fn keys_distinct(entries: &Vec<(String, JsonValue)>) -> (r: bool)
    ensures
        r == distinct_entry_keys(crate::metadata_tree::entry_models(entries@)),
{
    let ghost models = crate::metadata_tree::entry_models(entries@);
    proof {
        crate::metadata_tree::lemma_entry_models_index(entries@);
    }
    let mut b: usize = 0;
    while b < entries.len()
        invariant
            0 <= b <= entries@.len(),
            models == crate::metadata_tree::entry_models(entries@),
            models.len() == entries@.len(),
            forall|t: int|
                0 <= t < entries@.len() ==> #[trigger] models[t] == (
                    entries@[t].0@,
                    crate::metadata_tree::json_model(entries@[t].1),
                ),
            forall|x: int, y: int| 0 <= x < y < b ==> models[x].0 != models[y].0,
        decreases entries@.len() - b,
    {
        let mut a: usize = 0;
        while a < b
            invariant
                0 <= a <= b < entries@.len(),
                models == crate::metadata_tree::entry_models(entries@),
                models.len() == entries@.len(),
                forall|t: int|
                    0 <= t < entries@.len() ==> #[trigger] models[t] == (
                        entries@[t].0@,
                        crate::metadata_tree::json_model(entries@[t].1),
                    ),
                forall|x: int| 0 <= x < a ==> models[x].0 != models[b as int].0,
            decreases b - a,
        {
            if text_eq(entries[a].0.as_str(), entries[b].0.as_str()) {
                assert(models[a as int].0 == models[b as int].0);
                return false;
            }
            a = a + 1;
        }
        b = b + 1;
    }
    true
}

/// Sets the entry `key` of an object to `value`: the entry with that key
/// is replaced where it stands, or a new entry is added at the end.
pub fn put_entry(entries: &mut Vec<(String, JsonValue)>, key: &str, value: JsonValue)
    requires
        distinct_entry_keys(crate::metadata_tree::entry_models(old(entries)@)),
    ensures
        distinct_entry_keys(crate::metadata_tree::entry_models(final(entries)@)),
        forall|k: Seq<char>|
            #[trigger] json_lookup(crate::metadata_tree::entry_models(final(entries)@), k) == if k == key@ {
                Some(crate::metadata_tree::json_model(value))
            } else {
                json_lookup(crate::metadata_tree::entry_models(old(entries)@), k)
            },
{
    let ghost before = crate::metadata_tree::entry_models(entries@);
    let ghost value_model = crate::metadata_tree::json_model(value);
    proof {
        crate::metadata_tree::lemma_entry_models_index(entries@);
    }
    let found = find_entry(entries, key);
    let ghost old_entries = entries@;
    match found {
        Some(i) => {
            let name = String::from_str(key);
            entries.set(i, (name, value));
            proof {
                crate::metadata_tree::lemma_entry_models_index(entries@);
                let after = crate::metadata_tree::entry_models(entries@);
                assert(before[i as int].0 == key@);
                assert(after =~= before.update(i as int, (key@, value_model)));
                assert forall|t: int| 0 <= t < after.len() implies after[t].0 == before[t].0 by {}
                assert(distinct_entry_keys(after));
                lemma_lookup_distinct(after, key@);
                assert forall|k: Seq<char>| #[trigger] json_lookup(after, k) == if k == key@ {
                    Some(value_model)
                } else {
                    json_lookup(before, k)
                } by {
                    lemma_lookup_distinct(before, k);
                    lemma_lookup_distinct(after, k);
                    if k == key@ {
                        assert(after[i as int].0 == k);
                    } else {
                        assert forall|t: int| 0 <= t < after.len() && after[t].0 == k implies before[t] == after[t] by {}
                        if exists|t: int| 0 <= t < before.len() && before[t].0 == k {
                            let t = choose|t: int| 0 <= t < before.len() && before[t].0 == k;
                            assert(after[t] == before[t]);
                        } else {
                            assert forall|t: int| 0 <= t < after.len() implies after[t].0 != k by {}
                        }
                    }
                }
            }
        },
        None => {
            let name = String::from_str(key);
            entries.push((name, value));
            proof {
                let after = crate::metadata_tree::entry_models(entries@);
                assert(entries@.drop_last() =~= old_entries);
                assert(after == before.push((key@, value_model)));
                lemma_lookup_distinct(before, key@);
                assert forall|t: int| 0 <= t < before.len() implies before[t].0 != key@ by {
                    if before[t].0 == key@ {
                        lemma_lookup_distinct(before, key@);
                    }
                }
                assert(distinct_entry_keys(after));
                assert forall|k: Seq<char>| #[trigger] json_lookup(after, k) == if k == key@ {
                    Some(value_model)
                } else {
                    json_lookup(before, k)
                } by {
                    lemma_lookup_distinct(before, k);
                    lemma_lookup_distinct(after, k);
                    if k == key@ {
                        assert(after[before.len() as int].0 == k);
                    } else {
                        if exists|t: int| 0 <= t < before.len() && before[t].0 == k {
                            let t = choose|t: int| 0 <= t < before.len() && before[t].0 == k;
                            assert(after[t] == before[t]);
                        } else {
                            assert forall|t: int| 0 <= t < after.len() implies after[t].0 != k by {
                                if t < before.len() {
                                    assert(after[t] == before[t]);
                                }
                            }
                        }
                    }
                }
            }
        },
    }
}

/// With distinct keys, the value under `key` is that of the one entry with
/// that key, if any.
pub proof fn lemma_lookup_distinct(entries: Seq<(Seq<char>, JsonModel)>, key: Seq<char>)
    requires
        distinct_entry_keys(entries),
    ensures
        forall|t: int| 0 <= t < entries.len() && entries[t].0 == key ==> json_lookup(entries, key) == Some(entries[t].1),
        (forall|t: int| 0 <= t < entries.len() ==> entries[t].0 != key) ==> json_lookup(entries, key) is None,
{
    assert forall|t: int| 0 <= t < entries.len() && entries[t].0 == key implies json_lookup(entries, key) == Some(entries[t].1) by {
        lemma_lookup_at(entries, key, t);
    }
    if forall|t: int| 0 <= t < entries.len() ==> entries[t].0 != key {
        lemma_lookup_absent(entries, key);
    }
}

/// The text under `key` (see `json_text`).
pub fn text_field(entries: &Vec<(String, JsonValue)>, key: &str) -> (t: String)
    ensures
        t@ == json_text(crate::metadata_tree::entry_models(entries@), key@),
{
    match find_entry(entries, key) {
        Some(i) => match &entries[i].1 {
            JsonValue::Text(t) => t.clone(),
            _ => String::new(),
        },
        None => String::new(),
    }
}

/// The texts among `items`, in order.
fn texts_of(items: &Vec<JsonValue>) -> (texts: Vec<String>)
    ensures
        crate::metadata_tree::strings(texts@) == model_texts(crate::metadata_tree::list_models(items@)),
{
    let ghost models = crate::metadata_tree::list_models(items@);
    proof {
        crate::metadata_tree::lemma_list_models_index(items@);
    }
    let mut texts: Vec<String> = Vec::new();
    let mut i: usize = 0;
    while i < items.len()
        invariant
            0 <= i <= items@.len(),
            models == crate::metadata_tree::list_models(items@),
            models.len() == items@.len(),
            forall|t: int| 0 <= t < items@.len() ==> #[trigger] models[t] == crate::metadata_tree::json_model(items@[t]),
            crate::metadata_tree::strings(texts@) == model_texts(models.subrange(0, i as int)),
        decreases items@.len() - i,
    {
        let ghost next = models.subrange(0, i + 1);
        assert(next.drop_last() =~= models.subrange(0, i as int));
        assert(next[i as int] == crate::metadata_tree::json_model(items@[i as int]));
        let ghost before = texts@;
        match &items[i] {
            JsonValue::Text(t) => {
                texts.push(t.clone());
                assert(crate::metadata_tree::strings(texts@) =~= crate::metadata_tree::strings(before).push(t@));
            },
            _ => {},
        }
        i = i + 1;
    }
    assert(models.subrange(0, items@.len() as int) =~= models);
    texts
}

/// The texts of the list under `key`, when it is a list.
pub fn text_list_field(entries: &Vec<(String, JsonValue)>, key: &str) -> (texts: Option<Vec<String>>)
    ensures
        match texts {
            Some(v) => json_text_list(crate::metadata_tree::entry_models(entries@), key@) == Some(
                crate::metadata_tree::strings(v@),
            ),
            None => json_text_list(crate::metadata_tree::entry_models(entries@), key@) is None,
        },
{
    match find_entry(entries, key) {
        Some(i) => match &entries[i].1 {
            JsonValue::List(items) => Some(texts_of(items)),
            _ => None,
        },
        None => None,
    }
}

/// The texts of the list under `key`, or an empty list.
pub fn text_list_or_empty(entries: &Vec<(String, JsonValue)>, key: &str) -> (texts: Vec<String>)
    ensures
        crate::metadata_tree::strings(texts@) == json_text_list_or_empty(crate::metadata_tree::entry_models(entries@), key@),
{
    match text_list_field(entries, key) {
        Some(v) => v,
        None => {
            let v: Vec<String> = Vec::new();
            assert(crate::metadata_tree::strings(v@) =~= Seq::<Seq<char>>::empty());
            v
        },
    }
}

/// A copy of the entries of the object under `key` (see `json_object`).
pub fn object_field(entries: &Vec<(String, JsonValue)>, key: &str) -> (o: Vec<(String, JsonValue)>)
    ensures
        crate::metadata_tree::entry_models(o@) == json_object(crate::metadata_tree::entry_models(entries@), key@),
{
    match find_entry(entries, key) {
        Some(i) => match &entries[i].1 {
            JsonValue::Object(inner) => copy_entries(inner),
            _ => Vec::new(),
        },
        None => Vec::new(),
    }
}

/// Copies of the entries whose key is not among `known` (see
/// `extras_of`).
pub fn extra_entries(entries: &Vec<(String, JsonValue)>, known: &Vec<&str>) -> (extras: Vec<(String, JsonValue)>)
    ensures
        crate::metadata_tree::entry_models(extras@) == extras_of(
            crate::metadata_tree::entry_models(entries@),
            known@.map_values(|k: &str| k@),
        ),
{
    let ghost models = crate::metadata_tree::entry_models(entries@);
    let ghost kv = known@.map_values(|k: &str| k@);
    proof {
        crate::metadata_tree::lemma_entry_models_index(entries@);
    }
    let mut extras: Vec<(String, JsonValue)> = Vec::new();
    let mut i: usize = 0;
    while i < entries.len()
        invariant
            0 <= i <= entries@.len(),
            models == crate::metadata_tree::entry_models(entries@),
            kv == known@.map_values(|k: &str| k@),
            models.len() == entries@.len(),
            forall|t: int|
                0 <= t < entries@.len() ==> #[trigger] models[t] == (
                    entries@[t].0@,
                    crate::metadata_tree::json_model(entries@[t].1),
                ),
            crate::metadata_tree::entry_models(extras@) == extras_of(models.subrange(0, i as int), kv),
        decreases entries@.len() - i,
    {
        let ghost next = models.subrange(0, i + 1);
        assert(next.drop_last() =~= models.subrange(0, i as int));
        let key = entries[i].0.as_str();
        let mut is_known = false;
        let mut j: usize = 0;
        while j < known.len()
            invariant
                0 <= j <= known@.len(),
                kv == known@.map_values(|k: &str| k@),
                is_known == exists|t: int| 0 <= t < j && kv[t] == key@,
            decreases known@.len() - j,
        {
            assert(kv[j as int] == known@[j as int]@);
            if text_eq(key, known[j]) {
                is_known = true;
            }
            assert(is_known == exists|t: int| 0 <= t < j + 1 && kv[t] == key@) by {
                if kv[j as int] == key@ {
                    assert(0 <= j < j + 1 && kv[j as int] == key@);
                }
            }
            j = j + 1;
        }
        assert(is_known == kv.contains(key@));
        if !is_known {
            let value = copy_json(&entries[i].1);
            let ghost before = extras@;
            extras.push((entries[i].0.clone(), value));
            assert(extras@.drop_last() =~= before);
        }
        i = i + 1;
    }
    assert(models.subrange(0, entries@.len() as int) =~= models);
    extras
}

/// Optional texts as character sequences.
pub open spec fn opt_strings(o: Option<Vec<String>>) -> Option<Seq<Seq<char>>> {
    match o {
        Some(v) => Some(crate::metadata_tree::strings(v@)),
        None => None,
    }
}

/// A component of a blueprint.
pub struct Component {
    pub name: String,
    pub component_type: String,
    pub deps: Option<Vec<String>>,
    pub responsibilities: Option<Vec<String>>,
    pub extras: Vec<(String, JsonValue)>,
}

/// The model of a component.
pub struct ComponentModel {
    pub name: Seq<char>,
    pub component_type: Seq<char>,
    pub deps: Option<Seq<Seq<char>>>,
    pub responsibilities: Option<Seq<Seq<char>>>,
    pub extras: Seq<(Seq<char>, JsonModel)>,
}

impl View for Component {
    type V = ComponentModel;

    open spec fn view(&self) -> ComponentModel {
        ComponentModel {
            name: self.name@,
            component_type: self.component_type@,
            deps: opt_strings(self.deps),
            responsibilities: opt_strings(self.responsibilities),
            extras: crate::metadata_tree::entry_models(self.extras@),
        }
    }
}

/// The keys a component description is read from.
pub open spec fn component_keys() -> Seq<Seq<char>> {
    seq!["name"@, "type"@, "deps"@, "responsibilities"@]
}

/// The component described by `entries`: its name and type (empty when
/// absent), its dependencies and responsibilities (when they are lists),
/// and every other entry as it is.
pub open spec fn component_of(entries: Seq<(Seq<char>, JsonModel)>) -> ComponentModel {
    ComponentModel {
        name: json_text(entries, "name"@),
        component_type: json_text(entries, "type"@),
        deps: json_text_list(entries, "deps"@),
        responsibilities: json_text_list(entries, "responsibilities"@),
        extras: extras_of(entries, component_keys()),
    }
}

impl Component {
    /// Reads a component description (see `component_of`).
    pub fn from_dict(data: &Vec<(String, JsonValue)>) -> (c: Component)
        ensures
            c@ == component_of(crate::metadata_tree::entry_models(data@)),
    {
        let known: Vec<&str> = vec!["name", "type", "deps", "responsibilities"];
        assert(known@.map_values(|k: &str| k@) =~= component_keys());
        Component {
            name: text_field(data, "name"),
            component_type: text_field(data, "type"),
            deps: text_list_field(data, "deps"),
            responsibilities: text_list_field(data, "responsibilities"),
            extras: extra_entries(data, &known),
        }
    }
}

/// The API surface of a blueprint.
pub struct API {
    pub rest: Vec<String>,
    pub grpc: Vec<(String, JsonValue)>,
}

/// The model of an API surface.
pub struct ApiModel {
    pub rest: Seq<Seq<char>>,
    pub grpc: Seq<(Seq<char>, JsonModel)>,
}

impl View for API {
    type V = ApiModel;

    open spec fn view(&self) -> ApiModel {
        ApiModel { rest: crate::metadata_tree::strings(self.rest@), grpc: crate::metadata_tree::entry_models(self.grpc@) }
    }
}

/// The API surface described by `entries`.
pub open spec fn api_of(entries: Seq<(Seq<char>, JsonModel)>) -> ApiModel {
    ApiModel { rest: json_text_list_or_empty(entries, "rest"@), grpc: json_object(entries, "grpc"@) }
}

impl API {
    /// Reads an API description (see `api_of`).
    pub fn from_dict(data: &Vec<(String, JsonValue)>) -> (api: API)
        ensures
            api@ == api_of(crate::metadata_tree::entry_models(data@)),
    {
        API { rest: text_list_or_empty(data, "rest"), grpc: object_field(data, "grpc") }
    }
}

/// The storage configuration of a blueprint.
pub struct Storage {
    pub fs_root: String,
    pub s3: Vec<(String, JsonValue)>,
    pub layout: Vec<(String, JsonValue)>,
}

/// The model of a storage configuration.
pub struct StorageModel {
    pub fs_root: Seq<char>,
    pub s3: Seq<(Seq<char>, JsonModel)>,
    pub layout: Seq<(Seq<char>, JsonModel)>,
}

impl View for Storage {
    type V = StorageModel;

    open spec fn view(&self) -> StorageModel {
        StorageModel {
            fs_root: self.fs_root@,
            s3: crate::metadata_tree::entry_models(self.s3@),
            layout: crate::metadata_tree::entry_models(self.layout@),
        }
    }
}

/// The storage configuration described by `entries`.
pub open spec fn storage_of(entries: Seq<(Seq<char>, JsonModel)>) -> StorageModel {
    StorageModel {
        fs_root: json_text(entries, "fs_root"@),
        s3: json_object(entries, "s3"@),
        layout: json_object(entries, "layout"@),
    }
}

impl Storage {
    /// Reads a storage description (see `storage_of`).
    pub fn from_dict(data: &Vec<(String, JsonValue)>) -> (storage: Storage)
        ensures
            storage@ == storage_of(crate::metadata_tree::entry_models(data@)),
    {
        Storage { fs_root: text_field(data, "fs_root"), s3: object_field(data, "s3"), layout: object_field(data, "layout") }
    }
}

/// The priority lists of a `priorities` object: each key with the texts of
/// its list (none when it is not a list).
pub open spec fn priority_lists(o: Seq<(Seq<char>, JsonModel)>) -> Seq<(Seq<char>, Seq<Seq<char>>)> {
    o.map_values(
        |e: (Seq<char>, JsonModel)|
            (
                e.0,
                match e.1 {
                    JsonModel::List(items) => model_texts(items),
                    _ => Seq::empty(),
                },
            ),
    )
}

/// The components among list items: each object item, read as a
/// component; other items are passed over.
pub open spec fn object_components(items: Seq<JsonModel>) -> Seq<ComponentModel>
    decreases items.len(),
{
    if items.len() == 0 {
        Seq::empty()
    } else {
        let rest = object_components(items.drop_last());
        match items[items.len() - 1] {
            JsonModel::Object(o) => rest.push(component_of(o)),
            _ => rest,
        }
    }
}

/// The components of a blueprint: those of its `components` list.
pub open spec fn components_of(entries: Seq<(Seq<char>, JsonModel)>) -> Seq<ComponentModel> {
    match json_lookup(entries, "components"@) {
        Some(JsonModel::List(items)) => object_components(items),
        _ => Seq::empty(),
    }
}

/// The sections of a blueprint that are read.
pub open spec fn blueprint_keys() -> Seq<Seq<char>> {
    seq![
        "spec"@,
        "priorities"@,
        "components"@,
        "storage"@,
        "distance"@,
        "schemas"@,
        "api"@,
        "index_backends"@,
        "consistency"@,
        "merkaba_gate"@,
        "workflows"@,
        "security"@,
        "observability"@,
        "config"@,
    ]
}

/// A blueprint read from its document.
pub struct Blueprint {
    pub spec: Spec,
    pub priorities: Vec<(String, Vec<String>)>,
    pub components: Vec<Component>,
    pub storage: Storage,
    pub distance: Vec<(String, JsonValue)>,
    pub schemas: Vec<(String, JsonValue)>,
    pub api: API,
    pub index_backends: Vec<(String, JsonValue)>,
    pub consistency: Vec<(String, JsonValue)>,
    pub merkaba_gate: Vec<(String, JsonValue)>,
    pub workflows: Vec<(String, JsonValue)>,
    pub security: Vec<(String, JsonValue)>,
    pub observability: Vec<(String, JsonValue)>,
    pub config: Vec<(String, JsonValue)>,
    pub extras: Vec<(String, JsonValue)>,
}

/// The model of a blueprint.
pub struct BlueprintModel {
    pub spec: crate::specs::SpecModel,
    pub priorities: Seq<(Seq<char>, Seq<Seq<char>>)>,
    pub components: Seq<ComponentModel>,
    pub storage: StorageModel,
    pub distance: Seq<(Seq<char>, JsonModel)>,
    pub schemas: Seq<(Seq<char>, JsonModel)>,
    pub api: ApiModel,
    pub index_backends: Seq<(Seq<char>, JsonModel)>,
    pub consistency: Seq<(Seq<char>, JsonModel)>,
    pub merkaba_gate: Seq<(Seq<char>, JsonModel)>,
    pub workflows: Seq<(Seq<char>, JsonModel)>,
    pub security: Seq<(Seq<char>, JsonModel)>,
    pub observability: Seq<(Seq<char>, JsonModel)>,
    pub config: Seq<(Seq<char>, JsonModel)>,
    pub extras: Seq<(Seq<char>, JsonModel)>,
}

/// Priority lists as sequences.
pub open spec fn priority_views(p: Seq<(String, Vec<String>)>) -> Seq<(Seq<char>, Seq<Seq<char>>)> {
    p.map_values(|e: (String, Vec<String>)| (e.0@, crate::metadata_tree::strings(e.1@)))
}

impl View for Blueprint {
    type V = BlueprintModel;

    open spec fn view(&self) -> BlueprintModel {
        BlueprintModel {
            spec: self.spec@,
            priorities: priority_views(self.priorities@),
            components: self.components@.map_values(|c: Component| c@),
            storage: self.storage@,
            distance: crate::metadata_tree::entry_models(self.distance@),
            schemas: crate::metadata_tree::entry_models(self.schemas@),
            api: self.api@,
            index_backends: crate::metadata_tree::entry_models(self.index_backends@),
            consistency: crate::metadata_tree::entry_models(self.consistency@),
            merkaba_gate: crate::metadata_tree::entry_models(self.merkaba_gate@),
            workflows: crate::metadata_tree::entry_models(self.workflows@),
            security: crate::metadata_tree::entry_models(self.security@),
            observability: crate::metadata_tree::entry_models(self.observability@),
            config: crate::metadata_tree::entry_models(self.config@),
            extras: crate::metadata_tree::entry_models(self.extras@),
        }
    }
}

/// The blueprint described by the top-level entries of its document: the
/// `spec` section read as metadata, the priority lists, the components,
/// storage and API descriptions, each other known section as it is (empty
/// when absent or not an object), and every unknown section as it is.
pub open spec fn blueprint_of(entries: Seq<(Seq<char>, JsonModel)>) -> BlueprintModel {
    BlueprintModel {
        spec: crate::specs::spec_of(json_object(entries, "spec"@)),
        priorities: priority_lists(json_object(entries, "priorities"@)),
        components: components_of(entries),
        storage: storage_of(json_object(entries, "storage"@)),
        distance: json_object(entries, "distance"@),
        schemas: json_object(entries, "schemas"@),
        api: api_of(json_object(entries, "api"@)),
        index_backends: json_object(entries, "index_backends"@),
        consistency: json_object(entries, "consistency"@),
        merkaba_gate: json_object(entries, "merkaba_gate"@),
        workflows: json_object(entries, "workflows"@),
        security: json_object(entries, "security"@),
        observability: json_object(entries, "observability"@),
        config: json_object(entries, "config"@),
        extras: extras_of(entries, blueprint_keys()),
    }
}

fn read_priorities(data: &Vec<(String, JsonValue)>) -> (p: Vec<(String, Vec<String>)>)
    ensures
        priority_views(p@) == priority_lists(json_object(crate::metadata_tree::entry_models(data@), "priorities"@)),
{
    let mut p: Vec<(String, Vec<String>)> = Vec::new();
    match find_entry(data, "priorities") {
        Some(idx) => match &data[idx].1 {
            JsonValue::Object(o) => {
                let ghost models = crate::metadata_tree::entry_models(o@);
                proof {
                    crate::metadata_tree::lemma_entry_models_index(o@);
                }
                let mut i: usize = 0;
                while i < o.len()
                    invariant
                        0 <= i <= o@.len(),
                        models == crate::metadata_tree::entry_models(o@),
                        models.len() == o@.len(),
                        forall|t: int|
                            0 <= t < o@.len() ==> #[trigger] models[t] == (
                                o@[t].0@,
                                crate::metadata_tree::json_model(o@[t].1),
                            ),
                        priority_views(p@) == priority_lists(models.subrange(0, i as int)),
                    decreases o@.len() - i,
                {
                    let texts = match &o[i].1 {
                        JsonValue::List(items) => texts_of(items),
                        _ => {
                            let v: Vec<String> = Vec::new();
                            assert(crate::metadata_tree::strings(v@) =~= Seq::<Seq<char>>::empty());
                            v
                        },
                    };
                    let ghost want = match models[i as int].1 {
                        JsonModel::List(items) => model_texts(items),
                        _ => Seq::<Seq<char>>::empty(),
                    };
                    assert(crate::metadata_tree::strings(texts@) == want);
                    let ghost before = p@;
                    let key = o[i].0.clone();
                    p.push((key, texts));
                    proof {
                        assert(priority_views(p@) =~= priority_views(before).push((o@[i as int].0@, want)));
                        assert(priority_lists(models.subrange(0, i + 1)) =~= priority_lists(models.subrange(0, i as int)).push(
                            (models[i as int].0, want),
                        ));
                    }
                    i = i + 1;
                }
                assert(models.subrange(0, o@.len() as int) =~= models);
            },
            _ => {
                assert(priority_views(p@) =~= Seq::<(Seq<char>, Seq<Seq<char>>)>::empty());
            },
        },
        None => {
            assert(priority_views(p@) =~= Seq::<(Seq<char>, Seq<Seq<char>>)>::empty());
        },
    }
    p
}

fn read_components(data: &Vec<(String, JsonValue)>) -> (c: Vec<Component>)
    ensures
        c@.map_values(|x: Component| x@) == components_of(crate::metadata_tree::entry_models(data@)),
{
    let mut c: Vec<Component> = Vec::new();
    match find_entry(data, "components") {
        Some(idx) => match &data[idx].1 {
            JsonValue::List(items) => {
                let ghost models = crate::metadata_tree::list_models(items@);
                proof {
                    crate::metadata_tree::lemma_list_models_index(items@);
                }
                let mut i: usize = 0;
                while i < items.len()
                    invariant
                        0 <= i <= items@.len(),
                        models == crate::metadata_tree::list_models(items@),
                        models.len() == items@.len(),
                        forall|t: int| 0 <= t < items@.len() ==> #[trigger] models[t] == crate::metadata_tree::json_model(items@[t]),
                        c@.map_values(|x: Component| x@) == object_components(models.subrange(0, i as int)),
                    decreases items@.len() - i,
                {
                    let ghost next = models.subrange(0, i + 1);
                    assert(next.drop_last() =~= models.subrange(0, i as int));
                    assert(next[i as int] == crate::metadata_tree::json_model(items@[i as int]));
                    let ghost before = c@;
                    match &items[i] {
                        JsonValue::Object(o) => {
                            let component = Component::from_dict(o);
                            c.push(component);
                            assert(c@.map_values(|x: Component| x@) =~= before.map_values(|x: Component| x@).push(
                                component_of(crate::metadata_tree::entry_models(o@)),
                            ));
                        },
                        _ => {},
                    }
                    i = i + 1;
                }
                assert(models.subrange(0, items@.len() as int) =~= models);
            },
            _ => {
                assert(c@.map_values(|x: Component| x@) =~= Seq::<ComponentModel>::empty());
            },
        },
        None => {
            assert(c@.map_values(|x: Component| x@) =~= Seq::<ComponentModel>::empty());
        },
    }
    c
}

impl Blueprint {
    /// Reads a blueprint from the top-level entries of its document (see
    /// `blueprint_of`).
    pub fn from_dict(data: &Vec<(String, JsonValue)>) -> (b: Blueprint)
        ensures
            b@ == blueprint_of(crate::metadata_tree::entry_models(data@)),
    {
        let known: Vec<&str> = vec![
            "spec",
            "priorities",
            "components",
            "storage",
            "distance",
            "schemas",
            "api",
            "index_backends",
            "consistency",
            "merkaba_gate",
            "workflows",
            "security",
            "observability",
            "config",
        ];
        assert(known@.map_values(|k: &str| k@) =~= blueprint_keys());
        let spec_fields = object_field(data, "spec");
        let storage_fields = object_field(data, "storage");
        let api_fields = object_field(data, "api");
        Blueprint {
            spec: Spec::from_dict(&spec_fields),
            priorities: read_priorities(data),
            components: read_components(data),
            storage: Storage::from_dict(&storage_fields),
            distance: object_field(data, "distance"),
            schemas: object_field(data, "schemas"),
            api: API::from_dict(&api_fields),
            index_backends: object_field(data, "index_backends"),
            consistency: object_field(data, "consistency"),
            merkaba_gate: object_field(data, "merkaba_gate"),
            workflows: object_field(data, "workflows"),
            security: object_field(data, "security"),
            observability: object_field(data, "observability"),
            config: object_field(data, "config"),
            extras: extra_entries(data, &known),
        }
    }
}

} // verus!
