//! Structural validation of evolution blueprints and the extraction of
//! their `spec` section.
//!
//! A blueprint is a document parsed from YAML or JSON; the rules read only
//! its shape, given here as a `Node` per top-level key.

use vstd::prelude::*;
use crate::blueprint::{text_field, text_list_or_empty};
use crate::metadata_tree::JsonValue;
use crate::text::{push_decimal, text_eq};

verus! {

/// The error type of std's I/O.
#[verifier::external_type_specification]
#[verifier::external_body]
pub struct ExIoError(std::io::Error);

/// The error of `serde_json`.
#[verifier::external_type_specification]
#[verifier::external_body]
pub struct ExJsonError(serde_json::Error);

/// The error of `serde_yaml`.
#[verifier::external_type_specification]
#[verifier::external_body]
pub struct ExYamlError(serde_yaml::Error);

/// Why a blueprint could not be loaded.
pub enum BlueprintValidationError {
    Schema(String),
    FileNotFound(String),
    Io(std::io::Error),
    Json(serde_json::Error),
    Yaml(serde_yaml::Error),
    Other(String),
}

/// An element of a list in a blueprint document.
pub enum Item {
    Text(String),
    Mapping(Vec<String>),
    Other,
}

/// The shape of a value in a blueprint document: a text, a mapping (with
/// its keys), a list, or anything else.
pub enum Node {
    Text(String),
    Mapping(Vec<String>),
    List(Vec<Item>),
    Other,
}

/// The value under `key` among `fields` (the first entry with that key).
pub open spec fn field_lookup(fields: Seq<(String, Node)>, key: Seq<char>) -> Option<Node>
    decreases fields.len(),
{
    if fields.len() == 0 {
        None
    } else if fields[0].0@ == key {
        Some(fields[0].1)
    } else {
        field_lookup(fields.drop_first(), key)
    }
}

/// The keys of a mapping, if the value is one.
pub open spec fn mapping_keys(node: Option<Node>) -> Option<Seq<String>> {
    match node {
        Some(Node::Mapping(keys)) => Some(keys@),
        _ => None,
    }
}

/// Whether `keys` holds `key`.
pub open spec fn has_key(keys: Seq<String>, key: Seq<char>) -> bool {
    exists|i: int| 0 <= i < keys.len() && keys[i]@ == key
}

/// The first of `required` that `keys` lacks.
pub open spec fn first_missing(keys: Seq<String>, required: Seq<Seq<char>>) -> Option<Seq<char>>
    decreases required.len(),
{
    if required.len() == 0 {
        None
    } else if !has_key(keys, required[0]) {
        Some(required[0])
    } else {
        first_missing(keys, required.drop_first())
    }
}

/// The keys of `required` that `fields` lacks, in order.
pub open spec fn missing_fields(fields: Seq<(String, Node)>, required: Seq<Seq<char>>) -> Seq<Seq<char>>
    decreases required.len(),
{
    if required.len() == 0 {
        Seq::empty()
    } else {
        let rest = missing_fields(fields, required.drop_last());
        if field_lookup(fields, required[required.len() - 1]) is None {
            rest.push(required[required.len() - 1])
        } else {
            rest
        }
    }
}

/// The keys of `required` that `keys` lacks, in order.
pub open spec fn missing_keys(keys: Seq<String>, required: Seq<Seq<char>>) -> Seq<Seq<char>>
    decreases required.len(),
{
    if required.len() == 0 {
        Seq::empty()
    } else {
        let rest = missing_keys(keys, required.drop_last());
        if !has_key(keys, required[required.len() - 1]) {
            rest.push(required[required.len() - 1])
        } else {
            rest
        }
    }
}

/// The top-level keys every blueprint has.
pub open spec fn required_top_level() -> Seq<Seq<char>> {
    seq![
        "spec"@,
        "priorities"@,
        "components"@,
        "storage"@,
        "api"@,
        "index_backends"@,
        "consistency"@,
        "merkaba_gate"@,
        "workflows"@,
        "config"@,
    ]
}

/// The error of a section that must be a mapping with the `required` keys:
/// `<name> must be a mapping`, or `<name> missing '<key>'<suffix>` for the
/// first key it lacks.
pub open spec fn section_error(
    fields: Seq<(String, Node)>,
    name: Seq<char>,
    required: Seq<Seq<char>>,
    suffix: Seq<char>,
) -> Option<Seq<char>> {
    match mapping_keys(field_lookup(fields, name)) {
        None => Some(name + " must be a mapping"@),
        Some(keys) => match first_missing(keys, required) {
            Some(k) => Some(name + " missing '"@ + k + "'"@ + suffix),
            None => None,
        },
    }
}

/// The first defect among component entries: one that is not a mapping,
/// or lacks `name` or `type`.
pub open spec fn component_error(items: Seq<Item>) -> Option<Seq<char>>
    decreases items.len(),
{
    if items.len() == 0 {
        None
    } else {
        match component_error(items.drop_last()) {
            Some(m) => Some(m),
            None => {
                let i = (items.len() - 1) as nat;
                let head = "components["@ + crate::text::decimal(i) + "]"@;
                match items[items.len() - 1] {
                    Item::Mapping(keys) => match first_missing(keys@, seq!["name"@, "type"@]) {
                        Some(k) => Some(head + " missing '"@ + k + "'"@),
                        None => None,
                    },
                    _ => Some(head + " must be a mapping"@),
                }
            },
        }
    }
}

/// The error of the `components` section: it must be a list of mappings
/// with `name` and `type`.
pub open spec fn components_error(fields: Seq<(String, Node)>) -> Option<Seq<char>> {
    match field_lookup(fields, "components"@) {
        Some(Node::List(items)) => component_error(items@),
        _ => Some("components must be a list"@),
    }
}

/// The first structural defect of a blueprint, checked in this order: the
/// required top-level keys, `spec`, `priorities`, `components`, `storage`,
/// `api`, `index_backends`, `consistency`, `merkaba_gate`, `workflows` and
/// `config`.
pub open spec fn schema_error(fields: Seq<(String, Node)>) -> Option<Seq<char>> {
    let missing = missing_fields(fields, required_top_level());
    if missing.len() > 0 {
        Some("Missing required top-level keys: "@ + crate::text::join_with(missing, ", "@))
    } else {
        match mapping_keys(field_lookup(fields, "spec"@)) {
            None => Some("spec must be a mapping"@),
            Some(spec_keys) => {
                let spec_missing = missing_keys(spec_keys, seq!["id"@, "title"@, "version"@, "date"@]);
                if spec_missing.len() > 0 {
                    Some("spec missing fields: "@ + crate::text::join_with(spec_missing, ", "@))
                } else {
                    schema_sections_error(fields)
                }
            },
        }
    }
}

/// The checks after `spec` (see `schema_error`).
pub open spec fn schema_sections_error(fields: Seq<(String, Node)>) -> Option<Seq<char>> {
    let priorities = section_error(fields, "priorities"@, seq!["must"@, "should"@, "could"@], " list"@);
    if priorities is Some {
        priorities
    } else if components_error(fields) is Some {
        components_error(fields)
    } else if section_error(fields, "storage"@, seq!["fs_root"@, "s3"@, "layout"@], Seq::empty()) is Some {
        section_error(fields, "storage"@, seq!["fs_root"@, "s3"@, "layout"@], Seq::empty())
    } else if section_error(fields, "api"@, seq!["rest"@, "grpc"@], Seq::empty()) is Some {
        section_error(fields, "api"@, seq!["rest"@, "grpc"@], Seq::empty())
    } else if section_error(fields, "index_backends"@, seq!["hnsw"@, "faiss"@], Seq::empty()) is Some {
        section_error(fields, "index_backends"@, seq!["hnsw"@, "faiss"@], Seq::empty())
    } else if mapping_keys(field_lookup(fields, "consistency"@)) is None {
        Some("consistency must be a mapping"@)
    } else if section_error(fields, "merkaba_gate"@, seq!["graph"@, "on_fail"@], Seq::empty()) is Some {
        section_error(fields, "merkaba_gate"@, seq!["graph"@, "on_fail"@], Seq::empty())
    } else if section_error(fields, "workflows"@, seq!["upsert"@, "query"@, "rebuild"@], Seq::empty()) is Some {
        section_error(fields, "workflows"@, seq!["upsert"@, "query"@, "rebuild"@], Seq::empty())
    } else {
        section_error(fields, "config"@, seq!["env"@], Seq::empty())
    }
}

/// `keys` holds every key of `required`.
pub open spec fn has_keys(keys: Seq<String>, required: Seq<Seq<char>>) -> bool {
    forall|r: int| 0 <= r < required.len() ==> has_key(keys, #[trigger] required[r])
}

/// The value under `name` is a mapping holding every key of `required`.
pub open spec fn mapping_with(fields: Seq<(String, Node)>, name: Seq<char>, required: Seq<Seq<char>>) -> bool {
    match mapping_keys(field_lookup(fields, name)) {
        Some(keys) => has_keys(keys, required),
        None => false,
    }
}

/// A component entry is a mapping with `name` and `type`.
pub open spec fn component_ok(item: Item) -> bool {
    match item {
        Item::Mapping(keys) => has_keys(keys@, seq!["name"@, "type"@]),
        _ => false,
    }
}

/// The shape a blueprint must have: every required top-level key; `spec`
/// a mapping with id, title, version and date; `priorities` with must,
/// should and could; `components` a list of mappings with name and type;
/// `storage` with fs_root, s3 and layout; `api` with rest and grpc;
/// `index_backends` with hnsw and faiss; `consistency` a mapping;
/// `merkaba_gate` with graph and on_fail; `workflows` with upsert, query
/// and rebuild; `config` with env.
pub open spec fn blueprint_shape_ok(fields: Seq<(String, Node)>) -> bool {
    &&& forall|r: int| 0 <= r < required_top_level().len() ==> field_lookup(fields, #[trigger] required_top_level()[r]) is Some
    &&& mapping_with(fields, "spec"@, seq!["id"@, "title"@, "version"@, "date"@])
    &&& mapping_with(fields, "priorities"@, seq!["must"@, "should"@, "could"@])
    &&& match field_lookup(fields, "components"@) {
        Some(Node::List(items)) => forall|i: int| 0 <= i < items@.len() ==> component_ok(#[trigger] items@[i]),
        _ => false,
    }
    &&& mapping_with(fields, "storage"@, seq!["fs_root"@, "s3"@, "layout"@])
    &&& mapping_with(fields, "api"@, seq!["rest"@, "grpc"@])
    &&& mapping_with(fields, "index_backends"@, seq!["hnsw"@, "faiss"@])
    &&& mapping_keys(field_lookup(fields, "consistency"@)) is Some
    &&& mapping_with(fields, "merkaba_gate"@, seq!["graph"@, "on_fail"@])
    &&& mapping_with(fields, "workflows"@, seq!["upsert"@, "query"@, "rebuild"@])
    &&& mapping_with(fields, "config"@, seq!["env"@])
}

proof fn lemma_missing_fields_empty(fields: Seq<(String, Node)>, required: Seq<Seq<char>>)
    ensures
        missing_fields(fields, required).len() == 0 <==> forall|r: int|
            0 <= r < required.len() ==> field_lookup(fields, #[trigger] required[r]) is Some,
    decreases required.len(),
{
    if required.len() > 0 {
        let init = required.drop_last();
        let last = required[required.len() - 1];
        lemma_missing_fields_empty(fields, init);
        if forall|r: int| 0 <= r < required.len() ==> field_lookup(fields, #[trigger] required[r]) is Some {
            assert forall|r: int| 0 <= r < init.len() implies field_lookup(fields, #[trigger] init[r]) is Some by {
                assert(init[r] == required[r]);
            }
            assert(field_lookup(fields, required[required.len() - 1]) is Some);
        }
        if missing_fields(fields, required).len() == 0 {
            assert(field_lookup(fields, last) is Some);
            assert(missing_fields(fields, init).len() == 0);
            assert forall|r: int| 0 <= r < required.len() implies field_lookup(fields, #[trigger] required[r]) is Some by {
                if r < init.len() {
                    assert(init[r] == required[r]);
                    assert(field_lookup(fields, init[r]) is Some);
                }
            }
        }
    }
}

proof fn lemma_missing_keys_empty(keys: Seq<String>, required: Seq<Seq<char>>)
    ensures
        missing_keys(keys, required).len() == 0 <==> has_keys(keys, required),
    decreases required.len(),
{
    if required.len() > 0 {
        let init = required.drop_last();
        let last = required[required.len() - 1];
        lemma_missing_keys_empty(keys, init);
        if has_keys(keys, required) {
            assert(has_key(keys, last));
            assert forall|r: int| 0 <= r < init.len() implies has_key(keys, #[trigger] init[r]) by {
                assert(init[r] == required[r]);
            }
        }
        if missing_keys(keys, required).len() == 0 {
            assert(has_key(keys, last));
            assert(missing_keys(keys, init).len() == 0);
            assert forall|r: int| 0 <= r < required.len() implies has_key(keys, #[trigger] required[r]) by {
                if r < init.len() {
                    assert(init[r] == required[r]);
                    assert(has_key(keys, init[r]));
                }
            }
        }
    }
}

proof fn lemma_first_missing_none(keys: Seq<String>, required: Seq<Seq<char>>)
    ensures
        first_missing(keys, required) is None <==> has_keys(keys, required),
    decreases required.len(),
{
    if required.len() > 0 {
        let rest = required.drop_first();
        lemma_first_missing_none(keys, rest);
        assert forall|r: int| 0 <= r < rest.len() implies #[trigger] rest[r] == required[r + 1] by {}
        if has_keys(keys, required) {
            assert(has_key(keys, required[0]));
            assert forall|r: int| 0 <= r < rest.len() implies has_key(keys, #[trigger] rest[r]) by {
                assert(has_key(keys, required[r + 1]));
            }
        }
        if has_key(keys, required[0]) && has_keys(keys, rest) {
            assert forall|r: int| 0 <= r < required.len() implies has_key(keys, #[trigger] required[r]) by {
                if r > 0 {
                    assert(has_key(keys, rest[r - 1]));
                }
            }
        }
    }
}

proof fn lemma_section_ok(fields: Seq<(String, Node)>, name: Seq<char>, required: Seq<Seq<char>>, suffix: Seq<char>)
    ensures
        section_error(fields, name, required, suffix) is None <==> mapping_with(fields, name, required),
{
    match mapping_keys(field_lookup(fields, name)) {
        Some(keys) => lemma_first_missing_none(keys, required),
        None => {},
    }
}

proof fn lemma_component_ok(item: Item)
    ensures
        component_ok(item) <==> (item matches Item::Mapping(keys) && first_missing(keys@, seq!["name"@, "type"@]) is None),
{
    match item {
        Item::Mapping(keys) => lemma_first_missing_none(keys@, seq!["name"@, "type"@]),
        _ => {},
    }
}

proof fn lemma_component_error_none(items: Seq<Item>)
    ensures
        component_error(items) is None <==> forall|i: int| 0 <= i < items.len() ==> component_ok(#[trigger] items[i]),
    decreases items.len(),
{
    if items.len() > 0 {
        let init = items.drop_last();
        lemma_component_error_none(init);
        lemma_component_ok(items[items.len() - 1]);
        if forall|i: int| 0 <= i < items.len() ==> component_ok(#[trigger] items[i]) {
            assert(component_ok(items[items.len() - 1]));
            assert forall|i: int| 0 <= i < init.len() implies component_ok(#[trigger] init[i]) by {
                assert(init[i] == items[i]);
            }
        }
        if component_error(items) is None {
            assert(component_error(init) is None);
            assert forall|i: int| 0 <= i < items.len() implies component_ok(#[trigger] items[i]) by {
                if i < init.len() {
                    assert(init[i] == items[i]);
                    assert(component_ok(init[i]));
                }
            }
        }
    }
}

/// Law: a blueprint passes `validate_schema` exactly when it has the
/// required shape (`blueprint_shape_ok`).
pub proof fn lemma_schema_valid_iff_shape(fields: Seq<(String, Node)>)
    ensures
        schema_error(fields) is None <==> blueprint_shape_ok(fields),
{
    lemma_missing_fields_empty(fields, required_top_level());
    match mapping_keys(field_lookup(fields, "spec"@)) {
        Some(keys) => lemma_missing_keys_empty(keys, seq!["id"@, "title"@, "version"@, "date"@]),
        None => {},
    }
    lemma_section_ok(fields, "priorities"@, seq!["must"@, "should"@, "could"@], " list"@);
    lemma_section_ok(fields, "storage"@, seq!["fs_root"@, "s3"@, "layout"@], Seq::empty());
    lemma_section_ok(fields, "api"@, seq!["rest"@, "grpc"@], Seq::empty());
    lemma_section_ok(fields, "index_backends"@, seq!["hnsw"@, "faiss"@], Seq::empty());
    lemma_section_ok(fields, "merkaba_gate"@, seq!["graph"@, "on_fail"@], Seq::empty());
    lemma_section_ok(fields, "workflows"@, seq!["upsert"@, "query"@, "rebuild"@], Seq::empty());
    lemma_section_ok(fields, "config"@, seq!["env"@], Seq::empty());
    match field_lookup(fields, "components"@) {
        Some(Node::List(items)) => lemma_component_error_none(items@),
        _ => {},
    }
}

} // verus!

verus! {

/// Texts as character sequences.
pub open spec fn strs_view(v: Seq<&str>) -> Seq<Seq<char>> {
    v.map_values(|s: &str| s@)
}

/// The position of the first entry with key `key`.
fn lookup_field(fields: &Vec<(String, Node)>, key: &str) -> (r: Option<usize>)
    ensures
        match r {
            Some(i) => i < fields@.len() && field_lookup(fields@, key@) == Some(fields@[i as int].1),
            None => field_lookup(fields@, key@) is None,
        },
{
    let mut i: usize = 0;
    assert(fields@.subrange(0, fields@.len() as int) =~= fields@);
    while i < fields.len()
        invariant
            0 <= i <= fields@.len(),
            field_lookup(fields@, key@) == field_lookup(fields@.subrange(i as int, fields@.len() as int), key@),
        decreases fields@.len() - i,
    {
        let ghost rest = fields@.subrange(i as int, fields@.len() as int);
        assert(rest.drop_first() =~= fields@.subrange(i + 1, fields@.len() as int));
        assert(rest[0] == fields@[i as int]);
        if text_eq(fields[i].0.as_str(), key) {
            return Some(i);
        }
        i = i + 1;
    }
    None
}

/// Whether `keys` holds `key`.
fn holds_key(keys: &Vec<String>, key: &str) -> (found: bool)
    ensures
        found == has_key(keys@, key@),
{
    let mut i: usize = 0;
    while i < keys.len()
        invariant
            0 <= i <= keys@.len(),
            forall|t: int| 0 <= t < i ==> #[trigger] keys@[t]@ != key@,
        decreases keys@.len() - i,
    {
        if text_eq(keys[i].as_str(), key) {
            return true;
        }
        i = i + 1;
    }
    false
}

/// The first of `required` that `keys` lacks.
fn first_missing_key<'a>(keys: &Vec<String>, required: &Vec<&'a str>) -> (r: Option<&'a str>)
    ensures
        match r {
            Some(k) => first_missing(keys@, strs_view(required@)) == Some(k@),
            None => first_missing(keys@, strs_view(required@)) is None,
        },
{
    let ghost rv = strs_view(required@);
    let mut i: usize = 0;
    assert(rv.subrange(0, rv.len() as int) =~= rv);
    while i < required.len()
        invariant
            0 <= i <= required@.len(),
            rv == strs_view(required@),
            first_missing(keys@, rv) == first_missing(keys@, rv.subrange(i as int, rv.len() as int)),
        decreases required@.len() - i,
    {
        let ghost rest = rv.subrange(i as int, rv.len() as int);
        assert(rest.drop_first() =~= rv.subrange(i + 1, rv.len() as int));
        assert(rest[0] == required@[i as int]@);
        if !holds_key(keys, required[i]) {
            return Some(required[i]);
        }
        i = i + 1;
    }
    assert(rv.subrange(i as int, rv.len() as int) =~= Seq::<Seq<char>>::empty());
    None
}

/// `parts` joined with ", ".
fn join_comma(parts: &Vec<&str>) -> (s: String)
    ensures
        s@ == crate::text::join_with(strs_view(parts@), ", "@),
{
    let ghost pv = strs_view(parts@);
    let mut s = String::new();
    let mut i: usize = 0;
    while i < parts.len()
        invariant
            0 <= i <= parts@.len(),
            pv == strs_view(parts@),
            s@ == crate::text::join_with(pv.subrange(0, i as int), ", "@),
        decreases parts@.len() - i,
    {
        let ghost next = pv.subrange(0, i + 1);
        assert(next.drop_last() =~= pv.subrange(0, i as int));
        assert(next[next.len() - 1] == parts@[i as int]@);
        if i > 0 {
            s.append(", ");
        } else {
            assert(pv.subrange(0, 0) =~= Seq::<Seq<char>>::empty());
        }
        s.append(parts[i]);
        i = i + 1;
    }
    assert(pv.subrange(0, pv.len() as int) =~= pv);
    s
}

/// A schema error with message `m`.
fn schema_failure(m: String) -> (e: BlueprintValidationError)
    ensures
        e matches BlueprintValidationError::Schema(s) && s@ == m@,
{
    BlueprintValidationError::Schema(m)
}

/// Checks a section that must be a mapping with the `required` keys (see
/// `section_error`).
fn check_section(fields: &Vec<(String, Node)>, name: &str, required: &Vec<&str>, suffix: &str) -> (r: Result<(), BlueprintValidationError>)
    ensures
        match section_error(fields@, name@, strs_view(required@), suffix@) {
            None => r is Ok,
            Some(m) => r matches Err(BlueprintValidationError::Schema(s)) && s@ == m,
        },
{
    let found = lookup_field(fields, name);
    match found {
        Some(i) => match &fields[i].1 {
            Node::Mapping(keys) => match first_missing_key(keys, required) {
                Some(k) => {
                    let mut m = String::from_str(name);
                    m.append(" missing '");
                    m.append(k);
                    m.append("'");
                    m.append(suffix);
                    Err(schema_failure(m))
                },
                None => Ok(()),
            },
            _ => {
                let mut m = String::from_str(name);
                m.append(" must be a mapping");
                Err(schema_failure(m))
            },
        },
        None => {
            let mut m = String::from_str(name);
            m.append(" must be a mapping");
            Err(schema_failure(m))
        },
    }
}

} // verus!

verus! {

/// The keys of `required` that `fields` lacks, in order.
fn missing_field_names<'a>(fields: &Vec<(String, Node)>, required: &Vec<&'a str>) -> (missing: Vec<&'a str>)
    ensures
        strs_view(missing@) == missing_fields(fields@, strs_view(required@)),
{
    let ghost rv = strs_view(required@);
    let mut missing: Vec<&'a str> = Vec::new();
    let mut i: usize = 0;
    while i < required.len()
        invariant
            0 <= i <= required@.len(),
            rv == strs_view(required@),
            strs_view(missing@) == missing_fields(fields@, rv.subrange(0, i as int)),
        decreases required@.len() - i,
    {
        let ghost next = rv.subrange(0, i + 1);
        assert(next.drop_last() =~= rv.subrange(0, i as int));
        assert(next[next.len() - 1] == required@[i as int]@);
        let ghost before = missing@;
        if lookup_field(fields, required[i]).is_none() {
            missing.push(required[i]);
            assert(strs_view(missing@) =~= strs_view(before).push(required@[i as int]@));
        }
        i = i + 1;
    }
    assert(rv.subrange(0, rv.len() as int) =~= rv);
    missing
}

/// The keys of `required` that `keys` lacks, in order.
fn missing_key_names<'a>(keys: &Vec<String>, required: &Vec<&'a str>) -> (missing: Vec<&'a str>)
    ensures
        strs_view(missing@) == missing_keys(keys@, strs_view(required@)),
{
    let ghost rv = strs_view(required@);
    let mut missing: Vec<&'a str> = Vec::new();
    let mut i: usize = 0;
    while i < required.len()
        invariant
            0 <= i <= required@.len(),
            rv == strs_view(required@),
            strs_view(missing@) == missing_keys(keys@, rv.subrange(0, i as int)),
        decreases required@.len() - i,
    {
        let ghost next = rv.subrange(0, i + 1);
        assert(next.drop_last() =~= rv.subrange(0, i as int));
        assert(next[next.len() - 1] == required@[i as int]@);
        let ghost before = missing@;
        if !holds_key(keys, required[i]) {
            missing.push(required[i]);
            assert(strs_view(missing@) =~= strs_view(before).push(required@[i as int]@));
        }
        i = i + 1;
    }
    assert(rv.subrange(0, rv.len() as int) =~= rv);
    missing
}

/// Checks the component entries (see `component_error`).
fn check_component_items(items: &Vec<Item>) -> (r: Result<(), BlueprintValidationError>)
    ensures
        match component_error(items@) {
            None => r is Ok,
            Some(m) => r matches Err(BlueprintValidationError::Schema(s)) && s@ == m,
        },
{
    let required: Vec<&str> = vec!["name", "type"];
    assert(strs_view(required@) =~= seq!["name"@, "type"@]);
    let mut i: usize = 0;
    while i < items.len()
        invariant
            0 <= i <= items@.len(),
            strs_view(required@) == seq!["name"@, "type"@],
            component_error(items@.subrange(0, i as int)) is None,
        decreases items@.len() - i,
    {
        let ghost next = items@.subrange(0, i + 1);
        proof {
            assert(next.drop_last() =~= items@.subrange(0, i as int));
            assert(next[next.len() - 1] == items@[i as int]);
        }
        let mut head = String::from_str("components[");
        push_decimal(&mut head, i as u64);
        head.append("]");
        match &items[i] {
            Item::Mapping(keys) => {
                if let Some(k) = first_missing_key(keys, &required) {
                    proof {
                        lemma_component_error_prefix(items@, i + 1);
                    }
                    head.append(" missing '");
                    head.append(k);
                    head.append("'");
                    return Err(schema_failure(head));
                }
            },
            _ => {
                proof {
                    lemma_component_error_prefix(items@, i + 1);
                }
                head.append(" must be a mapping");
                return Err(schema_failure(head));
            },
        }
        i = i + 1;
    }
    assert(items@.subrange(0, items@.len() as int) =~= items@);
    Ok(())
}

proof fn lemma_component_error_prefix(s: Seq<Item>, k: int)
    requires
        0 <= k <= s.len(),
        component_error(s.subrange(0, k)) is Some,
    ensures
        component_error(s) == component_error(s.subrange(0, k)),
    decreases s.len() - k,
{
    if k < s.len() {
        let t = s.subrange(0, k + 1);
        assert(t.drop_last() =~= s.subrange(0, k));
        lemma_component_error_prefix(s, k + 1);
    } else {
        assert(s.subrange(0, k) =~= s);
    }
}

/// Checks the `components` section (see `components_error`).
fn check_components(fields: &Vec<(String, Node)>) -> (r: Result<(), BlueprintValidationError>)
    ensures
        match components_error(fields@) {
            None => r is Ok,
            Some(m) => r matches Err(BlueprintValidationError::Schema(s)) && s@ == m,
        },
{
    match lookup_field(fields, "components") {
        Some(i) => match &fields[i].1 {
            Node::List(items) => check_component_items(items),
            _ => Err(schema_failure(String::from_str("components must be a list"))),
        },
        None => Err(schema_failure(String::from_str("components must be a list"))),
    }
}

/// The top-level keys every blueprint has, in the order they are checked.
pub fn required_top_level_keys() -> (keys: Vec<&'static str>)
    ensures
        strs_view(keys@) == required_top_level(),
{
    let keys = vec![
        "spec",
        "priorities",
        "components",
        "storage",
        "api",
        "index_backends",
        "consistency",
        "merkaba_gate",
        "workflows",
        "config",
    ];
    assert(strs_view(keys@) =~= required_top_level());
    keys
}

/// Checks the sections after `spec` (see `schema_sections_error`).
fn check_sections(fields: &Vec<(String, Node)>) -> (r: Result<(), BlueprintValidationError>)
    ensures
        match schema_sections_error(fields@) {
            None => r is Ok,
            Some(m) => r matches Err(BlueprintValidationError::Schema(s)) && s@ == m,
        },
{
    let priorities: Vec<&str> = vec!["must", "should", "could"];
    assert(strs_view(priorities@) =~= seq!["must"@, "should"@, "could"@]);
    check_section(fields, "priorities", &priorities, " list")?;
    check_components(fields)?;
    let storage: Vec<&str> = vec!["fs_root", "s3", "layout"];
    assert(strs_view(storage@) =~= seq!["fs_root"@, "s3"@, "layout"@]);
    proof {
        reveal_strlit("");
    }
    assert(""@ =~= Seq::<char>::empty());
    check_section(fields, "storage", &storage, "")?;
    let api: Vec<&str> = vec!["rest", "grpc"];
    assert(strs_view(api@) =~= seq!["rest"@, "grpc"@]);
    check_section(fields, "api", &api, "")?;
    let backends: Vec<&str> = vec!["hnsw", "faiss"];
    assert(strs_view(backends@) =~= seq!["hnsw"@, "faiss"@]);
    check_section(fields, "index_backends", &backends, "")?;
    match lookup_field(fields, "consistency") {
        Some(i) => match &fields[i].1 {
            Node::Mapping(_) => {},
            _ => {
                return Err(schema_failure(String::from_str("consistency must be a mapping")));
            },
        },
        None => {
            return Err(schema_failure(String::from_str("consistency must be a mapping")));
        },
    }
    let gate: Vec<&str> = vec!["graph", "on_fail"];
    assert(strs_view(gate@) =~= seq!["graph"@, "on_fail"@]);
    check_section(fields, "merkaba_gate", &gate, "")?;
    let workflows: Vec<&str> = vec!["upsert", "query", "rebuild"];
    assert(strs_view(workflows@) =~= seq!["upsert"@, "query"@, "rebuild"@]);
    check_section(fields, "workflows", &workflows, "")?;
    let config: Vec<&str> = vec!["env"];
    assert(strs_view(config@) =~= seq!["env"@]);
    check_section(fields, "config", &config, "")
}

/// Validates the structure of a blueprint (the value under each top-level
/// key); the error names the first defect (see `schema_error`).
pub fn validate_schema(fields: &Vec<(String, Node)>) -> (r: Result<(), BlueprintValidationError>)
    ensures
        match schema_error(fields@) {
            None => r is Ok,
            Some(m) => r matches Err(BlueprintValidationError::Schema(s)) && s@ == m,
        },
{
    let required = required_top_level_keys();
    let missing = missing_field_names(fields, &required);
    if missing.len() > 0 {
        let mut m = String::from_str("Missing required top-level keys: ");
        let joined = join_comma(&missing);
        m.append(joined.as_str());
        return Err(schema_failure(m));
    }
    match lookup_field(fields, "spec") {
        Some(i) => match &fields[i].1 {
            Node::Mapping(keys) => {
                let spec_required: Vec<&str> = vec!["id", "title", "version", "date"];
                assert(strs_view(spec_required@) =~= seq!["id"@, "title"@, "version"@, "date"@]);
                let spec_missing = missing_key_names(keys, &spec_required);
                if spec_missing.len() > 0 {
                    let mut m = String::from_str("spec missing fields: ");
                    let joined = join_comma(&spec_missing);
                    m.append(joined.as_str());
                    return Err(schema_failure(m));
                }
            },
            _ => {
                return Err(schema_failure(String::from_str("spec must be a mapping")));
            },
        },
        None => {
            return Err(schema_failure(String::from_str("spec must be a mapping")));
        },
    }
    check_sections(fields)
}

} // verus!

verus! {

/// Metadata describing a blueprint.
pub struct Spec {
    pub id: String,
    pub title: String,
    pub version: String,
    pub date: String,
    pub owners: Vec<String>,
    pub goals: Vec<String>,
}

/// The model of a blueprint's metadata.
pub struct SpecModel {
    pub id: Seq<char>,
    pub title: Seq<char>,
    pub version: Seq<char>,
    pub date: Seq<char>,
    pub owners: Seq<Seq<char>>,
    pub goals: Seq<Seq<char>>,
}

impl View for Spec {
    type V = SpecModel;

    open spec fn view(&self) -> SpecModel {
        SpecModel {
            id: self.id@,
            title: self.title@,
            version: self.version@,
            date: self.date@,
            owners: crate::metadata_tree::strings(self.owners@),
            goals: crate::metadata_tree::strings(self.goals@),
        }
    }
}

/// The metadata read from the entries of a `spec` section.
pub open spec fn spec_of(fields: Seq<(Seq<char>, crate::metadata_tree::JsonModel)>) -> SpecModel {
    SpecModel {
        id: crate::blueprint::json_text(fields, "id"@),
        title: crate::blueprint::json_text(fields, "title"@),
        version: crate::blueprint::json_text(fields, "version"@),
        date: crate::blueprint::json_text(fields, "date"@),
        owners: crate::blueprint::json_text_list_or_empty(fields, "owners"@),
        goals: crate::blueprint::json_text_list_or_empty(fields, "goals"@),
    }
}

impl Spec {
    /// Reads the `spec` section: each text field, or the empty text when it
    /// is absent or not a text; `owners` and `goals` keep the texts of their
    /// lists (none when absent or not a list).
    pub fn from_dict(fields: &Vec<(String, JsonValue)>) -> (spec: Spec)
        ensures
            spec@ == spec_of(crate::metadata_tree::entry_models(fields@)),
            spec.id@ == crate::blueprint::json_text(crate::metadata_tree::entry_models(fields@), "id"@),
            spec.title@ == crate::blueprint::json_text(crate::metadata_tree::entry_models(fields@), "title"@),
            spec.version@ == crate::blueprint::json_text(crate::metadata_tree::entry_models(fields@), "version"@),
            spec.date@ == crate::blueprint::json_text(crate::metadata_tree::entry_models(fields@), "date"@),
            crate::metadata_tree::strings(spec.owners@) == crate::blueprint::json_text_list_or_empty(crate::metadata_tree::entry_models(fields@), "owners"@),
            crate::metadata_tree::strings(spec.goals@) == crate::blueprint::json_text_list_or_empty(crate::metadata_tree::entry_models(fields@), "goals"@),
    {
        Spec {
            id: text_field(fields, "id"),
            title: text_field(fields, "title"),
            version: text_field(fields, "version"),
            date: text_field(fields, "date"),
            owners: text_list_or_empty(fields, "owners"),
            goals: text_list_or_empty(fields, "goals"),
        }
    }
}


/// Law: a blueprint passes validation exactly when `spec` is a mapping with
/// id, title, version and date; `priorities` one with must, should and
/// could; `components` a list of mappings each with name and type;
/// `storage` a mapping with fs_root, s3 and layout; `api` with rest and
/// grpc; `index_backends` with hnsw and faiss; `consistency` a mapping;
/// `merkaba_gate` with graph and on_fail; `workflows` with upsert, query and
/// rebuild; and `config` with env (every key list written out here).
pub proof fn lemma_schema_valid_sections(fields: Seq<(String, Node)>)
    ensures
        schema_error(fields) is None <==> ((mapping_keys(field_lookup(fields, "spec"@)) is Some && has_key(mapping_keys(field_lookup(fields, "spec"@))->0, "id"@) && has_key(mapping_keys(field_lookup(fields, "spec"@))->0, "title"@) && has_key(mapping_keys(field_lookup(fields, "spec"@))->0, "version"@) && has_key(mapping_keys(field_lookup(fields, "spec"@))->0, "date"@))
            && (mapping_keys(field_lookup(fields, "priorities"@)) is Some && has_key(mapping_keys(field_lookup(fields, "priorities"@))->0, "must"@) && has_key(mapping_keys(field_lookup(fields, "priorities"@))->0, "should"@) && has_key(mapping_keys(field_lookup(fields, "priorities"@))->0, "could"@))
            && (field_lookup(fields, "components"@) is Some && field_lookup(fields, "components"@)->0 is List && forall|i: int|
                0 <= i < field_lookup(fields, "components"@)->0->List_0@.len() ==> (#[trigger] field_lookup(fields, "components"@)->0->List_0@[i]) is Mapping
                    && has_key(field_lookup(fields, "components"@)->0->List_0@[i]->Mapping_0@, "name"@) && has_key(
                    field_lookup(fields, "components"@)->0->List_0@[i]->Mapping_0@,
                    "type"@,
                ))
            && (mapping_keys(field_lookup(fields, "storage"@)) is Some && has_key(mapping_keys(field_lookup(fields, "storage"@))->0, "fs_root"@) && has_key(mapping_keys(field_lookup(fields, "storage"@))->0, "s3"@) && has_key(mapping_keys(field_lookup(fields, "storage"@))->0, "layout"@))
            && (mapping_keys(field_lookup(fields, "api"@)) is Some && has_key(mapping_keys(field_lookup(fields, "api"@))->0, "rest"@) && has_key(mapping_keys(field_lookup(fields, "api"@))->0, "grpc"@))
            && (mapping_keys(field_lookup(fields, "index_backends"@)) is Some && has_key(mapping_keys(field_lookup(fields, "index_backends"@))->0, "hnsw"@) && has_key(mapping_keys(field_lookup(fields, "index_backends"@))->0, "faiss"@))
            && (mapping_keys(field_lookup(fields, "consistency"@)) is Some)
            && (mapping_keys(field_lookup(fields, "merkaba_gate"@)) is Some && has_key(mapping_keys(field_lookup(fields, "merkaba_gate"@))->0, "graph"@) && has_key(mapping_keys(field_lookup(fields, "merkaba_gate"@))->0, "on_fail"@))
            && (mapping_keys(field_lookup(fields, "workflows"@)) is Some && has_key(mapping_keys(field_lookup(fields, "workflows"@))->0, "upsert"@) && has_key(mapping_keys(field_lookup(fields, "workflows"@))->0, "query"@) && has_key(mapping_keys(field_lookup(fields, "workflows"@))->0, "rebuild"@))
            && (mapping_keys(field_lookup(fields, "config"@)) is Some && has_key(mapping_keys(field_lookup(fields, "config"@))->0, "env"@))),
{
    lemma_schema_valid_iff_shape(fields);
    assert(blueprint_shape_ok(fields) ==> forall|r: int|
        0 <= r < required_top_level().len() ==> field_lookup(fields, #[trigger] required_top_level()[r]) is Some);
    if mapping_keys(field_lookup(fields, "spec"@)) is Some {
        let keys = mapping_keys(field_lookup(fields, "spec"@))->0;
        assert(has_keys(keys, seq!["id"@, "title"@, "version"@, "date"@]) <==> (has_key(keys, "id"@) && has_key(keys, "title"@) && has_key(keys, "version"@) && has_key(keys, "date"@))) by {
            let req = seq!["id"@, "title"@, "version"@, "date"@];
            assert(req[0] == "id"@);
            assert(req[1] == "title"@);
            assert(req[2] == "version"@);
            assert(req[3] == "date"@);
        }
    }
    if mapping_keys(field_lookup(fields, "priorities"@)) is Some {
        let keys = mapping_keys(field_lookup(fields, "priorities"@))->0;
        assert(has_keys(keys, seq!["must"@, "should"@, "could"@]) <==> (has_key(keys, "must"@) && has_key(keys, "should"@) && has_key(keys, "could"@))) by {
            let req = seq!["must"@, "should"@, "could"@];
            assert(req[0] == "must"@);
            assert(req[1] == "should"@);
            assert(req[2] == "could"@);
        }
    }
    if mapping_keys(field_lookup(fields, "storage"@)) is Some {
        let keys = mapping_keys(field_lookup(fields, "storage"@))->0;
        assert(has_keys(keys, seq!["fs_root"@, "s3"@, "layout"@]) <==> (has_key(keys, "fs_root"@) && has_key(keys, "s3"@) && has_key(keys, "layout"@))) by {
            let req = seq!["fs_root"@, "s3"@, "layout"@];
            assert(req[0] == "fs_root"@);
            assert(req[1] == "s3"@);
            assert(req[2] == "layout"@);
        }
    }
    if mapping_keys(field_lookup(fields, "api"@)) is Some {
        let keys = mapping_keys(field_lookup(fields, "api"@))->0;
        assert(has_keys(keys, seq!["rest"@, "grpc"@]) <==> (has_key(keys, "rest"@) && has_key(keys, "grpc"@))) by {
            let req = seq!["rest"@, "grpc"@];
            assert(req[0] == "rest"@);
            assert(req[1] == "grpc"@);
        }
    }
    if mapping_keys(field_lookup(fields, "index_backends"@)) is Some {
        let keys = mapping_keys(field_lookup(fields, "index_backends"@))->0;
        assert(has_keys(keys, seq!["hnsw"@, "faiss"@]) <==> (has_key(keys, "hnsw"@) && has_key(keys, "faiss"@))) by {
            let req = seq!["hnsw"@, "faiss"@];
            assert(req[0] == "hnsw"@);
            assert(req[1] == "faiss"@);
        }
    }
    if mapping_keys(field_lookup(fields, "merkaba_gate"@)) is Some {
        let keys = mapping_keys(field_lookup(fields, "merkaba_gate"@))->0;
        assert(has_keys(keys, seq!["graph"@, "on_fail"@]) <==> (has_key(keys, "graph"@) && has_key(keys, "on_fail"@))) by {
            let req = seq!["graph"@, "on_fail"@];
            assert(req[0] == "graph"@);
            assert(req[1] == "on_fail"@);
        }
    }
    if mapping_keys(field_lookup(fields, "workflows"@)) is Some {
        let keys = mapping_keys(field_lookup(fields, "workflows"@))->0;
        assert(has_keys(keys, seq!["upsert"@, "query"@, "rebuild"@]) <==> (has_key(keys, "upsert"@) && has_key(keys, "query"@) && has_key(keys, "rebuild"@))) by {
            let req = seq!["upsert"@, "query"@, "rebuild"@];
            assert(req[0] == "upsert"@);
            assert(req[1] == "query"@);
            assert(req[2] == "rebuild"@);
        }
    }
    if mapping_keys(field_lookup(fields, "config"@)) is Some {
        let keys = mapping_keys(field_lookup(fields, "config"@))->0;
        assert(has_keys(keys, seq!["env"@]) <==> (has_key(keys, "env"@))) by {
            let req = seq!["env"@];
            assert(req[0] == "env"@);
        }
    }
    match field_lookup(fields, "components"@) {
        Some(Node::List(items)) => {
            assert forall|i: int| 0 <= i < items@.len() implies (component_ok(#[trigger] items@[i]) <==> (items@[i] is Mapping
                && has_key(items@[i]->Mapping_0@, "name"@) && has_key(items@[i]->Mapping_0@, "type"@))) by {
                let req = seq!["name"@, "type"@];
                assert(req[0] == "name"@);
                assert(req[1] == "type"@);
            }
        },
        _ => {},
    }
    if ((mapping_keys(field_lookup(fields, "spec"@)) is Some && has_key(mapping_keys(field_lookup(fields, "spec"@))->0, "id"@) && has_key(mapping_keys(field_lookup(fields, "spec"@))->0, "title"@) && has_key(mapping_keys(field_lookup(fields, "spec"@))->0, "version"@) && has_key(mapping_keys(field_lookup(fields, "spec"@))->0, "date"@))
        && (mapping_keys(field_lookup(fields, "priorities"@)) is Some && has_key(mapping_keys(field_lookup(fields, "priorities"@))->0, "must"@) && has_key(mapping_keys(field_lookup(fields, "priorities"@))->0, "should"@) && has_key(mapping_keys(field_lookup(fields, "priorities"@))->0, "could"@))
        && (field_lookup(fields, "components"@) is Some && field_lookup(fields, "components"@)->0 is List && forall|i: int|
                0 <= i < field_lookup(fields, "components"@)->0->List_0@.len() ==> (#[trigger] field_lookup(fields, "components"@)->0->List_0@[i]) is Mapping
                    && has_key(field_lookup(fields, "components"@)->0->List_0@[i]->Mapping_0@, "name"@) && has_key(
                    field_lookup(fields, "components"@)->0->List_0@[i]->Mapping_0@,
                    "type"@,
                ))
        && (mapping_keys(field_lookup(fields, "storage"@)) is Some && has_key(mapping_keys(field_lookup(fields, "storage"@))->0, "fs_root"@) && has_key(mapping_keys(field_lookup(fields, "storage"@))->0, "s3"@) && has_key(mapping_keys(field_lookup(fields, "storage"@))->0, "layout"@))
        && (mapping_keys(field_lookup(fields, "api"@)) is Some && has_key(mapping_keys(field_lookup(fields, "api"@))->0, "rest"@) && has_key(mapping_keys(field_lookup(fields, "api"@))->0, "grpc"@))
        && (mapping_keys(field_lookup(fields, "index_backends"@)) is Some && has_key(mapping_keys(field_lookup(fields, "index_backends"@))->0, "hnsw"@) && has_key(mapping_keys(field_lookup(fields, "index_backends"@))->0, "faiss"@))
        && (mapping_keys(field_lookup(fields, "consistency"@)) is Some)
        && (mapping_keys(field_lookup(fields, "merkaba_gate"@)) is Some && has_key(mapping_keys(field_lookup(fields, "merkaba_gate"@))->0, "graph"@) && has_key(mapping_keys(field_lookup(fields, "merkaba_gate"@))->0, "on_fail"@))
        && (mapping_keys(field_lookup(fields, "workflows"@)) is Some && has_key(mapping_keys(field_lookup(fields, "workflows"@))->0, "upsert"@) && has_key(mapping_keys(field_lookup(fields, "workflows"@))->0, "query"@) && has_key(mapping_keys(field_lookup(fields, "workflows"@))->0, "rebuild"@))
        && (mapping_keys(field_lookup(fields, "config"@)) is Some && has_key(mapping_keys(field_lookup(fields, "config"@))->0, "env"@))) {
        assert forall|r: int| 0 <= r < required_top_level().len() implies field_lookup(fields, #[trigger] required_top_level()[r]) is Some by {
            assert(required_top_level()[0] == "spec"@);
            assert(required_top_level()[1] == "priorities"@);
            assert(required_top_level()[2] == "components"@);
            assert(required_top_level()[3] == "storage"@);
            assert(required_top_level()[4] == "api"@);
            assert(required_top_level()[5] == "index_backends"@);
            assert(required_top_level()[6] == "consistency"@);
            assert(required_top_level()[7] == "merkaba_gate"@);
            assert(required_top_level()[8] == "workflows"@);
            assert(required_top_level()[9] == "config"@);
        }
    }
}

} // verus!
