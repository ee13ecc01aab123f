use infinity_ledger::metadata_tree::{canonicalize_metadata, copy_json, strip_volatile, JsonValue};

fn text(s: &str) -> JsonValue {
    JsonValue::Text(s.to_string())
}

fn object(entries: Vec<(&str, JsonValue)>) -> JsonValue {
    JsonValue::Object(entries.into_iter().map(|(k, v)| (k.to_string(), v)).collect())
}

fn entries(v: JsonValue) -> Vec<(String, JsonValue)> {
    match v {
        JsonValue::Object(e) => e,
        _ => panic!("not an object"),
    }
}

#[test]
fn test_canonicalize_metadata() {
    let metadata = entries(object(vec![
        ("source", text("test")),
        ("timestamp", text("2025-01-01T00:00:00Z")),
        ("created_at", text("2025-01-01")),
        ("details", object(vec![("stored_at", text("x")), ("kind", text("doc")), ("sync_ts", JsonValue::Number("17".to_string()))])),
        ("tags", JsonValue::List(vec![object(vec![("updated_at", text("kept in lists"))])])),
    ]));
    let (canonical, removed) = canonicalize_metadata(&metadata);
    let expected = entries(object(vec![
        ("source", text("test")),
        ("details", object(vec![("kind", text("doc"))])),
        ("tags", JsonValue::List(vec![object(vec![("updated_at", text("kept in lists"))])])),
    ]));
    assert_eq!(canonical, expected);
    assert_eq!(removed, vec!["timestamp", "created_at", "details.stored_at", "details.sync_ts"]);
}

#[test]
fn canonical_metadata_is_stable() {
    let metadata = entries(object(vec![
        ("Expiration", JsonValue::Bool(true)),
        ("nested", object(vec![("deeper", object(vec![("LAST_UPDATED", JsonValue::Null), ("keep", text("k"))]))])),
    ]));
    let (once, removed_once) = canonicalize_metadata(&metadata);
    assert_eq!(removed_once, vec!["Expiration", "nested.deeper.LAST_UPDATED"]);
    let (twice, removed_twice) = canonicalize_metadata(&once);
    assert_eq!(twice, once);
    assert!(removed_twice.is_empty());
}

#[test]
fn strip_below_a_prefix_and_copy() {
    let metadata = entries(object(vec![("event_timestamp", text("t")), ("n", JsonValue::Number("1.5".to_string()))]));
    let mut removed = vec!["earlier".to_string()];
    let kept = strip_volatile(&metadata, "outer", &mut removed);
    assert_eq!(removed, vec!["earlier", "outer.event_timestamp"]);
    assert_eq!(kept, entries(object(vec![("n", JsonValue::Number("1.5".to_string()))])));
    let v = object(vec![("a", JsonValue::List(vec![JsonValue::Bool(false), text("x")]))]);
    assert_eq!(copy_json(&v), v);
}

#[test]
fn index_manager_test_canonicalize_metadata() {
    let metadata = entries(object(vec![
        ("name", text("test")),
        ("timestamp", text("2024-01-01")),
        ("created_at", text("2024-01-01")),
        ("value_ts", JsonValue::Number("12345".to_string())),
    ]));
    let (canonical, _) = canonicalize_metadata(&metadata);
    let has = |k: &str| canonical.iter().any(|(key, _)| key == k);
    assert!(has("name"));
    assert!(!has("timestamp"));
    assert!(!has("created_at"));
    assert!(!has("value_ts"));
}
