use infinity_ledger::blueprint::{Blueprint, Component, Storage, API};
use infinity_ledger::metadata_tree::JsonValue;
use infinity_ledger::specs::Spec;

fn text(s: &str) -> JsonValue {
    JsonValue::Text(s.to_string())
}

fn list(items: &[&str]) -> JsonValue {
    JsonValue::List(items.iter().map(|s| text(s)).collect())
}

fn entries(pairs: Vec<(&str, JsonValue)>) -> Vec<(String, JsonValue)> {
    pairs.into_iter().map(|(k, v)| (k.to_string(), v)).collect()
}

fn object(pairs: Vec<(&str, JsonValue)>) -> JsonValue {
    JsonValue::Object(entries(pairs))
}

fn has_key(map: &[(String, JsonValue)], key: &str) -> bool {
    map.iter().any(|(k, _)| k == key)
}

#[test]
fn test_spec_from_dict() {
    let data = entries(vec![
        ("id", text("SPEC-002")),
        ("title", text("Test Spec")),
        ("version", text("1.0")),
        ("date", text("2025-01-01")),
        ("owners", list(&["owner1", "owner2"])),
        ("goals", list(&["goal1", "goal2"])),
    ]);
    let spec = Spec::from_dict(&data);
    assert_eq!(spec.id, "SPEC-002");
    assert_eq!(spec.title, "Test Spec");
    assert_eq!(spec.version, "1.0");
    assert_eq!(spec.date, "2025-01-01");
    assert_eq!(spec.owners, vec!["owner1", "owner2"]);
    assert_eq!(spec.goals, vec!["goal1", "goal2"]);
}

#[test]
fn spec_fields_of_other_kinds_read_as_empty() {
    let data = entries(vec![
        ("id", JsonValue::Null),
        ("owners", JsonValue::List(vec![text("alice"), JsonValue::Bool(true), text("bob")])),
        ("goals", text("not a list")),
    ]);
    let spec = Spec::from_dict(&data);
    assert_eq!(spec.id, "");
    assert_eq!(spec.title, "");
    assert_eq!(spec.owners, vec!["alice", "bob"]);
    assert!(spec.goals.is_empty());
}

#[test]
fn test_component_from_dict() {
    let data = entries(vec![
        ("name", text("test-component")),
        ("type", text("service")),
        ("deps", list(&["dep1", "dep2"])),
        ("custom_field", text("custom_value")),
    ]);
    let component = Component::from_dict(&data);
    assert_eq!(component.name, "test-component");
    assert_eq!(component.component_type, "service");
    assert_eq!(component.deps, Some(vec!["dep1".to_string(), "dep2".to_string()]));
    assert_eq!(component.responsibilities, None);
    assert_eq!(component.extras, entries(vec![("custom_field", text("custom_value"))]));
}

#[test]
fn test_api_from_dict() {
    let data = entries(vec![("rest", list(&["/v1/endpoint"])), ("grpc", object(vec![("service", text("TestService"))]))]);
    let api = API::from_dict(&data);
    assert_eq!(api.rest, vec!["/v1/endpoint"]);
    assert!(has_key(&api.grpc, "service"));
}

#[test]
fn test_storage_from_dict() {
    let data = entries(vec![
        ("fs_root", text("/data")),
        ("s3", object(vec![("bucket", text("my-bucket"))])),
        ("layout", object(vec![("type", text("versioned"))])),
    ]);
    let storage = Storage::from_dict(&data);
    assert_eq!(storage.fs_root, "/data");
    assert!(has_key(&storage.s3, "bucket"));
    assert!(has_key(&storage.layout, "type"));
}

#[test]
fn test_blueprint_from_dict() {
    let data = entries(vec![
        ("spec", object(vec![("id", text("SPEC-002")), ("title", text("Test")), ("version", text("1.0")), ("date", text("2025-01-01"))])),
        ("priorities", object(vec![("must", list(&["feature1"])), ("should", list(&["feature2"])), ("could", text("odd"))])),
        (
            "components",
            JsonValue::List(vec![object(vec![("name", text("c1")), ("type", text("svc"))]), text("skipped")]),
        ),
        ("storage", object(vec![("fs_root", text("/data")), ("s3", object(vec![])), ("layout", object(vec![]))])),
        ("distance", object(vec![("metric", text("cosine"))])),
        ("api", object(vec![("rest", list(&[])), ("grpc", object(vec![]))])),
        ("consistency", text("not an object")),
        ("custom_section", JsonValue::Number("7".to_string())),
    ]);
    let blueprint = Blueprint::from_dict(&data);
    assert_eq!(blueprint.spec.id, "SPEC-002");
    assert_eq!(
        blueprint.priorities,
        vec![
            ("must".to_string(), vec!["feature1".to_string()]),
            ("should".to_string(), vec!["feature2".to_string()]),
            ("could".to_string(), vec![]),
        ]
    );
    assert_eq!(blueprint.components.len(), 1);
    assert_eq!(blueprint.components[0].name, "c1");
    assert_eq!(blueprint.storage.fs_root, "/data");
    assert_eq!(blueprint.distance, entries(vec![("metric", text("cosine"))]));
    assert!(blueprint.consistency.is_empty());
    assert!(blueprint.workflows.is_empty());
    assert_eq!(blueprint.extras, entries(vec![("custom_section", JsonValue::Number("7".to_string()))]));
}
