use infinity_ledger::specs::{required_top_level_keys, validate_schema, BlueprintValidationError, Item, Node};

fn keys(names: &[&str]) -> Node {
    Node::Mapping(names.iter().map(|s| s.to_string()).collect())
}

fn create_minimal_blueprint() -> Vec<(String, Node)> {
    vec![
        ("spec".to_string(), keys(&["id", "title", "version", "date"])),
        ("priorities".to_string(), keys(&["must", "should", "could"])),
        (
            "components".to_string(),
            Node::List(vec![Item::Mapping(vec!["name".to_string(), "type".to_string()])]),
        ),
        ("storage".to_string(), keys(&["fs_root", "s3", "layout"])),
        ("api".to_string(), keys(&["rest", "grpc"])),
        ("index_backends".to_string(), keys(&["hnsw", "faiss"])),
        ("consistency".to_string(), keys(&["mode"])),
        ("merkaba_gate".to_string(), keys(&["graph", "on_fail"])),
        ("workflows".to_string(), keys(&["upsert", "query", "rebuild"])),
        ("config".to_string(), keys(&["env"])),
    ]
}

fn schema_message(r: Result<(), BlueprintValidationError>) -> String {
    match r {
        Err(BlueprintValidationError::Schema(m)) => m,
        _ => String::new(),
    }
}

fn replace(data: &mut Vec<(String, Node)>, key: &str, node: Node) {
    for entry in data.iter_mut() {
        if entry.0 == key {
            entry.1 = node;
            return;
        }
    }
}

#[test]
fn test_validate_schema_success() {
    let data = create_minimal_blueprint();
    assert!(validate_schema(&data).is_ok());
}

#[test]
fn test_validate_schema_missing_top_level_key() {
    let mut data = create_minimal_blueprint();
    data.retain(|(k, _)| k != "workflows");
    let result = validate_schema(&data);
    assert!(result.is_err());
    assert!(schema_message(result).contains("Missing required top-level keys"));
}

#[test]
fn test_validate_schema_missing_spec_field() {
    let mut data = create_minimal_blueprint();
    replace(&mut data, "spec", keys(&["id", "title", "date"]));
    let result = validate_schema(&data);
    assert!(result.is_err());
    assert!(schema_message(result).contains("spec missing fields"));
}

#[test]
fn schema_messages_name_the_first_defect() {
    let mut data = create_minimal_blueprint();
    data.retain(|(k, _)| k != "api" && k != "config");
    assert_eq!(schema_message(validate_schema(&data)), "Missing required top-level keys: api, config");

    let mut data = create_minimal_blueprint();
    replace(&mut data, "spec", keys(&["id"]));
    assert_eq!(schema_message(validate_schema(&data)), "spec missing fields: title, version, date");

    let mut data = create_minimal_blueprint();
    replace(&mut data, "priorities", keys(&["must", "could"]));
    assert_eq!(schema_message(validate_schema(&data)), "priorities missing 'should' list");

    let mut data = create_minimal_blueprint();
    replace(&mut data, "components", Node::List(vec![Item::Mapping(vec!["name".to_string(), "type".to_string()]), Item::Other]));
    assert_eq!(schema_message(validate_schema(&data)), "components[1] must be a mapping");

    let mut data = create_minimal_blueprint();
    replace(&mut data, "components", Node::List(vec![Item::Mapping(vec!["type".to_string()])]));
    assert_eq!(schema_message(validate_schema(&data)), "components[0] missing 'name'");

    let mut data = create_minimal_blueprint();
    replace(&mut data, "components", keys(&["name"]));
    assert_eq!(schema_message(validate_schema(&data)), "components must be a list");

    let mut data = create_minimal_blueprint();
    replace(&mut data, "storage", Node::Text("x".to_string()));
    assert_eq!(schema_message(validate_schema(&data)), "storage must be a mapping");

    let mut data = create_minimal_blueprint();
    replace(&mut data, "consistency", Node::Other);
    assert_eq!(schema_message(validate_schema(&data)), "consistency must be a mapping");

    let mut data = create_minimal_blueprint();
    replace(&mut data, "config", keys(&[]));
    assert_eq!(schema_message(validate_schema(&data)), "config missing 'env'");

    assert_eq!(required_top_level_keys().len(), 10);
}

