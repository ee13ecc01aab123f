use infinity_ledger::index_status::{build_status, index_status, provider_catalogue, switch_status};
use infinity_ledger::metadata_tree::JsonValue;
use infinity_ledger::providers::{default_hnsw_config, plan_provider_change, ProviderChange};

fn lookup<'a>(entries: &'a [(String, JsonValue)], key: &str) -> Option<&'a JsonValue> {
    entries.iter().find(|(k, _)| k == key).map(|(_, v)| v)
}

fn text(s: &str) -> JsonValue {
    JsonValue::Text(s.to_string())
}

fn number(s: &str) -> JsonValue {
    JsonValue::Number(s.to_string())
}

#[test]
fn build_status_defaults_to_hnsw_cosine_and_version_zero() {
    let status = build_status("docs", 3, None, None, None, "1.5".to_string(), "2024-01-01T00:00:00+00:00".to_string());
    let keys: Vec<&str> = status.iter().map(|(k, _)| k.as_str()).collect();
    assert_eq!(
        keys,
        vec!["collection", "ready", "points_indexed", "provider", "params", "duration_ms", "updated_at", "proof_version"]
    );
    assert_eq!(lookup(&status, "collection"), Some(&text("docs")));
    assert_eq!(lookup(&status, "ready"), Some(&JsonValue::Bool(true)));
    assert_eq!(lookup(&status, "points_indexed"), Some(&number("3")));
    assert_eq!(lookup(&status, "provider"), Some(&text("hnsw")));
    assert_eq!(
        lookup(&status, "params"),
        Some(&JsonValue::Object(vec![("metric".to_string(), text("cosine")), ("provider".to_string(), text("hnsw"))]))
    );
    assert_eq!(lookup(&status, "duration_ms"), Some(&number("1.5")));
    assert_eq!(lookup(&status, "updated_at"), Some(&text("2024-01-01T00:00:00+00:00")));
    assert_eq!(lookup(&status, "proof_version"), Some(&number("0")));
}

#[test]
fn build_status_names_the_assigned_provider_and_recorded_settings() {
    let metric = text("l2");
    let version = number("4");
    let status = build_status("docs", 0, Some("ivf_pq"), Some(&metric), Some(&version), "0".to_string(), "t".to_string());
    assert_eq!(lookup(&status, "provider"), Some(&text("ivf_pq")));
    assert_eq!(
        lookup(&status, "params"),
        Some(&JsonValue::Object(vec![("metric".to_string(), text("l2")), ("provider".to_string(), text("ivf_pq"))]))
    );
    assert_eq!(lookup(&status, "proof_version"), Some(&number("4")));
}

#[test]
fn unbuilt_index_is_not_ready() {
    let status = index_status("docs", None, 7, -2, Some("hnsw"));
    assert_eq!(
        status,
        vec![
            ("collection".to_string(), text("docs")),
            ("ready".to_string(), JsonValue::Bool(false)),
            ("points_indexed".to_string(), number("7")),
            ("provider".to_string(), text("hnsw")),
            ("params".to_string(), JsonValue::Object(vec![])),
            ("updated_at".to_string(), JsonValue::Null),
            ("proof_version".to_string(), number("-2")),
        ]
    );
    let without = index_status("docs", None, 0, 0, None);
    assert_eq!(lookup(&without, "provider"), Some(&JsonValue::Null));
}

#[test]
fn built_index_reports_ready_with_current_counts() {
    let built = build_status("docs", 3, None, None, None, "2".to_string(), "t".to_string());
    let status = index_status("docs", Some(&built), 5, 9, Some("ivf_pq"));
    assert_eq!(status.len(), built.len());
    assert_eq!(lookup(&status, "ready"), Some(&JsonValue::Bool(true)));
    assert_eq!(lookup(&status, "provider"), Some(&text("hnsw")));
    assert_eq!(lookup(&status, "points_indexed"), Some(&number("5")));
    assert_eq!(lookup(&status, "proof_version"), Some(&number("9")));
    assert_eq!(lookup(&status, "duration_ms"), Some(&number("2")));
}

#[test]
fn recorded_status_gains_missing_counts() {
    let recorded = vec![("note".to_string(), text("kept"))];
    let status = index_status("docs", Some(&recorded), 1, 2, None);
    assert_eq!(
        status,
        vec![
            ("note".to_string(), text("kept")),
            ("points_indexed".to_string(), number("1")),
            ("proof_version".to_string(), number("2")),
        ]
    );
}

#[test]
fn switched_index_reports_not_ready() {
    let change = plan_provider_change("ivf_pq", Some("hnsw"), Some(3)).unwrap();
    let recorded = switch_status("docs", &change, "now".to_string());
    assert_eq!(
        recorded,
        vec![
            ("collection".to_string(), text("docs")),
            ("provider".to_string(), text("ivf_pq")),
            ("previous_provider".to_string(), text("hnsw")),
            ("proof_version".to_string(), number("4")),
            ("ready".to_string(), JsonValue::Bool(false)),
            ("updated_at".to_string(), text("now")),
        ]
    );
    let status = index_status("docs", Some(&recorded), 2, 4, Some("ivf_pq"));
    assert_eq!(lookup(&status, "ready"), Some(&JsonValue::Bool(false)));
    assert_eq!(lookup(&status, "points_indexed"), Some(&number("2")));
}

#[test]
fn first_switch_has_no_previous_provider() {
    let change = ProviderChange { provider: "hnsw".to_string(), previous_provider: None, proof_version: 1 };
    let recorded = switch_status("c", &change, "t".to_string());
    assert_eq!(lookup(&recorded, "previous_provider"), Some(&JsonValue::Null));
    assert_eq!(lookup(&recorded, "proof_version"), Some(&number("1")));
}

#[test]
fn catalogue_lists_both_providers_with_defaults() {
    let config = default_hnsw_config(None, Some("100"), None, None);
    let catalogue = provider_catalogue(&config);
    let hnsw = JsonValue::Object(vec![(
        "default_config".to_string(),
        JsonValue::Object(vec![
            ("m".to_string(), number("16")),
            ("ef_construction".to_string(), number("100")),
            ("ef_search".to_string(), number("64")),
            ("metric".to_string(), text("cosine")),
        ]),
    )]);
    let ivf = JsonValue::Object(vec![(
        "default_config".to_string(),
        JsonValue::Object(vec![("seed".to_string(), number("17"))]),
    )]);
    assert_eq!(catalogue, vec![("hnsw".to_string(), hnsw), ("ivf_pq".to_string(), ivf)]);
}
