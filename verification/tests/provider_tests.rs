use infinity_ledger::providers::{
    default_hnsw_config, get_provider, hnsw_search_plan, ivf_candidates, is_known_provider, is_volatile_metadata_key, list_provider_names, parse_i64,
    plan_provider_change, qualify_key, resolve_provider_name, ProviderKind,
};

#[test]
fn parse_i64_matches_std() {
    for s in ["0", "42", "-17", "+8", "007", "9223372036854775807", "-9223372036854775808"] {
        assert_eq!(parse_i64(s), s.parse::<i64>().ok(), "{}", s);
    }
    for s in ["", "-", "+", "12a", " 1", "9223372036854775808", "-9223372036854775809", "+-1", "99999999999999999999999"] {
        assert_eq!(parse_i64(s), None, "{}", s);
        assert!(s.parse::<i64>().is_err());
    }
}

#[test]
fn hnsw_defaults_and_overrides() {
    let c = default_hnsw_config(None, None, None, None);
    assert_eq!((c.m, c.ef_construction, c.ef_search, c.metric.as_str()), (16, 200, 64, "cosine"));
    let c = default_hnsw_config(Some("32"), Some("bad"), Some("-5"), Some("l2"));
    assert_eq!((c.m, c.ef_construction, c.ef_search, c.metric.as_str()), (32, 200, -5, "l2"));
}

#[test]
fn test_list_providers() {
    assert_eq!(list_provider_names(), vec!["hnsw", "ivf_pq"]);
    assert!(is_known_provider("hnsw"));
    assert!(is_known_provider("ivf_pq"));
    assert!(!is_known_provider("faiss"));
    assert_eq!(get_provider(None), ProviderKind::Hnsw);
    assert_eq!(get_provider(Some("ivf_pq")), ProviderKind::IvfPq);
}

#[test]
fn provider_resolution_order() {
    assert_eq!(resolve_provider_name(Some("ivf_pq"), Some("hnsw")), "ivf_pq");
    assert_eq!(resolve_provider_name(None, Some("ivf_pq")), "ivf_pq");
    assert_eq!(resolve_provider_name(None, None), "hnsw");
}

#[test]
fn provider_change_bumps_version() {
    let change = plan_provider_change("ivf_pq", Some("hnsw"), Some(3)).ok().unwrap();
    assert_eq!(change.provider, "ivf_pq");
    assert_eq!(change.previous_provider, Some("hnsw".to_string()));
    assert_eq!(change.proof_version, 4);
    let first = plan_provider_change("hnsw", None, None).ok().unwrap();
    assert_eq!(first.previous_provider, None);
    assert_eq!(first.proof_version, 1);
    match plan_provider_change("annoy", None, None) {
        Err(m) => assert_eq!(m, "unknown provider: annoy"),
        Ok(_) => panic!("unknown provider accepted"),
    }
}

#[test]
fn index_manager_volatile_keys() {
    for k in ["timestamp", "Created_At", "LAST_MODIFIED", "ingest_ts", "event_timestamp", "expiration"] {
        assert!(is_volatile_metadata_key(k), "{}", k);
    }
    for k in ["source", "ingested", "created_time", "title"] {
        assert!(!is_volatile_metadata_key(k), "{}", k);
    }
    assert_eq!(qualify_key("", "a"), "a");
    assert_eq!(qualify_key("outer.inner", "a"), "outer.inner.a");
}

#[test]
fn hnsw_search_plans() {
    let plan = hnsw_search_plan(1000, 10, None, 64);
    assert_eq!((plan.effective_ef, plan.candidate_count, plan.exact), (64, 64, false));
    let plan = hnsw_search_plan(1000, 50, Some(8), 64);
    assert_eq!((plan.effective_ef, plan.candidate_count, plan.exact), (8, 100, false));
    let plan = hnsw_search_plan(30, 10, Some(-4), 64);
    assert_eq!((plan.effective_ef, plan.candidate_count, plan.exact), (1, 20, false));
    let plan = hnsw_search_plan(12, 10, None, 64);
    assert_eq!((plan.candidate_count, plan.exact), (12, true));
}

#[test]
fn ivf_candidates_by_bucket() {
    let ids: Vec<String> = ["b", "a", "c", "d"].iter().map(|s| s.to_string()).collect();
    let buckets = vec![1, 0, 1, 2];
    assert_eq!(ivf_candidates(&ids, &buckets, &vec![1, 0, 2], 2), vec![0, 2, 1]);
    assert_eq!(ivf_candidates(&ids, &buckets, &vec![2, 1], 3), vec![3, 0, 2]);
    assert_eq!(ivf_candidates(&ids, &buckets, &vec![1], 0), vec![1, 0, 2, 3]);
    assert_eq!(ivf_candidates(&ids, &buckets, &vec![5], 3), vec![1, 0, 2, 3]);
}

#[test]
fn test_get_provider() {
    let provider = get_provider(Some("hnsw"));
    assert_eq!(provider.name(), "hnsw");

    let provider = get_provider(Some("ivf_pq"));
    assert_eq!(provider.name(), "ivf_pq");

    let provider = get_provider(None);
    assert_eq!(provider.name(), "hnsw");
}
