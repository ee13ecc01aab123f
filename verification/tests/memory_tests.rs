use infinity_ledger::memory::{
    default_top_k, hybrid_additions, FilterStats, IndexError, MemoryConfig, MemoryError, MemoryIndex, RouterConfig,
    SearchStrategy,
};

#[test]
fn test_index_enabled_no_path() {
    let config = MemoryConfig { enabled: true, path: None, ..Default::default() };

    let result = MemoryIndex::new(config);

    assert!(matches!(result, Err(IndexError::PathNotConfigured)));
}

#[test]
fn test_index_disabled() {
    let config = MemoryConfig::default();
    let mut index = MemoryIndex::new(config).ok().unwrap();
    let result = index.upsert(8);
    assert!(result.is_ok());
}

#[test]
fn test_index_search_disabled() {
    let config = MemoryConfig::default();
    let index = MemoryIndex::new(config).ok().unwrap();
    let results = index.search(8, 10).ok().unwrap();
    assert!(results.is_empty());
}

#[test]
fn enabled_index_checks_dimension() {
    let config = MemoryConfig { enabled: true, path: Some("/tmp/idx".to_string()), ..Default::default() };
    let mut index = MemoryIndex::new(config).ok().unwrap();
    assert!(index.upsert(8).is_ok());
    match index.upsert(5) {
        Err(IndexError::InvalidDimension { expected, actual }) => {
            assert_eq!((expected, actual), (8, 5));
        },
        _ => panic!("dimension not checked"),
    }
    assert!(matches!(index.search(3, 10), Err(IndexError::InvalidDimension { expected: 8, actual: 3 })));
    let stats = index.stats();
    assert!(stats.enabled);
    assert_eq!(stats.count, 0);
}

#[test]
fn error_messages() {
    assert_eq!(
        IndexError::InvalidDimension { expected: 8, actual: 3 }.message(),
        "Invalid vector dimension: expected 8, got 3"
    );
    assert_eq!(IndexError::PathNotConfigured.message(), "Index path not configured");
    assert_eq!(MemoryError::NotFound("x".to_string()).message(), "Item not found: x");
}

#[test]
fn test_search_request_default() {
    assert_eq!(default_top_k(), 10);
}

#[test]
fn test_strategy_selection() {
    let router = RouterConfig::default();
    assert_eq!(router.select_strategy(8, 5), SearchStrategy::Exact);
    assert_eq!(router.select_strategy(8, 50), SearchStrategy::Hybrid);
    assert_eq!(router.select_strategy(8, 150), SearchStrategy::Approximate);
    assert_eq!(router.select_strategy(200, 20), SearchStrategy::Approximate);
}

#[test]
fn test_custom_router_config() {
    let config = RouterConfig { small_k_threshold: 5, large_k_threshold: 50, high_dim_threshold: 64 };
    assert_eq!(config.select_strategy(8, 3), SearchStrategy::Exact);
    assert_eq!(config.select_strategy(8, 25), SearchStrategy::Hybrid);
    assert_eq!(config.select_strategy(8, 100), SearchStrategy::Approximate);
}

#[test]
fn hybrid_additions_skip_known_and_stop_at_k() {
    let exact = vec!["a".to_string(), "b".to_string()];
    let approx = vec!["b".to_string(), "c".to_string(), "d".to_string(), "e".to_string()];
    assert_eq!(hybrid_additions(&exact, &approx, 4), vec![1, 2]);
    assert_eq!(hybrid_additions(&exact, &approx, 2), Vec::<usize>::new());
}

#[test]
fn filter_stats_balance() {
    let mut stats = FilterStats::default();
    stats.record(true);
    stats.record(false);
    assert_eq!(stats.total_attempted, 2);
    assert_eq!(stats.total_accepted, 1);
    assert_eq!(stats.total_rejected, 1);
}
