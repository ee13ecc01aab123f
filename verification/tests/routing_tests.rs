use infinity_ledger::routing::{
    check_mesh_metrics, metrics_text, route_id_for, select_scored_route, select_slot_route, slots_for_sigma, AdapterMode,
    MetatronAdapter, RouterError, SlotRoute,
};
use infinity_ledger::s7::generate_permutations;
use infinity_ledger::s7_space::generate_s7_permutations;
use infinity_ledger::schemas::{validate_route_fields, OperatorSlot};
use sha2::{Digest, Sha256};
use std::collections::HashSet;

fn mesh_score(betti: f64, lambda_gap: f64, persistence: f64) -> f64 {
    0.10 * betti + 0.70 * lambda_gap + 0.20 * persistence
}

fn score_text(score: f64) -> String {
    format!("{:.6}", score)
}

fn offset(score: f64) -> usize {
    ((score.abs() * 1000.0) as usize) % 5040
}

fn slot_route(seed: &str, metrics: &[(&str, f64)]) -> SlotRoute {
    let get = |k: &str| metrics.iter().find(|(n, _)| *n == k).map(|(_, v)| *v).unwrap_or(0.0);
    let score = mesh_score(get("betti"), get("lambda_gap"), get("persistence"));
    let entries: Vec<(String, String)> = metrics.iter().map(|(k, v)| (k.to_string(), format!("{:.6}", v))).collect();
    let base = format!("{}:{}", seed, metrics_text(&entries));
    let k = ((score.abs() * 1000.0) as usize) % 5040;
    select_slot_route(seed, &base, k)
}

#[test]
fn test_select_route() {
    let r = select_scored_route("seed123", &score_text(mesh_score(2.0, 0.5, 0.3)), offset(mesh_score(2.0, 0.5, 0.3)));
    assert_eq!(r.permutation.len(), 7);
    assert!(r.route_id.starts_with("route_"));
    assert_eq!(r.route_id.len(), 10);
}

#[test]
fn route_selection_test_determinism() {
    let text = score_text(mesh_score(2.0, 0.5, 0.3));
    let route1 = select_scored_route("seed123", &text, 1090);
    let route2 = select_scored_route("seed123", &text, 1090);
    assert_eq!(route1.route_id, route2.route_id);
    assert_eq!(route1.permutation, route2.permutation);
}

#[test]
fn test_different_seeds() {
    let text = score_text(mesh_score(2.0, 0.5, 0.3));
    let route1 = select_scored_route("seed123", &text, 1090);
    let route2 = select_scored_route("seed456", &text, 1090);
    assert!(route1.route_id != route2.route_id || route1.permutation != route2.permutation);
}

#[test]
fn test_uniform_distribution() {
    let text = score_text(mesh_score(2.0, 0.5, 0.3));
    let mut route_ids = HashSet::new();
    for i in 0..100 {
        let seed = format!("seed{}", i);
        route_ids.insert(select_scored_route(&seed, &text, 1090).route_id);
    }
    assert!(route_ids.len() >= 80);
}

#[test]
fn test_adapter_in_process() {
    let adapter = MetatronAdapter::new(AdapterMode::InProcess);
    let route = adapter.select_route("seed123", &score_text(mesh_score(2.0, 0.5, 0.3)), offset(mesh_score(2.0, 0.5, 0.3)));
    assert!(route.is_ok());
}

#[test]
fn test_adapter_service_not_implemented() {
    let adapter = MetatronAdapter::new(AdapterMode::Service);
    let route = adapter.select_route("seed123", &score_text(mesh_score(2.0, 0.5, 0.3)), offset(mesh_score(2.0, 0.5, 0.3)));
    assert!(route.is_err());
    match route {
        Err(RouterError::Adapter(m)) => assert_eq!(m, "Service mode not yet implemented"),
        _ => panic!("expected an adapter error"),
    }
}

#[test]
fn test_default_mode() {
    let adapter = MetatronAdapter::default();
    assert_eq!(adapter.mode(), AdapterMode::InProcess);
    let route = adapter.select_route("seed123", &score_text(mesh_score(2.0, 0.5, 0.3)), offset(mesh_score(2.0, 0.5, 0.3)));
    assert!(route.is_ok());
}

#[test]
fn test_select_route_deterministic() {
    let metrics = [("lambda_gap", 0.5), ("betti", 2.0), ("persistence", 0.3)];
    let route1 = slot_route("test_seed", &metrics);
    let route2 = slot_route("test_seed", &metrics);
    assert_eq!(route1.route_id, route2.route_id);
    assert_eq!(route1.sigma, route2.sigma);
    assert_eq!(route1.slots, route2.slots);
}

#[test]
fn test_select_route_different_seeds() {
    let metrics = [("lambda_gap", 0.5)];
    let route1 = slot_route("seed1", &metrics);
    let route2 = slot_route("seed2", &metrics);
    assert_ne!(route1.route_id, route2.route_id);
}

#[test]
fn test_select_route_valid() {
    let route = slot_route("test", &[]);
    assert_eq!(route.sigma.len(), 7);
    assert_eq!(route.slots.len(), 7);
    let permutation: Vec<usize> = route.sigma.iter().map(|&x| (x - 1) as usize).collect();
    assert!(validate_route_fields(&permutation, Some(&route.sigma), Some(&route.slots)).is_ok());
    assert_eq!(route.route_id, route_id_for("test", &route.sigma));
    assert_eq!(route.route_id.len(), 16);
}

#[test]
fn metrics_are_rendered_in_name_order() {
    let entries = vec![
        ("lambda_gap".to_string(), "0.500000".to_string()),
        ("betti".to_string(), "2.000000".to_string()),
        ("persistence".to_string(), "0.300000".to_string()),
    ];
    assert_eq!(metrics_text(&entries), "betti:2.000000,lambda_gap:0.500000,persistence:0.300000");
    assert_eq!(metrics_text(&vec![]), "");
}

#[test]
fn slots_follow_sigma() {
    assert_eq!(
        slots_for_sigma(&vec![7, 1, 6]),
        vec![OperatorSlot::RES2, OperatorSlot::DK, OperatorSlot::ADAPTER]
    );
}

#[test]
fn large_offsets_wrap_around_the_route_space() {
    let small = select_slot_route("s", "s:", usize::MAX % 5040);
    let large = select_slot_route("s", "s:", usize::MAX);
    assert_eq!(small.sigma, large.sigma);
    assert_eq!(small.route_id, large.route_id);
}

#[test]
fn slot_route_index_is_the_digest_plus_the_offset() {
    let digest = Sha256::digest(b"seed:betti:2.000000");
    let mut first = [0u8; 16];
    first.copy_from_slice(&digest[..16]);
    let h = u128::from_be_bytes(first);
    let k = 610usize;
    let idx = ((h % 5040) as usize + k) % 5040;
    let route = select_slot_route("seed", "seed:betti:2.000000", k);
    assert_eq!(route.sigma, generate_permutations()[idx]);
    assert_eq!(route.route_id, route_id_for("seed", &route.sigma));
}

#[test]
fn scored_route_index_is_the_digest_plus_the_offset() {
    let digest = Sha256::digest(b"seed1230.610000");
    let mut first = [0u8; 8];
    first.copy_from_slice(&digest[..8]);
    let word = u64::from_le_bytes(first);
    let k = 610usize;
    let idx = ((word % 5040) as usize + k) % 5040;
    let route = select_scored_route("seed123", "0.610000", k);
    assert_eq!(route.route_id, format!("route_{:04}", idx));
    assert_eq!(route.permutation, generate_s7_permutations()[idx]);
    let without = select_scored_route("seed123", "0.610000", 0);
    assert_eq!(without.route_id, format!("route_{:04}", (word % 5040) as usize));
}

fn names(list: &[&str]) -> Vec<String> {
    list.iter().map(|s| s.to_string()).collect()
}

fn metrics_message(r: Result<(), RouterError>) -> String {
    match r {
        Err(RouterError::InvalidMetrics(m)) => m,
        _ => String::new(),
    }
}

#[test]
fn mesh_metrics_check_names_the_first_missing_metric() {
    assert!(check_mesh_metrics(&names(&["persistence", "betti", "lambda_gap", "extra"])).is_ok());
    assert_eq!(metrics_message(check_mesh_metrics(&names(&[]))), "Missing 'betti' metric");
    assert_eq!(metrics_message(check_mesh_metrics(&names(&["betti", "persistence"]))), "Missing 'lambda_gap' metric");
    assert_eq!(metrics_message(check_mesh_metrics(&names(&["lambda_gap", "betti"]))), "Missing 'persistence' metric");
}
