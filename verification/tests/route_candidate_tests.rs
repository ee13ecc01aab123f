use infinity_ledger::route_candidates::{candidates_from_seed, select_candidate_permutations};
use infinity_ledger::s7_space::generate_s7_permutations;

fn ext(p: &[usize]) -> Vec<usize> {
    let mut v = p.to_vec();
    v.extend(8..=13);
    v
}

fn groups() -> (Vec<Vec<usize>>, Vec<Vec<usize>>) {
    let c6 = vec![
        vec![1, 2, 3, 4, 5, 6, 7],
        vec![2, 3, 4, 5, 6, 1, 7],
        vec![3, 4, 5, 6, 1, 2, 7],
        vec![4, 5, 6, 1, 2, 3, 7],
    ];
    let d6 = vec![vec![6, 5, 4, 3, 2, 1, 7], vec![1, 6, 5, 4, 3, 2, 7], vec![2, 1, 6, 5, 4, 3, 7], vec![3, 2, 1, 6, 5, 4, 7]];
    (c6, d6)
}

#[test]
fn candidates_start_with_identity_and_subgroups() {
    let s7 = generate_s7_permutations();
    let (c6, d6) = groups();
    let routes = candidates_from_seed(42, 10, &s7, &c6, &d6);
    assert_eq!(routes.len(), 10);
    assert_eq!(routes[0], (1..=13).collect::<Vec<usize>>());
    for i in 0..3 {
        assert_eq!(routes[1 + i], ext(&c6[i]));
        assert_eq!(routes[4 + i], ext(&d6[i]));
    }
    assert_eq!(routes[7], ext(&s7[1467]));
    assert_eq!(routes[8], ext(&s7[2744]));
    assert_eq!(routes[9], ext(&s7[4913]));
}

#[test]
fn candidates_for_a_single_route() {
    let s7 = generate_s7_permutations();
    let (c6, d6) = groups();
    let routes = candidates_from_seed(7, 1, &s7, &c6, &d6);
    assert_eq!(routes, vec![(1..=13).collect::<Vec<usize>>()]);
}

#[test]
fn candidates_exhaust_a_small_space() {
    let s7: Vec<Vec<usize>> = (0..5).map(|i| vec![i, i, i, i, i, i, i]).collect();
    let routes = candidates_from_seed(0, 20, &s7, &vec![], &vec![]);
    assert_eq!(routes.len(), 6);
    let drawn: Vec<usize> = routes[1..].iter().map(|r| r[0]).collect();
    assert_eq!(drawn, vec![0, 1, 4, 3, 2]);
}

#[test]
fn candidates_seeded_by_state_digest() {
    let s7 = generate_s7_permutations();
    let (c6, d6) = groups();
    let bytes: Vec<u8> = [1.0f64, 0.5, -2.0].iter().flat_map(|v| v.to_le_bytes()).collect();
    let routes = select_candidate_permutations(&bytes, 10, &s7, &c6, &d6);
    assert_eq!(routes[7], ext(&s7[3154]));
    assert_eq!(routes[8], ext(&s7[4099]));
    assert_eq!(routes[9], ext(&s7[1296]));
}

#[test]
fn test_select_candidate_permutations() {
    let s7 = generate_s7_permutations();
    let (c6, d6) = groups();
    let input: Vec<f64> = (1..=13).map(|i| i as f64).collect();
    let bytes: Vec<u8> = input.iter().flat_map(|v| v.to_le_bytes()).collect();

    let candidates = select_candidate_permutations(&bytes, 10, &s7, &c6, &d6);

    assert!(candidates.len() <= 10);
    assert!(candidates.len() > 0);

    // All candidates should be 13 elements
    for perm in &candidates {
        assert_eq!(perm.len(), 13);
    }

    // First candidate should be identity (1-indexed)
    assert_eq!(candidates[0], (1..=13).collect::<Vec<usize>>());
}
