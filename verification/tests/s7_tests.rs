use infinity_ledger::s7::generate_permutations;
use infinity_ledger::s7_space::generate_s7_permutations;
use std::collections::HashSet;

#[test]
fn test_generate_permutations_count() {
    let perms = generate_permutations();
    assert_eq!(perms.len(), 5040);
}

#[test]
fn test_generate_permutations_unique() {
    let perms = generate_permutations();
    let mut set = HashSet::new();
    for perm in perms {
        let key = format!("{:?}", perm);
        assert!(!set.contains(&key), "Duplicate permutation found");
        set.insert(key);
    }
}

#[test]
fn test_generate_permutations_valid() {
    let perms = generate_permutations();
    for perm in perms {
        assert_eq!(perm.len(), 7);
        let mut sorted = perm.clone();
        sorted.sort();
        assert_eq!(sorted, vec![1, 2, 3, 4, 5, 6, 7]);
    }
}

#[test]
fn test_permutation_count() {
    let perms = generate_s7_permutations();
    assert_eq!(perms.len(), 5040);
}

#[test]
fn test_permutation_uniqueness() {
    let perms = generate_s7_permutations();
    let mut set = HashSet::new();
    for perm in perms {
        let key = format!("{:?}", perm);
        assert!(!set.contains(&key), "Duplicate permutation found");
        set.insert(key);
    }
}

#[test]
fn test_permutation_validity() {
    let perms = generate_s7_permutations();
    for perm in perms {
        assert_eq!(perm.len(), 7);
        let mut sorted = perm.clone();
        sorted.sort();
        assert_eq!(sorted, vec![0, 1, 2, 3, 4, 5, 6]);
    }
}

#[test]
fn first_permutations_start_from_identity() {
    assert_eq!(generate_permutations()[0], vec![1, 2, 3, 4, 5, 6, 7]);
    assert_eq!(generate_s7_permutations()[0], vec![0, 1, 2, 3, 4, 5, 6]);
}

#[test]
fn both_generators_list_the_same_orderings_shifted_by_one() {
    let slots: HashSet<Vec<u8>> = generate_permutations().into_iter().collect();
    let space: HashSet<Vec<u8>> =
        generate_s7_permutations().into_iter().map(|p| p.into_iter().map(|x| (x + 1) as u8).collect()).collect();
    assert_eq!(slots.len(), 5040);
    assert_eq!(slots, space);
}
