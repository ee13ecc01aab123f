use sha2::{Digest, Sha256};
use infinity_ledger::solvecoagula::{
    apply_permutation, canon_mode, cyclic_shift, relaxation_limit, relaxed_total_steps, rotation_permutations, weight_matrix_bytes, default_canon, default_max_iter, parse_levels, path_permutations, CanonMode,
    ScaleLevel, WTConfig,
};

#[test]
fn scale_level_names() {
    for level in [ScaleLevel::Micro, ScaleLevel::Meso, ScaleLevel::Macro] {
        assert_eq!(ScaleLevel::from_str(level.as_str()), Some(level));
    }
    assert_eq!(ScaleLevel::Micro.as_str(), "micro");
    assert_eq!(ScaleLevel::from_str("Macro"), None);
}

#[test]
fn test_from_config() {
    let levels = parse_levels("micro,meso");
    assert_eq!(levels.len(), 2);
    assert_eq!(parse_levels(" macro , bogus,micro"), vec![ScaleLevel::Macro, ScaleLevel::Micro]);
    assert!(parse_levels("").is_empty());
}

#[test]
fn defaults() {
    assert_eq!(WTConfig::default().mode, "analytic");
    assert_eq!(default_canon(), "lexicographic");
    assert_eq!(default_max_iter(), 1000);
}

#[test]
fn test_create_pfadinvarianz() {
    assert_eq!(canon_mode(&default_canon()), CanonMode::Lexicographic);
    assert_eq!(canon_mode("norm"), CanonMode::Norm);
    assert_eq!(canon_mode("sum"), CanonMode::Sum);
    assert_eq!(canon_mode("other"), CanonMode::Unordered);
}

#[test]
fn test_apply_permutation() {
    let perms = path_permutations();
    assert_eq!(perms.len(), 6);
    let v = vec![10.0, 20.0, 30.0, 40.0, 50.0];
    assert_eq!(apply_permutation(&v, &perms[0]), v);
    assert_eq!(apply_permutation(&v, &perms[1]), vec![20.0, 30.0, 40.0, 50.0, 10.0]);
    assert_eq!(apply_permutation(&v, &perms[5]), vec![50.0, 40.0, 30.0, 20.0, 10.0]);
    for p in &perms {
        let mut sorted = p.clone();
        sorted.sort();
        assert_eq!(sorted, vec![0, 1, 2, 3, 4]);
    }
}

#[test]
fn relaxation_limit_is_a_sixty_fourth_but_at_least_eight() {
    assert_eq!(relaxation_limit(1000), 15);
    assert_eq!(relaxation_limit(100), 8);
    assert_eq!(relaxation_limit(0), 8);
    assert_eq!(relaxation_limit(640), 10);
}

#[test]
fn relaxed_steps_count_the_extra_steps_and_stay_below_the_limit() {
    // converged after three relaxation steps
    assert_eq!(relaxed_total_steps(100, Some(3), 15, 1000), 103);
    // never converged: every relaxation step counts
    assert_eq!(relaxed_total_steps(100, None, 15, 1000), 115);
    // capped at one less than the iteration limit
    assert_eq!(relaxed_total_steps(1000, None, 15, 1000), 999);
    assert_eq!(relaxed_total_steps(995, Some(8), 15, 1000), 999);
}

#[test]
fn rotation_permutations_of_five() {
    assert_eq!(
        rotation_permutations(5),
        vec![vec![0, 1, 2, 3, 4], vec![1, 2, 3, 4, 0], vec![4, 0, 1, 2, 3], vec![4, 3, 2, 1, 0]]
    );
}

#[test]
fn rotation_permutations_of_one_and_two() {
    assert_eq!(rotation_permutations(1), vec![vec![0], vec![0], vec![0], vec![0]]);
    assert_eq!(rotation_permutations(2), vec![vec![0, 1], vec![1, 0], vec![1, 0], vec![1, 0]]);
}

#[test]
fn weight_matrix_bytes_are_the_seed_digest_prefix() {
    let digest = Sha256::digest(42u64.to_le_bytes());
    let bytes = weight_matrix_bytes();
    assert_eq!(bytes.len(), 25);
    assert_eq!(bytes[..], digest[..25]);
}

#[test]
fn cyclic_shifts_take_the_component_shift_places_on() {
    assert_eq!(cyclic_shift(5, 0), vec![0, 1, 2, 3, 4]);
    assert_eq!(cyclic_shift(5, 2), vec![2, 3, 4, 0, 1]);
    assert_eq!(cyclic_shift(5, 4), vec![4, 0, 1, 2, 3]);
    assert_eq!(cyclic_shift(1, 0), vec![0]);
    for shift in 0..7 {
        let order = cyclic_shift(7, shift);
        for (i, j) in order.iter().enumerate() {
            assert_eq!(*j, (i + shift) % 7);
        }
    }
}
