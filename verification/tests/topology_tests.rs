use infinity_ledger::topology::{extend_to_thirteen, generate_operator_sequence, identify_symmetry_group, OperatorType};

#[test]
fn test_operator_type_display() {
    assert_eq!(OperatorType::DK.value(), "DoubleKick");
    assert_eq!(OperatorType::SW.value(), "Sweep");
    assert_eq!(OperatorType::PI.value(), "PathInvariance");
    assert_eq!(OperatorType::WT.value(), "WeightTransfer");
}

#[test]
fn test_generate_operator_sequence() {
    let identity: Vec<usize> = (0..13).collect();
    let sequence = generate_operator_sequence(&identity);

    assert_eq!(sequence.len(), 4);
    assert!(sequence.contains(&OperatorType::DK));
    assert!(sequence.contains(&OperatorType::SW));
    assert!(sequence.contains(&OperatorType::PI));
    assert!(sequence.contains(&OperatorType::WT));
}

#[test]
fn operator_sequence_by_signature() {
    // 0 + 1 + ... + 12 = 78, 78 % 4 = 2
    let identity: Vec<usize> = (0..13).collect();
    assert_eq!(
        generate_operator_sequence(&identity),
        vec![OperatorType::PI, OperatorType::WT, OperatorType::DK, OperatorType::SW]
    );
    assert_eq!(
        generate_operator_sequence(&vec![]),
        vec![OperatorType::DK, OperatorType::SW, OperatorType::PI, OperatorType::WT]
    );
    assert_eq!(
        generate_operator_sequence(&vec![5]),
        vec![OperatorType::SW, OperatorType::DK, OperatorType::WT, OperatorType::PI]
    );
    assert_eq!(
        generate_operator_sequence(&vec![3]),
        vec![OperatorType::WT, OperatorType::PI, OperatorType::SW, OperatorType::DK]
    );
}

#[test]
fn test_identify_symmetry_group() {
    let c6: Vec<Vec<usize>> = vec![vec![1, 2, 3, 4, 5, 6, 7], vec![2, 3, 4, 5, 6, 1, 7]];
    let d6: Vec<Vec<usize>> = vec![vec![6, 5, 4, 3, 2, 1, 7]];

    let identity: Vec<usize> = (1..=13).collect();
    assert_eq!(identify_symmetry_group(&identity, &c6, &d6), "Identity");

    assert_eq!(c6[1].len(), 7);
    let c6_extended = extend_to_thirteen(&c6[1]);
    assert_eq!(c6_extended.len(), 13);
    assert_eq!(identify_symmetry_group(&c6_extended, &c6, &d6), "C6");

    let d6_extended = extend_to_thirteen(&d6[0]);
    assert_eq!(identify_symmetry_group(&d6_extended, &c6, &d6), "D6");

    let other = extend_to_thirteen(&vec![7, 6, 5, 4, 3, 2, 1]);
    assert_eq!(identify_symmetry_group(&other, &c6, &d6), "S7");
}
