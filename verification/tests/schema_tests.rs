use infinity_ledger::gate::GateDecision as GateOutcome;
use infinity_ledger::gate_event::GateDecision;
use infinity_ledger::schemas::{check_memory_dimension, sigma_to_permutation, validate_permutation, validate_route_fields, KnowledgeContext, OperatorSlot, SchemaError};

fn route_message(r: Result<(), SchemaError>) -> String {
    match r {
        Err(SchemaError::InvalidRoute(m)) => m,
        _ => String::new(),
    }
}

#[test]
fn test_valid_route_spec() {
    let route = validate_permutation(&vec![0, 1, 2, 3, 4, 5, 6]);
    assert!(route.is_ok());
}

#[test]
fn test_invalid_permutation_length() {
    let route = validate_permutation(&vec![0, 1, 2]);
    assert!(route.is_err());
}

#[test]
fn test_duplicate_index() {
    let route = validate_permutation(&vec![0, 1, 2, 2, 4, 5, 6]);
    assert!(route.is_err());
}

#[test]
fn route_permutation_messages() {
    assert_eq!(route_message(validate_permutation(&vec![0, 1, 2])), "Permutation must have exactly 7 elements, got 3");
    assert_eq!(route_message(validate_permutation(&vec![0, 1, 2, 2, 9, 5, 6])), "Duplicate permutation index: 2");
    assert_eq!(route_message(validate_permutation(&vec![0, 1, 9, 2, 2, 5, 6])), "Invalid permutation index: 9");
}

#[test]
fn route_field_checks() {
    let perm = vec![0, 1, 2, 3, 4, 5, 6];
    let sigma: Vec<u8> = vec![1, 2, 3, 4, 5, 6, 7];
    let slots = vec![
        OperatorSlot::DK,
        OperatorSlot::SW,
        OperatorSlot::PI,
        OperatorSlot::WT,
        OperatorSlot::RES1,
        OperatorSlot::ADAPTER,
        OperatorSlot::RES2,
    ];
    assert!(validate_route_fields(&perm, Some(&sigma), Some(&slots)).is_ok());
    assert_eq!(
        route_message(validate_route_fields(&perm, Some(&vec![1, 2, 3]), None)),
        "Sigma must have exactly 7 elements, got 3"
    );
    assert_eq!(
        route_message(validate_route_fields(&perm, Some(&vec![1, 2, 3, 0, 5, 6, 8]), None)),
        "Sigma values must be in [1..8), got 0"
    );
    assert_eq!(
        route_message(validate_route_fields(&perm, None, Some(&vec![OperatorSlot::DK]))),
        "Permutation slots must have exactly 7 elements, got 1"
    );
    assert_eq!(sigma_to_permutation(&vec![3, 1, 2]), vec![2, 0, 1]);
}

#[test]
fn test_gate_fires() {
    assert_eq!(GateDecision::from_conditions(true, true, true, true), GateDecision::FIRE);
}

#[test]
fn test_gate_holds_por_invalid() {
    assert_eq!(GateDecision::from_conditions(false, true, true, true), GateDecision::HOLD);
}

#[test]
fn test_gate_holds_high_path_invariance() {
    assert_eq!(GateDecision::from_conditions(true, false, true, true), GateDecision::HOLD);
}

#[test]
fn test_gate_fire() {
    let decision = GateOutcome::from_checks("valid", None, None, None);
    assert!(decision.commit);
    assert!(decision.reason.contains("FIRE"));
}

#[test]
fn test_gate_hold_por_invalid() {
    let decision = GateOutcome::from_checks("invalid", None, None, None);
    assert!(!decision.commit);
    assert!(decision.reason.contains("HOLD"));
    assert!(decision.reason.contains("PoR invalid"));
}

#[test]
fn test_gate_hold_delta_v() {
    let decision = GateOutcome::from_checks("valid", None, None, Some("ΔV = 0.010000 ≥ 0".to_string()));
    assert!(!decision.commit);
    assert!(decision.reason.contains("ΔV"));
}

#[test]
fn gate_hold_lists_reasons_in_order() {
    let decision = GateOutcome::from_checks(
        "invalid",
        Some("ΔPI = 0.500000 > 0.010000".to_string()),
        None,
        Some("ΔV = 0.010000 ≥ 0".to_string()),
    );
    assert_eq!(decision.reason, "HOLD: PoR invalid, ΔPI = 0.500000 > 0.010000, ΔV = 0.010000 ≥ 0");
}

#[test]
fn test_knowledge_relationships() {
    let mut context = KnowledgeContext::new();
    context.add_hdag_ref("HDAG-node-1".to_string());
    context.add_parent("parent-k-1".to_string());
    context.add_child("child-k-1".to_string());

    assert_eq!(context.hdag_refs.len(), 1);
    assert_eq!(context.parents.len(), 1);
    assert_eq!(context.children.len(), 1);
}

#[test]
fn memory_dimension_must_be_eight() {
    assert!(check_memory_dimension(8).is_ok());
    assert!(matches!(check_memory_dimension(7), Err(SchemaError::InvalidDimension { expected: 8, got: 7 })));
    assert!(matches!(check_memory_dimension(0), Err(SchemaError::InvalidDimension { expected: 8, got: 0 })));
}
