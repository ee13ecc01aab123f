use infinity_ledger::audit::{
    determine_status, vulnerability_id, AuditStatus, CheckCategory, CheckKind, SecurityAuditor, SecurityCheckTrait,
    Severity, TimingReading, Vulnerability,
};

fn vuln(severity: Severity) -> Vulnerability {
    Vulnerability {
        id: "VULN-0001".to_string(),
        category: CheckCategory::Timing,
        severity,
        description: String::new(),
        recommendation: String::new(),
    }
}

fn readings_for(auditor: &SecurityAuditor, passed: bool) -> Vec<Option<TimingReading>> {
    auditor
        .check_kinds()
        .iter()
        .map(|k| {
            if matches!(k, CheckKind::TimingLeak | CheckKind::TimingVariance) {
                Some(TimingReading { passed, details: "Timing variance: 1.00%".to_string() })
            } else {
                None
            }
        })
        .collect()
}

#[test]
fn auditor_registers_all_checks() {
    let auditor = SecurityAuditor::new();
    let kinds = auditor.check_kinds();
    assert_eq!(kinds.len(), 24);
    assert_eq!(kinds[0], CheckKind::CryptoKeyStrength);
    assert_eq!(kinds[23], CheckKind::ForwardSecrecy);
}

#[test]
fn clean_audit_passes() {
    let auditor = SecurityAuditor::new();
    let outcome = auditor.run_audit(&readings_for(&auditor, true));
    assert_eq!(outcome.checks.len(), 24);
    assert!(outcome.vulnerabilities.is_empty());
    assert_eq!(outcome.status, AuditStatus::Pass);
    assert_eq!(outcome.checks[0].details, "Key strength: 256 bits (minimum: 256)");
    assert_eq!(outcome.checks[18].details, "Using 3 routing hops (minimum: 3)");
}

#[test]
fn failing_timing_checks_are_numbered() {
    let auditor = SecurityAuditor::new();
    let outcome = auditor.run_audit(&readings_for(&auditor, false));
    assert_eq!(outcome.vulnerabilities.len(), 2);
    assert_eq!(outcome.vulnerabilities[0].id, "VULN-0001");
    assert_eq!(outcome.vulnerabilities[0].severity, Severity::High);
    assert_eq!(
        outcome.vulnerabilities[0].recommendation,
        "Implement constant-time operations for all cryptographic primitives"
    );
    assert_eq!(outcome.vulnerabilities[1].id, "VULN-0002");
    assert_eq!(outcome.vulnerabilities[1].severity, Severity::Medium);
    assert_eq!(outcome.status, AuditStatus::Warning);
}

#[test]
fn timing_check_without_reading_is_skipped() {
    let auditor = SecurityAuditor::new();
    let readings: Vec<Option<TimingReading>> = auditor.check_kinds().iter().map(|_| None).collect();
    let outcome = auditor.run_audit(&readings);
    assert_eq!(outcome.checks.len(), 22);
    assert!(CheckKind::TimingLeak.execute(None).is_err());
}

#[test]
fn status_rules() {
    assert_eq!(determine_status(&vec![]), AuditStatus::Pass);
    assert_eq!(determine_status(&vec![vuln(Severity::Medium), vuln(Severity::Low)]), AuditStatus::Pass);
    assert_eq!(determine_status(&vec![vuln(Severity::Low), vuln(Severity::High)]), AuditStatus::Warning);
    assert_eq!(determine_status(&vec![vuln(Severity::High), vuln(Severity::Critical)]), AuditStatus::Fail);
}

#[test]
fn ids_and_names() {
    assert_eq!(vulnerability_id(1), "VULN-0001");
    assert_eq!(vulnerability_id(12345), "VULN-12345");
    assert_eq!(CheckKind::AnonymitySet.name(), "Anonymity Set Size");
    assert_eq!(CheckKind::CryptoHashFunction.category(), CheckCategory::Cryptography);
    assert_eq!(Severity::Critical.rank(), 4);
}
