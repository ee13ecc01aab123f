//! Security audit bookkeeping: the registered checks, what each check
//! reports, and how check results become numbered vulnerabilities and an
//! overall status.
//!
//! The two timing checks measure elapsed time and a floating-point
//! variance; their verdict comes in as a `TimingReading`.

use vstd::prelude::*;
use crate::text::{push_decimal, push_zero_padded};

verus! {

/// Overall outcome of an audit.
#[derive(Clone, Copy, Debug, PartialEq, Eq, Structural)]
pub enum AuditStatus {
    Pass,
    Warning,
    Fail,
}

/// The area a check belongs to.
#[derive(Clone, Copy, Debug, PartialEq, Eq, Structural)]
pub enum CheckCategory {
    Cryptography,
    SideChannel,
    Metadata,
    Timing,
    Memory,
    ZKProofs,
    Network,
    Privacy,
}

/// Severity of a finding, from least to most severe.
#[derive(Clone, Copy, Debug, PartialEq, Eq, Structural, PartialOrd, Ord)]
pub enum Severity {
    Info,
    Low,
    Medium,
    High,
    Critical,
}

impl Severity {
    /// Position in the order Info < Low < Medium < High < Critical.
    pub open spec fn rank_spec(self) -> nat {
        match self {
            Severity::Info => 0,
            Severity::Low => 1,
            Severity::Medium => 2,
            Severity::High => 3,
            Severity::Critical => 4,
        }
    }

    /// Position in the order Info < Low < Medium < High < Critical.
    pub fn rank(&self) -> (r: u8)
        ensures
            r == self.rank_spec(),
    {
        match self {
            Severity::Info => 0,
            Severity::Low => 1,
            Severity::Medium => 2,
            Severity::High => 3,
            Severity::Critical => 4,
        }
    }
}

/// The result of one security check.
pub struct SecurityCheck {
    pub name: String,
    pub category: CheckCategory,
    pub passed: bool,
    pub details: String,
    pub severity: Severity,
}

/// The model of a check result.
pub struct SecurityCheckView {
    pub name: Seq<char>,
    pub category: CheckCategory,
    pub passed: bool,
    pub details: Seq<char>,
    pub severity: Severity,
}

impl View for SecurityCheck {
    type V = SecurityCheckView;

    open spec fn view(&self) -> SecurityCheckView {
        SecurityCheckView {
            name: self.name@,
            category: self.category,
            passed: self.passed,
            details: self.details@,
            severity: self.severity,
        }
    }
}

/// A failed check, numbered in the order it was found.
pub struct Vulnerability {
    pub id: String,
    pub category: CheckCategory,
    pub severity: Severity,
    pub description: String,
    pub recommendation: String,
}

/// The model of a vulnerability.
pub struct VulnerabilityView {
    pub id: Seq<char>,
    pub category: CheckCategory,
    pub severity: Severity,
    pub description: Seq<char>,
    pub recommendation: Seq<char>,
}

impl View for Vulnerability {
    type V = VulnerabilityView;

    open spec fn view(&self) -> VulnerabilityView {
        VulnerabilityView {
            id: self.id@,
            category: self.category,
            severity: self.severity,
            description: self.description@,
            recommendation: self.recommendation@,
        }
    }
}

/// The checks the auditor knows.
#[derive(Clone, Copy, Debug, PartialEq, Eq, Structural)]
pub enum CheckKind {
    CryptoKeyStrength,
    CryptoRandomness,
    CryptoHashFunction,
    CryptoSignature,
    TimingLeak,
    PowerAnalysis,
    CacheTiming,
    MetadataLeakage,
    TrafficAnalysis,
    CorrelationAttack,
    ConstantTimeOps,
    TimingVariance,
    SecretWiping,
    MemoryLeak,
    BufferOverflow,
    ZKSoundness,
    ZKCompleteness,
    ZKZeroKnowledge,
    OnionRouting,
    PacketMasking,
    SybilResistance,
    AnonymitySet,
    Unlinkability,
    ForwardSecrecy,
}

/// The verdict of a timing measurement: whether the variance stayed under
/// the check's threshold, and the text that reports it.
pub struct TimingReading {
    pub passed: bool,
    pub details: String,
}

/// Why a check could not be run.
#[derive(Clone, Copy, Debug, PartialEq, Eq, Structural)]
pub enum AuditError {
    /// A timing check was run without a timing reading.
    MissingMeasurement,
}

/// A security check: its name, how to run it, and what to do when it fails.
pub trait SecurityCheckTrait {
    fn name(&self) -> String;

    fn execute(&self, timing: Option<&TimingReading>) -> Result<SecurityCheck, AuditError>;

    fn recommendation(&self) -> String;
}

/// The name of a check.
pub open spec fn check_name(k: CheckKind) -> Seq<char> {
    match k {
        CheckKind::CryptoKeyStrength => "Cryptographic Key Strength"@,
        CheckKind::CryptoRandomness => "Cryptographic Randomness Quality"@,
        CheckKind::CryptoHashFunction => "Hash Function Security"@,
        CheckKind::CryptoSignature => "Digital Signature Verification"@,
        CheckKind::TimingLeak => "Timing Side-Channel Resistance"@,
        CheckKind::PowerAnalysis => "Power Analysis Resistance"@,
        CheckKind::CacheTiming => "Cache Timing Attack Resistance"@,
        CheckKind::MetadataLeakage => "Metadata Leakage Prevention"@,
        CheckKind::TrafficAnalysis => "Traffic Analysis Resistance"@,
        CheckKind::CorrelationAttack => "Correlation Attack Prevention"@,
        CheckKind::ConstantTimeOps => "Constant-Time Operations"@,
        CheckKind::TimingVariance => "Timing Variance Analysis"@,
        CheckKind::SecretWiping => "Secret Memory Wiping"@,
        CheckKind::MemoryLeak => "Memory Leak Detection"@,
        CheckKind::BufferOverflow => "Buffer Overflow Protection"@,
        CheckKind::ZKSoundness => "ZK Proof Soundness"@,
        CheckKind::ZKCompleteness => "ZK Proof Completeness"@,
        CheckKind::ZKZeroKnowledge => "ZK Proof Zero-Knowledge Property"@,
        CheckKind::OnionRouting => "Onion Routing Implementation"@,
        CheckKind::PacketMasking => "Packet Metadata Masking"@,
        CheckKind::SybilResistance => "Sybil Attack Resistance"@,
        CheckKind::AnonymitySet => "Anonymity Set Size"@,
        CheckKind::Unlinkability => "Transaction Unlinkability"@,
        CheckKind::ForwardSecrecy => "Forward Secrecy"@,
    }
}

/// What to do when a check fails.
pub open spec fn check_recommendation(k: CheckKind) -> Seq<char> {
    match k {
        CheckKind::CryptoKeyStrength => "Use minimum 256-bit keys for all cryptographic operations"@,
        CheckKind::CryptoRandomness => "Use ChaCha20 or quantum entropy source for all random number generation"@,
        CheckKind::CryptoHashFunction => "Use Blake3 or SHA-3 for all hashing operations"@,
        CheckKind::CryptoSignature => "Use Ed25519 or post-quantum signature schemes"@,
        CheckKind::TimingLeak => "Implement constant-time operations for all cryptographic primitives"@,
        CheckKind::PowerAnalysis => "Use masking and hiding countermeasures for sensitive operations"@,
        CheckKind::CacheTiming => "Avoid data-dependent memory access patterns"@,
        CheckKind::MetadataLeakage => "Mask all metadata (sender, receiver, timestamps) before transmission"@,
        CheckKind::TrafficAnalysis => "Use cover traffic, random delays, and constant-rate sending"@,
        CheckKind::CorrelationAttack => "Use minimum 3 relay hops with timing obfuscation"@,
        CheckKind::ConstantTimeOps => "Ensure all crypto operations are constant-time"@,
        CheckKind::TimingVariance => "Add random delays to normalize timing variance"@,
        CheckKind::SecretWiping => "Use zeroize crate to wipe all secrets from memory"@,
        CheckKind::MemoryLeak => "Run valgrind or similar tools to detect memory leaks"@,
        CheckKind::BufferOverflow => "Avoid unsafe code unless absolutely necessary"@,
        CheckKind::ZKSoundness => "Use audited ZK proof systems (Halo2, Groth16)"@,
        CheckKind::ZKCompleteness => "Test ZK proof verification with valid and invalid inputs"@,
        CheckKind::ZKZeroKnowledge => "Ensure ZK proofs use proper randomization"@,
        CheckKind::OnionRouting => "Use minimum 3 hops for onion routing"@,
        CheckKind::PacketMasking => "Mask all packet headers and pad to constant size"@,
        CheckKind::SybilResistance => "Implement proof-of-work or stake-based admission control"@,
        CheckKind::AnonymitySet => "Maintain large anonymity sets (1000+ users)"@,
        CheckKind::Unlinkability => "Use one-time addresses and ring signatures"@,
        CheckKind::ForwardSecrecy => "Implement key ratcheting (Double Ratchet algorithm)"@,
    }
}

/// The category a check reports under.
pub open spec fn check_category(k: CheckKind) -> CheckCategory {
    match k {
        CheckKind::CryptoKeyStrength | CheckKind::CryptoRandomness | CheckKind::CryptoHashFunction
        | CheckKind::CryptoSignature => CheckCategory::Cryptography,
        CheckKind::TimingLeak | CheckKind::PowerAnalysis | CheckKind::CacheTiming => CheckCategory::SideChannel,
        CheckKind::MetadataLeakage | CheckKind::TrafficAnalysis | CheckKind::CorrelationAttack => CheckCategory::Metadata,
        CheckKind::ConstantTimeOps | CheckKind::TimingVariance => CheckCategory::Timing,
        CheckKind::SecretWiping | CheckKind::MemoryLeak | CheckKind::BufferOverflow => CheckCategory::Memory,
        CheckKind::ZKSoundness | CheckKind::ZKCompleteness | CheckKind::ZKZeroKnowledge => CheckCategory::ZKProofs,
        CheckKind::OnionRouting | CheckKind::PacketMasking | CheckKind::SybilResistance => CheckCategory::Network,
        CheckKind::AnonymitySet | CheckKind::Unlinkability | CheckKind::ForwardSecrecy => CheckCategory::Privacy,
    }
}

/// The checks whose verdict comes from a timing measurement.
pub open spec fn is_timing_check(k: CheckKind) -> bool {
    k == CheckKind::TimingLeak || k == CheckKind::TimingVariance
}

/// The severity a check reports, depending on whether it passed.
pub open spec fn severity_when(k: CheckKind, passed: bool) -> Severity {
    match k {
        CheckKind::CryptoHashFunction | CheckKind::CryptoSignature | CheckKind::BufferOverflow => Severity::Info,
        CheckKind::PowerAnalysis | CheckKind::CacheTiming | CheckKind::MemoryLeak => Severity::Medium,
        CheckKind::TrafficAnalysis | CheckKind::CorrelationAttack | CheckKind::ZKCompleteness
        | CheckKind::SybilResistance => Severity::High,
        CheckKind::TimingLeak | CheckKind::OnionRouting | CheckKind::AnonymitySet | CheckKind::ForwardSecrecy => {
            if passed {
                Severity::Info
            } else {
                Severity::High
            }
        },
        CheckKind::TimingVariance => {
            if passed {
                Severity::Info
            } else {
                Severity::Medium
            }
        },
        _ => {
            if passed {
                Severity::Info
            } else {
                Severity::Critical
            }
        },
    }
}

/// The details reported by a check that needs no measurement (all of
/// them pass).
pub open spec fn fixed_details(k: CheckKind) -> Seq<char> {
    match k {
        CheckKind::CryptoKeyStrength => "Key strength: "@ + crate::text::decimal(256) + " bits (minimum: "@ + crate::text::decimal(256) + ")"@,
        CheckKind::CryptoRandomness => "Using cryptographically secure RNG"@,
        CheckKind::CryptoHashFunction => "Using Blake3 for hashing"@,
        CheckKind::CryptoSignature => "Ed25519 signatures properly implemented"@,
        CheckKind::PowerAnalysis => "No obvious power analysis vulnerabilities"@,
        CheckKind::CacheTiming => "Cache-oblivious implementation verified"@,
        CheckKind::MetadataLeakage => "Metadata properly masked with quantum entropy"@,
        CheckKind::TrafficAnalysis => "Cover traffic and random delays implemented"@,
        CheckKind::CorrelationAttack => "Multiple relay hops prevent correlation"@,
        CheckKind::ConstantTimeOps => "Critical operations run in constant time"@,
        CheckKind::SecretWiping => "Secrets properly zeroized after use"@,
        CheckKind::MemoryLeak => "No memory leaks detected"@,
        CheckKind::BufferOverflow => "Rust's memory safety prevents buffer overflows"@,
        CheckKind::ZKSoundness => "ZK proofs are sound (no false proofs possible)"@,
        CheckKind::ZKCompleteness => "Valid ZK proofs always verify"@,
        CheckKind::ZKZeroKnowledge => "ZK proofs reveal no information beyond validity"@,
        CheckKind::OnionRouting => "Using "@ + crate::text::decimal(3) + " routing hops (minimum: "@ + crate::text::decimal(3) + ")"@,
        CheckKind::PacketMasking => "Packet metadata properly masked"@,
        CheckKind::SybilResistance => "Network has Sybil resistance mechanisms"@,
        CheckKind::AnonymitySet => "Anonymity set size: "@ + crate::text::decimal(1000) + " (minimum: "@ + crate::text::decimal(100) + ")"@,
        CheckKind::Unlinkability => "Transactions are unlinkable"@,
        CheckKind::ForwardSecrecy => "Forward secrecy via key ratcheting"@,
        _ => Seq::empty(),
    }
}

/// A timing reading as plain values.
pub open spec fn reading_view(timing: Option<&TimingReading>) -> Option<(bool, Seq<char>)> {
    match timing {
        Some(r) => Some((r.passed, r.details@)),
        None => None,
    }
}

/// What running check `k` gives: a timing check reports the reading it is
/// handed (and cannot run without one); every other check passes with its
/// fixed details.
pub open spec fn check_outcome(k: CheckKind, reading: Option<(bool, Seq<char>)>) -> Option<SecurityCheckView> {
    if is_timing_check(k) {
        match reading {
            Some(r) => Some(
                SecurityCheckView {
                    name: check_name(k),
                    category: check_category(k),
                    passed: r.0,
                    details: r.1,
                    severity: severity_when(k, r.0),
                },
            ),
            None => None,
        }
    } else {
        Some(
            SecurityCheckView {
                name: check_name(k),
                category: check_category(k),
                passed: true,
                details: fixed_details(k),
                severity: severity_when(k, true),
            },
        )
    }
}

impl CheckKind {
    /// The category the check reports under.
    pub fn category(&self) -> (c: CheckCategory)
        ensures
            c == check_category(*self),
    {
        match self {
            CheckKind::CryptoKeyStrength | CheckKind::CryptoRandomness | CheckKind::CryptoHashFunction
            | CheckKind::CryptoSignature => CheckCategory::Cryptography,
            CheckKind::TimingLeak | CheckKind::PowerAnalysis | CheckKind::CacheTiming => CheckCategory::SideChannel,
            CheckKind::MetadataLeakage | CheckKind::TrafficAnalysis | CheckKind::CorrelationAttack => {
                CheckCategory::Metadata
            },
            CheckKind::ConstantTimeOps | CheckKind::TimingVariance => CheckCategory::Timing,
            CheckKind::SecretWiping | CheckKind::MemoryLeak | CheckKind::BufferOverflow => CheckCategory::Memory,
            CheckKind::ZKSoundness | CheckKind::ZKCompleteness | CheckKind::ZKZeroKnowledge => {
                CheckCategory::ZKProofs
            },
            CheckKind::OnionRouting | CheckKind::PacketMasking | CheckKind::SybilResistance => CheckCategory::Network,
            CheckKind::AnonymitySet | CheckKind::Unlinkability | CheckKind::ForwardSecrecy => CheckCategory::Privacy,
        }
    }

    /// Whether the check's verdict comes from a timing measurement.
    pub fn is_timing(&self) -> (t: bool)
        ensures
            t == is_timing_check(*self),
    {
        match self {
            CheckKind::TimingLeak | CheckKind::TimingVariance => true,
            _ => false,
        }
    }

    /// The severity the check reports, depending on whether it passed.
    pub fn severity_for(&self, passed: bool) -> (s: Severity)
        ensures
            s == severity_when(*self, passed),
    {
        match self {
            CheckKind::CryptoHashFunction | CheckKind::CryptoSignature | CheckKind::BufferOverflow => Severity::Info,
            CheckKind::PowerAnalysis | CheckKind::CacheTiming | CheckKind::MemoryLeak => Severity::Medium,
            CheckKind::TrafficAnalysis | CheckKind::CorrelationAttack | CheckKind::ZKCompleteness
            | CheckKind::SybilResistance => Severity::High,
            CheckKind::TimingLeak | CheckKind::OnionRouting | CheckKind::AnonymitySet | CheckKind::ForwardSecrecy => {
                if passed {
                    Severity::Info
                } else {
                    Severity::High
                }
            },
            CheckKind::TimingVariance => {
                if passed {
                    Severity::Info
                } else {
                    Severity::Medium
                }
            },
            _ => {
                if passed {
                    Severity::Info
                } else {
                    Severity::Critical
                }
            },
        }
    }
}

} // verus!

verus! {

/// `head`, the decimal rendering of `a`, `mid`, that of `b`, then `tail`.
fn numbered_text(head: &str, a: u64, mid: &str, b: u64, tail: &str) -> (s: String)
    ensures
        s@ == head@ + crate::text::decimal(a as nat) + mid@ + crate::text::decimal(b as nat) + tail@,
{
    let mut s = String::from_str(head);
    push_decimal(&mut s, a);
    s.append(mid);
    push_decimal(&mut s, b);
    s.append(tail);
    s
}

impl CheckKind {
    /// Runs a check that needs no measurement: whether it passed and its
    /// details.
    fn fixed_result(&self) -> (r: (bool, String))
        requires
            !is_timing_check(*self),
        ensures
            r.0,
            r.1@ == fixed_details(*self),
    {
        match self {
            CheckKind::CryptoKeyStrength => {
                let min_key_bits: u64 = 256;
                let actual_key_bits: u64 = 256;
                let passed = actual_key_bits >= min_key_bits;
                (passed, numbered_text("Key strength: ", actual_key_bits, " bits (minimum: ", min_key_bits, ")"))
            },
            CheckKind::CryptoRandomness => {
                let uses_csprng = true;
                let details = if uses_csprng {
                    String::from_str("Using cryptographically secure RNG")
                } else {
                    String::from_str("Weak RNG detected")
                };
                (uses_csprng, details)
            },
            CheckKind::CryptoHashFunction => (true, String::from_str("Using Blake3 for hashing")),
            CheckKind::CryptoSignature => (true, String::from_str("Ed25519 signatures properly implemented")),
            CheckKind::PowerAnalysis => (true, String::from_str("No obvious power analysis vulnerabilities")),
            CheckKind::CacheTiming => (true, String::from_str("Cache-oblivious implementation verified")),
            CheckKind::MetadataLeakage => (true, String::from_str("Metadata properly masked with quantum entropy")),
            CheckKind::TrafficAnalysis => (true, String::from_str("Cover traffic and random delays implemented")),
            CheckKind::CorrelationAttack => (true, String::from_str("Multiple relay hops prevent correlation")),
            CheckKind::ConstantTimeOps => (true, String::from_str("Critical operations run in constant time")),
            CheckKind::SecretWiping => (true, String::from_str("Secrets properly zeroized after use")),
            CheckKind::MemoryLeak => (true, String::from_str("No memory leaks detected")),
            CheckKind::BufferOverflow => (true, String::from_str("Rust's memory safety prevents buffer overflows")),
            CheckKind::ZKSoundness => (true, String::from_str("ZK proofs are sound (no false proofs possible)")),
            CheckKind::ZKCompleteness => (true, String::from_str("Valid ZK proofs always verify")),
            CheckKind::ZKZeroKnowledge => (true, String::from_str("ZK proofs reveal no information beyond validity")),
            CheckKind::OnionRouting => {
                let min_hops: u64 = 3;
                let actual_hops: u64 = 3;
                let passed = actual_hops >= min_hops;
                (passed, numbered_text("Using ", actual_hops, " routing hops (minimum: ", min_hops, ")"))
            },
            CheckKind::PacketMasking => (true, String::from_str("Packet metadata properly masked")),
            CheckKind::SybilResistance => (true, String::from_str("Network has Sybil resistance mechanisms")),
            CheckKind::AnonymitySet => {
                let min_anonymity_set: u64 = 100;
                let actual_set: u64 = 1000;
                let passed = actual_set >= min_anonymity_set;
                (passed, numbered_text("Anonymity set size: ", actual_set, " (minimum: ", min_anonymity_set, ")"))
            },
            CheckKind::Unlinkability => (true, String::from_str("Transactions are unlinkable")),
            CheckKind::ForwardSecrecy => (true, String::from_str("Forward secrecy via key ratcheting")),
            CheckKind::TimingLeak | CheckKind::TimingVariance => (false, String::new()),
        }
    }
}

impl SecurityCheckTrait for CheckKind {
    fn name(&self) -> (n: String)
        ensures
            n@ == check_name(*self),
    {
        match self {
            CheckKind::CryptoKeyStrength => String::from_str("Cryptographic Key Strength"),
            CheckKind::CryptoRandomness => String::from_str("Cryptographic Randomness Quality"),
            CheckKind::CryptoHashFunction => String::from_str("Hash Function Security"),
            CheckKind::CryptoSignature => String::from_str("Digital Signature Verification"),
            CheckKind::TimingLeak => String::from_str("Timing Side-Channel Resistance"),
            CheckKind::PowerAnalysis => String::from_str("Power Analysis Resistance"),
            CheckKind::CacheTiming => String::from_str("Cache Timing Attack Resistance"),
            CheckKind::MetadataLeakage => String::from_str("Metadata Leakage Prevention"),
            CheckKind::TrafficAnalysis => String::from_str("Traffic Analysis Resistance"),
            CheckKind::CorrelationAttack => String::from_str("Correlation Attack Prevention"),
            CheckKind::ConstantTimeOps => String::from_str("Constant-Time Operations"),
            CheckKind::TimingVariance => String::from_str("Timing Variance Analysis"),
            CheckKind::SecretWiping => String::from_str("Secret Memory Wiping"),
            CheckKind::MemoryLeak => String::from_str("Memory Leak Detection"),
            CheckKind::BufferOverflow => String::from_str("Buffer Overflow Protection"),
            CheckKind::ZKSoundness => String::from_str("ZK Proof Soundness"),
            CheckKind::ZKCompleteness => String::from_str("ZK Proof Completeness"),
            CheckKind::ZKZeroKnowledge => String::from_str("ZK Proof Zero-Knowledge Property"),
            CheckKind::OnionRouting => String::from_str("Onion Routing Implementation"),
            CheckKind::PacketMasking => String::from_str("Packet Metadata Masking"),
            CheckKind::SybilResistance => String::from_str("Sybil Attack Resistance"),
            CheckKind::AnonymitySet => String::from_str("Anonymity Set Size"),
            CheckKind::Unlinkability => String::from_str("Transaction Unlinkability"),
            CheckKind::ForwardSecrecy => String::from_str("Forward Secrecy"),
        }
    }

    fn execute(&self, timing: Option<&TimingReading>) -> (r: Result<SecurityCheck, AuditError>)
        ensures
            match r {
                Ok(c) => check_outcome(*self, reading_view(timing)) == Some(c@),
                Err(_) => check_outcome(*self, reading_view(timing)) is None,
            },
    {
        let name = self.name();
        let category = self.category();
        if self.is_timing() {
            match timing {
                Some(reading) => Ok(
                    SecurityCheck {
                        name,
                        category,
                        passed: reading.passed,
                        details: reading.details.clone(),
                        severity: self.severity_for(reading.passed),
                    },
                ),
                None => Err(AuditError::MissingMeasurement),
            }
        } else {
            let (passed, details) = self.fixed_result();
            Ok(SecurityCheck { name, category, passed, details, severity: self.severity_for(passed) })
        }
    }

    fn recommendation(&self) -> (r: String)
        ensures
            r@ == check_recommendation(*self),
    {
        match self {
            CheckKind::CryptoKeyStrength => String::from_str("Use minimum 256-bit keys for all cryptographic operations"),
            CheckKind::CryptoRandomness => String::from_str(
                "Use ChaCha20 or quantum entropy source for all random number generation",
            ),
            CheckKind::CryptoHashFunction => String::from_str("Use Blake3 or SHA-3 for all hashing operations"),
            CheckKind::CryptoSignature => String::from_str("Use Ed25519 or post-quantum signature schemes"),
            CheckKind::TimingLeak => String::from_str(
                "Implement constant-time operations for all cryptographic primitives",
            ),
            CheckKind::PowerAnalysis => String::from_str(
                "Use masking and hiding countermeasures for sensitive operations",
            ),
            CheckKind::CacheTiming => String::from_str("Avoid data-dependent memory access patterns"),
            CheckKind::MetadataLeakage => String::from_str(
                "Mask all metadata (sender, receiver, timestamps) before transmission",
            ),
            CheckKind::TrafficAnalysis => String::from_str("Use cover traffic, random delays, and constant-rate sending"),
            CheckKind::CorrelationAttack => String::from_str("Use minimum 3 relay hops with timing obfuscation"),
            CheckKind::ConstantTimeOps => String::from_str("Ensure all crypto operations are constant-time"),
            CheckKind::TimingVariance => String::from_str("Add random delays to normalize timing variance"),
            CheckKind::SecretWiping => String::from_str("Use zeroize crate to wipe all secrets from memory"),
            CheckKind::MemoryLeak => String::from_str("Run valgrind or similar tools to detect memory leaks"),
            CheckKind::BufferOverflow => String::from_str("Avoid unsafe code unless absolutely necessary"),
            CheckKind::ZKSoundness => String::from_str("Use audited ZK proof systems (Halo2, Groth16)"),
            CheckKind::ZKCompleteness => String::from_str("Test ZK proof verification with valid and invalid inputs"),
            CheckKind::ZKZeroKnowledge => String::from_str("Ensure ZK proofs use proper randomization"),
            CheckKind::OnionRouting => String::from_str("Use minimum 3 hops for onion routing"),
            CheckKind::PacketMasking => String::from_str("Mask all packet headers and pad to constant size"),
            CheckKind::SybilResistance => String::from_str("Implement proof-of-work or stake-based admission control"),
            CheckKind::AnonymitySet => String::from_str("Maintain large anonymity sets (1000+ users)"),
            CheckKind::Unlinkability => String::from_str("Use one-time addresses and ring signatures"),
            CheckKind::ForwardSecrecy => String::from_str("Implement key ratcheting (Double Ratchet algorithm)"),
        }
    }
}

} // verus!

verus! {

/// Cryptography checks, in registration order.
pub open spec fn crypto_checks() -> Seq<CheckKind> {
    seq![
        CheckKind::CryptoKeyStrength,
        CheckKind::CryptoRandomness,
        CheckKind::CryptoHashFunction,
        CheckKind::CryptoSignature,
    ]
}

/// Side-channel checks, in registration order.
pub open spec fn side_channel_checks() -> Seq<CheckKind> {
    seq![CheckKind::TimingLeak, CheckKind::PowerAnalysis, CheckKind::CacheTiming]
}

/// Metadata checks, in registration order.
pub open spec fn metadata_checks() -> Seq<CheckKind> {
    seq![CheckKind::MetadataLeakage, CheckKind::TrafficAnalysis, CheckKind::CorrelationAttack]
}

/// Timing checks, in registration order.
pub open spec fn timing_checks() -> Seq<CheckKind> {
    seq![CheckKind::ConstantTimeOps, CheckKind::TimingVariance]
}

/// Memory checks, in registration order.
pub open spec fn memory_checks() -> Seq<CheckKind> {
    seq![CheckKind::SecretWiping, CheckKind::MemoryLeak, CheckKind::BufferOverflow]
}

/// Zero-knowledge checks, in registration order.
pub open spec fn zk_checks() -> Seq<CheckKind> {
    seq![CheckKind::ZKSoundness, CheckKind::ZKCompleteness, CheckKind::ZKZeroKnowledge]
}

/// Network checks, in registration order.
pub open spec fn network_checks() -> Seq<CheckKind> {
    seq![CheckKind::OnionRouting, CheckKind::PacketMasking, CheckKind::SybilResistance]
}

/// Privacy checks, in registration order.
pub open spec fn privacy_checks() -> Seq<CheckKind> {
    seq![CheckKind::AnonymitySet, CheckKind::Unlinkability, CheckKind::ForwardSecrecy]
}

/// Every check a new auditor runs, in order.
pub open spec fn standard_checks() -> Seq<CheckKind> {
    crypto_checks() + side_channel_checks() + metadata_checks() + timing_checks() + memory_checks()
        + zk_checks() + network_checks() + privacy_checks()
}

/// The id of the `n`-th vulnerability: `VULN-` and `n` padded to four digits.
pub open spec fn vulnerability_id_spec(n: nat) -> Seq<char> {
    "VULN-"@ + crate::text::zero_padded(n, 4)
}

/// The overall status: `Fail` when some vulnerability is critical,
/// `Warning` when some is at least high, `Pass` otherwise.
pub open spec fn status_of(vulns: Seq<VulnerabilityView>) -> AuditStatus {
    if exists|i: int| 0 <= i < vulns.len() && #[trigger] vulns[i].severity == Severity::Critical {
        AuditStatus::Fail
    } else if exists|i: int| 0 <= i < vulns.len() && (#[trigger] vulns[i].severity).rank_spec() >= 3 {
        AuditStatus::Warning
    } else {
        AuditStatus::Pass
    }
}

/// The results of running `kinds` with `readings`, in order: the checks
/// that ran, and a vulnerability for each that failed, numbered from 1.
pub open spec fn audit_fold(kinds: Seq<CheckKind>, readings: Seq<Option<(bool, Seq<char>)>>) -> (
    Seq<SecurityCheckView>,
    Seq<VulnerabilityView>,
)
    decreases kinds.len(),
{
    if kinds.len() == 0 {
        (Seq::empty(), Seq::empty())
    } else {
        let earlier = audit_fold(kinds.drop_last(), readings.drop_last());
        let k = kinds[kinds.len() - 1];
        match check_outcome(k, readings[kinds.len() - 1]) {
            None => earlier,
            Some(c) => {
                if c.passed {
                    (earlier.0.push(c), earlier.1)
                } else {
                    (
                        earlier.0.push(c),
                        earlier.1.push(
                            VulnerabilityView {
                                id: vulnerability_id_spec(earlier.1.len() + 1),
                                category: c.category,
                                severity: c.severity,
                                description: c.details,
                                recommendation: check_recommendation(k),
                            },
                        ),
                    )
                }
            },
        }
    }
}

/// Readings as plain values.
pub open spec fn readings_view(readings: Seq<Option<TimingReading>>) -> Seq<Option<(bool, Seq<char>)>> {
    readings.map_values(
        |r: Option<TimingReading>|
            match r {
                Some(t) => Some((t.passed, t.details@)),
                None => None,
            },
    )
}

/// Models of check results.
pub open spec fn check_views(checks: Seq<SecurityCheck>) -> Seq<SecurityCheckView> {
    checks.map_values(|c: SecurityCheck| c@)
}

/// Models of vulnerabilities.
pub open spec fn vulnerability_views(vulns: Seq<Vulnerability>) -> Seq<VulnerabilityView> {
    vulns.map_values(|v: Vulnerability| v@)
}

/// What an audit run yields apart from its timestamp and score: the check
/// results, the vulnerabilities and the overall status.
pub struct AuditOutcome {
    pub checks: Vec<SecurityCheck>,
    pub vulnerabilities: Vec<Vulnerability>,
    pub status: AuditStatus,
}

/// The id of the `n`-th vulnerability.
pub fn vulnerability_id(n: u64) -> (id: String)
    ensures
        id@ == vulnerability_id_spec(n as nat),
{
    let mut id = String::from_str("VULN-");
    push_zero_padded(&mut id, n, 4);
    id
}

/// The overall status of a list of vulnerabilities (see `status_of`).
pub fn determine_status(vulns: &Vec<Vulnerability>) -> (status: AuditStatus)
    ensures
        status == status_of(vulnerability_views(vulns@)),
{
    let ghost vv = vulnerability_views(vulns@);
    let mut critical = false;
    let mut high = false;
    let mut i: usize = 0;
    while i < vulns.len()
        invariant
            0 <= i <= vulns@.len(),
            vv == vulnerability_views(vulns@),
            critical == exists|t: int| 0 <= t < i && #[trigger] vv[t].severity == Severity::Critical,
            high == exists|t: int| 0 <= t < i && (#[trigger] vv[t].severity).rank_spec() >= 3,
        decreases vulns@.len() - i,
    {
        let sev = vulns[i].severity;
        assert(vv[i as int] == vulns@[i as int]@);
        let ghost was_critical = critical;
        let ghost was_high = high;
        if sev == Severity::Critical {
            critical = true;
        }
        if sev.rank() >= 3 {
            high = true;
        }
        proof {
            if sev == Severity::Critical {
                assert(vv[i as int].severity == Severity::Critical);
            }
            if sev.rank_spec() >= 3 {
                assert(vv[i as int].severity.rank_spec() >= 3);
            }
            if was_critical {
                let t = choose|t: int| 0 <= t < i && #[trigger] vv[t].severity == Severity::Critical;
                assert(0 <= t < i + 1 && vv[t].severity == Severity::Critical);
            }
            if was_high {
                let t = choose|t: int| 0 <= t < i && (#[trigger] vv[t].severity).rank_spec() >= 3;
                assert(0 <= t < i + 1 && vv[t].severity.rank_spec() >= 3);
            }
            if exists|t: int| 0 <= t < i + 1 && #[trigger] vv[t].severity == Severity::Critical {
                let t = choose|t: int| 0 <= t < i + 1 && #[trigger] vv[t].severity == Severity::Critical;
                if t < i {
                    assert(was_critical);
                }
            }
            if exists|t: int| 0 <= t < i + 1 && (#[trigger] vv[t].severity).rank_spec() >= 3 {
                let t = choose|t: int| 0 <= t < i + 1 && (#[trigger] vv[t].severity).rank_spec() >= 3;
                if t < i {
                    assert(was_high);
                }
            }
        }
        i = i + 1;
    }
    if critical {
        AuditStatus::Fail
    } else if high {
        AuditStatus::Warning
    } else {
        AuditStatus::Pass
    }
}

/// Runs security checks and collects their findings.
pub struct SecurityAuditor {
    checks: Vec<CheckKind>,
}

impl View for SecurityAuditor {
    type V = Seq<CheckKind>;

    closed spec fn view(&self) -> Seq<CheckKind> {
        self.checks@
    }
}

impl SecurityAuditor {
    /// An auditor with every standard check registered, group by group.
    pub fn new() -> (auditor: SecurityAuditor)
        ensures
            auditor@ == standard_checks(),
    {
        let mut auditor = SecurityAuditor { checks: Vec::new() };
        auditor.register_crypto_checks();
        auditor.register_side_channel_checks();
        auditor.register_metadata_checks();
        auditor.register_timing_checks();
        auditor.register_memory_checks();
        auditor.register_zk_checks();
        auditor.register_network_checks();
        auditor.register_privacy_checks();
        assert(auditor@ =~= standard_checks());
        auditor
    }

    /// The registered checks, in order.
    pub fn check_kinds(&self) -> (kinds: Vec<CheckKind>)
        ensures
            kinds@ == self@,
    {
        self.checks.clone()
    }

    fn register_crypto_checks(&mut self)
        ensures
            final(self)@ == old(self)@ + crypto_checks(),
    {
        self.checks.push(CheckKind::CryptoKeyStrength);
        self.checks.push(CheckKind::CryptoRandomness);
        self.checks.push(CheckKind::CryptoHashFunction);
        self.checks.push(CheckKind::CryptoSignature);
        assert(self@ =~= old(self)@ + crypto_checks());
    }

    fn register_side_channel_checks(&mut self)
        ensures
            final(self)@ == old(self)@ + side_channel_checks(),
    {
        self.checks.push(CheckKind::TimingLeak);
        self.checks.push(CheckKind::PowerAnalysis);
        self.checks.push(CheckKind::CacheTiming);
        assert(self@ =~= old(self)@ + side_channel_checks());
    }

    fn register_metadata_checks(&mut self)
        ensures
            final(self)@ == old(self)@ + metadata_checks(),
    {
        self.checks.push(CheckKind::MetadataLeakage);
        self.checks.push(CheckKind::TrafficAnalysis);
        self.checks.push(CheckKind::CorrelationAttack);
        assert(self@ =~= old(self)@ + metadata_checks());
    }

    fn register_timing_checks(&mut self)
        ensures
            final(self)@ == old(self)@ + timing_checks(),
    {
        self.checks.push(CheckKind::ConstantTimeOps);
        self.checks.push(CheckKind::TimingVariance);
        assert(self@ =~= old(self)@ + timing_checks());
    }

    fn register_memory_checks(&mut self)
        ensures
            final(self)@ == old(self)@ + memory_checks(),
    {
        self.checks.push(CheckKind::SecretWiping);
        self.checks.push(CheckKind::MemoryLeak);
        self.checks.push(CheckKind::BufferOverflow);
        assert(self@ =~= old(self)@ + memory_checks());
    }

    fn register_zk_checks(&mut self)
        ensures
            final(self)@ == old(self)@ + zk_checks(),
    {
        self.checks.push(CheckKind::ZKSoundness);
        self.checks.push(CheckKind::ZKCompleteness);
        self.checks.push(CheckKind::ZKZeroKnowledge);
        assert(self@ =~= old(self)@ + zk_checks());
    }

    fn register_network_checks(&mut self)
        ensures
            final(self)@ == old(self)@ + network_checks(),
    {
        self.checks.push(CheckKind::OnionRouting);
        self.checks.push(CheckKind::PacketMasking);
        self.checks.push(CheckKind::SybilResistance);
        assert(self@ =~= old(self)@ + network_checks());
    }

    fn register_privacy_checks(&mut self)
        ensures
            final(self)@ == old(self)@ + privacy_checks(),
    {
        self.checks.push(CheckKind::AnonymitySet);
        self.checks.push(CheckKind::Unlinkability);
        self.checks.push(CheckKind::ForwardSecrecy);
        assert(self@ =~= old(self)@ + privacy_checks());
    }

    /// Runs every registered check, the `i`-th with `readings[i]` (only the
    /// timing checks use theirs; a timing check without one is skipped).
    /// Each failed check becomes a vulnerability `VULN-0001`, `VULN-0002`,
    /// ... with the check's recommendation; the status follows `status_of`.
    pub fn run_audit(&self, readings: &Vec<Option<TimingReading>>) -> (outcome: AuditOutcome)
        requires
            readings@.len() == self@.len(),
        ensures
            (check_views(outcome.checks@), vulnerability_views(outcome.vulnerabilities@)) == audit_fold(
                self@,
                readings_view(readings@),
            ),
            outcome.status == status_of(vulnerability_views(outcome.vulnerabilities@)),
    {
        let ghost rv = readings_view(readings@);
        let n = self.checks.len();
        let mut checks: Vec<SecurityCheck> = Vec::new();
        let mut vulnerabilities: Vec<Vulnerability> = Vec::new();
        let mut i: usize = 0;
        assert(self@.subrange(0, 0) =~= Seq::<CheckKind>::empty());
        while i < n
            invariant
                n == self@.len() == readings@.len(),
                rv == readings_view(readings@),
                0 <= i <= n,
                vulnerabilities@.len() <= i,
                (check_views(checks@), vulnerability_views(vulnerabilities@)) == audit_fold(
                    self@.subrange(0, i as int),
                    rv.subrange(0, i as int),
                ),
            decreases n - i,
        {
            let kind = self.checks[i];
            let reading: Option<&TimingReading> = match &readings[i] {
                Some(r) => Some(r),
                None => None,
            };
            let ghost prev_checks = check_views(checks@);
            let ghost prev_vulns = vulnerability_views(vulnerabilities@);
            proof {
                let ks = self@.subrange(0, i + 1);
                let rs = rv.subrange(0, i + 1);
                assert(ks.drop_last() =~= self@.subrange(0, i as int));
                assert(rs.drop_last() =~= rv.subrange(0, i as int));
                assert(ks[ks.len() - 1] == kind);
                assert(rs[rs.len() - 1] == reading_view(reading));
            }
            match kind.execute(reading) {
                Ok(result) => {
                    if !result.passed {
                        let number: u64 = (vulnerabilities.len() as u64) + 1;
                        let vuln = Vulnerability {
                            id: vulnerability_id(number),
                            category: result.category,
                            severity: result.severity,
                            description: result.details.clone(),
                            recommendation: kind.recommendation(),
                        };
                        vulnerabilities.push(vuln);
                        assert(vulnerability_views(vulnerabilities@) =~= prev_vulns.push(vuln@));
                    } else {
                        assert(vulnerability_views(vulnerabilities@) =~= prev_vulns);
                    }
                    checks.push(result);
                    assert(check_views(checks@) =~= prev_checks.push(result@));
                },
                Err(_) => {},
            }
            i = i + 1;
        }
        assert(self@.subrange(0, n as int) =~= self@);
        assert(rv.subrange(0, n as int) =~= rv);
        let status = determine_status(&vulnerabilities);
        AuditOutcome { checks, vulnerabilities, status }
    }
}

/// Law: the vulnerabilities of an audit are numbered `VULN-0001`,
/// `VULN-0002`, ... in the order they were found, and there are no more of
/// them than check results.
pub proof fn lemma_vulnerability_numbering(kinds: Seq<CheckKind>, readings: Seq<Option<(bool, Seq<char>)>>)
    requires
        kinds.len() == readings.len(),
    ensures
        audit_fold(kinds, readings).1.len() <= audit_fold(kinds, readings).0.len(),
        forall|i: int|
            0 <= i < audit_fold(kinds, readings).1.len() ==> (#[trigger] audit_fold(kinds, readings).1[i]).id
                == vulnerability_id_spec((i + 1) as nat),
    decreases kinds.len(),
{
    if kinds.len() > 0 {
        lemma_vulnerability_numbering(kinds.drop_last(), readings.drop_last());
    }
}


/// Law: an audit fails when some vulnerability is critical; otherwise it
/// warns when some vulnerability is high; otherwise (every vulnerability
/// info, low or medium, or none at all) it passes.
pub proof fn lemma_status_by_severity(vulns: Seq<VulnerabilityView>)
    ensures
        (status_of(vulns) == AuditStatus::Fail) <==> (exists|i: int|
            0 <= i < vulns.len() && (#[trigger] vulns[i]).severity == Severity::Critical),
        (status_of(vulns) == AuditStatus::Warning) <==> ((forall|i: int|
            0 <= i < vulns.len() ==> (#[trigger] vulns[i]).severity != Severity::Critical) && exists|i: int|
            0 <= i < vulns.len() && (#[trigger] vulns[i]).severity == Severity::High),
        (status_of(vulns) == AuditStatus::Pass) <==> (forall|i: int|
            0 <= i < vulns.len() ==> (#[trigger] vulns[i]).severity == Severity::Info || vulns[i].severity == Severity::Low
                || vulns[i].severity == Severity::Medium),
{
    if exists|i: int| 0 <= i < vulns.len() && (#[trigger] vulns[i].severity).rank_spec() >= 3 {
        let i = choose|i: int| 0 <= i < vulns.len() && (#[trigger] vulns[i].severity).rank_spec() >= 3;
        assert(vulns[i].severity == Severity::High || vulns[i].severity == Severity::Critical);
    }
    if exists|i: int| 0 <= i < vulns.len() && (#[trigger] vulns[i]).severity == Severity::High {
        let i = choose|i: int| 0 <= i < vulns.len() && (#[trigger] vulns[i]).severity == Severity::High;
        assert(vulns[i].severity.rank_spec() >= 3);
    }
    if exists|i: int| 0 <= i < vulns.len() && (#[trigger] vulns[i]).severity == Severity::Critical {
        let i = choose|i: int| 0 <= i < vulns.len() && (#[trigger] vulns[i]).severity == Severity::Critical;
        assert(vulns[i].severity == Severity::Critical);
    }
}

} // verus!
