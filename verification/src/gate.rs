//! The decision of the Merkaba gate: commit a TIC candidate (FIRE) only
//! when proof of resonance is valid and the path-invariance, alignment and
//! Lyapunov conditions hold; otherwise HOLD with the reasons.
//!
//! The three metric conditions compare floating-point values; the caller
//! passes, for each one that failed, the text that reports it.

use vstd::prelude::*;
use crate::text::text_eq;

verus! {

/// The outcome of a gate evaluation.
pub struct GateDecision {
    /// Whether the TIC is committed to the ledger.
    pub commit: bool,
    /// Why.
    pub reason: String,
}

/// The failed conditions in order: an invalid proof of resonance, then
/// each metric condition that failed, with its report.
pub open spec fn hold_reasons(
    por_valid: bool,
    delta_pi_failure: Option<Seq<char>>,
    phi_failure: Option<Seq<char>>,
    delta_v_failure: Option<Seq<char>>,
) -> Seq<Seq<char>> {
    let a: Seq<Seq<char>> = if por_valid {
        Seq::empty()
    } else {
        seq!["PoR invalid"@]
    };
    let b = match delta_pi_failure {
        Some(t) => a.push(t),
        None => a,
    };
    let c = match phi_failure {
        Some(t) => b.push(t),
        None => b,
    };
    match delta_v_failure {
        Some(t) => c.push(t),
        None => c,
    }
}

/// An optional text as a character sequence.
pub open spec fn text_opt(t: Option<String>) -> Option<Seq<char>> {
    match t {
        Some(s) => Some(s@),
        None => None,
    }
}

/// Appends `part` to a list of reasons being joined by ", ".
fn push_reason(joined: &mut String, count: &mut usize, part: &str, Ghost(parts): Ghost<Seq<Seq<char>>>)
    requires
        old(joined)@ == crate::text::join_with(parts, ", "@),
        *old(count) == parts.len(),
        parts.len() < usize::MAX,
    ensures
        final(joined)@ == crate::text::join_with(parts.push(part@), ", "@),
        *final(count) == parts.len() + 1,
{
    let ghost next = parts.push(part@);
    assert(next.drop_last() =~= parts);
    if *count > 0 {
        joined.append(", ");
    } else {
        assert(parts.len() == 0);
    }
    joined.append(part);
    *count = *count + 1;
}

impl GateDecision {
    /// Decides from the proof-of-resonance status and the reports of the
    /// metric conditions that failed (`None` for each that held).
    pub fn from_checks(
        por: &str,
        delta_pi_failure: Option<String>,
        phi_failure: Option<String>,
        delta_v_failure: Option<String>,
    ) -> (decision: GateDecision)
        ensures
            decision.commit == (por@ == "valid"@ && delta_pi_failure is None && phi_failure is None
                && delta_v_failure is None),
            decision.commit ==> decision.reason@ == "All gate conditions satisfied (FIRE)"@,
            !decision.commit ==> decision.reason@ == "HOLD: "@ + crate::text::join_with(
                hold_reasons(
                    por@ == "valid"@,
                    text_opt(delta_pi_failure),
                    text_opt(phi_failure),
                    text_opt(delta_v_failure),
                ),
                ", "@,
            ),
    {
        let por_valid = text_eq(por, "valid");
        let commit = por_valid && delta_pi_failure.is_none() && phi_failure.is_none() && delta_v_failure.is_none();
        if commit {
            return GateDecision { commit, reason: String::from_str("All gate conditions satisfied (FIRE)") };
        }
        let mut joined = String::new();
        let mut count: usize = 0;
        let ghost mut parts: Seq<Seq<char>> = Seq::empty();
        if !por_valid {
            push_reason(&mut joined, &mut count, "PoR invalid", Ghost(parts));
            proof {
                parts = parts.push("PoR invalid"@);
            }
        }
        if let Some(t) = &delta_pi_failure {
            push_reason(&mut joined, &mut count, t.as_str(), Ghost(parts));
            proof {
                parts = parts.push(t@);
            }
        }
        if let Some(t) = &phi_failure {
            push_reason(&mut joined, &mut count, t.as_str(), Ghost(parts));
            proof {
                parts = parts.push(t@);
            }
        }
        if let Some(t) = &delta_v_failure {
            push_reason(&mut joined, &mut count, t.as_str(), Ghost(parts));
            proof {
                parts = parts.push(t@);
            }
        }
        assert(parts =~= hold_reasons(
            por_valid,
            text_opt(delta_pi_failure),
            text_opt(phi_failure),
            text_opt(delta_v_failure),
        ));
        let mut reason = String::from_str("HOLD: ");
        reason.append(joined.as_str());
        GateDecision { commit, reason }
    }
}

} // verus!
