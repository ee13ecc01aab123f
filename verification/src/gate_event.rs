//! Gate decision events: FIRE exactly when proof of resonance is valid,
//! path invariance is within tolerance, alignment reaches its threshold
//! and the Lyapunov functional decreases.
//!
//! The three metric conditions compare floating-point values and come in
//! as their outcomes.

use vstd::prelude::*;

verus! {

/// The outcome of a gate event.
#[derive(Clone, Copy, Debug, PartialEq, Eq, Structural)]
pub enum GateDecision {
    FIRE,
    HOLD,
}

impl GateDecision {
    /// FIRE exactly when all four conditions hold.
    pub fn from_conditions(
        por_valid: bool,
        path_invariance_within: bool,
        alignment_reached: bool,
        lyapunov_decreasing: bool,
    ) -> (decision: GateDecision)
        ensures
            (decision == GateDecision::FIRE) == (por_valid && path_invariance_within && alignment_reached
                && lyapunov_decreasing),
    {
        if por_valid && path_invariance_within && alignment_reached && lyapunov_decreasing {
            GateDecision::FIRE
        } else {
            GateDecision::HOLD
        }
    }
}

} // verus!
