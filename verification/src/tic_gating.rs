//! Gating decisions of the TIC crystallizer: the meso and macro levels of
//! the multiscale gate, the Merkaba proof status, and whether a crystal is
//! committed.
//!
//! Thresholds are compared with floating-point activations by the caller;
//! the outcomes of those comparisons come in as booleans.

use vstd::prelude::*;
use crate::text::text_eq;

verus! {

/// The meso level of the multiscale gate.
pub struct MesoGating {
    pub value: i32,
    pub passed: bool,
}

/// The macro level of the multiscale gate.
pub struct MacroGating {
    pub value: i32,
    pub passed: bool,
    pub commit: bool,
}

/// The meso and macro levels: both closed (value 0) when there were no
/// units; otherwise each is 1 exactly when its threshold was reached, and
/// it passes (and, at the macro level, commits) exactly when it is 1.
pub fn gate_levels(has_units: bool, meso_reached: bool, macro_reached: bool) -> (levels: (MesoGating, MacroGating))
    ensures
        levels.0.value == (if has_units && meso_reached { 1i32 } else { 0i32 }),
        levels.0.passed == (levels.0.value == 1),
        levels.1.value == (if has_units && macro_reached { 1i32 } else { 0i32 }),
        levels.1.passed == (levels.1.value == 1),
        levels.1.commit == (levels.1.value == 1),
{
    if !has_units {
        return (MesoGating { value: 0, passed: false }, MacroGating { value: 0, passed: false, commit: false });
    }
    let beta_meso: i32 = if meso_reached {
        1
    } else {
        0
    };
    let beta_macro: i32 = if macro_reached {
        1
    } else {
        0
    };
    (
        MesoGating { value: beta_meso, passed: beta_meso == 1 },
        MacroGating { value: beta_macro, passed: beta_macro == 1, commit: beta_macro == 1 },
    )
}

/// The number of entries equal to 1.
pub open spec fn ones_count(s: Seq<i32>) -> nat
    decreases s.len(),
{
    if s.len() == 0 {
        0
    } else {
        ones_count(s.drop_last()) + (if s[s.len() - 1] == 1 {
            1nat
        } else {
            0nat
        })
    }
}

/// The number of units whose activation reached the micro threshold.
pub fn active_units(activations: &Vec<i32>) -> (count: usize)
    ensures
        count == ones_count(activations@),
{
    let mut count: usize = 0;
    let mut i: usize = 0;
    while i < activations.len()
        invariant
            0 <= i <= activations@.len(),
            count == ones_count(activations@.subrange(0, i as int)),
            count <= i,
        decreases activations@.len() - i,
    {
        proof {
            let next = activations@.subrange(0, i + 1);
            assert(next.drop_last() =~= activations@.subrange(0, i as int));
        }
        if activations[i] == 1 {
            count = count + 1;
        }
        i = i + 1;
    }
    assert(activations@.subrange(0, activations@.len() as int) =~= activations@);
    count
}

/// The Merkaba proof status: `valid` exactly when proof of resonance is
/// valid and the gap, alignment and curvature conditions hold.
pub fn proof_status(por_status: &str, pi_gap_within: bool, phi_reached: bool, mci_reached: bool) -> (status: String)
    ensures
        status@ == (if por_status@ == "valid"@ && pi_gap_within && phi_reached && mci_reached {
            "valid"@
        } else {
            "invalid"@
        }),
{
    let por_valid = text_eq(por_status, "valid");
    if por_valid && pi_gap_within && phi_reached && mci_reached {
        String::from_str("valid")
    } else {
        String::from_str("invalid")
    }
}

/// Whether a crystal is committed: its proof status is `valid`, its gap
/// and curvature reach their minimums, and the macro gate commits.
pub fn should_commit(proof_por: &str, gap_reached: bool, mci_reached: bool, macro_commit: bool) -> (commit: bool)
    ensures
        commit == (proof_por@ == "valid"@ && gap_reached && mci_reached && macro_commit),
{
    if !text_eq(proof_por, "valid") {
        return false;
    }
    if !gap_reached {
        return false;
    }
    if !mci_reached {
        return false;
    }
    macro_commit
}

} // verus!
