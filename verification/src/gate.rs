//! The version gate: decides whether a migration step must run, be skipped,
//! or be reported as invalid, from the persisted on-chain version and the
//! target version the running software expects.

use vstd::prelude::*;

verus! {

/// The verdict of the version gate for one migration step.
#[derive(Clone, Copy, Debug, PartialEq, Eq, Structural)]
pub enum Decision {
    /// The store is exactly one version behind the target: the step runs.
    Run,
    /// The store is already at (or beyond) the target: nothing to do.
    Skip,
    /// A version was skipped: migrations must run in strict linear order.
    Invalid,
}

/// What the version gate decides for a given on-chain and target version.
pub open spec fn spec_decide(onchain: u32, target: u32) -> Decision {
    if onchain >= target {
        Decision::Skip
    } else if onchain + 1 == target {
        Decision::Run
    } else {
        Decision::Invalid
    }
}

/// Decide whether the step from `target - 1` to `target` must run now.
///
/// Run iff `onchain == target - 1`; Skip iff `onchain >= target`;
/// Invalid iff `onchain < target - 1` (a version was skipped).
pub fn decide(onchain: u32, target: u32) -> (d: Decision)
    ensures
        d == spec_decide(onchain, target),
{
    if onchain >= target {
        Decision::Skip
    } else if target - onchain == 1 {
        Decision::Run
    } else {
        Decision::Invalid
    }
}

/// Linearity of the version gate: a step runs exactly when the store is one version
/// behind the target, and a gap of more than one version is invalid, never
/// run and never silently skipped.
pub proof fn lemma_gate_linearity(onchain: u32, target: u32)
    ensures
        spec_decide(onchain, target) == Decision::Invalid <==> target - onchain > 1,
        spec_decide(onchain, target) == Decision::Run <==> target - onchain == 1,
        spec_decide(onchain, target) == Decision::Skip <==> onchain >= target,
{
}

} // verus!
