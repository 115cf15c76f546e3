//! The phases of careful resume.

use vstd::prelude::*;

verus! {

/// The phase of a resuming connection. There is no observation phase: it
/// belongs to the connection whose parameters were saved.
#[derive(Clone, Copy, Debug, PartialEq, Eq, Structural)]
pub enum CrState {
    Reconnaissance,
    /// With the first packet sent in the phase.
    Unvalidated(u64),
    /// With the packet whose acknowledgement ends the phase.
    Validating(u64),
    /// With the last packet sent in the unvalidated phase.
    SafeRetreat(u64),
    Normal,
}

impl Default for CrState {
    fn default() -> (state: CrState)
        ensures
            state == CrState::Reconnaissance,
    {
        CrState::Reconnaissance
    }
}

/// How far careful resume has come in a phase.
pub open spec fn progress(state: CrState) -> nat {
    match state {
        CrState::Reconnaissance => 0,
        CrState::Unvalidated(_) => 1,
        CrState::Validating(_) => 2,
        CrState::SafeRetreat(_) => 2,
        CrState::Normal => 3,
    }
}

/// A window of an executable function as a mathematical number.
pub open spec fn window(w: Option<usize>) -> Option<nat> {
    match w {
        Some(w) => Some(w as nat),
        None => None,
    }
}

} // verus!
