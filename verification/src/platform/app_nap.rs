//! Keeping the app out of macOS App Nap while at least one service
//! webview is resident: the decision of when to take and when to drop
//! the activity assertion. Holding it is the platform layer's job.

use vstd::prelude::*;

verus! {

/// What a change in the resident service count asks of the assertion.
#[derive(Debug, Clone, Copy, PartialEq, Eq, Structural)]
pub enum HoldAction {
    /// From none resident to some: take the assertion.
    Acquire,
    /// From some resident to none: drop it.
    Release,
    /// No boundary crossed: leave it as it is.
    NoChange,
}

/// The action for a resident count going from `previous_count` to
/// `new_count`.
pub fn decide_hold_action(previous_count: usize, new_count: usize) -> (a: HoldAction)
    ensures
        a == if previous_count == 0 && new_count != 0 {
            HoldAction::Acquire
        } else if previous_count != 0 && new_count == 0 {
            HoldAction::Release
        } else {
            HoldAction::NoChange
        },
{
    if previous_count == 0 && new_count != 0 {
        HoldAction::Acquire
    } else if previous_count != 0 && new_count == 0 {
        HoldAction::Release
    } else {
        HoldAction::NoChange
    }
}

/// Following the decisions from 0 keeps the assertion held exactly when
/// some service is resident: after any change of count, it is held iff
/// the new count is not 0, given it was held iff the old one was not.
pub proof fn lemma_hold_tracks_residency(previous_count: usize, new_count: usize, held: bool)
    requires
        held == (previous_count != 0),
    ensures
        ({
            let a = if previous_count == 0 && new_count != 0 {
                HoldAction::Acquire
            } else if previous_count != 0 && new_count == 0 {
                HoldAction::Release
            } else {
                HoldAction::NoChange
            };
            let now_held = match a {
                HoldAction::Acquire => true,
                HoldAction::Release => false,
                HoldAction::NoChange => held,
            };
            now_held == (new_count != 0)
        }),
{
}

} // verus!
