//! What leaving a form with unsaved edits leads to.
use vstd::prelude::*;

verus! {

/// What the user chose in the guard over unsaved edits.
#[derive(Debug, Clone, Copy, PartialEq, Eq, Structural)]
pub enum GuardChoice {
    Save,
    Discard,
    Stay,
}

/// What happens to the pending step.
#[derive(Debug, Clone, Copy, PartialEq, Eq, Structural)]
pub enum GuardOutcome {
    /// Go on with it.
    Proceed,
    /// Save first, then go on with it.
    SaveThenProceed,
    /// Drop it and keep editing.
    Cancel,
}

/// What a pending step leads to: a clean form never holds it up, a form with unsaved edits goes by
/// the choice, and without one stays.
pub open spec fn guarded(dirty: bool, choice: Option<GuardChoice>) -> GuardOutcome {
    if !dirty {
        GuardOutcome::Proceed
    } else {
        match choice {
            Some(GuardChoice::Save) => GuardOutcome::SaveThenProceed,
            Some(GuardChoice::Discard) => GuardOutcome::Proceed,
            _ => GuardOutcome::Cancel,
        }
    }
}

/// Decides what a pending step leads to.
pub fn guard_decision(dirty: bool, choice: Option<GuardChoice>) -> (r: GuardOutcome)
    ensures
        r == guarded(dirty, choice),
{
    if !dirty {
        return GuardOutcome::Proceed;
    }
    match choice {
        Some(GuardChoice::Save) => GuardOutcome::SaveThenProceed,
        Some(GuardChoice::Discard) => GuardOutcome::Proceed,
        Some(GuardChoice::Stay) | None => GuardOutcome::Cancel,
    }
}

/// Unsaved edits are given up only when the user chose to discard them.
pub proof fn edits_are_lost_only_by_choice(dirty: bool, choice: Option<GuardChoice>)
    requires
        dirty,
    ensures
        guarded(dirty, choice) == GuardOutcome::Proceed <==> choice == Some(GuardChoice::Discard),
{
}

/// A form without edits never holds a step up; one with edits is left by a choice only: saving first,
/// or discarding. Without a choice, or with the choice to stay, the step is dropped.
pub proof fn steps_go_on_by_choice(dirty: bool, choice: Option<GuardChoice>)
    ensures
        !dirty ==> guarded(dirty, choice) == GuardOutcome::Proceed,
        guarded(dirty, choice) == GuardOutcome::SaveThenProceed <==> dirty && choice == Some(
            GuardChoice::Save,
        ),
        guarded(dirty, choice) == GuardOutcome::Cancel <==> dirty && choice != Some(GuardChoice::Save)
            && choice != Some(GuardChoice::Discard),
{
}

} // verus!
