//! Modal dialogs of the edit and write flows: what they answer and how large they are.
use tvision_rs::Command;
use vstd::prelude::*;

use crate::names::command_name;
use crate::text::same_text;

pub mod confirm;
pub mod container_chooser;
pub mod error;

verus! {

/// The user's answer to the guard over unsaved changes.
#[derive(Debug, Clone, Copy, PartialEq, Eq, Structural)]
pub enum GuardDecision {
    Save,
    Discard,
    Stay,
}

/// The decision that a guard dialog's command stands for.
pub open spec fn decision_of(name: Seq<char>) -> GuardDecision {
    if name == "tv.yes"@ {
        GuardDecision::Save
    } else if name == "tv.no"@ {
        GuardDecision::Discard
    } else {
        GuardDecision::Stay
    }
}

/// The decision that a guard dialog's command stands for: the yes command saves, the no command
/// discards, and anything else (a window close among it) stays, which loses nothing.
pub fn guard_decision(answer: Command) -> (r: GuardDecision)
    ensures
        r == decision_of(command_name(answer)),
{
    let name: &str = answer.name();
    if same_text(name, "tv.yes") {
        GuardDecision::Save
    } else if same_text(name, "tv.no") {
        GuardDecision::Discard
    } else {
        GuardDecision::Stay
    }
}

/// Edits are given up by one command only.
pub proof fn only_no_discards(name: Seq<char>)
    requires
        decision_of(name) == GuardDecision::Discard,
    ensures
        name == "tv.no"@,
{
}

/// The yes command saves, and no other does; everything that is neither yes nor no stays.
pub proof fn only_yes_saves(name: Seq<char>)
    ensures
        decision_of(name) == GuardDecision::Save <==> name == "tv.yes"@,
        name != "tv.yes"@ && name != "tv.no"@ <==> decision_of(name) == GuardDecision::Stay,
{
    reveal_strlit("tv.yes");
    reveal_strlit("tv.no");
    assert("tv.yes"@.len() != "tv.no"@.len());
}

} // verus!
