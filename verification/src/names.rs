//! The names of commands and help contexts.
use tvision_rs::{Command, HelpCtx};
use vstd::prelude::*;

verus! {

/// `tvision_rs::Command`: a command, known by its name.
#[verifier::external_type_specification]
#[verifier::external_body]
pub struct ExCommand(Command);

/// The characters of a command's name.
pub uninterp spec fn command_name(c: Command) -> Seq<char>;

/// `Command::name`: the command's name.
pub assume_specification[ Command::name ](c: Command) -> (name: &'static str)
    ensures
        name@ == command_name(c),
;

/// `tvision_rs::HelpCtx`: a help context, known by its name.
#[verifier::external_type_specification]
#[verifier::external_body]
pub struct ExHelpCtx(HelpCtx);

/// The characters of a help context's name.
pub uninterp spec fn context_name(c: HelpCtx) -> Seq<char>;

/// `HelpCtx::name`: the help context's name.
pub assume_specification[ HelpCtx::name ](c: HelpCtx) -> (name: &'static str)
    ensures
        name@ == context_name(c),
;

} // verus!
