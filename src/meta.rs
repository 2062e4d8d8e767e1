//! Meta-commands: operator directives that start with `.`.
use vstd::prelude::*;
use vstd::string::StringExecFns;

verus! {

/// What a meta-command asks for.
#[derive(Clone, Copy, Debug, PartialEq, Eq, Structural)]
pub enum MetaCommandResult {
    /// End the session at once, with status 0.
    MetaCommandExit,
    MetaCommandUnrecognizedCommand,
}

/// The one meta-command there is.
pub open spec fn exit_command() -> Seq<char> {
    ".exit"@
}

/// Dispatches a meta-command: exactly `.exit` ends the session; anything else
/// is unrecognized.
pub fn do_meta_command(meta_command: &str) -> (r: MetaCommandResult)
    ensures
        (r == MetaCommandResult::MetaCommandExit) == (meta_command@ == exit_command()),
        (r == MetaCommandResult::MetaCommandUnrecognizedCommand) == (meta_command@ != exit_command()),
{
    if String::from_str(meta_command) == String::from_str(".exit") {
        MetaCommandResult::MetaCommandExit
    } else {
        MetaCommandResult::MetaCommandUnrecognizedCommand
    }
}

} // verus!
