//! Commands about the surface itself.
use crate::repl::commands::{CommandInvocation, CommandReply};
use crate::text::text;
use vstd::prelude::*;
use vstd::string::*;

verus! {

/// What becomes of a command that is not built in.
#[derive(Debug)]
pub enum UserCommand {
    /// A script registered it: run that.
    Script,
    /// Nobody knows it.
    Unknown(CommandReply),
}

/// Decides what becomes of a command that is not built in; `scripted` says
/// whether a script registered it.
pub fn cmd_user(invocation: &CommandInvocation, scripted: bool) -> (r: UserCommand)
    ensures
        scripted ==> r is Script,
        !scripted ==> (r matches UserCommand::Unknown(reply) && reply.says(
            "unknown command: '"@ + invocation.name@
                + "' (try pressing tab to see available commands)\n"@,
        )),
{
    if scripted {
        return UserCommand::Script;
    }
    UserCommand::Unknown(
        CommandReply::Said(
            text("unknown command: '").concat(invocation.name.as_str()).concat(
                "' (try pressing tab to see available commands)\n",
            ),
        ),
    )
}

/// What is said where a script command fails.
pub fn script_failure(invocation: &CommandInvocation, reason: &str) -> (r: CommandReply)
    ensures
        r.complains(invocation.name@ + ": "@ + reason@),
{
    CommandReply::Complaint(text(invocation.name.as_str()).concat(": ").concat(reason))
}

} // verus!
