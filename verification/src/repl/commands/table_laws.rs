//! What each command is called, when it may be run and how its line is taken.
use crate::repl::commands::meta::{cmd_user, script_failure, UserCommand};
use crate::repl::commands::table::{Builtin, RunState};
use crate::repl::commands::{CommandInvocation, CommandReply, CommandStyle};
use vstd::prelude::*;
use vstd::string::*;

verus! {

/// The names of a command, the second where it has two.
pub open spec fn names(command: Builtin) -> (Seq<char>, Option<Seq<char>>) {
    match command {
        Builtin::Continue => ("continue"@, Some("g"@)),
        Builtin::Break => ("break"@, None),
        Builtin::StepInto => ("si"@, Some("t"@)),
        Builtin::StepOver => ("p"@, Some("ni"@)),
        Builtin::StepOut => ("gu"@, Some("finish"@)),
        Builtin::SetCode => ("bp"@, None),
        Builtin::SetHardware => ("ba"@, None),
        Builtin::ListBreakpoints => ("bl"@, None),
        Builtin::Clear => ("bc"@, None),
        Builtin::Disable => ("bd"@, None),
        Builtin::Enable => ("be"@, None),
        Builtin::Search => ("x"@, None),
        Builtin::Nearest => ("ln"@, None),
        Builtin::Evaluate => ("ev"@, Some("?"@)),
        Builtin::Define => ("set"@, None),
        Builtin::ListVariables => ("vars"@, None),
        Builtin::Undefine => ("unset"@, None),
        Builtin::Reload => ("reload"@, None),
        Builtin::Quit => ("quit"@, Some("q"@)),
    }
}

/// A word calls a command if and only if it is one of the command's names.
pub proof fn law_words_call_commands(command: Builtin, word: Seq<char>)
    ensures
        command.called(word) <==> names(command).0 == word || names(command).1 == Some(word),
{
}

/// Stepping and changing breakpoints need a target that is halted, breaking in one that
/// runs; everything else may be done at any time.
pub proof fn law_run_states(command: Builtin, running: bool, state: RunState, r: bool)
    requires
        call_ensures(Builtin::run_state, (command,), state),
        call_ensures(RunState::allows, (state, running), r),
    ensures
        command == Builtin::Break ==> r == running,
        command is StepInto || command is StepOver || command is StepOut ==> r == !running,
        command is SetCode || command is SetHardware ==> r == !running,
        command is Clear || command is Disable || command is Enable ==> r == !running,
        command is Continue || command is ListBreakpoints || command is Search ==> r,
        command is Nearest || command is Evaluate || command is Define ==> r,
        command is ListVariables || command is Undefine || command is Reload ==> r,
        command is Quit ==> r,
{
}

/// Only `ev` takes what follows it as one expression.
pub proof fn law_styles(command: Builtin, r: CommandStyle)
    requires
        call_ensures(Builtin::style, (command,), r),
    ensures
        r == CommandStyle::ExpressionTail <==> command == Builtin::Evaluate,
        r == CommandStyle::Words <==> command != Builtin::Evaluate,
{
}

/// A command that is not built in goes to its script; where there is none, it is unknown,
/// by its name. A script that fails is blamed by the name of its command.
pub proof fn law_other_commands(
    invocation: &CommandInvocation,
    scripted: bool,
    reason: &str,
    r: UserCommand,
    failure: CommandReply,
)
    requires
        call_ensures(cmd_user, (invocation, scripted), r),
        call_ensures(script_failure, (invocation, reason), failure),
    ensures
        r is Script <==> scripted,
        r matches UserCommand::Unknown(reply) ==> (reply matches CommandReply::Said(words) && words@
            == "unknown command: '"@ + invocation.name@
            + "' (try pressing tab to see available commands)\n"@),
        failure matches CommandReply::Complaint(words) && words@ == invocation.name@ + ": "@
            + reason@,
{
}

} // verus!
