//! The built-in commands: what they are called, how what follows the name is
//! taken, and while the target does what they may be run.
use crate::repl::commands::CommandStyle;
use crate::text::same;
use vstd::prelude::*;
use vstd::string::*;

verus! {

/// A built-in command.
#[derive(Debug, Clone, Copy, PartialEq, Eq, Structural)]
pub enum Builtin {
    /// Runs the target.
    Continue,
    /// Breaks into the running target.
    Break,
    /// Steps one instruction.
    StepInto,
    /// Steps over the current instruction.
    StepOver,
    /// Runs until the current function returns.
    StepOut,
    /// Sets a breakpoint.
    SetCode,
    /// Sets a hardware breakpoint.
    SetHardware,
    /// Lists all breakpoints.
    ListBreakpoints,
    /// Clears a breakpoint.
    Clear,
    /// Disables a breakpoint.
    Disable,
    /// Enables a breakpoint.
    Enable,
    /// Searches symbols by name.
    Search,
    /// Lists the nearest symbol to an address.
    Nearest,
    /// Evaluates an expression.
    Evaluate,
    /// Defines a convenience variable.
    Define,
    /// Lists the variables and result slots.
    ListVariables,
    /// Removes a convenience variable.
    Undefine,
    /// Loads custom commands and aliases again.
    Reload,
    /// Ends the session.
    Quit,
}

/// While the target does what a command may be run.
#[derive(Debug, Clone, Copy, PartialEq, Eq, Structural)]
pub enum RunState {
    Any,
    Halted,
    Running,
}

impl RunState {
    /// Whether a command of this kind may be run.
    pub open spec fn spec_allows(self, running: bool) -> bool {
        match self {
            RunState::Any => true,
            RunState::Halted => !running,
            RunState::Running => running,
        }
    }

    /// Whether a command of this kind may be run while the target is running, or
    /// is not.
    pub fn allows(self, running: bool) -> (r: bool)
        ensures
            r == self.spec_allows(running),
    {
        match self {
            RunState::Any => true,
            RunState::Halted => !running,
            RunState::Running => running,
        }
    }
}

impl Builtin {
    /// Whether the command is called so.
    pub open spec fn called(self, name: Seq<char>) -> bool {
        match self {
            Builtin::Continue => name == "continue"@ || name == "g"@,
            Builtin::Break => name == "break"@,
            Builtin::StepInto => name == "si"@ || name == "t"@,
            Builtin::StepOver => name == "p"@ || name == "ni"@,
            Builtin::StepOut => name == "gu"@ || name == "finish"@,
            Builtin::SetCode => name == "bp"@,
            Builtin::SetHardware => name == "ba"@,
            Builtin::ListBreakpoints => name == "bl"@,
            Builtin::Clear => name == "bc"@,
            Builtin::Disable => name == "bd"@,
            Builtin::Enable => name == "be"@,
            Builtin::Search => name == "x"@,
            Builtin::Nearest => name == "ln"@,
            Builtin::Evaluate => name == "ev"@ || name == "?"@,
            Builtin::Define => name == "set"@,
            Builtin::ListVariables => name == "vars"@,
            Builtin::Undefine => name == "unset"@,
            Builtin::Reload => name == "reload"@,
            Builtin::Quit => name == "quit"@ || name == "q"@,
        }
    }

    /// The command that is called so.
    pub fn named(name: &str) -> (r: Option<Builtin>)
        ensures
            match r {
                Some(command) => command.called(name@),
                None => forall|command: Builtin| !#[trigger] command.called(name@),
            },
    {
        if same(name, "continue") || same(name, "g") {
            Some(Builtin::Continue)
        } else if same(name, "break") {
            Some(Builtin::Break)
        } else if same(name, "si") || same(name, "t") {
            Some(Builtin::StepInto)
        } else if same(name, "p") || same(name, "ni") {
            Some(Builtin::StepOver)
        } else if same(name, "gu") || same(name, "finish") {
            Some(Builtin::StepOut)
        } else if same(name, "bp") {
            Some(Builtin::SetCode)
        } else if same(name, "ba") {
            Some(Builtin::SetHardware)
        } else if same(name, "bl") {
            Some(Builtin::ListBreakpoints)
        } else if same(name, "bc") {
            Some(Builtin::Clear)
        } else if same(name, "bd") {
            Some(Builtin::Disable)
        } else if same(name, "be") {
            Some(Builtin::Enable)
        } else if same(name, "x") {
            Some(Builtin::Search)
        } else if same(name, "ln") {
            Some(Builtin::Nearest)
        } else if same(name, "ev") || same(name, "?") {
            Some(Builtin::Evaluate)
        } else if same(name, "set") {
            Some(Builtin::Define)
        } else if same(name, "vars") {
            Some(Builtin::ListVariables)
        } else if same(name, "unset") {
            Some(Builtin::Undefine)
        } else if same(name, "reload") {
            Some(Builtin::Reload)
        } else if same(name, "quit") || same(name, "q") {
            Some(Builtin::Quit)
        } else {
            None
        }
    }

    /// How what follows the command's name is taken.
    pub open spec fn spec_style(self) -> CommandStyle {
        if self == Builtin::Evaluate {
            CommandStyle::ExpressionTail
        } else {
            CommandStyle::Words
        }
    }

    /// How what follows the command's name is taken.
    pub fn style(self) -> (r: CommandStyle)
        ensures
            r == self.spec_style(),
    {
        match self {
            Builtin::Evaluate => CommandStyle::ExpressionTail,
            _ => CommandStyle::Words,
        }
    }

    /// While the target does what the command may be run: what changes
    /// breakpoints or steps needs it halted, what breaks into it needs it
    /// running.
    pub open spec fn spec_run_state(self) -> RunState {
        match self {
            Builtin::Break => RunState::Running,
            Builtin::StepInto
            | Builtin::StepOver
            | Builtin::StepOut
            | Builtin::SetCode
            | Builtin::SetHardware
            | Builtin::Clear
            | Builtin::Disable
            | Builtin::Enable => RunState::Halted,
            _ => RunState::Any,
        }
    }

    /// While the target does what the command may be run.
    pub fn run_state(self) -> (r: RunState)
        ensures
            r == self.spec_run_state(),
    {
        match self {
            Builtin::Break => RunState::Running,
            Builtin::StepInto
            | Builtin::StepOver
            | Builtin::StepOut
            | Builtin::SetCode
            | Builtin::SetHardware
            | Builtin::Clear
            | Builtin::Disable
            | Builtin::Enable => RunState::Halted,
            _ => RunState::Any,
        }
    }
}

/// No two commands share a name.
pub proof fn law_names_tell_commands_apart(a: Builtin, b: Builtin, name: Seq<char>)
    requires
        a.called(name),
        b.called(name),
    ensures
        a == b,
{
    reveal_strlit("continue");
    reveal_strlit("g");
    reveal_strlit("break");
    reveal_strlit("si");
    reveal_strlit("t");
    reveal_strlit("p");
    reveal_strlit("ni");
    reveal_strlit("gu");
    reveal_strlit("finish");
    reveal_strlit("bp");
    reveal_strlit("ba");
    reveal_strlit("bl");
    reveal_strlit("bc");
    reveal_strlit("bd");
    reveal_strlit("be");
    reveal_strlit("x");
    reveal_strlit("ln");
    reveal_strlit("ev");
    reveal_strlit("?");
    reveal_strlit("set");
    reveal_strlit("vars");
    reveal_strlit("unset");
    reveal_strlit("reload");
    reveal_strlit("quit");
    reveal_strlit("q");
    assert("continue"@.len() == 8 && "continue"@[0] == 'c' && "continue"@[1] == 'o');
    assert("g"@.len() == 1 && "g"@[0] == 'g');
    assert("break"@.len() == 5 && "break"@[0] == 'b' && "break"@[1] == 'r');
    assert("si"@.len() == 2 && "si"@[0] == 's' && "si"@[1] == 'i');
    assert("t"@.len() == 1 && "t"@[0] == 't');
    assert("p"@.len() == 1 && "p"@[0] == 'p');
    assert("ni"@.len() == 2 && "ni"@[0] == 'n' && "ni"@[1] == 'i');
    assert("gu"@.len() == 2 && "gu"@[0] == 'g' && "gu"@[1] == 'u');
    assert("finish"@.len() == 6 && "finish"@[0] == 'f' && "finish"@[1] == 'i');
    assert("bp"@.len() == 2 && "bp"@[0] == 'b' && "bp"@[1] == 'p');
    assert("ba"@.len() == 2 && "ba"@[0] == 'b' && "ba"@[1] == 'a');
    assert("bl"@.len() == 2 && "bl"@[0] == 'b' && "bl"@[1] == 'l');
    assert("bc"@.len() == 2 && "bc"@[0] == 'b' && "bc"@[1] == 'c');
    assert("bd"@.len() == 2 && "bd"@[0] == 'b' && "bd"@[1] == 'd');
    assert("be"@.len() == 2 && "be"@[0] == 'b' && "be"@[1] == 'e');
    assert("x"@.len() == 1 && "x"@[0] == 'x');
    assert("ln"@.len() == 2 && "ln"@[0] == 'l' && "ln"@[1] == 'n');
    assert("ev"@.len() == 2 && "ev"@[0] == 'e' && "ev"@[1] == 'v');
    assert("?"@.len() == 1 && "?"@[0] == '?');
    assert("set"@.len() == 3 && "set"@[0] == 's' && "set"@[1] == 'e');
    assert("vars"@.len() == 4 && "vars"@[0] == 'v' && "vars"@[1] == 'a');
    assert("unset"@.len() == 5 && "unset"@[0] == 'u' && "unset"@[1] == 'n');
    assert("reload"@.len() == 6 && "reload"@[0] == 'r' && "reload"@[1] == 'e');
    assert("quit"@.len() == 4 && "quit"@[0] == 'q' && "quit"@[1] == 'u');
    assert("q"@.len() == 1 && "q"@[0] == 'q');
}

} // verus!
