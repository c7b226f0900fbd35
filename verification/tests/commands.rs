use ntoseye::backend::{CapabilityStatus, DebugBackend, DebugCapability, HwBreakpointAccess};
use ntoseye::error::Error;
use ntoseye::gdb::breakpoints::BreakpointManager;
use ntoseye::memory::{MemoryOps, DTB_IDENTITY};
use ntoseye::repl::commands::breakpoints::{
    breakpoint_condition, breakpoint_id_arg, breakpoint_table, cmd_ba, cmd_bc, cmd_bd, cmd_be,
    cmd_bl, cmd_bp, parse_hw_breakpoint_spec,
};
use ntoseye::repl::commands::meta::{cmd_user, script_failure, UserCommand};
use ntoseye::repl::commands::symbols::{
    cmd_ev, cmd_ln, cmd_set, cmd_unset, cmd_vars, cmd_x, X_LIMIT,
};
use ntoseye::repl::commands::table::{Builtin, RunState};
use ntoseye::repl::commands::{parse_command, CommandInvocation, CommandReply, CommandStyle};
use ntoseye::repl::completion::ReplCaches;
use ntoseye::target::{ProcessInfo, Target};
use ntoseye::types::{PhysAddr, VirtAddr};
use ntoseye::ui;
use ntoseye::variables::{BuiltinVar, Variables};

fn bp_invocation(argv: &[&str]) -> CommandInvocation {
    CommandInvocation {
        name: "bp".to_string(),
        argv: argv.iter().map(|a| a.to_string()).collect(),
        raw_tail: String::new(),
    }
}

#[test]
fn breakpoint_condition_accepts_comparison_tail() {
    let invocation = bp_invocation(&["nt!Foo", "$rax", "==", "1"]);

    assert_eq!(
        breakpoint_condition(&invocation, 1).as_deref(),
        Some("$rax == 1")
    );
}

#[test]
fn breakpoint_condition_preserves_chained_expression_tail() {
    let invocation = bp_invocation(&["nt!Foo", "$rax", "==", "1", "&&", "$rcx", "!=", "0"]);

    assert_eq!(
        breakpoint_condition(&invocation, 1).as_deref(),
        Some("$rax == 1 && $rcx != 0")
    );
}

#[test]
fn ev_keeps_expression_tail() {
    let parsed = parse_command("ev rax + rbx").unwrap();
    let invocation = parsed.invocation(CommandStyle::ExpressionTail);
    assert_eq!(invocation.raw_tail, "rax + rbx");
    assert!(invocation.argv.is_empty());
}

fn command(line: &str) -> CommandInvocation {
    parse_command(line).unwrap().invocation(CommandStyle::Words)
}

#[test]
fn command_lines_are_cut_into_words() {
    assert!(parse_command("").is_none());
    assert!(parse_command(" \t ").is_none());
    let parsed = parse_command("  bp  nt!Foo\t$rax == 1 ").unwrap();
    assert_eq!(parsed.name, "bp");
    assert_eq!(parsed.tail, "nt!Foo\t$rax == 1");
    let invocation = parsed.invocation(CommandStyle::Words);
    assert_eq!(invocation.argv, vec!["nt!Foo", "$rax", "==", "1"]);
    assert_eq!(invocation.arg(0), Some("nt!Foo"));
    assert_eq!(invocation.arg(4), None);
    assert_eq!(invocation.join_args(1), "$rax == 1");
    assert_eq!(invocation.join_args(9), "");
    assert!(breakpoint_condition(&invocation, 4).is_none());
}

#[test]
fn watch_specs_are_an_access_and_a_size() {
    use_spec("w4", Ok((HwBreakpointAccess::Write, 4)));
    use_spec("R8", Ok((HwBreakpointAccess::ReadWrite, 8)));
    use_spec("e", Ok((HwBreakpointAccess::Execute, 1)));
    use_spec("E3", Ok((HwBreakpointAccess::Execute, 3)));
    use_spec("w", Err("missing size in 'w' (e.g. ba w4 <address>)"));
    use_spec("", Err("invalid access in '' (use e=execute, r=read/write, w=write)"));
    use_spec("x4", Err("invalid access in 'x4' (use e=execute, r=read/write, w=write)"));
    use_spec("w256", Err("invalid size '256' (use 1, 2, 4, or 8)"));
    use_spec("r4b", Err("invalid size '4b' (use 1, 2, 4, or 8)"));
}

fn use_spec(spec: &str, expected: Result<(HwBreakpointAccess, u8), &str>) {
    match (parse_hw_breakpoint_spec(spec), expected) {
        (Ok(got), Ok(wanted)) => assert_eq!(got, wanted),
        (Err(Error::Rsp(got)), Err(wanted)) => assert_eq!(got, wanted),
        (got, _) => panic!("{spec}: {got:?}"),
    }
}

#[test]
fn breakpoint_ids_are_numbers() {
    assert_eq!(breakpoint_id_arg(&command("bc 17"), "bc").unwrap(), 17);
    assert!(matches!(
        breakpoint_id_arg(&command("bc"), "bc"),
        Err(CommandReply::Help("bc"))
    ));
    for bad in ["bc x", "bc -1", "bc 4294967296"] {
        match breakpoint_id_arg(&command(bad), "bc") {
            Err(CommandReply::Complaint(words)) => {
                assert_eq!(words, format!("invalid breakpoint ID: {}", &bad[3..]))
            }
            other => panic!("{other:?}"),
        }
    }
}

#[test]
fn built_in_commands_go_by_their_names() {
    let all = [
        ("continue", Builtin::Continue, RunState::Any),
        ("g", Builtin::Continue, RunState::Any),
        ("break", Builtin::Break, RunState::Running),
        ("si", Builtin::StepInto, RunState::Halted),
        ("t", Builtin::StepInto, RunState::Halted),
        ("p", Builtin::StepOver, RunState::Halted),
        ("ni", Builtin::StepOver, RunState::Halted),
        ("gu", Builtin::StepOut, RunState::Halted),
        ("finish", Builtin::StepOut, RunState::Halted),
        ("bp", Builtin::SetCode, RunState::Halted),
        ("ba", Builtin::SetHardware, RunState::Halted),
        ("bl", Builtin::ListBreakpoints, RunState::Any),
        ("bc", Builtin::Clear, RunState::Halted),
        ("bd", Builtin::Disable, RunState::Halted),
        ("be", Builtin::Enable, RunState::Halted),
        ("x", Builtin::Search, RunState::Any),
        ("ln", Builtin::Nearest, RunState::Any),
        ("ev", Builtin::Evaluate, RunState::Any),
        ("?", Builtin::Evaluate, RunState::Any),
        ("set", Builtin::Define, RunState::Any),
        ("vars", Builtin::ListVariables, RunState::Any),
        ("unset", Builtin::Undefine, RunState::Any),
        ("reload", Builtin::Reload, RunState::Any),
        ("quit", Builtin::Quit, RunState::Any),
        ("q", Builtin::Quit, RunState::Any),
    ];
    for (name, command, state) in all {
        assert_eq!(Builtin::named(name), Some(command));
        assert_eq!(command.run_state(), state);
        let style = match command {
            Builtin::Evaluate => CommandStyle::ExpressionTail,
            _ => CommandStyle::Words,
        };
        assert_eq!(command.style(), style);
    }
    for name in ["", "G", "bpx", "finis", "step"] {
        assert_eq!(Builtin::named(name), None);
    }
    assert!(RunState::Any.allows(true) && RunState::Any.allows(false));
    assert!(!RunState::Halted.allows(true) && RunState::Halted.allows(false));
    assert!(RunState::Running.allows(true) && !RunState::Running.allows(false));
}

struct Ram;

impl MemoryOps<PhysAddr> for Ram {
    fn read_bytes(&self, _addr: PhysAddr, buf: &mut [u8]) -> Result<(), Error> {
        buf.fill(0x90);
        Ok(())
    }

    fn write_bytes(&mut self, _addr: PhysAddr, _buf: &[u8]) -> Result<(), Error> {
        Ok(())
    }
}

struct Client(bool);

impl Client {
    fn answer(&self) -> Result<(), Error> {
        if self.0 {
            Ok(())
        } else {
            Err(Error::Kd("refused".to_string()))
        }
    }
}

impl DebugBackend for Client {
    fn capabilities(&self) -> Vec<CapabilityStatus> {
        [DebugCapability::KernelBreakpoints, DebugCapability::UserModeBreakpoints]
            .into_iter()
            .map(|capability| CapabilityStatus { capability, supported: true })
            .collect()
    }
    fn supports_watchpoints(&self) -> bool {
        true
    }
    fn set_breakpoint<M: MemoryOps<PhysAddr>>(
        &mut self,
        _memory: &mut M,
        _address: u64,
    ) -> Result<(), Error> {
        self.answer()
    }
    fn remove_breakpoint<M: MemoryOps<PhysAddr>>(
        &mut self,
        _memory: &mut M,
        _address: u64,
    ) -> Result<(), Error> {
        self.answer()
    }
    fn note_breakpoint_installed(&mut self, _address: u64) {}
    fn note_breakpoint_uninstalled(&mut self, _address: u64) {}
    fn set_hardware_breakpoint(
        &mut self,
        _slot: u8,
        _address: u64,
        _access: HwBreakpointAccess,
        _len: u8,
    ) -> Result<(), Error> {
        self.answer()
    }
    fn clear_hardware_breakpoint(&mut self, _slot: u8) -> Result<(), Error> {
        self.answer()
    }
    fn continue_execution(&mut self) -> Result<(), Error> {
        self.answer()
    }
}

fn caches() -> ReplCaches<(), (), ()> {
    ReplCaches {
        symbols: (),
        types: (),
        dtb: 0,
        processes: Vec::new(),
        threads: Vec::new(),
        vcpus: Vec::new(),
        breakpoints: Vec::new(),
        drivers: Vec::new(),
        registers: Vec::new(),
        expression_variables: Vec::new(),
        user_commands: Vec::new(),
        aliases: Vec::new(),
    }
}

fn target() -> Target<Ram> {
    Target {
        phys: Ram,
        current_process_info: None,
        current_dtb: DTB_IDENTITY,
        kernel_modules: None,
    }
}

/// The only expressions here are hexadecimal numbers.
fn eval(source: &str) -> Result<VirtAddr, Error> {
    match u64::from_str_radix(source, 16) {
        Ok(v) => Ok(VirtAddr(v)),
        Err(_) => Err(Error::Other(format!("no value: {source}"))),
    }
}

fn symbol(address: VirtAddr) -> Option<String> {
    if address.0 == 0x100 {
        Some("nt!Foo".to_string())
    } else {
        None
    }
}

fn parse(source: &str) -> Result<String, Error> {
    if source.contains("==") {
        Ok(source.to_string())
    } else {
        Err(Error::Other("no condition".to_string()))
    }
}

fn said(reply: CommandReply) -> String {
    match reply {
        CommandReply::Said(words) => words,
        other => panic!("{other:?}"),
    }
}

struct Session {
    manager: BreakpointManager<String>,
    caches: ReplCaches<(), (), ()>,
    client: Client,
    target: Target<Ram>,
}

impl Session {
    fn new() -> Self {
        Session {
            manager: BreakpointManager::new(),
            caches: caches(),
            client: Client(true),
            target: target(),
        }
    }

    fn bp(&mut self, line: &str) -> CommandReply {
        cmd_bp(
            &command(line),
            &mut self.manager,
            &mut self.caches,
            &mut self.client,
            &mut self.target,
            eval,
            symbol,
            parse,
            |_| Err(Error::NotSupported),
        )
    }

    fn ba(&mut self, line: &str) -> CommandReply {
        cmd_ba(
            &command(line),
            &mut self.manager,
            &mut self.caches,
            &mut self.client,
            eval,
            symbol,
            parse,
        )
    }

    fn change(&mut self, line: &str) -> CommandReply {
        let invocation = command(line);
        let (m, c, t) = (&mut self.manager, &mut self.client, &mut self.target);
        match invocation.name.as_str() {
            "bc" => cmd_bc(&invocation, m, &mut self.caches, c, t),
            "bd" => cmd_bd(&invocation, m, &mut self.caches, c, t),
            _ => cmd_be(&invocation, m, &mut self.caches, c, t),
        }
    }
}

#[test]
fn bp_sets_a_breakpoint_and_says_so() {
    let mut s = Session::new();
    assert!(matches!(s.bp("bp"), CommandReply::Help("bp")));
    assert!(matches!(s.bp("bp zz"), CommandReply::Failed(Error::Other(_))));
    assert!(matches!(s.bp("bp 100 junk"), CommandReply::Failed(Error::Other(_))));
    assert!(s.caches.breakpoints.is_empty());
    assert_eq!(
        said(s.bp("bp 100 $rax == 1")),
        format!(
            "breakpoint {} set at {} ({})\x1b[90m if $rax == 1\x1b[39m\x1b[90m (global)\x1b[39m\n",
            ui::bp_id(0),
            ui::addr(0x100),
            ui::symbol("nt!Foo")
        )
    );
    assert_eq!(s.manager.list()[0].condition_expr.as_ref().unwrap().as_str(), "$rax == 1");
    assert_eq!(s.caches.breakpoints.len(), 1);
    s.target.current_process_info = Some(ProcessInfo {
        pid: 8,
        name: "a.exe".to_string(),
        dtb: DTB_IDENTITY,
    });
    assert_eq!(
        said(s.bp("bp 200")),
        format!(
            "breakpoint {} set at {}\x1b[90m\x1b[39m\x1b[90m (a.exe (8))\x1b[39m\n",
            ui::bp_id(1),
            ui::addr(0x200)
        )
    );
}

#[test]
fn ba_arms_a_watch_and_says_so() {
    let mut s = Session::new();
    assert!(matches!(s.ba("ba"), CommandReply::Help("ba")));
    assert!(matches!(s.ba("ba w4"), CommandReply::Help("ba")));
    assert!(matches!(s.ba("ba q4 100"), CommandReply::Failed(Error::Rsp(_))));
    assert!(matches!(s.ba("ba w4 zz"), CommandReply::Failed(Error::Other(_))));
    assert!(matches!(s.ba("ba w4 102"), CommandReply::Failed(Error::Rsp(_))));
    assert_eq!(
        said(s.ba("ba w4 100")),
        format!(
            "hardware breakpoint {} ({} 4b) set at {} ({})\x1b[90m\x1b[39m\n",
            ui::bp_id(0),
            HwBreakpointAccess::Write.label(),
            ui::addr(0x100),
            ui::symbol("nt!Foo")
        )
    );
    assert_eq!(s.caches.breakpoints.len(), 1);
    s.client.0 = false;
    assert!(matches!(s.ba("ba w4 200"), CommandReply::Failed(Error::Kd(_))));
    assert_eq!(s.manager.list().len(), 1);
}

#[test]
fn breakpoints_are_cleared_disabled_and_enabled_by_id() {
    let mut s = Session::new();
    s.bp("bp 100");
    assert_eq!(said(s.change("bd 0")), format!("breakpoint {} disabled\n", ui::bp_id(0)));
    assert_eq!(s.caches.breakpoints[0].1, false);
    assert_eq!(said(s.change("be 0")), format!("breakpoint {} enabled\n", ui::bp_id(0)));
    assert_eq!(s.caches.breakpoints[0].1, true);
    s.client.0 = false;
    assert!(matches!(s.change("bc 0"), CommandReply::Failed(Error::Kd(_))));
    assert_eq!(s.caches.breakpoints.len(), 1);
    s.client.0 = true;
    assert_eq!(said(s.change("bc 0")), format!("breakpoint {} cleared\n", ui::bp_id(0)));
    assert!(s.caches.breakpoints.is_empty());
    for line in ["bc 0", "bd 0", "be 0"] {
        assert!(matches!(s.change(line), CommandReply::Failed(Error::BPNotFound(0))));
    }
    assert!(matches!(s.change("bd"), CommandReply::Help("bd")));
    assert!(matches!(s.change("be x"), CommandReply::Complaint(_)));
}

#[test]
fn bl_lays_the_breakpoints_out_in_a_table() {
    let mut s = Session::new();
    assert_eq!(said(cmd_bl(&s.manager)), "no breakpoints set\n");
    s.bp("bp 100 $rax == 1");
    s.ba("ba r8 208");
    s.change("bd 1");
    let rows = breakpoint_table(&s.manager);
    assert_eq!(
        rows[0],
        vec!["ID", "Status", "Type", "Address", "Symbol", "Condition", "Scope"]
    );
    assert_eq!(
        rows[1],
        vec![
            "0".to_string(),
            "enabled".to_string(),
            "sw".to_string(),
            ui::addr(0x100),
            "nt!Foo".to_string(),
            "$rax == 1".to_string(),
            "global".to_string(),
        ]
    );
    assert_eq!(
        rows[2],
        vec![
            "1".to_string(),
            "disabled".to_string(),
            "hw r8".to_string(),
            ui::addr(0x208),
            "-".to_string(),
            "-".to_string(),
            "global".to_string(),
        ]
    );
    let table = said(cmd_bl(&s.manager));
    let lines: Vec<&str> = table.lines().collect();
    assert_eq!(lines.len(), 3);
    assert!(table.ends_with('\n'));
    assert!(lines[0].starts_with("ID  Status    Type   Address"));
    assert!(lines[1].starts_with("0   enabled   sw     "));
    assert!(lines[2].starts_with("1   disabled  hw r8  "));
    assert!(lines[1].contains("nt!Foo  $rax == 1  global"));
}

fn lines(reply: CommandReply) -> Vec<String> {
    match reply {
        CommandReply::Lines(lines) => lines,
        other => panic!("{other:?}"),
    }
}

fn lookup(key: &str) -> Option<(VirtAddr, String)> {
    match key {
        "Foo" | "nt!Foo" => Some((VirtAddr(0x100), "nt".to_string())),
        "Bar" => Some((VirtAddr(0x200), "hal".to_string())),
        _ => None,
    }
}

#[test]
fn x_lists_what_it_finds() {
    let mut vars = Variables::new();
    assert!(matches!(
        cmd_x(&command("x"), "x", &mut vars, |_, _, _| panic!("no query"), &lookup),
        CommandReply::Help("x")
    ));
    let found = cmd_x(
        &command("x oo"),
        "x oo",
        &mut vars,
        |module, query, limit| {
            assert_eq!((module, query, limit), (None, "oo", X_LIMIT));
            vec!["Foo".to_string(), "Gone".to_string(), "Bar".to_string()]
        },
        &lookup,
    );
    assert_eq!(
        lines(found),
        vec![
            format!("{}  {}", ui::addr(0x100), ui::symbol("nt!Foo")),
            format!("{}  {}", ui::addr(0x200), ui::symbol("hal!Bar")),
            "".to_string(),
            "2 symbols (in $0..$1)".to_string(),
            "".to_string(),
        ]
    );
    assert_eq!(vars.results, vec![0x100, 0x200]);
    assert_eq!(vars.results_origin.as_deref(), Some("x oo"));
    let found = cmd_x(
        &command("x nt!F!x"),
        "x nt!F!x",
        &mut vars,
        |module, query, _| {
            assert_eq!((module, query), (Some("nt"), "F!x"));
            vec!["Foo".to_string()]
        },
        &lookup,
    );
    assert_eq!(lines(found)[2], "1 symbol (in $0..$0)");
    let found = cmd_x(&command("x q"), "x q", &mut vars, |_, _, _| Vec::new(), &lookup);
    assert_eq!(lines(found), vec!["no symbols match 'q'", ""]);
    assert!(vars.results.is_empty());
    let many = cmd_x(
        &command("x q"),
        "x q",
        &mut vars,
        |_, _, limit| vec!["Foo".to_string(); limit],
        &lookup,
    );
    assert_eq!(
        lines(many)[X_LIMIT + 1],
        "4096 symbols, truncated; refine query (in $0..$4095)"
    );
}

#[test]
fn ln_names_the_nearest_symbol() {
    let mut vars = Variables::new();
    let near = |a: VirtAddr| {
        if a.0 < 0x1000 {
            Some(("nt!Foo+0x4".to_string(), 4))
        } else {
            None
        }
    };
    assert!(matches!(
        cmd_ln(&command("ln"), "ln", &mut vars, eval, near),
        CommandReply::Help("ln")
    ));
    assert!(matches!(
        cmd_ln(&command("ln zz"), "ln zz", &mut vars, eval, near),
        CommandReply::Failed(Error::Other(_))
    ));
    assert_eq!(
        said(cmd_ln(&command("ln 104"), "ln 104", &mut vars, eval, near)),
        format!("{}  {}\n", ui::addr(0x104), ui::symbol("nt!Foo+0x4"))
    );
    assert_eq!(vars.results, vec![0x100]);
    assert_eq!(
        said(cmd_ln(&command("ln 1000"), "ln 1000", &mut vars, eval, near)),
        format!("no symbol found for {}\n", ui::addr(0x1000))
    );
    // What was not found leaves the results alone.
    assert_eq!(vars.results, vec![0x100]);
    assert_eq!(vars.results_origin.as_deref(), Some("ln 104"));
}

#[test]
fn ev_evaluates_the_whole_tail() {
    let mut vars = Variables::new();
    let tail = |line: &str| parse_command(line).unwrap().invocation(CommandStyle::ExpressionTail);
    assert!(matches!(
        cmd_ev(&tail("ev"), "ev", &mut vars, eval),
        CommandReply::Help("ev")
    ));
    assert!(matches!(
        cmd_ev(&tail("ev 1 + 2"), "ev 1 + 2", &mut vars, eval),
        CommandReply::Failed(Error::Other(why)) if why == "no value: 1 + 2"
    ));
    assert!(vars.results.is_empty());
    assert_eq!(said(cmd_ev(&tail("ev ff"), "ev ff", &mut vars, eval)), ui::addr(0xff));
    assert_eq!(vars.results, vec![0xff]);
}

#[test]
fn variables_are_set_and_unset_by_name() {
    let mut vars = Variables::new();
    let mut set = |line: &str| cmd_set(&command(line), &mut vars, eval);
    assert!(matches!(set("set"), CommandReply::Help("set")));
    assert!(matches!(set("set $a"), CommandReply::Help("set")));
    assert_eq!(said(set("set $b_1  1f")), format!("$b_1 = {}\n", ui::addr(0x1f)));
    assert_eq!(said(set("set a 2")), format!("$a = {}\n", ui::addr(2)));
    assert_eq!(said(set("set $b_1 3")), format!("$b_1 = {}\n", ui::addr(3)));
    assert!(matches!(set("set $c zz"), CommandReply::Failed(Error::Other(_))));
    for bad in ["set $0 1", "set $1x 1", "set $a-b 1", "set $ 1", "set $ä 1"] {
        match set(bad) {
            CommandReply::Complaint(words) => assert_eq!(
                words,
                format!(
                    "invalid variable name '{}' (must start with a letter or '_'; $<digits> are \
                     reserved for result slots)",
                    bad.split(' ').nth(1).unwrap()
                )
            ),
            other => panic!("{bad}: {other:?}"),
        }
    }
    let names: Vec<(&str, u64, &str)> =
        vars.user.iter().map(|v| (v.name.as_str(), v.value, v.source.as_str())).collect();
    assert_eq!(names, vec![("a", 2, "2"), ("b_1", 3, "3")]);
    assert!(matches!(cmd_unset(&command("unset"), &mut vars), CommandReply::Help("unset")));
    assert_eq!(said(cmd_unset(&command("unset $a"), &mut vars)), "unset $a\n");
    assert!(matches!(
        cmd_unset(&command("unset a"), &mut vars),
        CommandReply::Complaint(words) if words == "no such variable: $a"
    ));
    assert_eq!(vars.user.len(), 1);
}

#[test]
fn vars_lists_each_part_that_is_there() {
    let mut vars = Variables::new();
    assert_eq!(said(cmd_vars(&vars, &[])), "no variables defined\n");
    let builtins = [BuiltinVar {
        name: "pid".to_string(),
        value: 4,
        source: "current process".to_string(),
    }];
    let line = |name: &str, value, source: &str| {
        format!("  ${name:<16} {}   {}", ui::addr(value), ui::muted(source))
    };
    assert_eq!(
        lines(cmd_vars(&vars, &builtins)),
        vec![ui::label("builtins"), line("pid", 4, "current process"), "".to_string()]
    );
    vars.set_results(vec![7, 8, 9], "x foo".to_string());
    assert_eq!(
        lines(cmd_vars(&vars, &[])),
        vec![
            format!("  {}   {}", ui::muted("$0..$2"), ui::muted("from: x foo")),
            "".to_string(),
        ]
    );
    vars.set("b".to_string(), 2, "two".to_string());
    vars.set("a".to_string(), 1, "one".to_string());
    assert_eq!(
        lines(cmd_vars(&vars, &builtins)),
        vec![
            ui::label("user"),
            line("a", 1, "one"),
            line("b", 2, "two"),
            "".to_string(),
            format!("  {}   {}", ui::muted("$0..$2"), ui::muted("from: x foo")),
            "".to_string(),
            ui::label("builtins"),
            line("pid", 4, "current process"),
            "".to_string(),
        ]
    );
}

#[test]
fn unknown_commands_are_said_so() {
    assert!(matches!(cmd_user(&command("foo 1"), true), UserCommand::Script));
    match cmd_user(&command("foo 1"), false) {
        UserCommand::Unknown(reply) => assert_eq!(
            said(reply),
            "unknown command: 'foo' (try pressing tab to see available commands)\n"
        ),
        other => panic!("{other:?}"),
    }
    assert!(matches!(
        script_failure(&command("foo 1"), "boom"),
        CommandReply::Complaint(words) if words == "foo: boom"
    ));
}
