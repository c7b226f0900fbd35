use ntoseye::backend::{CapabilityStatus, DebugBackend, DebugCapability, HwBreakpointAccess};
use ntoseye::bugchecks::BugcheckInfo;
use ntoseye::error::Error;
use ntoseye::gdb::breakpoints::{BreakpointManager, HardwareBreakpoint};
use ntoseye::memory::{MemoryOps, DTB_IDENTITY};
use ntoseye::repl::commands::exec::{
    finish_run_to, run_to_temporary_code_breakpoint, surface_hardware_breakpoint_hit, BreakAsk,
    BreakReply, ReplState, RunAsk, RunReply, RunStage, RunTo, RunTurn, StepPlan,
};
use ntoseye::repl::completion::ReplCaches;
use ntoseye::repl::effects::{Effect, Trouble};
use ntoseye::repl::stop::{ModuleNews, TargetReloadStatus, STATUS_BREAKPOINT};
use ntoseye::repl::surface::SurfaceEnd;
use ntoseye::session::{BreakpointStopAction, StepKind, StopEvent, WatchpointStopAction};
use ntoseye::target::Target;
use ntoseye::types::{PhysAddr, VirtAddr};
use ntoseye::ui;

const NO_NEWS: ModuleNews = ModuleNews { report: None, event_changed: false };
const UNCHANGED: TargetReloadStatus = TargetReloadStatus::Unchanged;
const RELOADED: TargetReloadStatus =
    TargetReloadStatus::Reloaded { loaded_module_list_available: true };

const BUGCHECK: BugcheckInfo = BugcheckInfo { code: 0xD1, p1: 1, p2: 2, p3: 3, p4: 4 };

type Manager = BreakpointManager<()>;

fn event() -> StopEvent {
    StopEvent {
        exception_code: Some(STATUS_BREAKPOINT),
        program_counter: Some(0x100),
        is_bugcheck: false,
        bugcheck: None,
        target_kernel_base_hint: None,
        target_reloaded: false,
    }
}

fn owned() -> Manager {
    let mut manager = Manager::new();
    manager.insert_for_test(0, VirtAddr(0x100), true, None);
    manager
}

fn shown(effects: &[Effect]) -> Vec<String> {
    effects.iter().map(|e| format!("{e:?}")).collect()
}

fn asks(turn: &RunTurn) -> String {
    format!("{:?}", turn.ask)
}

/// A state that waits for a stop.
fn listening() -> ReplState {
    let manager = Manager::new();
    let mut state = ReplState::new();
    assert_eq!(asks(&state.continue_vm(RunReply::Start, &manager)), "IsRunning");
    assert_eq!(asks(&state.continue_vm(RunReply::Running(false), &manager)), "Resume");
    let turn = state.continue_vm(RunReply::Resumed(Ok(())), &manager);
    assert_eq!(shown(&turn.effects), vec!["Say(Waiting)", "DropInterrupt"]);
    assert_eq!(asks(&turn), "TakeInterrupt");
    state
}

/// A state that looks at a stop, which is neither the debugger's own nor a
/// watchpoint's nor left over from a step.
fn looking(event: StopEvent, status: TargetReloadStatus, manager: &Manager) -> ReplState {
    let mut state = listening();
    assert_eq!(asks(&state.continue_vm(RunReply::Interrupt(false), manager)), "Poll");
    assert_eq!(asks(&state.continue_vm(RunReply::Stop(Ok(Some(event))), manager)), "Reload");
    let turn = state.continue_vm(RunReply::Reload(event, status), manager);
    if asks(&turn) == "Assisted" {
        state.continue_vm(RunReply::Assisted(false), manager);
    }
    assert_eq!(state.stage, RunStage::Watching);
    let turn =
        state.continue_vm(RunReply::Watchpoint(Ok(WatchpointStopAction::NotBreakpoint)), manager);
    assert_eq!(asks(&turn), "StraySingleStep");
    let turn = state.continue_vm(RunReply::Stray(false), manager);
    assert_eq!(shown(&turn.effects), vec!["SelectStoppedThread", "RefreshVcpus"]);
    assert_eq!(asks(&turn), "Modules");
    state
}

#[test]
fn a_target_that_runs_is_not_resumed() {
    let manager = Manager::new();
    for (end, effects) in [
        (SurfaceEnd::Surfaced, vec![]),
        (SurfaceEnd::NoStop, vec!["Complain(AlreadyRunning)"]),
        (
            SurfaceEnd::Failed("gone".to_string()),
            vec!["Report(CheckingRunning, \"gone\")"],
        ),
    ] {
        let mut state = ReplState::new();
        state.continue_vm(RunReply::Start, &manager);
        assert_eq!(asks(&state.continue_vm(RunReply::Running(true), &manager)), "SurfacePending");
        let turn = state.continue_vm(RunReply::Surfaced(end), &manager);
        assert_eq!(shown(&turn.effects), effects);
        assert_eq!(asks(&turn), "Finish");
    }
}

#[test]
fn a_target_that_cannot_be_resumed_is_reported() {
    let manager = Manager::new();
    let mut state = ReplState::new();
    state.continue_vm(RunReply::Start, &manager);
    state.continue_vm(RunReply::Running(false), &manager);
    let turn = state.continue_vm(RunReply::Resumed(Err("no".to_string())), &manager);
    assert_eq!(shown(&turn.effects), vec!["Report(Continuing, \"no\")"]);
    assert_eq!(asks(&turn), "Finish");
    // Once done, an answer leads nowhere.
    let turn = state.continue_vm(RunReply::Running(false), &manager);
    assert!(turn.effects.is_empty());
    assert_eq!(asks(&turn), "Finish");
}

#[test]
fn waiting_goes_on_until_a_stop_or_an_interrupt() {
    let manager = Manager::new();
    let mut state = listening();
    state.continue_vm(RunReply::Interrupt(false), &manager);
    let turn = state.continue_vm(RunReply::Stop(Ok(None)), &manager);
    assert_eq!(asks(&turn), "TakeInterrupt");
    let turn = state.continue_vm(RunReply::Interrupt(true), &manager);
    assert_eq!(shown(&turn.effects), vec!["Blank"]);
    assert_eq!(asks(&state.continue_vm(RunReply::Stop(Ok(None)), &manager)), "Interrupt");
    assert_eq!(asks(&state.continue_vm(RunReply::Interrupted(Ok(event())), &manager)), "Reload");
    // A stop that the user asked for is never taken for the debugger's own.
    let turn = state.continue_vm(RunReply::Reload(event(), UNCHANGED), &manager);
    assert_eq!(asks(&turn), "Watchpoint");

    let mut state = listening();
    state.continue_vm(RunReply::Interrupt(true), &manager);
    state.continue_vm(RunReply::Stop(Ok(None)), &manager);
    let turn = state.continue_vm(RunReply::Interrupted(Err("deaf".to_string())), &manager);
    assert_eq!(shown(&turn.effects), vec!["Report(Waiting, \"deaf\")"]);
    let mut state = listening();
    state.continue_vm(RunReply::Interrupt(false), &manager);
    let turn = state.continue_vm(RunReply::Stop(Err("gone".to_string())), &manager);
    assert_eq!(shown(&turn.effects), vec!["Report(Waiting, \"gone\")"]);
}

#[test]
fn own_stops_are_resumed_without_a_word() {
    let manager = Manager::new();
    let mut state = listening();
    state.continue_vm(RunReply::Interrupt(false), &manager);
    state.continue_vm(RunReply::Stop(Ok(Some(event()))), &manager);
    assert_eq!(asks(&state.continue_vm(RunReply::Reload(event(), UNCHANGED), &manager)), "Assisted");
    assert_eq!(asks(&state.continue_vm(RunReply::Assisted(true), &manager)), "Continue");
    let mut failing = state;
    let turn = state.continue_vm(RunReply::Continued(Ok(())), &manager);
    assert!(turn.effects.is_empty());
    assert_eq!(asks(&turn), "TakeInterrupt");
    let turn = failing.continue_vm(RunReply::Continued(Err("no".to_string())), &manager);
    assert_eq!(shown(&turn.effects), vec!["Report(AssistedResume, \"no\")"]);
}

#[test]
fn reboots_are_dealt_with_first() {
    let manager = Manager::new();
    let mut state = listening();
    state.continue_vm(RunReply::Interrupt(false), &manager);
    state.continue_vm(RunReply::Stop(Ok(Some(event()))), &manager);
    let pending = TargetReloadStatus::PendingRediscovery { kernel_base_hint: None };
    let mut other = state;
    let turn = state.continue_vm(RunReply::Reload(event(), pending), &manager);
    assert_eq!(shown(&turn.effects), vec!["ShowPendingRediscovery"]);
    assert_eq!(asks(&turn), "Finish");
    assert!(state.reload_module_list_pending);
    // A reloaded kernel may owe its module list.
    let half = TargetReloadStatus::Reloaded { loaded_module_list_available: false };
    assert_eq!(asks(&other.continue_vm(RunReply::Reload(event(), half), &manager)), "Startup");
    let turn = other.continue_vm(RunReply::Startup(Some(VirtAddr(5))), &manager);
    assert_eq!(shown(&turn.effects)[0], "Say(ModuleList(5))");
    assert!(!other.reload_module_list_pending);
    assert_eq!(asks(&turn), "Watchpoint");
}

#[test]
fn watchpoints_are_claimed_before_stray_steps() {
    let manager = Manager::new();
    let watching = || {
        let mut state = listening();
        state.continue_vm(RunReply::Interrupt(true), &manager);
        state.continue_vm(RunReply::Stop(Ok(Some(event()))), &manager);
        state.continue_vm(RunReply::Reload(event(), UNCHANGED), &manager);
        assert_eq!(state.stage, RunStage::Watching);
        state
    };
    let turn = watching().continue_vm(
        RunReply::Watchpoint(Ok(WatchpointStopAction::Hit {
            id: 3,
            condition_error: Some("bad".to_string()),
        })),
        &manager,
    );
    assert_eq!(
        shown(&turn.effects),
        vec![
            "RefreshSymbolContext",
            "RefreshWindowsThread",
            "Report(WatchCondition, \"bad\")",
            "ShowHardwareHit(3)",
        ]
    );
    assert_eq!(asks(&turn), "Finish");
    let turn =
        watching().continue_vm(RunReply::Watchpoint(Ok(WatchpointStopAction::Resumed)), &manager);
    assert_eq!(asks(&turn), "TakeInterrupt");
    let turn = watching().continue_vm(RunReply::Watchpoint(Err("x".to_string())), &manager);
    assert_eq!(shown(&turn.effects), vec!["Report(Watchpoint, \"x\")"]);

    let mut state = watching();
    state.continue_vm(RunReply::Watchpoint(Ok(WatchpointStopAction::NotBreakpoint)), &manager);
    let turn = state.continue_vm(RunReply::Stray(true), &manager);
    assert_eq!(shown(&turn.effects), vec!["SelectStoppedThread", "ClearTrapFlag"]);
    assert_eq!(asks(&turn), "Continue");
    let mut failing = state;
    assert_eq!(asks(&state.continue_vm(RunReply::Continued(Ok(())), &manager)), "TakeInterrupt");
    let turn = failing.continue_vm(RunReply::Continued(Err("x".to_string())), &manager);
    assert_eq!(shown(&turn.effects), vec!["Report(StrayResume, \"x\")"]);
}

#[test]
fn breakpoint_hits_are_named() {
    let manager = owned();
    let mut state = looking(event(), UNCHANGED, &manager);
    let turn = state.continue_vm(RunReply::Modules(NO_NEWS), &manager);
    assert_eq!(
        shown(&turn.effects),
        vec![
            "RefreshProcesses(ProcessCache)",
            "RefreshExpressions",
            "RewindThreads",
        ]
    );
    assert_eq!(asks(&turn), "Registers");
    let mut blind = state;
    let turn = blind.continue_vm(RunReply::Registers(Err("x".to_string())), &manager);
    assert_eq!(shown(&turn.effects), vec!["Report(ReadingRegisters, \"x\")"]);
    let mut kernel = state;
    let turn = kernel.continue_vm(RunReply::Registers(Ok((0x100, 0))), &manager);
    assert_eq!(shown(&turn.effects), vec!["RefreshWindowsThread"]);
    let turn = state.continue_vm(RunReply::Registers(Ok((0x100, 0x5000))), &manager);
    assert_eq!(
        shown(&turn.effects),
        vec!["UseContext(20480)", "RefreshSymbolContext", "RefreshWindowsThread"]
    );
    assert!(matches!(turn.ask, RunAsk::Breakpoint { rip: 0x100, cr3: 0x5000 }));

    let hit = |temporary, condition_error| BreakpointStopAction::Hit {
        id: 0,
        symbol: None,
        temporary,
        condition_error,
    };
    let answer = |action| {
        let mut state = state;
        let turn = state.continue_vm(RunReply::Breakpoint(action), &manager);
        (shown(&turn.effects), asks(&turn))
    };
    assert_eq!(
        answer(Ok(hit(false, None))).0,
        vec!["Blank", "SayBreakpoint { id: 0, symbol: None }", "ShowBreak"]
    );
    assert_eq!(
        answer(Ok(hit(true, Some("bad".to_string())))).0,
        vec!["Report(BreakCondition, \"bad\")", "Blank", "ShowBreak"]
    );
    assert_eq!(
        answer(Ok(BreakpointStopAction::Resumed)),
        (Vec::new(), "TakeInterrupt".to_string())
    );
    assert_eq!(
        answer(Ok(BreakpointStopAction::NotBreakpoint)).0,
        vec!["ShowStopNotice { code: Some(2147483651), pc: Some(256) }", "Blank", "ShowBreak"]
    );
    assert_eq!(answer(Err("x".to_string())).0, vec!["Report(BreakpointStop, \"x\")"]);
}

#[test]
fn exceptions_that_no_breakpoint_causes_are_shown_at_once() {
    let manager = Manager::new();
    let mut state = looking(event(), UNCHANGED, &manager);
    let turn = state.continue_vm(RunReply::Modules(NO_NEWS), &manager);
    assert_eq!(
        shown(&turn.effects),
        vec![
            "ShowStopNotice { code: Some(2147483651), pc: Some(256) }",
            "Blank",
            "RefreshProcesses(ProcessCache)",
            "RefreshExpressions",
            "ShowBreak",
        ]
    );
    assert_eq!(asks(&turn), "Finish");
}

#[test]
fn bugchecks_are_never_taken_for_hits() {
    let manager = owned();
    let bugcheck = StopEvent { is_bugcheck: true, bugcheck: Some(BUGCHECK), ..event() };
    let mut state = looking(bugcheck, UNCHANGED, &manager);
    let turn = state.continue_vm(RunReply::Modules(NO_NEWS), &manager);
    assert_eq!(
        shown(&turn.effects),
        vec![
            "ShowBugcheck(Some(BugcheckInfo { code: 209, p1: 1, p2: 2, p3: 3, p4: 4 }))",
            "Blank",
            "RefreshProcesses(ProcessCache)",
            "RefreshExpressions",
            "ShowBreakForBugcheck(Some(BugcheckInfo { code: 209, p1: 1, p2: 2, p3: 3, p4: 4 }))",
        ]
    );
    assert_eq!(asks(&turn), "Finish");
}

#[test]
fn reloaded_kernels_announce_their_symbols() {
    let manager = Manager::new();
    let symbols = StopEvent {
        exception_code: None,
        target_kernel_base_hint: Some(VirtAddr(0x5000)),
        ..event()
    };
    let mut state = looking(symbols, RELOADED, &manager);
    let turn = state.continue_vm(
        RunReply::Modules(ModuleNews { report: None, event_changed: true }),
        &manager,
    );
    assert_eq!(
        shown(&turn.effects),
        vec!["RefreshDrivers", "RefreshExpressions", "ShowReloadNotification"]
    );
    assert_eq!(asks(&turn), "Finish");
}

#[test]
fn breaking_in_surfaces_a_stop_before_it_interrupts() {
    let state = ReplState::new();
    assert_eq!(state.interrupt_running_vm(BreakReply::Start).ask, BreakAsk::SurfacePending);
    let ask = |reply| {
        let turn = state.interrupt_running_vm(reply);
        (turn.ask, shown(&turn.effects))
    };
    assert_eq!(
        ask(BreakReply::Pending(SurfaceEnd::NoStop)),
        (BreakAsk::SurfaceInterrupt, Vec::new())
    );
    assert_eq!(ask(BreakReply::Pending(SurfaceEnd::Surfaced)), (BreakAsk::Finish, Vec::new()));
    assert_eq!(
        ask(BreakReply::Pending(SurfaceEnd::Failed("x".to_string()))),
        (BreakAsk::Finish, vec!["Report(CheckingRunning, \"x\")".to_string()])
    );
    assert_eq!(
        ask(BreakReply::Interrupted(SurfaceEnd::Failed("x".to_string()))),
        (BreakAsk::Finish, vec!["Report(Interrupting, \"x\")".to_string()])
    );
    assert_eq!(ask(BreakReply::Interrupted(SurfaceEnd::Surfaced)), (BreakAsk::Finish, Vec::new()));
}

#[test]
fn steps_are_planned() {
    let state = ReplState::new();
    assert_eq!(shown(&state.single_step(Ok(()))), vec!["Blank", "ShowBreak"]);
    assert_eq!(
        shown(&state.single_step(Err("x".to_string()))),
        vec!["Report(Stepping, \"x\")"]
    );
    assert!(matches!(state.cmd_p(Ok(StepKind::Single)), StepPlan::Single));
    assert!(matches!(
        state.cmd_p(Ok(StepKind::RunTo(VirtAddr(7)))),
        StepPlan::RunTo(VirtAddr(7))
    ));
    assert!(matches!(
        state.cmd_p(Err("x".to_string())),
        StepPlan::Refuse(Trouble::Decoding, why) if why == "x"
    ));
    assert!(matches!(state.cmd_gu(Ok(VirtAddr(7))), StepPlan::RunTo(VirtAddr(7))));
    assert!(matches!(
        state.cmd_gu(Err("x".to_string())),
        StepPlan::Refuse(Trouble::Plain, why) if why == "x"
    ));
}

struct Ram;

impl MemoryOps<PhysAddr> for Ram {
    fn read_bytes(&self, _addr: PhysAddr, buf: &mut [u8]) -> Result<(), Error> {
        buf.fill(0x90);
        Ok(())
    }

    fn write_bytes(&mut self, _addr: PhysAddr, _buf: &[u8]) -> Result<(), Error> {
        Ok(())
    }
}

struct Kernel {
    log: Vec<String>,
    supported: bool,
}

impl DebugBackend for Kernel {
    fn capabilities(&self) -> Vec<CapabilityStatus> {
        vec![CapabilityStatus {
            capability: DebugCapability::KernelBreakpoints,
            supported: self.supported,
        }]
    }
    fn supports_watchpoints(&self) -> bool {
        false
    }
    fn set_breakpoint<M: MemoryOps<PhysAddr>>(
        &mut self,
        _memory: &mut M,
        address: u64,
    ) -> Result<(), Error> {
        self.log.push(format!("set {address:x}"));
        Ok(())
    }
    fn remove_breakpoint<M: MemoryOps<PhysAddr>>(
        &mut self,
        _memory: &mut M,
        address: u64,
    ) -> Result<(), Error> {
        self.log.push(format!("remove {address:x}"));
        Ok(())
    }
    fn note_breakpoint_installed(&mut self, _address: u64) {}
    fn note_breakpoint_uninstalled(&mut self, _address: u64) {}
    fn set_hardware_breakpoint(
        &mut self,
        _slot: u8,
        _address: u64,
        _access: HwBreakpointAccess,
        _len: u8,
    ) -> Result<(), Error> {
        Err(Error::NotSupported)
    }
    fn clear_hardware_breakpoint(&mut self, _slot: u8) -> Result<(), Error> {
        Err(Error::NotSupported)
    }
    fn continue_execution(&mut self) -> Result<(), Error> {
        Ok(())
    }
}

fn caches() -> ReplCaches<(), (), ()> {
    ReplCaches {
        symbols: (),
        types: (),
        dtb: 0,
        processes: Vec::new(),
        threads: Vec::new(),
        vcpus: Vec::new(),
        breakpoints: Vec::new(),
        drivers: Vec::new(),
        registers: Vec::new(),
        expression_variables: Vec::new(),
        user_commands: Vec::new(),
        aliases: Vec::new(),
    }
}

#[test]
fn running_to_a_place_leaves_no_trace() {
    let mut target = Target {
        phys: Ram,
        current_process_info: None,
        current_dtb: DTB_IDENTITY,
        kernel_modules: None,
    };
    let mut client = Kernel { log: Vec::new(), supported: true };
    let mut manager = owned();
    manager.next_id = 1;
    let mut caches = caches();
    let run_to = |manager: &mut Manager, caches: &mut _, client: &mut _, target: &mut _, address| {
        run_to_temporary_code_breakpoint(
            manager,
            caches,
            client,
            target,
            VirtAddr(address),
            |_| Ok(()),
            |_| Err(Error::NotSupported),
        )
    };
    // A breakpoint is there already.
    assert!(matches!(run_to(&mut manager, &mut caches, &mut client, &mut target, 0x100), RunTo::Continue));
    assert!(client.log.is_empty() && caches.breakpoints.is_empty());
    let id = match run_to(&mut manager, &mut caches, &mut client, &mut target, 0x200) {
        RunTo::Temporary(id) => id,
        other => panic!("{other:?}"),
    };
    assert_eq!(caches.breakpoints.len(), 2);
    assert!(manager.list()[1].temporary);
    finish_run_to(&mut manager, &mut caches, &mut client, &mut target, id);
    assert_eq!(caches.breakpoints.len(), 1);
    assert_eq!(manager.list().len(), 1);
    assert_eq!(client.log, vec!["set 200", "remove 200"]);
    client.supported = false;
    assert!(matches!(
        run_to(&mut manager, &mut caches, &mut client, &mut target, 0x200),
        RunTo::Refused(Error::NotSupported)
    ));
}

#[test]
fn hardware_hits_name_the_watch() {
    let mut manager = Manager::new();
    manager.insert_for_test(
        5,
        VirtAddr(0x10),
        true,
        Some(HardwareBreakpoint { access: HwBreakpointAccess::ReadWrite, len: 8, slot: 0 }),
    );
    manager.breakpoints.get_mut(&5).unwrap().symbol = Some("nt!Foo".to_string());
    assert_eq!(
        surface_hardware_breakpoint_hit(manager.list()[0]),
        format!(
            "\x1b[1mhardware breakpoint:\x1b[0m {}\x1b[90m r8\x1b[39m ({})",
            ui::bp_id(5),
            ui::symbol("nt!Foo")
        )
    );
}
