use ntoseye::backend::{CapabilityStatus, DebugBackend, HwBreakpointAccess};
use ntoseye::bugchecks::BugcheckInfo;
use ntoseye::error::Error;
use ntoseye::memory::MemoryOps;
use ntoseye::repl::effects::{breakpoint_hit_line, in_parentheses, Effect, Notice, Trouble};
use ntoseye::repl::stop::{
    apply_target_reload_if_needed, format_windows_thread, is_target_reload_load_symbols_stop,
    print_async_stop_context, print_target_reload_report, refresh_kernel_module_symbols_on_stop,
    refresh_stop_caches_post, refresh_stop_caches_pre,
    refresh_windows_thread_context_for_backend_thread, reload_outcome, resume_assisted_refresh_stop,
    should_resume_assisted_refresh_stop, stop_exception_cause,
    try_complete_pending_module_list_reload, update_reload_module_list_pending, ModuleNews,
    ModuleSymbolReport, ReloadOutcome, ReloadReport, StartupMessage, StopOutcome,
    TargetReloadStatus, ThreadInfo, STATUS_BREAKPOINT,
};
use ntoseye::repl::surface::{
    surface_interrupt_stop, surface_pending_stop, SurfaceAsk, SurfaceEnd, SurfaceReply,
    SurfaceStage, SurfaceTurn,
};
use ntoseye::session::{processor_index_from_backend_thread_id, StopEvent};
use ntoseye::types::{PhysAddr, VirtAddr};
use ntoseye::ui;

const NO_NEWS: ModuleNews = ModuleNews { report: None, event_changed: false };
const UNCHANGED: TargetReloadStatus = TargetReloadStatus::Unchanged;
const RELOADED: TargetReloadStatus =
    TargetReloadStatus::Reloaded { loaded_module_list_available: true };
const HALF_RELOADED: TargetReloadStatus =
    TargetReloadStatus::Reloaded { loaded_module_list_available: false };
const PENDING: TargetReloadStatus =
    TargetReloadStatus::PendingRediscovery { kernel_base_hint: None };

const BUGCHECK: BugcheckInfo = BugcheckInfo { code: 0xD1, p1: 1, p2: 2, p3: 3, p4: 4 };

fn event() -> StopEvent {
    StopEvent {
        exception_code: Some(STATUS_BREAKPOINT),
        program_counter: Some(0x100),
        is_bugcheck: false,
        bugcheck: None,
        target_kernel_base_hint: None,
        target_reloaded: false,
    }
}

fn shown(effects: &[Effect]) -> Vec<String> {
    effects.iter().map(|e| format!("{e:?}")).collect()
}

#[test]
fn new_modules_are_reported() {
    let report = |total, loaded| Some(ModuleSymbolReport { total, loaded });
    for (news, changed) in [
        (None, false),
        (report(0, 0), false),
        (report(3, 0), false),
        (report(3, 2), true),
    ] {
        let mut effects = Vec::new();
        assert_eq!(refresh_kernel_module_symbols_on_stop(news, &mut effects), changed);
        assert_eq!(effects.len(), if changed { 2 } else { 0 });
    }
    let mut effects = Vec::new();
    let news = ModuleNews { report: report(3, 2), event_changed: false };
    assert!(refresh_stop_caches_pre(news, &mut effects));
    assert_eq!(
        shown(&effects),
        vec![
            "ShowModuleSymbols(ModuleSymbolReport { total: 3, loaded: 2 })",
            "RefreshSymbolContext",
        ]
    );
    let mut effects = Vec::new();
    assert!(!refresh_stop_caches_pre(NO_NEWS, &mut effects));
    assert!(refresh_stop_caches_pre(
        ModuleNews { report: None, event_changed: true },
        &mut effects
    ));
    assert!(effects.is_empty());
}

#[test]
fn drivers_are_refreshed_only_where_the_module_set_changed() {
    let after = |reloaded, changed| {
        let mut effects = vec![Effect::Blank];
        refresh_stop_caches_post(&mut effects, reloaded, changed);
        shown(&effects)
    };
    assert_eq!(
        after(false, false),
        vec!["Blank", "RefreshProcesses(ProcessCache)", "RefreshExpressions"]
    );
    assert_eq!(after(true, true), vec!["Blank", "RefreshDrivers", "RefreshExpressions"]);
}

#[test]
fn reloads_are_reported_in_words() {
    let report = ReloadReport {
        previous_base_address: VirtAddr(0x1000),
        startup: Some(StartupMessage {
            base_address: VirtAddr(0x2000),
            loaded_module_list: None,
        }),
        symbol_report: Some(ModuleSymbolReport { total: 1, loaded: 1 }),
        symbol_error: Some("no server".to_string()),
    };
    let words = print_target_reload_report(&report);
    assert_eq!(
        words.line,
        format!(
            "\x1b[90mtarget:\x1b[39m kernel reloaded: {} -> {}, psmods {}",
            ui::addr(0x1000),
            ui::addr(0x2000),
            ui::addr_opt(None)
        )
    );
    assert_eq!(words.symbols, report.symbol_report);
    assert_eq!(
        words.error.as_deref(),
        Some("failed to refresh kernel module symbols after reload: no server")
    );
    let words = print_target_reload_report(&ReloadReport {
        startup: None,
        symbol_report: None,
        symbol_error: None,
        ..report
    });
    assert_eq!(
        words.line,
        format!("\x1b[90mtarget:\x1b[39m kernel reloaded: previous base {}", ui::addr(0x1000))
    );
    assert!(words.symbols.is_none() && words.error.is_none());
}

#[test]
fn reload_states_are_told_apart() {
    assert!(RELOADED.target_reloaded() && !UNCHANGED.target_reloaded());
    assert!(PENDING.pending_rediscovery() && !RELOADED.pending_rediscovery());
    assert!(RELOADED.loaded_module_list_available());
    assert!(!HALF_RELOADED.loaded_module_list_available() && !PENDING.loaded_module_list_available());
    let hint = Some(VirtAddr(0x5000));
    assert_eq!(
        TargetReloadStatus::PendingRediscovery { kernel_base_hint: hint }.kernel_base_hint(),
        hint
    );
    assert_eq!(RELOADED.kernel_base_hint(), None);
    for (before, status, after) in [
        (false, UNCHANGED, false),
        (true, UNCHANGED, true),
        (true, RELOADED, false),
        (false, HALF_RELOADED, true),
        (false, PENDING, true),
    ] {
        let mut pending = before;
        update_reload_module_list_pending(&mut pending, status);
        assert_eq!(pending, after);
    }
}

#[test]
fn an_owed_module_list_is_taken_up_once_it_is_there() {
    let take = |startup, before| {
        let mut pending = before;
        let mut effects = Vec::new();
        let done = try_complete_pending_module_list_reload(startup, &mut pending, &mut effects);
        (done, pending, shown(&effects))
    };
    assert_eq!(take(Some(VirtAddr(5)), false), (false, false, Vec::new()));
    assert_eq!(take(None, true), (false, true, Vec::new()));
    assert_eq!(take(Some(VirtAddr(0)), true), (false, true, Vec::new()));
    let (done, pending, effects) = take(Some(VirtAddr(5)), true);
    assert!(done && !pending);
    assert_eq!(
        effects,
        vec![
            "Say(ModuleList(5))",
            "RefreshModuleSymbols",
            "RefreshSymbolContext",
            "RefreshProcesses(ProcessCacheAfterModuleList)",
            "ForgetThreads",
            "RefreshDrivers",
            "RefreshVcpus",
            "RefreshExpressions",
            "NoteRediscoveryComplete",
        ]
    );
}

fn words(e: &Error) -> String {
    match e {
        Error::Kd(words) => words.clone(),
        other => panic!("{other:?}"),
    }
}

#[test]
fn only_a_missing_kernel_may_still_be_found() {
    for available in [false, true] {
        assert!(matches!(
            reload_outcome(Ok(available), words),
            ReloadOutcome::Found { loaded_module_list_available: found } if found == available
        ));
    }
    assert!(matches!(
        reload_outcome(Err(Error::NtoskrnlNotFound), words),
        ReloadOutcome::NotFound
    ));
    assert!(matches!(
        reload_outcome(Err(Error::Kd("gone".to_string())), words),
        ReloadOutcome::Failed(why) if why == "gone"
    ));
}

#[test]
fn reloads_rebuild_what_depends_on_the_kernel() {
    let mut stop = event();
    let (status, effects) =
        apply_target_reload_if_needed(false, &mut stop, 3, || panic!("nothing to reload"), words);
    assert_eq!(status, UNCHANGED);
    assert!(effects.is_empty() && !stop.target_reloaded);

    let (status, effects) =
        apply_target_reload_if_needed(true, &mut stop, 0, || (Ok(true), Some(VirtAddr(1))), words);
    assert_eq!(status, RELOADED);
    assert!(stop.target_reloaded);
    assert_eq!(
        shown(&effects),
        vec![
            "ForgetBreakpoints",
            "ShowReloadReport",
            "RefreshSymbolContext",
            "ResetVcpus",
            "ResetProcesses(ProcessCacheAfterReload)",
            "ForgetThreads",
            "ResetDrivers",
            "RefreshExpressions",
        ]
    );

    let (status, effects) = apply_target_reload_if_needed(
        true,
        &mut stop,
        2,
        || (Err(Error::NtoskrnlNotFound), Some(VirtAddr(7))),
        words,
    );
    assert_eq!(
        status,
        TargetReloadStatus::PendingRediscovery { kernel_base_hint: Some(VirtAddr(7)) }
    );
    assert_eq!(
        shown(&effects),
        vec![
            "ForgetBreakpoints",
            "Say(Undiscoverable)",
            "ForgetProcesses",
            "ResetVcpus",
            "ForgetDrivers",
            "RefreshExpressions",
            "Say(Dropped(2))",
        ]
    );

    let (_, effects) = apply_target_reload_if_needed(
        true,
        &mut stop,
        0,
        || (Err(Error::Kd("no luck".to_string())), None),
        words,
    );
    assert_eq!(shown(&effects)[1], "Report(Rediscovery, \"no luck\")");
}

#[test]
fn threads_are_shown_on_one_line() {
    let mut thread = ThreadInfo {
        process_name: None,
        state: None,
        ethread: VirtAddr(0x10),
        pid: None,
        tid: None,
    };
    let dim = |s: &str| format!("\x1b[90m{s}\x1b[39m");
    assert_eq!(
        format_windows_thread(&thread),
        format!("{} unknown  {} {}", dim("thread"), dim("ethread"), ui::addr(0x10))
    );
    thread.process_name = Some("a.exe".to_string());
    thread.state = Some("Waiting".to_string());
    thread.pid = Some(4);
    thread.tid = Some(8);
    assert_eq!(
        format_windows_thread(&thread),
        format!(
            "{} a.exe  {} Waiting  {} {}  {} 4  {} 8",
            dim("thread"),
            dim("state"),
            dim("ethread"),
            ui::addr(0x10),
            dim("pid"),
            dim("tid")
        )
    );
}

#[test]
fn windows_threads_are_looked_up_by_processor() {
    let mut current = None;
    let found = refresh_windows_thread_context_for_backend_thread(&mut current, "p1.3", |processor| {
        assert_eq!(processor, 2);
        Some(ThreadInfo {
            process_name: Some("a.exe".to_string()),
            state: None,
            ethread: VirtAddr(9),
            pid: Some(4),
            tid: None,
        })
    });
    assert_eq!(found.unwrap().ethread, VirtAddr(9));
    let kept = current.as_ref().unwrap();
    assert_eq!(kept.ethread, VirtAddr(9));
    assert_eq!((kept.process_name.as_deref(), kept.pid), (Some("a.exe"), Some(4)));
    assert!(refresh_windows_thread_context_for_backend_thread(&mut current, "bad", |_| {
        panic!("no processor")
    })
    .is_none());
    assert!(current.is_none());
    assert_eq!(processor_index_from_backend_thread_id("p1.ffff"), Some(0xFFFE));
    assert_eq!(processor_index_from_backend_thread_id("p1.10000"), None);
    assert_eq!(processor_index_from_backend_thread_id("p1.x"), None);
}

#[test]
fn exceptions_are_causes() {
    assert_eq!(stop_exception_cause(None, Some(1)), None);
    assert_eq!(
        stop_exception_cause(Some(STATUS_BREAKPOINT), None).as_deref(),
        Some("\x1b[90mexception\x1b[39m 0x80000003")
    );
    assert_eq!(
        stop_exception_cause(Some(5), Some(1)),
        Some(format!("\x1b[90mexception\x1b[39m 0x5 at {}", ui::addr(1)))
    );
}

#[test]
fn stops_that_were_not_waited_for_are_shown_by_kind() {
    let kind = |event, reload_status| {
        shown(&print_async_stop_context(StopOutcome { event, reload_status }, NO_NEWS))
    };
    assert_eq!(
        kind(event(), UNCHANGED),
        vec![
            "RefreshProcesses(ProcessCache)",
            "RefreshExpressions",
            "ShowBreakWithCause { code: Some(2147483651), pc: Some(256) }",
        ]
    );
    let bugcheck = StopEvent { is_bugcheck: true, bugcheck: Some(BUGCHECK), ..event() };
    assert_eq!(
        kind(bugcheck, UNCHANGED),
        vec![
            "ShowBugcheck(Some(BugcheckInfo { code: 209, p1: 1, p2: 2, p3: 3, p4: 4 }))",
            "Blank",
            "RefreshProcesses(ProcessCache)",
            "RefreshExpressions",
            "ShowBreakForBugcheck(Some(BugcheckInfo { code: 209, p1: 1, p2: 2, p3: 3, p4: 4 }))",
        ]
    );
    // A bugcheck of a kernel that is gone is none.
    assert_eq!(
        kind(bugcheck, RELOADED),
        vec!["RefreshExpressions", "ShowBreakWithCause { code: None, pc: None }"]
    );
    let symbols = StopEvent {
        exception_code: None,
        target_kernel_base_hint: Some(VirtAddr(1)),
        ..event()
    };
    assert!(is_target_reload_load_symbols_stop(&symbols, RELOADED));
    assert!(!is_target_reload_load_symbols_stop(&symbols, UNCHANGED));
    assert!(!is_target_reload_load_symbols_stop(&event(), RELOADED));
    assert_eq!(
        kind(symbols, RELOADED),
        vec!["RefreshExpressions", "ShowReloadNotification"]
    );
}

struct Runner(bool);

impl DebugBackend for Runner {
    fn capabilities(&self) -> Vec<CapabilityStatus> {
        Vec::new()
    }
    fn supports_watchpoints(&self) -> bool {
        false
    }
    fn set_breakpoint<M: MemoryOps<PhysAddr>>(
        &mut self,
        _memory: &mut M,
        _address: u64,
    ) -> Result<(), Error> {
        Err(Error::NotSupported)
    }
    fn remove_breakpoint<M: MemoryOps<PhysAddr>>(
        &mut self,
        _memory: &mut M,
        _address: u64,
    ) -> Result<(), Error> {
        Err(Error::NotSupported)
    }
    fn note_breakpoint_installed(&mut self, _address: u64) {}
    fn note_breakpoint_uninstalled(&mut self, _address: u64) {}
    fn set_hardware_breakpoint(
        &mut self,
        _slot: u8,
        _address: u64,
        _access: HwBreakpointAccess,
        _len: u8,
    ) -> Result<(), Error> {
        Err(Error::NotSupported)
    }
    fn clear_hardware_breakpoint(&mut self, _slot: u8) -> Result<(), Error> {
        Err(Error::NotSupported)
    }
    fn continue_execution(&mut self) -> Result<(), Error> {
        self.0 = true;
        Ok(())
    }
}

#[test]
fn the_debuggers_own_stops_are_resumed() {
    assert!(should_resume_assisted_refresh_stop(true, UNCHANGED));
    assert!(!should_resume_assisted_refresh_stop(false, UNCHANGED));
    assert!(!should_resume_assisted_refresh_stop(true, RELOADED));
    let mut client = Runner(false);
    resume_assisted_refresh_stop(&mut client).unwrap();
    assert!(client.0);
}

#[test]
fn trouble_and_notices_have_words() {
    assert_eq!(Trouble::Plain.report("why"), "why");
    assert_eq!(Trouble::Waiting.report("why"), "error waiting for stop: why");
    assert_eq!(
        Trouble::TemporaryBreakpoint(0x10).report("why"),
        format!("failed to set temporary breakpoint at {}: why", ui::addr(0x10))
    );
    assert_eq!(Notice::AlreadyRunning.line(), "VM is running");
    assert_eq!(
        Notice::Waiting.line(),
        "\x1b[90mVM running, waiting for stop (Ctrl+C to pause)...\x1b[39m"
    );
    assert_eq!(
        Notice::Dropped(12).line(),
        "\x1b[90mtarget:\x1b[39m dropped 12 stale breakpoint(s)"
    );
    assert_eq!(
        Notice::ModuleList(0x10).line(),
        format!("\x1b[90mtarget:\x1b[39m module list available: {}", ui::addr(0x10))
    );
    assert_eq!(
        Notice::Undiscoverable.line(),
        "\x1b[90mtarget:\x1b[39m reboot observed; Windows kernel is not discoverable yet"
    );
    assert_eq!(in_parentheses(&None), "");
    assert_eq!(
        breakpoint_hit_line(3, &Some("nt!Foo".to_string())),
        format!("\x1b[1mbreakpoint:\x1b[0m {} ({})", ui::bp_id(3), ui::symbol("nt!Foo"))
    );
}

fn finished(turn: &SurfaceTurn) -> Option<&SurfaceEnd> {
    match &turn.ask {
        SurfaceAsk::Finish(end) => Some(end),
        _ => None,
    }
}

#[test]
fn a_running_target_has_no_stop_to_surface() {
    let (mut surfacing, ask) = surface_pending_stop(false);
    assert!(matches!(ask, SurfaceAsk::Poll));
    let turn = surfacing.step(SurfaceReply::Stop(Ok(None)));
    assert!(matches!(finished(&turn), Some(SurfaceEnd::NoStop)));
    assert!(turn.effects.is_empty());
    // Once done, nothing more happens.
    let turn = surfacing.step(SurfaceReply::Stop(Ok(Some(event()))));
    assert!(matches!(turn.ask, SurfaceAsk::Idle));
    assert_eq!(surfacing.stage, SurfaceStage::Done);

    let (mut surfacing, _) = surface_pending_stop(false);
    let turn = surfacing.step(SurfaceReply::Stop(Err("gone".to_string())));
    assert!(matches!(finished(&turn), Some(SurfaceEnd::Failed(why)) if why == "gone"));
}

#[test]
fn own_stops_are_let_run() {
    let (mut surfacing, _) = surface_pending_stop(false);
    let turn = surfacing.step(SurfaceReply::Stop(Ok(Some(event()))));
    assert!(matches!(turn.ask, SurfaceAsk::Reload));
    let turn = surfacing.step(SurfaceReply::Reload(event(), UNCHANGED));
    assert_eq!(shown(&turn.effects), vec!["RefreshVcpus"]);
    assert!(matches!(turn.ask, SurfaceAsk::Assisted));
    let turn = surfacing.step(SurfaceReply::Assisted(true));
    assert!(matches!(turn.ask, SurfaceAsk::Continue));
    let turn = surfacing.step(SurfaceReply::Continued(Ok(())));
    assert!(matches!(finished(&turn), Some(SurfaceEnd::Surfaced)));
}

#[test]
fn an_interrupted_target_is_never_let_run() {
    let (mut surfacing, ask) = surface_interrupt_stop(false);
    assert!(matches!(ask, SurfaceAsk::Interrupt));
    surfacing.step(SurfaceReply::Stop(Ok(Some(event()))));
    let turn = surfacing.step(SurfaceReply::Reload(event(), UNCHANGED));
    // Processors are listed again before the modules are looked at.
    assert_eq!(
        shown(&turn.effects),
        vec!["RefreshVcpus", "Blank", "SelectStoppedThread", "RefreshVcpus"]
    );
    assert!(matches!(turn.ask, SurfaceAsk::Modules));
    let turn = surfacing.step(SurfaceReply::Modules(NO_NEWS));
    assert_eq!(
        shown(&turn.effects).last().unwrap(),
        "ShowBreakWithCause { code: Some(2147483651), pc: Some(256) }"
    );
    assert!(matches!(finished(&turn), Some(SurfaceEnd::Surfaced)));
    // The modules are looked at once.
    let turn = surfacing.step(SurfaceReply::Modules(NO_NEWS));
    assert!(matches!(turn.ask, SurfaceAsk::Idle) && turn.effects.is_empty());
}

#[test]
fn an_owed_module_list_keeps_the_target_stopped() {
    let (mut surfacing, _) = surface_pending_stop(true);
    surfacing.step(SurfaceReply::Stop(Ok(Some(event()))));
    let turn = surfacing.step(SurfaceReply::Reload(event(), UNCHANGED));
    assert!(matches!(turn.ask, SurfaceAsk::Startup));
    let turn = surfacing.step(SurfaceReply::Startup(None));
    assert!(matches!(turn.ask, SurfaceAsk::Modules));
    assert!(surfacing.pending);

    let (mut surfacing, _) = surface_pending_stop(true);
    surfacing.step(SurfaceReply::Stop(Ok(Some(event()))));
    surfacing.step(SurfaceReply::Reload(event(), UNCHANGED));
    let turn = surfacing.step(SurfaceReply::Startup(Some(VirtAddr(5))));
    assert_eq!(shown(&turn.effects)[0], "Say(ModuleList(5))");
    assert!(matches!(turn.ask, SurfaceAsk::Assisted));
    assert!(!surfacing.pending);
}

#[test]
fn undiscovered_kernels_are_shown_and_nothing_else() {
    let (mut surfacing, _) = surface_pending_stop(false);
    surfacing.step(SurfaceReply::Stop(Ok(Some(event()))));
    let turn = surfacing.step(SurfaceReply::Reload(event(), PENDING));
    assert_eq!(shown(&turn.effects), vec!["ShowPendingRediscovery"]);
    assert!(matches!(finished(&turn), Some(SurfaceEnd::Surfaced)));
    assert!(surfacing.pending);
}
