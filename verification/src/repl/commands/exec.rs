//! Running the target: continue, break, step, run to a place.
use crate::backend::DebugBackend;
use crate::error::Error;
use crate::gdb::breakpoints::{
    Breakpoint, BreakpointManager, BreakpointScope, CodeRequest, HardwareBreakpoint,
};
use crate::gdb::install::{is_context_scope, scope_for_current_context};
use crate::memory::MemoryOps;
use crate::repl::completion::{caches_follow, ReplCaches};
use crate::repl::effects::{in_parentheses, parenthesised, Effect, Notice, Trouble};
use crate::repl::stop::{
    completes, is_target_reload_load_symbols_stop, module_list_effects, pending_after,
    post_effects, refresh_stop_caches_post, refresh_stop_caches_pre,
    should_resume_assisted_refresh_stop, stop_tail, symbol_effects, try_complete_pending_module_list_reload,
    update_reload_module_list_pending, ModuleNews, StopOutcome, TargetReloadStatus,
};
use crate::repl::surface::{no_stop, SurfaceEnd};
use crate::session::{BreakpointStopAction, StepKind, StopEvent, WatchpointStopAction};
use crate::target::{machine, Machine, Target};
use crate::text::{dec, decimal, text, text_opt};
use crate::types::{PhysAddr, VirtAddr};
use crate::ui;
use crate::ui::{bright_black, spec_bp_id, spec_bright_black, spec_label};
use vstd::prelude::*;
use vstd::string::*;

verus! {

/// How far running the target has come.
#[derive(Debug, Clone, Copy, PartialEq, Eq, Structural)]
pub enum RunStage {
    /// Nothing is going on.
    Idle,
    /// Is the target running already?
    Checking,
    /// It is: is there a stop to surface?
    Surfacing,
    /// It is not: let it run.
    Resuming,
    /// Did the user ask for an interrupt?
    Listening,
    /// Is there a stop?
    Polling,
    /// The user asked: stop the target.
    Interrupting,
    /// Did the target reboot?
    Reloading,
    /// Is the owed module list there?
    Completing,
    /// Did the debugger bring the stop about?
    Judging,
    /// It did: let the target run.
    ResumingOwn,
    /// Was a watchpoint hit?
    Watching,
    /// Is the stop left over from a step?
    Straying,
    /// It is: let the target run.
    ResumingStray,
    /// Did the module set change?
    Looking,
    /// Where did the target stop?
    Reading,
    /// Was a breakpoint hit?
    Hitting,
}

/// What running the target needs to know next.
#[derive(Debug)]
pub enum RunAsk {
    IsRunning,
    SurfacePending,
    /// Step past a breakpoint at RIP, re-arm breakpoints, continue, and drop
    /// stale inspection caches.
    Resume,
    /// Take the user's request for an interrupt, if there is one.
    TakeInterrupt,
    Poll,
    Interrupt,
    Reload,
    Startup,
    Assisted,
    Continue,
    Watchpoint,
    StraySingleStep,
    /// Load the symbols of new modules, and find out whether the backend saw
    /// the module set change.
    Modules,
    /// Read the registers and take up those of the stopped context.
    Registers,
    Breakpoint { rip: u64, cr3: u64 },
    Finish,
}

/// The answers.
#[derive(Debug)]
pub enum RunReply {
    /// The user asks for the target to run.
    Start,
    Running(bool),
    Surfaced(SurfaceEnd),
    Resumed(Result<(), String>),
    Interrupt(bool),
    Stop(Result<Option<StopEvent>, String>),
    Interrupted(Result<StopEvent, String>),
    Reload(StopEvent, TargetReloadStatus),
    Startup(Option<VirtAddr>),
    Assisted(bool),
    Continued(Result<(), String>),
    Watchpoint(Result<WatchpointStopAction, String>),
    Stray(bool),
    Modules(ModuleNews),
    Registers(Result<(u64, u64), String>),
    Breakpoint(Result<BreakpointStopAction, String>),
}

/// What to do now, and what to find out then.
#[derive(Debug)]
pub struct RunTurn {
    pub effects: Vec<Effect>,
    pub ask: RunAsk,
}

/// What the breakpoints say about a stop.
#[derive(Debug, Clone, Copy, PartialEq, Eq, Structural)]
pub struct BreakpointFacts {
    /// Whether one of our int3s stands where the target stopped.
    pub owned: bool,
    /// Whether any breakpoint is enabled.
    pub any_enabled: bool,
}

/// The interactive surface.
#[derive(Debug, Clone, Copy, PartialEq, Eq, Structural)]
pub struct ReplState {
    pub stage: RunStage,
    /// Whether the user asked for the stop that is being dealt with.
    pub interrupt: bool,
    /// Whether the module list of a reloaded kernel is still owed.
    pub reload_module_list_pending: bool,
    pub outcome: StopOutcome,
    /// Whether the stop was shown as one that no breakpoint caused.
    pub noticed: bool,
    pub rip: u64,
    pub cr3: u64,
}

/// A turn and the state after it.
pub struct RunMove {
    pub state: ReplState,
    pub effects: Seq<Effect>,
    pub ask: RunAsk,
}

/// What the breakpoints say about a stop at `pc`.
pub open spec fn facts<E>(breakpoints: &BreakpointManager<E>, pc: Option<u64>) -> BreakpointFacts {
    BreakpointFacts {
        owned: pc matches Some(pc) && exists|k: u32| #[trigger]
            breakpoints.breakpoints@.contains_key(k) && breakpoints.breakpoints@[k].patched_at(
                VirtAddr(pc),
            ),
        any_enabled: exists|k: u32| #[trigger]
            breakpoints.breakpoints@.contains_key(k) && breakpoints.breakpoints@[k].enabled,
    }
}

impl ReplState {
    /// A surface where nothing is going on.
    pub fn new() -> (r: ReplState)
        ensures
            r.stage == RunStage::Idle,
            !r.interrupt,
            !r.reload_module_list_pending,
            r.outcome == no_stop(),
            !r.noticed,
            r.rip == 0,
            r.cr3 == 0,
            coherent(r),
    {
        ReplState {
            stage: RunStage::Idle,
            interrupt: false,
            reload_module_list_pending: false,
            outcome: StopOutcome {
                event: StopEvent {
                    exception_code: None,
                    program_counter: None,
                    is_bugcheck: false,
                    bugcheck: None,
                    target_kernel_base_hint: None,
                    target_reloaded: false,
                },
                reload_status: TargetReloadStatus::Unchanged,
            },
            noticed: false,
            rip: 0,
            cr3: 0,
        }
    }

    /// The question of each stage.
    pub open spec fn question(self) -> RunAsk {
        match self.stage {
            RunStage::Idle => RunAsk::Finish,
            RunStage::Checking => RunAsk::IsRunning,
            RunStage::Surfacing => RunAsk::SurfacePending,
            RunStage::Resuming => RunAsk::Resume,
            RunStage::Listening => RunAsk::TakeInterrupt,
            RunStage::Polling => RunAsk::Poll,
            RunStage::Interrupting => RunAsk::Interrupt,
            RunStage::Reloading => RunAsk::Reload,
            RunStage::Completing => RunAsk::Startup,
            RunStage::Judging => RunAsk::Assisted,
            RunStage::ResumingOwn => RunAsk::Continue,
            RunStage::Watching => RunAsk::Watchpoint,
            RunStage::Straying => RunAsk::StraySingleStep,
            RunStage::ResumingStray => RunAsk::Continue,
            RunStage::Looking => RunAsk::Modules,
            RunStage::Reading => RunAsk::Registers,
            RunStage::Hitting => RunAsk::Breakpoint { rip: self.rip, cr3: self.cr3 },
        }
    }

    /// Going on to a stage, with these effects before its question.
    pub open spec fn goes(self, stage: RunStage, effects: Seq<Effect>) -> RunMove {
        let state = ReplState { stage, ..self };
        RunMove { state, effects, ask: state.question() }
    }

    /// Going on with a stop.
    pub open spec fn stops(self, event: StopEvent) -> RunMove {
        (ReplState {
            outcome: StopOutcome { event, reload_status: TargetReloadStatus::Unchanged },
            ..self
        }).goes(RunStage::Reloading, Seq::empty())
    }

    /// Going on once nothing more can be done about the module list: a stop
    /// that nobody asked for and that changed nothing may be the debugger's own.
    pub open spec fn judges(self, effects: Seq<Effect>) -> RunMove {
        if !self.interrupt && !self.reload_module_list_pending && self.outcome.reload_status
            == TargetReloadStatus::Unchanged {
            self.goes(RunStage::Judging, effects)
        } else {
            self.goes(RunStage::Watching, effects)
        }
    }

    /// Whether the stop carries an exception that no breakpoint of ours causes.
    pub open spec fn stops_early(self, facts: BreakpointFacts) -> bool {
        &&& !(self.outcome.reload_status is Reloaded)
        &&& !self.outcome.bugchecks()
        &&& self.outcome.event.exception_code is Some
        &&& self.outcome.event.program_counter is Some
        &&& !facts.owned
    }

    /// What is done about a stop once the module set was looked at.
    pub open spec fn looked(self, news: ModuleNews, facts: BreakpointFacts) -> Seq<Effect> {
        let event = self.outcome.event;
        let effects = symbol_effects(Seq::empty(), news.report);
        let effects = if self.outcome.bugchecks() {
            effects.push(Effect::ShowBugcheck(event.bugcheck)).push(Effect::Blank)
        } else {
            effects
        };
        let effects = if self.stops_early(facts) {
            effects.push(
                Effect::ShowStopNotice { code: event.exception_code, pc: event.program_counter },
            ).push(Effect::Blank)
        } else {
            effects
        };
        let effects = post_effects(
            effects,
            self.outcome.reload_status is Reloaded,
            news.changed(),
        );
        if facts.any_enabled && !self.outcome.bugchecks() {
            effects.push(Effect::RewindThreads)
        } else {
            effects
        }
    }

    /// What is shown of a stop that is no hit.
    pub open spec fn shown(self, effects: Seq<Effect>) -> Seq<Effect> {
        let event = self.outcome.event;
        let effects = if !(self.outcome.reload_status is Reloaded) && !self.noticed
            && !self.outcome.bugchecks() {
            effects.push(
                Effect::ShowStopNotice { code: event.exception_code, pc: event.program_counter },
            ).push(Effect::Blank)
        } else {
            effects
        };
        if self.outcome.announces_symbols() {
            effects.push(Effect::ShowReloadNotification)
        } else if self.outcome.bugchecks() {
            effects.push(Effect::ShowBreakForBugcheck(event.bugcheck))
        } else {
            effects.push(Effect::ShowBreak)
        }
    }

    /// The effects so far, and the report of a condition that failed.
    pub open spec fn with_error(
        effects: Seq<Effect>,
        trouble: Trouble,
        error: Option<String>,
    ) -> Seq<Effect> {
        match error {
            Some(e) => effects.push(Effect::Report(trouble, e)),
            None => effects,
        }
    }

    /// What is shown of a breakpoint hit.
    pub open spec fn hit_effects(
        id: u32,
        symbol: Option<String>,
        temporary: bool,
        error: Option<String>,
    ) -> Seq<Effect> {
        let effects = Self::with_error(Seq::empty(), Trouble::BreakCondition, error).push(
            Effect::Blank,
        );
        let effects = if temporary {
            effects
        } else {
            effects.push(Effect::SayBreakpoint { id, symbol })
        };
        effects.push(Effect::ShowBreak)
    }

    /// Ending with trouble.
    pub open spec fn fails(self, trouble: Trouble, reason: String) -> RunMove {
        self.goes(RunStage::Idle, Seq::empty().push(Effect::Report(trouble, reason)))
    }

    /// What an answer leads to before the target stops. One that was not asked
    /// for leads nowhere.
    pub open spec fn next_running(self, reply: RunReply) -> RunMove {
        let none = Seq::<Effect>::empty();
        match (self.stage, reply) {
            (RunStage::Idle, RunReply::Start) => self.goes(RunStage::Checking, none),
            (RunStage::Checking, RunReply::Running(true)) => self.goes(RunStage::Surfacing, none),
            (RunStage::Checking, RunReply::Running(false)) => self.goes(RunStage::Resuming, none),
            (RunStage::Surfacing, RunReply::Surfaced(SurfaceEnd::Surfaced)) => self.goes(
                RunStage::Idle,
                none,
            ),
            (RunStage::Surfacing, RunReply::Surfaced(SurfaceEnd::NoStop)) => self.goes(
                RunStage::Idle,
                none.push(Effect::Complain(Notice::AlreadyRunning)),
            ),
            (RunStage::Surfacing, RunReply::Surfaced(SurfaceEnd::Failed(e))) => self.fails(
                Trouble::CheckingRunning,
                e,
            ),
            (RunStage::Resuming, RunReply::Resumed(Err(e))) => self.fails(Trouble::Continuing, e),
            (RunStage::Resuming, RunReply::Resumed(Ok(_))) => self.goes(
                RunStage::Listening,
                none.push(Effect::Say(Notice::Waiting)).push(Effect::DropInterrupt),
            ),
            (RunStage::Listening, RunReply::Interrupt(wanted)) => (ReplState {
                interrupt: wanted,
                ..self
            }).goes(
                RunStage::Polling,
                if wanted {
                    none.push(Effect::Blank)
                } else {
                    none
                },
            ),
            (RunStage::Polling, RunReply::Stop(Err(e))) => self.fails(Trouble::Waiting, e),
            (RunStage::Polling, RunReply::Stop(Ok(None))) => if self.interrupt {
                self.goes(RunStage::Interrupting, none)
            } else {
                self.goes(RunStage::Listening, none)
            },
            (RunStage::Polling, RunReply::Stop(Ok(Some(event)))) => self.stops(event),
            (RunStage::Interrupting, RunReply::Interrupted(Err(e))) => self.fails(
                Trouble::Waiting,
                e,
            ),
            (RunStage::Interrupting, RunReply::Interrupted(Ok(event))) => self.stops(event),
            _ => RunMove { state: self, effects: none, ask: self.question() },
        }
    }

    /// What an answer leads to while it is found out whether the stop is one to
    /// show.
    pub open spec fn next_classifying(self, reply: RunReply) -> RunMove {
        let none = Seq::<Effect>::empty();
        match (self.stage, reply) {
            (RunStage::Reloading, RunReply::Reload(event, reload_status)) => {
                let state = ReplState {
                    outcome: StopOutcome { event, reload_status },
                    reload_module_list_pending: pending_after(
                        self.reload_module_list_pending,
                        reload_status,
                    ),
                    ..self
                };
                if reload_status is PendingRediscovery {
                    state.goes(RunStage::Idle, none.push(Effect::ShowPendingRediscovery))
                } else if state.reload_module_list_pending {
                    state.goes(RunStage::Completing, none)
                } else {
                    state.judges(none)
                }
            },
            (RunStage::Completing, RunReply::Startup(startup)) => if completes(
                self.reload_module_list_pending,
                startup,
            ) {
                (ReplState { reload_module_list_pending: false, ..self }).judges(
                    none + module_list_effects((startup->0).0),
                )
            } else {
                self.judges(none)
            },
            (RunStage::Judging, RunReply::Assisted(assisted)) => if assisted
                && self.outcome.reload_status == TargetReloadStatus::Unchanged {
                self.goes(RunStage::ResumingOwn, none)
            } else {
                self.goes(RunStage::Watching, none)
            },
            (RunStage::ResumingOwn, RunReply::Continued(Err(e))) => self.fails(
                Trouble::AssistedResume,
                e,
            ),
            (RunStage::ResumingOwn, RunReply::Continued(Ok(_))) => self.goes(
                RunStage::Listening,
                none,
            ),
            (RunStage::Watching, RunReply::Watchpoint(Err(e))) => self.fails(
                Trouble::Watchpoint,
                e,
            ),
            (RunStage::Watching, RunReply::Watchpoint(Ok(action))) => match action {
                WatchpointStopAction::Hit { id, condition_error } => self.goes(
                    RunStage::Idle,
                    Self::with_error(
                        none.push(Effect::RefreshSymbolContext).push(Effect::RefreshWindowsThread),
                        Trouble::WatchCondition,
                        condition_error,
                    ).push(Effect::ShowHardwareHit(id)),
                ),
                WatchpointStopAction::Resumed => self.goes(RunStage::Listening, none),
                WatchpointStopAction::NotBreakpoint => self.goes(RunStage::Straying, none),
            },
            (RunStage::Straying, RunReply::Stray(true)) => self.goes(
                RunStage::ResumingStray,
                none.push(Effect::SelectStoppedThread).push(Effect::ClearTrapFlag),
            ),
            (RunStage::Straying, RunReply::Stray(false)) => self.goes(
                RunStage::Looking,
                none.push(Effect::SelectStoppedThread).push(Effect::RefreshVcpus),
            ),
            (RunStage::ResumingStray, RunReply::Continued(Err(e))) => self.fails(
                Trouble::StrayResume,
                e,
            ),
            (RunStage::ResumingStray, RunReply::Continued(Ok(_))) => self.goes(
                RunStage::Listening,
                none,
            ),
            _ => RunMove { state: self, effects: none, ask: self.question() },
        }
    }

    /// What an answer leads to while a stop is shown.
    pub open spec fn next_showing(self, reply: RunReply, facts: BreakpointFacts) -> RunMove {
        let none = Seq::<Effect>::empty();
        match (self.stage, reply) {
            (RunStage::Looking, RunReply::Modules(news)) => {
                let effects = self.looked(news, facts);
                let state = ReplState { noticed: self.stops_early(facts), ..self };
                if state.noticed || self.outcome.bugchecks() || self.outcome.announces_symbols() {
                    state.goes(RunStage::Idle, state.shown(effects))
                } else {
                    state.goes(RunStage::Reading, effects)
                }
            },
            (RunStage::Reading, RunReply::Registers(Err(e))) => self.fails(
                Trouble::ReadingRegisters,
                e,
            ),
            (RunStage::Reading, RunReply::Registers(Ok((rip, cr3)))) => (ReplState {
                rip,
                cr3,
                ..self
            }).goes(
                RunStage::Hitting,
                (if cr3 != 0 {
                    none.push(Effect::UseContext(cr3)).push(Effect::RefreshSymbolContext)
                } else {
                    none
                }).push(Effect::RefreshWindowsThread),
            ),
            (RunStage::Hitting, RunReply::Breakpoint(Err(e))) => self.fails(
                Trouble::BreakpointStop,
                e,
            ),
            (RunStage::Hitting, RunReply::Breakpoint(Ok(action))) => match action {
                BreakpointStopAction::Resumed => self.goes(RunStage::Listening, none),
                BreakpointStopAction::Hit { id, symbol, temporary, condition_error } => self.goes(
                    RunStage::Idle,
                    Self::hit_effects(id, symbol, temporary, condition_error),
                ),
                BreakpointStopAction::NotBreakpoint => self.goes(RunStage::Idle, self.shown(none)),
            },
            _ => RunMove { state: self, effects: none, ask: self.question() },
        }
    }

    /// What an answer leads to.
    pub open spec fn next(self, reply: RunReply, facts: BreakpointFacts) -> RunMove {
        match self.stage {
            RunStage::Looking | RunStage::Reading | RunStage::Hitting => self.next_showing(
                reply,
                facts,
            ),
            RunStage::Reloading
            | RunStage::Completing
            | RunStage::Judging
            | RunStage::ResumingOwn
            | RunStage::Watching
            | RunStage::Straying
            | RunStage::ResumingStray => self.next_classifying(reply),
            _ => self.next_running(reply),
        }
    }

    fn ask(&self) -> (r: RunAsk)
        ensures
            r == self.question(),
    {
        match self.stage {
            RunStage::Idle => RunAsk::Finish,
            RunStage::Checking => RunAsk::IsRunning,
            RunStage::Surfacing => RunAsk::SurfacePending,
            RunStage::Resuming => RunAsk::Resume,
            RunStage::Listening => RunAsk::TakeInterrupt,
            RunStage::Polling => RunAsk::Poll,
            RunStage::Interrupting => RunAsk::Interrupt,
            RunStage::Reloading => RunAsk::Reload,
            RunStage::Completing => RunAsk::Startup,
            RunStage::Judging => RunAsk::Assisted,
            RunStage::ResumingOwn => RunAsk::Continue,
            RunStage::Watching => RunAsk::Watchpoint,
            RunStage::Straying => RunAsk::StraySingleStep,
            RunStage::ResumingStray => RunAsk::Continue,
            RunStage::Looking => RunAsk::Modules,
            RunStage::Reading => RunAsk::Registers,
            RunStage::Hitting => RunAsk::Breakpoint { rip: self.rip, cr3: self.cr3 },
        }
    }

    fn go(&mut self, stage: RunStage, effects: Vec<Effect>) -> (r: RunTurn)
        ensures
            old(self).goes(stage, effects@) == (RunMove {
                state: *final(self),
                effects: r.effects@,
                ask: r.ask,
            }),
    {
        self.stage = stage;
        RunTurn { effects, ask: self.ask() }
    }

    fn stop(&mut self, event: StopEvent) -> (r: RunTurn)
        ensures
            old(self).stops(event) == (RunMove {
                state: *final(self),
                effects: r.effects@,
                ask: r.ask,
            }),
    {
        self.outcome = StopOutcome { event, reload_status: TargetReloadStatus::Unchanged };
        self.go(RunStage::Reloading, Vec::new())
    }

    fn judge(&mut self, effects: Vec<Effect>) -> (r: RunTurn)
        ensures
            old(self).judges(effects@) == (RunMove {
                state: *final(self),
                effects: r.effects@,
                ask: r.ask,
            }),
    {
        let unchanged = matches!(self.outcome.reload_status, TargetReloadStatus::Unchanged);
        if !self.interrupt && !self.reload_module_list_pending && unchanged {
            self.go(RunStage::Judging, effects)
        } else {
            self.go(RunStage::Watching, effects)
        }
    }

    fn fail(&mut self, trouble: Trouble, reason: String) -> (r: RunTurn)
        ensures
            old(self).fails(trouble, reason) == (RunMove {
                state: *final(self),
                effects: r.effects@,
                ask: r.ask,
            }),
    {
        let mut effects: Vec<Effect> = Vec::new();
        effects.push(Effect::Report(trouble, reason));
        self.go(RunStage::Idle, effects)
    }

    fn run(&mut self, reply: RunReply) -> (r: RunTurn)
        ensures
            old(self).next_running(reply) == (RunMove {
                state: *final(self),
                effects: r.effects@,
                ask: r.ask,
            }),
    {
        let mut effects: Vec<Effect> = Vec::new();
        match (self.stage, reply) {
            (RunStage::Idle, RunReply::Start) => self.go(RunStage::Checking, effects),
            (RunStage::Checking, RunReply::Running(running)) => {
                if running {
                    self.go(RunStage::Surfacing, effects)
                } else {
                    self.go(RunStage::Resuming, effects)
                }
            },
            (RunStage::Surfacing, RunReply::Surfaced(end)) => match end {
                SurfaceEnd::Surfaced => self.go(RunStage::Idle, effects),
                SurfaceEnd::NoStop => {
                    effects.push(Effect::Complain(Notice::AlreadyRunning));
                    self.go(RunStage::Idle, effects)
                },
                SurfaceEnd::Failed(e) => self.fail(Trouble::CheckingRunning, e),
            },
            (RunStage::Resuming, RunReply::Resumed(done)) => match done {
                Err(e) => self.fail(Trouble::Continuing, e),
                Ok(_) => {
                    effects.push(Effect::Say(Notice::Waiting));
                    effects.push(Effect::DropInterrupt);
                    self.go(RunStage::Listening, effects)
                },
            },
            (RunStage::Listening, RunReply::Interrupt(wanted)) => {
                self.interrupt = wanted;
                if wanted {
                    effects.push(Effect::Blank);
                }
                self.go(RunStage::Polling, effects)
            },
            (RunStage::Polling, RunReply::Stop(stop)) => match stop {
                Err(e) => self.fail(Trouble::Waiting, e),
                Ok(None) => {
                    if self.interrupt {
                        self.go(RunStage::Interrupting, effects)
                    } else {
                        self.go(RunStage::Listening, effects)
                    }
                },
                Ok(Some(event)) => self.stop(event),
            },
            (RunStage::Interrupting, RunReply::Interrupted(stop)) => match stop {
                Err(e) => self.fail(Trouble::Waiting, e),
                Ok(event) => self.stop(event),
            },
            _ => RunTurn { effects, ask: self.ask() },
        }
    }

    fn classify(&mut self, reply: RunReply) -> (r: RunTurn)
        ensures
            old(self).next_classifying(reply) == (RunMove {
                state: *final(self),
                effects: r.effects@,
                ask: r.ask,
            }),
    {
        let mut effects: Vec<Effect> = Vec::new();
        match (self.stage, reply) {
            (RunStage::Reloading, RunReply::Reload(event, reload_status)) => {
                self.outcome = StopOutcome { event, reload_status };
                let mut pending = self.reload_module_list_pending;
                update_reload_module_list_pending(&mut pending, reload_status);
                self.reload_module_list_pending = pending;
                if reload_status.pending_rediscovery() {
                    effects.push(Effect::ShowPendingRediscovery);
                    self.go(RunStage::Idle, effects)
                } else if pending {
                    self.go(RunStage::Completing, effects)
                } else {
                    self.judge(effects)
                }
            },
            (RunStage::Completing, RunReply::Startup(startup)) => {
                let mut pending = self.reload_module_list_pending;
                let _ = try_complete_pending_module_list_reload(
                    startup,
                    &mut pending,
                    &mut effects,
                );
                self.reload_module_list_pending = pending;
                self.judge(effects)
            },
            (RunStage::Judging, RunReply::Assisted(assisted)) => {
                if should_resume_assisted_refresh_stop(assisted, self.outcome.reload_status) {
                    self.go(RunStage::ResumingOwn, effects)
                } else {
                    self.go(RunStage::Watching, effects)
                }
            },
            (RunStage::ResumingOwn, RunReply::Continued(done)) => match done {
                Err(e) => self.fail(Trouble::AssistedResume, e),
                Ok(_) => self.go(RunStage::Listening, effects),
            },
            // Claim watchpoint stops before the stray-single-step absorber.
            (RunStage::Watching, RunReply::Watchpoint(action)) => match action {
                Err(e) => self.fail(Trouble::Watchpoint, e),
                Ok(WatchpointStopAction::Hit { id, condition_error }) => {
                    effects.push(Effect::RefreshSymbolContext);
                    effects.push(Effect::RefreshWindowsThread);
                    match condition_error {
                        Some(error) => effects.push(Effect::Report(Trouble::WatchCondition, error)),
                        None => {},
                    }
                    effects.push(Effect::ShowHardwareHit(id));
                    self.go(RunStage::Idle, effects)
                },
                Ok(WatchpointStopAction::Resumed) => self.go(RunStage::Listening, effects),
                Ok(WatchpointStopAction::NotBreakpoint) => self.go(RunStage::Straying, effects),
            },
            // A stray single-step (STATUS_SINGLE_STEP, not at a user
            // breakpoint) is a debugger artifact from a managed step-over
            // on SMP KD, not a stop to surface; clear TF on its processor
            // and resume.
            (RunStage::Straying, RunReply::Stray(stray)) => {
                effects.push(Effect::SelectStoppedThread);
                if stray {
                    effects.push(Effect::ClearTrapFlag);
                    self.go(RunStage::ResumingStray, effects)
                } else {
                    effects.push(Effect::RefreshVcpus);
                    self.go(RunStage::Looking, effects)
                }
            },
            (RunStage::ResumingStray, RunReply::Continued(done)) => match done {
                Err(e) => self.fail(Trouble::StrayResume, e),
                Ok(_) => self.go(RunStage::Listening, effects),
            },
            _ => RunTurn { effects, ask: self.ask() },
        }
    }

    fn push_shown(&self, effects: Vec<Effect>) -> (r: Vec<Effect>)
        ensures
            r@ == self.shown(effects@),
    {
        let mut effects = effects;
        let event = self.outcome.event;
        let target_reloaded = self.outcome.reload_status.target_reloaded();
        let is_bugcheck = event.is_bugcheck && !target_reloaded;
        if !target_reloaded && !self.noticed && !is_bugcheck {
            effects.push(
                Effect::ShowStopNotice { code: event.exception_code, pc: event.program_counter },
            );
            effects.push(Effect::Blank);
        }
        if is_target_reload_load_symbols_stop(&event, self.outcome.reload_status) {
            effects.push(Effect::ShowReloadNotification);
        } else if is_bugcheck {
            effects.push(Effect::ShowBreakForBugcheck(event.bugcheck));
        } else {
            effects.push(Effect::ShowBreak);
        }
        effects
    }

    fn show<E>(&mut self, reply: RunReply, breakpoints: &BreakpointManager<E>) -> (r: RunTurn)
        ensures
            old(self).next_showing(
                reply,
                facts(breakpoints, old(self).outcome.event.program_counter),
            ) == (RunMove { state: *final(self), effects: r.effects@, ask: r.ask }),
    {
        let mut effects: Vec<Effect> = Vec::new();
        match (self.stage, reply) {
            (RunStage::Looking, RunReply::Modules(news)) => {
                let event = self.outcome.event;
                let target_reloaded = self.outcome.reload_status.target_reloaded();
                let reload_load_symbols_stop = is_target_reload_load_symbols_stop(
                    &event,
                    self.outcome.reload_status,
                );
                let is_bugcheck = event.is_bugcheck && !target_reloaded;
                let modules_changed = refresh_stop_caches_pre(news, &mut effects);
                if is_bugcheck {
                    effects.push(Effect::ShowBugcheck(event.bugcheck));
                    effects.push(Effect::Blank);
                }
                let owned = match event.program_counter {
                    Some(pc) => breakpoints.breakpoint_id_at_address(pc).is_some(),
                    None => false,
                };
                let early_non_breakpoint_stop = !target_reloaded && !is_bugcheck
                    && event.exception_code.is_some() && event.program_counter.is_some() && !owned;
                if early_non_breakpoint_stop {
                    effects.push(
                        Effect::ShowStopNotice {
                            code: event.exception_code,
                            pc: event.program_counter,
                        },
                    );
                    effects.push(Effect::Blank);
                }
                refresh_stop_caches_post(&mut effects, target_reloaded, modules_changed);
                if breakpoints.has_enabled_breakpoints() && !is_bugcheck {
                    // Done before reading the current thread's regs so
                    // the breakpoint-hit check sees the post-rewind RIP
                    effects.push(Effect::RewindThreads);
                }
                self.noticed = early_non_breakpoint_stop;
                if early_non_breakpoint_stop || is_bugcheck || reload_load_symbols_stop {
                    let shown = self.push_shown(effects);
                    self.go(RunStage::Idle, shown)
                } else {
                    self.go(RunStage::Reading, effects)
                }
            },
            (RunStage::Reading, RunReply::Registers(regs)) => match regs {
                Err(e) => self.fail(Trouble::ReadingRegisters, e),
                Ok((rip, cr3)) => {
                    self.rip = rip;
                    self.cr3 = cr3;
                    if cr3 != 0 {
                        effects.push(Effect::UseContext(cr3));
                        effects.push(Effect::RefreshSymbolContext);
                    }
                    effects.push(Effect::RefreshWindowsThread);
                    self.go(RunStage::Hitting, effects)
                },
            },
            (RunStage::Hitting, RunReply::Breakpoint(action)) => match action {
                Err(e) => self.fail(Trouble::BreakpointStop, e),
                Ok(BreakpointStopAction::Resumed) => self.go(RunStage::Listening, effects),
                Ok(BreakpointStopAction::Hit { id, symbol, temporary, condition_error }) => {
                    match condition_error {
                        Some(error) => effects.push(Effect::Report(Trouble::BreakCondition, error)),
                        None => {},
                    }
                    effects.push(Effect::Blank);
                    if !temporary {
                        effects.push(Effect::SayBreakpoint { id, symbol });
                    }
                    effects.push(Effect::ShowBreak);
                    self.go(RunStage::Idle, effects)
                },
                Ok(BreakpointStopAction::NotBreakpoint) => {
                    let shown = self.push_shown(effects);
                    self.go(RunStage::Idle, shown)
                },
            },
            _ => RunTurn { effects, ask: self.ask() },
        }
    }

    /// Runs the target until it stops, turn by turn: `Start` begins, and each
    /// turn says what to do and what to find out, until it says to finish.
    pub fn continue_vm<E>(&mut self, reply: RunReply, breakpoints: &BreakpointManager<E>) -> (r:
        RunTurn)
        ensures
            old(self).next(
                reply,
                facts(breakpoints, old(self).outcome.event.program_counter),
            ) == (RunMove { state: *final(self), effects: r.effects@, ask: r.ask }),
    {
        match self.stage {
            RunStage::Looking | RunStage::Reading | RunStage::Hitting => self.show(
                reply,
                breakpoints,
            ),
            RunStage::Reloading
            | RunStage::Completing
            | RunStage::Judging
            | RunStage::ResumingOwn
            | RunStage::Watching
            | RunStage::Straying
            | RunStage::ResumingStray => self.classify(reply),
            _ => self.run(reply),
        }
    }
}

/// What breaking into the running target needs to know next.
#[derive(Debug, Clone, Copy, PartialEq, Eq, Structural)]
pub enum BreakAsk {
    SurfacePending,
    SurfaceInterrupt,
    Finish,
}

/// The answers.
#[derive(Debug)]
pub enum BreakReply {
    /// The user asks for the target to stop.
    Start,
    Pending(SurfaceEnd),
    Interrupted(SurfaceEnd),
}

/// What to do now, and what to find out then.
#[derive(Debug)]
pub struct BreakTurn {
    pub effects: Vec<Effect>,
    pub ask: BreakAsk,
}

/// What an answer leads to while breaking into the target: a stop that already
/// happened is surfaced; only where there is none the target is interrupted.
pub open spec fn break_effects(reply: BreakReply) -> Seq<Effect> {
    match reply {
        BreakReply::Pending(SurfaceEnd::Failed(e)) => Seq::empty().push(
            Effect::Report(Trouble::CheckingRunning, e),
        ),
        BreakReply::Interrupted(SurfaceEnd::Failed(e)) => Seq::empty().push(
            Effect::Report(Trouble::Interrupting, e),
        ),
        _ => Seq::empty(),
    }
}

/// What breaking into the target asks after an answer.
pub open spec fn break_question(reply: BreakReply) -> BreakAsk {
    match reply {
        BreakReply::Start => BreakAsk::SurfacePending,
        BreakReply::Pending(SurfaceEnd::NoStop) => BreakAsk::SurfaceInterrupt,
        _ => BreakAsk::Finish,
    }
}

impl ReplState {
    /// Breaks into the running target, turn by turn.
    pub fn interrupt_running_vm(&self, reply: BreakReply) -> (r: BreakTurn)
        ensures
            r.effects@ == break_effects(reply),
            r.ask == break_question(reply),
    {
        let mut effects: Vec<Effect> = Vec::new();
        match reply {
            BreakReply::Start => BreakTurn { effects, ask: BreakAsk::SurfacePending },
            BreakReply::Pending(end) => match end {
                SurfaceEnd::Surfaced => BreakTurn { effects, ask: BreakAsk::Finish },
                SurfaceEnd::NoStop => BreakTurn { effects, ask: BreakAsk::SurfaceInterrupt },
                SurfaceEnd::Failed(e) => {
                    effects.push(Effect::Report(Trouble::CheckingRunning, e));
                    BreakTurn { effects, ask: BreakAsk::Finish }
                },
            },
            BreakReply::Interrupted(end) => {
                match end {
                    SurfaceEnd::Failed(e) => effects.push(
                        Effect::Report(Trouble::Interrupting, e),
                    ),
                    _ => {},
                }
                BreakTurn { effects, ask: BreakAsk::Finish }
            },
        }
    }

    /// Shows a single step that was made, or why it could not be.
    pub fn single_step(&self, stepped: Result<(), String>) -> (r: Vec<Effect>)
        ensures
            r@ == (match stepped {
                Ok(_) => Seq::empty().push(Effect::Blank).push(Effect::ShowBreak),
                Err(e) => Seq::empty().push(Effect::Report(Trouble::Stepping, e)),
            }),
    {
        let mut effects: Vec<Effect> = Vec::new();
        match stepped {
            Ok(_) => {
                effects.push(Effect::Blank);
                effects.push(Effect::ShowBreak);
            },
            Err(e) => effects.push(Effect::Report(Trouble::Stepping, e)),
        }
        effects
    }

    /// Decides how to step over the current instruction. The decision whether
    /// it is a call, and where it returns to, is shared by all surfaces.
    pub fn cmd_p(&self, target: Result<StepKind, String>) -> (r: StepPlan)
        ensures
            r == (match target {
                Ok(StepKind::Single) => StepPlan::Single,
                Ok(StepKind::RunTo(address)) => StepPlan::RunTo(address),
                Err(e) => StepPlan::Refuse(Trouble::Decoding, e),
            }),
    {
        match target {
            Ok(StepKind::Single) => StepPlan::Single,
            Ok(StepKind::RunTo(address)) => StepPlan::RunTo(address),
            Err(e) => StepPlan::Refuse(Trouble::Decoding, e),
        }
    }

    /// Decides how to run until the current function returns.
    pub fn cmd_gu(&self, target: Result<VirtAddr, String>) -> (r: StepPlan)
        ensures
            r == (match target {
                Ok(address) => StepPlan::RunTo(address),
                Err(e) => StepPlan::Refuse(Trouble::Plain, e),
            }),
    {
        match target {
            Ok(address) => StepPlan::RunTo(address),
            Err(e) => StepPlan::Refuse(Trouble::Plain, e),
        }
    }
}

/// How a step is to be made.
#[derive(Debug)]
pub enum StepPlan {
    Single,
    /// Run to a place.
    RunTo(VirtAddr),
    Refuse(Trouble, String),
}

/// How to run to a place.
#[derive(Debug)]
pub enum RunTo {
    /// A breakpoint is there already: just run.
    Continue,
    /// A temporary breakpoint was set: run, then take it away.
    Temporary(u32),
    /// It could not be set.
    Refused(Error),
}

/// Whether getting ready to run to a place may turn the manager from
/// `manager` to `post` and the transport from `pre` to `end`, and say `plan`.
pub open spec fn may_get_ready<
    E,
    C: DebugBackend,
    M: MemoryOps<PhysAddr>,
    F: FnOnce(&str) -> Result<E, Error>,
    R: FnOnce(VirtAddr) -> Result<Vec<u8>, Error>,
>(
    manager: &BreakpointManager<E>,
    pre: Machine<C, M>,
    address: VirtAddr,
    parse: F,
    read_image: R,
    post: &BreakpointManager<E>,
    end: Machine<C, M>,
    plan: RunTo,
) -> bool {
    exists|scope: BreakpointScope, known: Option<u32>|
        {
            &&& #[trigger] is_context_scope(&pre.target, scope)
            &&& #[trigger] manager.names_patch(scope, address, known)
            &&& match known {
                Some(_) => plan == RunTo::Continue && manager.unchanged(post) && end == pre,
                None => exists|added: Result<u32, Error>|
                    {
                        &&& #[trigger] manager.may_add_code(
                            pre,
                            CodeRequest {
                                address,
                                symbol: None,
                                condition: None,
                                temporary: true,
                                parse,
                                read_image,
                            },
                            post,
                            end,
                            added,
                        )
                        &&& plan == (match added {
                            Ok(id) => RunTo::Temporary(id),
                            Err(e) => RunTo::Refused(e),
                        })
                    },
            }
        }
}

/// Gets ready to run to a place: where no breakpoint of the current context is
/// there, a temporary one is set. The completion entries follow.
pub fn run_to_temporary_code_breakpoint<
    E,
    S,
    T,
    D,
    C: DebugBackend,
    M: MemoryOps<PhysAddr>,
    F: FnOnce(&str) -> Result<E, Error>,
    R: FnOnce(VirtAddr) -> Result<Vec<u8>, Error>,
>(
    breakpoints: &mut BreakpointManager<E>,
    caches: &mut ReplCaches<S, T, D>,
    client: &mut C,
    debugger: &mut Target<M>,
    address: VirtAddr,
    parse: F,
    read_image: R,
) -> (r: RunTo)
    requires
        old(breakpoints).next_id < u32::MAX,
        forall|s: &str| call_requires(parse, (s,)),
        forall|base: VirtAddr| call_requires(read_image, (base,)),
    ensures
        may_get_ready(
            old(breakpoints),
            machine(old(client), old(debugger)),
            address,
            parse,
            read_image,
            final(breakpoints),
            machine(final(client), final(debugger)),
            r,
        ),
        old(breakpoints).well_formed() ==> final(breakpoints).well_formed(),
        r is Temporary ==> caches_follow(*old(caches), *final(caches), *final(breakpoints)),
        !(r is Temporary) ==> *final(caches) == *old(caches),
{
    let scope = scope_for_current_context(debugger);
    let known = breakpoints.enabled_software_breakpoint_id(&scope, address);
    assert(is_context_scope(debugger, scope) && breakpoints.names_patch(scope, address, known));
    if known.is_some() {
        return RunTo::Continue;
    }
    let added = breakpoints.add_temporary_code(client, debugger, address, parse, read_image);
    match added {
        Ok(id) => {
            caches.refresh_breakpoints(breakpoints);
            RunTo::Temporary(id)
        },
        Err(e) => RunTo::Refused(e),
    }
}

/// Takes a temporary breakpoint away again, as far as that can be done. The
/// completion entries follow.
pub fn finish_run_to<E, S, T, D, C: DebugBackend, M: MemoryOps<PhysAddr>>(
    breakpoints: &mut BreakpointManager<E>,
    caches: &mut ReplCaches<S, T, D>,
    client: &mut C,
    debugger: &mut Target<M>,
    id: u32,
)
    ensures
        exists|removed: Result<(), Error>| #[trigger]
            old(breakpoints).may_remove(
                machine(old(client), old(debugger)),
                id,
                final(breakpoints),
                machine(final(client), final(debugger)),
                removed,
            ),
        old(breakpoints).well_formed() ==> final(breakpoints).well_formed(),
        caches_follow(*old(caches), *final(caches), *final(breakpoints)),
{
    let removed = breakpoints.remove(client, debugger, id);
    assert(old(breakpoints).may_remove(
        machine(old(client), old(debugger)),
        id,
        breakpoints,
        machine(client, debugger),
        removed,
    ));
    caches.refresh_breakpoints(breakpoints);
}

/// The access that a hardware breakpoint watches for, as shown.
pub open spec fn access_text(hardware: Option<HardwareBreakpoint>) -> Seq<char> {
    match hardware {
        Some(hw) => " "@ + seq![hw.access.spec_letter()] + dec(hw.len as nat),
        None => ""@,
    }
}

/// The line that names the hardware (DR) breakpoint that was hit, mirroring the
/// software-breakpoint one. The address the breakpoint watches is unrelated to
/// `rip` for data watches, so the banner names the breakpoint while the break
/// context shows where execution actually stopped.
pub fn surface_hardware_breakpoint_hit<E>(bp: &Breakpoint<E>) -> (r: String)
    ensures
        r@ == spec_label("hardware breakpoint:"@) + " "@ + spec_bp_id(bp.id) + spec_bright_black(
            access_text(bp.hardware),
        ) + " "@ + parenthesised(text_opt(bp.symbol)),
{
    let access = match bp.hardware {
        Some(hw) => {
            let mut letter = String::new();
            letter.push(hw.access.letter());
            assert(letter@ =~= seq![hw.access.spec_letter()]);
            text(" ").concat(letter.as_str()).concat(decimal(hw.len as u64).as_str())
        },
        None => text(""),
    };
    ui::label("hardware breakpoint:").concat(" ").concat(ui::bp_id(bp.id).as_str()).concat(
        bright_black(access.as_str()).as_str(),
    ).concat(" ").concat(in_parentheses(&bp.symbol).as_str())
}

/// What holds between turns: the debugger takes a stop for its own only where
/// the user did not ask for it, no module list is owed, and nothing changed.
pub open spec fn coherent(state: ReplState) -> bool {
    state.stage == RunStage::Judging || state.stage == RunStage::ResumingOwn ==> {
        &&& !state.interrupt
        &&& !state.reload_module_list_pending
        &&& state.outcome.reload_status == TargetReloadStatus::Unchanged
    }
}

/// The debugger lets the target run again on its own only where the user did
/// not ask for the stop, no module list is owed and nothing changed, or where
/// the stop is left over from a step: every turn keeps it so.
pub proof fn law_own_stops_only(state: ReplState, reply: RunReply, facts: BreakpointFacts)
    requires
        coherent(state),
    ensures
        coherent(state.next(reply, facts).state),
        state.next(reply, facts).ask == RunAsk::Continue && state.next(reply, facts).state != state
            ==> (state.stage == RunStage::Judging && reply == RunReply::Assisted(true)) || (
        state.stage == RunStage::Straying && reply == RunReply::Stray(true)),
{
}

/// Once done, nothing happens until the user asks again.
pub proof fn law_done_stays_done(state: ReplState, reply: RunReply, facts: BreakpointFacts)
    requires
        state.stage == RunStage::Idle,
        reply != RunReply::Start,
    ensures
        state.next(reply, facts).state == state,
        state.next(reply, facts).effects == Seq::<Effect>::empty(),
        state.next(reply, facts).ask == RunAsk::Finish,
{
}

/// Threads are moved back onto the int3s they passed before the registers are
/// read, so that the hit is found.
pub proof fn law_rewind_before_reading(state: ReplState, reply: RunReply, facts: BreakpointFacts)
    requires
        state.stage == RunStage::Looking,
        state.next(reply, facts).state.stage == RunStage::Reading,
        facts.any_enabled,
    ensures
        state.next(reply, facts).effects.len() > 0,
        state.next(reply, facts).effects.last() == Effect::RewindThreads,
{
}

/// A bugcheck is shown as such, with what the stop reported of it, as soon as the
/// module set is up to date, and never taken for a breakpoint hit.
pub proof fn law_bugcheck_is_no_hit(state: ReplState, news: ModuleNews, facts: BreakpointFacts)
    requires
        state.stage == RunStage::Looking,
        state.outcome.bugchecks(),
    ensures
        ({
            let moved = state.next(RunReply::Modules(news), facts);
            let at = symbol_effects(Seq::empty(), news.report).len() as int;
            &&& moved.ask == RunAsk::Finish
            &&& moved.effects.len() > at
            &&& moved.effects[at] == Effect::ShowBugcheck(state.outcome.event.bugcheck)
            &&& moved.effects.last() == Effect::ShowBreakForBugcheck(state.outcome.event.bugcheck)
        }),
{
    let moved = state.next(RunReply::Modules(news), facts);
    assert(moved.effects[symbol_effects(Seq::empty(), news.report).len() as int]
        == Effect::ShowBugcheck(state.outcome.event.bugcheck));
}

/// Whether an effect brings completion or symbols up to date.
pub open spec fn is_refresh(effect: Effect) -> bool {
    ||| effect is RefreshVcpus
    ||| effect is RefreshProcesses
    ||| effect is RefreshDrivers
    ||| effect is RefreshExpressions
    ||| effect is RefreshSymbolContext
    ||| effect is ShowModuleSymbols
}

/// A stop that was waited for and one that was not refresh the same things.
pub proof fn law_stop_paths_refresh_alike(
    state: ReplState,
    news: ModuleNews,
    facts: BreakpointFacts,
    effect: Effect,
)
    requires
        state.stage == RunStage::Looking,
        is_refresh(effect),
    ensures
        state.next(RunReply::Modules(news), facts).effects.contains(effect) <==> stop_tail(
            state.outcome,
            news,
        ).contains(effect),
{
    broadcast use vstd::seq_lib::group_seq_properties;

    let head = symbol_effects(Seq::empty(), news.report);
    let reloaded = state.outcome.reload_status is Reloaded;
    let tail = post_effects(Seq::empty(), reloaded, news.changed());
    assert(stop_tail(state.outcome, news).contains(effect) <==> head.contains(effect)
        || tail.contains(effect));
    assert(state.looked(news, facts).contains(effect) <==> head.contains(effect) || tail.contains(
        effect,
    ));
}

/// Drivers are enumerated anew only where the module set changed, and processes
/// only where reloading the target did not do so already.
pub proof fn law_refreshes_are_needed(outcome: StopOutcome, news: ModuleNews)
    ensures
        stop_tail(outcome, news).contains(Effect::RefreshDrivers) <==> news.changed(),
        stop_tail(outcome, news).contains(Effect::RefreshProcesses(Trouble::ProcessCache))
            <==> !(outcome.reload_status is Reloaded),
        stop_tail(outcome, news).contains(Effect::RefreshExpressions),
{
    broadcast use vstd::seq_lib::group_seq_properties;

}

/// Processors are listed before symbols are loaded and the signal of the backend
/// is taken.
pub proof fn law_processors_are_listed_first(
    state: ReplState,
    reply: RunReply,
    facts: BreakpointFacts,
)
    requires
        state.stage != RunStage::Looking,
        state.next(reply, facts).ask == RunAsk::Modules,
    ensures
        state.next(reply, facts).effects.len() > 0,
        state.next(reply, facts).effects.last() == Effect::RefreshVcpus,
{
}

/// How far a stop has been gone through: it begins with the question whether the
/// target rebooted. Nothing where no stop is gone through.
pub open spec fn progress(stage: RunStage) -> Option<int> {
    match stage {
        RunStage::Reloading => Some(0),
        RunStage::Completing => Some(1),
        RunStage::Judging => Some(2),
        RunStage::ResumingOwn => Some(3),
        RunStage::Watching => Some(4),
        RunStage::Straying => Some(5),
        RunStage::ResumingStray => Some(6),
        RunStage::Looking => Some(7),
        RunStage::Reading => Some(8),
        RunStage::Hitting => Some(9),
        _ => None,
    }
}

/// A stop is gone through once, from front to back: an answer leads nowhere,
/// because it was not asked for, or further, or ends the stop. So no question is
/// answered twice for one stop, and the signal of the backend that modules
/// changed, which goes with the answer about modules, is taken once at most.
pub proof fn law_a_stop_is_gone_through_once(
    state: ReplState,
    reply: RunReply,
    facts: BreakpointFacts,
)
    requires
        progress(state.stage) is Some,
        reply != RunReply::Start,
    ensures
        ({
            let after = state.next(reply, facts).state;
            ||| after == state
            ||| progress(after.stage) is None
            ||| progress(after.stage)->0 > progress(state.stage)->0
        }),
        reply matches RunReply::Modules(_) && state.stage == RunStage::Looking ==> state.next(
            reply,
            facts,
        ).state.stage != RunStage::Looking,
{
}

/// Watchpoints are asked before a stop is taken for one left over from a step.
pub proof fn law_watchpoints_first(state: ReplState, reply: RunReply, facts: BreakpointFacts)
    requires
        state.stage != RunStage::Straying,
        state.next(reply, facts).state.stage == RunStage::Straying,
    ensures
        state.stage == RunStage::Watching,
        reply == RunReply::Watchpoint(Ok(WatchpointStopAction::NotBreakpoint)),
{
}

/// Whether an effect tells the user something.
pub open spec fn tells(effect: Effect) -> bool {
    ||| effect is Complain
    ||| effect is Report
    ||| effect is ShowPendingRediscovery
    ||| effect is ShowReloadNotification
    ||| effect is ShowBreak
    ||| effect is ShowBreakForBugcheck
    ||| effect is ShowHardwareHit
}

/// Running the target never ends without a word: whatever ends it is shown or
/// reported last. (Where the target ran already and a stop was surfaced, that
/// was shown before.)
pub proof fn law_end_is_told(state: ReplState, reply: RunReply, facts: BreakpointFacts)
    requires
        state.stage != RunStage::Idle,
        state.next(reply, facts).state.stage == RunStage::Idle,
        !(state.stage == RunStage::Surfacing && reply == RunReply::Surfaced(SurfaceEnd::Surfaced)),
    ensures
        state.next(reply, facts).effects.len() > 0,
        tells(state.next(reply, facts).effects.last()),
{
}

/// A stop that the user asked for is never taken for the debugger's own.
pub proof fn law_requested_stop_is_kept(state: ReplState, reply: RunReply, facts: BreakpointFacts)
    requires
        coherent(state),
        state.interrupt,
        state.stage != RunStage::Listening,
    ensures
        state.next(reply, facts).state.interrupt,
        state.next(reply, facts).state.stage != RunStage::Judging,
        state.next(reply, facts).state.stage != RunStage::ResumingOwn,
{
}

/// A target that was interrupted while no stop was there is interrupted, not
/// waited for again.
pub proof fn law_interrupt_is_prompt(state: ReplState, facts: BreakpointFacts)
    requires
        state.stage == RunStage::Polling,
        state.interrupt,
    ensures
        state.next(RunReply::Stop(Ok(None)), facts).ask == RunAsk::Interrupt,
{
}

/// Running to a place and back leaves no trace among the breakpoints: a
/// temporary breakpoint that was set and taken away again is gone, and every
/// other one is as it was.
pub proof fn law_run_to_leaves_no_trace<
    E,
    C: DebugBackend,
    M: MemoryOps<PhysAddr>,
    F: FnOnce(&str) -> Result<E, Error>,
    R: FnOnce(VirtAddr) -> Result<Vec<u8>, Error>,
>(
    manager: &BreakpointManager<E>,
    pre: Machine<C, M>,
    address: VirtAddr,
    parse: F,
    read_image: R,
    set: &BreakpointManager<E>,
    mid: Machine<C, M>,
    id: u32,
    post: &BreakpointManager<E>,
    end: Machine<C, M>,
)
    requires
        manager.well_formed(),
        may_get_ready(
            manager,
            pre,
            address,
            parse,
            read_image,
            set,
            mid,
            RunTo::Temporary(id),
        ),
        set.may_remove(mid, id, post, end, Ok(())),
    ensures
        set.breakpoints@[id].temporary,
        set.breakpoints@[id].patched_at(address),
        post.breakpoints@ == manager.breakpoints@,
{
    assert(post.breakpoints@ =~= manager.breakpoints@);
}

} // verus!
