//! Surfacing a stop that was not waited for.
use crate::repl::effects::Effect;
use crate::repl::stop::{
    completes, module_list_effects, pending_after, print_async_stop_context,
    should_resume_assisted_refresh_stop, stop_head, stop_tail,
    try_complete_pending_module_list_reload, update_reload_module_list_pending, ModuleNews, StopOutcome,
    TargetReloadStatus,
};
use crate::session::StopEvent;
use crate::types::VirtAddr;
use vstd::prelude::*;

verus! {

/// How far surfacing a stop has come.
#[derive(Debug, Clone, Copy, PartialEq, Eq, Structural)]
pub enum SurfaceStage {
    Waiting,
    Reloading,
    Completing,
    Judging,
    Resuming,
    Showing,
    Done,
}

/// How surfacing a stop ended.
#[derive(Debug)]
pub enum SurfaceEnd {
    /// The target has not stopped.
    NoStop,
    /// A stop was dealt with.
    Surfaced,
    /// It could not be found out, or the target could not be resumed.
    Failed(String),
}

/// What surfacing a stop needs to know next.
#[derive(Debug)]
pub enum SurfaceAsk {
    /// Wait briefly for a stop.
    Poll,
    /// Interrupt the target.
    Interrupt,
    /// Find out whether the target rebooted, and reload it if it did.
    Reload,
    /// Ask the target where its module list is.
    Startup,
    /// Find out whether the debugger itself brought the stop about.
    Assisted,
    /// Let the target run.
    Continue,
    /// Load the symbols of new modules, and find out whether the backend saw
    /// the module set change.
    Modules,
    /// Nothing more.
    Finish(SurfaceEnd),
    Idle,
}

/// The answers.
#[derive(Debug)]
pub enum SurfaceReply {
    Stop(Result<Option<StopEvent>, String>),
    Reload(StopEvent, TargetReloadStatus),
    Startup(Option<VirtAddr>),
    Assisted(bool),
    Continued(Result<(), String>),
    Modules(ModuleNews),
}

/// What to do now, and what to find out then.
#[derive(Debug)]
pub struct SurfaceTurn {
    pub effects: Vec<Effect>,
    pub ask: SurfaceAsk,
}

/// Surfacing a stop.
#[derive(Debug, Clone, Copy, PartialEq, Eq, Structural)]
pub struct Surfacing {
    pub stage: SurfaceStage,
    /// Whether the target is to be interrupted.
    pub interrupting: bool,
    /// Whether the module list of a reloaded kernel is still owed.
    pub pending: bool,
    pub outcome: StopOutcome,
}

/// A turn and the state after it.
pub struct SurfaceMove {
    pub state: Surfacing,
    pub effects: Seq<Effect>,
    pub ask: SurfaceAsk,
}

impl Surfacing {
    /// The question of each stage.
    pub open spec fn question(self) -> SurfaceAsk {
        match self.stage {
            SurfaceStage::Waiting => if self.interrupting {
                SurfaceAsk::Interrupt
            } else {
                SurfaceAsk::Poll
            },
            SurfaceStage::Reloading => SurfaceAsk::Reload,
            SurfaceStage::Completing => SurfaceAsk::Startup,
            SurfaceStage::Judging => SurfaceAsk::Assisted,
            SurfaceStage::Resuming => SurfaceAsk::Continue,
            SurfaceStage::Showing => SurfaceAsk::Modules,
            SurfaceStage::Done => SurfaceAsk::Idle,
        }
    }

    /// Going on to a stage, with these effects before its question.
    pub open spec fn goes(self, stage: SurfaceStage, effects: Seq<Effect>) -> SurfaceMove {
        let state = Surfacing { stage, ..self };
        SurfaceMove { state, effects, ask: state.question() }
    }

    /// Ending.
    pub open spec fn ends(self, effects: Seq<Effect>, end: SurfaceEnd) -> SurfaceMove {
        SurfaceMove {
            state: Surfacing { stage: SurfaceStage::Done, ..self },
            effects,
            ask: SurfaceAsk::Finish(end),
        }
    }

    /// Going on once nothing more can be done about the module list: a stop
    /// that nobody asked for and that changed nothing may be the debugger's own.
    pub open spec fn judges(self, effects: Seq<Effect>) -> SurfaceMove {
        if !self.interrupting && !self.pending && self.outcome.reload_status
            == TargetReloadStatus::Unchanged {
            self.goes(SurfaceStage::Judging, effects)
        } else {
            self.goes(SurfaceStage::Showing, stop_head(effects))
        }
    }

    /// What an answer leads to. One that was not asked for leads nowhere.
    pub open spec fn next(self, reply: SurfaceReply) -> SurfaceMove {
        let none = Seq::<Effect>::empty();
        match (self.stage, reply) {
            (SurfaceStage::Waiting, SurfaceReply::Stop(Err(e))) => self.ends(
                none,
                SurfaceEnd::Failed(e),
            ),
            (SurfaceStage::Waiting, SurfaceReply::Stop(Ok(None))) => self.ends(
                none,
                SurfaceEnd::NoStop,
            ),
            (SurfaceStage::Waiting, SurfaceReply::Stop(Ok(Some(event)))) => (Surfacing {
                outcome: StopOutcome { event, reload_status: TargetReloadStatus::Unchanged },
                ..self
            }).goes(SurfaceStage::Reloading, none),
            (SurfaceStage::Reloading, SurfaceReply::Reload(event, reload_status)) => {
                let state = Surfacing {
                    outcome: StopOutcome { event, reload_status },
                    pending: pending_after(self.pending, reload_status),
                    ..self
                };
                if reload_status is PendingRediscovery {
                    state.ends(none.push(Effect::ShowPendingRediscovery), SurfaceEnd::Surfaced)
                } else if state.pending {
                    state.goes(SurfaceStage::Completing, none.push(Effect::RefreshVcpus))
                } else {
                    state.judges(none.push(Effect::RefreshVcpus))
                }
            },
            (SurfaceStage::Completing, SurfaceReply::Startup(startup)) => if completes(
                self.pending,
                startup,
            ) {
                (Surfacing { pending: false, ..self }).judges(
                    none + module_list_effects((startup->0).0),
                )
            } else {
                self.judges(none)
            },
            (SurfaceStage::Judging, SurfaceReply::Assisted(assisted)) => if assisted
                && self.outcome.reload_status == TargetReloadStatus::Unchanged {
                self.goes(SurfaceStage::Resuming, none)
            } else {
                self.goes(SurfaceStage::Showing, stop_head(none))
            },
            (SurfaceStage::Resuming, SurfaceReply::Continued(Ok(_))) => self.ends(
                none,
                SurfaceEnd::Surfaced,
            ),
            (SurfaceStage::Resuming, SurfaceReply::Continued(Err(e))) => self.ends(
                none,
                SurfaceEnd::Failed(e),
            ),
            (SurfaceStage::Showing, SurfaceReply::Modules(news)) => self.ends(
                stop_tail(self.outcome, news),
                SurfaceEnd::Surfaced,
            ),
            _ => SurfaceMove { state: self, effects: none, ask: self.question() },
        }
    }

    fn ask(&self) -> (r: SurfaceAsk)
        ensures
            r == self.question(),
    {
        match self.stage {
            SurfaceStage::Waiting => if self.interrupting {
                SurfaceAsk::Interrupt
            } else {
                SurfaceAsk::Poll
            },
            SurfaceStage::Reloading => SurfaceAsk::Reload,
            SurfaceStage::Completing => SurfaceAsk::Startup,
            SurfaceStage::Judging => SurfaceAsk::Assisted,
            SurfaceStage::Resuming => SurfaceAsk::Continue,
            SurfaceStage::Showing => SurfaceAsk::Modules,
            SurfaceStage::Done => SurfaceAsk::Idle,
        }
    }

    fn go(&mut self, stage: SurfaceStage, effects: Vec<Effect>) -> (r: SurfaceTurn)
        ensures
            old(self).goes(stage, effects@) == (SurfaceMove {
                state: *final(self),
                effects: r.effects@,
                ask: r.ask,
            }),
    {
        self.stage = stage;
        SurfaceTurn { effects, ask: self.ask() }
    }

    fn end(&mut self, effects: Vec<Effect>, end: SurfaceEnd) -> (r: SurfaceTurn)
        ensures
            old(self).ends(effects@, end) == (SurfaceMove {
                state: *final(self),
                effects: r.effects@,
                ask: r.ask,
            }),
    {
        self.stage = SurfaceStage::Done;
        SurfaceTurn { effects, ask: SurfaceAsk::Finish(end) }
    }

    fn judge(&mut self, effects: Vec<Effect>) -> (r: SurfaceTurn)
        ensures
            old(self).judges(effects@) == (SurfaceMove {
                state: *final(self),
                effects: r.effects@,
                ask: r.ask,
            }),
    {
        let unchanged = matches!(self.outcome.reload_status, TargetReloadStatus::Unchanged);
        if !self.interrupting && !self.pending && unchanged {
            self.go(SurfaceStage::Judging, effects)
        } else {
            self.show(effects)
        }
    }

    fn show(&mut self, effects: Vec<Effect>) -> (r: SurfaceTurn)
        ensures
            old(self).goes(SurfaceStage::Showing, stop_head(effects@)) == (SurfaceMove {
                state: *final(self),
                effects: r.effects@,
                ask: r.ask,
            }),
    {
        let mut effects = effects;
        effects.push(Effect::Blank);
        effects.push(Effect::SelectStoppedThread);
        effects.push(Effect::RefreshVcpus);
        self.go(SurfaceStage::Showing, effects)
    }

    /// Takes an answer.
    pub fn step(&mut self, reply: SurfaceReply) -> (r: SurfaceTurn)
        ensures
            old(self).next(reply) == (SurfaceMove {
                state: *final(self),
                effects: r.effects@,
                ask: r.ask,
            }),
    {
        let mut effects: Vec<Effect> = Vec::new();
        match (self.stage, reply) {
            (SurfaceStage::Waiting, SurfaceReply::Stop(stop)) => match stop {
                Err(e) => self.end(effects, SurfaceEnd::Failed(e)),
                Ok(None) => self.end(effects, SurfaceEnd::NoStop),
                Ok(Some(event)) => {
                    self.outcome = StopOutcome {
                        event,
                        reload_status: TargetReloadStatus::Unchanged,
                    };
                    self.go(SurfaceStage::Reloading, effects)
                },
            },
            (SurfaceStage::Reloading, SurfaceReply::Reload(event, reload_status)) => {
                self.outcome = StopOutcome { event, reload_status };
                let mut pending = self.pending;
                update_reload_module_list_pending(&mut pending, reload_status);
                self.pending = pending;
                if reload_status.pending_rediscovery() {
                    effects.push(Effect::ShowPendingRediscovery);
                    return self.end(effects, SurfaceEnd::Surfaced);
                }
                effects.push(Effect::RefreshVcpus);
                if self.pending {
                    self.go(SurfaceStage::Completing, effects)
                } else {
                    self.judge(effects)
                }
            },
            (SurfaceStage::Completing, SurfaceReply::Startup(startup)) => {
                let mut pending = self.pending;
                let _ = try_complete_pending_module_list_reload(
                    startup,
                    &mut pending,
                    &mut effects,
                );
                self.pending = pending;
                self.judge(effects)
            },
            (SurfaceStage::Judging, SurfaceReply::Assisted(assisted)) => {
                if should_resume_assisted_refresh_stop(assisted, self.outcome.reload_status) {
                    self.go(SurfaceStage::Resuming, effects)
                } else {
                    self.show(effects)
                }
            },
            (SurfaceStage::Resuming, SurfaceReply::Continued(done)) => match done {
                Ok(_) => self.end(effects, SurfaceEnd::Surfaced),
                Err(e) => self.end(effects, SurfaceEnd::Failed(e)),
            },
            (SurfaceStage::Showing, SurfaceReply::Modules(news)) => {
                let shown = print_async_stop_context(self.outcome, news);
                self.end(shown, SurfaceEnd::Surfaced)
            },
            _ => SurfaceTurn { effects, ask: self.ask() },
        }
    }
}

/// A stop that has not happened.
pub open spec fn no_stop() -> StopOutcome {
    StopOutcome {
        event: StopEvent {
            exception_code: None,
            program_counter: None,
            is_bugcheck: false,
            bugcheck: None,
            target_kernel_base_hint: None,
            target_reloaded: false,
        },
        reload_status: TargetReloadStatus::Unchanged,
    }
}

fn begin(interrupting: bool, pending: bool) -> (r: (Surfacing, SurfaceAsk))
    ensures
        r.0 == (Surfacing {
            stage: SurfaceStage::Waiting,
            interrupting,
            pending,
            outcome: no_stop(),
        }),
        r.1 == r.0.question(),
{
    let state = Surfacing {
        stage: SurfaceStage::Waiting,
        interrupting,
        pending,
        outcome: StopOutcome {
            event: StopEvent {
                exception_code: None,
                program_counter: None,
                is_bugcheck: false,
                bugcheck: None,
                target_kernel_base_hint: None,
                target_reloaded: false,
            },
            reload_status: TargetReloadStatus::Unchanged,
        },
    };
    let ask = state.ask();
    (state, ask)
}

/// Begins to surface a stop of the running target, if it has stopped. `pending`
/// says whether the module list of a reloaded kernel is still owed.
pub fn surface_pending_stop(pending: bool) -> (r: (Surfacing, SurfaceAsk))
    ensures
        r.0 == (Surfacing {
            stage: SurfaceStage::Waiting,
            interrupting: false,
            pending,
            outcome: no_stop(),
        }),
        r.1 == SurfaceAsk::Poll,
{
    begin(false, pending)
}

/// Begins to interrupt the running target and surface that stop.
pub fn surface_interrupt_stop(pending: bool) -> (r: (Surfacing, SurfaceAsk))
    ensures
        r.0 == (Surfacing {
            stage: SurfaceStage::Waiting,
            interrupting: true,
            pending,
            outcome: no_stop(),
        }),
        r.1 == SurfaceAsk::Interrupt,
{
    begin(true, pending)
}

/// How many answers may still be needed at most.
pub open spec fn answers_left(stage: SurfaceStage) -> nat {
    match stage {
        SurfaceStage::Waiting => 5,
        SurfaceStage::Reloading => 4,
        SurfaceStage::Completing => 3,
        SurfaceStage::Judging => 2,
        SurfaceStage::Resuming => 1,
        SurfaceStage::Showing => 1,
        SurfaceStage::Done => 0,
    }
}

/// Surfacing a stop comes to an end: an answer either leads nowhere, because it
/// was not asked for, or brings the end nearer.
pub proof fn law_surfacing_ends(state: Surfacing, reply: SurfaceReply)
    ensures
        state.next(reply).state == state || answers_left(state.next(reply).state.stage)
            < answers_left(state.stage),
        state.stage == SurfaceStage::Done ==> state.next(reply).state == state,
{
}

/// The target is let run only where nobody asked for the stop, no module list
/// is owed, and the stop changed nothing.
pub proof fn law_surfacing_resumes_own_stops(state: Surfacing, reply: SurfaceReply)
    requires
        state.stage != SurfaceStage::Judging && state.stage != SurfaceStage::Resuming,
        state.next(reply).state.stage == SurfaceStage::Judging || state.next(reply).state.stage
            == SurfaceStage::Resuming,
    ensures
        state.next(reply).state.stage == SurfaceStage::Judging,
        !state.next(reply).state.interrupting,
        !state.next(reply).state.pending,
        state.next(reply).state.outcome.reload_status == TargetReloadStatus::Unchanged,
{
}

/// A target that is interrupted on request is never let run again by it.
pub proof fn law_interrupt_holds(state: Surfacing, reply: SurfaceReply)
    requires
        state.interrupting,
        state.stage != SurfaceStage::Judging && state.stage != SurfaceStage::Resuming,
    ensures
        state.next(reply).state.interrupting,
        state.next(reply).state.stage != SurfaceStage::Judging,
        state.next(reply).state.stage != SurfaceStage::Resuming,
        state.next(reply).ask != SurfaceAsk::Continue,
{
}

/// Processors are listed before symbols are loaded and the signal of the backend
/// is taken.
pub proof fn law_processors_are_listed_first(state: Surfacing, reply: SurfaceReply)
    requires
        state.stage != SurfaceStage::Showing,
        state.next(reply).ask == SurfaceAsk::Modules,
    ensures
        state.next(reply).effects.len() > 0,
        state.next(reply).effects.last() == Effect::RefreshVcpus,
{
}

/// The answer about modules, with which the signal of the backend is taken, ends
/// surfacing: it is never asked for again.
pub proof fn law_modules_are_looked_at_once(state: Surfacing, news: ModuleNews, later: SurfaceReply)
    requires
        state.stage == SurfaceStage::Showing,
    ensures
        ({
            let moved = state.next(SurfaceReply::Modules(news));
            &&& moved.ask is Finish
            &&& moved.state.next(later).state == moved.state
            &&& moved.state.next(later).ask is Idle
        }),
{
}

/// A kernel that is not discoverable yet is shown as such, and nothing else is
/// done about the stop.
pub proof fn law_pending_rediscovery_is_shown(
    state: Surfacing,
    event: StopEvent,
    hint: Option<VirtAddr>,
)
    requires
        state.stage == SurfaceStage::Reloading,
    ensures
        ({
            let moved = state.next(
                SurfaceReply::Reload(
                    event,
                    TargetReloadStatus::PendingRediscovery { kernel_base_hint: hint },
                ),
            );
            &&& moved.effects == Seq::<Effect>::empty().push(Effect::ShowPendingRediscovery)
            &&& moved.ask == SurfaceAsk::Finish(SurfaceEnd::Surfaced)
            &&& moved.state.pending
        }),
{
}

} // verus!
