//! What running the target makes of each answer: which answers end the run and
//! what is shown then, which let the target run on, and which lead further.
use crate::repl::commands::exec::{
    break_effects, break_question, BreakAsk, BreakReply, BreakpointFacts, ReplState, RunAsk,
    RunReply, RunStage, StepPlan,
};
use crate::repl::effects::{Effect, Notice, Trouble};
use crate::repl::stop::{ModuleNews, StopOutcome, TargetReloadStatus};
use crate::repl::surface::SurfaceEnd;
use crate::session::{BreakpointStopAction, StepKind, StopEvent, WatchpointStopAction};
use crate::types::VirtAddr;
use vstd::prelude::*;

verus! {

/// A watchpoint that is hit ends the run, whether its condition could be evaluated
/// or not: the hit is the last thing that is shown, after the symbols and the
/// Windows thread of the stop were taken up and the condition's failure, where it
/// failed, was reported. A hit never leads back to waiting.
pub proof fn law_a_watchpoint_hit_ends_the_run(
    state: ReplState,
    id: u32,
    condition_error: Option<String>,
    facts: BreakpointFacts,
)
    requires
        state.stage == RunStage::Watching,
    ensures
        ({
            let moved = state.next(
                RunReply::Watchpoint(Ok(WatchpointStopAction::Hit { id, condition_error })),
                facts,
            );
            &&& moved.ask == RunAsk::Finish
            &&& moved.state.stage == RunStage::Idle
            &&& moved.effects.len() >= 3
            &&& moved.effects.last() == Effect::ShowHardwareHit(id)
            &&& moved.effects[0] == Effect::RefreshSymbolContext
            &&& moved.effects[1] == Effect::RefreshWindowsThread
            &&& condition_error is None ==> moved.effects.len() == 3
            &&& condition_error matches Some(e) ==> moved.effects.len() == 4 && moved.effects[2]
                == Effect::Report(Trouble::WatchCondition, e)
        }),
{
}

/// A breakpoint that is hit ends the run: where the target stopped is the last
/// thing that is shown. A breakpoint of the user's is named before; a temporary one
/// is not. A condition that could not be evaluated is reported first.
pub proof fn law_a_breakpoint_hit_ends_the_run(
    state: ReplState,
    id: u32,
    symbol: Option<String>,
    temporary: bool,
    condition_error: Option<String>,
    facts: BreakpointFacts,
)
    requires
        state.stage == RunStage::Hitting,
    ensures
        ({
            let moved = state.next(
                RunReply::Breakpoint(
                    Ok(BreakpointStopAction::Hit { id, symbol, temporary, condition_error }),
                ),
                facts,
            );
            let reported = if condition_error is Some {
                1int
            } else {
                0int
            };
            &&& moved.ask == RunAsk::Finish
            &&& moved.state.stage == RunStage::Idle
            &&& moved.effects.last() == Effect::ShowBreak
            &&& moved.effects.len() == reported + (if temporary {
                2int
            } else {
                3int
            })
            &&& condition_error matches Some(e) ==> moved.effects[0] == Effect::Report(
                Trouble::BreakCondition,
                e,
            )
            &&& moved.effects[reported] == Effect::Blank
            &&& !temporary ==> moved.effects[reported + 1] == (Effect::SayBreakpoint { id, symbol })
        }),
{
}

/// Where the target runs again on its own account, because a condition did not
/// hold, the hit was another process's, or the debugger let it run, it is waited
/// for without a word.
pub proof fn law_a_target_that_runs_on_is_waited_for(
    state: ReplState,
    reply: RunReply,
    facts: BreakpointFacts,
)
    requires
        (state.stage == RunStage::Watching && reply == RunReply::Watchpoint(
            Ok(WatchpointStopAction::Resumed),
        )) || (state.stage == RunStage::Hitting && reply == RunReply::Breakpoint(
            Ok(BreakpointStopAction::Resumed),
        )) || ((state.stage == RunStage::ResumingOwn || state.stage == RunStage::ResumingStray)
            && reply == RunReply::Continued(Ok(()))),
    ensures
        state.next(reply, facts).ask == RunAsk::TakeInterrupt,
        state.next(reply, facts).effects == Seq::<Effect>::empty(),
        state.next(reply, facts).state == (ReplState { stage: RunStage::Listening, ..state }),
{
}

/// What each question that can fail reports when it does.
pub open spec fn failure(stage: RunStage, reply: RunReply) -> Option<(Trouble, String)> {
    match (stage, reply) {
        (RunStage::Surfacing, RunReply::Surfaced(SurfaceEnd::Failed(e))) => Some(
            (Trouble::CheckingRunning, e),
        ),
        (RunStage::Resuming, RunReply::Resumed(Err(e))) => Some((Trouble::Continuing, e)),
        (RunStage::Polling, RunReply::Stop(Err(e))) => Some((Trouble::Waiting, e)),
        (RunStage::Interrupting, RunReply::Interrupted(Err(e))) => Some((Trouble::Waiting, e)),
        (RunStage::ResumingOwn, RunReply::Continued(Err(e))) => Some((Trouble::AssistedResume, e)),
        (RunStage::ResumingStray, RunReply::Continued(Err(e))) => Some((Trouble::StrayResume, e)),
        (RunStage::Watching, RunReply::Watchpoint(Err(e))) => Some((Trouble::Watchpoint, e)),
        (RunStage::Reading, RunReply::Registers(Err(e))) => Some((Trouble::ReadingRegisters, e)),
        (RunStage::Hitting, RunReply::Breakpoint(Err(e))) => Some((Trouble::BreakpointStop, e)),
        _ => None,
    }
}

/// A failure ends the run, and is reported as what it is, with its reason; it is
/// the only thing that is done.
pub proof fn law_a_failure_ends_the_run(state: ReplState, reply: RunReply, facts: BreakpointFacts)
    requires
        failure(state.stage, reply) is Some,
    ensures
        state.next(reply, facts).ask == RunAsk::Finish,
        state.next(reply, facts).state == (ReplState { stage: RunStage::Idle, ..state }),
        state.next(reply, facts).effects.len() == 1,
        state.next(reply, facts).effects[0] == Effect::Report(
            (failure(state.stage, reply)->0).0,
            (failure(state.stage, reply)->0).1,
        ),
{
}

/// A target that runs already is not resumed: a stop of its that is there is
/// surfaced, and where there is none the user is told that it runs. One that does
/// not run is resumed, and then waited for, with word of it and with requests for an
/// interrupt from before dropped.
pub proof fn law_running_begins(state: ReplState, facts: BreakpointFacts)
    ensures
        state.stage == RunStage::Idle ==> {
            let moved = state.next(RunReply::Start, facts);
            moved.ask == RunAsk::IsRunning && moved.effects.len() == 0
        },
        state.stage == RunStage::Checking ==> {
            &&& state.next(RunReply::Running(true), facts).ask == RunAsk::SurfacePending
            &&& state.next(RunReply::Running(false), facts).ask == RunAsk::Resume
            &&& state.next(RunReply::Running(true), facts).effects.len() == 0
            &&& state.next(RunReply::Running(false), facts).effects.len() == 0
        },
        state.stage == RunStage::Surfacing ==> {
            let there = state.next(RunReply::Surfaced(SurfaceEnd::Surfaced), facts);
            let none = state.next(RunReply::Surfaced(SurfaceEnd::NoStop), facts);
            &&& there.ask == RunAsk::Finish && there.effects.len() == 0
            &&& none.ask == RunAsk::Finish && none.effects.len() == 1
            &&& none.effects[0] == Effect::Complain(Notice::AlreadyRunning)
        },
        state.stage == RunStage::Resuming ==> {
            let moved = state.next(RunReply::Resumed(Ok(())), facts);
            &&& moved.ask == RunAsk::TakeInterrupt
            &&& moved.effects.len() == 2
            &&& moved.effects[0] == Effect::Say(Notice::Waiting)
            &&& moved.effects[1] == Effect::DropInterrupt
        },
{
}

/// Waiting asks in turn whether the user wants an interrupt and whether there is a
/// stop. Without a stop an interrupt that was wanted is made, and else it waits on.
/// A stop, waited for or brought about, is dealt with: what is dealt with is that
/// stop, first of all whether the target rebooted.
pub proof fn law_waiting_leads_to_the_stop(
    state: ReplState,
    wanted: bool,
    event: StopEvent,
    facts: BreakpointFacts,
)
    ensures
        state.stage == RunStage::Listening ==> {
            let moved = state.next(RunReply::Interrupt(wanted), facts);
            &&& moved.ask == RunAsk::Poll
            &&& moved.state.interrupt == wanted
            &&& moved.effects.len() == (if wanted {
                1int
            } else {
                0int
            })
            &&& wanted ==> moved.effects[0] == Effect::Blank
        },
        state.stage == RunStage::Polling ==> {
            let none = state.next(RunReply::Stop(Ok(None)), facts);
            let some = state.next(RunReply::Stop(Ok(Some(event))), facts);
            &&& state.interrupt ==> none.ask == RunAsk::Interrupt
            &&& !state.interrupt ==> none.ask == RunAsk::TakeInterrupt
            &&& none.effects.len() == 0
            &&& some.ask == RunAsk::Reload
            &&& some.effects.len() == 0
            &&& some.state.outcome.event == event
            &&& some.state.outcome.reload_status == TargetReloadStatus::Unchanged
        },
        state.stage == RunStage::Interrupting ==> {
            let moved = state.next(RunReply::Interrupted(Ok(event)), facts);
            &&& moved.ask == RunAsk::Reload
            &&& moved.effects.len() == 0
            &&& moved.state.outcome.event == event
            &&& moved.state.outcome.reload_status == TargetReloadStatus::Unchanged
        },
{
}

/// Whether a stop may be the debugger's own: the user did not ask for it, no module
/// list is owed, and the target did not reboot.
pub open spec fn may_be_own(interrupt: bool, owed: bool, status: TargetReloadStatus) -> bool {
    !interrupt && !owed && status == TargetReloadStatus::Unchanged
}

/// Whether the module list is owed once it is known whether the target rebooted.
pub open spec fn owes(owed: bool, status: TargetReloadStatus) -> bool {
    match status {
        TargetReloadStatus::Unchanged => owed,
        TargetReloadStatus::Reloaded { loaded_module_list_available } =>
            !loaded_module_list_available,
        TargetReloadStatus::PendingRediscovery { .. } => true,
    }
}

/// Once it is known whether the target rebooted: a kernel that is not discoverable
/// yet ends the run, and that is shown; where a module list is owed, it is looked
/// for; else the question is whether the debugger brought the stop about, if it may
/// have, or whether a watchpoint was hit. The event and the status are kept.
pub proof fn law_a_reboot_is_dealt_with_first(
    state: ReplState,
    event: StopEvent,
    status: TargetReloadStatus,
    facts: BreakpointFacts,
)
    requires
        state.stage == RunStage::Reloading,
    ensures
        ({
            let moved = state.next(RunReply::Reload(event, status), facts);
            let owed = owes(state.reload_module_list_pending, status);
            &&& moved.state.outcome == (StopOutcome { event, reload_status: status })
            &&& moved.state.reload_module_list_pending == owed
            &&& moved.state.interrupt == state.interrupt
            &&& status is PendingRediscovery ==> {
                &&& moved.ask == RunAsk::Finish
                &&& moved.effects.len() == 1
                &&& moved.effects[0] == Effect::ShowPendingRediscovery
            }
            &&& !(status is PendingRediscovery) ==> moved.effects.len() == 0
            &&& !(status is PendingRediscovery) && owed ==> moved.ask == RunAsk::Startup
            &&& !(status is PendingRediscovery) && !owed ==> moved.ask == (if may_be_own(
                state.interrupt,
                owed,
                status,
            ) {
                RunAsk::Assisted
            } else {
                RunAsk::Watchpoint
            })
        }),
{
}

/// An owed module list that is there, at an address other than zero, is owed no
/// more, and everything that depends on it is brought up to date, in this order;
/// else it stays owed and nothing is done.
pub proof fn law_an_owed_module_list_is_taken_up(
    state: ReplState,
    startup: Option<VirtAddr>,
    facts: BreakpointFacts,
)
    requires
        state.stage == RunStage::Completing,
        state.reload_module_list_pending,
    ensures
        ({
            let moved = state.next(RunReply::Startup(startup), facts);
            let there = startup is Some && (startup->0).0 != 0;
            &&& moved.state.outcome == state.outcome
            &&& moved.state.reload_module_list_pending == !there
            &&& !there ==> moved.effects.len() == 0
            &&& there ==> moved.effects == seq![
                Effect::Say(Notice::ModuleList((startup->0).0)),
                Effect::RefreshModuleSymbols,
                Effect::RefreshSymbolContext,
                Effect::RefreshProcesses(Trouble::ProcessCacheAfterModuleList),
                Effect::ForgetThreads,
                Effect::RefreshDrivers,
                Effect::RefreshVcpus,
                Effect::RefreshExpressions,
                Effect::NoteRediscoveryComplete,
            ]
            &&& moved.ask == (if may_be_own(
                state.interrupt,
                !there,
                state.outcome.reload_status,
            ) {
                RunAsk::Assisted
            } else {
                RunAsk::Watchpoint
            })
        }),
{
    let moved = state.next(RunReply::Startup(startup), facts);
    if startup is Some && (startup->0).0 != 0 {
        assert(moved.effects =~= seq![
            Effect::Say(Notice::ModuleList((startup->0).0)),
            Effect::RefreshModuleSymbols,
            Effect::RefreshSymbolContext,
            Effect::RefreshProcesses(Trouble::ProcessCacheAfterModuleList),
            Effect::ForgetThreads,
            Effect::RefreshDrivers,
            Effect::RefreshVcpus,
            Effect::RefreshExpressions,
            Effect::NoteRediscoveryComplete,
        ]);
    }
}

/// A stop that the debugger brought about lets the target run on; any other may be
/// a watchpoint's. What no watchpoint caused may be left over from a step: then the
/// thread that stopped is taken up, its trap flag cleared, and the target let run.
/// What is not left over is looked at, once the thread is taken up and the
/// processors are listed.
pub proof fn law_stops_are_told_apart(state: ReplState, facts: BreakpointFacts)
    ensures
        state.stage == RunStage::Judging && state.outcome.reload_status
            == TargetReloadStatus::Unchanged ==> {
            &&& state.next(RunReply::Assisted(true), facts).ask == RunAsk::Continue
            &&& state.next(RunReply::Assisted(true), facts).state.stage == RunStage::ResumingOwn
            &&& state.next(RunReply::Assisted(true), facts).effects.len() == 0
        },
        state.stage == RunStage::Judging ==> {
            &&& state.next(RunReply::Assisted(false), facts).ask == RunAsk::Watchpoint
            &&& state.next(RunReply::Assisted(false), facts).effects.len() == 0
        },
        state.stage == RunStage::Watching ==> {
            let moved = state.next(
                RunReply::Watchpoint(Ok(WatchpointStopAction::NotBreakpoint)),
                facts,
            );
            moved.ask == RunAsk::StraySingleStep && moved.effects.len() == 0
        },
        state.stage == RunStage::Straying ==> {
            let stray = state.next(RunReply::Stray(true), facts);
            let plain = state.next(RunReply::Stray(false), facts);
            &&& stray.ask == RunAsk::Continue
            &&& stray.state.stage == RunStage::ResumingStray
            &&& stray.effects == seq![Effect::SelectStoppedThread, Effect::ClearTrapFlag]
            &&& plain.ask == RunAsk::Modules
            &&& plain.effects == seq![Effect::SelectStoppedThread, Effect::RefreshVcpus]
        },
{
    if state.stage == RunStage::Straying {
        assert(state.next(RunReply::Stray(true), facts).effects
            =~= seq![Effect::SelectStoppedThread, Effect::ClearTrapFlag]);
        assert(state.next(RunReply::Stray(false), facts).effects
            =~= seq![Effect::SelectStoppedThread, Effect::RefreshVcpus]);
    }
}

/// Whether a stop is a bugcheck of the kernel that was known.
pub open spec fn is_bugcheck(outcome: StopOutcome) -> bool {
    outcome.event.is_bugcheck && !(outcome.reload_status is Reloaded)
}

/// Whether a stop only announces that a kernel was loaded.
pub open spec fn is_announcement(outcome: StopOutcome) -> bool {
    outcome.reload_status is Reloaded && outcome.event.exception_code is None
        && outcome.event.target_kernel_base_hint is Some
}

/// Whether a stop is an exception of the guest's own: no bugcheck, no reboot, an
/// exception at an address where none of our int3s stands.
pub open spec fn is_foreign_exception(outcome: StopOutcome, facts: BreakpointFacts) -> bool {
    &&& !(outcome.reload_status is Reloaded)
    &&& !outcome.event.is_bugcheck
    &&& outcome.event.exception_code is Some
    &&& outcome.event.program_counter is Some
    &&& !facts.owned
}

/// Whether new modules with symbols appeared.
pub open spec fn brings_symbols(news: ModuleNews) -> bool {
    news.report is Some && news.report->0.total > 0 && news.report->0.loaded > 0
}

/// Once the modules were looked at, three kinds of stop end the run and are shown
/// as what they are: a bugcheck, with what was reported of it; the announcement of a
/// kernel; an exception of the guest's own, with its code and address. Any other
/// stop leads to the registers, since it may be a breakpoint's.
pub proof fn law_the_kind_of_stop_decides(
    state: ReplState,
    news: ModuleNews,
    facts: BreakpointFacts,
)
    requires
        state.stage == RunStage::Looking,
    ensures
        ({
            let moved = state.next(RunReply::Modules(news), facts);
            let event = state.outcome.event;
            &&& is_bugcheck(state.outcome) ==> {
                &&& moved.ask == RunAsk::Finish
                &&& moved.effects.last() == Effect::ShowBreakForBugcheck(event.bugcheck)
                &&& moved.effects.contains(Effect::ShowBugcheck(event.bugcheck))
            }
            &&& is_announcement(state.outcome) ==> {
                &&& moved.ask == RunAsk::Finish
                &&& moved.effects.last() == Effect::ShowReloadNotification
            }
            &&& is_foreign_exception(state.outcome, facts) ==> {
                &&& moved.ask == RunAsk::Finish
                &&& moved.effects.last() == Effect::ShowBreak
                &&& moved.effects.contains(
                    Effect::ShowStopNotice {
                        code: event.exception_code,
                        pc: event.program_counter,
                    },
                )
            }
            &&& !is_bugcheck(state.outcome) && !is_announcement(state.outcome)
                && !is_foreign_exception(state.outcome, facts) ==> {
                &&& moved.ask == RunAsk::Registers
                &&& !moved.state.noticed
                &&& facts.any_enabled ==> moved.effects.last() == Effect::RewindThreads
            }
            &&& brings_symbols(news) ==> moved.effects.len() >= 2 && moved.effects[0]
                == Effect::ShowModuleSymbols(news.report->0) && moved.effects[1]
                == Effect::RefreshSymbolContext
            &&& moved.effects.contains(Effect::RefreshExpressions)
            &&& moved.state.outcome == state.outcome
        }),
{
    broadcast use vstd::seq_lib::group_seq_properties;

    let moved = state.next(RunReply::Modules(news), facts);
    let event = state.outcome.event;
    let at = if brings_symbols(news) {
        2int
    } else {
        0int
    };
    if is_bugcheck(state.outcome) {
        assert(moved.effects[at] == Effect::ShowBugcheck(event.bugcheck));
    }
    if is_foreign_exception(state.outcome, facts) {
        assert(moved.effects[at] == (Effect::ShowStopNotice {
            code: event.exception_code,
            pc: event.program_counter,
        }));
    }
    let reloaded = state.outcome.reload_status is Reloaded;
    let shown = if is_bugcheck(state.outcome) || is_foreign_exception(state.outcome, facts) {
        2int
    } else {
        0int
    };
    let mid = at + shown + (if reloaded {
        0int
    } else {
        1int
    }) + (if brings_symbols(news) || news.event_changed {
        1int
    } else {
        0int
    });
    assert(moved.effects[mid] == Effect::RefreshExpressions);
}

/// The registers that are read are those that the hit is looked for with; the page
/// table of the stop is taken up where there is one.
pub proof fn law_registers_lead_to_the_hit(
    state: ReplState,
    rip: u64,
    cr3: u64,
    facts: BreakpointFacts,
)
    requires
        state.stage == RunStage::Reading,
    ensures
        ({
            let moved = state.next(RunReply::Registers(Ok((rip, cr3))), facts);
            &&& moved.ask == (RunAsk::Breakpoint { rip, cr3 })
            &&& moved.state.outcome == state.outcome
            &&& moved.state.noticed == state.noticed
            &&& moved.effects == (if cr3 == 0 {
                seq![Effect::RefreshWindowsThread]
            } else {
                seq![
                    Effect::UseContext(cr3),
                    Effect::RefreshSymbolContext,
                    Effect::RefreshWindowsThread,
                ]
            })
        }),
{
    let moved = state.next(RunReply::Registers(Ok((rip, cr3))), facts);
    if cr3 == 0 {
        assert(moved.effects =~= seq![Effect::RefreshWindowsThread]);
    } else {
        assert(moved.effects =~= seq![
            Effect::UseContext(cr3),
            Effect::RefreshSymbolContext,
            Effect::RefreshWindowsThread,
        ]);
    }
}

/// A stop that turns out to be no hit ends the run: where the target stopped is the
/// last thing that is shown, and before that the exception, unless it was shown
/// already or the target rebooted.
pub proof fn law_no_hit_is_shown_as_a_break(state: ReplState, facts: BreakpointFacts)
    requires
        state.stage == RunStage::Hitting,
        !is_bugcheck(state.outcome),
        !is_announcement(state.outcome),
    ensures
        ({
            let moved = state.next(
                RunReply::Breakpoint(Ok(BreakpointStopAction::NotBreakpoint)),
                facts,
            );
            let event = state.outcome.event;
            &&& moved.ask == RunAsk::Finish
            &&& moved.effects == (if state.noticed || state.outcome.reload_status is Reloaded {
                seq![Effect::ShowBreak]
            } else {
                seq![
                    Effect::ShowStopNotice {
                        code: event.exception_code,
                        pc: event.program_counter,
                    },
                    Effect::Blank,
                    Effect::ShowBreak,
                ]
            })
        }),
{
    let moved = state.next(RunReply::Breakpoint(Ok(BreakpointStopAction::NotBreakpoint)), facts);
    let event = state.outcome.event;
    if state.noticed || state.outcome.reload_status is Reloaded {
        assert(moved.effects =~= seq![Effect::ShowBreak]);
    } else {
        assert(moved.effects =~= seq![
            Effect::ShowStopNotice { code: event.exception_code, pc: event.program_counter },
            Effect::Blank,
            Effect::ShowBreak,
        ]);
    }
}

/// Whether an answer is one to the question.
pub open spec fn answers(ask: RunAsk, reply: RunReply) -> bool {
    match ask {
        RunAsk::IsRunning => reply is Running,
        RunAsk::SurfacePending => reply is Surfaced,
        RunAsk::Resume => reply is Resumed,
        RunAsk::TakeInterrupt => reply is Interrupt,
        RunAsk::Poll => reply is Stop,
        RunAsk::Interrupt => reply is Interrupted,
        RunAsk::Reload => reply is Reload,
        RunAsk::Startup => reply is Startup,
        RunAsk::Assisted => reply is Assisted,
        RunAsk::Continue => reply is Continued,
        RunAsk::Watchpoint => reply is Watchpoint,
        RunAsk::StraySingleStep => reply is Stray,
        RunAsk::Modules => reply is Modules,
        RunAsk::Registers => reply is Registers,
        RunAsk::Breakpoint { .. } => reply is Breakpoint,
        RunAsk::Finish => reply is Start,
    }
}

/// An answer that was not asked for changes nothing, and asks the same again; one
/// that was asked for always leads on.
pub proof fn law_only_answers_lead_on(state: ReplState, reply: RunReply, facts: BreakpointFacts)
    ensures
        !answers(state.question(), reply) ==> {
            &&& state.next(reply, facts).state == state
            &&& state.next(reply, facts).effects.len() == 0
            &&& state.next(reply, facts).ask == state.question()
        },
        answers(state.question(), reply) ==> state.next(reply, facts).state.stage != state.stage,
        state.next(reply, facts).ask == state.next(reply, facts).state.question(),
{
}

/// Each stage asks its own question: the two stages that let the target run ask the
/// same, and no others do.
pub proof fn law_stages_ask_their_question(one: ReplState, other: ReplState)
    ensures
        one.stage == RunStage::Idle <==> one.question() == RunAsk::Finish,
        one.stage == RunStage::Checking <==> one.question() == RunAsk::IsRunning,
        one.stage == RunStage::Surfacing <==> one.question() == RunAsk::SurfacePending,
        one.stage == RunStage::Resuming <==> one.question() == RunAsk::Resume,
        one.stage == RunStage::Listening <==> one.question() == RunAsk::TakeInterrupt,
        one.stage == RunStage::Polling <==> one.question() == RunAsk::Poll,
        one.stage == RunStage::Interrupting <==> one.question() == RunAsk::Interrupt,
        one.stage == RunStage::Reloading <==> one.question() == RunAsk::Reload,
        one.stage == RunStage::Completing <==> one.question() == RunAsk::Startup,
        one.stage == RunStage::Judging <==> one.question() == RunAsk::Assisted,
        one.stage == RunStage::ResumingOwn || one.stage == RunStage::ResumingStray
            <==> one.question() == RunAsk::Continue,
        one.stage == RunStage::Watching <==> one.question() == RunAsk::Watchpoint,
        one.stage == RunStage::Straying <==> one.question() == RunAsk::StraySingleStep,
        one.stage == RunStage::Looking <==> one.question() == RunAsk::Modules,
        one.stage == RunStage::Reading <==> one.question() == RunAsk::Registers,
        one.stage == RunStage::Hitting ==> one.question() == (RunAsk::Breakpoint {
            rip: one.rip,
            cr3: one.cr3,
        }),
{
}

/// Breaking in surfaces a stop that is there; only where there is none the target
/// is interrupted, and a failure of either is reported with its reason.
pub proof fn law_breaking_in(
    state: ReplState,
    reply: BreakReply,
    effects: Seq<Effect>,
    ask: BreakAsk,
)
    requires
        effects == break_effects(reply),
        ask == break_question(reply),
    ensures
        reply is Start ==> ask == BreakAsk::SurfacePending && effects.len() == 0,
        reply == BreakReply::Pending(SurfaceEnd::NoStop) ==> ask == BreakAsk::SurfaceInterrupt
            && effects.len() == 0,
        reply == BreakReply::Pending(SurfaceEnd::Surfaced) ==> ask == BreakAsk::Finish
            && effects.len() == 0,
        reply matches BreakReply::Pending(SurfaceEnd::Failed(e)) ==> ask == BreakAsk::Finish
            && effects.len() == 1 && effects[0] == Effect::Report(Trouble::CheckingRunning, e),
        reply matches BreakReply::Interrupted(end) ==> ask == BreakAsk::Finish && (
        end matches SurfaceEnd::Failed(e) ==> effects.len() == 1 && effects[0] == Effect::Report(
            Trouble::Interrupting,
            e,
        )) && (!(end is Failed) ==> effects.len() == 0),
{
}

/// A single step that was made shows where the target stands; one that could not
/// be made is reported with its reason.
pub proof fn law_a_step_is_shown(
    state: &ReplState,
    stepped: Result<(), String>,
    effects: Vec<Effect>,
)
    requires
        call_ensures(ReplState::single_step, (state, stepped), effects),
    ensures
        stepped is Ok ==> effects@ == seq![Effect::Blank, Effect::ShowBreak],
        stepped matches Err(e) ==> effects@ == seq![Effect::Report(Trouble::Stepping, e)],
{
    if stepped is Ok {
        assert(effects@ =~= seq![Effect::Blank, Effect::ShowBreak]);
    } else {
        assert(effects@ =~= seq![Effect::Report(Trouble::Stepping, stepped->Err_0)]);
    }
}

/// Stepping over runs to where a call returns and steps once over anything else;
/// stepping out runs to where the function returns; what cannot be found out is
/// refused with its reason.
pub proof fn law_steps_are_planned(
    state: &ReplState,
    over: Result<StepKind, String>,
    over_plan: StepPlan,
    out: Result<VirtAddr, String>,
    out_plan: StepPlan,
)
    requires
        call_ensures(ReplState::cmd_p, (state, over), over_plan),
        call_ensures(ReplState::cmd_gu, (state, out), out_plan),
    ensures
        over == Ok::<StepKind, String>(StepKind::Single) ==> over_plan is Single,
        over matches Ok(StepKind::RunTo(to)) ==> over_plan == StepPlan::RunTo(to),
        over matches Err(e) ==> over_plan == StepPlan::Refuse(Trouble::Decoding, e),
        out matches Ok(to) ==> out_plan == StepPlan::RunTo(to),
        out matches Err(e) ==> out_plan == StepPlan::Refuse(Trouble::Plain, e),
{
}

} // verus!
