//! What each answer leads to while a stop is surfaced, stage by stage.
use crate::repl::effects::{Effect, Notice, Trouble};
use crate::repl::stop::{ModuleNews, StopOutcome, TargetReloadStatus};
use crate::repl::stop_laws::{
    brought, last_shown, law_caches_follow_a_stop, law_new_symbols_are_shown,
    law_owed_module_list_is_taken_up, law_showing_begins, provided,
};
use crate::repl::surface::{SurfaceAsk, SurfaceEnd, SurfaceReply, SurfaceStage, Surfacing};
use crate::session::StopEvent;
use crate::types::VirtAddr;
use vstd::prelude::*;

verus! {

/// A target that has not stopped ends surfacing without a stop, one that cannot be asked
/// ends it with the reason; a stop is looked into, to find out whether the target
/// rebooted.
pub proof fn law_waiting_for_a_stop(state: Surfacing, event: StopEvent, why: String)
    requires
        state.stage == SurfaceStage::Waiting,
    ensures
        ({
            let moved = state.next(SurfaceReply::Stop(Err(why)));
            &&& moved.effects.len() == 0
            &&& moved.ask == SurfaceAsk::Finish(SurfaceEnd::Failed(why))
            &&& moved.state.stage == SurfaceStage::Done
        }),
        ({
            let moved = state.next(SurfaceReply::Stop(Ok(None)));
            &&& moved.effects.len() == 0
            &&& moved.ask == SurfaceAsk::Finish(SurfaceEnd::NoStop)
            &&& moved.state.stage == SurfaceStage::Done
        }),
        ({
            let moved = state.next(SurfaceReply::Stop(Ok(Some(event))));
            &&& moved.effects.len() == 0
            &&& moved.ask is Reload
            &&& moved.state.stage == SurfaceStage::Reloading
            &&& moved.state.outcome.event == event
            &&& moved.state.outcome.reload_status is Unchanged
            &&& moved.state.pending == state.pending
            &&& moved.state.interrupting == state.interrupting
        }),
{
}

/// What a stop begins to be shown with.
pub open spec fn beginning() -> Seq<Effect> {
    seq![Effect::Blank, Effect::SelectStoppedThread, Effect::RefreshVcpus]
}

/// Once it is known whether the target rebooted, what is left depends on that alone: an
/// undiscovered kernel is shown as such; a module list that is owed is asked for;
/// a stop that nobody asked for, of a target that did not reboot, may be the debugger's
/// own; every other is shown.
pub proof fn law_after_a_reload(state: Surfacing, event: StopEvent, status: TargetReloadStatus)
    requires
        state.stage == SurfaceStage::Reloading,
    ensures
        ({
            let moved = state.next(SurfaceReply::Reload(event, status));
            let owed = match status {
                TargetReloadStatus::Unchanged => state.pending,
                TargetReloadStatus::Reloaded { loaded_module_list_available: there } => !there,
                TargetReloadStatus::PendingRediscovery { .. } => true,
            };
            &&& moved.state.outcome == (StopOutcome { event, reload_status: status })
            &&& moved.state.pending == owed
            &&& moved.state.interrupting == state.interrupting
            &&& if status is PendingRediscovery {
                &&& moved.effects == seq![Effect::ShowPendingRediscovery]
                &&& moved.ask == SurfaceAsk::Finish(SurfaceEnd::Surfaced)
                &&& moved.state.stage == SurfaceStage::Done
            } else if owed {
                &&& moved.effects == seq![Effect::RefreshVcpus]
                &&& moved.ask is Startup
                &&& moved.state.stage == SurfaceStage::Completing
            } else if status is Unchanged && !state.interrupting {
                &&& moved.effects == seq![Effect::RefreshVcpus]
                &&& moved.ask is Assisted
                &&& moved.state.stage == SurfaceStage::Judging
            } else {
                &&& moved.effects == seq![Effect::RefreshVcpus] + beginning()
                &&& moved.ask is Modules
                &&& moved.state.stage == SurfaceStage::Showing
            }
        }),
{
    let moved = state.next(SurfaceReply::Reload(event, status));
    law_showing_begins(seq![Effect::RefreshVcpus]);
    assert(Seq::<Effect>::empty().push(Effect::RefreshVcpus) =~= seq![Effect::RefreshVcpus]);
    assert(Seq::<Effect>::empty().push(Effect::ShowPendingRediscovery)
        =~= seq![Effect::ShowPendingRediscovery]);
}

/// An owed module list that is there is taken up, and with it all that depends on it;
/// else it stays owed. Either way the stop is then shown, unless it may be the
/// debugger's own: none is while the list is owed.
pub proof fn law_owed_list_is_asked_for(state: Surfacing, startup: Option<VirtAddr>)
    requires
        state.stage == SurfaceStage::Completing,
        state.pending,
    ensures
        ({
            let moved = state.next(SurfaceReply::Startup(startup));
            let there = startup is Some && (startup->0).0 > 0;
            let done = provided(
                there,
                seq![
                    Effect::Say(Notice::ModuleList((startup->0).0)),
                    Effect::RefreshModuleSymbols,
                    Effect::RefreshSymbolContext,
                    Effect::RefreshProcesses(Trouble::ProcessCacheAfterModuleList),
                    Effect::ForgetThreads,
                    Effect::RefreshDrivers,
                    Effect::RefreshVcpus,
                    Effect::RefreshExpressions,
                    Effect::NoteRediscoveryComplete,
                ],
            );
            &&& moved.state.pending == !there
            &&& moved.state.outcome == state.outcome
            &&& moved.state.interrupting == state.interrupting
            &&& if there && !state.interrupting && state.outcome.reload_status is Unchanged {
                &&& moved.effects == done
                &&& moved.ask is Assisted
                &&& moved.state.stage == SurfaceStage::Judging
            } else {
                &&& moved.effects == done + beginning()
                &&& moved.ask is Modules
                &&& moved.state.stage == SurfaceStage::Showing
            }
        }),
{
    let address = (startup->0).0;
    law_owed_module_list_is_taken_up(state.pending, startup, address);
    let effects = Seq::<Effect>::empty() + crate::repl::stop::module_list_effects(address);
    assert(effects =~= crate::repl::stop::module_list_effects(address));
    law_showing_begins(effects);
    law_showing_begins(Seq::empty());
}

/// A stop that may be the debugger's own is let run if it is, silently; else it is shown.
pub proof fn law_own_stop_or_shown(state: Surfacing, assisted: bool)
    requires
        state.stage == SurfaceStage::Judging,
        state.outcome.reload_status is Unchanged,
    ensures
        ({
            let moved = state.next(SurfaceReply::Assisted(assisted));
            &&& moved.state == (Surfacing { stage: moved.state.stage, ..state })
            &&& if assisted {
                &&& moved.effects.len() == 0
                &&& moved.ask is Continue
                &&& moved.state.stage == SurfaceStage::Resuming
            } else {
                &&& moved.effects == beginning()
                &&& moved.ask is Modules
                &&& moved.state.stage == SurfaceStage::Showing
            }
        }),
{
    law_showing_begins(Seq::empty());
    assert(Seq::<Effect>::empty() + beginning() =~= beginning());
}

/// Letting the target run ends surfacing, and a failure to is told.
pub proof fn law_resuming_ends(state: Surfacing, why: String)
    requires
        state.stage == SurfaceStage::Resuming,
    ensures
        ({
            let moved = state.next(SurfaceReply::Continued(Ok(())));
            &&& moved.effects.len() == 0
            &&& moved.ask == SurfaceAsk::Finish(SurfaceEnd::Surfaced)
        }),
        ({
            let moved = state.next(SurfaceReply::Continued(Err(why)));
            &&& moved.effects.len() == 0
            &&& moved.ask == SurfaceAsk::Finish(SurfaceEnd::Failed(why))
        }),
{
}

/// Once the modules were looked at, the stop that came is shown, and surfacing ends.
pub proof fn law_the_stop_is_shown(state: Surfacing, news: ModuleNews)
    requires
        state.stage == SurfaceStage::Showing,
    ensures
        ({
            let moved = state.next(SurfaceReply::Modules(news));
            let event = state.outcome.event;
            let reloaded = state.outcome.reload_status is Reloaded;
            &&& moved.ask == SurfaceAsk::Finish(SurfaceEnd::Surfaced)
            &&& moved.state.stage == SurfaceStage::Done
            &&& moved.effects == provided(
                brought(news.report),
                seq![Effect::ShowModuleSymbols(news.report->0), Effect::RefreshSymbolContext],
            ) + provided(
                event.is_bugcheck && !reloaded,
                seq![Effect::ShowBugcheck(event.bugcheck), Effect::Blank],
            ) + provided(!reloaded, seq![Effect::RefreshProcesses(Trouble::ProcessCache)]) + provided(
                brought(news.report) || news.event_changed,
                seq![Effect::RefreshDrivers],
            ) + seq![Effect::RefreshExpressions, last_shown(state.outcome)]
        }),
{
    let outcome = state.outcome;
    let event = outcome.event;
    let reloaded = outcome.reload_status is Reloaded;
    let symbols = provided(
        brought(news.report),
        seq![Effect::ShowModuleSymbols(news.report->0), Effect::RefreshSymbolContext],
    );
    let bugcheck = provided(
        event.is_bugcheck && !reloaded,
        seq![Effect::ShowBugcheck(event.bugcheck), Effect::Blank],
    );
    law_new_symbols_are_shown(Seq::empty(), news.report);
    assert(Seq::<Effect>::empty() + symbols =~= symbols);
    assert(symbols + seq![Effect::ShowBugcheck(event.bugcheck), Effect::Blank] =~= symbols.push(
        Effect::ShowBugcheck(event.bugcheck),
    ).push(Effect::Blank));
    assert(symbols + Seq::<Effect>::empty() =~= symbols);
    law_caches_follow_a_stop(symbols + bugcheck, reloaded, brought(news.report) || news.event_changed);
    assert(state.next(SurfaceReply::Modules(news)).effects =~= symbols + bugcheck + provided(
        !reloaded,
        seq![Effect::RefreshProcesses(Trouble::ProcessCache)],
    ) + provided(brought(news.report) || news.event_changed, seq![Effect::RefreshDrivers])
        + seq![Effect::RefreshExpressions, last_shown(outcome)]);
}

/// Whether an answer is one to the question of a stage.
pub open spec fn answers(stage: SurfaceStage, reply: SurfaceReply) -> bool {
    match reply {
        SurfaceReply::Stop(_) => stage == SurfaceStage::Waiting,
        SurfaceReply::Reload(_, _) => stage == SurfaceStage::Reloading,
        SurfaceReply::Startup(_) => stage == SurfaceStage::Completing,
        SurfaceReply::Assisted(_) => stage == SurfaceStage::Judging,
        SurfaceReply::Continued(_) => stage == SurfaceStage::Resuming,
        SurfaceReply::Modules(_) => stage == SurfaceStage::Showing,
    }
}

/// An answer that was not asked for does nothing, and the question is asked again.
pub proof fn law_only_answers_lead_on(state: Surfacing, reply: SurfaceReply)
    requires
        !answers(state.stage, reply),
    ensures
        ({
            let moved = state.next(reply);
            &&& moved.state == state
            &&& moved.effects.len() == 0
            &&& match state.stage {
                SurfaceStage::Waiting => if state.interrupting {
                    moved.ask is Interrupt
                } else {
                    moved.ask is Poll
                },
                SurfaceStage::Reloading => moved.ask is Reload,
                SurfaceStage::Completing => moved.ask is Startup,
                SurfaceStage::Judging => moved.ask is Assisted,
                SurfaceStage::Resuming => moved.ask is Continue,
                SurfaceStage::Showing => moved.ask is Modules,
                SurfaceStage::Done => moved.ask is Idle,
            }
        }),
{
}

} // verus!
