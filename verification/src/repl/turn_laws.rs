//! What one turn at a stop leaves behind in what it is handed.
use crate::backend::{BackendCall, DebugBackend};
use crate::error::Error;
use crate::gdb::breakpoints::BreakpointManager;
use crate::repl::commands::exec::{facts, ReplState, RunReply, RunTurn};
use crate::repl::effects::{Effect, Notice, Trouble};
use crate::repl::stop::{
    apply_target_reload_if_needed, refresh_kernel_module_symbols_on_stop, refresh_stop_caches_post,
    refresh_stop_caches_pre, refresh_windows_thread_context_for_backend_thread,
    resume_assisted_refresh_stop, try_complete_pending_module_list_reload,
    update_reload_module_list_pending, ModuleNews, ModuleSymbolReport, ReloadOutcome,
    TargetReloadStatus, ThreadInfo,
};
use crate::repl::stop_laws::{
    brought, law_caches_follow_a_stop, law_new_symbols_are_shown, law_owed_module_list_is_taken_up,
    law_reload_errors_are_told, law_reloads_rebuild, provided,
};
use crate::repl::surface::{
    surface_interrupt_stop, surface_pending_stop, SurfaceAsk, SurfaceReply, SurfaceStage,
    SurfaceTurn, Surfacing,
};
use crate::session::StopEvent;
use crate::text::hex;
use crate::types::VirtAddr;
use vstd::prelude::*;

verus! {

/// New symbols are shown behind what was already to be done, and are said to have come.
pub proof fn law_symbols_are_added(
    report: Option<ModuleSymbolReport>,
    news: ModuleNews,
    a: &mut Vec<Effect>,
    b: &mut Vec<Effect>,
    loaded: bool,
    changed: bool,
)
    requires
        call_ensures(refresh_kernel_module_symbols_on_stop, (report, a), loaded),
        call_ensures(refresh_stop_caches_pre, (news, b), changed),
    ensures
        loaded == brought(report),
        final(a)@ == old(a)@ + provided(
            brought(report),
            seq![Effect::ShowModuleSymbols(report->0), Effect::RefreshSymbolContext],
        ),
        changed == (brought(news.report) || news.event_changed),
        final(b)@ == old(b)@ + provided(
            brought(news.report),
            seq![Effect::ShowModuleSymbols(news.report->0), Effect::RefreshSymbolContext],
        ),
{
    law_new_symbols_are_shown(old(a)@, report);
    law_new_symbols_are_shown(old(b)@, news.report);
}

/// The caches that follow a stop are refreshed behind what was already to be done.
pub proof fn law_refreshes_are_added(effects: &mut Vec<Effect>, reloaded: bool, changed: bool)
    requires
        call_ensures(refresh_stop_caches_post, (effects, reloaded, changed), ()),
    ensures
        final(effects)@ == old(effects)@ + provided(
            !reloaded,
            seq![Effect::RefreshProcesses(Trouble::ProcessCache)],
        ) + provided(changed, seq![Effect::RefreshDrivers]) + seq![Effect::RefreshExpressions],
{
    law_caches_follow_a_stop(old(effects)@, reloaded, changed);
}

/// The module list is owed after a stop whose kernel, or its list, was not found, no
/// longer owed after one with its list, and as before after any other.
pub proof fn law_module_list_stays_owed(pending: &mut bool, status: TargetReloadStatus)
    requires
        call_ensures(update_reload_module_list_pending, (pending, status), ()),
    ensures
        status is PendingRediscovery ==> *final(pending),
        status matches TargetReloadStatus::Reloaded { loaded_module_list_available: there }
            ==> *final(pending) == !there,
        status is Unchanged ==> *final(pending) == *old(pending),
{
}

/// An owed module list with an address is taken up once; else nothing is done and it
/// stays owed.
pub proof fn law_module_list_is_taken_up(
    startup: Option<VirtAddr>,
    pending: &mut bool,
    effects: &mut Vec<Effect>,
    r: bool,
)
    requires
        call_ensures(try_complete_pending_module_list_reload, (startup, pending, effects), r),
    ensures
        r <==> (*old(pending) && startup is Some && (startup->0).0 > 0),
        r ==> !*final(pending) && final(effects)@ == old(effects)@ + seq![
            Effect::Say(Notice::ModuleList((startup->0).0)),
            Effect::RefreshModuleSymbols,
            Effect::RefreshSymbolContext,
            Effect::RefreshProcesses(Trouble::ProcessCacheAfterModuleList),
            Effect::ForgetThreads,
            Effect::RefreshDrivers,
            Effect::RefreshVcpus,
            Effect::RefreshExpressions,
            Effect::NoteRediscoveryComplete,
        ],
        !r ==> *final(pending) == *old(pending) && final(effects)@ == old(effects)@,
{
    law_owed_module_list_is_taken_up(*old(pending), startup, (startup->0).0);
}

/// A stop that needs no reload is left alone. One that does is marked as reloaded, and
/// what the reload gave decides: the kernel that was found, or one still to be found,
/// near the address that was given; breakpoints are forgotten first in any case.
pub proof fn law_reload_is_applied<
    F: FnOnce() -> (Result<bool, Error>, Option<VirtAddr>),
    W: FnOnce(&Error) -> String,
>(
    required: bool,
    event: &mut StopEvent,
    dropped: usize,
    reload: F,
    words: W,
    r: (TargetReloadStatus, Vec<Effect>),
)
    requires
        call_ensures(
            apply_target_reload_if_needed::<F, W>,
            (required, event, dropped, reload, words),
            r,
        ),
    ensures
        !required ==> *final(event) == *old(event) && r.0 == TargetReloadStatus::Unchanged
            && r.1@.len() == 0,
        required ==> final(event).target_reloaded && final(event).is_bugcheck
            == old(event).is_bugcheck && final(event).program_counter
            == old(event).program_counter && final(event).exception_code
            == old(event).exception_code && final(event).bugcheck == old(event).bugcheck,
        required ==> r.1@.len() > 0 && r.1@[0] == Effect::ForgetBreakpoints,
        required ==> exists|report: Result<bool, Error>, hint: Option<VirtAddr>|
            {
                &&& #[trigger] call_ensures(reload, (), (report, hint))
                &&& match report {
                    Ok(there) => r.0 == (TargetReloadStatus::Reloaded {
                        loaded_module_list_available: there,
                    }) && r.1@[1] == Effect::ShowReloadReport,
                    Err(e) => r.0 == (TargetReloadStatus::PendingRediscovery {
                        kernel_base_hint: hint,
                    }) && (if e is NtoskrnlNotFound {
                        r.1@[1] == Effect::Say(Notice::Undiscoverable)
                    } else {
                        r.1@[1] matches Effect::Report(what, reason) && what == Trouble::Rediscovery
                            && call_ensures(words, (&e,), reason)
                    }),
                }
            },
{
    if required {
        let (report, hint, outcome) = choose|
            report: Result<bool, Error>,
            hint: Option<VirtAddr>,
            outcome: ReloadOutcome,
        |
            {
                &&& #[trigger] call_ensures(reload, (), (report, hint))
                &&& #[trigger] crate::repl::stop::may_end_reload(report, words, outcome)
                &&& r.0 == crate::repl::stop::reload_status(outcome, hint)
                &&& r.1@ == crate::repl::stop::reload_effects(outcome, dropped)
            };
        law_reload_errors_are_told(report, words, outcome);
        law_reloads_rebuild(outcome, dropped, hint);
        assert(call_ensures(reload, (), (report, hint)));
    }
}

/// The thread that is found for the stopped processor becomes the current one.
pub proof fn law_thread_is_kept<F: FnOnce(u16) -> Option<ThreadInfo>>(
    current: &mut Option<ThreadInfo>,
    thread_id: &str,
    lookup: F,
    before: Seq<char>,
    n: nat,
    r: Option<ThreadInfo>,
)
    requires
        call_ensures(
            refresh_windows_thread_context_for_backend_thread::<F>,
            (current, thread_id, lookup),
            r,
        ),
        1 <= n <= 0xffff,
        thread_id@ == before + seq!['.'] + hex(n),
    ensures
        *final(current) == r,
        call_ensures(lookup, ((n - 1) as u16,), r),
{
    crate::repl::stop_laws::law_threads_go_by_processor(before, n, lookup, r);
}

/// Letting an assisted stop go is telling the transport to continue.
pub proof fn law_assisted_stop_continues<C: DebugBackend>(client: &mut C, r: Result<(), Error>)
    requires
        call_ensures(resume_assisted_refresh_stop::<C>, (client,), r),
    ensures
        old(client).may(BackendCall::Continue, r, final(client)),
{
}

/// Looking for a stop that is there begins by asking for one; breaking in begins by
/// interrupting. Both wait, know of no stop yet, and keep whether a module list is owed.
pub proof fn law_surfacing_begins(
    pending: bool,
    polled: (Surfacing, SurfaceAsk),
    interrupted: (Surfacing, SurfaceAsk),
)
    requires
        call_ensures(surface_pending_stop, (pending,), polled),
        call_ensures(surface_interrupt_stop, (pending,), interrupted),
    ensures
        polled.1 == SurfaceAsk::Poll,
        interrupted.1 == SurfaceAsk::Interrupt,
        polled.0.stage == SurfaceStage::Waiting && interrupted.0.stage == SurfaceStage::Waiting,
        !polled.0.interrupting && interrupted.0.interrupting,
        polled.0.pending == pending && interrupted.0.pending == pending,
        polled.0.outcome == interrupted.0.outcome,
        polled.0.outcome.reload_status is Unchanged,
        ({
            let event = polled.0.outcome.event;
            &&& event.exception_code is None && event.program_counter is None
            &&& !event.is_bugcheck && event.bugcheck is None
            &&& event.target_kernel_base_hint is None && !event.target_reloaded
        }),
{
}

/// A turn leaves the state that the next move has, and gives what it does and asks.
pub proof fn law_turns_are_moves<E>(
    surfacing: &mut Surfacing,
    word: SurfaceReply,
    turn: SurfaceTurn,
    state: &mut ReplState,
    answer: RunReply,
    manager: &BreakpointManager<E>,
    run: RunTurn,
)
    requires
        call_ensures(Surfacing::step, (surfacing, word), turn),
        call_ensures(ReplState::continue_vm::<E>, (state, answer, manager), run),
    ensures
        old(surfacing).next(word).state == *final(surfacing),
        old(surfacing).next(word).effects == turn.effects@,
        old(surfacing).next(word).ask == turn.ask,
        ({
            let next = old(state).next(
                answer,
                facts(manager, old(state).outcome.event.program_counter),
            );
            next.state == *final(state) && next.effects == run.effects@ && next.ask == run.ask
        }),
{
}

} // verus!
