//! What a stop leads to, effect by effect.
use crate::error::Error;
use crate::repl::effects::{Effect, Notice, Trouble};
use crate::repl::stop::{
    completes, format_windows_thread, is_target_reload_load_symbols_stop, loads_symbols,
    may_end_reload, may_find_thread, module_list_effects, pending_after, post_effects,
    print_async_stop_context, print_target_reload_report, reload_effects, reload_status,
    should_resume_assisted_refresh_stop, stop_exception_cause, stop_head, symbol_effects,
    ModuleNews, ModuleSymbolReport, ReloadOutcome, ReloadReport, ReloadWords, StopOutcome,
    TargetReloadStatus, ThreadInfo,
};
use crate::session::StopEvent;
use crate::session_laws::law_processors_count_from_one;
use crate::text::{dec, hex, hex_prefixed};
use crate::types::VirtAddr;
use crate::ui::{spec_addr, spec_bright_black, spec_muted};
use vstd::prelude::*;
use vstd::string::*;

verus! {

/// These effects where a condition holds, else none.
pub open spec fn provided(condition: bool, effects: Seq<Effect>) -> Seq<Effect> {
    if condition {
        effects
    } else {
        Seq::empty()
    }
}

/// Whether symbols of new modules were loaded.
pub open spec fn brought(report: Option<ModuleSymbolReport>) -> bool {
    match report {
        Some(report) => report.total > 0 && report.loaded > 0,
        None => false,
    }
}

/// New module symbols are shown, and the symbols of the prompt then follow; without
/// any, nothing is done.
pub proof fn law_new_symbols_are_shown(effects: Seq<Effect>, report: Option<ModuleSymbolReport>)
    ensures
        loads_symbols(report) == brought(report),
        symbol_effects(effects, report) == effects + provided(
            brought(report),
            seq![Effect::ShowModuleSymbols(report->0), Effect::RefreshSymbolContext],
        ),
{
    assert(symbol_effects(effects, report) =~= effects + provided(
        brought(report),
        seq![Effect::ShowModuleSymbols(report->0), Effect::RefreshSymbolContext],
    ));
}

/// After every stop expressions are refreshed last; processes are unless the reload did
/// so, drivers only where the module set changed.
pub proof fn law_caches_follow_a_stop(effects: Seq<Effect>, reloaded: bool, changed: bool)
    ensures
        post_effects(effects, reloaded, changed) == effects + provided(
            !reloaded,
            seq![Effect::RefreshProcesses(Trouble::ProcessCache)],
        ) + provided(changed, seq![Effect::RefreshDrivers]) + seq![Effect::RefreshExpressions],
{
    assert(post_effects(effects, reloaded, changed) =~= effects + provided(
        !reloaded,
        seq![Effect::RefreshProcesses(Trouble::ProcessCache)],
    ) + provided(changed, seq![Effect::RefreshDrivers]) + seq![Effect::RefreshExpressions]);
}

/// Showing a stop begins with an empty line, the stopped thread and the processors.
pub proof fn law_showing_begins(effects: Seq<Effect>)
    ensures
        stop_head(effects) == effects + seq![
            Effect::Blank,
            Effect::SelectStoppedThread,
            Effect::RefreshVcpus,
        ],
{
    assert(stop_head(effects) =~= effects + seq![
        Effect::Blank,
        Effect::SelectStoppedThread,
        Effect::RefreshVcpus,
    ]);
}

/// How a stop is shown at last: as word of a reload where a reloaded kernel announces
/// its symbols without an exception, as a bugcheck where the kernel that was known
/// bugchecks, else as a break, whose cause is that of the stop unless the kernel was
/// reloaded.
pub open spec fn last_shown(outcome: StopOutcome) -> Effect {
    let event = outcome.event;
    if outcome.reload_status is Reloaded {
        if event.exception_code is None && event.target_kernel_base_hint is Some {
            Effect::ShowReloadNotification
        } else {
            Effect::ShowBreakWithCause { code: None, pc: None }
        }
    } else if event.is_bugcheck {
        Effect::ShowBreakForBugcheck(event.bugcheck)
    } else {
        Effect::ShowBreakWithCause { code: event.exception_code, pc: event.program_counter }
    }
}

/// A stop that was not waited for shows new symbols, then a bugcheck of the kernel that
/// was known, then refreshes the caches, and then is shown by its kind.
pub proof fn law_unawaited_stops_are_shown(
    outcome: StopOutcome,
    news: ModuleNews,
    r: Vec<Effect>,
)
    requires
        call_ensures(print_async_stop_context, (outcome, news), r),
    ensures
        r@ == provided(
            brought(news.report),
            seq![Effect::ShowModuleSymbols(news.report->0), Effect::RefreshSymbolContext],
        ) + provided(
            outcome.event.is_bugcheck && !(outcome.reload_status is Reloaded),
            seq![Effect::ShowBugcheck(outcome.event.bugcheck), Effect::Blank],
        ) + provided(
            !(outcome.reload_status is Reloaded),
            seq![Effect::RefreshProcesses(Trouble::ProcessCache)],
        ) + provided(
            brought(news.report) || news.event_changed,
            seq![Effect::RefreshDrivers],
        ) + seq![Effect::RefreshExpressions, last_shown(outcome)],
{
    let symbols = provided(
        brought(news.report),
        seq![Effect::ShowModuleSymbols(news.report->0), Effect::RefreshSymbolContext],
    );
    let bugcheck = provided(
        outcome.event.is_bugcheck && !(outcome.reload_status is Reloaded),
        seq![Effect::ShowBugcheck(outcome.event.bugcheck), Effect::Blank],
    );
    law_new_symbols_are_shown(Seq::empty(), news.report);
    law_caches_follow_a_stop(
        symbols + bugcheck,
        outcome.reload_status is Reloaded,
        brought(news.report) || news.event_changed,
    );
    assert(symbol_effects(Seq::empty(), news.report) =~= symbols);
    assert(symbols + seq![Effect::ShowBugcheck(outcome.event.bugcheck), Effect::Blank]
        =~= symbols.push(Effect::ShowBugcheck(outcome.event.bugcheck)).push(Effect::Blank));
    assert(symbols + Seq::<Effect>::empty() =~= symbols);
    assert(r@ =~= symbols + bugcheck + provided(
        !(outcome.reload_status is Reloaded),
        seq![Effect::RefreshProcesses(Trouble::ProcessCache)],
    ) + provided(brought(news.report) || news.event_changed, seq![Effect::RefreshDrivers])
        + seq![Effect::RefreshExpressions, last_shown(outcome)]);
}

/// A stop announces the symbols of a reloaded kernel if and only if the target was
/// reloaded and the stop carries the place of a kernel and no exception.
pub proof fn law_symbol_announcements(event: StopEvent, status: TargetReloadStatus, r: bool)
    requires
        call_ensures(is_target_reload_load_symbols_stop, (&event, status), r),
    ensures
        r <==> (status is Reloaded && event.exception_code is None
            && event.target_kernel_base_hint is Some),
{
}

/// Only an assisted stop of a target that did not reboot lets the target run again.
pub proof fn law_only_assisted_stops_resume(assisted: bool, status: TargetReloadStatus, r: bool)
    requires
        call_ensures(should_resume_assisted_refresh_stop, (assisted, status), r),
    ensures
        r <==> (assisted && !(status is Reloaded) && !(status is PendingRediscovery)),
{
}

/// What is left to be done of a reload: the module list is owed while the kernel or its
/// list was not found, settled once it was, and as it was at any other stop.
pub proof fn law_module_list_is_owed(pending: bool, status: TargetReloadStatus)
    ensures
        status is PendingRediscovery ==> pending_after(pending, status),
        status matches TargetReloadStatus::Reloaded { loaded_module_list_available } ==> (
        pending_after(pending, status) <==> !loaded_module_list_available),
        status is Unchanged ==> pending_after(pending, status) == pending,
{
}

/// An owed module list is taken up if and only if the target gives it an address; all
/// that depends on it is then refreshed.
pub proof fn law_owed_module_list_is_taken_up(
    pending: bool,
    startup: Option<VirtAddr>,
    address: u64,
)
    ensures
        completes(pending, startup) <==> (pending && startup is Some && (startup->0).0 > 0),
        module_list_effects(address) == seq![
            Effect::Say(Notice::ModuleList(address)),
            Effect::RefreshModuleSymbols,
            Effect::RefreshSymbolContext,
            Effect::RefreshProcesses(Trouble::ProcessCacheAfterModuleList),
            Effect::ForgetThreads,
            Effect::RefreshDrivers,
            Effect::RefreshVcpus,
            Effect::RefreshExpressions,
            Effect::NoteRediscoveryComplete,
        ],
{
    assert(module_list_effects(address) =~= seq![
        Effect::Say(Notice::ModuleList(address)),
        Effect::RefreshModuleSymbols,
        Effect::RefreshSymbolContext,
        Effect::RefreshProcesses(Trouble::ProcessCacheAfterModuleList),
        Effect::ForgetThreads,
        Effect::RefreshDrivers,
        Effect::RefreshVcpus,
        Effect::RefreshExpressions,
        Effect::NoteRediscoveryComplete,
    ]);
}

/// However a reload ends, breakpoints are forgotten first, the processors are listed
/// anew, expressions are refreshed, and word of dropped breakpoints comes last. With a
/// kernel found its report is shown and its processes and drivers are listed anew;
/// without one they are forgotten, and why is said.
pub proof fn law_reloads_rebuild(outcome: ReloadOutcome, dropped: usize, hint: Option<VirtAddr>)
    ensures
        reload_effects(outcome, dropped) == seq![Effect::ForgetBreakpoints] + (match outcome {
            ReloadOutcome::Found { .. } => seq![
                Effect::ShowReloadReport,
                Effect::RefreshSymbolContext,
                Effect::ResetVcpus,
                Effect::ResetProcesses(Trouble::ProcessCacheAfterReload),
                Effect::ForgetThreads,
                Effect::ResetDrivers,
            ],
            ReloadOutcome::NotFound => seq![
                Effect::Say(Notice::Undiscoverable),
                Effect::ForgetProcesses,
                Effect::ResetVcpus,
                Effect::ForgetDrivers,
            ],
            ReloadOutcome::Failed(reason) => seq![
                Effect::Report(Trouble::Rediscovery, reason),
                Effect::ForgetProcesses,
                Effect::ResetVcpus,
                Effect::ForgetDrivers,
            ],
        }) + seq![Effect::RefreshExpressions] + provided(
            dropped > 0,
            seq![Effect::Say(Notice::Dropped(dropped))],
        ),
        outcome matches ReloadOutcome::Found { loaded_module_list_available: there }
            ==> reload_status(outcome, hint) == (TargetReloadStatus::Reloaded {
            loaded_module_list_available: there,
        }),
        !(outcome is Found) ==> reload_status(outcome, hint) == (
        TargetReloadStatus::PendingRediscovery { kernel_base_hint: hint }),
{
    let said = provided(dropped > 0, seq![Effect::Say(Notice::Dropped(dropped))]);
    match outcome {
        ReloadOutcome::Found { .. } => {
            assert(reload_effects(outcome, dropped) =~= seq![Effect::ForgetBreakpoints] + seq![
                Effect::ShowReloadReport,
                Effect::RefreshSymbolContext,
                Effect::ResetVcpus,
                Effect::ResetProcesses(Trouble::ProcessCacheAfterReload),
                Effect::ForgetThreads,
                Effect::ResetDrivers,
            ] + seq![Effect::RefreshExpressions] + said);
        },
        ReloadOutcome::NotFound => {
            assert(reload_effects(outcome, dropped) =~= seq![Effect::ForgetBreakpoints] + seq![
                Effect::Say(Notice::Undiscoverable),
                Effect::ForgetProcesses,
                Effect::ResetVcpus,
                Effect::ForgetDrivers,
            ] + seq![Effect::RefreshExpressions] + said);
        },
        ReloadOutcome::Failed(reason) => {
            assert(reload_effects(outcome, dropped) =~= seq![Effect::ForgetBreakpoints] + seq![
                Effect::Report(Trouble::Rediscovery, reason),
                Effect::ForgetProcesses,
                Effect::ResetVcpus,
                Effect::ForgetDrivers,
            ] + seq![Effect::RefreshExpressions] + said);
        },
    }
}

/// Only the error that no kernel was found leaves a reload pending in silence; every
/// other error is put into words.
pub proof fn law_reload_errors_are_told<W: FnOnce(&Error) -> String>(
    report: Result<bool, Error>,
    words: W,
    outcome: ReloadOutcome,
)
    requires
        may_end_reload(report, words, outcome),
    ensures
        outcome is Found <==> report is Ok,
        outcome is NotFound <==> report matches Err(Error::NtoskrnlNotFound),
        outcome matches ReloadOutcome::Found { loaded_module_list_available: there }
            ==> report->Ok_0 == there,
        outcome matches ReloadOutcome::Failed(reason) ==> (report matches Err(e) && call_ensures(
            words,
            (&e,),
            reason,
        )),
{
}

/// A reload is reported with where the kernel was and, where one was found, where it is
/// and its module list; with how its symbols loaded, and why they did not.
pub proof fn law_reload_report(report: ReloadReport, r: ReloadWords)
    requires
        call_ensures(print_target_reload_report, (&report,), r),
    ensures
        r.line@ == spec_bright_black("target:"@) + " kernel reloaded: "@ + (
        match report.startup {
            Some(startup) => spec_addr(report.previous_base_address.0) + " -> "@ + spec_addr(
                startup.base_address.0,
            ) + ", psmods "@ + (match startup.loaded_module_list {
                Some(list) => spec_addr(list),
                None => spec_muted("unknown"@),
            }),
            None => "previous base "@ + spec_addr(report.previous_base_address.0),
        }),
        r.symbols == report.symbol_report,
        (match (r.error, report.symbol_error) {
            (Some(said), Some(why)) => said@
                == "failed to refresh kernel module symbols after reload: "@ + why@,
            (None, None) => true,
            _ => false,
        }),
{
    let head = spec_bright_black("target:"@);
    match report.startup {
        Some(startup) => {
            let a = spec_addr(report.previous_base_address.0);
            let b = spec_addr(startup.base_address.0);
            let c = match startup.loaded_module_list {
                Some(list) => spec_addr(list),
                None => spec_muted("unknown"@),
            };
            assert(head + " kernel reloaded: "@ + a + " -> "@ + b + ", psmods "@ + c =~= head
                + " kernel reloaded: "@ + (a + " -> "@ + b + ", psmods "@ + c));
        },
        None => {
            let a = spec_addr(report.previous_base_address.0);
            reveal_strlit(" kernel reloaded: ");
            reveal_strlit("previous base ");
            reveal_strlit(" kernel reloaded: previous base ");
            assert(" kernel reloaded: previous base "@ =~= " kernel reloaded: "@
                + "previous base "@);
            assert(head + " kernel reloaded: previous base "@ + a =~= head
                + " kernel reloaded: "@ + ("previous base "@ + a));
        },
    }
}

/// A labelled part of a line, where there is a value.
pub open spec fn part(label: Seq<char>, value: Option<Seq<char>>) -> Seq<char> {
    match value {
        Some(value) => "  "@ + spec_muted(label) + " "@ + value,
        None => Seq::empty(),
    }
}

/// A Windows thread is shown with the name of its process, its state, its address, its
/// process and its own number, each under its label; what is not known is left out, but
/// an unknown process is said to be.
pub proof fn law_windows_thread(thread: ThreadInfo, r: String)
    requires
        call_ensures(format_windows_thread, (&thread,), r),
    ensures
        r@ == spec_muted("thread"@) + " "@ + (match thread.process_name {
            Some(name) => name@,
            None => "unknown"@,
        }) + part(
            "state"@,
            match thread.state {
                Some(state) => Some(state@),
                None => None,
            },
        ) + part("ethread"@, Some(spec_addr(thread.ethread.0))) + part(
            "pid"@,
            match thread.pid {
                Some(n) => Some(dec(n as nat)),
                None => None,
            },
        ) + part(
            "tid"@,
            match thread.tid {
                Some(n) => Some(dec(n as nat)),
                None => None,
            },
        ),
{
    broadcast use lemma_part;

}

broadcast proof fn lemma_part(line: Seq<char>, label: Seq<char>, value: Seq<char>)
    ensures
        #[trigger] (line + part(label, Some(value))) == line + "  "@ + spec_muted(label) + " "@
            + value,
        line + part(label, None) == line,
{
    assert(line + part(label, Some(value)) =~= line + "  "@ + spec_muted(label) + " "@ + value);
    assert(line + part(label, None) =~= line);
}

/// A stop with an exception names its code, and where it happened if that is known.
pub proof fn law_exception_cause(code: Option<u32>, pc: Option<u64>, r: Option<String>)
    requires
        call_ensures(stop_exception_cause, (code, pc), r),
    ensures
        r is Some <==> code is Some,
        code matches Some(code) ==> (r->0)@ == spec_muted("exception"@) + " "@ + hex_prefixed(
            code as nat,
        ) + (match pc {
            Some(pc) => " at "@ + spec_addr(pc),
            None => Seq::empty(),
        }),
{
    if let Some(code) = code {
        let head = spec_muted("exception"@) + " "@ + hex_prefixed(code as nat);
        assert(head + Seq::<char>::empty() =~= head);
        if let Some(pc) = pc {
            assert(head + " at "@ + spec_addr(pc) =~= head + (" at "@ + spec_addr(pc)));
        }
    }
}

/// The Windows thread of a backend thread is that of its processor: the number behind
/// the last dot of its id, in hex and counted from one.
pub proof fn law_threads_go_by_processor<F: FnOnce(u16) -> Option<ThreadInfo>>(
    before: Seq<char>,
    n: nat,
    lookup: F,
    r: Option<ThreadInfo>,
)
    requires
        1 <= n <= 0xffff,
        may_find_thread(before + seq!['.'] + hex(n), lookup, r),
    ensures
        call_ensures(lookup, ((n - 1) as u16,), r),
{
    law_processors_count_from_one(before, n);
}

} // verus!
