//! What a stop of the target leads to.
use crate::backend::{BackendCall, DebugBackend};
use crate::error::Error;
use crate::repl::effects::{Effect, Notice, Trouble};
use crate::session::{processor_index, processor_index_from_backend_thread_id, StopEvent};
use crate::text::{dec, decimal, hex_prefixed, hexadecimal_prefixed, text_opt};
use crate::types::VirtAddr;
use crate::ui;
use crate::ui::{bright_black, spec_addr, spec_addr_opt, spec_bright_black, spec_muted};
use vstd::prelude::*;
use vstd::string::*;

verus! {

/// How loading the symbols of new modules went.
#[derive(Debug, Clone, Copy, PartialEq, Eq, Structural)]
pub struct ModuleSymbolReport {
    pub total: usize,
    pub loaded: usize,
}

/// Whether new kernel modules appeared; nothing is known where refreshing
/// failed.
pub open spec fn loads_symbols(report: Option<ModuleSymbolReport>) -> bool {
    report matches Some(report) && report.total != 0 && report.loaded != 0
}

/// The effects so far, and what is done about new kernel modules.
pub open spec fn symbol_effects(
    effects: Seq<Effect>,
    report: Option<ModuleSymbolReport>,
) -> Seq<Effect> {
    if loads_symbols(report) {
        effects.push(Effect::ShowModuleSymbols(report->0)).push(Effect::RefreshSymbolContext)
    } else {
        effects
    }
}

/// Returns whether new kernel modules appeared (their symbols were just loaded),
/// which the caller uses as a "module set changed" signal for backends without a
/// load event, and adds what is to be done to `effects`. `report` is nothing
/// where refreshing failed.
pub fn refresh_kernel_module_symbols_on_stop(
    report: Option<ModuleSymbolReport>,
    effects: &mut Vec<Effect>,
) -> (r: bool)
    ensures
        r == loads_symbols(report),
        final(effects)@ == symbol_effects(old(effects)@, report),
{
    let report = match report {
        Some(report) => report,
        None => return false,
    };
    if report.total == 0 || report.loaded == 0 {
        return false;
    }
    effects.push(Effect::ShowModuleSymbols(report));
    effects.push(Effect::RefreshSymbolContext);
    true
}

/// What is known of a kernel that was found.
#[derive(Debug, Clone, Copy, PartialEq, Eq, Structural)]
pub struct StartupMessage {
    pub base_address: VirtAddr,
    pub loaded_module_list: Option<u64>,
}

/// How a reload of the target went.
#[derive(Debug)]
pub struct ReloadReport {
    pub previous_base_address: VirtAddr,
    pub startup: Option<StartupMessage>,
    pub symbol_report: Option<ModuleSymbolReport>,
    /// Why the symbols of the modules could not be loaded.
    pub symbol_error: Option<String>,
}

/// The line that reports a reload.
pub open spec fn reload_line(report: ReloadReport) -> Seq<char> {
    match report.startup {
        Some(startup) => spec_bright_black("target:"@) + " kernel reloaded: "@ + spec_addr(
            report.previous_base_address.0,
        ) + " -> "@ + spec_addr(startup.base_address.0) + ", psmods "@ + spec_addr_opt(
            startup.loaded_module_list,
        ),
        None => spec_bright_black("target:"@) + " kernel reloaded: previous base "@ + spec_addr(
            report.previous_base_address.0,
        ),
    }
}

/// What is printed of a reload: its line, the report on module symbols, and the
/// error that kept them from being loaded.
#[derive(Debug)]
pub struct ReloadWords {
    pub line: String,
    pub symbols: Option<ModuleSymbolReport>,
    pub error: Option<String>,
}

/// What is printed of a reload, in this order: the line, then the report on
/// module symbols and the error where there is one.
pub fn print_target_reload_report(report: &ReloadReport) -> (r: ReloadWords)
    ensures
        r.line@ == reload_line(*report),
        r.symbols == report.symbol_report,
        text_opt(r.error) == (match report.symbol_error {
            Some(err) => Some(Trouble::ModuleSymbolsAfterReload.spec_words() + err@),
            None => None,
        }),
{
    let line = match report.startup {
        Some(startup) => bright_black("target:").concat(" kernel reloaded: ").concat(
            ui::addr(report.previous_base_address.0).as_str(),
        ).concat(" -> ").concat(ui::addr(startup.base_address.0).as_str()).concat(
            ", psmods ",
        ).concat(ui::addr_opt(startup.loaded_module_list).as_str()),
        None => bright_black("target:").concat(" kernel reloaded: previous base ").concat(
            ui::addr(report.previous_base_address.0).as_str(),
        ),
    };
    let error = match &report.symbol_error {
        Some(err) => Some(Trouble::ModuleSymbolsAfterReload.report(err.as_str())),
        None => None,
    };
    ReloadWords { line, symbols: report.symbol_report, error }
}

/// What a stop revealed about a reboot of the target.
#[derive(Clone, Copy, Debug, PartialEq, Eq, Structural)]
pub enum TargetReloadStatus {
    Unchanged,
    Reloaded { loaded_module_list_available: bool },
    PendingRediscovery { kernel_base_hint: Option<VirtAddr> },
}

impl TargetReloadStatus {
    pub fn target_reloaded(self) -> (r: bool)
        ensures
            r == (self is Reloaded),
    {
        matches!(self, Self::Reloaded { .. })
    }

    pub fn pending_rediscovery(self) -> (r: bool)
        ensures
            r == (self is PendingRediscovery),
    {
        matches!(self, Self::PendingRediscovery { .. })
    }

    /// Whether a reload found the list of loaded modules.
    pub open spec fn lists_modules(self) -> bool {
        self matches TargetReloadStatus::Reloaded { loaded_module_list_available }
            && loaded_module_list_available
    }

    pub fn loaded_module_list_available(self) -> (r: bool)
        ensures
            r == self.lists_modules(),
    {
        match self {
            Self::Reloaded { loaded_module_list_available } => loaded_module_list_available,
            Self::Unchanged | Self::PendingRediscovery { .. } => false,
        }
    }

    /// Where the kernel seems to be while it is not discovered.
    pub open spec fn hint(self) -> Option<VirtAddr> {
        match self {
            TargetReloadStatus::PendingRediscovery { kernel_base_hint } => kernel_base_hint,
            _ => None,
        }
    }

    pub fn kernel_base_hint(self) -> (r: Option<VirtAddr>)
        ensures
            r == self.hint(),
    {
        match self {
            Self::PendingRediscovery { kernel_base_hint } => kernel_base_hint,
            _ => None,
        }
    }
}

/// Whether the module list is still owed after a stop.
pub open spec fn pending_after(pending: bool, status: TargetReloadStatus) -> bool {
    match status {
        TargetReloadStatus::Reloaded { loaded_module_list_available } =>
            !loaded_module_list_available,
        TargetReloadStatus::PendingRediscovery { .. } => true,
        TargetReloadStatus::Unchanged => pending,
    }
}

pub fn update_reload_module_list_pending(pending: &mut bool, reload_status: TargetReloadStatus)
    ensures
        *final(pending) == pending_after(*old(pending), reload_status),
{
    match reload_status {
        TargetReloadStatus::Reloaded { loaded_module_list_available } => {
            *pending = !loaded_module_list_available;
        },
        TargetReloadStatus::PendingRediscovery { .. } => {
            *pending = true;
        },
        TargetReloadStatus::Unchanged => {},
    }
}

/// What is done once the owed module list is there.
pub open spec fn module_list_effects(address: u64) -> Seq<Effect> {
    Seq::empty()
        .push(Effect::Say(Notice::ModuleList(address)))
        .push(Effect::RefreshModuleSymbols)
        .push(Effect::RefreshSymbolContext)
        .push(Effect::RefreshProcesses(Trouble::ProcessCacheAfterModuleList))
        .push(Effect::ForgetThreads)
        .push(Effect::RefreshDrivers)
        .push(Effect::RefreshVcpus)
        .push(Effect::RefreshExpressions)
        .push(Effect::NoteRediscoveryComplete)
}

/// Whether an owed module list is there: `startup` is its address as the target
/// gives it, nothing where that could not be read.
pub open spec fn completes(pending: bool, startup: Option<VirtAddr>) -> bool {
    pending && (startup matches Some(address) && address.0 != 0)
}

/// Completes a reload whose module list was not there yet. Returns whether it
/// did, and adds what is to be done to `effects`.
pub fn try_complete_pending_module_list_reload(
    startup: Option<VirtAddr>,
    pending: &mut bool,
    effects: &mut Vec<Effect>,
) -> (r: bool)
    ensures
        r == completes(*old(pending), startup),
        r ==> !*final(pending) && final(effects)@ == old(effects)@ + module_list_effects(
            (startup->0).0,
        ),
        !r ==> *final(pending) == *old(pending) && final(effects)@ == old(effects)@,
{
    if !*pending {
        return false;
    }
    let list = match startup {
        Some(list) => list,
        None => return false,
    };
    if list.is_zero() {
        return false;
    }
    let address: u64 = list.0;
    let ghost before = effects@;
    effects.push(Effect::Say(Notice::ModuleList(address)));
    effects.push(Effect::RefreshModuleSymbols);
    effects.push(Effect::RefreshSymbolContext);
    effects.push(Effect::RefreshProcesses(Trouble::ProcessCacheAfterModuleList));
    effects.push(Effect::ForgetThreads);
    effects.push(Effect::RefreshDrivers);
    effects.push(Effect::RefreshVcpus);
    effects.push(Effect::RefreshExpressions);
    effects.push(Effect::NoteRediscoveryComplete);
    assert(effects@ =~= before + module_list_effects(address));
    *pending = false;
    true
}

/// How reloading the target ended.
#[derive(Debug)]
pub enum ReloadOutcome {
    /// The new kernel was found, and its module list perhaps.
    Found { loaded_module_list_available: bool },
    /// The kernel is not there yet.
    NotFound,
    /// Rediscovery failed for another reason.
    Failed(String),
}

/// Whether a reload may end like this, given whether the module list of the
/// kernel that was found is there, or why none was found: only one error says
/// that the kernel is not there yet. `words` puts the others into words.
pub open spec fn may_end_reload<W: FnOnce(&Error) -> String>(
    report: Result<bool, Error>,
    words: W,
    outcome: ReloadOutcome,
) -> bool {
    match report {
        Ok(loaded_module_list_available) => outcome == (ReloadOutcome::Found {
            loaded_module_list_available,
        }),
        Err(Error::NtoskrnlNotFound) => outcome == ReloadOutcome::NotFound,
        Err(e) => outcome matches ReloadOutcome::Failed(reason) && call_ensures(
            words,
            (&e,),
            reason,
        ),
    }
}

/// How a reload ended, given whether the module list of the kernel that was found
/// is there, or why none was found; `words` puts an error into words.
pub fn reload_outcome<W: FnOnce(&Error) -> String>(report: Result<bool, Error>, words: W) -> (r:
    ReloadOutcome)
    requires
        forall|e: &Error| call_requires(words, (e,)),
    ensures
        may_end_reload(report, words, r),
{
    match report {
        Ok(loaded_module_list_available) => ReloadOutcome::Found { loaded_module_list_available },
        Err(Error::NtoskrnlNotFound) => ReloadOutcome::NotFound,
        Err(e) => ReloadOutcome::Failed(words(&e)),
    }
}

/// The effects so far, and word of the breakpoints that were dropped.
pub open spec fn with_dropped(effects: Seq<Effect>, dropped: usize) -> Seq<Effect> {
    if dropped > 0 {
        effects.push(Effect::Say(Notice::Dropped(dropped)))
    } else {
        effects
    }
}

/// What is done after reloading the target.
pub open spec fn reload_effects(outcome: ReloadOutcome, dropped: usize) -> Seq<Effect> {
    let forgotten = Seq::<Effect>::empty().push(Effect::ForgetBreakpoints);
    match outcome {
        ReloadOutcome::Found { .. } => with_dropped(
            forgotten
                .push(Effect::ShowReloadReport)
                .push(Effect::RefreshSymbolContext)
                .push(Effect::ResetVcpus)
                .push(Effect::ResetProcesses(Trouble::ProcessCacheAfterReload))
                .push(Effect::ForgetThreads)
                .push(Effect::ResetDrivers)
                .push(Effect::RefreshExpressions),
            dropped,
        ),
        ReloadOutcome::NotFound => with_dropped(
            forgotten
                .push(Effect::Say(Notice::Undiscoverable))
                .push(Effect::ForgetProcesses)
                .push(Effect::ResetVcpus)
                .push(Effect::ForgetDrivers)
                .push(Effect::RefreshExpressions),
            dropped,
        ),
        ReloadOutcome::Failed(reason) => with_dropped(
            forgotten
                .push(Effect::Report(Trouble::Rediscovery, reason))
                .push(Effect::ForgetProcesses)
                .push(Effect::ResetVcpus)
                .push(Effect::ForgetDrivers)
                .push(Effect::RefreshExpressions),
            dropped,
        ),
    }
}

/// What reloading the target makes of its status.
pub open spec fn reload_status(
    outcome: ReloadOutcome,
    hint: Option<VirtAddr>,
) -> TargetReloadStatus {
    match outcome {
        ReloadOutcome::Found { loaded_module_list_available } => TargetReloadStatus::Reloaded {
            loaded_module_list_available,
        },
        _ => TargetReloadStatus::PendingRediscovery { kernel_base_hint: hint },
    }
}

/// Judges whether `event` reflects a guest reboot and, if so, rebuilds debugger
/// state for the new kernel image, marking `event.target_reloaded`. `required`
/// says whether it does; `reload` performs the reload, which drops all
/// breakpoints, of which there were `dropped`, says how that went as
/// [`reload_outcome`] takes it, and gives a hint where the kernel may be;
/// `words` puts an error into words. Returns the status and what is to be done.
pub fn apply_target_reload_if_needed<
    F: FnOnce() -> (Result<bool, Error>, Option<VirtAddr>),
    W: FnOnce(&Error) -> String,
>(required: bool, event: &mut StopEvent, dropped: usize, reload: F, words: W) -> (r: (
    TargetReloadStatus,
    Vec<Effect>,
))
    requires
        required ==> call_requires(reload, ()),
        forall|e: &Error| call_requires(words, (e,)),
    ensures
        !required ==> {
            &&& *final(event) == *old(event)
            &&& r.0 == TargetReloadStatus::Unchanged
            &&& r.1@ == Seq::<Effect>::empty()
        },
        required ==> {
            &&& *final(event) == (StopEvent { target_reloaded: true, ..*old(event) })
            &&& exists|
                report: Result<bool, Error>,
                hint: Option<VirtAddr>,
                outcome: ReloadOutcome,
            |
                {
                    &&& #[trigger] call_ensures(reload, (), (report, hint))
                    &&& #[trigger] may_end_reload(report, words, outcome)
                    &&& r.0 == reload_status(outcome, hint)
                    &&& r.1@ == reload_effects(outcome, dropped)
                }
        },
{
    let mut effects: Vec<Effect> = Vec::new();
    if !required {
        return (TargetReloadStatus::Unchanged, effects);
    }
    event.target_reloaded = true;
    // The reload action (drop breakpoints, resolve the hint, reload the guest,
    // note rediscovery status) is shared by all surfaces; this one layers its
    // cache refresh + output on top.
    let (report, hint) = reload();
    let ghost reported = report;
    let outcome = reload_outcome(report, words);
    let ghost ended = outcome;
    assert(may_end_reload(reported, words, ended));
    effects.push(Effect::ForgetBreakpoints);
    let status = match outcome {
        ReloadOutcome::Found { loaded_module_list_available } => {
            effects.push(Effect::ShowReloadReport);
            effects.push(Effect::RefreshSymbolContext);
            effects.push(Effect::ResetVcpus);
            effects.push(Effect::ResetProcesses(Trouble::ProcessCacheAfterReload));
            effects.push(Effect::ForgetThreads);
            effects.push(Effect::ResetDrivers);
            effects.push(Effect::RefreshExpressions);
            TargetReloadStatus::Reloaded { loaded_module_list_available }
        },
        ReloadOutcome::NotFound => {
            effects.push(Effect::Say(Notice::Undiscoverable));
            effects.push(Effect::ForgetProcesses);
            effects.push(Effect::ResetVcpus);
            effects.push(Effect::ForgetDrivers);
            effects.push(Effect::RefreshExpressions);
            TargetReloadStatus::PendingRediscovery { kernel_base_hint: hint }
        },
        ReloadOutcome::Failed(reason) => {
            // Rediscovery state was already noted as pending by the reload;
            // here only the reason is surfaced.
            effects.push(Effect::Report(Trouble::Rediscovery, reason));
            effects.push(Effect::ForgetProcesses);
            effects.push(Effect::ResetVcpus);
            effects.push(Effect::ForgetDrivers);
            effects.push(Effect::RefreshExpressions);
            TargetReloadStatus::PendingRediscovery { kernel_base_hint: hint }
        },
    };
    if dropped > 0 {
        effects.push(Effect::Say(Notice::Dropped(dropped)));
    }
    assert(call_ensures(reload, (), (reported, hint)));
    (status, effects)
}

/// The exception code of an int3.
pub const STATUS_BREAKPOINT: u32 = 0x8000_0003;

/// A Windows thread.
#[derive(Debug)]
pub struct ThreadInfo {
    pub process_name: Option<String>,
    /// The name of the thread's state, where it is known.
    pub state: Option<String>,
    pub ethread: VirtAddr,
    pub pid: Option<u64>,
    pub tid: Option<u64>,
}

/// Whether looking up the Windows thread of a backend thread may give `r`.
pub open spec fn may_find_thread<F: FnOnce(u16) -> Option<ThreadInfo>>(
    thread_id: Seq<char>,
    lookup: F,
    r: Option<ThreadInfo>,
) -> bool {
    match processor_index(thread_id) {
        Some(processor) => call_ensures(lookup, (processor as u16,), r),
        None => r is None,
    }
}

fn copy_text(s: &Option<String>) -> (r: Option<String>)
    ensures
        r == *s,
{
    match s {
        Some(s) => Some(s.clone()),
        None => None,
    }
}

/// Makes the Windows thread that runs on the processor of a backend thread the
/// current one, and returns it; where there is none, no thread is current.
/// `lookup` finds the thread of a processor.
pub fn refresh_windows_thread_context_for_backend_thread<F: FnOnce(u16) -> Option<ThreadInfo>>(
    current: &mut Option<ThreadInfo>,
    thread_id: &str,
    lookup: F,
) -> (r: Option<ThreadInfo>)
    requires
        forall|processor: u16| call_requires(lookup, (processor,)),
    ensures
        may_find_thread(thread_id@, lookup, r),
        *final(current) == r,
{
    let thread = match processor_index_from_backend_thread_id(thread_id) {
        Some(processor) => lookup(processor),
        None => None,
    };
    *current = match &thread {
        Some(thread) => Some(
            ThreadInfo {
                process_name: copy_text(&thread.process_name),
                state: copy_text(&thread.state),
                ethread: thread.ethread,
                pid: thread.pid,
                tid: thread.tid,
            },
        ),
        None => None,
    };
    thread
}

/// A labelled value, where it is there.
pub open spec fn with_value(
    line: Seq<char>,
    label: Seq<char>,
    value: Option<Seq<char>>,
) -> Seq<char> {
    match value {
        Some(v) => line + "  "@ + spec_muted(label) + " "@ + v,
        None => line,
    }
}

/// The decimal digits of an optional number.
pub open spec fn dec_opt(n: Option<u64>) -> Option<Seq<char>> {
    match n {
        Some(n) => Some(dec(n as nat)),
        None => None,
    }
}

/// How a Windows thread is shown.
pub open spec fn thread_line(thread: ThreadInfo) -> Seq<char> {
    let process = match thread.process_name {
        Some(name) => name@,
        None => "unknown"@,
    };
    let line = spec_muted("thread"@) + " "@ + process;
    let line = with_value(line, "state"@, text_opt(thread.state));
    let line = line + "  "@ + spec_muted("ethread"@) + " "@ + spec_addr(thread.ethread.0);
    let line = with_value(line, "pid"@, dec_opt(thread.pid));
    with_value(line, "tid"@, dec_opt(thread.tid))
}

fn append_value(line: String, label: &str, value: &str) -> (r: String)
    ensures
        r@ == line@ + "  "@ + spec_muted(label@) + " "@ + value@,
{
    line.concat("  ").concat(ui::muted(label).as_str()).concat(" ").concat(value)
}

/// One-line summary: `thread Idle  state Running  ethread <addr>  pid 0  tid 0`.
/// The leading `thread` label distinguishes it from the break line above,
/// which names the process context (via CR3), not the thread's owner.
pub fn format_windows_thread(thread: &ThreadInfo) -> (r: String)
    ensures
        r@ == thread_line(*thread),
{
    let process = match &thread.process_name {
        Some(name) => name.as_str(),
        None => "unknown",
    };
    let mut line = ui::muted("thread").concat(" ").concat(process);
    match &thread.state {
        Some(state) => {
            line = append_value(line, "state", state.as_str());
        },
        None => {},
    }
    line = append_value(line, "ethread", ui::addr(thread.ethread.0).as_str());
    match thread.pid {
        Some(pid) => {
            line = append_value(line, "pid", decimal(pid).as_str());
        },
        None => {},
    }
    match thread.tid {
        Some(tid) => {
            line = append_value(line, "tid", decimal(tid).as_str());
        },
        None => {},
    }
    line
}

/// How the exception of a stop is shown.
pub open spec fn exception_cause(code: Option<u32>, pc: Option<u64>) -> Option<Seq<char>> {
    match code {
        None => None,
        Some(code) => Some(
            match pc {
                Some(pc) => spec_muted("exception"@) + " "@ + hex_prefixed(code as nat) + " at "@
                    + spec_addr(pc),
                None => spec_muted("exception"@) + " "@ + hex_prefixed(code as nat),
            },
        ),
    }
}

/// The exception cause child for a BREAK banner, e.g. `exception 0x80000003
/// at fffff807c0c5a0d0`. `None` when the stop carried no exception code.
pub fn stop_exception_cause(exception_code: Option<u32>, program_counter: Option<u64>) -> (r: Option<
    String,
>)
    ensures
        text_opt(r) == exception_cause(exception_code, program_counter),
{
    let code: u32 = match exception_code {
        Some(code) => code,
        None => return None,
    };
    let head = ui::muted("exception").concat(" ").concat(
        hexadecimal_prefixed(code as u64).as_str(),
    );
    Some(
        match program_counter {
            Some(pc) => head.concat(" at ").concat(ui::addr(pc).as_str()),
            None => head,
        },
    )
}

/// What a stop reveals about the kernel module set: how loading the symbols of
/// new modules went (any backend), and whether the backend saw a load event
/// (KD).
#[derive(Debug, Clone, Copy, PartialEq, Eq, Structural)]
pub struct ModuleNews {
    pub report: Option<ModuleSymbolReport>,
    pub event_changed: bool,
}

impl ModuleNews {
    /// Whether the kernel module set changed.
    pub open spec fn changed(self) -> bool {
        loads_symbols(self.report) || self.event_changed
    }
}

/// Refresh the caches the stop output depends on (vcpus, kernel module symbols),
/// done before any stop notice prints so it reflects the current kernel image:
/// processors were listed before the module set was looked at, so what is left
/// is to show its symbols. Returns whether the kernel module set changed (a
/// driver/module loaded or unloaded), so the caller can refresh module-dependent
/// caches. Both signals count.
pub fn refresh_stop_caches_pre(news: ModuleNews, effects: &mut Vec<Effect>) -> (r: bool)
    ensures
        r == news.changed(),
        final(effects)@ == symbol_effects(old(effects)@, news.report),
{
    let symbols_changed = refresh_kernel_module_symbols_on_stop(news.report, effects);
    symbols_changed || news.event_changed
}

/// The caches to refresh after a stop.
pub open spec fn post_effects(
    effects: Seq<Effect>,
    target_reloaded: bool,
    modules_changed: bool,
) -> Seq<Effect> {
    let effects = if target_reloaded {
        effects
    } else {
        effects.push(Effect::RefreshProcesses(Trouble::ProcessCache))
    };
    let effects = if modules_changed {
        effects.push(Effect::RefreshDrivers)
    } else {
        effects
    };
    effects.push(Effect::RefreshExpressions)
}

/// Refresh the guest-state completion caches after a stop. Both the async and
/// synchronous stop paths call this, so the set can't drift. Drivers are a
/// near-static but expensive cache, so they re-enumerate only when the module set
/// actually changed (`modules_changed`) rather than on every stop.
pub fn refresh_stop_caches_post(
    effects: &mut Vec<Effect>,
    target_reloaded: bool,
    modules_changed: bool,
)
    ensures
        final(effects)@ == post_effects(old(effects)@, target_reloaded, modules_changed),
{
    // on reload the rediscovery path already refreshed processes
    if !target_reloaded {
        effects.push(Effect::RefreshProcesses(Trouble::ProcessCache));
    }
    if modules_changed {
        effects.push(Effect::RefreshDrivers);
    }
    effects.push(Effect::RefreshExpressions);
}

/// A classified stop: the raw event plus the target-reload status derived from
/// it. The two are produced together (`apply_target_reload_if_needed` sets the
/// status while mutating the event) and consumed together by the async printer,
/// so they travel as one.
#[derive(Debug, Clone, Copy, PartialEq, Eq, Structural)]
pub struct StopOutcome {
    pub event: StopEvent,
    pub reload_status: TargetReloadStatus,
}

impl StopOutcome {
    /// Whether the stop announces the symbols of a reloaded kernel.
    pub open spec fn announces_symbols(self) -> bool {
        &&& self.reload_status is Reloaded
        &&& self.event.exception_code is None
        &&& self.event.target_kernel_base_hint is Some
    }

    /// Whether the stop is a bugcheck of the kernel that was known before it.
    pub open spec fn bugchecks(self) -> bool {
        self.event.is_bugcheck && !(self.reload_status is Reloaded)
    }
}

pub fn is_target_reload_load_symbols_stop(event: &StopEvent, reload_status: TargetReloadStatus) -> (r:
    bool)
    ensures
        r == (StopOutcome { event: *event, reload_status }).announces_symbols(),
{
    reload_status.target_reloaded() && event.exception_code.is_none()
        && event.target_kernel_base_hint.is_some()
}

/// What showing a stop begins with, before the module set is looked at.
pub open spec fn stop_head(effects: Seq<Effect>) -> Seq<Effect> {
    effects.push(Effect::Blank).push(Effect::SelectStoppedThread).push(Effect::RefreshVcpus)
}

/// What showing a stop ends with, once the module set was looked at.
pub open spec fn stop_tail(outcome: StopOutcome, news: ModuleNews) -> Seq<Effect> {
    let effects = symbol_effects(Seq::empty(), news.report);
    let effects = if outcome.bugchecks() {
        effects.push(Effect::ShowBugcheck(outcome.event.bugcheck)).push(Effect::Blank)
    } else {
        effects
    };
    let effects = post_effects(effects, outcome.reload_status is Reloaded, news.changed());
    if outcome.announces_symbols() {
        effects.push(Effect::ShowReloadNotification)
    } else if outcome.bugchecks() {
        effects.push(Effect::ShowBreakForBugcheck(outcome.event.bugcheck))
    } else if outcome.reload_status is Reloaded {
        effects.push(Effect::ShowBreakWithCause { code: None, pc: None })
    } else {
        effects.push(
            Effect::ShowBreakWithCause {
                code: outcome.event.exception_code,
                pc: outcome.event.program_counter,
            },
        )
    }
}

/// Shows a stop that was not waited for, once the module set was looked at. The
/// effects before that are a blank line, making the stopped thread the current
/// one, and listing the processors.
pub fn print_async_stop_context(outcome: StopOutcome, news: ModuleNews) -> (r: Vec<Effect>)
    ensures
        r@ == stop_tail(outcome, news),
{
    let StopOutcome { event, reload_status } = outcome;
    let target_reloaded = reload_status.target_reloaded();
    let reload_load_symbols_stop = is_target_reload_load_symbols_stop(&event, reload_status);
    let mut effects: Vec<Effect> = Vec::new();
    let modules_changed = refresh_stop_caches_pre(news, &mut effects);
    // The trailing blank pairs with the seam the bugcheck pane owns; other
    // stops carry their exception as a cause child on the BREAK banner.
    let is_bugcheck = event.is_bugcheck && !target_reloaded;
    if is_bugcheck {
        effects.push(Effect::ShowBugcheck(event.bugcheck));
        effects.push(Effect::Blank);
    }
    refresh_stop_caches_post(&mut effects, target_reloaded, modules_changed);
    if reload_load_symbols_stop {
        effects.push(Effect::ShowReloadNotification);
    } else if is_bugcheck {
        effects.push(Effect::ShowBreakForBugcheck(event.bugcheck));
    } else if target_reloaded {
        effects.push(Effect::ShowBreakWithCause { code: None, pc: None });
    } else {
        effects.push(
            Effect::ShowBreakWithCause { code: event.exception_code, pc: event.program_counter },
        );
    }
    effects
}

/// Whether a stop that the debugger brought about only to look at the target
/// lets the target run again: not where the target was reloaded.
pub fn should_resume_assisted_refresh_stop(
    assisted: bool,
    reload_status: TargetReloadStatus,
) -> (r: bool)
    ensures
        r == (reload_status == TargetReloadStatus::Unchanged && assisted),
{
    matches!(reload_status, TargetReloadStatus::Unchanged) && assisted
}

/// Lets the target run after such a stop.
pub fn resume_assisted_refresh_stop<C: DebugBackend>(client: &mut C) -> (r: Result<(), Error>)
    ensures
        old(client).may(BackendCall::Continue, r, final(client)),
{
    client.continue_execution()
}

} // verus!
