//! What the interactive surface does to the world: the effects that its
//! decisions ask for, and the words that go with them.
use crate::bugchecks::BugcheckInfo;
use crate::repl::stop::ModuleSymbolReport;
use crate::text::{dec, decimal, text};
use crate::ui;
use crate::ui::{
    bright_black, spec_addr, spec_bp_id, spec_bright_black, spec_label, spec_symbol,
};
use vstd::prelude::*;
use vstd::string::*;

verus! {

/// Something that went wrong, to be reported with the reason that came with it.
#[derive(Debug, Clone, Copy, PartialEq, Eq, Structural)]
pub enum Trouble {
    /// The reason says it all.
    Plain,
    ProcessCache,
    ProcessCacheAfterReload,
    ProcessCacheAfterModuleList,
    ModuleSymbolsAfterReload,
    Rediscovery,
    CheckingRunning,
    Interrupting,
    Continuing,
    Waiting,
    AssistedResume,
    Watchpoint,
    WatchCondition,
    StrayResume,
    ReadingRegisters,
    BreakpointStop,
    BreakCondition,
    Stepping,
    Decoding,
    TemporaryBreakpoint(u64),
}

impl Trouble {
    /// The words before the reason.
    pub open spec fn spec_words(self) -> Seq<char> {
        match self {
            Trouble::Plain => ""@,
            Trouble::ProcessCache => "failed to refresh process cache: "@,
            Trouble::ProcessCacheAfterReload => "failed to refresh process cache after reload: "@,
            Trouble::ProcessCacheAfterModuleList =>
                "failed to refresh process cache after module-list recovery: "@,
            Trouble::ModuleSymbolsAfterReload =>
                "failed to refresh kernel module symbols after reload: "@,
            Trouble::Rediscovery => "target reloaded, but guest rediscovery failed: "@,
            Trouble::CheckingRunning => "error checking running VM: "@,
            Trouble::Interrupting => "failed to interrupt: "@,
            Trouble::Continuing => "failed to continue: "@,
            Trouble::Waiting => "error waiting for stop: "@,
            Trouble::AssistedResume => "failed to resume after assisted refresh break: "@,
            Trouble::Watchpoint => "failed to handle watchpoint hit: "@,
            Trouble::WatchCondition => "watchpoint condition failed: "@,
            Trouble::StrayResume => "failed to resume after stray single-step: "@,
            Trouble::ReadingRegisters => "failed to read registers: "@,
            Trouble::BreakpointStop => "failed to handle breakpoint stop: "@,
            Trouble::BreakCondition => "breakpoint condition failed: "@,
            Trouble::Stepping => "failed to step: "@,
            Trouble::Decoding => "failed to decode current instruction: "@,
            Trouble::TemporaryBreakpoint(address) => "failed to set temporary breakpoint at "@
                + spec_addr(address) + ": "@,
        }
    }

    /// The report of this trouble for a reason.
    pub fn report(self, reason: &str) -> (r: String)
        ensures
            r@ == self.spec_words() + reason@,
    {
        let words = match self {
            Trouble::Plain => text(""),
            Trouble::ProcessCache => text("failed to refresh process cache: "),
            Trouble::ProcessCacheAfterReload => text(
                "failed to refresh process cache after reload: ",
            ),
            Trouble::ProcessCacheAfterModuleList => text(
                "failed to refresh process cache after module-list recovery: ",
            ),
            Trouble::ModuleSymbolsAfterReload => text(
                "failed to refresh kernel module symbols after reload: ",
            ),
            Trouble::Rediscovery => text("target reloaded, but guest rediscovery failed: "),
            Trouble::CheckingRunning => text("error checking running VM: "),
            Trouble::Interrupting => text("failed to interrupt: "),
            Trouble::Continuing => text("failed to continue: "),
            Trouble::Waiting => text("error waiting for stop: "),
            Trouble::AssistedResume => text("failed to resume after assisted refresh break: "),
            Trouble::Watchpoint => text("failed to handle watchpoint hit: "),
            Trouble::WatchCondition => text("watchpoint condition failed: "),
            Trouble::StrayResume => text("failed to resume after stray single-step: "),
            Trouble::ReadingRegisters => text("failed to read registers: "),
            Trouble::BreakpointStop => text("failed to handle breakpoint stop: "),
            Trouble::BreakCondition => text("breakpoint condition failed: "),
            Trouble::Stepping => text("failed to step: "),
            Trouble::Decoding => text("failed to decode current instruction: "),
            Trouble::TemporaryBreakpoint(address) => text(
                "failed to set temporary breakpoint at ",
            ).concat(ui::addr(address).as_str()).concat(": "),
        };
        words.concat(reason)
    }
}

/// Something to do, in order, without an answer.
#[derive(Debug)]
pub enum Effect {
    /// Print an empty line.
    Blank,
    /// Print what [`Notice::line`] says.
    Say(Notice),
    /// Report what [`Notice::line`] says as an error.
    Complain(Notice),
    /// Print the name of the breakpoint that was hit.
    SayBreakpoint { id: u32, symbol: Option<String> },
    /// Report trouble.
    Report(Trouble, String),
    /// Drop the completion entries of these things.
    ForgetBreakpoints,
    ForgetProcesses,
    ForgetThreads,
    ForgetDrivers,
    /// Bring the completion entries of these things up to date, and keep the
    /// old ones where that fails.
    RefreshVcpus,
    RefreshDrivers,
    RefreshExpressions,
    RefreshSymbolContext,
    /// Bring the entries of these things up to date, and drop them where that
    /// fails.
    ResetVcpus,
    ResetDrivers,
    /// Bring the processes up to date; where that fails, keep the old entries
    /// and report it.
    RefreshProcesses(Trouble),
    /// Bring the processes up to date; where that fails, drop the entries and
    /// report it.
    ResetProcesses(Trouble),
    /// Load symbols of modules that appeared, and do what
    /// [`refresh_kernel_module_symbols_on_stop`] says about them.
    RefreshModuleSymbols,
    /// Show how loading the symbols of new modules went.
    ShowModuleSymbols(ModuleSymbolReport),
    /// Take up the Windows thread of the current execution context.
    RefreshWindowsThread,
    /// Drop a request for an interrupt that was made before.
    DropInterrupt,
    /// Tell the backend that the rebooted kernel is known.
    NoteRediscoveryComplete,
    /// Make the thread that stopped the current one.
    SelectStoppedThread,
    /// Clear the trap flag of the current thread.
    ClearTrapFlag,
    /// Move threads that stand behind an int3 of ours back onto it.
    RewindThreads,
    /// Take up the page table of the stopped context.
    UseContext(u64),
    /// Show what the report of a reload says.
    ShowReloadReport,
    /// Show that the kernel cannot be discovered yet.
    ShowPendingRediscovery,
    /// Show that the kernel was reloaded.
    ShowReloadNotification,
    /// Show the bugcheck, given what the transport reported of it.
    ShowBugcheck(Option<BugcheckInfo>),
    /// Show where the target stopped.
    ShowBreak,
    /// Show where the target stopped, and the exception as its cause.
    ShowBreakWithCause { code: Option<u32>, pc: Option<u64> },
    /// Show where the target stopped, from the point of view of the bugcheck,
    /// given what the transport reported of it.
    ShowBreakForBugcheck(Option<BugcheckInfo>),
    /// Show the exception of a stop.
    ShowStopNotice { code: Option<u32>, pc: Option<u64> },
    /// Show the hardware breakpoint that was hit, and where the target stopped.
    ShowHardwareHit(u32),
}

/// A line about the target.
#[derive(Debug, Clone, Copy, PartialEq, Eq, Structural)]
pub enum Notice {
    Waiting,
    AlreadyRunning,
    ModuleList(u64),
    Undiscoverable,
    Dropped(usize),
}

impl Notice {
    /// The words of the notice.
    pub open spec fn spec_line(self) -> Seq<char> {
        match self {
            Notice::Waiting => spec_bright_black(
                "VM running, waiting for stop (Ctrl+C to pause)..."@,
            ),
            Notice::AlreadyRunning => "VM is running"@,
            Notice::ModuleList(address) => spec_bright_black("target:"@)
                + " module list available: "@ + spec_addr(address),
            Notice::Undiscoverable => spec_bright_black("target:"@)
                + " reboot observed; Windows kernel is not discoverable yet"@,
            Notice::Dropped(count) => spec_bright_black("target:"@) + " dropped "@ + dec(
                count as nat,
            ) + " stale breakpoint(s)"@,
        }
    }

    /// The words of the notice.
    pub fn line(self) -> (r: String)
        ensures
            r@ == self.spec_line(),
    {
        match self {
            Notice::Waiting => bright_black("VM running, waiting for stop (Ctrl+C to pause)..."),
            Notice::AlreadyRunning => text("VM is running"),
            Notice::ModuleList(address) => bright_black("target:").concat(
                " module list available: ",
            ).concat(ui::addr(address).as_str()),
            Notice::Undiscoverable => bright_black("target:").concat(
                " reboot observed; Windows kernel is not discoverable yet",
            ),
            Notice::Dropped(count) => bright_black("target:").concat(" dropped ").concat(
                decimal(count as u64).as_str(),
            ).concat(" stale breakpoint(s)"),
        }
    }
}

/// A symbol in parentheses, where there is one.
pub open spec fn parenthesised(symbol: Option<Seq<char>>) -> Seq<char> {
    match symbol {
        Some(s) => "("@ + spec_symbol(s) + ")"@,
        None => ""@,
    }
}

/// A symbol in parentheses, where there is one.
pub fn in_parentheses(symbol: &Option<String>) -> (r: String)
    ensures
        r@ == parenthesised(crate::text::text_opt(*symbol)),
{
    match symbol {
        Some(s) => text("(").concat(ui::symbol(s.as_str()).as_str()).concat(")"),
        None => text(""),
    }
}

/// The line that names the breakpoint that was hit.
pub fn breakpoint_hit_line(id: u32, symbol: &Option<String>) -> (r: String)
    ensures
        r@ == spec_label("breakpoint:"@) + " "@ + spec_bp_id(id) + " "@ + parenthesised(
            crate::text::text_opt(*symbol),
        ),
{
    ui::label("breakpoint:").concat(" ").concat(ui::bp_id(id).as_str()).concat(" ").concat(
        in_parentheses(symbol).as_str(),
    )
}

} // verus!
