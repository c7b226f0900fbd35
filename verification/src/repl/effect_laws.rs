//! What troubles and notices are put into words as.
use crate::repl::effects::{breakpoint_hit_line, Notice, Trouble};
use crate::text::dec;
use crate::ui::{spec_addr, spec_bp_id, spec_bright_black, spec_label, spec_symbol};
use vstd::prelude::*;
use vstd::string::*;

verus! {

/// Trouble is reported in its own words, and the reason follows.
pub proof fn law_trouble_is_reported(trouble: Trouble, reason: &str, r: String)
    requires
        call_ensures(Trouble::report, (trouble, reason), r),
    ensures
        r@ == (match trouble {
        Trouble::Plain => ""@,
        Trouble::ProcessCache => "failed to refresh process cache: "@,
        Trouble::ProcessCacheAfterReload => "failed to refresh process cache after reload: "@,
        Trouble::ProcessCacheAfterModuleList =>
            "failed to refresh process cache after module-list recovery: "@,
        Trouble::ModuleSymbolsAfterReload =>
            "failed to refresh kernel module symbols after reload: "@,
        Trouble::Rediscovery => "target reloaded, but guest rediscovery failed: "@,
        Trouble::CheckingRunning => "error checking running VM: "@,
        Trouble::Interrupting => "failed to interrupt: "@,
        Trouble::Continuing => "failed to continue: "@,
        Trouble::Waiting => "error waiting for stop: "@,
        Trouble::AssistedResume => "failed to resume after assisted refresh break: "@,
        Trouble::Watchpoint => "failed to handle watchpoint hit: "@,
        Trouble::WatchCondition => "watchpoint condition failed: "@,
        Trouble::StrayResume => "failed to resume after stray single-step: "@,
        Trouble::ReadingRegisters => "failed to read registers: "@,
        Trouble::BreakpointStop => "failed to handle breakpoint stop: "@,
        Trouble::BreakCondition => "breakpoint condition failed: "@,
        Trouble::Stepping => "failed to step: "@,
        Trouble::Decoding => "failed to decode current instruction: "@,
        Trouble::TemporaryBreakpoint(address) => "failed to set temporary breakpoint at "@
            + spec_addr(address) + ": "@,
        }) + reason@,
{
}

/// A notice says what it is about.
pub proof fn law_notices(notice: Notice, r: String)
    requires
        call_ensures(Notice::line, (notice,), r),
    ensures
        r@ == (match notice {
            Notice::Waiting => spec_bright_black(
                "VM running, waiting for stop (Ctrl+C to pause)..."@,
            ),
            Notice::AlreadyRunning => "VM is running"@,
            Notice::ModuleList(address) => spec_bright_black("target:"@)
                + " module list available: "@ + spec_addr(address),
            Notice::Undiscoverable => spec_bright_black("target:"@)
                + " reboot observed; Windows kernel is not discoverable yet"@,
            Notice::Dropped(count) => spec_bright_black("target:"@) + " dropped "@ + dec(
                count as nat,
            ) + " stale breakpoint(s)"@,
        }),
{
}

/// A hit names its breakpoint by its number, and by its symbol where it has one.
pub proof fn law_hits_are_named(id: u32, symbol: Option<String>, r: String)
    requires
        call_ensures(breakpoint_hit_line, (id, &symbol), r),
    ensures
        r@ == spec_label("breakpoint:"@) + " "@ + spec_bp_id(id) + " "@ + (match symbol {
            Some(symbol) => "("@ + spec_symbol(symbol@) + ")"@,
            None => ""@,
        }),
{
}

} // verus!
