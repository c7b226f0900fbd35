//! Showing where the target stopped.
use crate::bugchecks::BugcheckInfo;
use crate::gdb::breakpoints::BreakpointManager;
use crate::memory::MemoryOps;
use crate::repl::disasm::{
    children_lines, hidden_frames, may_list_context, print_disasm_context, print_event_children,
    print_registers, print_stacktrace, register_lines, section_lines, stack_lines, DisasmRow,
    Registers, Stacktrace,
};
use crate::repl::stop::{format_windows_thread, thread_line, TargetReloadStatus, ThreadInfo};
use crate::session::StopEvent;
use crate::target::Target;
use crate::text::{
    append_lines, hex_prefixed, hexadecimal_prefixed, no_lines, push_line, text, text_opt, texts,
};
use crate::types::{Dtb, PhysAddr, VirtAddr};
use crate::ui;
use crate::ui::{
    bold, bright_black, spec_addr, spec_badge, spec_bold, spec_bright_black, spec_muted,
    spec_plate, spec_symbol, spec_thread_id,
};
use vstd::prelude::*;
use vstd::string::*;

verus! {

/// How far from a symbol an address may lie to be shown by it.
pub const REBASE_REACH: u32 = 0x1000;

/// Where an address of the new kernel lay in the old one, given where the two
/// begin.
pub open spec fn rebased(
    old_base: VirtAddr,
    pc: u64,
    new_base: Option<VirtAddr>,
) -> Option<VirtAddr> {
    match new_base {
        None => None,
        Some(new_base) => if pc < new_base.0 || old_base.0 + (pc - new_base.0) > u64::MAX {
            None
        } else {
            Some(VirtAddr((old_base.0 + (pc - new_base.0)) as u64))
        },
    }
}

/// How a symbol with an offset is shown; nothing where it is too far away.
pub open spec fn near_symbol(found: Option<(String, String, u32)>) -> Option<Seq<char>> {
    match found {
        None => None,
        Some((module, symbol, offset)) => if offset > REBASE_REACH {
            None
        } else if offset == 0 {
            Some(module@ + "!"@ + symbol@)
        } else {
            Some(module@ + "!"@ + symbol@ + "+"@ + hex_prefixed(offset as nat))
        },
    }
}

/// Whether naming an address of a kernel that is not discovered may give
/// `name`.
pub open spec fn may_rebase<F: FnOnce(VirtAddr) -> Option<(String, String, u32)>>(
    old_base: VirtAddr,
    pc: u64,
    new_base: Option<VirtAddr>,
    closest: F,
    name: Option<Seq<char>>,
) -> bool {
    match rebased(old_base, pc, new_base) {
        None => name is None,
        Some(address) => may_be_near(address, closest, name),
    }
}

/// Whether naming an address by the closest symbol may give `name`.
pub open spec fn may_be_near<F: FnOnce(VirtAddr) -> Option<(String, String, u32)>>(
    address: VirtAddr,
    closest: F,
    name: Option<Seq<char>>,
) -> bool {
    exists|found: Option<(String, String, u32)>| #[trigger]
        call_ensures(closest, (address,), found) && name == near_symbol(found)
}

/// The symbol of an address of a rebooted kernel, as far as the symbols of the
/// old one, which began at `old_base`, can tell. `closest` finds the closest
/// symbol: module, name, offset.
pub fn rebase_kernel_symbol_for_pending_reload<
    F: FnOnce(VirtAddr) -> Option<(String, String, u32)>,
>(old_base: VirtAddr, pc: u64, kernel_base_hint: Option<VirtAddr>, closest: F) -> (r: Option<String>)
    requires
        forall|address: VirtAddr| call_requires(closest, (address,)),
    ensures
        may_rebase(old_base, pc, kernel_base_hint, closest, text_opt(r)),
{
    let new_base = match kernel_base_hint {
        Some(base) => base,
        None => return None,
    };
    if pc < new_base.0 {
        return None;
    }
    let rva: u64 = pc - new_base.0;
    let old_addr: u64 = match old_base.0.checked_add(rva) {
        Some(address) => address,
        None => return None,
    };
    let place = VirtAddr(old_addr);
    assert(rebased(old_base, pc, kernel_base_hint) == Some(place));
    let found = closest(place);
    let ghost answer = found;
    assert(may_be_near(place, closest, near_symbol(answer)));
    let (module, symbol, offset) = match found {
        Some(found) => found,
        None => return None,
    };
    if offset > REBASE_REACH {
        return None;
    }
    let name = module.concat("!").concat(symbol.as_str());
    if offset == 0 {
        Some(name)
    } else {
        Some(name.concat("+").concat(hexadecimal_prefixed(offset as u64).as_str()))
    }
}

/// The kernel base to name addresses by: what the stop says, else what the
/// registers say.
pub open spec fn preferred_hint(
    status: TargetReloadStatus,
    register_hint: Option<VirtAddr>,
) -> Option<VirtAddr> {
    match status.hint() {
        Some(base) => Some(base),
        None => register_hint,
    }
}

/// Whether the place of a stop in a kernel that is not discovered may be shown
/// as `place`.
pub open spec fn may_locate<F: FnOnce(VirtAddr) -> Option<(String, String, u32)>>(
    old_base: VirtAddr,
    event: StopEvent,
    hint: Option<VirtAddr>,
    closest: F,
    place: Seq<char>,
) -> bool {
    match event.program_counter {
        None => place == spec_bright_black("unknown"@),
        Some(pc) => exists|name: Option<Seq<char>>| #[trigger]
            may_rebase(old_base, pc, hint, closest, name) && place == (match name {
                Some(symbol) => spec_symbol(symbol),
                None => spec_addr(pc),
            }),
    }
}

/// The place of a stop in a kernel that is not discovered: its symbol as far as
/// the old kernel can tell, else its address.
pub fn pending_reload_location<F: FnOnce(VirtAddr) -> Option<(String, String, u32)>>(
    old_base: VirtAddr,
    event: &StopEvent,
    reload_status: TargetReloadStatus,
    register_kernel_base_hint: Option<VirtAddr>,
    closest: F,
) -> (r: String)
    requires
        forall|address: VirtAddr| call_requires(closest, (address,)),
    ensures
        may_locate(
            old_base,
            *event,
            preferred_hint(reload_status, register_kernel_base_hint),
            closest,
            r@,
        ),
{
    let pc: u64 = match event.program_counter {
        Some(pc) => pc,
        None => return bright_black("unknown"),
    };
    let kernel_base_hint = match reload_status.kernel_base_hint() {
        Some(base) => Some(base),
        None => register_kernel_base_hint,
    };
    let name = rebase_kernel_symbol_for_pending_reload(old_base, pc, kernel_base_hint, closest);
    assert(may_rebase(old_base, pc, kernel_base_hint, closest, text_opt(name)));
    match name {
        Some(symbol) => ui::symbol(symbol.as_str()),
        None => ui::addr(pc),
    }
}

/// Whether r9 may be taken for the kernel base of a stop at `pc`: it is one by
/// the looks of it, and `pc` lies within the window behind it.
pub open spec fn hints_base(r9: Option<u64>, kernel: bool, pc: u64, window: u64) -> Option<VirtAddr> {
    match r9 {
        None => None,
        Some(base) => if kernel && pc >= base && pc - base < window {
            Some(VirtAddr(base))
        } else {
            None
        },
    }
}

/// Whether the registers of an early stop may suggest `hint` as the kernel base.
pub open spec fn may_hint<P: FnOnce(u64) -> bool>(
    r9: Option<u64>,
    kernel_pointer: P,
    pc: u64,
    window: u64,
    hint: Option<VirtAddr>,
) -> bool {
    match r9 {
        None => hint is None,
        Some(base) => exists|kernel: bool| #[trigger]
            call_ensures(kernel_pointer, (base,), kernel) && hint == hints_base(
                r9,
                kernel,
                pc,
                window,
            ),
    }
}

/// The kernel base that the registers of an early stop suggest. `kernel_pointer`
/// says whether a value looks like a kernel pointer; `window` is how far behind
/// the base a stop in the kernel lies.
pub fn pending_reload_register_kernel_base_hint<P: FnOnce(u64) -> bool>(
    r9: Option<u64>,
    kernel_pointer: P,
    pc: u64,
    window: u64,
) -> (r: Option<VirtAddr>)
    requires
        forall|base: u64| call_requires(kernel_pointer, (base,)),
    ensures
        may_hint(r9, kernel_pointer, pc, window, r),
{
    let base: u64 = match r9 {
        Some(base) => base,
        None => return None,
    };
    let kernel = kernel_pointer(base);
    assert(call_ensures(kernel_pointer, (base,), kernel));
    if !kernel || pc < base {
        return None;
    }
    if pc - base < window {
        Some(VirtAddr(base))
    } else {
        None
    }
}

/// A BREAK banner.
pub open spec fn break_banner(thread: Seq<char>, rest: Seq<char>) -> Seq<char> {
    spec_badge("BREAK"@) + spec_plate(" "@ + spec_thread_id(thread) + rest)
}

fn banner(thread: &str, rest: &str) -> (r: String)
    ensures
        r@ == break_banner(thread@, rest@),
{
    ui::badge("BREAK").concat(
        ui::plate(text(" ").concat(ui::thread_id(thread).as_str()).concat(rest).as_str()).as_str(),
    )
}

/// The lines of a banner for a stop early in the boot, and one note below it.
pub open spec fn early_lines(thread: Seq<char>, place: Seq<char>, note: Seq<char>) -> Seq<Seq<char>> {
    (Seq::<Seq<char>>::empty().push(break_banner(thread, " early boot at "@ + place + " "@))
        + children_lines(" "@, Seq::empty().push(spec_muted(note)), 1)).push(""@)
}

fn early_stop(thread: &str, place: &str, note: &str) -> (r: Vec<String>)
    ensures
        texts(r@) == early_lines(thread@, place@, note@),
{
    let mut out = no_lines();
    push_line(
        &mut out,
        banner(thread, text(" early boot at ").concat(place).concat(" ").as_str()),
    );
    let mut notes = no_lines();
    push_line(&mut notes, ui::muted(note));
    assert(texts(notes@).len() == notes@.len());
    append_lines(&mut out, print_event_children(" ", notes.as_slice()));
    push_line(&mut out, text(""));
    out
}

/// What is said of a reload that was just noticed.
pub open spec fn reload_note(status: TargetReloadStatus) -> Seq<char> {
    if status.lists_modules() {
        "kernel reloaded; context is limited, continue to resume boot"@
    } else {
        "kernel reloaded; module list is not available yet, continue to retry full reload"@
    }
}

/// The lines that say that the kernel was reloaded. `closest` finds the closest
/// symbol of the kernel that begins at `old_base`.
pub fn print_target_reload_notification_context<
    F: FnOnce(VirtAddr) -> Option<(String, String, u32)>,
>(
    old_base: VirtAddr,
    current_thread: &str,
    event: &StopEvent,
    reload_status: TargetReloadStatus,
    closest: F,
) -> (r: Vec<String>)
    requires
        forall|address: VirtAddr| call_requires(closest, (address,)),
    ensures
        exists|place: Seq<char>| #[trigger]
            may_locate(old_base, *event, event.target_kernel_base_hint, closest, place) && texts(r@)
                == early_lines(current_thread@, place, reload_note(reload_status)),
{
    let pending_status = TargetReloadStatus::PendingRediscovery {
        kernel_base_hint: event.target_kernel_base_hint,
    };
    let place = pending_reload_location(old_base, event, pending_status, None, closest);
    assert(may_locate(old_base, *event, event.target_kernel_base_hint, closest, place@));
    let message = if reload_status.loaded_module_list_available() {
        "kernel reloaded; context is limited, continue to resume boot"
    } else {
        "kernel reloaded; module list is not available yet, continue to retry full reload"
    };
    early_stop(current_thread, place.as_str(), message)
}

/// The lines of a stop in a kernel that is not discoverable yet.
pub open spec fn pending_lines(
    thread: Seq<char>,
    place: Seq<char>,
    regs: Result<Registers, String>,
) -> Seq<Seq<char>> {
    let head = Seq::<Seq<char>>::empty().push(""@) + early_lines(
        thread,
        place,
        "kernel is not discoverable yet; context is limited, continue to retry"@,
    );
    (match regs {
        Ok(regs) => head + register_lines(regs, true),
        Err(e) => head.push(spec_bold("registers unavailable:"@) + " "@ + e@),
    }).push(""@)
}

/// Whether the registers of a stop, or the lack of them, may suggest `hint` as
/// the kernel base.
pub open spec fn may_hint_at_stop<P: FnOnce(u64) -> bool>(
    regs: Result<Registers, String>,
    event: StopEvent,
    kernel_pointer: P,
    window: u64,
    hint: Option<VirtAddr>,
) -> bool {
    match (regs, event.program_counter) {
        (Ok(regs), Some(pc)) => may_hint(regs.r9, kernel_pointer, pc, window, hint),
        _ => hint is None,
    }
}

/// The lines of a stop in a kernel that is not discoverable yet, given the
/// registers or why they cannot be read. `kernel_pointer` and `window` are those
/// of [`pending_reload_register_kernel_base_hint`]; `closest` finds the closest
/// symbol of the kernel that began at `old_base`.
pub fn print_pending_rediscovery_stop_context<
    P: FnOnce(u64) -> bool,
    F: FnOnce(VirtAddr) -> Option<(String, String, u32)>,
>(
    old_base: VirtAddr,
    current_thread: &str,
    event: &StopEvent,
    reload_status: TargetReloadStatus,
    regs: &Result<Registers, String>,
    kernel_pointer: P,
    window: u64,
    closest: F,
) -> (r: Vec<String>)
    requires
        forall|base: u64| call_requires(kernel_pointer, (base,)),
        forall|address: VirtAddr| call_requires(closest, (address,)),
    ensures
        exists|hint: Option<VirtAddr>, place: Seq<char>|
            {
                &&& #[trigger] may_hint_at_stop(*regs, *event, kernel_pointer, window, hint)
                &&& #[trigger] may_locate(
                    old_base,
                    *event,
                    preferred_hint(reload_status, hint),
                    closest,
                    place,
                )
                &&& texts(r@) == pending_lines(current_thread@, place, *regs)
            },
{
    let register_kernel_base_hint = match (regs, event.program_counter) {
        (Ok(regs), Some(pc)) => pending_reload_register_kernel_base_hint(
            regs.r9,
            kernel_pointer,
            pc,
            window,
        ),
        _ => None,
    };
    assert(may_hint_at_stop(*regs, *event, kernel_pointer, window, register_kernel_base_hint));
    let place = pending_reload_location(
        old_base,
        event,
        reload_status,
        register_kernel_base_hint,
        closest,
    );
    let mut out = no_lines();
    push_line(&mut out, text(""));
    append_lines(
        &mut out,
        early_stop(
            current_thread,
            place.as_str(),
            "kernel is not discoverable yet; context is limited, continue to retry",
        ),
    );
    match regs {
        Ok(regs) => append_lines(&mut out, print_registers(regs, true)),
        Err(e) => push_line(
            &mut out,
            bold("registers unavailable:").concat(" ").concat(e.as_str()),
        ),
    }
    push_line(&mut out, text(""));
    out
}

/// Where and how a thread stopped.
#[derive(Debug)]
pub struct BreakContext {
    pub thread_id: String,
    /// What the address space of the stop is.
    pub description: String,
    pub rip: u64,
    /// The page table of the stop.
    pub active_dtb: Dtb,
    pub registers: Registers,
    pub windows_thread: Option<ThreadInfo>,
    pub stack: Stacktrace,
}

/// The detail lines of a stop: its cause, where execution really stopped if the
/// banner names another place, and the Windows thread.
pub open spec fn break_children(
    cause: Option<Seq<char>>,
    stopped: Option<Seq<char>>,
    thread: Option<ThreadInfo>,
) -> Seq<Seq<char>> {
    let children = match cause {
        Some(cause) => Seq::<Seq<char>>::empty().push(cause),
        None => Seq::<Seq<char>>::empty(),
    };
    let children = match stopped {
        Some(symbol) => children.push(spec_muted("stopped at"@) + " "@ + spec_symbol(symbol)),
        None => children,
    };
    match thread {
        Some(thread) => children.push(thread_line(thread)),
        None => children,
    }
}

/// The lines of a stop.
pub open spec fn break_lines(
    context: BreakContext,
    limit: int,
    symbol: Seq<char>,
    children: Seq<Seq<char>>,
    listing: Seq<Seq<char>>,
) -> Seq<Seq<char>> {
    (Seq::<Seq<char>>::empty().push(
        break_banner(
            context.thread_id@,
            " "@ + context.description@ + " at "@ + spec_symbol(symbol) + " "@,
        ),
    ) + children_lines(" "@, children, children.len()) + register_lines(context.registers, true) + (
    section_lines("disasm"@) + listing) + stack_lines(context.stack, limit, true)).push(""@)
}

/// The lines of a stop whose registers cannot be read.
pub open spec fn unreadable_break_lines(thread: Seq<char>, reason: Seq<char>) -> Seq<Seq<char>> {
    Seq::empty().push(break_banner(thread, " (read_registers failed: "@ + reason + ") "@)).push(""@)
}

/// The place that a stop is shown for.
pub open spec fn shown_rip(context: BreakContext, display_rip: Option<u64>) -> u64 {
    match display_rip {
        Some(rip) => rip,
        None => context.rip,
    }
}

/// Whether naming where execution really stopped may give `stopped`: nothing
/// where that is the place shown.
pub open spec fn may_name_stop<S: Fn(u64) -> String>(
    context: BreakContext,
    display_rip: Option<u64>,
    symbol: S,
    stopped: Option<String>,
) -> bool {
    if shown_rip(context, display_rip) != context.rip {
        stopped matches Some(name) && call_ensures(symbol, (context.rip,), name)
    } else {
        stopped is None
    }
}

/// The lines of a stop whose registers cannot be read.
pub fn print_unreadable_break_context(thread_id: &str, reason: &str) -> (r: Vec<String>)
    ensures
        texts(r@) == unreadable_break_lines(thread_id@, reason@),
{
    let mut out = no_lines();
    push_line(
        &mut out,
        banner(thread_id, text(" (read_registers failed: ").concat(reason).concat(") ").as_str()),
    );
    push_line(&mut out, text(""));
    out
}

fn break_details(
    cause: Option<String>,
    stopped: &Option<String>,
    thread: &Option<ThreadInfo>,
) -> (r: Vec<String>)
    ensures
        texts(r@) == break_children(text_opt(cause), text_opt(*stopped), *thread),
{
    let mut children = no_lines();
    match cause {
        Some(cause) => push_line(&mut children, cause),
        None => {},
    }
    match stopped {
        Some(symbol) => push_line(
            &mut children,
            ui::muted("stopped at").concat(" ").concat(ui::symbol(symbol.as_str()).as_str()),
        ),
        None => {},
    }
    match thread {
        Some(thread) => push_line(&mut children, format_windows_thread(thread)),
        None => {},
    }
    children
}

/// `cause` is an optional pre-styled tree child naming why execution stopped
/// (e.g. `breakpoint #3`), rendered first. `display_rip` is the place to show
/// where that is not where execution stopped; `symbol` names an address,
/// `code_dtb` gives the page table preferred for code at an address, `decode`
/// decodes instructions, and at most `limit` stack frames are shown.
pub fn print_break_context_at<
    E,
    M: MemoryOps<PhysAddr>,
    S: Fn(u64) -> String,
    P: Fn(u64) -> Dtb,
    D: Fn(&[u8], u64, Option<usize>) -> Vec<DisasmRow>,
>(
    debugger: &Target<M>,
    breakpoints: &BreakpointManager<E>,
    context: &BreakContext,
    limit: usize,
    display_rip: Option<u64>,
    cause: Option<String>,
    symbol: &S,
    code_dtb: &P,
    decode: &D,
) -> (r: Vec<String>)
    requires
        forall|address: u64| call_requires(*symbol, (address,)),
        forall|address: u64| call_requires(*code_dtb, (address,)),
        forall|buf: &[u8], address: u64, limit: Option<usize>|
            call_requires(*decode, (buf, address, limit)),
        hidden_frames(context.stack, limit as int) <= usize::MAX,
    ensures
        exists|
            name: String,
            stopped: Option<String>,
            code: Dtb,
            listing: Seq<Seq<char>>,
        |
            {
                &&& #[trigger] call_ensures(*symbol, (shown_rip(*context, display_rip),), name)
                &&& #[trigger] may_name_stop(*context, display_rip, *symbol, stopped)
                &&& call_ensures(*code_dtb, (shown_rip(*context, display_rip),), code)
                &&& #[trigger] may_list_context(
                    debugger,
                    breakpoints,
                    context.active_dtb,
                    code,
                    shown_rip(*context, display_rip),
                    *decode,
                    listing,
                )
                &&& texts(r@) == break_lines(
                    *context,
                    limit as int,
                    name@,
                    break_children(text_opt(cause), text_opt(stopped), context.windows_thread),
                    listing,
                )
            },
{
    let context_rip: u64 = match display_rip {
        Some(rip) => rip,
        None => context.rip,
    };
    let name = symbol(context_rip);
    assert(call_ensures(*symbol, (shown_rip(*context, display_rip),), name));
    // Bugcheck stops park at the break inside KeBugCheck, not at the fault
    // site the banner names.
    let stopped: Option<String> = if context_rip != context.rip {
        Some(symbol(context.rip))
    } else {
        None
    };
    assert(may_name_stop(*context, display_rip, *symbol, stopped));
    let mut out = no_lines();
    let rest = text(" ").concat(context.description.as_str()).concat(" at ").concat(
        ui::symbol(name.as_str()).as_str(),
    ).concat(" ");
    push_line(&mut out, banner(context.thread_id.as_str(), rest.as_str()));
    let children = break_details(cause, &stopped, &context.windows_thread);
    assert(texts(children@).len() == children@.len());
    append_lines(&mut out, print_event_children(" ", children.as_slice()));
    append_lines(&mut out, print_registers(&context.registers, true));
    let preferred: Dtb = code_dtb(context_rip);
    let listing = print_disasm_context(
        debugger,
        breakpoints,
        context.active_dtb,
        preferred,
        context_rip,
        decode,
    );
    append_lines(&mut out, listing);
    append_lines(&mut out, print_stacktrace(&context.stack, limit, true));
    push_line(&mut out, text(""));
    out
}

/// Shows a stop without a cause, where it happened.
pub fn print_break_context<
    E,
    M: MemoryOps<PhysAddr>,
    S: Fn(u64) -> String,
    P: Fn(u64) -> Dtb,
    D: Fn(&[u8], u64, Option<usize>) -> Vec<DisasmRow>,
>(
    debugger: &Target<M>,
    breakpoints: &BreakpointManager<E>,
    context: &BreakContext,
    limit: usize,
    symbol: &S,
    code_dtb: &P,
    decode: &D,
) -> (r: Vec<String>)
    requires
        forall|address: u64| call_requires(*symbol, (address,)),
        forall|address: u64| call_requires(*code_dtb, (address,)),
        forall|buf: &[u8], address: u64, limit: Option<usize>|
            call_requires(*decode, (buf, address, limit)),
        hidden_frames(context.stack, limit as int) <= usize::MAX,
    ensures
        exists|name: String, code: Dtb, listing: Seq<Seq<char>>|
            {
                &&& #[trigger] call_ensures(*symbol, (context.rip,), name)
                &&& call_ensures(*code_dtb, (context.rip,), code)
                &&& #[trigger] may_list_context(
                    debugger,
                    breakpoints,
                    context.active_dtb,
                    code,
                    context.rip,
                    *decode,
                    listing,
                )
                &&& texts(r@) == break_lines(
                    *context,
                    limit as int,
                    name@,
                    break_children(None, None, context.windows_thread),
                    listing,
                )
            },
{
    print_break_context_at(
        debugger,
        breakpoints,
        context,
        limit,
        None,
        None,
        symbol,
        code_dtb,
        decode,
    )
}

/// Whether the instruction that a bugcheck blames may be `fault`; a bugcheck of
/// which nothing is known blames none.
pub open spec fn may_blame<Q: FnOnce(&BugcheckInfo) -> Option<u64>>(
    info: Option<&BugcheckInfo>,
    fault_ip: Q,
    fault: Option<u64>,
) -> bool {
    match info {
        Some(info) => call_ensures(fault_ip, (info,), fault),
        None => fault is None,
    }
}

/// Shows a bugcheck stop at the instruction that the bugcheck blames, where it
/// blames one, as `fault_ip` tells.
pub fn print_break_context_for_bugcheck<
    E,
    M: MemoryOps<PhysAddr>,
    S: Fn(u64) -> String,
    P: Fn(u64) -> Dtb,
    D: Fn(&[u8], u64, Option<usize>) -> Vec<DisasmRow>,
    Q: FnOnce(&BugcheckInfo) -> Option<u64>,
>(
    debugger: &Target<M>,
    breakpoints: &BreakpointManager<E>,
    context: &BreakContext,
    limit: usize,
    info: Option<&BugcheckInfo>,
    fault_ip: Q,
    symbol: &S,
    code_dtb: &P,
    decode: &D,
) -> (r: Vec<String>)
    requires
        forall|address: u64| call_requires(*symbol, (address,)),
        forall|address: u64| call_requires(*code_dtb, (address,)),
        forall|buf: &[u8], address: u64, limit: Option<usize>|
            call_requires(*decode, (buf, address, limit)),
        info matches Some(info) ==> call_requires(fault_ip, (info,)),
        hidden_frames(context.stack, limit as int) <= usize::MAX,
    ensures
        exists|
            fault: Option<u64>,
            name: String,
            stopped: Option<String>,
            code: Dtb,
            listing: Seq<Seq<char>>,
        |
            {
                &&& #[trigger] may_blame(info, fault_ip, fault)
                &&& #[trigger] call_ensures(*symbol, (shown_rip(*context, fault),), name)
                &&& #[trigger] may_name_stop(*context, fault, *symbol, stopped)
                &&& call_ensures(*code_dtb, (shown_rip(*context, fault),), code)
                &&& #[trigger] may_list_context(
                    debugger,
                    breakpoints,
                    context.active_dtb,
                    code,
                    shown_rip(*context, fault),
                    *decode,
                    listing,
                )
                &&& texts(r@) == break_lines(
                    *context,
                    limit as int,
                    name@,
                    break_children(None, text_opt(stopped), context.windows_thread),
                    listing,
                )
            },
{
    let fault: Option<u64> = match info {
        Some(info) => fault_ip(info),
        None => None,
    };
    assert(may_blame(info, fault_ip, fault));
    print_break_context_at(
        debugger,
        breakpoints,
        context,
        limit,
        fault,
        None,
        symbol,
        code_dtb,
        decode,
    )
}

} // verus!
