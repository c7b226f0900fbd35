//! What is shown of a stop: which place, which causes, which lines.
use crate::bugchecks::BugcheckInfo;
use crate::gdb::breakpoints::BreakpointManager;
use crate::memory::MemoryOps;
use crate::repl::context::{
    break_children, break_lines, early_lines, may_be_near, may_blame, may_hint, may_hint_at_stop,
    may_locate, may_name_stop, may_rebase, pending_lines, pending_reload_location,
    pending_reload_register_kernel_base_hint, preferred_hint, print_break_context,
    print_break_context_at, print_break_context_for_bugcheck,
    print_pending_rediscovery_stop_context, print_target_reload_notification_context,
    print_unreadable_break_context, rebase_kernel_symbol_for_pending_reload, rebased, shown_rip,
    BreakContext,
};
use crate::repl::disasm::{
    child_lines, children_lines, may_list_context, register_lines, section_lines, stack_lines,
    DisasmRow, Registers,
};
use crate::repl::stop::{thread_line, TargetReloadStatus, ThreadInfo};
use crate::session::StopEvent;
use crate::target::Target;
use crate::text::{hex_prefixed, text_opt, texts};
use crate::types::{Dtb, PhysAddr, VirtAddr};
use crate::ui::{
    spec_addr, spec_badge, spec_bold, spec_bright_black, spec_label, spec_muted, spec_plate,
    spec_symbol, spec_thread_id,
};
use vstd::prelude::*;
use vstd::string::*;

verus! {

/// Whether `place` is as far into the old kernel as `pc` is into the new one.
pub open spec fn moved(old_base: VirtAddr, pc: u64, new_base: VirtAddr, place: VirtAddr) -> bool {
    &&& pc >= new_base.0
    &&& place.0 - old_base.0 == pc - new_base.0
}

/// Whether `name` names an address by the closest symbol: by no symbol that is more
/// than 4096 bytes away, and with the offset in hex unless it is zero.
pub open spec fn named_by(found: Option<(String, String, u32)>, name: Option<Seq<char>>) -> bool {
    match found {
        Some((module, symbol, offset)) => if offset <= 4096 {
            name == Some(
                module@ + "!"@ + symbol@ + (if offset > 0 {
                    "+"@ + hex_prefixed(offset as nat)
                } else {
                    Seq::empty()
                }),
            )
        } else {
            name is None
        },
        None => name is None,
    }
}

/// Whether `name` is that of the place in the old kernel that `pc` is at, if there is
/// one.
pub open spec fn named_in_old_kernel<F: FnOnce(VirtAddr) -> Option<(String, String, u32)>>(
    old_base: VirtAddr,
    pc: u64,
    new_base: Option<VirtAddr>,
    closest: F,
    name: Option<Seq<char>>,
) -> bool {
    ||| name is None && (new_base is None || forall|place: VirtAddr| #[trigger]
        moved(old_base, pc, new_base->0, place) ==> false)
    ||| new_base is Some && exists|place: VirtAddr, found: Option<(String, String, u32)>|
        {
            &&& #[trigger] moved(old_base, pc, new_base->0, place)
            &&& #[trigger] call_ensures(closest, (place,), found)
            &&& named_by(found, name)
        }
}

proof fn lemma_rebase<F: FnOnce(VirtAddr) -> Option<(String, String, u32)>>(
    old_base: VirtAddr,
    pc: u64,
    new_base: Option<VirtAddr>,
    closest: F,
    name: Option<Seq<char>>,
)
    requires
        may_rebase(old_base, pc, new_base, closest, name),
    ensures
        named_in_old_kernel(old_base, pc, new_base, closest, name),
{
    match rebased(old_base, pc, new_base) {
        None => {},
        Some(address) => {
            let found = choose|found: Option<(String, String, u32)>| #[trigger]
                call_ensures(closest, (address,), found) && name
                    == crate::repl::context::near_symbol(found);
            assert(may_be_near(address, closest, name));
            assert(moved(old_base, pc, new_base->0, address));
            if let Some((module, symbol, offset)) = found {
                let plain = module@ + "!"@ + symbol@;
                assert(plain + Seq::<char>::empty() =~= plain);
                assert(plain + "+"@ + hex_prefixed(offset as nat) =~= plain + ("+"@ + hex_prefixed(
                    offset as nat,
                )));
            }
        },
    }
}

/// An address of a rebooted kernel is named by the symbol at the same distance from the
/// base of the old one: by none where there is no such place or the symbol is too far.
pub proof fn law_rebooted_addresses_are_named<
    F: FnOnce(VirtAddr) -> Option<(String, String, u32)>,
>(old_base: VirtAddr, pc: u64, hint: Option<VirtAddr>, closest: F, r: Option<String>)
    requires
        call_ensures(
            rebase_kernel_symbol_for_pending_reload::<F>,
            (old_base, pc, hint, closest),
            r,
        ),
    ensures
        named_in_old_kernel(
            old_base,
            pc,
            hint,
            closest,
            match r {
                Some(name) => Some(name@),
                None => None,
            },
        ),
{
    lemma_rebase(old_base, pc, hint, closest, text_opt(r));
}

/// r9 is taken for the base of the kernel if and only if it looks like a kernel pointer
/// and the stop lies at most `window` bytes behind it.
pub proof fn law_r9_may_be_the_base<P: FnOnce(u64) -> bool>(
    r9: Option<u64>,
    kernel_pointer: P,
    pc: u64,
    window: u64,
    r: Option<VirtAddr>,
)
    requires
        call_ensures(
            pending_reload_register_kernel_base_hint::<P>,
            (r9, kernel_pointer, pc, window),
            r,
        ),
    ensures
        r9 is None ==> r is None,
        r matches Some(base) ==> r9 == Some(base.0) && call_ensures(kernel_pointer, (base.0,), true)
            && base.0 <= pc < base.0 + window,
        (r is None && r9 is Some) ==> (call_ensures(kernel_pointer, (r9->0,), false) || pc < r9->0
            || pc >= r9->0 + window),
{
    assert(may_hint(r9, kernel_pointer, pc, window, r));
    if let Some(base) = r9 {
        let kernel = choose|kernel: bool| #[trigger]
            call_ensures(kernel_pointer, (base,), kernel) && r
                == crate::repl::context::hints_base(r9, kernel, pc, window);
        assert(kernel == true || kernel == false);
    }
}

/// Whether `place` shows where an early stop is: by the name that the old kernel gives
/// it, else by its address; unknown where the stop has none.
pub open spec fn early_place<F: FnOnce(VirtAddr) -> Option<(String, String, u32)>>(
    old_base: VirtAddr,
    event: StopEvent,
    hint: Option<VirtAddr>,
    closest: F,
    place: Seq<char>,
) -> bool {
    match event.program_counter {
        None => place == spec_bright_black("unknown"@),
        Some(pc) => exists|name: Option<Seq<char>>| #[trigger]
            named_in_old_kernel(old_base, pc, hint, closest, name) && place == (match name {
                Some(symbol) => spec_symbol(symbol),
                None => spec_addr(pc),
            }),
    }
}

proof fn lemma_place<F: FnOnce(VirtAddr) -> Option<(String, String, u32)>>(
    old_base: VirtAddr,
    event: StopEvent,
    hint: Option<VirtAddr>,
    closest: F,
    place: Seq<char>,
)
    requires
        may_locate(old_base, event, hint, closest, place),
    ensures
        early_place(old_base, event, hint, closest, place),
{
    if let Some(pc) = event.program_counter {
        let name = choose|name: Option<Seq<char>>| #[trigger]
            may_rebase(old_base, pc, hint, closest, name) && place == (match name {
                Some(symbol) => spec_symbol(symbol),
                None => spec_addr(pc),
            });
        lemma_rebase(old_base, pc, hint, closest, name);
    }
}

/// The base that a stop of a kernel not yet discovered tells, else another.
pub open spec fn told_or(
    status: TargetReloadStatus,
    suggested: Option<VirtAddr>,
) -> Option<VirtAddr> {
    match status {
        TargetReloadStatus::PendingRediscovery { kernel_base_hint: Some(told) } => Some(told),
        _ => suggested,
    }
}

/// The base that a stop of a kernel not yet discovered tells comes before the one that
/// its registers suggest.
pub proof fn law_early_place<F: FnOnce(VirtAddr) -> Option<(String, String, u32)>>(
    old_base: VirtAddr,
    event: StopEvent,
    status: TargetReloadStatus,
    suggested: Option<VirtAddr>,
    closest: F,
    r: String,
)
    requires
        call_ensures(
            pending_reload_location::<F>,
            (old_base, &event, status, suggested, closest),
            r,
        ),
    ensures
        early_place(
            old_base,
            event,
            told_or(status, suggested),
            closest,
            r@,
        ),
{
    lemma_place(old_base, event, preferred_hint(status, suggested), closest, r@);
}

/// The lines of an early stop: its banner, a note, an empty line.
pub open spec fn early(thread: Seq<char>, place: Seq<char>, note: Seq<char>) -> Seq<Seq<char>> {
    seq![
        spec_badge("BREAK"@) + spec_plate(
            " "@ + spec_thread_id(thread) + (" early boot at "@ + place + " "@),
        ),
    ] + child_lines(" "@, spec_muted(note), true) + seq![""@]
}

proof fn lemma_early(thread: Seq<char>, place: Seq<char>, note: Seq<char>)
    ensures
        early_lines(thread, place, note) == early(thread, place, note),
{
    reveal_with_fuel(children_lines, 2);
    let children = Seq::<Seq<char>>::empty().push(spec_muted(note));
    assert(children_lines(" "@, children, 1) =~= child_lines(" "@, spec_muted(note), true));
    assert(early_lines(thread, place, note) =~= early(thread, place, note));
}

/// Word of a reload names the early place by the base that the stop tells, and says
/// whether the module list is there.
pub proof fn law_reload_notification<F: FnOnce(VirtAddr) -> Option<(String, String, u32)>>(
    old_base: VirtAddr,
    thread: &str,
    event: StopEvent,
    status: TargetReloadStatus,
    closest: F,
    r: Vec<String>,
)
    requires
        call_ensures(
            print_target_reload_notification_context::<F>,
            (old_base, thread, &event, status, closest),
            r,
        ),
    ensures
        exists|place: Seq<char>| #[trigger]
            early_place(old_base, event, event.target_kernel_base_hint, closest, place) && texts(r@)
                == early(
                thread@,
                place,
                match status {
                    TargetReloadStatus::Reloaded { loaded_module_list_available: true } =>
                        "kernel reloaded; context is limited, continue to resume boot"@,
                    _ =>
                        "kernel reloaded; module list is not available yet, continue to retry full reload"@,
                },
            ),
{
    let hint = event.target_kernel_base_hint;
    let place = choose|place: Seq<char>| #[trigger]
        may_locate(old_base, event, hint, closest, place) && texts(r@) == early_lines(
            thread@,
            place,
            crate::repl::context::reload_note(status),
        );
    lemma_place(old_base, event, hint, closest, place);
    lemma_early(thread@, place, crate::repl::context::reload_note(status));
    assert(early_place(old_base, event, hint, closest, place));
}

/// A stop in a kernel that is not discoverable is shown with its early place, by the
/// base that the stop tells, else by r9 where that may be one, and with its registers,
/// or why it has none.
pub proof fn law_undiscovered_stop<
    P: FnOnce(u64) -> bool,
    F: FnOnce(VirtAddr) -> Option<(String, String, u32)>,
>(
    old_base: VirtAddr,
    thread: &str,
    event: StopEvent,
    status: TargetReloadStatus,
    regs: Result<Registers, String>,
    kernel_pointer: P,
    window: u64,
    closest: F,
    r: Vec<String>,
)
    requires
        call_ensures(
            print_pending_rediscovery_stop_context::<P, F>,
            (old_base, thread, &event, status, &regs, kernel_pointer, window, closest),
            r,
        ),
    ensures
        exists|suggested: Option<VirtAddr>, place: Seq<char>|
            {
                &&& #[trigger] early_place(
                    old_base,
                    event,
                    told_or(status, suggested),
                    closest,
                    place,
                )
                &&& suggested matches Some(base) ==> {
                    &&& regs matches Ok(regs) && regs.r9 == Some(base.0)
                    &&& event.program_counter matches Some(pc) && base.0 <= pc < base.0 + window
                    &&& call_ensures(kernel_pointer, (base.0,), true)
                }
                &&& texts(r@) == seq![""@] + early(
                    thread@,
                    place,
                    "kernel is not discoverable yet; context is limited, continue to retry"@,
                ) + (match regs {
                    Ok(regs) => register_lines(regs, true),
                    Err(why) => seq![spec_bold("registers unavailable:"@) + " "@ + why@],
                }) + seq![""@]
            },
{
    let (hint, place) = choose|hint: Option<VirtAddr>, place: Seq<char>|
        {
            &&& #[trigger] may_hint_at_stop(regs, event, kernel_pointer, window, hint)
            &&& #[trigger] may_locate(
                old_base,
                event,
                preferred_hint(status, hint),
                closest,
                place,
            )
            &&& texts(r@) == pending_lines(thread@, place, regs)
        };
    lemma_place(old_base, event, preferred_hint(status, hint), closest, place);
    let note = "kernel is not discoverable yet; context is limited, continue to retry"@;
    lemma_early(thread@, place, note);
    assert(pending_lines(thread@, place, regs) =~= seq![""@] + early(thread@, place, note) + (
    match regs {
        Ok(regs) => register_lines(regs, true),
        Err(why) => seq![spec_bold("registers unavailable:"@) + " "@ + why@],
    }) + seq![""@]);
    if let (Ok(regs), Some(pc)) = (regs, event.program_counter) {
        if let Some(base) = regs.r9 {
            let kernel = choose|kernel: bool| #[trigger]
                call_ensures(kernel_pointer, (base,), kernel) && hint
                    == crate::repl::context::hints_base(regs.r9, kernel, pc, window);
            assert(hint is Some ==> kernel == true);
        }
    }
    assert(early_place(
        old_base,
        event,
        told_or(status, hint),
        closest,
        place,
    ));
}

/// The details below the banner of a stop: its cause, then where execution really
/// stopped, then the Windows thread, as far as there are such.
pub open spec fn details(
    cause: Option<Seq<char>>,
    stopped: Option<Seq<char>>,
    thread: Option<ThreadInfo>,
) -> Seq<Seq<char>> {
    (match cause {
        Some(cause) => seq![cause],
        None => Seq::empty(),
    }) + (match stopped {
        Some(symbol) => seq![spec_muted("stopped at"@) + " "@ + spec_symbol(symbol)],
        None => Seq::empty(),
    }) + (match thread {
        Some(thread) => seq![thread_line(thread)],
        None => Seq::empty(),
    })
}

/// The lines of a stop: banner, details, registers, code, stack, an empty line.
pub open spec fn whole(
    context: BreakContext,
    limit: int,
    name: Seq<char>,
    below: Seq<Seq<char>>,
    listing: Seq<Seq<char>>,
) -> Seq<Seq<char>> {
    seq![
        spec_badge("BREAK"@) + spec_plate(
            " "@ + spec_thread_id(context.thread_id@) + (" "@ + context.description@ + " at "@
                + spec_symbol(name) + " "@),
        ),
    ] + children_lines(" "@, below, below.len()) + register_lines(context.registers, true) + seq![
        ""@,
        spec_label("disasm"@),
    ] + listing + stack_lines(context.stack, limit, true) + seq![""@]
}

proof fn lemma_whole(
    context: BreakContext,
    limit: int,
    name: Seq<char>,
    cause: Option<Seq<char>>,
    stopped: Option<Seq<char>>,
    listing: Seq<Seq<char>>,
)
    ensures
        break_children(cause, stopped, context.windows_thread) == details(
            cause,
            stopped,
            context.windows_thread,
        ),
        break_lines(
            context,
            limit,
            name,
            details(cause, stopped, context.windows_thread),
            listing,
        ) == whole(context, limit, name, details(cause, stopped, context.windows_thread), listing),
{
    let below = details(cause, stopped, context.windows_thread);
    assert(break_children(cause, stopped, context.windows_thread) =~= below);
    assert(section_lines("disasm"@) =~= seq![""@, spec_label("disasm"@)]);
    assert(break_lines(context, limit, name, below, listing) =~= whole(
        context,
        limit,
        name,
        below,
        listing,
    ));
}

/// Whether a stop is shown for the place `at`: `at` is named in the banner, and code is
/// listed around it, read by the page table for it; where execution stopped elsewhere,
/// that is named below.
pub open spec fn shows_place<
    E,
    M: MemoryOps<PhysAddr>,
    S: Fn(u64) -> String,
    P: Fn(u64) -> Dtb,
    D: Fn(&[u8], u64, Option<usize>) -> Vec<DisasmRow>,
>(
    target: &Target<M>,
    breakpoints: &BreakpointManager<E>,
    context: BreakContext,
    limit: int,
    at: u64,
    cause: Option<Seq<char>>,
    symbol: S,
    code_dtb: P,
    decode: D,
    lines: Seq<Seq<char>>,
) -> bool {
    exists|name: String, stopped: Option<String>, code: Dtb, listing: Seq<Seq<char>>|
        {
            &&& #[trigger] call_ensures(symbol, (at,), name)
            &&& #[trigger] really_stopped(context.rip, at, symbol, stopped)
            &&& call_ensures(code_dtb, (at,), code)
            &&& #[trigger] may_list_context(
                target,
                breakpoints,
                context.active_dtb,
                code,
                at,
                decode,
                listing,
            )
            &&& lines == whole(
                context,
                limit,
                name@,
                details(
                    cause,
                    match stopped {
                        Some(name) => Some(name@),
                        None => None,
                    },
                    context.windows_thread,
                ),
                listing,
            )
        }
}

/// Whether `stopped` names where execution stopped, which is at `rip`: nothing where
/// that is the place shown.
pub open spec fn really_stopped<S: Fn(u64) -> String>(
    rip: u64,
    at: u64,
    symbol: S,
    stopped: Option<String>,
) -> bool {
    match stopped {
        Some(name) => at != rip && call_ensures(symbol, (rip,), name),
        None => at == rip,
    }
}

/// A stop is shown for the place asked for, else where execution stopped, with its cause
/// first.
pub proof fn law_stop_is_shown_where_asked<
    E,
    M: MemoryOps<PhysAddr>,
    S: Fn(u64) -> String,
    P: Fn(u64) -> Dtb,
    D: Fn(&[u8], u64, Option<usize>) -> Vec<DisasmRow>,
>(
    target: &Target<M>,
    breakpoints: &BreakpointManager<E>,
    context: &BreakContext,
    limit: usize,
    asked: Option<u64>,
    cause: Option<String>,
    symbol: &S,
    code_dtb: &P,
    decode: &D,
    r: Vec<String>,
)
    requires
        call_ensures(
            print_break_context_at::<E, M, S, P, D>,
            (target, breakpoints, context, limit, asked, cause, symbol, code_dtb, decode),
            r,
        ),
    ensures
        shows_place(
            target,
            breakpoints,
            *context,
            limit as int,
            match asked {
                Some(at) => at,
                None => context.rip,
            },
            match cause {
                Some(cause) => Some(cause@),
                None => None,
            },
            *symbol,
            *code_dtb,
            *decode,
            texts(r@),
        ),
{
    let (name, stopped, code, listing) = choose|
        name: String,
        stopped: Option<String>,
        code: Dtb,
        listing: Seq<Seq<char>>,
    |
        {
            &&& #[trigger] call_ensures(*symbol, (shown_rip(*context, asked),), name)
            &&& #[trigger] may_name_stop(*context, asked, *symbol, stopped)
            &&& call_ensures(*code_dtb, (shown_rip(*context, asked),), code)
            &&& #[trigger] may_list_context(
                target,
                breakpoints,
                context.active_dtb,
                code,
                shown_rip(*context, asked),
                *decode,
                listing,
            )
            &&& texts(r@) == break_lines(
                *context,
                limit as int,
                name@,
                break_children(text_opt(cause), text_opt(stopped), context.windows_thread),
                listing,
            )
        };
    lemma_whole(*context, limit as int, name@, text_opt(cause), text_opt(stopped), listing);
    assert(really_stopped(context.rip, shown_rip(*context, asked), *symbol, stopped));
}

/// A stop without a cause is shown where execution stopped.
pub proof fn law_stop_is_shown_where_it_happened<
    E,
    M: MemoryOps<PhysAddr>,
    S: Fn(u64) -> String,
    P: Fn(u64) -> Dtb,
    D: Fn(&[u8], u64, Option<usize>) -> Vec<DisasmRow>,
>(
    target: &Target<M>,
    breakpoints: &BreakpointManager<E>,
    context: &BreakContext,
    limit: usize,
    symbol: &S,
    code_dtb: &P,
    decode: &D,
    r: Vec<String>,
)
    requires
        call_ensures(
            print_break_context::<E, M, S, P, D>,
            (target, breakpoints, context, limit, symbol, code_dtb, decode),
            r,
        ),
    ensures
        shows_place(
            target,
            breakpoints,
            *context,
            limit as int,
            context.rip,
            None,
            *symbol,
            *code_dtb,
            *decode,
            texts(r@),
        ),
{
    let (name, code, listing) = choose|name: String, code: Dtb, listing: Seq<Seq<char>>|
        {
            &&& #[trigger] call_ensures(*symbol, (context.rip,), name)
            &&& call_ensures(*code_dtb, (context.rip,), code)
            &&& #[trigger] may_list_context(
                target,
                breakpoints,
                context.active_dtb,
                code,
                context.rip,
                *decode,
                listing,
            )
            &&& texts(r@) == break_lines(
                *context,
                limit as int,
                name@,
                break_children(None, None, context.windows_thread),
                listing,
            )
        };
    lemma_whole(*context, limit as int, name@, None, None, listing);
    assert(really_stopped(context.rip, context.rip, *symbol, None));
}

/// A bugcheck stop is shown for the instruction that the bugcheck blames, else where
/// execution stopped; one of which nothing is known blames none.
pub proof fn law_bugcheck_is_shown_where_it_blames<
    E,
    M: MemoryOps<PhysAddr>,
    S: Fn(u64) -> String,
    P: Fn(u64) -> Dtb,
    D: Fn(&[u8], u64, Option<usize>) -> Vec<DisasmRow>,
    Q: FnOnce(&BugcheckInfo) -> Option<u64>,
>(
    target: &Target<M>,
    breakpoints: &BreakpointManager<E>,
    context: &BreakContext,
    limit: usize,
    info: Option<&BugcheckInfo>,
    fault_ip: Q,
    symbol: &S,
    code_dtb: &P,
    decode: &D,
    r: Vec<String>,
)
    requires
        call_ensures(
            print_break_context_for_bugcheck::<E, M, S, P, D, Q>,
            (target, breakpoints, context, limit, info, fault_ip, symbol, code_dtb, decode),
            r,
        ),
    ensures
        exists|fault: Option<u64>| #[trigger]
            blamed(info, fault_ip, fault) && shows_place(
                target,
                breakpoints,
                *context,
                limit as int,
                match fault {
                    Some(at) => at,
                    None => context.rip,
                },
                None,
                *symbol,
                *code_dtb,
                *decode,
                texts(r@),
            ),
{
    let (fault, name, stopped, code, listing) = choose|
        fault: Option<u64>,
        name: String,
        stopped: Option<String>,
        code: Dtb,
        listing: Seq<Seq<char>>,
    |
        {
            &&& #[trigger] may_blame(info, fault_ip, fault)
            &&& #[trigger] call_ensures(*symbol, (shown_rip(*context, fault),), name)
            &&& #[trigger] may_name_stop(*context, fault, *symbol, stopped)
            &&& call_ensures(*code_dtb, (shown_rip(*context, fault),), code)
            &&& #[trigger] may_list_context(
                target,
                breakpoints,
                context.active_dtb,
                code,
                shown_rip(*context, fault),
                *decode,
                listing,
            )
            &&& texts(r@) == break_lines(
                *context,
                limit as int,
                name@,
                break_children(None, text_opt(stopped), context.windows_thread),
                listing,
            )
        };
    lemma_whole(*context, limit as int, name@, None, text_opt(stopped), listing);
    assert(blamed(info, fault_ip, fault));
    assert(really_stopped(context.rip, shown_rip(*context, fault), *symbol, stopped));
}

/// Whether a bugcheck may blame the instruction `fault`.
pub open spec fn blamed<Q: FnOnce(&BugcheckInfo) -> Option<u64>>(
    info: Option<&BugcheckInfo>,
    fault_ip: Q,
    fault: Option<u64>,
) -> bool {
    match info {
        Some(info) => call_ensures(fault_ip, (info,), fault),
        None => fault is None,
    }
}

/// A stop whose registers cannot be read is its banner, with the reason.
pub proof fn law_unreadable_stop(thread: &str, reason: &str, r: Vec<String>)
    requires
        call_ensures(print_unreadable_break_context, (thread, reason), r),
    ensures
        texts(r@) == seq![
            spec_badge("BREAK"@) + spec_plate(
                " "@ + spec_thread_id(thread@) + (" (read_registers failed: "@ + reason@ + ") "@),
            ),
            ""@,
        ],
{
}

/// An address of the new kernel lay where it is as far into the old one, and nowhere where
/// there is no such place.
pub proof fn law_rebasing_keeps_the_distance(
    old_base: VirtAddr,
    pc: u64,
    new_base: VirtAddr,
    place: VirtAddr,
)
    ensures
        rebased(old_base, pc, Some(new_base)) == Some(place) <==> moved(
            old_base,
            pc,
            new_base,
            place,
        ),
        rebased(old_base, pc, None) is None,
{
}

} // verus!
