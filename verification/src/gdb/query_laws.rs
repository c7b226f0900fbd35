//! Which breakpoint answers for a stop, an address or a debug register, and what is
//! shown in place of an int3.
use crate::error::Error;
use crate::gdb::breakpoints::{
    Breakpoint, BreakpointBackend, BreakpointHitResult, BreakpointManager, BreakpointScope,
};
use crate::target::Target;
use crate::types::VirtAddr;
use vstd::prelude::*;

verus! {

/// Whether an address space is that of a scope: a process's is known by bits 12 to 51 of
/// its page table.
pub open spec fn in_scope(scope: BreakpointScope, cr3: u64) -> bool {
    match scope {
        BreakpointScope::Kernel => true,
        BreakpointScope::Process { pid, dtb, name } => (cr3 as int / 0x1000) % 0x100_0000_0000 == (
        dtb as int / 0x1000) % 0x100_0000_0000,
    }
}

proof fn lemma_scope(scope: BreakpointScope, cr3: u64)
    ensures
        scope.covers_cr3(cr3) == in_scope(scope, cr3),
{
    if let BreakpointScope::Process { pid, dtb, name } = scope {
        assert((cr3 & 0x000F_FFFF_FFFF_F000u64 == dtb & 0x000F_FFFF_FFFF_F000u64) == ((cr3 / 0x1000)
            % 0x100_0000_0000 == (dtb / 0x1000) % 0x100_0000_0000)) by (bit_vector);
    }
}

/// The scope of a process is its page table, whatever the other bits of CR3 are.
pub proof fn law_scopes_are_page_tables(scope: BreakpointScope, cr3: u64, r: bool)
    requires
        call_ensures(BreakpointScope::matches_cr3, (&scope, cr3), r),
    ensures
        r == in_scope(scope, cr3),
{
    lemma_scope(scope, cr3);
}

/// Whether a breakpoint has its int3 at an address: one that is enabled and in no debug
/// register.
pub open spec fn stands_at<E>(bp: Breakpoint<E>, address: u64) -> bool {
    bp.enabled && bp.hardware is None && bp.address.0 == address
}

/// A stop is a hit if and only if a breakpoint of its address space has its int3 there,
/// and then such a breakpoint is reported.
pub proof fn law_stops_are_hits<E>(
    manager: &BreakpointManager<E>,
    rip: u64,
    cr3: u64,
    r: BreakpointHitResult<E>,
)
    requires
        call_ensures(BreakpointManager::<E>::check_breakpoint_hit, (manager, rip, cr3), r),
    ensures
        match r {
            BreakpointHitResult::Hit(bp) => exists|k: u32|
                {
                    &&& #[trigger] manager.breakpoints@.contains_key(k)
                    &&& manager.breakpoints@[k] == bp
                    &&& stands_at(bp, rip)
                    &&& in_scope(bp.scope, cr3)
                },
            BreakpointHitResult::NotBreakpoint => forall|k: u32| #[trigger]
                manager.breakpoints@.contains_key(k) ==> !(stands_at(manager.breakpoints@[k], rip)
                    && in_scope(manager.breakpoints@[k].scope, cr3)),
        },
{
    match r {
        BreakpointHitResult::Hit(bp) => {
            lemma_scope(bp.scope, cr3);
        },
        BreakpointHitResult::NotBreakpoint => {
            assert forall|k: u32| #[trigger] manager.breakpoints@.contains_key(k) implies !(
            stands_at(manager.breakpoints@[k], rip) && in_scope(
                manager.breakpoints@[k].scope,
                cr3,
            )) by {
                lemma_scope(manager.breakpoints@[k].scope, cr3);
                assert(!manager.breakpoints@[k].hit_by(rip, cr3));
            }
        },
    }
}

/// A breakpoint answers for a debug register if and only if it is enabled and has that
/// register.
pub proof fn law_debug_register_is_owned<E>(bp: Breakpoint<E>, slot: u8)
    ensures
        bp.watches_slot(slot) <==> (bp.enabled && bp.hardware is Some && (bp.hardware->0).slot
            == slot),
        bp.watches() <==> (bp.enabled && bp.hardware is Some),
{
}

/// An int3 is ours if and only if a breakpoint has it, whatever its scope.
pub proof fn law_int3s_are_owned<E>(manager: &BreakpointManager<E>, rip: u64, r: Option<u32>)
    requires
        call_ensures(BreakpointManager::<E>::breakpoint_id_at_address, (manager, rip), r),
    ensures
        match r {
            Some(id) => exists|k: u32| #[trigger]
                manager.breakpoints@.contains_key(k) && manager.breakpoints@[k].id == id
                    && stands_at(manager.breakpoints@[k], rip),
            None => forall|k: u32| #[trigger]
                manager.breakpoints@.contains_key(k) ==> !stands_at(manager.breakpoints@[k], rip),
        },
{
    if r is None {
        assert forall|k: u32| #[trigger] manager.breakpoints@.contains_key(k) implies !stands_at(
            manager.breakpoints@[k],
            rip,
        ) by {
            assert(!manager.breakpoints@[k].patched_at(VirtAddr(rip)));
        }
    }
}

/// Whether a scope is that of the current context: of the attached process, by its
/// number, page table and name, else of the kernel.
pub open spec fn current<M>(target: &Target<M>, scope: BreakpointScope) -> bool {
    match (target.current_process_info, scope) {
        (None, BreakpointScope::Kernel) => true,
        (Some(info), BreakpointScope::Process { pid, dtb, name }) => pid == info.pid && dtb
            == info.dtb && name@ == info.name@,
        _ => false,
    }
}

/// A new breakpoint repeats one that has its int3 there for the current context; there
/// is none to repeat where no breakpoint does.
pub proof fn law_repeated_breakpoint<E, M>(
    manager: &BreakpointManager<E>,
    target: &Target<M>,
    address: VirtAddr,
    r: Option<u32>,
)
    requires
        call_ensures(
            BreakpointManager::<E>::enabled_breakpoint_id_for_current_context::<M>,
            (manager, target, address),
            r,
        ),
    ensures
        match r {
            Some(id) => exists|k: u32| #[trigger]
                manager.breakpoints@.contains_key(k) && manager.breakpoints@[k].id == id
                    && stands_at(manager.breakpoints@[k], address.0) && current(
                    target,
                    manager.breakpoints@[k].scope,
                ),
            None => forall|k: u32| #[trigger]
                manager.breakpoints@.contains_key(k) ==> !(stands_at(
                    manager.breakpoints@[k],
                    address.0,
                ) && current(target, manager.breakpoints@[k].scope)),
        },
{
    if r is None {
        let scope = choose|scope: BreakpointScope| #[trigger]
            crate::gdb::install::is_context_scope(target, scope) && manager.names_patch(
                scope,
                address,
                r,
            );
        assert forall|k: u32| #[trigger] manager.breakpoints@.contains_key(k) implies !(stands_at(
            manager.breakpoints@[k],
            address.0,
        ) && current(target, manager.breakpoints@[k].scope)) by {
            let bp = manager.breakpoints@[k];
            assert(!(bp.patched_at(address) && bp.scope.same_as(&scope)));
        }
    }
}

/// The byte that an int3 stands in place of.
pub open spec fn kept(backend: BreakpointBackend, byte: u8) -> bool {
    match backend {
        BreakpointBackend::Kernel { original_byte } => byte == original_byte,
        BreakpointBackend::GuestMemoryPatch { original_byte } => byte == original_byte,
        BreakpointBackend::Hardware => byte == 0,
    }
}

/// A byte is shown as the one that a breakpoint keeps if a breakpoint of the address
/// space has its int3 there, else as it is. The address of byte `i` is `i` behind that
/// of the first, on the 64-bit circle.
pub proof fn law_shown_bytes<E>(
    manager: &BreakpointManager<E>,
    start: VirtAddr,
    i: int,
    cr3: u64,
    byte: u8,
    shown: u8,
)
    requires
        0 <= i,
        manager.may_show(start.spec_offset(i), cr3, byte, shown),
    ensures
        ({
            let address = ((start.0 + i) % 0x1_0000_0000_0000_0000) as u64;
            ||| exists|k: u32| #[trigger]
                manager.breakpoints@.contains_key(k) && stands_at(manager.breakpoints@[k], address)
                    && in_scope(manager.breakpoints@[k].scope, cr3) && kept(
                    manager.breakpoints@[k].backend,
                    shown,
                )
            ||| shown == byte && forall|k: u32| #[trigger]
                manager.breakpoints@.contains_key(k) ==> !(stands_at(
                    manager.breakpoints@[k],
                    address,
                ) && in_scope(manager.breakpoints@[k].scope, cr3))
        }),
{
    let address = start.spec_offset(i);
    assert forall|k: u32| #[trigger] manager.breakpoints@.contains_key(k) implies (
    manager.breakpoints@[k].shadows(address, cr3) <==> stands_at(
        manager.breakpoints@[k],
        address.0,
    ) && in_scope(manager.breakpoints@[k].scope, cr3)) by {
        lemma_scope(manager.breakpoints@[k].scope, cr3);
    }
}

/// A breakpoint without a condition always holds; one with a condition holds where that
/// has a value other than zero, and where it has none the reason is told.
pub proof fn law_conditions<E, F: FnOnce(&E) -> Result<u64, Error>>(
    bp: Breakpoint<E>,
    resolve: F,
    r: Result<bool, Error>,
)
    requires
        call_ensures(Breakpoint::<E>::evaluate_condition::<F>, (&bp, resolve), r),
    ensures
        bp.condition_expr is None ==> r == Ok::<bool, Error>(true),
        bp.condition_expr matches Some(expr) ==> (match r {
            Ok(holds) => exists|value: u64| #[trigger]
                call_ensures(resolve, (&*expr,), Ok::<u64, Error>(value)) && holds == (value > 0),
            Err(e) => call_ensures(resolve, (&*expr,), Err::<u64, Error>(e)),
        }),
{
    if let Some(expr) = bp.condition_expr {
        let value = choose|value: Result<u64, Error>| #[trigger]
            call_ensures(resolve, (&*expr,), value) && r == (match value {
                Ok(v) => Ok::<bool, Error>(v != 0),
                Err(e) => Err(e),
            });
        match value {
            Ok(v) => {
                assert(call_ensures(resolve, (&*expr,), Ok::<u64, Error>(v)));
            },
            Err(e) => {},
        }
    }
}

} // verus!
