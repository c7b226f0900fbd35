//! What holds of the breakpoints of a session across operations.
use crate::backend::{BackendCall, DebugBackend, HW_BREAKPOINT_SLOTS};
use crate::error::Error;
use crate::gdb::breakpoints::{
    Breakpoint, BreakpointBackend, BreakpointHitResult, BreakpointManager, BreakpointScope,
    CodeRequest, CR3_PAGE_MASK,
};
use crate::gdb::install::{
    may_install, may_patch, may_put, may_put_int3, may_uninstall, scope_dtb, space_of, INT3,
};
use crate::memory::{zeroes, MemoryOps};
use crate::target::Machine;
use crate::types::{PhysAddr, VirtAddr};
use vstd::prelude::*;

verus! {

/// A debug-register breakpoint is never taken for an int3: it is not hit by
/// stopping at its address, and no byte is overlaid for it.
pub proof fn law_hardware_is_no_int3<E>(bp: Breakpoint<E>, rip: u64, cr3: u64)
    requires
        bp.hardware is Some,
    ensures
        !bp.hit_by(rip, cr3),
        !bp.patched_at(VirtAddr(rip)),
        !bp.shadows(VirtAddr(rip), cr3),
{
}

/// A disabled breakpoint is never hit, in either way.
pub proof fn law_disabled_is_silent<E>(bp: Breakpoint<E>, rip: u64, cr3: u64, slot: u8)
    requires
        !bp.enabled,
    ensures
        !bp.hit_by(rip, cr3),
        !bp.watches_slot(slot),
        !bp.shadows(VirtAddr(rip), cr3),
{
}

/// Only the page-directory frame in CR3 decides which process a breakpoint
/// belongs to: the PCID and the upper bits do not.
pub proof fn law_scope_ignores_pcid(scope: BreakpointScope, cr3: u64)
    ensures
        scope.covers_cr3(cr3) == scope.covers_cr3(cr3 & CR3_PAGE_MASK),
{
    assert((cr3 & 0x000F_FFFF_FFFF_F000u64) & 0x000F_FFFF_FFFF_F000u64 == cr3
        & 0x000F_FFFF_FFFF_F000u64) by (bit_vector);
}

/// A kernel breakpoint is hit whatever the address space.
pub proof fn law_kernel_scope_is_global<E>(bp: Breakpoint<E>, cr3: u64)
    requires
        bp.scope is Kernel,
        bp.enabled,
        bp.hardware is None,
    ensures
        bp.hit_by(bp.address.0, cr3),
        bp.shadows(bp.address, cr3),
{
}

/// Stopping at an address is reported as a hit exactly where an enabled int3
/// breakpoint stands there whose scope covers the address space: a kernel
/// breakpoint's always does, a process's where the page-directory frames are the
/// same. What is reported is such a breakpoint.
pub proof fn law_hits_are_exact<E>(
    manager: &BreakpointManager<E>,
    rip: u64,
    cr3: u64,
    reported: BreakpointHitResult<E>,
)
    requires
        manager.may_report(rip, cr3, reported),
    ensures
        reported is Hit <==> exists|k: u32|
            {
                &&& #[trigger] manager.breakpoints@.contains_key(k)
                &&& manager.breakpoints@[k].enabled
                &&& manager.breakpoints@[k].hardware is None
                &&& manager.breakpoints@[k].address == VirtAddr(rip)
                &&& match manager.breakpoints@[k].scope {
                    BreakpointScope::Kernel => true,
                    BreakpointScope::Process { dtb, .. } => cr3 & CR3_PAGE_MASK == dtb
                        & CR3_PAGE_MASK,
                }
            },
        reported matches BreakpointHitResult::Hit(bp) ==> {
            &&& bp.enabled && bp.hardware is None && bp.address == VirtAddr(rip)
            &&& bp.scope.covers_cr3(cr3)
            &&& manager.holds(bp)
        },
{
    match reported {
        BreakpointHitResult::Hit(bp) => {
            let k = choose|k: u32| #[trigger]
                manager.breakpoints@.contains_key(k) && manager.breakpoints@[k] == bp;
            assert(manager.breakpoints@.contains_key(k));
        },
        BreakpointHitResult::NotBreakpoint => {
            assert forall|k: u32| #[trigger] manager.breakpoints@.contains_key(k) implies !(
            manager.breakpoints@[k].patched_at(VirtAddr(rip))
                && manager.breakpoints@[k].scope.covers_cr3(cr3)) by {
                assert(!manager.breakpoints@[k].hit_by(rip, cr3));
            }
        },
    }
}

/// The only breakpoint of a session is reported exactly where it is hit.
pub proof fn law_only_breakpoint_is_reported<E>(
    manager: &BreakpointManager<E>,
    k: u32,
    rip: u64,
    cr3: u64,
    reported: BreakpointHitResult<E>,
)
    requires
        manager.may_report(rip, cr3, reported),
        forall|l: u32| #[trigger] manager.breakpoints@.contains_key(l) <==> l == k,
    ensures
        reported == (if manager.breakpoints@[k].hit_by(rip, cr3) {
            BreakpointHitResult::Hit(manager.breakpoints@[k])
        } else {
            BreakpointHitResult::NotBreakpoint
        }),
{
    assert(manager.breakpoints@.contains_key(k));
    match reported {
        BreakpointHitResult::Hit(bp) => {
            let l = choose|l: u32| #[trigger]
                manager.breakpoints@.contains_key(l) && manager.breakpoints@[l] == bp;
            assert(l == k);
        },
        BreakpointHitResult::NotBreakpoint => {},
    }
}

/// Where a breakpoint is hit, its int3 is hidden from display, and the other
/// way round.
pub proof fn law_hits_are_hidden<E>(bp: Breakpoint<E>, rip: u64, cr3: u64)
    ensures
        bp.hit_by(rip, cr3) == bp.shadows(VirtAddr(rip), cr3),
{
}

/// No view shows an int3 of ours: as long as no breakpoint was set on top of an
/// int3, a byte is shown as int3 only if it is one and no breakpoint is there.
pub proof fn law_masking_hides_int3<E>(
    manager: &BreakpointManager<E>,
    address: VirtAddr,
    cr3: u64,
    byte: u8,
    shown: u8,
)
    requires
        manager.may_show(address, cr3, byte, shown),
        forall|k: u32| #[trigger]
            manager.breakpoints@.contains_key(k) && manager.breakpoints@[k].shadows(address, cr3)
                ==> manager.breakpoints@[k].backend.displaced() != INT3,
    ensures
        shown == INT3 ==> byte == INT3 && !manager.shadowed(address, cr3),
{
}

/// Masking leaves every byte alone at which no breakpoint stands.
pub proof fn law_masking_keeps_the_rest<E>(
    manager: &BreakpointManager<E>,
    address: VirtAddr,
    cr3: u64,
    byte: u8,
    shown: u8,
)
    requires
        manager.may_show(address, cr3, byte, shown),
        !manager.shadowed(address, cr3),
    ensures
        shown == byte,
{
}

/// A breakpoint whose removal failed stays as it was, to be retried.
pub proof fn law_failed_removal_keeps<E, C: DebugBackend, M: MemoryOps<PhysAddr>>(
    manager: &BreakpointManager<E>,
    pre: Machine<C, M>,
    id: u32,
    post: &BreakpointManager<E>,
    end: Machine<C, M>,
    result: Result<(), Error>,
)
    requires
        manager.may_remove(pre, id, post, end, result),
        result is Err,
    ensures
        manager.unchanged(post),
{
}

/// What is removed is gone, nothing else is, and removing it again reports
/// that there is no such breakpoint.
pub proof fn law_removal_is_final<E, C: DebugBackend, M: MemoryOps<PhysAddr>>(
    manager: &BreakpointManager<E>,
    pre: Machine<C, M>,
    id: u32,
    post: &BreakpointManager<E>,
    mid: Machine<C, M>,
    again: &BreakpointManager<E>,
    end: Machine<C, M>,
    second: Result<(), Error>,
)
    requires
        manager.may_remove(pre, id, post, mid, Ok(())),
        post.may_remove(mid, id, again, end, second),
    ensures
        manager.breakpoints@.contains_key(id),
        post.breakpoints@ == manager.breakpoints@.remove(id),
        second == Err::<(), Error>(Error::BPNotFound(id)),
        post.unchanged(again),
        end == mid,
{
}

/// Once the last breakpoint is gone, ids start over.
pub proof fn law_ids_start_over<E, C: DebugBackend, M: MemoryOps<PhysAddr>>(
    manager: &BreakpointManager<E>,
    pre: Machine<C, M>,
    id: u32,
    post: &BreakpointManager<E>,
    end: Machine<C, M>,
)
    requires
        manager.may_remove(pre, id, post, end, Ok(())),
        manager.breakpoints@.dom() == set![id],
    ensures
        post.next_id == 0,
        post.breakpoints@ == Map::<u32, Breakpoint<E>>::empty(),
{
    assert(manager.breakpoints@.remove(id).dom() =~= Set::<u32>::empty());
    assert(post.breakpoints@ =~= Map::<u32, Breakpoint<E>>::empty());
}

/// Enabling undoes disabling: the manager ends as it began.
pub proof fn law_enable_undoes_disable<E, C: DebugBackend, M: MemoryOps<PhysAddr>>(
    manager: &BreakpointManager<E>,
    pre: Machine<C, M>,
    id: u32,
    off: &BreakpointManager<E>,
    mid: Machine<C, M>,
    on: &BreakpointManager<E>,
    end: Machine<C, M>,
)
    requires
        manager.breakpoints@.contains_key(id),
        manager.breakpoints@[id].enabled,
        manager.may_disable(pre, id, off, mid, Ok(())),
        off.may_enable(mid, id, on, end, Ok(())),
    ensures
        !off.breakpoints@[id].enabled,
        manager.unchanged(on),
{
    assert(on.breakpoints@ =~= manager.breakpoints@);
}

/// Enabling an enabled breakpoint, or disabling a disabled one, does not reach
/// the target.
pub proof fn law_switching_is_idempotent<E, C: DebugBackend, M: MemoryOps<PhysAddr>>(
    manager: &BreakpointManager<E>,
    pre: Machine<C, M>,
    id: u32,
    post: &BreakpointManager<E>,
    end: Machine<C, M>,
    result: Result<(), Error>,
)
    requires
        manager.breakpoints@.contains_key(id),
        (manager.breakpoints@[id].enabled && manager.may_enable(
            pre,
            id,
            post,
            end,
            result,
        )) || (!manager.breakpoints@[id].enabled && manager.may_disable(
            pre,
            id,
            post,
            end,
            result,
        )),
    ensures
        result is Ok,
        manager.unchanged(post),
        end == pre,
{
}

/// A new breakpoint never replaces another one: its id was not in use, and
/// every other entry stays.
pub proof fn law_adding_keeps_the_rest<
    E,
    C: DebugBackend,
    M: MemoryOps<PhysAddr>,
    F: FnOnce(&str) -> Result<E, Error>,
    R: FnOnce(VirtAddr) -> Result<Vec<u8>, Error>,
>(
    manager: &BreakpointManager<E>,
    pre: Machine<C, M>,
    request: CodeRequest<F, R>,
    post: &BreakpointManager<E>,
    end: Machine<C, M>,
    id: u32,
)
    requires
        manager.well_formed(),
        manager.may_add_code(pre, request, post, end, Ok(id)),
    ensures
        !manager.breakpoints@.contains_key(id),
        post.breakpoints@.contains_key(id),
        post.breakpoints@[id].patched_at(request.address),
        post.breakpoints@.remove(id) == manager.breakpoints@,
{
    assert(post.breakpoints@.remove(id) =~= manager.breakpoints@);
}

/// A refused breakpoint leaves no trace in the manager.
pub proof fn law_refused_is_not_added<
    E,
    C: DebugBackend,
    M: MemoryOps<PhysAddr>,
    F: FnOnce(&str) -> Result<E, Error>,
    R: FnOnce(VirtAddr) -> Result<Vec<u8>, Error>,
>(
    manager: &BreakpointManager<E>,
    pre: Machine<C, M>,
    request: CodeRequest<F, R>,
    post: &BreakpointManager<E>,
    end: Machine<C, M>,
    result: Result<u32, Error>,
)
    requires
        manager.may_add_code(pre, request, post, end, result),
        result is Err,
    ensures
        manager.unchanged(post),
{
}

/// There are never more debug-register breakpoints than slots.
pub proof fn law_four_watches_at_most<E>(manager: &BreakpointManager<E>, ids: Seq<u32>)
    requires
        manager.well_formed(),
        ids.no_duplicates(),
        forall|i: int|
            0 <= i < ids.len() ==> manager.breakpoints@.contains_key(#[trigger] ids[i])
                && manager.breakpoints@[ids[i]].hardware is Some,
    ensures
        ids.len() <= HW_BREAKPOINT_SLOTS,
{
    if ids.len() > HW_BREAKPOINT_SLOTS {
        assert(forall|i: int, j: int|
            0 <= i < 5 && 0 <= j < 5 && i != j ==> !manager.holds_slot_of(
                #[trigger] ids[i],
                #[trigger] ids[j],
            ));
        assert(manager.breakpoints@.contains_key(ids[0]));
        assert(manager.breakpoints@.contains_key(ids[1]));
        assert(manager.breakpoints@.contains_key(ids[2]));
        assert(manager.breakpoints@.contains_key(ids[3]));
        assert(manager.breakpoints@.contains_key(ids[4]));
    }
}

/// A disabled debug-register breakpoint keeps its slot reserved, and so does
/// every other one.
pub proof fn law_disabled_watch_keeps_its_slot<E, C: DebugBackend, M: MemoryOps<PhysAddr>>(
    manager: &BreakpointManager<E>,
    pre: Machine<C, M>,
    id: u32,
    post: &BreakpointManager<E>,
    end: Machine<C, M>,
    result: Result<(), Error>,
    slot: u8,
)
    requires
        manager.may_disable(pre, id, post, end, result),
    ensures
        post.slot_taken(slot) == manager.slot_taken(slot),
{
    if manager.slot_taken(slot) {
        let k = choose|k: u32| #[trigger]
            manager.breakpoints@.contains_key(k) && (manager.breakpoints@[k].hardware matches Some(
                hw,
            ) && hw.slot == slot);
        assert(post.breakpoints@.contains_key(k));
    }
    if post.slot_taken(slot) {
        let k = choose|k: u32| #[trigger]
            post.breakpoints@.contains_key(k) && (post.breakpoints@[k].hardware matches Some(hw)
                && hw.slot == slot);
        assert(manager.breakpoints@.contains_key(k));
    }
}

/// The byte that a new breakpoint keeps is the one that memory held before
/// anything was written, whoever writes the int3.
pub proof fn law_displaced_byte_is_read_first<C: DebugBackend, M: MemoryOps<PhysAddr>>(
    pre: Machine<C, M>,
    address: VirtAddr,
    scope: BreakpointScope,
    backend: BreakpointBackend,
    post: Machine<C, M>,
)
    requires
        may_install(pre, address, scope, Ok(backend), post),
    ensures
        exists|byte: Seq<u8>|
            {
                &&& #[trigger] space_of(&pre.target, scope_dtb(&pre.target, scope)).may_read(
                    address,
                    zeroes(1),
                    byte,
                    Ok(()),
                )
                &&& byte == seq![backend.displaced()]
            },
{
    let space = space_of(&pre.target, scope_dtb(&pre.target, scope));
    let (byte, got) = choose|byte: Seq<u8>, got: Result<(), Error>|
        {
            &&& #[trigger] space.may_read(address, zeroes(1), byte, got)
            &&& byte.len() == 1
            &&& got is Ok
            &&& may_put_int3(pre, address, scope, byte[0], Ok(backend), post)
        };
    assert(got->Ok_0 == ());
    assert(byte =~= seq![backend.displaced()]);
}

/// Taking a process breakpoint out writes one thing: the byte that memory held
/// before the breakpoint was put in, at the same address and through the same
/// page table. Putting it in wrote one thing: the int3 there.
pub proof fn law_removal_restores_the_byte<E, C: DebugBackend, M: MemoryOps<PhysAddr>>(
    bp: Breakpoint<E>,
    pre: Machine<C, M>,
    mid: Machine<C, M>,
    later: Machine<C, M>,
    end: Machine<C, M>,
)
    requires
        bp.scope is Process,
        may_install(pre, bp.address, bp.scope, Ok(bp.backend), mid),
        may_uninstall(later, &bp, Ok(()), end),
    ensures
        may_patch(pre.target, bp.scope->dtb, bp.address, seq![INT3], Ok(()), mid.target),
        exists|byte: Seq<u8>|
            {
                &&& #[trigger] space_of(&pre.target, bp.scope->dtb).may_read(
                    bp.address,
                    zeroes(1),
                    byte,
                    Ok(()),
                )
                &&& may_patch(
                    later.target,
                    bp.scope->dtb,
                    bp.address,
                    byte,
                    Ok(()),
                    end.target,
                )
            },
{
    law_displaced_byte_is_read_first(pre, bp.address, bp.scope, bp.backend, mid);
    let put = choose|put: Result<(), Error>|
        #[trigger] may_put(
            pre,
            bp.scope->dtb,
            bp.address,
            INT3,
            BackendCall::NoteInstalled(bp.address.0),
            put,
            mid,
        ) && put is Ok;
    assert(put->Ok_0 == ());
}

/// A DR slot names one armed breakpoint at most, so a DR6 bit names one.
pub proof fn law_slot_names_one<E>(
    manager: &BreakpointManager<E>,
    a: Breakpoint<E>,
    b: Breakpoint<E>,
    slot: u8,
)
    requires
        manager.well_formed(),
        manager.holds(a),
        manager.holds(b),
        a.watches_slot(slot),
        b.watches_slot(slot),
    ensures
        a == b,
{
    let k = choose|k: u32| #[trigger]
        manager.breakpoints@.contains_key(k) && manager.breakpoints@[k] == a;
    let l = choose|l: u32| #[trigger]
        manager.breakpoints@.contains_key(l) && manager.breakpoints@[l] == b;
    assert(manager.holds_slot_of(k, l));
}

/// A listing is in strictly ascending order of id, and holds each breakpoint
/// once.
pub proof fn law_listing_ascends<E>(manager: &BreakpointManager<E>, order: Seq<u32>)
    requires
        manager.well_formed(),
        manager.lists(order),
    ensures
        forall|i: int, j: int| 0 <= i < j < order.len() ==> order[i] < order[j],
        forall|k: u32| #[trigger] manager.breakpoints@.contains_key(k) <==> order.contains(k),
{
    assert forall|i: int, j: int| 0 <= i < j < order.len() implies order[i] < order[j] by {
        assert(order.contains(order[i]) && order.contains(order[j]));
        assert(manager.breakpoints@.contains_key(order[i]));
        assert(manager.breakpoints@.contains_key(order[j]));
    }
}

} // verus!
