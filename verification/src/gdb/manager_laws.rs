//! What calls do to the manager, the transport and the target that they are handed.
use crate::backend::{BackendCall, DebugBackend};
use crate::error::Error;
use crate::gdb::breakpoints::{
    Breakpoint, BreakpointBackend, BreakpointManager, BreakpointScope, HardwareBreakpoint,
};
use crate::gdb::install::{install_existing_breakpoint, uninstall_breakpoint};
use crate::gdb::query_laws::{in_scope, kept, law_shown_bytes, stands_at};
use crate::memory::MemoryOps;
use crate::target::Target;
use crate::types::{PhysAddr, VirtAddr};
use vstd::prelude::*;

verus! {

/// Whether `post` is the manager without one breakpoint; without any, ids start over.
pub open spec fn without<E>(
    manager: BreakpointManager<E>,
    id: u32,
    post: BreakpointManager<E>,
) -> bool {
    &&& !post.breakpoints@.contains_key(id)
    &&& forall|k: u32|
        k != id ==> (#[trigger] post.breakpoints@.contains_key(k)
            <==> manager.breakpoints@.contains_key(k)) && post.breakpoints@[k]
            == manager.breakpoints@[k]
    &&& (exists|k: u32| #[trigger] post.breakpoints@.contains_key(k)) ==> post.next_id
        == manager.next_id
    &&& (forall|k: u32| !#[trigger] post.breakpoints@.contains_key(k)) ==> post.next_id == 0
}

/// Whether nothing changed.
pub open spec fn as_before<E>(manager: BreakpointManager<E>, post: BreakpointManager<E>) -> bool {
    &&& post.next_id == manager.next_id
    &&& forall|k: u32|
        (#[trigger] post.breakpoints@.contains_key(k) <==> manager.breakpoints@.contains_key(k))
            && post.breakpoints@[k] == manager.breakpoints@[k]
}

proof fn lemma_without<E>(manager: BreakpointManager<E>, id: u32, post: BreakpointManager<E>)
    requires
        manager.dropped(id, &post),
    ensures
        without(manager, id, post),
{
    let rest = manager.breakpoints@.remove(id);
    if exists|k: u32| #[trigger] post.breakpoints@.contains_key(k) {
        let k = choose|k: u32| #[trigger] post.breakpoints@.contains_key(k);
        assert(rest.dom().contains(k));
        assert(!rest.dom().is_empty());
    } else {
        assert(rest.dom().is_empty()) by {
            assert forall|k: u32| !rest.dom().contains(k) by {
                assert(!post.breakpoints@.contains_key(k));
            }
        }
    }
}

/// Discarding a breakpoint hands it out and forgets it alone; there is no discarding one
/// that is not there.
pub proof fn law_discarding<E>(
    manager: &mut BreakpointManager<E>,
    id: u32,
    r: Result<Breakpoint<E>, Error>,
)
    requires
        call_ensures(BreakpointManager::<E>::discard, (manager, id), r),
    ensures
        if old(manager).breakpoints@.contains_key(id) {
            &&& r == Ok::<Breakpoint<E>, Error>(old(manager).breakpoints@[id])
            &&& without(*old(manager), id, *final(manager))
        } else {
            &&& r == Err::<Breakpoint<E>, Error>(Error::BPNotFound(id))
            &&& as_before(*old(manager), *final(manager))
        },
{
    if old(manager).breakpoints@.contains_key(id) {
        lemma_without(*old(manager), id, *final(manager));
    }
}

/// An enabled breakpoint is removed if and only if it was taken out of the target; one
/// that is disabled is removed without that.
pub proof fn law_removing_what_was_taken_out<E, F: FnOnce(&Breakpoint<E>) -> Result<(), Error>>(
    manager: &mut BreakpointManager<E>,
    id: u32,
    uninstall: F,
    r: Result<(), Error>,
)
    requires
        call_ensures(
            BreakpointManager::<E>::remove_if_uninstalled::<F>,
            (manager, id, uninstall),
            r,
        ),
    ensures
        if !old(manager).breakpoints@.contains_key(id) {
            r == Err::<(), Error>(Error::BPNotFound(id))
        } else if old(manager).breakpoints@[id].enabled {
            call_ensures(uninstall, (&old(manager).breakpoints@[id],), r)
        } else {
            r is Ok
        },
        r is Ok ==> without(*old(manager), id, *final(manager)),
        r is Err ==> as_before(*old(manager), *final(manager)),
{
    if r is Ok {
        lemma_without(*old(manager), id, *final(manager));
    }
}

/// A buffer is shown without our int3s: every byte at which a breakpoint of the address
/// space has its int3 as the one that it keeps, every other as it is.
pub proof fn law_masked_buffer<E>(
    manager: &BreakpointManager<E>,
    start: VirtAddr,
    buf: &mut [u8],
    cr3: u64,
    i: int,
)
    requires
        call_ensures(
            BreakpointManager::<E>::mask_breakpoint_bytes,
            (manager, start, buf, cr3),
            (),
        ),
        0 <= i < old(buf)@.len(),
    ensures
        final(buf)@.len() == old(buf)@.len(),
        ({
            let address = ((start.0 + i) % 0x1_0000_0000_0000_0000) as u64;
            ||| exists|k: u32| #[trigger]
                manager.breakpoints@.contains_key(k) && stands_at(manager.breakpoints@[k], address)
                    && in_scope(manager.breakpoints@[k].scope, cr3) && kept(
                    manager.breakpoints@[k].backend,
                    final(buf)@[i],
                )
            ||| final(buf)@[i] == old(buf)@[i] && forall|k: u32| #[trigger]
                manager.breakpoints@.contains_key(k) ==> !(stands_at(
                    manager.breakpoints@[k],
                    address,
                ) && in_scope(manager.breakpoints@[k].scope, cr3))
        }),
{
    law_shown_bytes(manager, start, i, cr3, old(buf)@[i], final(buf)@[i]);
}

/// Putting a breakpoint in a debug register back asks the transport once, to arm that
/// register for it, and ends as the transport answered; memory stays as it was.
pub proof fn law_register_is_armed_again<M: MemoryOps<PhysAddr>, C: DebugBackend, E>(
    client: &mut C,
    target: &mut Target<M>,
    bp: &Breakpoint<E>,
    hw: HardwareBreakpoint,
    r: Result<(), Error>,
)
    requires
        call_ensures(install_existing_breakpoint::<M, C, E>, (client, target, bp), r),
        bp.backend == BreakpointBackend::Hardware,
        bp.hardware == Some(hw),
    ensures
        old(client).may(
            BackendCall::SetHardware {
                slot: hw.slot,
                address: bp.address.0,
                access: hw.access,
                len: hw.len,
            },
            r,
            final(client),
        ),
        *final(target) == *old(target),
{
}

/// Taking a breakpoint out of its debug register asks the transport once, to disarm that
/// register, and ends as the transport answered; memory stays as it was.
pub proof fn law_register_is_disarmed<M: MemoryOps<PhysAddr>, C: DebugBackend, E>(
    client: &mut C,
    target: &mut Target<M>,
    bp: &Breakpoint<E>,
    hw: HardwareBreakpoint,
    r: Result<(), Error>,
)
    requires
        call_ensures(uninstall_breakpoint::<M, C, E>, (client, target, bp), r),
        bp.backend == BreakpointBackend::Hardware,
        bp.hardware == Some(hw),
    ensures
        old(client).may(BackendCall::ClearHardware(hw.slot), r, final(client)),
        *final(target) == *old(target),
{
}

/// A breakpoint of the kernel is put back and taken out by the kernel debugger, at its
/// own address, and that ends as the debugger answered.
pub proof fn law_kernel_debugger_is_asked<M: MemoryOps<PhysAddr>, C: DebugBackend, E>(
    client: &mut C,
    target: &mut Target<M>,
    other: &mut C,
    other_target: &mut Target<M>,
    bp: &Breakpoint<E>,
    back: Result<(), Error>,
    out: Result<(), Error>,
)
    requires
        call_ensures(install_existing_breakpoint::<M, C, E>, (client, target, bp), back),
        call_ensures(uninstall_breakpoint::<M, C, E>, (other, other_target, bp), out),
        bp.backend is Kernel,
        bp.scope is Kernel,
    ensures
        old(client).may(BackendCall::SetBreakpoint(bp.address.0), back, final(client)),
        old(other).may(BackendCall::RemoveBreakpoint(bp.address.0), out, final(other)),
        final(target).current_dtb == old(target).current_dtb,
        final(other_target).current_dtb == old(other_target).current_dtb,
{
}

/// A breakpoint whose backend is not that of its scope is neither put back nor taken
/// out, and that is refused.
pub proof fn law_mismatches_are_refused<M: MemoryOps<PhysAddr>, C: DebugBackend, E>(
    client: &mut C,
    target: &mut Target<M>,
    other: &mut C,
    other_target: &mut Target<M>,
    bp: &Breakpoint<E>,
    back: Result<(), Error>,
    out: Result<(), Error>,
)
    requires
        call_ensures(install_existing_breakpoint::<M, C, E>, (client, target, bp), back),
        call_ensures(uninstall_breakpoint::<M, C, E>, (other, other_target, bp), out),
        match bp.scope {
            BreakpointScope::Kernel => bp.backend is GuestMemoryPatch,
            BreakpointScope::Process { pid, dtb, name } => bp.backend is Kernel,
        } || (bp.backend == BreakpointBackend::Hardware && bp.hardware is None),
    ensures
        back matches Err(Error::Rsp(_)),
        out matches Err(Error::Rsp(_)),
        *final(client) == *old(client) && *final(target) == *old(target),
        *final(other) == *old(other) && *final(other_target) == *old(other_target),
{
}

} // verus!
