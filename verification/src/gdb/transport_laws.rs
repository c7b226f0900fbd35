//! What changing breakpoints asks of the transport, told by what the transport
//! then holds: armed debug registers, int3s, and notes of patches.
use crate::backend::{
    BackendCall, CapabilityStatus, DebugBackend, DebugCapability, HwBreakpointAccess,
};
use crate::error::Error;
use crate::gdb::breakpoints::{
    Breakpoint, BreakpointBackend, BreakpointManager, BreakpointScope, CodeRequest,
    HardwareBreakpoint,
};
use crate::gdb::changes::WatchRequest;
use crate::gdb::install::{
    is_context_scope, may_install, may_install_existing, may_put, may_put_int3, may_reach,
    may_uninstall, may_validate, space_of,
};
use crate::memory::{zeroes, AddressSpace, MemoryOps};
use crate::target::Machine;
use crate::text::text_opt;
use crate::types::{PhysAddr, VirtAddr};
use std::sync::Arc;
use vstd::prelude::*;

verus! {

/// What an armed debug register watches.
pub struct Armed {
    pub address: u64,
    pub access: HwBreakpointAccess,
    pub len: u8,
}

/// What a transport holds: its armed debug registers, the int3s that it set, and
/// the patches that it was told of.
pub struct Held {
    pub registers: Map<u8, Armed>,
    pub int3s: Set<u64>,
    pub notes: Set<u64>,
}

/// What a transport holds after a request that it granted.
pub open spec fn granted(held: Held, call: BackendCall) -> Held {
    match call {
        BackendCall::SetBreakpoint(a) => Held { int3s: held.int3s.insert(a), ..held },
        BackendCall::RemoveBreakpoint(a) => Held { int3s: held.int3s.remove(a), ..held },
        BackendCall::NoteInstalled(a) => Held { notes: held.notes.insert(a), ..held },
        BackendCall::NoteUninstalled(a) => Held { notes: held.notes.remove(a), ..held },
        BackendCall::SetHardware { slot, address, access, len } => Held {
            registers: held.registers.insert(slot, Armed { address, access, len }),
            ..held
        },
        BackendCall::ClearHardware(slot) => Held { registers: held.registers.remove(slot), ..held },
        BackendCall::Continue => held,
    }
}

/// Whether `held` tells what transports of this type hold: a request that is
/// granted is carried out, and one that is refused changes nothing.
pub open spec fn tells<C: DebugBackend>(held: spec_fn(C) -> Held) -> bool {
    forall|pre: C, call: BackendCall, reply: Result<(), Error>, post: C| #[trigger]
        pre.may(call, reply, &post) ==> held(post) == (if reply is Ok {
            granted(held(pre), call)
        } else {
            held(pre)
        })
}

/// Whether the armed debug registers are those of the enabled hardware
/// breakpoints, with what each of them watches.
pub open spec fn in_step<E>(manager: &BreakpointManager<E>, registers: Map<u8, Armed>) -> bool {
    &&& forall|k: u32| #[trigger]
        manager.breakpoints@.contains_key(k) && manager.breakpoints@[k].enabled ==> (
        manager.breakpoints@[k].hardware matches Some(hw) ==> registers.contains_key(hw.slot)
            && registers[hw.slot] == (Armed {
            address: manager.breakpoints@[k].address.0,
            access: hw.access,
            len: hw.len,
        }))
    &&& forall|slot: u8| #[trigger]
        registers.contains_key(slot) ==> exists|k: u32| #[trigger]
            manager.breakpoints@.contains_key(k) && manager.breakpoints@[k].enabled && (
            manager.breakpoints@[k].hardware matches Some(hw) && hw.slot == slot)
}

/// Whether a breakpoint, enabled or not, has this debug register.
pub open spec fn claims<E>(manager: &BreakpointManager<E>, slot: u8) -> bool {
    exists|k: u32| #[trigger]
        manager.breakpoints@.contains_key(k) && manager.breakpoints@[k].hardware is Some
            && manager.breakpoints@[k].hardware->0.slot == slot
}

/// Whether everything but the entry `id` is as it was, and that entry differs only
/// in that it is enabled or not.
pub open spec fn only_switched<E>(
    manager: &BreakpointManager<E>,
    id: u32,
    enabled: bool,
    post: &BreakpointManager<E>,
) -> bool {
    &&& post.next_id == manager.next_id
    &&& forall|k: u32| #[trigger]
        post.breakpoints@.contains_key(k) <==> manager.breakpoints@.contains_key(k)
    &&& forall|k: u32|
        manager.breakpoints@.contains_key(k) && k != id ==> #[trigger] post.breakpoints@[k]
            == manager.breakpoints@[k]
    &&& post.breakpoints@[id] == (Breakpoint { enabled, ..manager.breakpoints@[id] })
}

/// Whether nothing is registered that was not, nothing is gone, and nothing
/// differs.
pub open spec fn untouched<E>(manager: &BreakpointManager<E>, post: &BreakpointManager<E>) -> bool {
    &&& post.next_id == manager.next_id
    &&& post.breakpoints@ == manager.breakpoints@
}

/// The one request with which a breakpoint is put into the target, as far as the
/// transport is concerned; a process breakpoint is patched in and then noted.
pub open spec fn arming<E>(bp: Breakpoint<E>) -> BackendCall {
    match bp.hardware {
        Some(hw) => BackendCall::SetHardware {
            slot: hw.slot,
            address: bp.address.0,
            access: hw.access,
            len: hw.len,
        },
        None => match bp.scope {
            BreakpointScope::Kernel => BackendCall::SetBreakpoint(bp.address.0),
            BreakpointScope::Process { .. } => BackendCall::NoteInstalled(bp.address.0),
        },
    }
}

/// The one request with which a breakpoint is taken out again.
pub open spec fn disarming<E>(bp: Breakpoint<E>) -> BackendCall {
    match bp.hardware {
        Some(hw) => BackendCall::ClearHardware(hw.slot),
        None => match bp.scope {
            BreakpointScope::Kernel => BackendCall::RemoveBreakpoint(bp.address.0),
            BreakpointScope::Process { .. } => BackendCall::NoteUninstalled(bp.address.0),
        },
    }
}

/// Whether a breakpoint's parts go together.
pub open spec fn consistent<E>(bp: Breakpoint<E>) -> bool {
    match bp.hardware {
        Some(_) => bp.backend == BreakpointBackend::Hardware,
        None => match bp.scope {
            BreakpointScope::Kernel => bp.backend is Kernel,
            BreakpointScope::Process { .. } => bp.backend is GuestMemoryPatch,
        },
    }
}

/// Putting a known breakpoint back makes the one request that arms it: the watch
/// with its slot, address, access and length in a debug register; the int3 at its
/// address; or the int3 byte in the memory of its process and then the note of it.
/// The reply, or the outcome of the write, is the result, and a breakpoint that is
/// no patch leaves the target as it is but for memory.
pub proof fn law_putting_back_arms<E, C: DebugBackend, M: MemoryOps<PhysAddr>>(
    pre: Machine<C, M>,
    bp: Breakpoint<E>,
    result: Result<(), Error>,
    end: Machine<C, M>,
    held: spec_fn(C) -> Held,
)
    requires
        consistent(bp),
        may_install_existing(pre, &bp, result, end),
        tells(held),
    ensures
        result is Ok ==> pre.client.may(arming(bp), Ok(()), &end.client),
        result is Ok ==> held(end.client) == granted(held(pre.client), arming(bp)),
        result is Err ==> held(end.client) == held(pre.client),
        bp.hardware is Some ==> pre.client.may(arming(bp), result, &end.client) && end.target
            == pre.target,
        bp.hardware is None && bp.scope is Kernel ==> pre.client.may(
            arming(bp),
            result,
            &end.client,
        ),
        bp.hardware is None ==> (bp.scope matches BreakpointScope::Process { dtb, .. }
            ==> AddressSpace::may_write(
            pre.target.phys,
            dtb,
            bp.address,
            seq![0xCCu8],
            result,
            end.target.phys,
        )),
        end.target.current_dtb == pre.target.current_dtb,
        end.target.current_process_info == pre.target.current_process_info,
        end.target.kernel_modules == pre.target.kernel_modules,
{
    if result is Ok {
        assert(result == Ok::<(), Error>(())) by {
            assert(result->Ok_0 == ());
        }
    }
}

/// Taking a breakpoint out makes the one request that disarms it: the debug
/// register of its slot is cleared; the int3 is taken back; or the byte that the
/// int3 displaced is written back into the memory of its process, and that is
/// noted. The reply, or the outcome of the write, is the result.
pub proof fn law_taking_out_disarms<E, C: DebugBackend, M: MemoryOps<PhysAddr>>(
    pre: Machine<C, M>,
    bp: Breakpoint<E>,
    result: Result<(), Error>,
    end: Machine<C, M>,
    held: spec_fn(C) -> Held,
)
    requires
        consistent(bp),
        may_uninstall(pre, &bp, result, end),
        tells(held),
    ensures
        result is Ok ==> pre.client.may(disarming(bp), Ok(()), &end.client),
        result is Ok ==> held(end.client) == granted(held(pre.client), disarming(bp)),
        result is Err ==> held(end.client) == held(pre.client),
        bp.hardware is Some ==> pre.client.may(disarming(bp), result, &end.client) && end.target
            == pre.target,
        bp.hardware is None && bp.scope is Kernel ==> pre.client.may(
            disarming(bp),
            result,
            &end.client,
        ),
        bp.hardware is None ==> (bp.scope matches BreakpointScope::Process { dtb, .. } ==> (
        bp.backend matches BreakpointBackend::GuestMemoryPatch { original_byte }
            ==> AddressSpace::may_write(
            pre.target.phys,
            dtb,
            bp.address,
            seq![original_byte],
            result,
            end.target.phys,
        ))),
        end.target.current_dtb == pre.target.current_dtb,
        end.target.current_process_info == pre.target.current_process_info,
        end.target.kernel_modules == pre.target.kernel_modules,
{
    if result is Ok {
        assert(result == Ok::<(), Error>(())) by {
            assert(result->Ok_0 == ());
        }
    }
}

/// Enabling a disabled breakpoint arms it, and marks it enabled where that worked
/// and only there; enabling an enabled one asks for nothing.
pub proof fn law_enabling_arms<E, C: DebugBackend, M: MemoryOps<PhysAddr>>(
    manager: &BreakpointManager<E>,
    pre: Machine<C, M>,
    id: u32,
    post: &BreakpointManager<E>,
    end: Machine<C, M>,
    result: Result<(), Error>,
    held: spec_fn(C) -> Held,
)
    requires
        manager.may_enable(pre, id, post, end, result),
        manager.breakpoints@.contains_key(id) ==> consistent(manager.breakpoints@[id]),
        tells(held),
    ensures
        !manager.breakpoints@.contains_key(id) ==> result == Err::<(), Error>(
            Error::BPNotFound(id),
        ) && untouched(manager, post) && end == pre,
        manager.breakpoints@.contains_key(id) && manager.breakpoints@[id].enabled ==> result is Ok
            && untouched(manager, post) && end == pre,
        manager.breakpoints@.contains_key(id) && !manager.breakpoints@[id].enabled ==> {
            &&& result is Ok ==> {
                &&& pre.client.may(arming(manager.breakpoints@[id]), Ok(()), &end.client)
                &&& held(end.client) == granted(
                    held(pre.client),
                    arming(manager.breakpoints@[id]),
                )
                &&& only_switched(manager, id, true, post)
            }
            &&& result is Err ==> held(end.client) == held(pre.client) && untouched(manager, post)
            &&& manager.breakpoints@[id].hardware is Some ==> pre.client.may(
                arming(manager.breakpoints@[id]),
                result,
                &end.client,
            )
        },
{
    if manager.breakpoints@.contains_key(id) && !manager.breakpoints@[id].enabled {
        law_putting_back_arms(pre, manager.breakpoints@[id], result, end, held);
    }
}

/// Disabling an enabled breakpoint disarms it, and marks it disabled where that
/// worked and only there; disabling a disabled one asks for nothing.
pub proof fn law_disabling_disarms<E, C: DebugBackend, M: MemoryOps<PhysAddr>>(
    manager: &BreakpointManager<E>,
    pre: Machine<C, M>,
    id: u32,
    post: &BreakpointManager<E>,
    end: Machine<C, M>,
    result: Result<(), Error>,
    held: spec_fn(C) -> Held,
)
    requires
        manager.may_disable(pre, id, post, end, result),
        manager.breakpoints@.contains_key(id) ==> consistent(manager.breakpoints@[id]),
        tells(held),
    ensures
        !manager.breakpoints@.contains_key(id) ==> result == Err::<(), Error>(
            Error::BPNotFound(id),
        ) && untouched(manager, post) && end == pre,
        manager.breakpoints@.contains_key(id) && !manager.breakpoints@[id].enabled ==> result is Ok
            && untouched(manager, post) && end == pre,
        manager.breakpoints@.contains_key(id) && manager.breakpoints@[id].enabled ==> {
            &&& result is Ok ==> {
                &&& pre.client.may(disarming(manager.breakpoints@[id]), Ok(()), &end.client)
                &&& held(end.client) == granted(
                    held(pre.client),
                    disarming(manager.breakpoints@[id]),
                )
                &&& only_switched(manager, id, false, post)
            }
            &&& result is Err ==> held(end.client) == held(pre.client) && untouched(manager, post)
            &&& manager.breakpoints@[id].hardware is Some ==> pre.client.may(
                disarming(manager.breakpoints@[id]),
                result,
                &end.client,
            )
        },
{
    if manager.breakpoints@.contains_key(id) && manager.breakpoints@[id].enabled {
        law_taking_out_disarms(pre, manager.breakpoints@[id], result, end, held);
    }
}

/// Removing an enabled breakpoint disarms it, and forgets it where that worked and
/// only there; a disabled one is forgotten without a request.
pub proof fn law_removing_disarms<E, C: DebugBackend, M: MemoryOps<PhysAddr>>(
    manager: &BreakpointManager<E>,
    pre: Machine<C, M>,
    id: u32,
    post: &BreakpointManager<E>,
    end: Machine<C, M>,
    result: Result<(), Error>,
    held: spec_fn(C) -> Held,
)
    requires
        manager.may_remove(pre, id, post, end, result),
        manager.breakpoints@.contains_key(id) ==> consistent(manager.breakpoints@[id]),
        tells(held),
    ensures
        !manager.breakpoints@.contains_key(id) ==> result == Err::<(), Error>(
            Error::BPNotFound(id),
        ) && untouched(manager, post) && end == pre,
        manager.breakpoints@.contains_key(id) && !manager.breakpoints@[id].enabled ==> result is Ok
            && end == pre,
        manager.breakpoints@.contains_key(id) && manager.breakpoints@[id].enabled ==> {
            &&& result is Ok ==> {
                &&& pre.client.may(disarming(manager.breakpoints@[id]), Ok(()), &end.client)
                &&& held(end.client) == granted(
                    held(pre.client),
                    disarming(manager.breakpoints@[id]),
                )
            }
            &&& result is Err ==> held(end.client) == held(pre.client) && untouched(manager, post)
        },
        result is Ok ==> {
            &&& forall|k: u32| #[trigger]
                post.breakpoints@.contains_key(k) <==> manager.breakpoints@.contains_key(k) && k
                    != id
            &&& forall|k: u32| #[trigger]
                post.breakpoints@.contains_key(k) ==> post.breakpoints@[k]
                    == manager.breakpoints@[k]
        },
{
    if manager.breakpoints@.contains_key(id) && manager.breakpoints@[id].enabled {
        law_taking_out_disarms(pre, manager.breakpoints@[id], result, end, held);
    }
}

/// Disabling and enabling again leaves the debug registers of the transport as
/// they were, if the breakpoint's own was armed with what it watches.
pub proof fn law_watch_is_armed_again<E, C: DebugBackend, M: MemoryOps<PhysAddr>>(
    manager: &BreakpointManager<E>,
    pre: Machine<C, M>,
    id: u32,
    off: &BreakpointManager<E>,
    mid: Machine<C, M>,
    on: &BreakpointManager<E>,
    end: Machine<C, M>,
    hw: HardwareBreakpoint,
    held: spec_fn(C) -> Held,
)
    requires
        tells(held),
        manager.breakpoints@.contains_key(id),
        manager.breakpoints@[id].enabled,
        manager.breakpoints@[id].hardware == Some(hw),
        manager.breakpoints@[id].backend == BreakpointBackend::Hardware,
        held(pre.client).registers.contains_key(hw.slot),
        held(pre.client).registers[hw.slot] == (Armed {
            address: manager.breakpoints@[id].address.0,
            access: hw.access,
            len: hw.len,
        }),
        manager.may_disable(pre, id, off, mid, Ok(())),
        off.may_enable(mid, id, on, end, Ok(())),
    ensures
        !held(mid.client).registers.contains_key(hw.slot),
        held(end.client).registers == held(pre.client).registers,
        on.breakpoints@[id] == manager.breakpoints@[id],
{
    law_disabling_disarms(manager, pre, id, off, mid, Ok(()), held);
    law_enabling_arms(off, mid, id, on, end, Ok(()), held);
    assert(held(end.client).registers =~= held(pre.client).registers);
}

/// Setting a watch arms the lowest debug register that no breakpoint claims, for
/// the address, access and length that were asked for, and registers under the
/// next id what was armed; where it is refused, nothing is armed or registered.
pub proof fn law_setting_a_watch_arms<
    E,
    C: DebugBackend,
    F: FnOnce(&str) -> Result<E, Error>,
>(
    manager: &BreakpointManager<E>,
    pre: C,
    request: WatchRequest<F>,
    post: &BreakpointManager<E>,
    end: C,
    result: Result<u32, Error>,
    held: spec_fn(C) -> Held,
)
    requires
        manager.may_add_hardware(&pre, request, post, &end, result),
        tells(held),
    ensures
        result is Err ==> held(end) == held(pre) && untouched(manager, post),
        result matches Ok(id) ==> {
            &&& id == manager.next_id
            &&& post.next_id == id + 1
            &&& post.breakpoints@.contains_key(id)
            &&& forall|k: u32|
                k != id ==> (#[trigger] post.breakpoints@.contains_key(k)
                    <==> manager.breakpoints@.contains_key(k)) && post.breakpoints@[k]
                    == manager.breakpoints@[k]
            &&& post.breakpoints@[id].id == id
            &&& post.breakpoints@[id].enabled
            &&& !post.breakpoints@[id].temporary
            &&& post.breakpoints@[id].address == request.address
            &&& post.breakpoints@[id].symbol == request.symbol
            &&& post.breakpoints@[id].condition == request.condition
            &&& post.breakpoints@[id].scope is Kernel
            &&& post.breakpoints@[id].backend == BreakpointBackend::Hardware
            &&& post.breakpoints@[id].hardware matches Some(hw) && {
                &&& hw.access == request.access
                &&& hw.len == request.len
                &&& hw.slot < 4
                &&& forall|k: u32| #[trigger]
                    manager.breakpoints@.contains_key(k) ==> (
                    manager.breakpoints@[k].hardware matches Some(other) ==> other.slot != hw.slot)
                &&& forall|lower: u8| lower < hw.slot ==> #[trigger] claims(manager, lower)
                &&& pre.may(
                    BackendCall::SetHardware {
                        slot: hw.slot,
                        address: request.address.0,
                        access: request.access,
                        len: request.len,
                    },
                    Ok(()),
                    &end,
                )
                &&& held(end).int3s == held(pre).int3s
                &&& held(end).notes == held(pre).notes
                &&& held(end).registers == held(pre).registers.insert(
                    hw.slot,
                    Armed {
                        address: request.address.0,
                        access: request.access,
                        len: request.len,
                    },
                )
            }
            &&& request.len == 1 || request.len == 2 || request.len == 4 || request.len == 8
            &&& request.access is Execute ==> request.len == 1
            &&& request.address.0 as int % request.len as int == 0
            &&& pre.may_watch(true)
        },
{
    let compiled = choose|compiled: Result<Option<Arc<E>>, Error>|
        {
            &&& #[trigger] BreakpointManager::<E>::may_compile(
                text_opt(request.condition),
                request.parse,
                compiled,
            )
            &&& match compiled {
                Err(e) => {
                    &&& result == Err::<u32, Error>(e)
                    &&& manager.unchanged(post)
                    &&& end == pre
                },
                Ok(expr) => true,
            }
            &&& compiled is Ok ==> exists|supported: bool|
                {
                    &&& #[trigger] pre.may_watch(supported)
                    &&& if !supported {
                        &&& result == Err::<u32, Error>(Error::NotSupported)
                        &&& manager.unchanged(post)
                        &&& end == pre
                    } else if !crate::backend::watchable(
                        request.access,
                        request.len,
                        request.address.0,
                    ) {
                        &&& result is Err
                        &&& manager.unchanged(post)
                        &&& end == pre
                    } else if manager.slots_exhausted() {
                        &&& result is Err
                        &&& manager.unchanged(post)
                        &&& end == pre
                    } else {
                        manager.may_arm(&pre, request, compiled->Ok_0, post, &end, result)
                    }
                }
        };
    if result is Ok || held(end) != held(pre) || !manager.unchanged(post) {
        let expr = compiled->Ok_0;
        assert(manager.may_arm(&pre, request, expr, post, &end, result));
        let (slot, reply) = choose|slot: u8, reply: Result<(), Error>|
            {
                &&& #[trigger] manager.lowest_free(slot)
                &&& #[trigger] pre.may(
                    BackendCall::SetHardware {
                        slot,
                        address: request.address.0,
                        access: request.access,
                        len: request.len,
                    },
                    reply,
                    &end,
                )
                &&& match reply {
                    Err(e) => result == Err::<u32, Error>(e) && manager.unchanged(post),
                    Ok(_) => {
                        &&& result == Ok::<u32, Error>(manager.next_id)
                        &&& post.next_id == manager.next_id + 1
                        &&& post.breakpoints@ == manager.breakpoints@.insert(
                            manager.next_id,
                            Breakpoint {
                                id: manager.next_id,
                                address: request.address,
                                enabled: true,
                                symbol: request.symbol,
                                scope: BreakpointScope::Kernel,
                                condition: request.condition,
                                condition_expr: expr,
                                temporary: false,
                                hardware: Some(
                                    HardwareBreakpoint {
                                        access: request.access,
                                        len: request.len,
                                        slot,
                                    },
                                ),
                                backend: BreakpointBackend::Hardware,
                            },
                        )
                    },
                }
            };
        if reply is Ok {
            assert(reply->Ok_0 == ());
            assert forall|k: u32| #[trigger] manager.breakpoints@.contains_key(k) implies (
            manager.breakpoints@[k].hardware matches Some(other) ==> other.slot != slot) by {
                assert(!manager.slot_taken(slot));
            }
            assert forall|lower: u8| lower < slot implies #[trigger] claims(manager, lower) by {
                assert(manager.slot_taken(lower));
            }
        }
    }
}

/// A watch is refused for one of these reasons and no other: its condition does
/// not parse, the transport has no debug registers to offer, the length or the
/// alignment is not that of a debug register, all four are claimed, or the
/// transport refuses to arm the one that is free; and each refusal says which.
pub proof fn law_a_watch_is_refused_for_a_reason<
    E,
    C: DebugBackend,
    F: FnOnce(&str) -> Result<E, Error>,
>(
    manager: &BreakpointManager<E>,
    pre: C,
    request: WatchRequest<F>,
    post: &BreakpointManager<E>,
    end: C,
    error: Error,
)
    requires
        manager.may_add_hardware(&pre, request, post, &end, Err(error)),
    ensures
        (request.condition matches Some(source) && exists|s: &str| #[trigger]
            call_ensures(request.parse, (s,), Err(error)) && s@ == source@) || (pre.may_watch(false)
            && error is NotSupported) || (error is Rsp && !(request.len == 1 || request.len == 2
            || request.len == 4 || request.len == 8)) || (error is Rsp && request.access is Execute
            && request.len != 1) || (error is Rsp && request.len > 0 && request.address.0 as int
            % request.len as int != 0) || (error is Rsp && forall|slot: u8|
            slot < 4 ==> #[trigger] claims(manager, slot)) || exists|
            slot: u8,
        | #[trigger]
            pre.may(
                BackendCall::SetHardware {
                    slot,
                    address: request.address.0,
                    access: request.access,
                    len: request.len,
                },
                Err(error),
                &end,
            ),
{
    let result = Err::<u32, Error>(error);
    if manager.slots_exhausted() {
        assert forall|slot: u8| slot < 4 implies #[trigger] claims(manager, slot) by {
            assert(manager.slot_taken(slot));
        }
    }
    let compiled = choose|compiled: Result<Option<Arc<E>>, Error>|
        {
            &&& #[trigger] BreakpointManager::<E>::may_compile(
                text_opt(request.condition),
                request.parse,
                compiled,
            )
            &&& compiled matches Err(e) ==> e == error
            &&& compiled is Ok ==> exists|supported: bool|
                {
                    &&& #[trigger] pre.may_watch(supported)
                    &&& if !supported {
                        error is NotSupported
                    } else if !crate::backend::watchable(
                        request.access,
                        request.len,
                        request.address.0,
                    ) {
                        error is Rsp
                    } else if manager.slots_exhausted() {
                        error is Rsp
                    } else {
                        manager.may_arm(&pre, request, compiled->Ok_0, post, &end, result)
                    }
                }
        };
}

/// How a code breakpoint is put into the target when it is set: the byte there is
/// read first, from memory as it is; then a kernel breakpoint is one request for an
/// int3 at the address, and a process breakpoint one int3 byte in the memory of the
/// process and, where that worked, a note of it. What is kept is the byte that was
/// read.
pub proof fn law_installing_sets_the_int3<C: DebugBackend, M: MemoryOps<PhysAddr>>(
    pre: Machine<C, M>,
    address: VirtAddr,
    scope: BreakpointScope,
    result: Result<BreakpointBackend, Error>,
    end: Machine<C, M>,
    held: spec_fn(C) -> Held,
)
    requires
        may_install(pre, address, scope, result, end),
        tells(held),
    ensures
        result is Err ==> held(end.client) == held(pre.client),
        result matches Ok(backend) ==> {
            &&& held(end.client).registers == held(pre.client).registers
            &&& match scope {
                BreakpointScope::Kernel => {
                    &&& backend is Kernel
                    &&& pre.client.may(BackendCall::SetBreakpoint(address.0), Ok(()), &end.client)
                    &&& held(end.client).int3s == held(pre.client).int3s.insert(address.0)
                    &&& held(end.client).notes == held(pre.client).notes
                    &&& space_of(&pre.target, pre.target.current_dtb).may_read(
                        address,
                        zeroes(1),
                        seq![backend->Kernel_original_byte],
                        Ok(()),
                    )
                },
                BreakpointScope::Process { dtb, .. } => {
                    &&& backend is GuestMemoryPatch
                    &&& pre.client.may(BackendCall::NoteInstalled(address.0), Ok(()), &end.client)
                    &&& held(end.client).notes == held(pre.client).notes.insert(address.0)
                    &&& held(end.client).int3s == held(pre.client).int3s
                    &&& AddressSpace::may_write(
                        pre.target.phys,
                        dtb,
                        address,
                        seq![0xCCu8],
                        Ok(()),
                        end.target.phys,
                    )
                    &&& space_of(&pre.target, dtb).may_read(
                        address,
                        zeroes(1),
                        seq![backend->GuestMemoryPatch_original_byte],
                        Ok(()),
                    )
                },
            }
        },
        end.target.current_dtb == pre.target.current_dtb,
        end.target.current_process_info == pre.target.current_process_info,
        end.target.kernel_modules == pre.target.kernel_modules,
{
    let dtb = crate::gdb::install::scope_dtb(&pre.target, scope);
    let (byte, got) = choose|byte: Seq<u8>, got: Result<(), Error>|
        {
            &&& #[trigger] space_of(&pre.target, dtb).may_read(address, zeroes(1), byte, got)
            &&& byte.len() == 1
            &&& match got {
                Err(e) => result == Err::<BreakpointBackend, Error>(e) && end == pre,
                Ok(_) => may_put_int3(pre, address, scope, byte[0], result, end),
            }
        };
    if got is Ok {
        assert(got->Ok_0 == ());
        assert(byte =~= seq![byte[0]]);
        match scope {
            BreakpointScope::Kernel => {
                let reply = choose|reply: Result<(), Error>|
                    {
                        &&& #[trigger] may_reach(
                            pre,
                            BackendCall::SetBreakpoint(address.0),
                            reply,
                            end,
                        )
                        &&& result == (match reply {
                            Ok(_) => Ok::<BreakpointBackend, Error>(
                                BreakpointBackend::Kernel { original_byte: byte[0] },
                            ),
                            Err(e) => Err(e),
                        })
                    };
                if reply is Ok {
                    assert(reply->Ok_0 == ());
                }
            },
            BreakpointScope::Process { dtb, .. } => {
                let put = choose|put: Result<(), Error>|
                    {
                        &&& #[trigger] may_put(
                            pre,
                            dtb,
                            address,
                            0xCC,
                            BackendCall::NoteInstalled(address.0),
                            put,
                            end,
                        )
                        &&& result == (match put {
                            Ok(_) => Ok::<BreakpointBackend, Error>(
                                BreakpointBackend::GuestMemoryPatch { original_byte: byte[0] },
                            ),
                            Err(e) => Err(e),
                        })
                    };
                if put is Ok {
                    assert(put->Ok_0 == ());
                }
            },
        }
    }
}

/// Setting a code breakpoint puts it into the target, for the attached process or,
/// where there is none, for the kernel, and registers under the next id what was
/// asked for; where it is refused, nothing is registered and the transport holds
/// what it held.
pub proof fn law_setting_a_code_breakpoint<
    E,
    C: DebugBackend,
    M: MemoryOps<PhysAddr>,
    F: FnOnce(&str) -> Result<E, Error>,
    R: FnOnce(VirtAddr) -> Result<Vec<u8>, Error>,
>(
    manager: &BreakpointManager<E>,
    pre: Machine<C, M>,
    request: CodeRequest<F, R>,
    post: &BreakpointManager<E>,
    end: Machine<C, M>,
    result: Result<u32, Error>,
    held: spec_fn(C) -> Held,
)
    requires
        manager.may_add_code(pre, request, post, end, result),
        tells(held),
    ensures
        result is Err ==> held(end.client) == held(pre.client) && untouched(manager, post),
        result matches Ok(id) ==> {
            let bp = post.breakpoints@[id];
            &&& id == manager.next_id
            &&& post.next_id == id + 1
            &&& post.breakpoints@.contains_key(id)
            &&& forall|k: u32|
                k != id ==> (#[trigger] post.breakpoints@.contains_key(k)
                    <==> manager.breakpoints@.contains_key(k)) && post.breakpoints@[k]
                    == manager.breakpoints@[k]
            &&& bp.id == id
            &&& bp.enabled
            &&& bp.hardware is None
            &&& bp.temporary == request.temporary
            &&& bp.address == request.address
            &&& bp.symbol == request.symbol
            &&& bp.condition == request.condition
            &&& request.condition is None ==> bp.condition_expr is None
            &&& request.condition matches Some(source) ==> exists|s: &str, expr: E|
                #[trigger] call_ensures(request.parse, (s,), Ok(expr)) && s@ == source@
                    && (bp.condition_expr matches Some(kept) && *kept == expr)
            &&& match pre.target.current_process_info {
                None => bp.scope is Kernel && bp.backend is Kernel && held(end.client).int3s
                    == held(pre.client).int3s.insert(request.address.0),
                Some(info) => bp.scope == (BreakpointScope::Process {
                    pid: info.pid,
                    dtb: info.dtb,
                    name: info.name,
                }) && bp.backend is GuestMemoryPatch && held(end.client).notes == held(
                    pre.client,
                ).notes.insert(request.address.0),
            }
            &&& may_install(pre, request.address, bp.scope, Ok(bp.backend), end)
            &&& may_validate(&pre.target, request.address, request.read_image, Ok(()))
            &&& exists|caps: Seq<CapabilityStatus>, i: int|
                #![trigger pre.client.may_report(caps), caps[i]]
                pre.client.may_report(caps) && 0 <= i < caps.len() && caps[i].supported
                    && caps[i].capability == (if pre.target.current_process_info is None {
                    DebugCapability::KernelBreakpoints
                } else {
                    DebugCapability::UserModeBreakpoints
                })
        },
{
    let compiled = choose|compiled: Result<Option<Arc<E>>, Error>|
        {
            &&& #[trigger] BreakpointManager::<E>::may_compile(
                text_opt(request.condition),
                request.parse,
                compiled,
            )
            &&& match compiled {
                Err(e) => {
                    &&& result == Err::<u32, Error>(e)
                    &&& manager.unchanged(post)
                    &&& end == pre
                },
                Ok(expr) => manager.may_place_code(pre, request, expr, post, end, result),
            }
        };
    if compiled is Ok {
        let expr = compiled->Ok_0;
        let (scope, caps) = choose|scope: BreakpointScope, caps: Seq<CapabilityStatus>|
            {
                &&& #[trigger] is_context_scope(&pre.target, scope)
                &&& #[trigger] pre.client.may_report(caps)
                &&& if !BreakpointManager::<E>::scope_supported(scope, caps) {
                    &&& result == Err::<u32, Error>(Error::NotSupported)
                    &&& manager.unchanged(post)
                    &&& end == pre
                } else {
                    exists|verdict: Result<(), Error>|
                        {
                            &&& #[trigger] may_validate(
                                &pre.target,
                                request.address,
                                request.read_image,
                                verdict,
                            )
                            &&& match verdict {
                                Err(e) => {
                                    &&& result == Err::<u32, Error>(e)
                                    &&& manager.unchanged(post)
                                    &&& end == pre
                                },
                                Ok(_) => manager.may_commit_code(
                                    pre,
                                    request,
                                    expr,
                                    scope,
                                    post,
                                    end,
                                    result,
                                ),
                            }
                        }
                }
            };
        if BreakpointManager::<E>::scope_supported(scope, caps) {
            let verdict = choose|verdict: Result<(), Error>|
                {
                    &&& #[trigger] may_validate(
                        &pre.target,
                        request.address,
                        request.read_image,
                        verdict,
                    )
                    &&& match verdict {
                        Err(e) => {
                            &&& result == Err::<u32, Error>(e)
                            &&& manager.unchanged(post)
                            &&& end == pre
                        },
                        Ok(_) => manager.may_commit_code(
                            pre,
                            request,
                            expr,
                            scope,
                            post,
                            end,
                            result,
                        ),
                    }
                };
            if verdict is Ok {
                assert(verdict->Ok_0 == ());
                let installed = choose|installed: Result<BreakpointBackend, Error>|
                    {
                        &&& #[trigger] may_install(pre, request.address, scope, installed, end)
                        &&& match installed {
                            Err(e) => result == Err::<u32, Error>(e) && manager.unchanged(post),
                            Ok(backend) => {
                                &&& result == Ok::<u32, Error>(manager.next_id)
                                &&& post.next_id == manager.next_id + 1
                                &&& post.breakpoints@ == manager.breakpoints@.insert(
                                    manager.next_id,
                                    Breakpoint {
                                        id: manager.next_id,
                                        address: request.address,
                                        enabled: true,
                                        symbol: request.symbol,
                                        scope,
                                        condition: request.condition,
                                        condition_expr: expr,
                                        temporary: request.temporary,
                                        hardware: None,
                                        backend,
                                    },
                                )
                            },
                        }
                    };
                law_installing_sets_the_int3(pre, request.address, scope, installed, end, held);
                if result is Ok {
                    let i = choose|i: int|
                        0 <= i < caps.len() && (#[trigger] caps[i]).supported && caps[i].capability
                            == (if pre.target.current_process_info is None {
                            DebugCapability::KernelBreakpoints
                        } else {
                            DebugCapability::UserModeBreakpoints
                        });
                    assert(pre.client.may_report(caps) && 0 <= i < caps.len() && caps[i].supported);
                }
            }
        }
    }
}

/// The armed debug registers stay those of the enabled hardware breakpoints
/// through everything that is done to breakpoints: setting them of either kind,
/// enabling, disabling, removing.
pub proof fn law_registers_stay_in_step<
    E,
    C: DebugBackend,
    M: MemoryOps<PhysAddr>,
    F: FnOnce(&str) -> Result<E, Error>,
    R: FnOnce(VirtAddr) -> Result<Vec<u8>, Error>,
    G: FnOnce(&str) -> Result<E, Error>,
>(
    manager: &BreakpointManager<E>,
    pre: Machine<C, M>,
    code: CodeRequest<F, R>,
    watch: WatchRequest<G>,
    id: u32,
    post: &BreakpointManager<E>,
    end: Machine<C, M>,
    set: Result<u32, Error>,
    changed: Result<(), Error>,
    held: spec_fn(C) -> Held,
)
    requires
        manager.well_formed(),
        forall|k: u32| #[trigger]
            manager.breakpoints@.contains_key(k) ==> consistent(manager.breakpoints@[k]),
        tells(held),
        in_step(manager, held(pre.client).registers),
        manager.may_add_code(pre, code, post, end, set) || manager.may_add_hardware(
            &pre.client,
            watch,
            post,
            &end.client,
            set,
        ) || manager.may_enable(pre, id, post, end, changed) || manager.may_disable(
            pre,
            id,
            post,
            end,
            changed,
        ) || manager.may_remove(pre, id, post, end, changed),
    ensures
        in_step(post, held(end.client).registers),
        forall|k: u32| #[trigger]
            post.breakpoints@.contains_key(k) ==> consistent(post.breakpoints@[k]),
{
    let before = held(pre.client).registers;
    let after = held(end.client).registers;
    if manager.may_add_code(pre, code, post, end, set) {
        law_setting_a_code_breakpoint(manager, pre, code, post, end, set, held);
        if set is Ok {
            law_installing_sets_the_int3(
                pre,
                code.address,
                post.breakpoints@[set->Ok_0].scope,
                Ok(post.breakpoints@[set->Ok_0].backend),
                end,
                held,
            );
            assert(after == before);
            assert(!manager.breakpoints@.contains_key(set->Ok_0));
            lemma_step_kept(manager, before, post, set->Ok_0);
        }
    } else if manager.may_add_hardware(&pre.client, watch, post, &end.client, set) {
        law_setting_a_watch_arms(manager, pre.client, watch, post, end.client, set, held);
        if set is Ok {
            assert(!manager.breakpoints@.contains_key(set->Ok_0));
            lemma_step_armed(manager, before, post, set->Ok_0, after);
        }
    } else if manager.may_enable(pre, id, post, end, changed) {
        law_enabling_arms(manager, pre, id, post, end, changed, held);
        if changed is Ok && manager.breakpoints@.contains_key(id)
            && !manager.breakpoints@[id].enabled {
            if manager.breakpoints@[id].hardware is Some {
                lemma_step_armed(manager, before, post, id, after);
            } else {
                lemma_step_kept(manager, before, post, id);
            }
        }
    } else if manager.may_disable(pre, id, post, end, changed) {
        law_disabling_disarms(manager, pre, id, post, end, changed, held);
        if changed is Ok && manager.breakpoints@.contains_key(id)
            && manager.breakpoints@[id].enabled {
            if manager.breakpoints@[id].hardware is Some {
                lemma_step_disarmed(manager, before, post, id, after);
            } else {
                lemma_step_kept(manager, before, post, id);
            }
        }
    } else {
        law_removing_disarms(manager, pre, id, post, end, changed, held);
        if changed is Ok {
            if manager.breakpoints@[id].enabled && manager.breakpoints@[id].hardware is Some {
                lemma_step_disarmed(manager, before, post, id, after);
            } else {
                lemma_step_kept(manager, before, post, id);
            }
        }
    }
}

/// A change of an entry that claims no armed register, before or after.
proof fn lemma_step_kept<E>(
    manager: &BreakpointManager<E>,
    registers: Map<u8, Armed>,
    post: &BreakpointManager<E>,
    id: u32,
)
    requires
        in_step(manager, registers),
        forall|k: u32|
            k != id ==> (#[trigger] post.breakpoints@.contains_key(k)
                <==> manager.breakpoints@.contains_key(k)),
        forall|k: u32|
            k != id && #[trigger] post.breakpoints@.contains_key(k) ==> post.breakpoints@[k]
                == manager.breakpoints@[k],
        manager.breakpoints@.contains_key(id) ==> manager.breakpoints@[id].hardware is None
            || !manager.breakpoints@[id].enabled,
        post.breakpoints@.contains_key(id) ==> post.breakpoints@[id].hardware is None,
    ensures
        in_step(post, registers),
{
    assert forall|k: u32| #[trigger]
        post.breakpoints@.contains_key(k) && post.breakpoints@[k].enabled implies (
    post.breakpoints@[k].hardware matches Some(hw) ==> registers.contains_key(hw.slot)
        && registers[hw.slot] == (Armed {
        address: post.breakpoints@[k].address.0,
        access: hw.access,
        len: hw.len,
    })) by {
        if k != id {
            assert(manager.breakpoints@.contains_key(k));
        }
    }
    assert forall|slot: u8| #[trigger] registers.contains_key(slot) implies exists|k: u32|
        #[trigger] post.breakpoints@.contains_key(k) && post.breakpoints@[k].enabled && (
        post.breakpoints@[k].hardware matches Some(hw) && hw.slot == slot) by {
        let k = choose|k: u32| #[trigger]
            manager.breakpoints@.contains_key(k) && manager.breakpoints@[k].enabled && (
            manager.breakpoints@[k].hardware matches Some(hw) && hw.slot == slot);
        assert(k != id);
        assert(post.breakpoints@.contains_key(k));
    }
}

/// A register armed for an entry that becomes enabled.
proof fn lemma_step_armed<E>(
    manager: &BreakpointManager<E>,
    registers: Map<u8, Armed>,
    post: &BreakpointManager<E>,
    id: u32,
    after: Map<u8, Armed>,
)
    requires
        in_step(manager, registers),
        post.breakpoints@.contains_key(id),
        post.breakpoints@[id].enabled,
        post.breakpoints@[id].hardware is Some,
        forall|k: u32|
            k != id ==> (#[trigger] post.breakpoints@.contains_key(k)
                <==> manager.breakpoints@.contains_key(k)),
        forall|k: u32|
            k != id && #[trigger] post.breakpoints@.contains_key(k) ==> post.breakpoints@[k]
                == manager.breakpoints@[k],
        manager.breakpoints@.contains_key(id) ==> !manager.breakpoints@[id].enabled,
        forall|k: u32| #[trigger]
            manager.breakpoints@.contains_key(k) && k != id ==> (
            manager.breakpoints@[k].hardware matches Some(other) ==> other.slot
                != post.breakpoints@[id].hardware->0.slot) || manager.holds_slot_of(k, id),
        manager.well_formed(),
        after == registers.insert(
            post.breakpoints@[id].hardware->0.slot,
            Armed {
                address: post.breakpoints@[id].address.0,
                access: post.breakpoints@[id].hardware->0.access,
                len: post.breakpoints@[id].hardware->0.len,
            },
        ),
    ensures
        in_step(post, after),
{
    let mine = post.breakpoints@[id].hardware->0.slot;
    assert forall|k: u32| #[trigger]
        post.breakpoints@.contains_key(k) && post.breakpoints@[k].enabled implies (
    post.breakpoints@[k].hardware matches Some(hw) ==> after.contains_key(hw.slot)
        && after[hw.slot] == (Armed {
        address: post.breakpoints@[k].address.0,
        access: hw.access,
        len: hw.len,
    })) by {
        if k != id {
            assert(manager.breakpoints@.contains_key(k));
            if manager.holds_slot_of(k, id) {
                assert(k == id);
            }
        }
    }
    assert forall|slot: u8| #[trigger] after.contains_key(slot) implies exists|k: u32|
        #[trigger] post.breakpoints@.contains_key(k) && post.breakpoints@[k].enabled && (
        post.breakpoints@[k].hardware matches Some(hw) && hw.slot == slot) by {
        if slot == mine {
            assert(post.breakpoints@.contains_key(id));
        } else {
            assert(registers.contains_key(slot));
            let k = choose|k: u32| #[trigger]
                manager.breakpoints@.contains_key(k) && manager.breakpoints@[k].enabled && (
                manager.breakpoints@[k].hardware matches Some(hw) && hw.slot == slot);
            assert(k != id);
            assert(post.breakpoints@.contains_key(k));
        }
    }
}

/// A register cleared for an entry that is disabled or gone.
proof fn lemma_step_disarmed<E>(
    manager: &BreakpointManager<E>,
    registers: Map<u8, Armed>,
    post: &BreakpointManager<E>,
    id: u32,
    after: Map<u8, Armed>,
)
    requires
        in_step(manager, registers),
        manager.well_formed(),
        manager.breakpoints@.contains_key(id),
        manager.breakpoints@[id].enabled,
        manager.breakpoints@[id].hardware is Some,
        forall|k: u32|
            k != id ==> (#[trigger] post.breakpoints@.contains_key(k)
                <==> manager.breakpoints@.contains_key(k)),
        forall|k: u32|
            k != id && #[trigger] post.breakpoints@.contains_key(k) ==> post.breakpoints@[k]
                == manager.breakpoints@[k],
        post.breakpoints@.contains_key(id) ==> !post.breakpoints@[id].enabled,
        after == registers.remove(manager.breakpoints@[id].hardware->0.slot),
    ensures
        in_step(post, after),
{
    let mine = manager.breakpoints@[id].hardware->0.slot;
    assert forall|k: u32| #[trigger]
        post.breakpoints@.contains_key(k) && post.breakpoints@[k].enabled implies (
    post.breakpoints@[k].hardware matches Some(hw) ==> after.contains_key(hw.slot)
        && after[hw.slot] == (Armed {
        address: post.breakpoints@[k].address.0,
        access: hw.access,
        len: hw.len,
    })) by {
        assert(k != id);
        assert(manager.breakpoints@.contains_key(k));
        if post.breakpoints@[k].hardware is Some && post.breakpoints@[k].hardware->0.slot == mine {
            assert(manager.holds_slot_of(k, id));
        }
    }
    assert forall|slot: u8| #[trigger] after.contains_key(slot) implies exists|k: u32|
        #[trigger] post.breakpoints@.contains_key(k) && post.breakpoints@[k].enabled && (
        post.breakpoints@[k].hardware matches Some(hw) && hw.slot == slot) by {
        assert(registers.contains_key(slot));
        let k = choose|k: u32| #[trigger]
            manager.breakpoints@.contains_key(k) && manager.breakpoints@[k].enabled && (
            manager.breakpoints@[k].hardware matches Some(hw) && hw.slot == slot);
        assert(k != id);
        assert(post.breakpoints@.contains_key(k));
    }
}

} // verus!
