//! What is said of a breakpoint that is refused.
use crate::backend::DebugBackend;
use crate::error::Error;
use crate::gdb::breakpoints::{Breakpoint, BreakpointBackend, BreakpointManager};
use crate::gdb::install::{
    install_existing_breakpoint, is_first_module, judge_sections, page_refusal, space_of,
    validate_breakpoint_target,
};
use crate::gdb::target_laws::first_holding;
use crate::memory::{MemoryOps, TranslationResult};
use crate::pe::{executable_at, Section};
use crate::target::{ModuleInfo, Target};
use crate::text::hex_prefixed;
use crate::types::{Dtb, PhysAddr, VirtAddr};
use vstd::prelude::*;
use vstd::string::*;

verus! {

/// Whether `r` is a failure with these words.
pub open spec fn says<T>(r: Result<T, Error>, words: Seq<char>) -> bool {
    r matches Err(Error::Rsp(s)) && s@ == words
}

/// A debug register is handed out while one of the four is free, the lowest one first;
/// with none left, that is said.
pub proof fn law_registers_run_out<E>(manager: &BreakpointManager<E>, r: Result<u8, Error>)
    requires
        call_ensures(BreakpointManager::<E>::free_hardware_slot, (manager,), r),
    ensures
        r is Err <==> forall|slot: u8| slot < 4 ==> #[trigger] manager.slot_taken(slot),
        r is Err ==> says(r, "all "@ + seq!['4'] + " hardware breakpoint slots are in use"@),
        r matches Ok(slot) ==> slot < 4 && !manager.slot_taken(slot) && forall|lower: u8|
            lower < slot ==> #[trigger] manager.slot_taken(lower),
{
    reveal_with_fuel(crate::text::digits, 2);
    assert(crate::text::dec(4) =~= seq!['4']);
}

/// Only a guest memory patch that is enabled is taken out of another page table; a
/// breakpoint of another kind is refused, an unknown one not found, and then nothing is
/// changed.
pub proof fn law_only_patches_leave_another_space<E, C: DebugBackend, M: MemoryOps<PhysAddr>>(
    manager: &mut BreakpointManager<E>,
    client: &mut C,
    target: &mut Target<M>,
    id: u32,
    dtb: Dtb,
    r: Result<(), Error>,
)
    requires
        call_ensures(
            BreakpointManager::<E>::disable_guest_memory_patch_in_address_space::<C, M>,
            (manager, client, target, id, dtb),
            r,
        ),
    ensures
        !old(manager).breakpoints@.contains_key(id) ==> r == Err::<(), Error>(Error::BPNotFound(id)),
        old(manager).breakpoints@.contains_key(id) && old(manager).breakpoints@[id].enabled ==> {
            &&& old(manager).breakpoints@[id].backend is Kernel ==> says(
                r,
                "cannot address-space-disable a kernel breakpoint"@,
            )
            &&& old(manager).breakpoints@[id].backend is Hardware ==> says(
                r,
                "cannot address-space-disable a hardware breakpoint"@,
            )
        },
        old(manager).breakpoints@.contains_key(id) && !old(manager).breakpoints@[id].enabled
            ==> r is Ok,
        !(old(manager).breakpoints@.contains_key(id) && old(manager).breakpoints@[id].enabled && old(
            manager,
        ).breakpoints@[id].backend is GuestMemoryPatch) ==> {
            &&& final(manager).breakpoints@ == old(manager).breakpoints@
            &&& *final(client) == *old(client)
            &&& *final(target) == *old(target)
        },
        r is Err ==> final(manager).breakpoints@ == old(manager).breakpoints@,
{
}

/// What is said of a breakpoint that cannot be put back: a debug register without its
/// parameters, or a backend that is not that of the scope.
pub proof fn law_mismatches_are_told<M: MemoryOps<PhysAddr>, C: DebugBackend, E>(
    client: &mut C,
    target: &mut Target<M>,
    bp: &Breakpoint<E>,
    r: Result<(), Error>,
)
    requires
        call_ensures(install_existing_breakpoint::<M, C, E>, (client, target, bp), r),
    ensures
        bp.backend == BreakpointBackend::Hardware && bp.hardware is None ==> says(
            r,
            "hardware breakpoint missing parameters"@,
        ),
        bp.scope is Kernel && bp.backend is GuestMemoryPatch ==> says(
            r,
            "breakpoint backend/scope mismatch"@,
        ),
        bp.scope is Process && bp.backend is Kernel ==> says(
            r,
            "breakpoint backend/scope mismatch"@,
        ),
{
}

/// An address on a page that cannot be executed is refused by its number and the name of
/// the module around it, where there is one.
pub proof fn law_pages_are_judged<
    M: MemoryOps<PhysAddr>,
    R: FnOnce(VirtAddr) -> Result<Vec<u8>, Error>,
>(target: &Target<M>, address: VirtAddr, read_image: R, i: int, r: Result<(), Error>)
    requires
        call_ensures(validate_breakpoint_target::<M, R>, (target, address, read_image), r),
        forall|found: TranslationResult| #[trigger]
            space_of(target, target.current_dtb).may_translate(address, found)
                ==> found is Ok && found->Ok_0 is Some && found->Ok_0->0.nx,
    ensures
        first_holding(target, address, i) ==> says(
            r,
            "refusing breakpoint at "@ + hex_prefixed(address.0 as nat)
                + ": target page is non-executable ("@
                + target.kernel_modules->0@[i].short_name@ + ")"@,
        ),
        (forall|j: int| !#[trigger] first_holding(target, address, j)) ==> says(
            r,
            "refusing breakpoint at "@ + hex_prefixed(address.0 as nat)
                + ": target page is non-executable ("@ + "unknown"@ + ")"@,
        ),
{
    let (found, module) = choose|found: TranslationResult, module: Option<usize>|
        {
            &&& #[trigger] space_of(target, target.current_dtb).may_translate(address, found)
            &&& #[trigger] is_first_module(target.kernel_modules, address, module)
            &&& found matches Ok(Some(t)) && (t.nx ==> says(
                r,
                page_refusal(
                    address,
                    match module {
                        Some(m) => target.kernel_modules->0@[m as int].short_name@,
                        None => "unknown"@,
                    },
                ),
            ))
        };
    if let Some(m) = module {
        assert(first_holding(target, address, m as int));
    }
}

/// An address outside the executable sections of its module is refused by its number and
/// the module's name.
pub proof fn law_sections_are_judged(
    address: VirtAddr,
    module: &ModuleInfo,
    rows: Vec<Section>,
    r: Result<(), Error>,
)
    requires
        call_ensures(judge_sections, (address, module, Ok::<Vec<Section>, String>(rows)), r),
        module.base_address.0 <= address.0,
    ensures
        executable_at(rows@, ((address.0 - module.base_address.0) % 0x1_0000_0000) as u32) ==> r is Ok,
        !executable_at(rows@, ((address.0 - module.base_address.0) % 0x1_0000_0000) as u32) ==> says(
            r,
            "refusing breakpoint at "@ + hex_prefixed(address.0 as nat)
                + ": address falls in non-executable section of "@ + module.short_name@,
        ),
{
}

} // verus!
