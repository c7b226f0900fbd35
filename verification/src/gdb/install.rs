//! Putting a breakpoint into the target and taking it out again.
use crate::backend::{BackendCall, DebugBackend};
use crate::error::Error;
use crate::gdb::breakpoints::{Breakpoint, BreakpointBackend, BreakpointScope};
use crate::memory::{zero_buffer, zeroes, AddressSpace, MemoryOps, TranslationResult};
use crate::pe::{
    executable_at, header_error, in_executable_section, section_table, sections, Section,
};
use crate::target::{machine, same_but_memory, Machine, ModuleInfo, Target};
use crate::text::{hex_prefixed, hexadecimal_prefixed, text};
use crate::types::{Dtb, PhysAddr, VirtAddr};
use vstd::prelude::*;
use vstd::string::*;

verus! {

/// The int3 instruction.
pub const INT3: u8 = 0xCC;

/// Whether a result is a refusal with this text.
pub open spec fn refused<T>(r: Result<T, Error>, message: Seq<char>) -> bool {
    r matches Err(Error::Rsp(m)) && m@ == message
}

/// The scope that a new breakpoint gets: the attached process, or the kernel
/// when there is none.
pub open spec fn is_context_scope<M>(target: &Target<M>, scope: BreakpointScope) -> bool {
    match target.current_process_info {
        Some(info) => scope == (BreakpointScope::Process {
            pid: info.pid,
            dtb: info.dtb,
            name: info.name,
        }),
        None => scope is Kernel,
    }
}

/// The scope that a new breakpoint gets.
pub fn scope_for_current_context<M>(debugger: &Target<M>) -> (r: BreakpointScope)
    ensures
        is_context_scope(debugger, r),
{
    match &debugger.current_process_info {
        Some(info) => BreakpointScope::Process {
            pid: info.pid,
            dtb: info.dtb,
            name: info.name.clone(),
        },
        None => BreakpointScope::Kernel,
    }
}

/// The virtual memory of the target under one page table.
pub open spec fn space_of<M: MemoryOps<PhysAddr>>(target: &Target<M>, dtb: Dtb) -> AddressSpace<
    '_,
    M,
> {
    AddressSpace { backend: &target.phys, dtb }
}

/// The page table through which a breakpoint of this scope is reached.
pub open spec fn scope_dtb<M>(target: &Target<M>, scope: BreakpointScope) -> Dtb {
    match scope {
        BreakpointScope::Kernel => target.current_dtb,
        BreakpointScope::Process { dtb, .. } => dtb,
    }
}

/// Whether the virtual memory of the target under one page table may take a
/// write of `bytes` and end with `outcome`, so that `pre` becomes `post`.
pub open spec fn may_patch<M: MemoryOps<PhysAddr>>(
    pre: Target<M>,
    dtb: Dtb,
    address: VirtAddr,
    bytes: Seq<u8>,
    outcome: Result<(), Error>,
    post: Target<M>,
) -> bool {
    &&& same_but_memory(pre, post)
    &&& AddressSpace::may_write(pre.phys, dtb, address, bytes, outcome, post.phys)
}

/// Whether a request to the kernel debugger that concerns guest memory may be
/// answered with `reply`, so that `pre` becomes `post`.
pub open spec fn may_reach<M: MemoryOps<PhysAddr>, C: DebugBackend>(
    pre: Machine<C, M>,
    call: BackendCall,
    reply: Result<(), Error>,
    post: Machine<C, M>,
) -> bool {
    &&& pre.client.may(call, reply, &post.client)
    &&& same_but_memory(pre.target, post.target)
}

/// Whether a request to the transport that does not concern guest memory may be
/// answered with `reply`, so that `pre` becomes `post`.
pub open spec fn may_tell<M: MemoryOps<PhysAddr>, C: DebugBackend>(
    pre: Machine<C, M>,
    call: BackendCall,
    reply: Result<(), Error>,
    post: Machine<C, M>,
) -> bool {
    &&& pre.client.may(call, reply, &post.client)
    &&& post.target == pre.target
}

/// Whether patching `byte` in through the page table `dtb` may end with
/// `result`, so that `pre` becomes `post`: a success is noted with `note`.
pub open spec fn may_put<M: MemoryOps<PhysAddr>, C: DebugBackend>(
    pre: Machine<C, M>,
    dtb: Dtb,
    address: VirtAddr,
    byte: u8,
    note: BackendCall,
    result: Result<(), Error>,
    post: Machine<C, M>,
) -> bool {
    &&& may_patch(pre.target, dtb, address, seq![byte], result, post.target)
    &&& match result {
        Err(_) => post.client == pre.client,
        Ok(_) => pre.client.may(note, Ok(()), &post.client),
    }
}

/// Whether installing a new breakpoint at `address` may end with `result`, so
/// that `pre` becomes `post`: the displaced byte is read first, from memory as
/// it is before anything is written; then the int3 is set by the kernel
/// debugger, or patched into the process and noted, and nothing else is done.
pub open spec fn may_install<M: MemoryOps<PhysAddr>, C: DebugBackend>(
    pre: Machine<C, M>,
    address: VirtAddr,
    scope: BreakpointScope,
    result: Result<BreakpointBackend, Error>,
    post: Machine<C, M>,
) -> bool {
    let dtb = scope_dtb(&pre.target, scope);
    exists|byte: Seq<u8>, got: Result<(), Error>|
        {
            &&& #[trigger] space_of(&pre.target, dtb).may_read(address, zeroes(1), byte, got)
            &&& byte.len() == 1
            &&& match got {
                Err(e) => result == Err::<BreakpointBackend, Error>(e) && post == pre,
                Ok(_) => may_put_int3(pre, address, scope, byte[0], result, post),
            }
        }
}

/// What installing a new breakpoint may do once the displaced byte is known.
pub open spec fn may_put_int3<M: MemoryOps<PhysAddr>, C: DebugBackend>(
    pre: Machine<C, M>,
    address: VirtAddr,
    scope: BreakpointScope,
    original_byte: u8,
    result: Result<BreakpointBackend, Error>,
    post: Machine<C, M>,
) -> bool {
    match scope {
        BreakpointScope::Kernel => exists|reply: Result<(), Error>|
            {
                &&& #[trigger] may_reach(pre, BackendCall::SetBreakpoint(address.0), reply, post)
                &&& result == (match reply {
                    Ok(_) => Ok::<BreakpointBackend, Error>(
                        BreakpointBackend::Kernel { original_byte },
                    ),
                    Err(e) => Err(e),
                })
            },
        BreakpointScope::Process { dtb, .. } => exists|put: Result<(), Error>|
            {
                &&& #[trigger] may_put(
                    pre,
                    dtb,
                    address,
                    INT3,
                    BackendCall::NoteInstalled(address.0),
                    put,
                    post,
                )
                &&& result == (match put {
                    Ok(_) => Ok::<BreakpointBackend, Error>(
                        BreakpointBackend::GuestMemoryPatch { original_byte },
                    ),
                    Err(e) => Err(e),
                })
            },
    }
}

/// Writes a byte through the page table `dtb`.
fn put_byte<M: MemoryOps<PhysAddr>>(
    debugger: &mut Target<M>,
    dtb: Dtb,
    address: VirtAddr,
    byte: u8,
) -> (r: Result<(), Error>)
    ensures
        may_patch(*old(debugger), dtb, address, seq![byte], r, *final(debugger)),
{
    let patch: Vec<u8> = vec![byte];
    assert(patch@ =~= seq![byte]);
    AddressSpace::write_bytes(&mut debugger.phys, dtb, address, patch.as_slice())
}

/// Installs a new breakpoint.
pub fn install_breakpoint<M: MemoryOps<PhysAddr>, C: DebugBackend>(
    client: &mut C,
    debugger: &mut Target<M>,
    address: VirtAddr,
    scope: &BreakpointScope,
) -> (r: Result<BreakpointBackend, Error>)
    ensures
        may_install(
            machine(old(client), old(debugger)),
            address,
            *scope,
            r,
            machine(final(client), final(debugger)),
        ),
{
    let ghost pre = machine(client, debugger);
    // Capture the displaced byte before the int3 is written, so display paths can
    // mask it back out (the kernel owns the original byte but never hands it to
    // us)
    let dtb: Dtb = match scope {
        BreakpointScope::Kernel => debugger.current_dtb,
        BreakpointScope::Process { dtb, .. } => *dtb,
    };
    assert(dtb == scope_dtb(&pre.target, *scope));
    let mut original = zero_buffer(1);
    let got = AddressSpace::new(&debugger.phys, dtb).read_bytes(address, original.as_mut_slice());
    assert(space_of(&pre.target, dtb).may_read(address, zeroes(1), original@, got)
        && original@.len() == 1);
    match got {
        Ok(()) => {},
        Err(e) => return Err(e),
    }
    match scope {
        BreakpointScope::Kernel => {
            let reply = client.set_breakpoint(&mut debugger.phys, address.0);
            assert(may_reach(
                pre,
                BackendCall::SetBreakpoint(address.0),
                reply,
                machine(client, debugger),
            ));
            match reply {
                Ok(()) => Ok(BreakpointBackend::Kernel { original_byte: original[0] }),
                Err(e) => Err(e),
            }
        },
        BreakpointScope::Process { .. } => {
            let put = put_byte(debugger, dtb, address, INT3);
            match put {
                Ok(()) => {
                    // The kernel doesn't know about this breakpoint (it was
                    // patched in directly), so the backend needs to be told
                    // separately for managed-breakpoint bookkeeping at stop
                    // time.
                    client.note_breakpoint_installed(address.0);
                },
                Err(_) => {},
            }
            assert(may_put(
                pre,
                dtb,
                address,
                INT3,
                BackendCall::NoteInstalled(address.0),
                put,
                machine(client, debugger),
            ));
            match put {
                Ok(()) => Ok(BreakpointBackend::GuestMemoryPatch { original_byte: original[0] }),
                Err(e) => Err(e),
            }
        },
    }
}

/// Whether re-installing a known breakpoint may end with `result`, so that `pre`
/// becomes `post`.
pub open spec fn may_install_existing<M: MemoryOps<PhysAddr>, C: DebugBackend, E>(
    pre: Machine<C, M>,
    bp: &Breakpoint<E>,
    result: Result<(), Error>,
    post: Machine<C, M>,
) -> bool {
    match (bp.scope, bp.backend) {
        (_, BreakpointBackend::Hardware) => match bp.hardware {
            Some(hw) => may_tell(
                pre,
                BackendCall::SetHardware {
                    slot: hw.slot,
                    address: bp.address.0,
                    access: hw.access,
                    len: hw.len,
                },
                result,
                post,
            ),
            None => refused(result, "hardware breakpoint missing parameters"@) && post == pre,
        },
        (BreakpointScope::Kernel, BreakpointBackend::Kernel { .. }) => may_reach(
            pre,
            BackendCall::SetBreakpoint(bp.address.0),
            result,
            post,
        ),
        (
            BreakpointScope::Process { dtb, .. },
            BreakpointBackend::GuestMemoryPatch { .. },
        ) => may_put(
            pre,
            dtb,
            bp.address,
            INT3,
            BackendCall::NoteInstalled(bp.address.0),
            result,
            post,
        ),
        _ => refused(result, "breakpoint backend/scope mismatch"@) && post == pre,
    }
}

/// Installs a known breakpoint again.
pub fn install_existing_breakpoint<M: MemoryOps<PhysAddr>, C: DebugBackend, E>(
    client: &mut C,
    debugger: &mut Target<M>,
    bp: &Breakpoint<E>,
) -> (r: Result<(), Error>)
    ensures
        may_install_existing(
            machine(old(client), old(debugger)),
            bp,
            r,
            machine(final(client), final(debugger)),
        ),
{
    match (&bp.scope, &bp.backend) {
        (BreakpointScope::Kernel, BreakpointBackend::Kernel { .. }) => client.set_breakpoint(
            &mut debugger.phys,
            bp.address.0,
        ),
        (BreakpointScope::Process { dtb, .. }, BreakpointBackend::GuestMemoryPatch { .. }) => {
            let put = put_byte(debugger, *dtb, bp.address, INT3);
            match put {
                Ok(()) => {
                    client.note_breakpoint_installed(bp.address.0);
                },
                Err(_) => {},
            }
            put
        },
        (_, BreakpointBackend::Hardware) => match bp.hardware {
            Some(hw) => client.set_hardware_breakpoint(hw.slot, bp.address.0, hw.access, hw.len),
            None => Err(Error::Rsp(text("hardware breakpoint missing parameters"))),
        },
        _ => Err(Error::Rsp(text("breakpoint backend/scope mismatch"))),
    }
}

/// Whether taking a breakpoint out may end with `result`, so that `pre` becomes
/// `post`.
pub open spec fn may_uninstall<M: MemoryOps<PhysAddr>, C: DebugBackend, E>(
    pre: Machine<C, M>,
    bp: &Breakpoint<E>,
    result: Result<(), Error>,
    post: Machine<C, M>,
) -> bool {
    match (bp.scope, bp.backend) {
        (_, BreakpointBackend::Hardware) => match bp.hardware {
            Some(hw) => may_tell(pre, BackendCall::ClearHardware(hw.slot), result, post),
            None => refused(result, "hardware breakpoint missing parameters"@) && post == pre,
        },
        (BreakpointScope::Kernel, BreakpointBackend::Kernel { .. }) => may_reach(
            pre,
            BackendCall::RemoveBreakpoint(bp.address.0),
            result,
            post,
        ),
        (
            BreakpointScope::Process { dtb, .. },
            BreakpointBackend::GuestMemoryPatch { original_byte },
        ) => may_restore(pre, dtb, bp.address, original_byte, result, post),
        _ => refused(result, "breakpoint backend/scope mismatch"@) && post == pre,
    }
}

/// Whether writing the displaced byte back through the page table `dtb` may end
/// with `result`, so that `pre` becomes `post`: a success is noted, and nothing
/// else is written.
pub open spec fn may_restore<M: MemoryOps<PhysAddr>, C: DebugBackend>(
    pre: Machine<C, M>,
    dtb: Dtb,
    address: VirtAddr,
    original_byte: u8,
    result: Result<(), Error>,
    post: Machine<C, M>,
) -> bool {
    may_put(
        pre,
        dtb,
        address,
        original_byte,
        BackendCall::NoteUninstalled(address.0),
        result,
        post,
    )
}

/// Writes the displaced byte back through the page table `dtb`.
pub fn restore_byte<M: MemoryOps<PhysAddr>, C: DebugBackend>(
    client: &mut C,
    debugger: &mut Target<M>,
    dtb: Dtb,
    address: VirtAddr,
    original_byte: u8,
) -> (r: Result<(), Error>)
    ensures
        may_restore(
            machine(old(client), old(debugger)),
            dtb,
            address,
            original_byte,
            r,
            machine(final(client), final(debugger)),
        ),
{
    let put = put_byte(debugger, dtb, address, original_byte);
    match put {
        Ok(()) => {
            client.note_breakpoint_uninstalled(address.0);
        },
        Err(_) => {},
    }
    put
}

/// Takes a breakpoint out of the target.
pub fn uninstall_breakpoint<M: MemoryOps<PhysAddr>, C: DebugBackend, E>(
    client: &mut C,
    debugger: &mut Target<M>,
    bp: &Breakpoint<E>,
) -> (r: Result<(), Error>)
    ensures
        may_uninstall(
            machine(old(client), old(debugger)),
            bp,
            r,
            machine(final(client), final(debugger)),
        ),
{
    match (&bp.scope, &bp.backend) {
        (BreakpointScope::Kernel, BreakpointBackend::Kernel { .. }) => client.remove_breakpoint(
            &mut debugger.phys,
            bp.address.0,
        ),
        (
            BreakpointScope::Process { dtb, .. },
            BreakpointBackend::GuestMemoryPatch { original_byte },
        ) => restore_byte(client, debugger, *dtb, bp.address, *original_byte),
        (_, BreakpointBackend::Hardware) => match bp.hardware {
            Some(hw) => client.clear_hardware_breakpoint(hw.slot),
            None => Err(Error::Rsp(text("hardware breakpoint missing parameters"))),
        },
        _ => Err(Error::Rsp(text("breakpoint backend/scope mismatch"))),
    }
}

/// The index of the first listed kernel module that contains the address.
pub open spec fn is_first_module(
    modules: Option<Vec<ModuleInfo>>,
    address: VirtAddr,
    index: Option<usize>,
) -> bool {
    match (modules, index) {
        (Some(list), Some(i)) => {
            &&& i < list@.len()
            &&& list@[i as int].contains(address)
            &&& forall|k: int| 0 <= k < i ==> !(#[trigger] list@[k]).contains(address)
        },
        (Some(list), None) => forall|k: int|
            0 <= k < list@.len() ==> !(#[trigger] list@[k]).contains(address),
        (None, index) => index is None,
    }
}

/// The index of the first listed kernel module that contains the address.
pub fn find_kernel_module_containing_address<M>(debugger: &Target<M>, address: VirtAddr) -> (r:
    Option<usize>)
    ensures
        is_first_module(debugger.kernel_modules, address, r),
{
    match &debugger.kernel_modules {
        Some(list) => {
            let mut i: usize = 0;
            while i < list.len()
                invariant
                    i <= list@.len(),
                    debugger.kernel_modules == Some(*list),
                    forall|k: int| 0 <= k < i ==> !(#[trigger] list@[k]).contains(address),
                decreases list@.len() - i,
            {
                if list[i].contains_address(address) {
                    return Some(i);
                }
                i += 1;
            }
            None
        },
        None => None,
    }
}

/// The offset of an address from the base of its module, as 32 bits.
pub open spec fn rva_of(address: VirtAddr, base: VirtAddr) -> u32 {
    if address.0 < base.0 {
        0
    } else {
        ((address.0 - base.0) % 0x1_0000_0000) as u32
    }
}

/// Why a page is refused.
pub open spec fn page_refusal(address: VirtAddr, context: Seq<char>) -> Seq<char> {
    "refusing breakpoint at "@ + hex_prefixed(address.0 as nat)
        + ": target page is non-executable ("@ + context + ")"@
}

/// Why a section is refused.
pub open spec fn section_refusal(address: VirtAddr, module: Seq<char>) -> Seq<char> {
    "refusing breakpoint at "@ + hex_prefixed(address.0 as nat)
        + ": address falls in non-executable section of "@ + module
}

/// What validation says once the page is known to be executable and the
/// module's image has been read: the image must have a section table, and the
/// address must lie in an executable section.
pub open spec fn image_verdict(
    address: VirtAddr,
    module: ModuleInfo,
    image: Result<Vec<u8>, Error>,
    result: Result<(), Error>,
) -> bool {
    match image {
        Err(e) => result == Err::<(), Error>(e),
        Ok(bytes) => match header_error(bytes@) {
            Some(why) => result matches Err(Error::Pe(words)) && words@ == why,
            None => sections_verdict(address, module, section_table(bytes@), result),
        },
    }
}

/// What validation says of an address by the section table of its module.
pub open spec fn sections_verdict(
    address: VirtAddr,
    module: ModuleInfo,
    rows: Seq<Section>,
    result: Result<(), Error>,
) -> bool {
    if executable_at(rows, rva_of(address, module.base_address)) {
        result == Ok::<(), Error>(())
    } else {
        refused(result, section_refusal(address, module.short_name@))
    }
}

/// Judges an address by what reading the section table of its module gave.
pub fn judge_sections(
    address: VirtAddr,
    module: &ModuleInfo,
    rows: Result<Vec<Section>, String>,
) -> (r: Result<(), Error>)
    ensures
        match rows {
            Err(e) => r == Err::<(), Error>(Error::Pe(e)),
            Ok(rows) => sections_verdict(address, *module, rows@, r),
        },
{
    let rows = match rows {
        Ok(rows) => rows,
        Err(e) => return Err(Error::Pe(e)),
    };
    let offset: u64 = if address.0 < module.base_address.0 {
        0
    } else {
        address.0 - module.base_address.0
    };
    let rva: u32 = (offset % 0x1_0000_0000) as u32;
    if in_executable_section(rows.as_slice(), rva) {
        Ok(())
    } else {
        Err(
            Error::Rsp(
                text("refusing breakpoint at ").concat(
                    hexadecimal_prefixed(address.0).as_str(),
                ).concat(": address falls in non-executable section of ").concat(
                    module.short_name.as_str(),
                ),
            ),
        )
    }
}

/// Judges an address by the image of its module.
pub fn judge_image(address: VirtAddr, module: &ModuleInfo, image: Result<Vec<u8>, Error>) -> (r:
    Result<(), Error>)
    ensures
        image_verdict(address, *module, image, r),
{
    match image {
        Ok(bytes) => judge_sections(address, module, sections(bytes.as_slice())),
        Err(e) => Err(e),
    }
}

/// Whether validating a breakpoint target may end with `result`: the address
/// must be mapped, its page executable and, inside a kernel module, its
/// section too.
pub open spec fn may_validate<
    M: MemoryOps<PhysAddr>,
    R: FnOnce(VirtAddr) -> Result<Vec<u8>, Error>,
>(target: &Target<M>, address: VirtAddr, read_image: R, result: Result<(), Error>) -> bool {
    exists|found: TranslationResult, module: Option<usize>|
        {
            &&& #[trigger] space_of(target, target.current_dtb).may_translate(address, found)
            &&& #[trigger] is_first_module(target.kernel_modules, address, module)
            &&& match found {
                Err(e) => result == Err::<(), Error>(e),
                Ok(None) => result == Err::<(), Error>(Error::BadVirtualAddress(address)),
                Ok(Some(translation)) => if translation.nx {
                    refused(
                        result,
                        page_refusal(
                            address,
                            match module {
                                Some(i) => target.kernel_modules->0@[i as int].short_name@,
                                None => "unknown"@,
                            },
                        ),
                    )
                } else {
                    match module {
                        None => result == Ok::<(), Error>(()),
                        Some(i) => {
                            let info = target.kernel_modules->0@[i as int];
                            exists|image: Result<Vec<u8>, Error>| #[trigger]
                                call_ensures(read_image, (info.base_address,), image)
                                    && image_verdict(address, info, image, result)
                        },
                    }
                },
            }
        }
}

/// Refuses a breakpoint where the target cannot execute; `read_image` reads the
/// image of the module at a base address.
pub fn validate_breakpoint_target<
    M: MemoryOps<PhysAddr>,
    R: FnOnce(VirtAddr) -> Result<Vec<u8>, Error>,
>(debugger: &Target<M>, address: VirtAddr, read_image: R) -> (r: Result<(), Error>)
    requires
        forall|base: VirtAddr| call_requires(read_image, (base,)),
    ensures
        may_validate(debugger, address, read_image, r),
{
    let module = find_kernel_module_containing_address(debugger, address);
    let memory = AddressSpace::new(&debugger.phys, debugger.current_dtb);
    let found = memory.virt_to_phys(address);
    assert(space_of(debugger, debugger.current_dtb).may_translate(address, found));
    let translation = match found {
        Ok(Some(translation)) => translation,
        Ok(None) => return Err(Error::BadVirtualAddress(address)),
        Err(e) => return Err(e),
    };
    if translation.nx {
        let context = match (&debugger.kernel_modules, module) {
            (Some(list), Some(i)) => text(list[i].short_name.as_str()),
            _ => text("unknown"),
        };
        return Err(
            Error::Rsp(
                text("refusing breakpoint at ").concat(
                    hexadecimal_prefixed(address.0).as_str(),
                ).concat(": target page is non-executable (").concat(context.as_str()).concat(")"),
            ),
        );
    }
    match (&debugger.kernel_modules, module) {
        (Some(list), Some(i)) => {
            let image = read_image(list[i].base_address);
            assert(call_ensures(read_image, (list@[i as int].base_address,), image));
            judge_image(address, &list[i], image)
        },
        _ => Ok(()),
    }
}

} // verus!
