//! What changing breakpoints does to the target: which byte of physical memory is
//! patched, which breakpoints are put back, and where breakpoints may stand at all.
use crate::backend::{BackendCall, CapabilityStatus, DebugBackend, DebugCapability};
use crate::error::Error;
use crate::gdb::breakpoints::{
    enumerates, Breakpoint, BreakpointBackend, BreakpointManager, BreakpointScope, CodeRequest,
};
use crate::gdb::install::{
    image_verdict, is_context_scope, is_first_module, may_install, may_install_existing,
    may_uninstall, may_validate, space_of,
};
use crate::gdb::transport_laws::{
    consistent, granted, law_installing_sets_the_int3, law_putting_back_arms,
    law_taking_out_disarms, only_switched, tells, untouched, Held,
};
use crate::memory::{chunk_len, AddressSpace, MemoryOps, Translation, TranslationResult};
use crate::memory_laws::{holds, put, remembers, steady};
use crate::pe::{header_error, section_table};
use crate::target::{Machine, Target};
use crate::text::text_opt;
use crate::types::{Dtb, PhysAddr, VirtAddr};
use std::sync::Arc;
use vstd::prelude::*;

verus! {

/// A byte that is written lands where its address leads, and no other byte of
/// physical memory differs.
pub proof fn law_one_byte_lands<B: MemoryOps<PhysAddr>>(
    memory: B,
    dtb: Dtb,
    tables: spec_fn(VirtAddr) -> Option<Translation>,
    held: spec_fn(int) -> u8,
    address: VirtAddr,
    byte: u8,
    post: B,
)
    requires
        remembers::<B>(),
        holds(&memory, held),
        steady(&AddressSpace { backend: &memory, dtb }, tables),
        AddressSpace::may_write(memory, dtb, address, seq![byte], Ok(()), post),
    ensures
        tables(address) is Some,
        holds(&post, put(held, tables(address)->0.address as int, seq![byte])),
        put(held, tables(address)->0.address as int, seq![byte])(
            tables(address)->0.address as int,
        ) == byte,
        forall|p: int|
            p != tables(address)->0.address ==> #[trigger] put(
                held,
                tables(address)->0.address as int,
                seq![byte],
            )(p) == held(p),
{
    let bytes = seq![byte];
    assert(AddressSpace::writes_from(memory, dtb, address, 0, bytes, Ok(()), post));
    assert(address.spec_offset(0) == address);
    assert(chunk_len(address, 0, 1) == 1);
    assert(bytes.subrange(0, 1) =~= bytes);
    let found = choose|found: TranslationResult|
        {
            &&& #[trigger] (AddressSpace { backend: &memory, dtb }).may_translate(address, found)
            &&& match found {
                Err(e) => false,
                Ok(None) => false,
                Ok(Some(t)) => exists|done: Result<(), Error>, next: B|
                    {
                        &&& #[trigger] memory.may_write(t.address, bytes, done, &next)
                        &&& done is Ok
                        &&& AddressSpace::writes_from(next, dtb, address, 1, bytes, Ok(()), post)
                    },
            }
        };
    let t = found->Ok_0->0;
    let (done, next) = choose|done: Result<(), Error>, next: B|
        {
            &&& #[trigger] memory.may_write(t.address, bytes, done, &next)
            &&& done is Ok
            &&& AddressSpace::writes_from(next, dtb, address, 1, bytes, Ok(()), post)
        };
    assert(done->Ok_0 == ());
    assert(memory.may_write(t.address, bytes, Ok::<(), Error>(()), &next));
    assert(next == post);
}

/// Setting a breakpoint in a process, or enabling one again, leaves an int3 in
/// physical memory where the page table of the process leads from the address, and
/// every other byte as it was.
pub proof fn law_process_int3_is_in_memory<E, C: DebugBackend, M: MemoryOps<PhysAddr>>(
    pre: Machine<C, M>,
    bp: Breakpoint<E>,
    end: Machine<C, M>,
    dtb: Dtb,
    tables: spec_fn(VirtAddr) -> Option<Translation>,
    bytes: spec_fn(int) -> u8,
    held: spec_fn(C) -> Held,
)
    requires
        remembers::<M>(),
        tells(held),
        holds(&pre.target.phys, bytes),
        steady(&AddressSpace { backend: &pre.target.phys, dtb }, tables),
        bp.hardware is None,
        bp.scope matches BreakpointScope::Process { dtb: d, .. } && d == dtb,
        consistent(bp),
        may_install(pre, bp.address, bp.scope, Ok(bp.backend), end) || may_install_existing(
            pre,
            &bp,
            Ok(()),
            end,
        ),
    ensures
        tables(bp.address) is Some,
        holds(&end.target.phys, put(bytes, tables(bp.address)->0.address as int, seq![0xCCu8])),
        put(bytes, tables(bp.address)->0.address as int, seq![0xCCu8])(
            tables(bp.address)->0.address as int,
        ) == 0xCC,
        forall|p: int|
            p != tables(bp.address)->0.address ==> #[trigger] put(
                bytes,
                tables(bp.address)->0.address as int,
                seq![0xCCu8],
            )(p) == bytes(p),
{
    if may_install_existing(pre, &bp, Ok(()), end) {
        law_putting_back_arms(pre, bp, Ok(()), end, held);
    } else {
        law_installing_sets_the_int3(pre, bp.address, bp.scope, Ok(bp.backend), end, held);
    }
    law_one_byte_lands(
        pre.target.phys,
        dtb,
        tables,
        bytes,
        bp.address,
        0xCC,
        end.target.phys,
    );
}

/// Taking a breakpoint out of a process leaves in physical memory, where the page
/// table of the process leads from the address, the byte that the breakpoint kept,
/// and every other byte as it was.
pub proof fn law_process_byte_is_back_in_memory<E, C: DebugBackend, M: MemoryOps<PhysAddr>>(
    pre: Machine<C, M>,
    bp: Breakpoint<E>,
    end: Machine<C, M>,
    dtb: Dtb,
    original_byte: u8,
    tables: spec_fn(VirtAddr) -> Option<Translation>,
    bytes: spec_fn(int) -> u8,
    held: spec_fn(C) -> Held,
)
    requires
        remembers::<M>(),
        tells(held),
        holds(&pre.target.phys, bytes),
        steady(&AddressSpace { backend: &pre.target.phys, dtb }, tables),
        bp.hardware is None,
        bp.scope matches BreakpointScope::Process { dtb: d, .. } && d == dtb,
        bp.backend == (BreakpointBackend::GuestMemoryPatch { original_byte }),
        may_uninstall(pre, &bp, Ok(()), end),
    ensures
        tables(bp.address) is Some,
        holds(
            &end.target.phys,
            put(bytes, tables(bp.address)->0.address as int, seq![original_byte]),
        ),
        put(bytes, tables(bp.address)->0.address as int, seq![original_byte])(
            tables(bp.address)->0.address as int,
        ) == original_byte,
        forall|p: int|
            p != tables(bp.address)->0.address ==> #[trigger] put(
                bytes,
                tables(bp.address)->0.address as int,
                seq![original_byte],
            )(p) == bytes(p),
{
    law_taking_out_disarms(pre, bp, Ok(()), end, held);
    law_one_byte_lands(
        pre.target.phys,
        dtb,
        tables,
        bytes,
        bp.address,
        original_byte,
        end.target.phys,
    );
}

/// Disabling a patch through another page table writes the byte that it kept back
/// through that one, notes it, and marks it disabled where that worked and only
/// there. Only a patch can be disabled so.
pub proof fn law_disabling_elsewhere<E, C: DebugBackend, M: MemoryOps<PhysAddr>>(
    manager: &BreakpointManager<E>,
    pre: Machine<C, M>,
    id: u32,
    dtb: Dtb,
    post: &BreakpointManager<E>,
    end: Machine<C, M>,
    result: Result<(), Error>,
    held: spec_fn(C) -> Held,
)
    requires
        manager.may_disable_in(pre, id, dtb, post, end, result),
        tells(held),
    ensures
        !manager.breakpoints@.contains_key(id) ==> result == Err::<(), Error>(
            Error::BPNotFound(id),
        ) && untouched(manager, post) && end == pre,
        manager.breakpoints@.contains_key(id) && !manager.breakpoints@[id].enabled ==> result is Ok
            && untouched(manager, post) && end == pre,
        manager.breakpoints@.contains_key(id) && manager.breakpoints@[id].enabled ==> {
            let bp = manager.breakpoints@[id];
            match bp.backend {
                BreakpointBackend::GuestMemoryPatch { original_byte } => {
                    &&& AddressSpace::may_write(
                        pre.target.phys,
                        dtb,
                        bp.address,
                        seq![original_byte],
                        result,
                        end.target.phys,
                    )
                    &&& result is Ok ==> only_switched(manager, id, false, post) && held(
                        end.client,
                    ) == granted(held(pre.client), BackendCall::NoteUninstalled(bp.address.0))
                    &&& result is Err ==> untouched(manager, post) && end.client == pre.client
                },
                _ => (result matches Err(e) && e is Rsp) && untouched(manager, post) && end == pre,
            }
        },
{
    if result is Ok {
        assert(result->Ok_0 == ());
    }
}

/// Whether a transport holds what an enabled int3 breakpoint needs.
pub open spec fn is_held<E>(bp: Breakpoint<E>, held: Held) -> bool {
    match bp.scope {
        BreakpointScope::Kernel => held.int3s.contains(bp.address.0),
        BreakpointScope::Process { .. } => held.notes.contains(bp.address.0),
    }
}

proof fn lemma_refresh<E, C: DebugBackend, M: MemoryOps<PhysAddr>>(
    manager: &BreakpointManager<E>,
    order: Seq<u32>,
    pre: Machine<C, M>,
    end: Machine<C, M>,
    held: spec_fn(C) -> Held,
)
    requires
        manager.may_refresh(order, pre, end, Ok(())),
        tells(held),
        forall|i: int| 0 <= i < order.len() ==> consistent(manager.breakpoints@[#[trigger] order[i]]),
    ensures
        forall|i: int|
            0 <= i < order.len() && manager.breakpoints@[order[i]].enabled
                && manager.breakpoints@[order[i]].hardware is None ==> is_held(
                manager.breakpoints@[#[trigger] order[i]],
                held(end.client),
            ),
        held(pre.client).int3s.subset_of(held(end.client).int3s),
        held(pre.client).notes.subset_of(held(end.client).notes),
        held(end.client).registers == held(pre.client).registers,
    decreases order.len(),
{
    if order.len() > 0 {
        let bp = manager.breakpoints@[order[0]];
        let rest = order.skip(1);
        assert forall|i: int| 0 <= i < rest.len() implies consistent(
            manager.breakpoints@[#[trigger] rest[i]],
        ) by {
            assert(rest[i] == order[i + 1]);
        }
        if bp.enabled && bp.hardware is None {
            let (out, mid, back, next) = choose|
                out: Result<(), Error>,
                mid: Machine<C, M>,
                back: Result<(), Error>,
                next: Machine<C, M>,
            |
                {
                    &&& #[trigger] may_uninstall(pre, &bp, out, mid)
                    &&& #[trigger] may_install_existing(mid, &bp, back, next)
                    &&& match back {
                        Err(e) => Ok::<(), Error>(()) == Err::<(), Error>(e) && end == next,
                        Ok(_) => manager.may_refresh(rest, next, end, Ok(())),
                    }
                };
            law_taking_out_disarms(pre, bp, out, mid, held);
            law_putting_back_arms(mid, bp, back, next, held);
            lemma_refresh(manager, rest, next, end, held);
            assert(held(pre.client).int3s.subset_of(held(next.client).int3s));
            assert(held(pre.client).notes.subset_of(held(next.client).notes));
            assert(is_held(bp, held(next.client)));
            assert(is_held(bp, held(end.client)));
        } else {
            lemma_refresh(manager, rest, pre, end, held);
        }
        assert forall|i: int|
            0 <= i < order.len() && manager.breakpoints@[order[i]].enabled
                && manager.breakpoints@[order[i]].hardware is None implies is_held(
            manager.breakpoints@[#[trigger] order[i]],
            held(end.client),
        ) by {
            if i > 0 {
                assert(rest[i - 1] == order[i]);
            }
        }
    }
}

/// After a successful refresh the transport holds what every enabled int3
/// breakpoint needs; nothing that it held is gone, and no debug register differs.
pub proof fn law_refreshing_puts_all_back<E, C: DebugBackend, M: MemoryOps<PhysAddr>>(
    manager: &BreakpointManager<E>,
    order: Seq<u32>,
    pre: Machine<C, M>,
    end: Machine<C, M>,
    held: spec_fn(C) -> Held,
)
    requires
        manager.lists(order),
        manager.may_refresh(order, pre, end, Ok(())),
        tells(held),
        forall|k: u32| #[trigger]
            manager.breakpoints@.contains_key(k) ==> consistent(manager.breakpoints@[k]),
    ensures
        forall|k: u32| #[trigger]
            manager.breakpoints@.contains_key(k) && manager.breakpoints@[k].enabled
                && manager.breakpoints@[k].hardware is None ==> is_held(
                manager.breakpoints@[k],
                held(end.client),
            ),
        held(pre.client).int3s.subset_of(held(end.client).int3s),
        held(pre.client).notes.subset_of(held(end.client).notes),
        held(end.client).registers == held(pre.client).registers,
{
    assert forall|i: int| 0 <= i < order.len() implies consistent(
        manager.breakpoints@[#[trigger] order[i]],
    ) by {
        assert(order.contains(order[i]));
        assert(manager.breakpoints@.contains_key(order[i]));
    }
    lemma_refresh(manager, order, pre, end, held);
    assert forall|k: u32| #[trigger]
        manager.breakpoints@.contains_key(k) && manager.breakpoints@[k].enabled
            && manager.breakpoints@[k].hardware is None implies is_held(
        manager.breakpoints@[k],
        held(end.client),
    ) by {
        assert(order.contains(k));
        let i = choose|i: int| 0 <= i < order.len() && order[i] == k;
        assert(is_held(manager.breakpoints@[order[i]], held(end.client)));
    }
}

/// Whether a transport grants every request to disarm a debug register.
pub open spec fn always_disarms<C: DebugBackend>() -> bool {
    forall|pre: C, slot: u8, reply: Result<(), Error>, post: C| #[trigger]
        pre.may(BackendCall::ClearHardware(slot), reply, &post) ==> reply is Ok
}

proof fn lemma_clear<E, C: DebugBackend>(
    manager: &BreakpointManager<E>,
    order: Seq<u32>,
    pre: C,
    end: C,
    held: spec_fn(C) -> Held,
)
    requires
        manager.may_clear(order, pre, end),
        tells(held),
        always_disarms::<C>(),
    ensures
        held(end).int3s == held(pre).int3s,
        held(end).notes == held(pre).notes,
        forall|slot: u8| #[trigger]
            held(end).registers.contains_key(slot) ==> held(pre).registers.contains_key(slot)
                && held(end).registers[slot] == held(pre).registers[slot],
        forall|i: int|
            0 <= i < order.len() && manager.breakpoints@[#[trigger] order[i]].hardware is Some
                ==> !held(end).registers.contains_key(
                manager.breakpoints@[order[i]].hardware->0.slot,
            ),
        forall|slot: u8|
            held(pre).registers.contains_key(slot) && !(#[trigger] held(
                end,
            ).registers.contains_key(slot)) ==> exists|i: int|
                0 <= i < order.len() && manager.breakpoints@[#[trigger] order[i]].hardware is Some
                    && manager.breakpoints@[order[i]].hardware->0.slot == slot,
    decreases order.len(),
{
    if order.len() > 0 {
        let rest = order.skip(1);
        match manager.breakpoints@[order[0]].hardware {
            None => {
                lemma_clear(manager, rest, pre, end, held);
            },
            Some(hw) => {
                let (reply, next) = choose|reply: Result<(), Error>, next: C|
                    {
                        &&& #[trigger] pre.may(BackendCall::ClearHardware(hw.slot), reply, &next)
                        &&& manager.may_clear(rest, next, end)
                    };
                lemma_clear(manager, rest, next, end, held);
                assert(held(next).registers == held(pre).registers.remove(hw.slot));
            },
        }
        assert forall|i: int|
            0 <= i < order.len() && manager.breakpoints@[#[trigger] order[i]].hardware
                is Some implies !held(end).registers.contains_key(
            manager.breakpoints@[order[i]].hardware->0.slot,
        ) by {
            if i > 0 {
                assert(rest[i - 1] == order[i]);
            }
        }
        assert forall|slot: u8|
            held(pre).registers.contains_key(slot) && !(#[trigger] held(
                end,
            ).registers.contains_key(slot)) implies exists|i: int|
            0 <= i < order.len() && manager.breakpoints@[#[trigger] order[i]].hardware is Some
                && manager.breakpoints@[order[i]].hardware->0.slot == slot by {
            let first = manager.breakpoints@[order[0]].hardware;
            if first is Some && first->0.slot == slot {
                assert(manager.breakpoints@[order[0]].hardware is Some);
            } else {
                let j = choose|j: int|
                    0 <= j < rest.len() && manager.breakpoints@[#[trigger] rest[j]].hardware
                        is Some && manager.breakpoints@[rest[j]].hardware->0.slot == slot;
                assert(order[j + 1] == rest[j]);
            }
        }
    }
}

/// Releasing the debug registers disarms every one that a breakpoint claims,
/// enabled or not, and no other.
pub proof fn law_all_claimed_registers_are_released<E, C: DebugBackend>(
    manager: &BreakpointManager<E>,
    order: Seq<u32>,
    pre: C,
    end: C,
    slot: u8,
    held: spec_fn(C) -> Held,
)
    requires
        enumerates(order, manager.breakpoints@),
        manager.may_clear(order, pre, end),
        tells(held),
        always_disarms::<C>(),
    ensures
        held(end).registers.contains_key(slot) <==> held(pre).registers.contains_key(slot)
            && !(exists|k: u32| #[trigger]
            manager.breakpoints@.contains_key(k) && manager.breakpoints@[k].hardware is Some
                && manager.breakpoints@[k].hardware->0.slot == slot),
        held(end).int3s == held(pre).int3s,
        held(end).notes == held(pre).notes,
{
    lemma_clear(manager, order, pre, end, held);
    if exists|k: u32| #[trigger]
        manager.breakpoints@.contains_key(k) && manager.breakpoints@[k].hardware is Some
            && manager.breakpoints@[k].hardware->0.slot == slot {
        let k = choose|k: u32| #[trigger]
            manager.breakpoints@.contains_key(k) && manager.breakpoints@[k].hardware is Some
                && manager.breakpoints@[k].hardware->0.slot == slot;
        assert(order.contains(k));
        let i = choose|i: int| 0 <= i < order.len() && order[i] == k;
        assert(manager.breakpoints@[order[i]].hardware is Some);
    }
    if held(pre).registers.contains_key(slot) && !held(end).registers.contains_key(slot) {
        let i = choose|i: int|
            0 <= i < order.len() && manager.breakpoints@[#[trigger] order[i]].hardware is Some
                && manager.breakpoints@[order[i]].hardware->0.slot == slot;
        assert(order.contains(order[i]));
        assert(manager.breakpoints@.contains_key(order[i]));
    }
}

/// Whether an image, by its section table, can be executed at an offset: a section
/// with the executable flag, bit 29, begins at or before it, and is longer than the
/// rest, by its virtual or its raw size. Sections end at the last 32-bit offset.
pub open spec fn executes_at(image: Seq<u8>, offset: int) -> bool {
    &&& offset < 0xFFFF_FFFF
    &&& exists|i: int|
        {
            &&& 0 <= i < section_table(image).len()
            &&& #[trigger] section_table(image)[i].0 <= offset
            &&& (section_table(image)[i].3 as int / 0x2000_0000) % 2 == 1
            &&& offset - section_table(image)[i].0 < section_table(image)[i].1 || offset
                - section_table(image)[i].0 < section_table(image)[i].2
        }
}

proof fn lemma_executes(image: Seq<u8>, rva: u32)
    ensures
        crate::pe::executable_at(section_table(image), rva) <==> executes_at(image, rva as int),
{
    let table = section_table(image);
    assert forall|i: int| 0 <= i < table.len() implies (#[trigger] crate::pe::section_executes(
        table[i],
        rva,
    ) <==> {
        &&& table[i].0 <= rva
        &&& (table[i].3 as int / 0x2000_0000) % 2 == 1
        &&& rva < 0xFFFF_FFFF
        &&& rva - table[i].0 < table[i].1 || rva - table[i].0 < table[i].2
    }) by {
        let c = table[i].3;
        assert((c & 0x2000_0000 != 0) == ((c / 0x2000_0000) % 2 == 1)) by (bit_vector);
    }
    if crate::pe::executable_at(table, rva) {
        let i = choose|i: int|
            0 <= i < table.len() && #[trigger] crate::pe::section_executes(table[i], rva);
        assert(table[i].0 <= rva);
    }
    if executes_at(image, rva as int) {
        let i = choose|i: int|
            {
                &&& 0 <= i < table.len()
                &&& #[trigger] table[i].0 <= rva as int
                &&& (table[i].3 as int / 0x2000_0000) % 2 == 1
                &&& rva - table[i].0 < table[i].1 || rva - table[i].0 < table[i].2
            };
        assert(crate::pe::section_executes(table[i], rva));
    }
}

/// How far an address lies behind the base of its module, in 32 bits.
pub open spec fn behind(address: VirtAddr, base: VirtAddr) -> int {
    if address.0 < base.0 {
        0
    } else {
        (address.0 - base.0) % 0x1_0000_0000
    }
}

/// Whether the module at `i` is the first that the address lies in.
pub open spec fn first_holding<M>(target: &Target<M>, address: VirtAddr, i: int) -> bool {
    &&& target.kernel_modules is Some
    &&& 0 <= i < target.kernel_modules->0@.len()
    &&& target.kernel_modules->0@[i].base_address.0 <= address.0
        < target.kernel_modules->0@[i].base_address.0 + target.kernel_modules->0@[i].size
    &&& forall|k: int|
        0 <= k < i ==> !((#[trigger] target.kernel_modules->0@[k]).base_address.0 <= address.0
            < target.kernel_modules->0@[k].base_address.0 + target.kernel_modules->0@[k].size)
}

/// What reading the image of the module at `base` makes of an address in it.
pub open spec fn judged(
    address: VirtAddr,
    base: VirtAddr,
    image: Result<Vec<u8>, Error>,
    result: Result<(), Error>,
) -> bool {
    match image {
        Err(e) => result == Err::<(), Error>(e),
        Ok(bytes) => if header_error(bytes@) is Some {
            result matches Err(e) && e is Pe
        } else if executes_at(bytes@, behind(address, base)) {
            result is Ok
        } else {
            result matches Err(e) && e is Rsp
        },
    }
}

/// Why a breakpoint may stand at an address, and why not. It may where the address
/// is mapped on a page that can be executed and, inside a kernel module, in a
/// section that can; every refusal has its own reason: a walk that fails, an
/// address that is not mapped, a page or a section that cannot be executed, an
/// image that cannot be read or makes no sense.
pub proof fn law_breakpoints_stand_on_code<
    M: MemoryOps<PhysAddr>,
    R: FnOnce(VirtAddr) -> Result<Vec<u8>, Error>,
>(target: &Target<M>, address: VirtAddr, read_image: R, result: Result<(), Error>)
    requires
        may_validate(target, address, read_image, result),
    ensures
        exists|found: TranslationResult|
            {
                &&& #[trigger] space_of(target, target.current_dtb).may_translate(address, found)
                &&& match found {
                    Err(e) => result == Err::<(), Error>(e),
                    Ok(None) => result == Err::<(), Error>(Error::BadVirtualAddress(address)),
                    Ok(Some(t)) => {
                        &&& t.nx ==> (result matches Err(e) && e is Rsp)
                        &&& !t.nx && (forall|i: int| !#[trigger] first_holding(target, address, i))
                            ==> result is Ok
                        &&& forall|i: int|
                            !t.nx && #[trigger] first_holding(target, address, i) ==> exists|
                                image: Result<Vec<u8>, Error>,
                            |
                                #[trigger] call_ensures(
                                    read_image,
                                    (target.kernel_modules->0@[i].base_address,),
                                    image,
                                ) && judged(
                                    address,
                                    target.kernel_modules->0@[i].base_address,
                                    image,
                                    result,
                                )
                    },
                }
            },
{
    let (found, module) = choose|found: TranslationResult, module: Option<usize>|
        {
            &&& #[trigger] space_of(target, target.current_dtb).may_translate(address, found)
            &&& #[trigger] is_first_module(target.kernel_modules, address, module)
            &&& match found {
                Err(e) => result == Err::<(), Error>(e),
                Ok(None) => result == Err::<(), Error>(Error::BadVirtualAddress(address)),
                Ok(Some(t)) => if t.nx {
                    result matches Err(e) && e is Rsp
                } else {
                    match module {
                        None => result == Ok::<(), Error>(()),
                        Some(i) => exists|image: Result<Vec<u8>, Error>| #[trigger]
                            call_ensures(
                                read_image,
                                (target.kernel_modules->0@[i as int].base_address,),
                                image,
                            ) && image_verdict(
                                address,
                                target.kernel_modules->0@[i as int],
                                image,
                                result,
                            ),
                    }
                },
            }
        };
    if found is Ok && found->Ok_0 is Some && !found->Ok_0->0.nx {
        assert forall|i: int| #[trigger] first_holding(target, address, i) implies exists|
            image: Result<Vec<u8>, Error>,
        |
            #[trigger] call_ensures(
                read_image,
                (target.kernel_modules->0@[i].base_address,),
                image,
            ) && judged(address, target.kernel_modules->0@[i].base_address, image, result) by {
            let list = target.kernel_modules->0@;
            assert(list[i].contains(address));
            assert(module is Some);
            let m = module->0 as int;
            if m < i {
                assert(list[m].contains(address));
            }
            if i < m {
                assert(!list[i].contains(address));
            }
            let info = list[i];
            let image = choose|image: Result<Vec<u8>, Error>| #[trigger]
                call_ensures(read_image, (info.base_address,), image) && image_verdict(
                    address,
                    info,
                    image,
                    result,
                );
            if image is Ok {
                lemma_executes(
                    image->Ok_0@,
                    crate::gdb::install::rva_of(address, info.base_address),
                );
            }
        }
        if module is Some {
            let m = module->0 as int;
            assert forall|k: int| 0 <= k < m implies !((
            #[trigger] target.kernel_modules->0@[k]).base_address.0 <= address.0
                < target.kernel_modules->0@[k].base_address.0 + target.kernel_modules->0@[k].size) by {
                assert(!target.kernel_modules->0@[k].contains(address));
            }
            assert(target.kernel_modules->0@[m].contains(address));
            assert(first_holding(target, address, m));
        }
    }
}

/// A code breakpoint is refused for one of these reasons and no other: its
/// condition does not parse, the transport does not offer breakpoints of its kind,
/// no breakpoint may stand there, or it cannot be put into the target.
pub proof fn law_a_code_breakpoint_is_refused_for_a_reason<
    E,
    C: DebugBackend,
    M: MemoryOps<PhysAddr>,
    F: FnOnce(&str) -> Result<E, Error>,
    R: FnOnce(VirtAddr) -> Result<Vec<u8>, Error>,
>(
    manager: &BreakpointManager<E>,
    pre: Machine<C, M>,
    request: CodeRequest<F, R>,
    post: &BreakpointManager<E>,
    end: Machine<C, M>,
    error: Error,
)
    requires
        manager.may_add_code(pre, request, post, end, Err(error)),
    ensures
        (request.condition matches Some(source) && exists|s: &str| #[trigger]
            call_ensures(request.parse, (s,), Err(error)) && s@ == source@) || (error
            is NotSupported && exists|caps: Seq<CapabilityStatus>| #[trigger]
            pre.client.may_report(caps) && forall|i: int|
                0 <= i < caps.len() && (#[trigger] caps[i]).capability == (if
                pre.target.current_process_info is None {
                    DebugCapability::KernelBreakpoints
                } else {
                    DebugCapability::UserModeBreakpoints
                }) ==> !caps[i].supported) || may_validate(
            &pre.target,
            request.address,
            request.read_image,
            Err(error),
        ) || exists|scope: BreakpointScope| #[trigger]
            may_install(pre, request.address, scope, Err(error), end),
{
    let result = Err::<u32, Error>(error);
    let compiled = choose|compiled: Result<Option<Arc<E>>, Error>|
        {
            &&& #[trigger] BreakpointManager::<E>::may_compile(
                text_opt(request.condition),
                request.parse,
                compiled,
            )
            &&& match compiled {
                Err(e) => result == Err::<u32, Error>(e),
                Ok(expr) => manager.may_place_code(pre, request, expr, post, end, result),
            }
        };
    if compiled is Ok {
        let expr = compiled->Ok_0;
        let (scope, caps) = choose|scope: BreakpointScope, caps: Seq<CapabilityStatus>|
            {
                &&& #[trigger] is_context_scope(&pre.target, scope)
                &&& #[trigger] pre.client.may_report(caps)
                &&& if !BreakpointManager::<E>::scope_supported(scope, caps) {
                    result == Err::<u32, Error>(Error::NotSupported)
                } else {
                    exists|verdict: Result<(), Error>|
                        {
                            &&& #[trigger] may_validate(
                                &pre.target,
                                request.address,
                                request.read_image,
                                verdict,
                            )
                            &&& match verdict {
                                Err(e) => result == Err::<u32, Error>(e),
                                Ok(_) => manager.may_commit_code(
                                    pre,
                                    request,
                                    expr,
                                    scope,
                                    post,
                                    end,
                                    result,
                                ),
                            }
                        }
                }
            };
    }
}

} // verus!
