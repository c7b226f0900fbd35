//! What translation does with the page tables that physical memory holds, in
//! numbers: where each entry is read, and what its bits mean.
use crate::error::Error;
use crate::memory::{
    entry_address, loaded_entry, AddressSpace, EntryLoad, MemoryOps, Translation,
    TranslationResult, PDE_SHIFT, PDPTE_SHIFT, PML4E_SHIFT, PTE_SHIFT,
};
use crate::types::{PageTableEntry, PhysAddr, VirtAddr};
use vstd::prelude::*;

verus! {

/// The number that eight bytes stand for, low byte first.
pub open spec fn number(b: Seq<u8>) -> int {
    b[0] + 0x100 * b[1] + 0x1_0000 * b[2] + 0x100_0000 * b[3] + 0x1_0000_0000 * b[4]
        + 0x100_0000_0000 * b[5] + 0x1_0000_0000_0000 * b[6] + 0x100_0000_0000_0000 * b[7]
}

/// Whether memory holds the number `entry` in the eight bytes at `at`, and lets it
/// be read.
pub open spec fn keeps_entry<B: MemoryOps<PhysAddr>>(memory: &B, at: int, entry: int) -> bool {
    forall|before: Seq<u8>, after: Seq<u8>, outcome: Result<(), Error>|
        #[trigger] memory.may_read(at as u64, before, after, outcome) && after.len() == 8
            ==> outcome is Ok && number(after) == entry
}

/// Whether every read of eight bytes at `at` fails with `error`.
pub open spec fn loses_entry<B: MemoryOps<PhysAddr>>(memory: &B, at: int, error: Error) -> bool {
    forall|before: Seq<u8>, after: Seq<u8>, outcome: Result<(), Error>|
        #[trigger] memory.may_read(at as u64, before, after, outcome) && after.len() == 8
            ==> outcome == Err::<(), Error>(error)
}

/// Where the entry for `va` lies in the table at `table`, whose entries map `span`
/// bytes each: tables have 512 entries of eight bytes.
pub open spec fn slot(table: int, va: VirtAddr, span: int) -> int {
    (table + 8 * ((va.0 as int / span) % 512)) % 0x1_0000_0000_0000_0000
}

/// The address that an entry gives: bits 12 to 35.
#[verifier::opaque]
pub open spec fn target_of(entry: int) -> int {
    entry % 0x10_0000_0000 - entry % 0x1000
}

/// One bit of an entry.
#[verifier::opaque]
pub open spec fn bit(entry: int, value: int) -> bool {
    (entry / value) % 2 == 1
}

pub open spec fn is_present(entry: int) -> bool {
    bit(entry, 1)
}

pub open spec fn is_writable(entry: int) -> bool {
    bit(entry, 2)
}

pub open spec fn is_user(entry: int) -> bool {
    bit(entry, 4)
}

pub open spec fn ends_here(entry: int) -> bool {
    bit(entry, 0x80)
}

pub open spec fn no_execute(entry: int) -> bool {
    bit(entry, 0x8000_0000_0000_0000)
}

proof fn lemma_number(b: Seq<u8>)
    requires
        b.len() == 8,
    ensures
        vstd::bytes::spec_u64_from_le_bytes(b) == number(b),
{
    let x = vstd::bytes::spec_u64_from_le_bytes(b);
    vstd::bytes::lemma_auto_spec_u64_to_from_le_bytes();
    vstd::bytes::spec_u64_to_le_bytes_to_open(x);
    assert(b == vstd::bytes::spec_u64_to_le_bytes_open(x));
    assert(x == (x & 0xff) + 0x100 * ((x >> 8) & 0xff) + 0x1_0000 * ((x >> 16) & 0xff) + 0x100_0000
        * ((x >> 24) & 0xff) + 0x1_0000_0000 * ((x >> 32) & 0xff) + 0x100_0000_0000 * ((x >> 40)
        & 0xff) + 0x1_0000_0000_0000 * ((x >> 48) & 0xff) + 0x100_0000_0000_0000 * ((x >> 56)
        & 0xff)) by (bit_vector);
    assert((x & 0xff) < 256 && ((x >> 8) & 0xff) < 256 && ((x >> 16) & 0xff) < 256 && ((x >> 24)
        & 0xff) < 256 && ((x >> 32) & 0xff) < 256 && ((x >> 40) & 0xff) < 256 && ((x >> 48) & 0xff)
        < 256 && ((x >> 56) & 0xff) < 256) by (bit_vector);
}

/// The frame and the flags of an entry are bits of its number.
pub proof fn law_bits_of_an_entry(entry: PageTableEntry)
    ensures
        entry.frame() == target_of(entry.0 as int),
        entry.present() == is_present(entry.0 as int),
        entry.writable() == is_writable(entry.0 as int),
        entry.user() == is_user(entry.0 as int),
        entry.large_page() == ends_here(entry.0 as int),
        entry.nx() == no_execute(entry.0 as int),
        0 <= target_of(entry.0 as int) < 0x10_0000_0000,
{
    reveal(target_of);
    reveal(bit);
    let e = entry.0;
    assert(e & ((!0xFu64 << 8) & 0xFFFFFFFFFu64) == e % 0x10_0000_0000 - e % 0x1000) by (bit_vector);
    assert({
        &&& (e & 1 != 0) == ((e / 1) % 2 == 1)
        &&& (e & 2 != 0) == ((e / 2) % 2 == 1)
        &&& (e & 4 != 0) == ((e / 4) % 2 == 1)
        &&& (e & 0x80 != 0) == ((e / 0x80) % 2 == 1)
        &&& (e & 0x8000_0000_0000_0000 != 0) == ((e / 0x8000_0000_0000_0000) % 2 == 1)
    }) by (bit_vector);
}

proof fn lemma_slots(table: u64, va: VirtAddr)
    ensures
        entry_address(table, va.spec_index(PML4E_SHIFT)) == slot(table as int, va, 0x80_0000_0000),
        entry_address(table, va.spec_index(PDPTE_SHIFT)) == slot(table as int, va, 0x4000_0000),
        entry_address(table, va.spec_index(PDE_SHIFT)) == slot(table as int, va, 0x20_0000),
        entry_address(table, va.spec_index(PTE_SHIFT)) == slot(table as int, va, 0x1000),
{
    let v = va.0;
    assert({
        &&& (v >> 39u64) & 0x1FF == (v / 0x80_0000_0000) % 512
        &&& (v >> 30u64) & 0x1FF == (v / 0x4000_0000) % 512
        &&& (v >> 21u64) & 0x1FF == (v / 0x20_0000) % 512
        &&& (v >> 12u64) & 0x1FF == (v / 0x1000) % 512
    }) by (bit_vector);
}

proof fn lemma_load<B: MemoryOps<PhysAddr>>(
    space: &AddressSpace<'_, B>,
    table: u64,
    index: usize,
    entry: int,
    load: EntryLoad,
)
    requires
        keeps_entry(space.backend, entry_address(table, index) as int, entry),
        space.may_load(table, index, load),
    ensures
        load matches Ok(Some(e)) && e.0 == entry,
{
    let (bytes, outcome) = choose|bytes: Seq<u8>, outcome: Result<(), Error>|
        {
            &&& #[trigger] space.backend.may_read(
                entry_address(table, index),
                crate::memory::zeroes(8),
                bytes,
                outcome,
            )
            &&& bytes.len() == 8
            &&& load == loaded_entry(bytes, outcome)
        };
    assert(outcome is Ok && number(bytes) == entry);
    lemma_number(bytes);
}

proof fn lemma_lost<B: MemoryOps<PhysAddr>>(
    space: &AddressSpace<'_, B>,
    table: u64,
    index: usize,
    error: Error,
    load: EntryLoad,
)
    requires
        loses_entry(space.backend, entry_address(table, index) as int, error),
        space.may_load(table, index, load),
    ensures
        load == (if error is BadPhysicalAddress {
            Ok::<Option<PageTableEntry>, Error>(None)
        } else {
            Err(error)
        }),
{
    let (bytes, outcome) = choose|bytes: Seq<u8>, outcome: Result<(), Error>|
        {
            &&& #[trigger] space.backend.may_read(
                entry_address(table, index),
                crate::memory::zeroes(8),
                bytes,
                outcome,
            )
            &&& bytes.len() == 8
            &&& load == loaded_entry(bytes, outcome)
        };
    assert(outcome == Err::<(), Error>(error));
}

/// Whether memory holds a present top-level entry for `va`.
pub open spec fn has_pml4e<B: MemoryOps<PhysAddr>>(
    space: &AddressSpace<'_, B>,
    va: VirtAddr,
    pml4e: int,
) -> bool {
    &&& space.dtb != u64::MAX
    &&& keeps_entry(space.backend, slot(space.dtb as int, va, 0x80_0000_0000), pml4e)
    &&& is_present(pml4e)
}

/// Whether memory holds present entries for `va` down to the second level.
pub open spec fn has_pdpte<B: MemoryOps<PhysAddr>>(
    space: &AddressSpace<'_, B>,
    va: VirtAddr,
    pml4e: int,
    pdpte: int,
) -> bool {
    &&& has_pml4e(space, va, pml4e)
    &&& keeps_entry(space.backend, slot(target_of(pml4e), va, 0x4000_0000), pdpte)
    &&& is_present(pdpte)
}

/// Whether memory holds present entries for `va` down to the third level.
pub open spec fn has_pde<B: MemoryOps<PhysAddr>>(
    space: &AddressSpace<'_, B>,
    va: VirtAddr,
    pml4e: int,
    pdpte: int,
    pde: int,
) -> bool {
    &&& has_pdpte(space, va, pml4e, pdpte)
    &&& !ends_here(pdpte)
    &&& keeps_entry(space.backend, slot(target_of(pdpte), va, 0x20_0000), pde)
    &&& is_present(pde)
}

proof fn lemma_first<B: MemoryOps<PhysAddr>>(
    space: &AddressSpace<'_, B>,
    va: VirtAddr,
    pml4e: int,
    found: TranslationResult,
)
    requires
        has_pml4e(space, va, pml4e),
        space.may_translate(va, found),
    ensures
        0 <= pml4e <= u64::MAX,
        space.may_finish_pdpt(PageTableEntry(pml4e as u64), va, found),
{
    lemma_slots(space.dtb, va);
    let load = choose|load: EntryLoad|
        {
            &&& #[trigger] space.may_load(space.dtb, va.spec_index(PML4E_SHIFT), load)
            &&& match load {
                Err(e) => found == Err::<Option<Translation>, Error>(e),
                Ok(None) => found == Ok::<Option<Translation>, Error>(None),
                Ok(Some(e)) => if !e.present() {
                    found == Ok::<Option<Translation>, Error>(None)
                } else {
                    space.may_finish_pdpt(e, va, found)
                },
            }
        };
    lemma_load(space, space.dtb, va.spec_index(PML4E_SHIFT), pml4e, load);
    law_bits_of_an_entry(load->Ok_0->0);
}

proof fn lemma_second<B: MemoryOps<PhysAddr>>(
    space: &AddressSpace<'_, B>,
    va: VirtAddr,
    pml4e: int,
    pdpte: int,
    found: TranslationResult,
)
    requires
        has_pdpte(space, va, pml4e, pdpte),
        space.may_translate(va, found),
    ensures
        0 <= pml4e <= u64::MAX,
        0 <= pdpte <= u64::MAX,
        !ends_here(pdpte) ==> space.may_finish_pd(
            PageTableEntry(pml4e as u64),
            PageTableEntry(pdpte as u64),
            va,
            found,
        ),
        ends_here(pdpte) ==> found == Ok::<Option<Translation>, Error>(
            Some(
                Translation {
                    address: (target_of(pdpte) + va.0 % 0x4000_0000) as u64,
                    large: true,
                    writable: is_writable(pml4e) && is_writable(pdpte),
                    user: is_user(pml4e) && is_user(pdpte),
                    nx: no_execute(pml4e) || no_execute(pdpte),
                },
            ),
        ),
{
    lemma_first(space, va, pml4e, found);
    let first = PageTableEntry(pml4e as u64);
    law_bits_of_an_entry(first);
    lemma_slots(first.frame(), va);
    let load = choose|load: EntryLoad|
        {
            &&& #[trigger] space.may_load(first.frame(), va.spec_index(PDPTE_SHIFT), load)
            &&& match load {
                Err(e) => found == Err::<Option<Translation>, Error>(e),
                Ok(None) => found == Ok::<Option<Translation>, Error>(None),
                Ok(Some(e)) => if !e.present() {
                    found == Ok::<Option<Translation>, Error>(None)
                } else if e.large_page() {
                    found == Ok::<Option<Translation>, Error>(
                        Some(
                            Translation {
                                address: (e.frame() + va.spec_huge_page_offset()) as u64,
                                large: true,
                                writable: first.writable() && e.writable(),
                                user: first.user() && e.user(),
                                nx: first.nx() || e.nx(),
                            },
                        ),
                    )
                } else {
                    space.may_finish_pd(first, e, va, found)
                },
            }
        };
    lemma_load(space, first.frame(), va.spec_index(PDPTE_SHIFT), pdpte, load);
    law_bits_of_an_entry(load->Ok_0->0);
}

proof fn lemma_third<B: MemoryOps<PhysAddr>>(
    space: &AddressSpace<'_, B>,
    va: VirtAddr,
    pml4e: int,
    pdpte: int,
    pde: int,
    found: TranslationResult,
)
    requires
        has_pde(space, va, pml4e, pdpte, pde),
        space.may_translate(va, found),
    ensures
        0 <= pml4e <= u64::MAX,
        0 <= pdpte <= u64::MAX,
        0 <= pde <= u64::MAX,
        !ends_here(pde) ==> space.may_finish_pt(
            PageTableEntry(pml4e as u64),
            PageTableEntry(pdpte as u64),
            PageTableEntry(pde as u64),
            va,
            found,
        ),
        ends_here(pde) ==> found == Ok::<Option<Translation>, Error>(
            Some(
                Translation {
                    address: (target_of(pde) + va.0 % 0x20_0000) as u64,
                    large: true,
                    writable: is_writable(pml4e) && is_writable(pdpte) && is_writable(pde),
                    user: is_user(pml4e) && is_user(pdpte) && is_user(pde),
                    nx: no_execute(pml4e) || no_execute(pdpte) || no_execute(pde),
                },
            ),
        ),
{
    lemma_second(space, va, pml4e, pdpte, found);
    let first = PageTableEntry(pml4e as u64);
    let second = PageTableEntry(pdpte as u64);
    law_bits_of_an_entry(first);
    law_bits_of_an_entry(second);
    lemma_slots(second.frame(), va);
    let load = choose|load: EntryLoad|
        {
            &&& #[trigger] space.may_load(second.frame(), va.spec_index(PDE_SHIFT), load)
            &&& match load {
                Err(e) => found == Err::<Option<Translation>, Error>(e),
                Ok(None) => found == Ok::<Option<Translation>, Error>(None),
                Ok(Some(e)) => if !e.present() {
                    found == Ok::<Option<Translation>, Error>(None)
                } else if e.large_page() {
                    found == Ok::<Option<Translation>, Error>(
                        Some(
                            Translation {
                                address: (e.frame() + va.spec_large_page_offset()) as u64,
                                large: true,
                                writable: first.writable() && second.writable() && e.writable(),
                                user: first.user() && second.user() && e.user(),
                                nx: first.nx() || second.nx() || e.nx(),
                            },
                        ),
                    )
                } else {
                    space.may_finish_pt(first, second, e, va, found)
                },
            }
        };
    lemma_load(space, second.frame(), va.spec_index(PDE_SHIFT), pde, load);
    law_bits_of_an_entry(load->Ok_0->0);
}

/// A second-level entry with the large-page bit maps a page of 1 GiB: the address
/// leads to the frame that the entry gives, as far into it as the address lies in
/// the page. What the mapping allows both entries must allow.
pub proof fn law_huge_page<B: MemoryOps<PhysAddr>>(
    space: &AddressSpace<'_, B>,
    va: VirtAddr,
    pml4e: int,
    pdpte: int,
    found: TranslationResult,
)
    requires
        has_pdpte(space, va, pml4e, pdpte),
        ends_here(pdpte),
        space.may_translate(va, found),
    ensures
        found matches Ok(Some(t)) && {
            &&& t.address == target_of(pdpte) + va.0 as int % 0x4000_0000
            &&& t.large
            &&& t.writable <==> is_writable(pml4e) && is_writable(pdpte)
            &&& t.user <==> is_user(pml4e) && is_user(pdpte)
            &&& t.nx <==> no_execute(pml4e) || no_execute(pdpte)
        },
{
    lemma_second(space, va, pml4e, pdpte, found);
    law_bits_of_an_entry(PageTableEntry(pdpte as u64));
}

/// A third-level entry with the large-page bit maps a page of 2 MiB.
pub proof fn law_large_page<B: MemoryOps<PhysAddr>>(
    space: &AddressSpace<'_, B>,
    va: VirtAddr,
    pml4e: int,
    pdpte: int,
    pde: int,
    found: TranslationResult,
)
    requires
        has_pde(space, va, pml4e, pdpte, pde),
        ends_here(pde),
        space.may_translate(va, found),
    ensures
        found matches Ok(Some(t)) && {
            &&& t.address == target_of(pde) + va.0 as int % 0x20_0000
            &&& t.large
            &&& t.writable <==> is_writable(pml4e) && is_writable(pdpte) && is_writable(pde)
            &&& t.user <==> is_user(pml4e) && is_user(pdpte) && is_user(pde)
            &&& t.nx <==> no_execute(pml4e) || no_execute(pdpte) || no_execute(pde)
        },
{
    lemma_third(space, va, pml4e, pdpte, pde, found);
    law_bits_of_an_entry(PageTableEntry(pde as u64));
}

/// A last-level entry maps a page of 4 KiB.
pub proof fn law_small_page<B: MemoryOps<PhysAddr>>(
    space: &AddressSpace<'_, B>,
    va: VirtAddr,
    pml4e: int,
    pdpte: int,
    pde: int,
    pte: int,
    found: TranslationResult,
)
    requires
        has_pde(space, va, pml4e, pdpte, pde),
        !ends_here(pde),
        keeps_entry(space.backend, slot(target_of(pde), va, 0x1000), pte),
        space.may_translate(va, found),
    ensures
        !is_present(pte) ==> found == Ok::<Option<Translation>, Error>(None),
        is_present(pte) ==> (found matches Ok(Some(t)) && {
            &&& t.address == target_of(pte) + va.0 as int % 0x1000
            &&& !t.large
            &&& t.writable <==> is_writable(pml4e) && is_writable(pdpte) && is_writable(pde)
                && is_writable(pte)
            &&& t.user <==> is_user(pml4e) && is_user(pdpte) && is_user(pde) && is_user(pte)
            &&& t.nx <==> no_execute(pml4e) || no_execute(pdpte) || no_execute(pde) || no_execute(
                pte,
            )
        }),
{
    lemma_third(space, va, pml4e, pdpte, pde, found);
    let first = PageTableEntry(pml4e as u64);
    let second = PageTableEntry(pdpte as u64);
    let third = PageTableEntry(pde as u64);
    law_bits_of_an_entry(first);
    law_bits_of_an_entry(second);
    law_bits_of_an_entry(third);
    lemma_slots(third.frame(), va);
    let load = choose|load: EntryLoad|
        {
            &&& #[trigger] space.may_load(third.frame(), va.spec_index(PTE_SHIFT), load)
            &&& match load {
                Err(e) => found == Err::<Option<Translation>, Error>(e),
                Ok(None) => found == Ok::<Option<Translation>, Error>(None),
                Ok(Some(e)) => if !e.present() {
                    found == Ok::<Option<Translation>, Error>(None)
                } else {
                    found == Ok::<Option<Translation>, Error>(
                        Some(
                            Translation {
                                address: (e.frame() + va.spec_page_offset()) as u64,
                                large: false,
                                writable: first.writable() && second.writable()
                                    && third.writable() && e.writable(),
                                user: first.user() && second.user() && third.user() && e.user(),
                                nx: first.nx() || second.nx() || third.nx() || e.nx(),
                            },
                        ),
                    )
                },
            }
        };
    lemma_load(space, third.frame(), va.spec_index(PTE_SHIFT), pte, load);
    law_bits_of_an_entry(load->Ok_0->0);
}

/// Two page directories whose large-page entries differ in their frame alone map
/// the same address as far apart as the frames are.
pub proof fn law_large_page_follows_its_frame<B: MemoryOps<PhysAddr>>(
    one: &AddressSpace<'_, B>,
    other: &AddressSpace<'_, B>,
    va: VirtAddr,
    pml4e: int,
    pdpte: int,
    one_pde: int,
    other_pde: int,
    one_found: Translation,
    other_found: Translation,
)
    requires
        has_pde(one, va, pml4e, pdpte, one_pde),
        has_pde(other, va, pml4e, pdpte, other_pde),
        ends_here(one_pde),
        ends_here(other_pde),
        one.may_translate(va, Ok(Some(one_found))),
        other.may_translate(va, Ok(Some(other_found))),
    ensures
        other_found.address - one_found.address == target_of(other_pde) - target_of(one_pde),
{
    law_large_page(one, va, pml4e, pdpte, one_pde, Ok(Some(one_found)));
    law_large_page(other, va, pml4e, pdpte, other_pde, Ok(Some(other_found)));
}

/// The same of pages of 1 GiB.
pub proof fn law_huge_page_follows_its_frame<B: MemoryOps<PhysAddr>>(
    one: &AddressSpace<'_, B>,
    other: &AddressSpace<'_, B>,
    va: VirtAddr,
    pml4e: int,
    one_pdpte: int,
    other_pdpte: int,
    one_found: Translation,
    other_found: Translation,
)
    requires
        has_pdpte(one, va, pml4e, one_pdpte),
        has_pdpte(other, va, pml4e, other_pdpte),
        ends_here(one_pdpte),
        ends_here(other_pdpte),
        one.may_translate(va, Ok(Some(one_found))),
        other.may_translate(va, Ok(Some(other_found))),
    ensures
        other_found.address - one_found.address == target_of(other_pdpte) - target_of(one_pdpte),
{
    law_huge_page(one, va, pml4e, one_pdpte, Ok(Some(one_found)));
    law_huge_page(other, va, pml4e, other_pdpte, Ok(Some(other_found)));
}

/// The same of pages of 4 KiB.
pub proof fn law_small_page_follows_its_frame<B: MemoryOps<PhysAddr>>(
    one: &AddressSpace<'_, B>,
    other: &AddressSpace<'_, B>,
    va: VirtAddr,
    pml4e: int,
    pdpte: int,
    pde: int,
    one_pte: int,
    other_pte: int,
    one_found: Translation,
    other_found: Translation,
)
    requires
        has_pde(one, va, pml4e, pdpte, pde),
        has_pde(other, va, pml4e, pdpte, pde),
        !ends_here(pde),
        keeps_entry(one.backend, slot(target_of(pde), va, 0x1000), one_pte),
        keeps_entry(other.backend, slot(target_of(pde), va, 0x1000), other_pte),
        one.may_translate(va, Ok(Some(one_found))),
        other.may_translate(va, Ok(Some(other_found))),
    ensures
        other_found.address - one_found.address == target_of(other_pte) - target_of(one_pte),
{
    law_small_page(one, va, pml4e, pdpte, pde, one_pte, Ok(Some(one_found)));
    law_small_page(other, va, pml4e, pdpte, pde, other_pte, Ok(Some(other_found)));
}

/// Where an entry on the way is not present, the address is not mapped.
pub proof fn law_absent_entry<B: MemoryOps<PhysAddr>>(
    space: &AddressSpace<'_, B>,
    va: VirtAddr,
    pml4e: int,
    pdpte: int,
    pde: int,
    absent: int,
    found: TranslationResult,
)
    requires
        space.dtb != u64::MAX,
        !is_present(absent),
        keeps_entry(space.backend, slot(space.dtb as int, va, 0x80_0000_0000), absent) || (
        has_pml4e(space, va, pml4e) && keeps_entry(
            space.backend,
            slot(target_of(pml4e), va, 0x4000_0000),
            absent,
        )) || (has_pdpte(space, va, pml4e, pdpte) && !ends_here(pdpte) && keeps_entry(
            space.backend,
            slot(target_of(pdpte), va, 0x20_0000),
            absent,
        )) || (has_pde(space, va, pml4e, pdpte, pde) && !ends_here(pde) && keeps_entry(
            space.backend,
            slot(target_of(pde), va, 0x1000),
            absent,
        )),
        space.may_translate(va, found),
    ensures
        found == Ok::<Option<Translation>, Error>(None),
{
    if keeps_entry(space.backend, slot(space.dtb as int, va, 0x80_0000_0000), absent) {
        lemma_slots(space.dtb, va);
        let load = choose|load: EntryLoad|
            {
                &&& #[trigger] space.may_load(space.dtb, va.spec_index(PML4E_SHIFT), load)
                &&& match load {
                    Err(e) => found == Err::<Option<Translation>, Error>(e),
                    Ok(None) => found == Ok::<Option<Translation>, Error>(None),
                    Ok(Some(e)) => e.present() || found == Ok::<Option<Translation>, Error>(None),
                }
            };
        lemma_load(space, space.dtb, va.spec_index(PML4E_SHIFT), absent, load);
        law_bits_of_an_entry(load->Ok_0->0);
    } else if has_pml4e(space, va, pml4e) && keeps_entry(
        space.backend,
        slot(target_of(pml4e), va, 0x4000_0000),
        absent,
    ) {
        lemma_first(space, va, pml4e, found);
        let first = PageTableEntry(pml4e as u64);
        law_bits_of_an_entry(first);
        lemma_slots(first.frame(), va);
        let load = choose|load: EntryLoad|
            {
                &&& #[trigger] space.may_load(first.frame(), va.spec_index(PDPTE_SHIFT), load)
                &&& match load {
                    Err(e) => found == Err::<Option<Translation>, Error>(e),
                    Ok(None) => found == Ok::<Option<Translation>, Error>(None),
                    Ok(Some(e)) => e.present() || found == Ok::<Option<Translation>, Error>(None),
                }
            };
        lemma_load(space, first.frame(), va.spec_index(PDPTE_SHIFT), absent, load);
        law_bits_of_an_entry(load->Ok_0->0);
    } else if has_pdpte(space, va, pml4e, pdpte) && !ends_here(pdpte) && keeps_entry(
        space.backend,
        slot(target_of(pdpte), va, 0x20_0000),
        absent,
    ) {
        lemma_second(space, va, pml4e, pdpte, found);
        let second = PageTableEntry(pdpte as u64);
        law_bits_of_an_entry(second);
        lemma_slots(second.frame(), va);
        let load = choose|load: EntryLoad|
            {
                &&& #[trigger] space.may_load(second.frame(), va.spec_index(PDE_SHIFT), load)
                &&& match load {
                    Err(e) => found == Err::<Option<Translation>, Error>(e),
                    Ok(None) => found == Ok::<Option<Translation>, Error>(None),
                    Ok(Some(e)) => e.present() || found == Ok::<Option<Translation>, Error>(None),
                }
            };
        lemma_load(space, second.frame(), va.spec_index(PDE_SHIFT), absent, load);
        law_bits_of_an_entry(load->Ok_0->0);
    } else {
        law_small_page(space, va, pml4e, pdpte, pde, absent, found);
    }
}

/// Where a table on the way lies outside guest memory, the address is not mapped;
/// any other error of a read on the way is passed on.
pub proof fn law_lost_entry<B: MemoryOps<PhysAddr>>(
    space: &AddressSpace<'_, B>,
    va: VirtAddr,
    pml4e: int,
    pdpte: int,
    pde: int,
    error: Error,
    found: TranslationResult,
)
    requires
        space.dtb != u64::MAX,
        loses_entry(space.backend, slot(space.dtb as int, va, 0x80_0000_0000), error) || (
        has_pml4e(space, va, pml4e) && loses_entry(
            space.backend,
            slot(target_of(pml4e), va, 0x4000_0000),
            error,
        )) || (has_pdpte(space, va, pml4e, pdpte) && !ends_here(pdpte) && loses_entry(
            space.backend,
            slot(target_of(pdpte), va, 0x20_0000),
            error,
        )) || (has_pde(space, va, pml4e, pdpte, pde) && !ends_here(pde) && loses_entry(
            space.backend,
            slot(target_of(pde), va, 0x1000),
            error,
        )),
        space.may_translate(va, found),
    ensures
        error is BadPhysicalAddress ==> found == Ok::<Option<Translation>, Error>(None),
        !(error is BadPhysicalAddress) ==> found == Err::<Option<Translation>, Error>(error),
{
    if loses_entry(space.backend, slot(space.dtb as int, va, 0x80_0000_0000), error) {
        lemma_slots(space.dtb, va);
        let load = choose|load: EntryLoad|
            {
                &&& #[trigger] space.may_load(space.dtb, va.spec_index(PML4E_SHIFT), load)
                &&& match load {
                    Err(e) => found == Err::<Option<Translation>, Error>(e),
                    Ok(None) => found == Ok::<Option<Translation>, Error>(None),
                    Ok(Some(_)) => true,
                }
            };
        lemma_lost(space, space.dtb, va.spec_index(PML4E_SHIFT), error, load);
    } else if has_pml4e(space, va, pml4e) && loses_entry(
        space.backend,
        slot(target_of(pml4e), va, 0x4000_0000),
        error,
    ) {
        lemma_first(space, va, pml4e, found);
        let first = PageTableEntry(pml4e as u64);
        law_bits_of_an_entry(first);
        lemma_slots(first.frame(), va);
        let load = choose|load: EntryLoad|
            {
                &&& #[trigger] space.may_load(first.frame(), va.spec_index(PDPTE_SHIFT), load)
                &&& match load {
                    Err(e) => found == Err::<Option<Translation>, Error>(e),
                    Ok(None) => found == Ok::<Option<Translation>, Error>(None),
                    Ok(Some(_)) => true,
                }
            };
        lemma_lost(space, first.frame(), va.spec_index(PDPTE_SHIFT), error, load);
    } else if has_pdpte(space, va, pml4e, pdpte) && !ends_here(pdpte) && loses_entry(
        space.backend,
        slot(target_of(pdpte), va, 0x20_0000),
        error,
    ) {
        lemma_second(space, va, pml4e, pdpte, found);
        let second = PageTableEntry(pdpte as u64);
        law_bits_of_an_entry(second);
        lemma_slots(second.frame(), va);
        let load = choose|load: EntryLoad|
            {
                &&& #[trigger] space.may_load(second.frame(), va.spec_index(PDE_SHIFT), load)
                &&& match load {
                    Err(e) => found == Err::<Option<Translation>, Error>(e),
                    Ok(None) => found == Ok::<Option<Translation>, Error>(None),
                    Ok(Some(_)) => true,
                }
            };
        lemma_lost(space, second.frame(), va.spec_index(PDE_SHIFT), error, load);
    } else {
        lemma_third(space, va, pml4e, pdpte, pde, found);
        let third = PageTableEntry(pde as u64);
        law_bits_of_an_entry(third);
        lemma_slots(third.frame(), va);
        let load = choose|load: EntryLoad|
            {
                &&& #[trigger] space.may_load(third.frame(), va.spec_index(PTE_SHIFT), load)
                &&& match load {
                    Err(e) => found == Err::<Option<Translation>, Error>(e),
                    Ok(None) => found == Ok::<Option<Translation>, Error>(None),
                    Ok(Some(_)) => true,
                }
            };
        lemma_lost(space, third.frame(), va.spec_index(PTE_SHIFT), error, load);
    }
}

/// Under the identity sentinel, all bits set, an address leads to itself, and the
/// translation claims no rights.
pub proof fn law_identity_leads_to_itself<B: MemoryOps<PhysAddr>>(
    space: &AddressSpace<'_, B>,
    va: VirtAddr,
    found: TranslationResult,
)
    requires
        space.dtb == u64::MAX,
        space.may_translate(va, found),
    ensures
        found matches Ok(Some(t)) && {
            &&& t.address == va.0
            &&& !t.large && !t.writable && !t.user && !t.nx
        },
{
}

/// The parts of an address and of an entry are those of the format: four indices
/// of nine bits from bit 12 on, the offsets within the three sizes of page, and
/// the frame in bits 12 to 35.
pub proof fn law_parts_are_those_of_the_format(va: VirtAddr, entry: PageTableEntry)
    ensures
        va.spec_index(PTE_SHIFT) == (va.0 as int / 0x1000) % 512,
        va.spec_index(PDE_SHIFT) == (va.0 as int / 0x20_0000) % 512,
        va.spec_index(PDPTE_SHIFT) == (va.0 as int / 0x4000_0000) % 512,
        va.spec_index(PML4E_SHIFT) == (va.0 as int / 0x80_0000_0000) % 512,
        va.spec_page_offset() == va.0 as int % 0x1000,
        va.spec_large_page_offset() == va.0 as int % 0x20_0000,
        va.spec_huge_page_offset() == va.0 as int % 0x4000_0000,
        entry.frame() == target_of(entry.0 as int),
        entry.frame() >> crate::memory::PAGE_SHIFT as u64 == (entry.0 as int / 0x1000)
            % 0x100_0000,
        entry.present() == is_present(entry.0 as int),
        entry.writable() == is_writable(entry.0 as int),
        entry.user() == is_user(entry.0 as int),
        entry.large_page() == ends_here(entry.0 as int),
        entry.nx() == no_execute(entry.0 as int),
{
    law_bits_of_an_entry(entry);
    let (v, e) = (va.0, entry.0);
    assert({
        &&& (v >> 39u64) & 0x1FF == (v / 0x80_0000_0000) % 512
        &&& (v >> 30u64) & 0x1FF == (v / 0x4000_0000) % 512
        &&& (v >> 21u64) & 0x1FF == (v / 0x20_0000) % 512
        &&& (v >> 12u64) & 0x1FF == (v / 0x1000) % 512
        &&& (e & ((!0xFu64 << 8) & 0xFFFFFFFFFu64)) >> 12u64 == (e / 0x1000) % 0x100_0000
    }) by (bit_vector);
}

/// What [`AddressSpace::virt_to_phys`] returns for an address in a page of 2 MiB.
pub proof fn law_virt_to_phys_in_a_large_page<'a, B: MemoryOps<PhysAddr>>(
    space: &AddressSpace<'a, B>,
    va: VirtAddr,
    pml4e: int,
    pdpte: int,
    pde: int,
    found: TranslationResult,
)
    requires
        call_ensures(AddressSpace::<'a, B>::virt_to_phys, (space, va), found),
        has_pde(space, va, pml4e, pdpte, pde),
        ends_here(pde),
    ensures
        found matches Ok(Some(t)) && t.address == target_of(pde) + va.0 as int % 0x20_0000,
{
    law_large_page(space, va, pml4e, pdpte, pde, found);
}

/// What [`AddressSpace::virt_to_phys`] returns for an address in a page of 1 GiB.
pub proof fn law_virt_to_phys_in_a_huge_page<'a, B: MemoryOps<PhysAddr>>(
    space: &AddressSpace<'a, B>,
    va: VirtAddr,
    pml4e: int,
    pdpte: int,
    found: TranslationResult,
)
    requires
        call_ensures(AddressSpace::<'a, B>::virt_to_phys, (space, va), found),
        has_pdpte(space, va, pml4e, pdpte),
        ends_here(pdpte),
    ensures
        found matches Ok(Some(t)) && t.address == target_of(pdpte) + va.0 as int % 0x4000_0000,
{
    law_huge_page(space, va, pml4e, pdpte, found);
}

/// What [`AddressSpace::virt_to_phys`] returns for an address in a page of 4 KiB.
pub proof fn law_virt_to_phys_in_a_small_page<'a, B: MemoryOps<PhysAddr>>(
    space: &AddressSpace<'a, B>,
    va: VirtAddr,
    pml4e: int,
    pdpte: int,
    pde: int,
    pte: int,
    found: TranslationResult,
)
    requires
        call_ensures(AddressSpace::<'a, B>::virt_to_phys, (space, va), found),
        has_pde(space, va, pml4e, pdpte, pde),
        !ends_here(pde),
        keeps_entry(space.backend, slot(target_of(pde), va, 0x1000), pte),
    ensures
        is_present(pte) ==> (found matches Ok(Some(t)) && t.address == target_of(pte) + va.0 as int
            % 0x1000),
        !is_present(pte) ==> found matches Ok(None),
{
    law_small_page(space, va, pml4e, pdpte, pde, pte, found);
}

} // verus!
