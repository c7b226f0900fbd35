//! Translation of guest virtual addresses, and reads and writes through it.
use crate::error::Error;
use crate::types::{Dtb, PageTableEntry, PhysAddr, VirtAddr};
use vstd::prelude::*;

verus! {

/// The page-frame bits of a page-table entry.
pub const PFN_MASK: u64 = (!0xFu64 << 8) & 0xFFFFFFFFFu64;

/// The size of a small page: 4 KiB.
pub const PAGE_SIZE: usize = 0x1000;

pub const PAGE_SHIFT: u32 = 12;

pub const PTE_SHIFT: u8 = 12;

pub const PDE_SHIFT: u8 = 21;

pub const PDPTE_SHIFT: u8 = 30;

pub const PML4E_SHIFT: u8 = 39;

pub const PT_INDEX_MASK: u64 = 0x1FF;

/// Sentinel DTB: `AddressSpace` skips page-table translation and treats
/// virtual addresses as physical. Used by triage dumps, which only contain
/// captured virtual memory regions.
pub const DTB_IDENTITY: Dtb = u64::MAX;

/// Memory that can be read and written by address.
///
/// What a read finds and whether an access succeeds is up to the memory: each
/// implementation says so in its two relations, and one that says nothing may
/// do anything.
pub trait MemoryOps<A>: Sized {
    /// Whether a read at `addr` into a buffer that holds `before` may leave
    /// `after` in the buffer and end with `outcome`.
    open spec fn may_read(
        &self,
        addr: A,
        before: Seq<u8>,
        after: Seq<u8>,
        outcome: Result<(), Error>,
    ) -> bool {
        true
    }

    /// Whether a write of `bytes` at `addr` may end with `outcome` and leave the
    /// memory as `post`.
    open spec fn may_write(
        &self,
        addr: A,
        bytes: Seq<u8>,
        outcome: Result<(), Error>,
        post: &Self,
    ) -> bool {
        true
    }

    /// Fills `buf` with the bytes at `addr`.
    fn read_bytes(&self, addr: A, buf: &mut [u8]) -> (r: Result<(), Error>)
        ensures
            final(buf)@.len() == old(buf)@.len(),
            self.may_read(addr, old(buf)@, final(buf)@, r),
    ;

    /// Stores `buf` at `addr`.
    fn write_bytes(&mut self, addr: A, buf: &[u8]) -> (r: Result<(), Error>)
        ensures
            old(self).may_write(addr, buf@, r, final(self)),
    ;
}

/// The virtual memory that one top-level page table describes.
pub struct AddressSpace<'a, B: MemoryOps<PhysAddr>> {
    pub backend: &'a B,
    pub dtb: Dtb,
}

/// Where a virtual address leads, and what the mapping allows.
#[derive(Debug, Clone, Copy, PartialEq, Eq, Structural)]
pub struct Translation {
    pub address: PhysAddr,
    pub large: bool,
    pub writable: bool,
    pub user: bool,
    pub nx: bool,
}

impl Translation {
    /// The translation through a 1 GiB page.
    pub fn new_huge(pml4e: PageTableEntry, pdpte: PageTableEntry, va: VirtAddr) -> (r: Self)
        ensures
            r.address == pdpte.frame() + va.spec_huge_page_offset(),
            r.large,
            r.writable == (pml4e.writable() && pdpte.writable()),
            r.user == (pml4e.user() && pdpte.user()),
            r.nx == (pml4e.nx() || pdpte.nx()),
    {
        assert(((!0xFu64 << 8) & 0xFFFFFFFFFu64) == 0xF_FFFF_F000u64) by (bit_vector);
        Self {
            address: pdpte.page_frame() + va.huge_page_offset(),
            large: true,
            writable: pml4e.is_writable() && pdpte.is_writable(),
            user: pml4e.is_user() && pdpte.is_user(),
            nx: pml4e.is_nx() || pdpte.is_nx(),
        }
    }

    /// The translation through a 2 MiB page.
    pub fn new_large(
        pml4e: PageTableEntry,
        pdpte: PageTableEntry,
        pde: PageTableEntry,
        va: VirtAddr,
    ) -> (r: Self)
        ensures
            r.address == pde.frame() + va.spec_large_page_offset(),
            r.large,
            r.writable == (pml4e.writable() && pdpte.writable() && pde.writable()),
            r.user == (pml4e.user() && pdpte.user() && pde.user()),
            r.nx == (pml4e.nx() || pdpte.nx() || pde.nx()),
    {
        assert(((!0xFu64 << 8) & 0xFFFFFFFFFu64) == 0xF_FFFF_F000u64) by (bit_vector);
        Self {
            address: pde.page_frame() + va.large_page_offset(),
            large: true,
            writable: pml4e.is_writable() && pdpte.is_writable() && pde.is_writable(),
            user: pml4e.is_user() && pdpte.is_user() && pde.is_user(),
            nx: pml4e.is_nx() || pdpte.is_nx() || pde.is_nx(),
        }
    }

    /// The translation through a 4 KiB page.
    pub fn new(
        pml4e: PageTableEntry,
        pdpte: PageTableEntry,
        pde: PageTableEntry,
        pte: PageTableEntry,
        va: VirtAddr,
    ) -> (r: Self)
        ensures
            r.address == pte.frame() + va.spec_page_offset(),
            !r.large,
            r.writable == (pml4e.writable() && pdpte.writable() && pde.writable()
                && pte.writable()),
            r.user == (pml4e.user() && pdpte.user() && pde.user() && pte.user()),
            r.nx == (pml4e.nx() || pdpte.nx() || pde.nx() || pte.nx()),
    {
        assert(((!0xFu64 << 8) & 0xFFFFFFFFFu64) == 0xF_FFFF_F000u64) by (bit_vector);
        Self {
            address: pte.page_frame() + va.page_offset(),
            large: false,
            writable: pml4e.is_writable() && pdpte.is_writable() && pde.is_writable()
                && pte.is_writable(),
            user: pml4e.is_user() && pdpte.is_user() && pde.is_user() && pte.is_user(),
            nx: pml4e.is_nx() || pdpte.is_nx() || pde.is_nx() || pte.is_nx(),
        }
    }
}

/// What loading one page-table entry yields: the entry, nothing where the
/// table lies outside guest memory, or an error.
pub type EntryLoad = Result<Option<PageTableEntry>, Error>;

/// What translating an address yields: nothing where it is not mapped.
pub type TranslationResult = Result<Option<Translation>, Error>;

/// A buffer of `len` zero bytes.
pub open spec fn zeroes(len: nat) -> Seq<u8> {
    Seq::new(len, |i: int| 0u8)
}

/// A buffer of `len` zero bytes.
pub fn zero_buffer(len: usize) -> (r: Vec<u8>)
    ensures
        r@ == zeroes(len as nat),
{
    let mut out: Vec<u8> = Vec::new();
    let mut i: usize = 0;
    while i < len
        invariant
            i <= len,
            out@ == zeroes(i as nat),
        decreases len - i,
    {
        out.push(0);
        i += 1;
        assert(zeroes(i as nat) =~= zeroes((i - 1) as nat).push(0));
    }
    out
}

/// `base` with the bytes from `offset` on replaced by `chunk`.
pub open spec fn splice(base: Seq<u8>, offset: int, chunk: Seq<u8>) -> Seq<u8> {
    Seq::new(
        base.len(),
        |i: int|
            if offset <= i < offset + chunk.len() {
                chunk[i - offset]
            } else {
                base[i]
            },
    )
}

/// How many of the `len - offset` bytes that are still to be moved lie on the
/// page of `va`.
pub open spec fn chunk_len(va: VirtAddr, offset: int, len: int) -> int {
    let available = PAGE_SIZE - va.spec_page_offset();
    if len - offset < available {
        len - offset
    } else {
        available
    }
}

/// The address of entry `index` of the page table at `base`.
pub open spec fn entry_address(base: PhysAddr, index: usize) -> PhysAddr {
    ((base + 8 * index) % 0x1_0000_0000_0000_0000) as u64
}

/// The entry that the outcome of an eight-byte read stands for.
pub open spec fn loaded_entry(bytes: Seq<u8>, outcome: Result<(), Error>) -> EntryLoad {
    match outcome {
        Ok(_) => Ok(Some(PageTableEntry(vstd::bytes::spec_u64_from_le_bytes(bytes)))),
        Err(Error::BadPhysicalAddress(_)) => Ok(None),
        Err(e) => Err(e),
    }
}

impl<'a, B: MemoryOps<PhysAddr>> AddressSpace<'a, B> {
    /// Whether loading entry `index` of the table at `base` may yield `load`.
    pub open spec fn may_load(&self, base: PhysAddr, index: usize, load: EntryLoad) -> bool {
        exists|bytes: Seq<u8>, outcome: Result<(), Error>|
            {
                &&& #[trigger] self.backend.may_read(
                    entry_address(base, index),
                    zeroes(8),
                    bytes,
                    outcome,
                )
                &&& bytes.len() == 8
                &&& load == loaded_entry(bytes, outcome)
            }
    }

    /// Whether the walk may end with `result` once the first three entries
    /// are known.
    pub open spec fn may_finish_pt(
        &self,
        pml4e: PageTableEntry,
        pdpte: PageTableEntry,
        pde: PageTableEntry,
        va: VirtAddr,
        result: TranslationResult,
    ) -> bool {
        exists|load: EntryLoad|
            {
                &&& #[trigger] self.may_load(pde.frame(), va.spec_index(PTE_SHIFT), load)
                &&& match load {
                    Err(e) => result == Err::<Option<Translation>, Error>(e),
                    Ok(None) => result == Ok::<Option<Translation>, Error>(None),
                    Ok(Some(pte)) => if !pte.present() {
                        result == Ok::<Option<Translation>, Error>(None)
                    } else {
                        result == Ok::<Option<Translation>, Error>(
                            Some(
                                Translation {
                                    address: (pte.frame() + va.spec_page_offset()) as u64,
                                    large: false,
                                    writable: pml4e.writable() && pdpte.writable()
                                        && pde.writable() && pte.writable(),
                                    user: pml4e.user() && pdpte.user() && pde.user()
                                        && pte.user(),
                                    nx: pml4e.nx() || pdpte.nx() || pde.nx() || pte.nx(),
                                },
                            ),
                        )
                    },
                }
            }
    }

    /// Whether the walk may end with `result` once the first two entries are
    /// known.
    pub open spec fn may_finish_pd(
        &self,
        pml4e: PageTableEntry,
        pdpte: PageTableEntry,
        va: VirtAddr,
        result: TranslationResult,
    ) -> bool {
        exists|load: EntryLoad|
            {
                &&& #[trigger] self.may_load(pdpte.frame(), va.spec_index(PDE_SHIFT), load)
                &&& match load {
                    Err(e) => result == Err::<Option<Translation>, Error>(e),
                    Ok(None) => result == Ok::<Option<Translation>, Error>(None),
                    Ok(Some(pde)) => if !pde.present() {
                        result == Ok::<Option<Translation>, Error>(None)
                    } else if pde.large_page() {
                        result == Ok::<Option<Translation>, Error>(
                            Some(
                                Translation {
                                    address: (pde.frame() + va.spec_large_page_offset()) as u64,
                                    large: true,
                                    writable: pml4e.writable() && pdpte.writable()
                                        && pde.writable(),
                                    user: pml4e.user() && pdpte.user() && pde.user(),
                                    nx: pml4e.nx() || pdpte.nx() || pde.nx(),
                                },
                            ),
                        )
                    } else {
                        self.may_finish_pt(pml4e, pdpte, pde, va, result)
                    },
                }
            }
    }

    /// Whether the walk may end with `result` once the top-level entry is
    /// known.
    pub open spec fn may_finish_pdpt(
        &self,
        pml4e: PageTableEntry,
        va: VirtAddr,
        result: TranslationResult,
    ) -> bool {
        exists|load: EntryLoad|
            {
                &&& #[trigger] self.may_load(pml4e.frame(), va.spec_index(PDPTE_SHIFT), load)
                &&& match load {
                    Err(e) => result == Err::<Option<Translation>, Error>(e),
                    Ok(None) => result == Ok::<Option<Translation>, Error>(None),
                    Ok(Some(pdpte)) => if !pdpte.present() {
                        result == Ok::<Option<Translation>, Error>(None)
                    } else if pdpte.large_page() {
                        result == Ok::<Option<Translation>, Error>(
                            Some(
                                Translation {
                                    address: (pdpte.frame() + va.spec_huge_page_offset()) as u64,
                                    large: true,
                                    writable: pml4e.writable() && pdpte.writable(),
                                    user: pml4e.user() && pdpte.user(),
                                    nx: pml4e.nx() || pdpte.nx(),
                                },
                            ),
                        )
                    } else {
                        self.may_finish_pd(pml4e, pdpte, va, result)
                    },
                }
            }
    }

    /// Whether translating `va` may yield `result`: the four-level walk, or
    /// the address itself under the identity sentinel.
    pub open spec fn may_translate(&self, va: VirtAddr, result: TranslationResult) -> bool {
        if self.dtb == DTB_IDENTITY {
            result == Ok::<Option<Translation>, Error>(Some(identity_translation(va)))
        } else {
            exists|load: EntryLoad|
                {
                    &&& #[trigger] self.may_load(self.dtb, va.spec_index(PML4E_SHIFT), load)
                    &&& match load {
                        Err(e) => result == Err::<Option<Translation>, Error>(e),
                        Ok(None) => result == Ok::<Option<Translation>, Error>(None),
                        Ok(Some(pml4e)) => if !pml4e.present() {
                            result == Ok::<Option<Translation>, Error>(None)
                        } else {
                            self.may_finish_pdpt(pml4e, va, result)
                        },
                    }
                }
        }
    }

    pub fn new(backend: &'a B, dtb: Dtb) -> (r: Self)
        ensures
            r.backend == backend,
            r.dtb == dtb,
    {
        Self { backend, dtb }
    }

    fn read_pt_entry(&self, table_base: PhysAddr, index: usize) -> (r: EntryLoad)
        requires
            index < 512,
        ensures
            self.may_load(table_base, index, r),
    {
        let mut bytes = zero_buffer(8);
        let address: u64 = table_base.wrapping_add(8 * index as u64);
        assert(address == entry_address(table_base, index));
        let outcome = self.backend.read_bytes(address, bytes.as_mut_slice());
        let ghost seen = outcome;
        assert(self.backend.may_read(address, zeroes(8), bytes@, outcome));
        match outcome {
            Ok(()) => {
                let entry = PageTableEntry(vstd::bytes::u64_from_le_bytes(bytes.as_slice()));
                assert(loaded_entry(bytes@, seen) == Ok::<Option<PageTableEntry>, Error>(
                    Some(entry),
                ));
                Ok(Some(entry))
            },
            Err(Error::BadPhysicalAddress(_)) => Ok(None),
            Err(e) => Err(e),
        }
    }

    /// Translates a virtual address; `None` where it is not mapped.
    pub fn virt_to_phys(&self, va: VirtAddr) -> (r: TranslationResult)
        ensures
            self.may_translate(va, r),
    {
        if self.dtb == DTB_IDENTITY {
            return Ok(
                Some(
                    Translation {
                        address: va.0,
                        large: false,
                        writable: false,
                        user: false,
                        nx: false,
                    },
                ),
            );
        }
        let pml4e = match self.read_pt_entry(self.dtb, va.pml4_index()) {
            Ok(Some(entry)) => entry,
            Ok(None) => return Ok(None),
            Err(e) => return Err(e),
        };
        if !pml4e.is_present() {
            return Ok(None);
        }
        let pdpte = match self.read_pt_entry(pml4e.page_frame(), va.pdpt_index()) {
            Ok(Some(entry)) => entry,
            Ok(None) => return Ok(None),
            Err(e) => return Err(e),
        };
        if !pdpte.is_present() {
            return Ok(None);
        }
        if pdpte.is_large_page() {
            return Ok(Some(Translation::new_huge(pml4e, pdpte, va)));
        }
        let pde = match self.read_pt_entry(pdpte.page_frame(), va.pd_index()) {
            Ok(Some(entry)) => entry,
            Ok(None) => return Ok(None),
            Err(e) => return Err(e),
        };
        if !pde.is_present() {
            return Ok(None);
        }
        if pde.is_large_page() {
            return Ok(Some(Translation::new_large(pml4e, pdpte, pde, va)));
        }
        let pte = match self.read_pt_entry(pde.page_frame(), va.pt_index()) {
            Ok(Some(entry)) => entry,
            Ok(None) => return Ok(None),
            Err(e) => return Err(e),
        };
        if !pte.is_present() {
            return Ok(None);
        }
        Ok(Some(Translation::new(pml4e, pdpte, pde, pte, va)))
    }

    /// Whether a read at `addr`, of which the first `offset` bytes are done,
    /// may turn a buffer that holds `before` into `after` and end with
    /// `outcome`.
    pub open spec fn reads_from(
        &self,
        addr: VirtAddr,
        offset: int,
        before: Seq<u8>,
        after: Seq<u8>,
        outcome: Result<(), Error>,
    ) -> bool
        decreases before.len() - offset,
    {
        if offset >= before.len() {
            after == before && outcome == Ok::<(), Error>(())
        } else {
            let va = addr.spec_offset(offset);
            let n = chunk_len(va, offset, before.len() as int);
            exists|found: TranslationResult|
                {
                    &&& #[trigger] self.may_translate(va, found)
                    &&& match found {
                        Err(e) => after == before && outcome == Err::<(), Error>(e),
                        Ok(None) => {
                            &&& after == before
                            &&& outcome == Err::<(), Error>(
                                if offset > 0 {
                                    Error::PartialRead(offset as usize)
                                } else {
                                    Error::BadVirtualAddress(va)
                                },
                            )
                        },
                        Ok(Some(translation)) => {
                            exists|chunk: Seq<u8>, done: Result<(), Error>|
                                {
                                    &&& #[trigger] self.backend.may_read(
                                        translation.address,
                                        before.subrange(offset, offset + n),
                                        chunk,
                                        done,
                                    )
                                    &&& chunk.len() == n
                                    &&& match done {
                                        Err(e) => {
                                            &&& after == splice(before, offset, chunk)
                                            &&& outcome == Err::<(), Error>(e)
                                        },
                                        Ok(_) => self.reads_from(
                                            addr,
                                            offset + n,
                                            splice(before, offset, chunk),
                                            after,
                                            outcome,
                                        ),
                                    }
                                }
                        },
                    }
                }
        }
    }

    /// Whether a read at `addr` may turn a buffer that holds `before` into
    /// `after` and end with `outcome`.
    pub open spec fn may_read(
        &self,
        addr: VirtAddr,
        before: Seq<u8>,
        after: Seq<u8>,
        outcome: Result<(), Error>,
    ) -> bool {
        self.reads_from(addr, 0, before, after, outcome)
    }

    /// Whether a write of `bytes` at `addr` under the table at `dtb`, of which
    /// the first `offset` bytes are done, may end with `outcome` and turn the
    /// memory below from `memory` to `post`.
    pub open spec fn writes_from(
        memory: B,
        dtb: Dtb,
        addr: VirtAddr,
        offset: int,
        bytes: Seq<u8>,
        outcome: Result<(), Error>,
        post: B,
    ) -> bool
        decreases bytes.len() - offset,
    {
        if offset >= bytes.len() {
            outcome == Ok::<(), Error>(()) && post == memory
        } else {
            let va = addr.spec_offset(offset);
            let n = chunk_len(va, offset, bytes.len() as int);
            exists|found: TranslationResult|
                {
                    &&& #[trigger] (AddressSpace { backend: &memory, dtb }).may_translate(va, found)
                    &&& match found {
                        Err(e) => outcome == Err::<(), Error>(e) && post == memory,
                        Ok(None) => {
                            &&& outcome == Err::<(), Error>(
                                if offset > 0 {
                                    Error::PartialWrite(offset as usize)
                                } else {
                                    Error::BadVirtualAddress(va)
                                },
                            )
                            &&& post == memory
                        },
                        Ok(Some(translation)) => {
                            exists|done: Result<(), Error>, next: B|
                                {
                                    &&& #[trigger] memory.may_write(
                                        translation.address,
                                        bytes.subrange(offset, offset + n),
                                        done,
                                        &next,
                                    )
                                    &&& match done {
                                        Err(e) => outcome == Err::<(), Error>(e) && post == next,
                                        Ok(_) => Self::writes_from(
                                            next,
                                            dtb,
                                            addr,
                                            offset + n,
                                            bytes,
                                            outcome,
                                            post,
                                        ),
                                    }
                                }
                        },
                    }
                }
        }
    }

    /// Whether a write of `bytes` at `addr` under the table at `dtb` may end with
    /// `outcome` and turn the memory below from `memory` to `post`.
    pub open spec fn may_write(
        memory: B,
        dtb: Dtb,
        addr: VirtAddr,
        bytes: Seq<u8>,
        outcome: Result<(), Error>,
        post: B,
    ) -> bool {
        Self::writes_from(memory, dtb, addr, 0, bytes, outcome, post)
    }
}

/// The translation under the identity sentinel: the address itself, with no
/// rights claimed and execution not forbidden.
pub open spec fn identity_translation(va: VirtAddr) -> Translation {
    Translation { address: va.0, large: false, writable: false, user: false, nx: false }
}

impl<'a, B: MemoryOps<PhysAddr>> AddressSpace<'a, B> {
    /// Fills `buf` with the bytes at `addr`.
    pub fn read_bytes(&self, addr: VirtAddr, buf: &mut [u8]) -> (r: Result<(), Error>)
        ensures
            final(buf)@.len() == old(buf)@.len(),
            self.may_read(addr, old(buf)@, final(buf)@, r),
    {
        let len: usize = buf.len();
        let mut offset: usize = 0;
        while offset < len
            invariant
                offset <= len,
                len == buf@.len(),
                len == old(buf)@.len(),
                forall|after: Seq<u8>, outcome: Result<(), Error>|
                    #[trigger] self.reads_from(addr, offset as int, buf@, after, outcome)
                        ==> self.reads_from(addr, 0, old(buf)@, after, outcome),
            decreases len - offset,
        {
            let curr_vaddr = addr.offset(offset as u64);
            let ghost start = offset as int;
            let ghost before = buf@;
            let found = self.virt_to_phys(curr_vaddr);
            assert(self.may_translate(addr.spec_offset(start), found));
            let translation = match found {
                Ok(Some(translation)) => translation,
                Ok(None) => {
                    let failure = if offset > 0 {
                        Error::PartialRead(offset)
                    } else {
                        Error::BadVirtualAddress(curr_vaddr)
                    };
                    assert(self.reads_from(addr, start, buf@, buf@, Err(failure)));
                    return Err(failure);
                },
                Err(e) => {
                    assert(self.reads_from(addr, start, buf@, buf@, Err(e)));
                    return Err(e);
                },
            };
            let bytes_available: usize = PAGE_SIZE - curr_vaddr.page_offset() as usize;
            let chunk_size: usize = if len - offset < bytes_available {
                len - offset
            } else {
                bytes_available
            };
            assert(chunk_size == chunk_len(addr.spec_offset(start), start, before.len() as int));
            let (_, rest) = buf.split_at_mut(offset);
            let (chunk, _) = rest.split_at_mut(chunk_size);
            assert(chunk@ =~= before.subrange(start, start + chunk_size));
            let done = self.backend.read_bytes(translation.address, chunk);
            let ghost filled = chunk@;
            assert(self.backend.may_read(
                translation.address,
                before.subrange(start, start + chunk_size),
                filled,
                done,
            ));
            assert(buf@ =~= splice(before, start, filled));
            match done {
                Ok(()) => {},
                Err(e) => {
                    assert(self.reads_from(addr, start, before, buf@, Err(e)));
                    return Err(e);
                },
            }
            assert forall|after: Seq<u8>, outcome: Result<(), Error>| #[trigger]
                self.reads_from(
                    addr,
                    start + chunk_size,
                    buf@,
                    after,
                    outcome,
                ) implies self.reads_from(addr, start, before, after, outcome) by {}
            offset += chunk_size;
        }
        assert(self.reads_from(addr, offset as int, buf@, buf@, Ok(())));
        Ok(())
    }

    /// Stores `buf` at `addr` in the virtual memory that the table at `dtb`
    /// describes; `backend` is the physical memory below.
    pub fn write_bytes(backend: &mut B, dtb: Dtb, addr: VirtAddr, buf: &[u8]) -> (r: Result<
        (),
        Error,
    >)
        ensures
            Self::may_write(*old(backend), dtb, addr, buf@, r, *final(backend)),
    {
        let mut offset: usize = 0;
        while offset < buf.len()
            invariant
                offset <= buf@.len(),
                forall|outcome: Result<(), Error>, post: B|
                    #[trigger] Self::writes_from(
                        *backend,
                        dtb,
                        addr,
                        offset as int,
                        buf@,
                        outcome,
                        post,
                    ) ==> Self::writes_from(*old(backend), dtb, addr, 0, buf@, outcome, post),
            decreases buf@.len() - offset,
        {
            let curr_vaddr = addr.offset(offset as u64);
            let ghost start = offset as int;
            let ghost before = *backend;
            let found = AddressSpace::new(&*backend, dtb).virt_to_phys(curr_vaddr);
            assert((AddressSpace { backend: &before, dtb }).may_translate(
                addr.spec_offset(start),
                found,
            ));
            let translation = match found {
                Ok(Some(translation)) => translation,
                Ok(None) => {
                    let failure = if offset > 0 {
                        Error::PartialWrite(offset)
                    } else {
                        Error::BadVirtualAddress(curr_vaddr)
                    };
                    assert(Self::writes_from(before, dtb, addr, start, buf@, Err(failure), before));
                    return Err(failure);
                },
                Err(e) => {
                    assert(Self::writes_from(before, dtb, addr, start, buf@, Err(e), before));
                    return Err(e);
                },
            };
            let bytes_available: usize = PAGE_SIZE - curr_vaddr.page_offset() as usize;
            let chunk_size: usize = if buf.len() - offset < bytes_available {
                buf.len() - offset
            } else {
                bytes_available
            };
            assert(chunk_size == chunk_len(addr.spec_offset(start), start, buf@.len() as int));
            let done = backend.write_bytes(
                translation.address,
                &buf[offset..offset + chunk_size],
            );
            assert(before.may_write(
                translation.address,
                buf@.subrange(start, start + chunk_size),
                done,
                backend,
            ));
            match done {
                Ok(()) => {},
                Err(e) => {
                    assert(Self::writes_from(before, dtb, addr, start, buf@, Err(e), *backend));
                    return Err(e);
                },
            }
            assert forall|outcome: Result<(), Error>, post: B| #[trigger]
                Self::writes_from(
                    *backend,
                    dtb,
                    addr,
                    start + chunk_size,
                    buf@,
                    outcome,
                    post,
                ) implies Self::writes_from(before, dtb, addr, start, buf@, outcome, post) by {}
            offset += chunk_size;
        }
        assert(Self::writes_from(*backend, dtb, addr, offset as int, buf@, Ok(()), *backend));
        Ok(())
    }
}

} // verus!
