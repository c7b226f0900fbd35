//! Addresses and page-table entries of an x86-64 guest.
use crate::memory::{
    PAGE_SHIFT, PDE_SHIFT, PDPTE_SHIFT, PFN_MASK, PML4E_SHIFT, PTE_SHIFT, PT_INDEX_MASK,
};
use vstd::prelude::*;

verus! {

/// A guest physical address.
pub type PhysAddr = u64;

/// A directory table base: the physical address of a top-level page table.
pub type Dtb = u64;

/// A guest virtual address.
#[derive(Debug, Clone, Copy, PartialEq, Eq, Structural, Hash)]
pub struct VirtAddr(pub u64);

impl VirtAddr {
    /// Whether this is the null address.
    pub fn is_zero(self) -> (r: bool)
        ensures
            r == (self.0 == 0),
    {
        self.0 == 0
    }

    /// The address `offset` bytes further on, in the 64-bit address circle.
    pub open spec fn spec_offset(self, offset: int) -> VirtAddr {
        VirtAddr(((self.0 + offset) % 0x1_0000_0000_0000_0000) as u64)
    }

    /// The address `offset` bytes further on, in the 64-bit address circle.
    pub fn offset(self, offset: u64) -> (r: VirtAddr)
        ensures
            r == self.spec_offset(offset as int),
    {
        VirtAddr(self.0.wrapping_add(offset))
    }

    /// The index into the top-level table.
    pub fn pml4_index(self) -> (r: usize)
        ensures
            r == self.spec_index(PML4E_SHIFT),
            r < 512,
    {
        let v = self.0;
        assert((v >> 39u64) & 0x1FF < 512) by (bit_vector);
        ((v >> PML4E_SHIFT as u64) & PT_INDEX_MASK) as usize
    }

    /// The index into the second-level table.
    pub fn pdpt_index(self) -> (r: usize)
        ensures
            r == self.spec_index(PDPTE_SHIFT),
            r < 512,
    {
        let v = self.0;
        assert((v >> 30u64) & 0x1FF < 512) by (bit_vector);
        ((v >> PDPTE_SHIFT as u64) & PT_INDEX_MASK) as usize
    }

    /// The index into the third-level table.
    pub fn pd_index(self) -> (r: usize)
        ensures
            r == self.spec_index(PDE_SHIFT),
            r < 512,
    {
        let v = self.0;
        assert((v >> 21u64) & 0x1FF < 512) by (bit_vector);
        ((v >> PDE_SHIFT as u64) & PT_INDEX_MASK) as usize
    }

    /// The index into the last-level table.
    pub fn pt_index(self) -> (r: usize)
        ensures
            r == self.spec_index(PTE_SHIFT),
            r < 512,
    {
        let v = self.0;
        assert((v >> 12u64) & 0x1FF < 512) by (bit_vector);
        ((v >> PTE_SHIFT as u64) & PT_INDEX_MASK) as usize
    }

    /// The nine address bits from `shift` on: an index into a page table.
    pub open spec fn spec_index(self, shift: u8) -> usize {
        ((self.0 >> shift as u64) & PT_INDEX_MASK) as usize
    }

    /// The offset within a 4 KiB page.
    pub open spec fn spec_page_offset(self) -> u64 {
        self.0 % 0x1000
    }

    /// The offset within a 4 KiB page.
    pub fn page_offset(self) -> (r: u64)
        ensures
            r == self.spec_page_offset(),
            r < 0x1000,
    {
        let v = self.0;
        assert(v & 0xFFF == v % 0x1000) by (bit_vector);
        v & 0xFFF
    }

    /// The offset within a 2 MiB page.
    pub open spec fn spec_large_page_offset(self) -> u64 {
        self.0 % 0x20_0000
    }

    /// The offset within a 2 MiB page.
    pub fn large_page_offset(self) -> (r: u64)
        ensures
            r == self.spec_large_page_offset(),
            r < 0x20_0000,
    {
        let v = self.0;
        assert(v & 0x1F_FFFF == v % 0x20_0000) by (bit_vector);
        v & 0x1F_FFFF
    }

    /// The offset within a 1 GiB page.
    pub open spec fn spec_huge_page_offset(self) -> u64 {
        self.0 % 0x4000_0000
    }

    /// The offset within a 1 GiB page.
    pub fn huge_page_offset(self) -> (r: u64)
        ensures
            r == self.spec_huge_page_offset(),
            r < 0x4000_0000,
    {
        let v = self.0;
        assert(v & 0x3FFF_FFFF == v % 0x4000_0000) by (bit_vector);
        v & 0x3FFF_FFFF
    }
}

/// One entry of a page table, at any level.
#[derive(Debug, Clone, Copy, PartialEq, Eq, Structural)]
pub struct PageTableEntry(pub u64);

impl PageTableEntry {
    /// The physical address of the frame or of the next table.
    pub open spec fn frame(self) -> u64 {
        self.0 & PFN_MASK
    }

    /// Whether the entry maps anything (bit 0).
    pub open spec fn present(self) -> bool {
        self.0 & 1 != 0
    }

    /// Whether writes are allowed (bit 1).
    pub open spec fn writable(self) -> bool {
        self.0 & 2 != 0
    }

    /// Whether user mode has access (bit 2).
    pub open spec fn user(self) -> bool {
        self.0 & 4 != 0
    }

    /// Whether the entry maps a large page (bit 7).
    pub open spec fn large_page(self) -> bool {
        self.0 & 0x80 != 0
    }

    /// Whether execution is forbidden (bit 63).
    pub open spec fn nx(self) -> bool {
        self.0 & 0x8000_0000_0000_0000 != 0
    }

    /// The physical address of the frame or of the next table.
    pub fn page_frame(self) -> (r: u64)
        ensures
            r == self.frame(),
            r <= PFN_MASK,
            r % 0x1000 == 0,
    {
        let v = self.0;
        assert(v & ((!0xFu64 << 8) & 0xFFFFFFFFFu64) <= ((!0xFu64 << 8) & 0xFFFFFFFFFu64))
            by (bit_vector);
        assert((v & ((!0xFu64 << 8) & 0xFFFFFFFFFu64)) % 0x1000 == 0) by (bit_vector);
        v & PFN_MASK
    }

    /// The number of the frame.
    pub fn pfn(self) -> (r: u64)
        ensures
            r == self.frame() >> PAGE_SHIFT as u64,
    {
        self.page_frame() >> PAGE_SHIFT as u64
    }

    pub fn is_present(self) -> (r: bool)
        ensures
            r == self.present(),
    {
        self.0 & 1 != 0
    }

    pub fn is_writable(self) -> (r: bool)
        ensures
            r == self.writable(),
    {
        self.0 & 2 != 0
    }

    pub fn is_user(self) -> (r: bool)
        ensures
            r == self.user(),
    {
        self.0 & 4 != 0
    }

    pub fn is_large_page(self) -> (r: bool)
        ensures
            r == self.large_page(),
    {
        self.0 & 0x80 != 0
    }

    pub fn is_nx(self) -> (r: bool)
        ensures
            r == self.nx(),
    {
        self.0 & 0x8000_0000_0000_0000 != 0
    }
}

} // verus!
