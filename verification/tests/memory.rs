use ntoseye::error::Error;
use ntoseye::memory::{AddressSpace, MemoryOps, Translation, DTB_IDENTITY, PAGE_SIZE};
use ntoseye::types::{PageTableEntry, PhysAddr, VirtAddr};
use std::cell::RefCell;

struct FakePhysMem {
    data: Vec<u8>,
}

impl MemoryOps<PhysAddr> for FakePhysMem {
    fn read_bytes(&self, addr: PhysAddr, buf: &mut [u8]) -> Result<(), Error> {
        let start = addr as usize;
        let end = start + buf.len();
        if end > self.data.len() {
            return Err(Error::BadPhysicalAddress(addr));
        }
        buf.copy_from_slice(&self.data[start..end]);
        Ok(())
    }

    fn write_bytes(&mut self, _addr: PhysAddr, _buf: &[u8]) -> Result<(), Error> {
        Err(Error::BadPhysicalAddress(0))
    }
}

#[test]
fn identity_dtb_skips_page_table_walk() {
    let mut data = vec![0u8; 0x2000];
    // Plant recognizable bytes at VA/PA 0x1000
    data[0x1000..0x1008].copy_from_slice(&0xDEADBEEFCAFEBABEu64.to_le_bytes());
    let mem = FakePhysMem { data };
    let space = AddressSpace::new(&mem, DTB_IDENTITY);

    let mut buf = [0u8; 8];
    space.read_bytes(VirtAddr(0x1000), &mut buf).unwrap();
    assert_eq!(u64::from_le_bytes(buf), 0xDEADBEEFCAFEBABE);
}

#[test]
fn identity_dtb_cross_boundary_read() {
    let mut data = vec![0u8; 0x3000];
    // Span across a 4K boundary: fill 0xFFF..0x1001
    for i in 0xFF0..0x1010 {
        data[i] = (i & 0xFF) as u8;
    }
    let mem = FakePhysMem { data };
    let space = AddressSpace::new(&mem, DTB_IDENTITY);

    let mut buf = [0u8; 0x20];
    space.read_bytes(VirtAddr(0xFF0), &mut buf).unwrap();
    assert_eq!(buf[0], 0xF0);
    assert_eq!(buf[0x10], 0x00); // 0x1000 & 0xFF
    assert_eq!(buf[0x1F], 0x0F); // 0x100F & 0xFF
}

/// Physical memory that can be written; reads of the broken page fail.
struct Ram {
    bytes: RefCell<Vec<u8>>,
    broken: Option<u64>,
}

const PRESENT: u64 = 1;
const WRITABLE: u64 = 2;
const USER: u64 = 4;
const LARGE: u64 = 0x80;
const NX: u64 = 1 << 63;

impl Ram {
    /// Page tables for these three walks at 0x1000 (top level) and up:
    /// small pages at 0x7F00_0000_0000, a 2 MiB page at 0x7F00_0020_0000 and a
    /// 1 GiB page at 0x7F00_4000_0000.
    fn new() -> Self {
        let ram = Ram { bytes: RefCell::new(vec![0; 0x20_0000]), broken: None };
        ram.put(0x1000, 0xFE, 0x2000 | PRESENT | WRITABLE | USER);
        ram.put(0x2000, 0, 0x3000 | PRESENT | WRITABLE | USER);
        ram.put(0x2000, 1, PRESENT | WRITABLE | LARGE | NX);
        ram.put(0x3000, 0, 0x4000 | PRESENT | WRITABLE | USER);
        ram.put(0x3000, 1, PRESENT | USER | LARGE);
        ram.put(0x4000, 0, 0x9000 | PRESENT | WRITABLE | USER);
        ram.put(0x4000, 1, 0xC000 | PRESENT | USER | NX);
        ram.put(0x4000, 3, 0xD000 | WRITABLE);
        ram.put(0x4000, 4, 0xF_FFFF_F000 | PRESENT);
        ram
    }

    fn put(&self, table: usize, index: usize, entry: u64) {
        let at = table + 8 * index;
        self.bytes.borrow_mut()[at..at + 8].copy_from_slice(&entry.to_le_bytes());
    }
}

impl MemoryOps<PhysAddr> for Ram {
    fn read_bytes(&self, addr: PhysAddr, buf: &mut [u8]) -> Result<(), Error> {
        if self.broken == Some(addr & !0xFFF) {
            return Err(Error::Errno(14));
        }
        let bytes = self.bytes.borrow();
        let start = addr as usize;
        if start + buf.len() > bytes.len() {
            return Err(Error::BadPhysicalAddress(addr));
        }
        buf.copy_from_slice(&bytes[start..start + buf.len()]);
        Ok(())
    }

    fn write_bytes(&mut self, addr: PhysAddr, buf: &[u8]) -> Result<(), Error> {
        let mut bytes = self.bytes.borrow_mut();
        let start = addr as usize;
        if start + buf.len() > bytes.len() {
            return Err(Error::BadPhysicalAddress(addr));
        }
        bytes[start..start + buf.len()].copy_from_slice(buf);
        Ok(())
    }
}

const SMALL: u64 = 0x7F00_0000_0000;

#[test]
fn walks_reach_pages_of_every_size() {
    let ram = Ram::new();
    let space = AddressSpace::new(&ram, 0x1000);
    assert_eq!(
        space.virt_to_phys(VirtAddr(SMALL + 0x123)).unwrap(),
        Some(Translation {
            address: 0x9123,
            large: false,
            writable: true,
            user: true,
            nx: false,
        })
    );
    // Rights only shrink on the way down, and execution is forbidden for good.
    assert_eq!(
        space.virt_to_phys(VirtAddr(SMALL + 0x1FFF)).unwrap(),
        Some(Translation {
            address: 0xCFFF,
            large: false,
            writable: false,
            user: true,
            nx: true,
        })
    );
    assert_eq!(
        space.virt_to_phys(VirtAddr(SMALL + 0x20_0000 + 0x1_2345)).unwrap(),
        Some(Translation {
            address: 0x1_2345,
            large: true,
            writable: false,
            user: true,
            nx: false,
        })
    );
    assert_eq!(
        space.virt_to_phys(VirtAddr(SMALL + 0x4000_0000 + 0x123_4567)).unwrap(),
        Some(Translation {
            address: 0x123_4567,
            large: true,
            writable: true,
            user: false,
            nx: true,
        })
    );
}

#[test]
fn a_page_is_mapped_as_a_whole() {
    let ram = Ram::new();
    let space = AddressSpace::new(&ram, 0x1000);
    for page in [SMALL, SMALL + 0x1000, SMALL + 0x20_3000, SMALL + 0x4001_7000] {
        let first = space.virt_to_phys(VirtAddr(page)).unwrap().unwrap();
        assert_eq!(first.address % 0x1000, 0);
        for delta in [1, 0x7FF, 0xFFF] {
            let there = space.virt_to_phys(VirtAddr(page + delta)).unwrap().unwrap();
            assert_eq!(there, Translation { address: first.address + delta, ..first });
        }
    }
}

#[test]
fn absent_entries_are_unmapped() {
    let ram = Ram::new();
    let space = AddressSpace::new(&ram, 0x1000);
    // No entry at any of the four levels.
    for va in [0, SMALL + 0x8000_0000, SMALL + 0x40_0000, SMALL + 0x2000, SMALL + 0x3000] {
        assert_eq!(space.virt_to_phys(VirtAddr(va)).unwrap(), None);
    }
    // A table outside guest memory.
    assert_eq!(
        AddressSpace::new(&ram, 0x4000_0000).virt_to_phys(VirtAddr(SMALL)).unwrap(),
        None
    );
}

#[test]
fn other_errors_end_the_walk() {
    let mut ram = Ram::new();
    ram.broken = Some(0x3000);
    let space = AddressSpace::new(&ram, 0x1000);
    assert!(matches!(
        space.virt_to_phys(VirtAddr(SMALL)),
        Err(Error::Errno(14))
    ));
    let mut buf = [7u8; 4];
    assert!(matches!(
        space.read_bytes(VirtAddr(SMALL), &mut buf),
        Err(Error::Errno(14))
    ));
    assert_eq!(buf, [7; 4]);
}

#[test]
fn accesses_follow_the_tables_across_pages() {
    let mut ram = Ram::new();
    AddressSpace::write_bytes(&mut ram, 0x1000, VirtAddr(SMALL + 0xFFE), &[1, 2, 3, 4]).unwrap();
    assert_eq!(ram.bytes.borrow()[0x9FFE..0xA000], [1, 2]);
    assert_eq!(ram.bytes.borrow()[0xC000..0xC002], [3, 4]);
    for untouched in [0x9FFD, 0xA000, 0xBFFF, 0xC002] {
        assert_eq!(ram.bytes.borrow()[untouched], 0);
    }
    let mut buf = [0u8; 4];
    AddressSpace::new(&ram, 0x1000).read_bytes(VirtAddr(SMALL + 0xFFE), &mut buf).unwrap();
    assert_eq!(buf, [1, 2, 3, 4]);
}

#[test]
fn accesses_stop_at_unmapped_pages() {
    let mut ram = Ram::new();
    ram.bytes.borrow_mut()[0xC000..0xD000].fill(5);
    let mut buf = vec![9u8; PAGE_SIZE + 8];
    match AddressSpace::new(&ram, 0x1000).read_bytes(VirtAddr(SMALL + 0x1000), &mut buf) {
        Err(Error::PartialRead(n)) => assert_eq!(n, PAGE_SIZE),
        other => panic!("{other:?}"),
    }
    // What was read stays, the rest is as it was.
    assert!(buf[..PAGE_SIZE].iter().all(|b| *b == 5));
    assert!(buf[PAGE_SIZE..].iter().all(|b| *b == 9));
    match AddressSpace::write_bytes(&mut ram, 0x1000, VirtAddr(SMALL + 0x1FFC), &[6; 8]) {
        Err(Error::PartialWrite(n)) => assert_eq!(n, 4),
        other => panic!("{other:?}"),
    }
    assert_eq!(ram.bytes.borrow()[0xCFFC..0xD000], [6; 4]);
    assert!(matches!(
        AddressSpace::new(&ram, 0x1000).read_bytes(VirtAddr(SMALL + 0x2000), &mut buf),
        Err(Error::BadVirtualAddress(VirtAddr(a))) if a == SMALL + 0x2000
    ));
    assert!(matches!(
        AddressSpace::write_bytes(&mut ram, 0x1000, VirtAddr(SMALL + 0x2000), &[1]),
        Err(Error::BadVirtualAddress(VirtAddr(a))) if a == SMALL + 0x2000
    ));
    // A page that is mapped outside guest memory.
    assert!(matches!(
        AddressSpace::new(&ram, 0x1000).read_bytes(VirtAddr(SMALL + 0x4000), &mut [0; 1]),
        Err(Error::BadPhysicalAddress(0xF_FFFF_F000))
    ));
    assert!(matches!(
        AddressSpace::write_bytes(&mut ram, 0x1000, VirtAddr(SMALL + 0x4000), &[1]),
        Err(Error::BadPhysicalAddress(0xF_FFFF_F000))
    ));
}

#[test]
fn accesses_of_no_bytes_succeed() {
    let mut ram = Ram::new();
    AddressSpace::new(&ram, 0x1000).read_bytes(VirtAddr(0), &mut []).unwrap();
    AddressSpace::write_bytes(&mut ram, 0x1000, VirtAddr(0), &[]).unwrap();
}

#[test]
fn full_accesses_count_to_the_first_unmapped_page() {
    let mut ram = Ram::new();
    // The two mapped pages, then nothing.
    for start in [0u64, 1, 0xFFF, 0x1000, 0x1FFF] {
        let room = 0x2000 - start as usize;
        let mut buf = vec![1u8; room + 1];
        let end = AddressSpace::new(&ram, 0x1000).read_bytes(VirtAddr(SMALL + start), &mut buf);
        assert!(matches!(end, Err(Error::PartialRead(n)) if n == room));
        let end = AddressSpace::write_bytes(&mut ram, 0x1000, VirtAddr(SMALL + start), &buf);
        assert!(matches!(end, Err(Error::PartialWrite(n)) if n == room));
        AddressSpace::new(&ram, 0x1000)
            .read_bytes(VirtAddr(SMALL + start), &mut buf[..room])
            .unwrap();
    }
}

#[test]
fn identity_translation_claims_no_rights() {
    let mut ram = Ram::new();
    assert_eq!(
        AddressSpace::new(&ram, DTB_IDENTITY).virt_to_phys(VirtAddr(0x1_2345)).unwrap(),
        Some(Translation {
            address: 0x1_2345,
            large: false,
            writable: false,
            user: false,
            nx: false,
        })
    );
    AddressSpace::write_bytes(&mut ram, DTB_IDENTITY, VirtAddr(0x1_2345), &[8]).unwrap();
    assert_eq!(ram.bytes.borrow()[0x1_2345], 8);
}

#[test]
fn addresses_are_cut_into_indices() {
    let va = VirtAddr((3 << 39) | (5 << 30) | (7 << 21) | (9 << 12) | 0xABC);
    assert_eq!(va.pml4_index(), 3);
    assert_eq!(va.pdpt_index(), 5);
    assert_eq!(va.pd_index(), 7);
    assert_eq!(va.pt_index(), 9);
    assert_eq!(va.page_offset(), 0xABC);
    assert_eq!(va.large_page_offset(), (9 << 12) | 0xABC);
    assert_eq!(va.huge_page_offset(), (7 << 21) | (9 << 12) | 0xABC);
    assert_eq!(VirtAddr(u64::MAX).offset(2), VirtAddr(1));
    assert!(VirtAddr(0).is_zero() && !va.is_zero());
    let entry = PageTableEntry(0x8000_0012_3456_7083 | WRITABLE | USER);
    assert_eq!(entry.page_frame(), 0x2_3456_7000);
    assert_eq!(entry.pfn(), 0x2_3456_7);
    assert!(entry.is_present() && entry.is_writable() && entry.is_user());
    assert!(entry.is_large_page() && entry.is_nx());
}
