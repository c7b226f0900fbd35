//! Which mapping of the virtual machine's process holds guest memory.
use crate::error::Error;
use crate::host::process::Hypervisor;
use crate::text::{
    begins, chars, ends, ends_with, find, from_chars, lemma_position, parse_unsigned, position,
    skip_spaces, skip_word, starts_with, text_opt, trimmed_start, unsigned, without_return,
    word_prefix,
};
use vstd::prelude::*;
use vstd::string::*;

verus! {

pub const VMWARE_MIN_MEMORY: u64 = 0x0100_0000;

pub const VMWARE_MAX_MEMORY: u64 = 0x0100_0000_0000;

/// A range of host addresses, `end` excluded.
#[derive(Debug, Clone, Copy, PartialEq, Eq, Structural)]
pub struct MemoryRegion {
    pub start: u64,
    pub end: u64,
}

impl MemoryRegion {
    /// The number of bytes in the region.
    pub fn len(self) -> (r: u64)
        requires
            self.start <= self.end,
        ensures
            r == self.end - self.start,
    {
        self.end - self.start
    }
}

/// What one line of a `maps` file says of a mapping.
pub struct Mapping {
    pub start: int,
    pub end: int,
    pub permissions: Seq<char>,
    pub offset: int,
    pub path: Option<Seq<char>>,
}

/// One mapping of a process.
#[derive(Debug)]
pub struct ProcMapRegion {
    pub memory: MemoryRegion,
    pub permissions: String,
    pub offset: u64,
    pub path: Option<String>,
}

impl View for ProcMapRegion {
    type V = Mapping;

    open spec fn view(&self) -> Mapping {
        Mapping {
            start: self.memory.start as int,
            end: self.memory.end as int,
            permissions: self.permissions@,
            offset: self.offset as int,
            path: text_opt(self.path),
        }
    }
}

/// The first field of a line and what follows it.
pub open spec fn field(s: Seq<char>) -> Option<(Seq<char>, Seq<char>)> {
    let rest = trimmed_start(s);
    if rest.len() == 0 {
        None
    } else {
        Some((rest.take(word_prefix(rest)), rest.skip(word_prefix(rest))))
    }
}

/// Where the first field from `from` on begins and ends.
pub fn take_proc_map_field(line: &[char], from: usize) -> (r: Option<(usize, usize)>)
    requires
        from <= line@.len(),
    ensures
        match r {
            Some((begin, end)) => begin <= end <= line@.len() && field(line@.skip(from as int))
                == Some((line@.subrange(begin as int, end as int), line@.skip(end as int))),
            None => field(line@.skip(from as int)) is None,
        },
{
    let begin: usize = skip_spaces(line, from);
    let ghost rest = trimmed_start(line@.skip(from as int));
    assert(rest =~= line@.skip(begin as int));
    if begin == line.len() {
        return None;
    }
    let end: usize = skip_word(line, begin);
    assert(rest.take(word_prefix(rest)) =~= line@.subrange(begin as int, end as int));
    assert(rest.skip(word_prefix(rest)) =~= line@.skip(end as int));
    Some((begin, end))
}

/// The two ends of an address range.
pub open spec fn address_range(s: Seq<char>) -> Option<(int, int)> {
    let dash = position(s, '-');
    if dash == s.len() {
        None
    } else {
        match (
            unsigned(s.take(dash), 16, u64::MAX as int),
            unsigned(s.skip(dash + 1), 16, u64::MAX as int),
        ) {
            (Some(start), Some(end)) => Some((start, end)),
            _ => None,
        }
    }
}

/// What a line of a `maps` file says: address range, permissions, offset,
/// device, inode, and the rest of the line as the path.
pub open spec fn mapping(line: Seq<char>) -> Option<Mapping> {
    match field(line) {
        None => None,
        Some((range, line)) => match field(line) {
            None => None,
            Some((permissions, line)) => match field(line) {
                None => None,
                Some((offset, line)) => match unsigned(offset, 16, u64::MAX as int) {
                    None => None,
                    Some(offset) => match field(line) {
                        None => None,
                        Some((_, line)) => match field(line) {
                            None => None,
                            Some((_, line)) => match address_range(range) {
                                None => None,
                                Some((start, end)) => if end <= start {
                                    None
                                } else {
                                    let path = trimmed_start(line);
                                    Some(
                                        Mapping {
                                            start,
                                            end,
                                            permissions,
                                            offset,
                                            path: if path.len() == 0 {
                                                None
                                            } else {
                                                Some(path)
                                            },
                                        },
                                    )
                                },
                            },
                        },
                    },
                },
            },
        },
    }
}

fn parse_address_range(s: &[char]) -> (r: Option<(u64, u64)>)
    ensures
        match r {
            Some((start, end)) => address_range(s@) == Some((start as int, end as int)),
            None => address_range(s@) is None,
        },
{
    let dash: usize = find(s, 0, '-');
    assert(s@.skip(0) =~= s@);
    if dash == s.len() {
        return None;
    }
    let low = vstd::slice::slice_subrange(s, 0, dash);
    let high = vstd::slice::slice_subrange(s, dash + 1, s.len());
    assert(low@ =~= s@.take(dash as int));
    assert(high@ =~= s@.skip(dash + 1));
    match parse_unsigned(low, 16, u64::MAX) {
        None => None,
        Some(start) => match parse_unsigned(high, 16, u64::MAX) {
            None => None,
            Some(end) => Some((start, end)),
        },
    }
}

/// Reads one line of a `maps` file.
pub fn parse_proc_map_region(line: &[char]) -> (r: Option<ProcMapRegion>)
    ensures
        match r {
            Some(region) => mapping(line@) == Some(region@),
            None => mapping(line@) is None,
        },
{
    assert(line@.skip(0) =~= line@);
    let (range_begin, range_end) = match take_proc_map_field(line, 0) {
        Some(f) => f,
        None => return None,
    };
    let (perm_begin, perm_end) = match take_proc_map_field(line, range_end) {
        Some(f) => f,
        None => return None,
    };
    let (offset_begin, offset_end) = match take_proc_map_field(line, perm_end) {
        Some(f) => f,
        None => return None,
    };
    let offset: u64 = match parse_unsigned(
        vstd::slice::slice_subrange(line, offset_begin, offset_end),
        16,
        u64::MAX,
    ) {
        Some(v) => v,
        None => return None,
    };
    let (_device, device_end) = match take_proc_map_field(line, offset_end) {
        Some(f) => f,
        None => return None,
    };
    let (_inode, inode_end) = match take_proc_map_field(line, device_end) {
        Some(f) => f,
        None => return None,
    };
    let (start, end) = match parse_address_range(
        vstd::slice::slice_subrange(line, range_begin, range_end),
    ) {
        Some(f) => f,
        None => return None,
    };
    if end <= start {
        return None;
    }
    let path_begin: usize = skip_spaces(line, inode_end);
    let path = vstd::slice::slice_subrange(line, path_begin, line.len());
    assert(path@ =~= trimmed_start(line@.skip(inode_end as int)));
    Some(
        ProcMapRegion {
            memory: MemoryRegion { start, end },
            permissions: from_chars(vstd::slice::slice_subrange(line, perm_begin, perm_end)),
            offset,
            path: if path.len() == 0 {
                None
            } else {
                Some(from_chars(path))
            },
        },
    )
}

impl Mapping {
    /// Whether the mapping can be read and written.
    pub open spec fn read_write(self) -> bool {
        begins(self.permissions, "rw"@)
    }

    /// The number of bytes mapped.
    pub open spec fn size(self) -> int {
        self.end - self.start
    }

    /// Whether VMware keeps guest memory in this mapping: one that is writable,
    /// begins at the start of a `.vmem` file, and has a plausible size.
    pub open spec fn holds_guest(self) -> bool {
        &&& self.read_write()
        &&& self.offset == 0
        &&& VMWARE_MIN_MEMORY <= self.size() <= VMWARE_MAX_MEMORY
        &&& self.path matches Some(path) && vmem_path(path)
    }
}

/// Whether a path names a `.vmem` file, which may have been deleted since.
pub open spec fn vmem_path(path: Seq<char>) -> bool {
    ends(
        if ends(path, " (deleted)"@) {
            path.take(path.len() - " (deleted)"@.len())
        } else {
            path
        },
        ".vmem"@,
    )
}

/// Whether a mapping can be read and written.
pub fn is_read_write(region: &ProcMapRegion) -> (r: bool)
    ensures
        r == region@.read_write(),
{
    starts_with(chars(region.permissions.as_str()).as_slice(), chars("rw").as_slice())
}

/// Whether a path names a `.vmem` file.
pub fn is_vmem_path(path: &str) -> (r: bool)
    ensures
        r == vmem_path(path@),
{
    let c = chars(path);
    let deleted = chars(" (deleted)");
    let suffix = chars(".vmem");
    if ends_with(c.as_slice(), deleted.as_slice()) {
        let end: usize = c.len() - deleted.len();
        let kept = vstd::slice::slice_subrange(c.as_slice(), 0, end);
        assert(kept@ =~= path@.take(end as int));
        ends_with(kept, suffix.as_slice())
    } else {
        ends_with(c.as_slice(), suffix.as_slice())
    }
}

/// What the lines of a `maps` file say, skipping those that say nothing.
pub open spec fn mappings(maps: Seq<char>) -> Seq<Mapping>
    decreases maps.len(),
{
    if maps.len() == 0 {
        Seq::empty()
    } else {
        let end = position(maps, '\n');
        if end < 0 || end >= maps.len() {
            match mapping(maps) {
                Some(m) => seq![m],
                None => Seq::empty(),
            }
        } else {
            (match mapping(without_return(maps.take(end))) {
                Some(m) => seq![m],
                None => Seq::empty(),
            }) + mappings(maps.skip(end + 1))
        }
    }
}

/// The mappings as values.
pub open spec fn mapping_views(regions: Seq<ProcMapRegion>) -> Seq<Mapping> {
    regions.map_values(|r: ProcMapRegion| r@)
}

/// Reads a `maps` file.
pub fn parse_maps(maps: &str) -> (r: Vec<ProcMapRegion>)
    ensures
        mapping_views(r@) == mappings(maps@),
{
    let c = chars(maps);
    let mut out: Vec<ProcMapRegion> = Vec::new();
    let mut i: usize = 0;
    assert(c@.skip(0) =~= c@);
    assert(mapping_views(out@) =~= Seq::<Mapping>::empty());
    assert(mappings(maps@) =~= mapping_views(out@) + mappings(c@.skip(0)));
    while i < c.len()
        invariant
            i <= c@.len(),
            mappings(maps@) == mapping_views(out@) + mappings(c@.skip(i as int)),
        decreases c@.len() - i,
    {
        let ghost rest = c@.skip(i as int);
        let ghost before = out@;
        let end: usize = find(c.as_slice(), i, '\n');
        proof {
            lemma_position(rest, '\n');
        }
        let ended = end < c.len();
        let stop: usize = if ended && end > i && c[end - 1] == '\r' {
            end - 1
        } else {
            end
        };
        let line = vstd::slice::slice_subrange(c.as_slice(), i, stop);
        if ended {
            assert(line@ =~= without_return(rest.take(end - i)));
            assert(c@.skip(end + 1) =~= rest.skip(end - i + 1));
        } else {
            assert(line@ =~= rest);
            assert(c@.skip(c@.len() as int) =~= Seq::<char>::empty());
        }
        match parse_proc_map_region(line) {
            Some(region) => {
                out.push(region);
                assert(mapping_views(out@) =~= mapping_views(before).push(region@));
            },
            None => {},
        }
        let next: usize = if ended {
            end + 1
        } else {
            end
        };
        assert(mappings(maps@) =~= mapping_views(out@) + mappings(c@.skip(next as int)));
        i = next;
    }
    assert(c@.skip(i as int) =~= Seq::<char>::empty());
    assert(mapping_views(out@) =~= mappings(maps@));
    out
}

/// Whether mapping `i` is the one that KVM keeps guest memory in: the largest
/// that can be read and written, and the last of those.
pub open spec fn largest_writable(list: Seq<Mapping>, i: int) -> bool {
    &&& 0 <= i < list.len()
    &&& list[i].read_write()
    &&& forall|j: int|
        0 <= j < list.len() && (#[trigger] list[j]).read_write() ==> list[j].size()
            <= list[i].size() && (j > i ==> list[j].size() < list[i].size())
}

/// The mappings that VMware may keep guest memory in.
pub open spec fn guest_mappings(list: Seq<Mapping>) -> Seq<Mapping> {
    list.filter(|m: Mapping| m.holds_guest())
}

/// Whether `r` is the mapping that holds guest memory, or the reason why none
/// is.
pub open spec fn is_memory_region(
    hypervisor: Hypervisor,
    pid: i32,
    maps: Seq<char>,
    r: Result<MemoryRegion, Error>,
) -> bool {
    let list = mappings(maps);
    match hypervisor {
        Hypervisor::Kvm => match r {
            Ok(region) => exists|i: int| #[trigger]
                largest_writable(list, i) && list[i].start == region.start && list[i].end
                    == region.end,
            Err(e) => {
                &&& is_missing_region(e, hypervisor, pid)
                &&& forall|i: int| 0 <= i < list.len() ==> !(#[trigger] list[i]).read_write()
            },
        },
        Hypervisor::Vmware => {
            let guest = guest_mappings(list);
            match r {
                Ok(region) => guest.len() == 1 && guest[0].start == region.start && guest[0].end
                    == region.end,
                Err(e) => if guest.len() == 0 {
                    is_missing_region(e, hypervisor, pid)
                } else {
                    &&& guest.len() >= 2
                    &&& e == (Error::MultipleVmMemoryRegions { pid, count: guest.len() as usize })
                    &&& guest.len() <= usize::MAX
                },
            }
        },
    }
}

/// Whether an error says that no mapping holds guest memory.
pub open spec fn is_missing_region(e: Error, hypervisor: Hypervisor, pid: i32) -> bool {
    e matches Error::VmMemoryRegionNotFound { pid: p, hypervisor: h } && p == pid && h@
        == hypervisor.spec_label()
}

/// Picks the mapping that holds guest memory out of a `maps` file.
pub fn select_memory_region(hypervisor: Hypervisor, pid: i32, maps: &str) -> (r: Result<
    MemoryRegion,
    Error,
>)
    ensures
        is_memory_region(hypervisor, pid, maps@, r),
        r matches Ok(region) ==> region.start < region.end,
{
    let regions = parse_maps(maps);
    proof {
        lemma_mappings_ordered(maps@);
        assert forall|i: int| 0 <= i < regions@.len() implies mappings(maps@)[i]
            == (#[trigger] regions@[i])@ by {
            assert(mapping_views(regions@)[i] == regions@[i]@);
        }
    }
    match hypervisor {
        Hypervisor::Kvm => match largest_region(&regions) {
            Some(at) => {
                assert(largest_writable(mappings(maps@), at as int));
                Ok(regions[at].memory)
            },
            None => Err(Error::VmMemoryRegionNotFound { pid, hypervisor: hypervisor.label() }),
        },
        Hypervisor::Vmware => {
            // VMware backs guest RAM with one writable, offset-zero .vmem mapping.
            // Stay strict: the largest anonymous VMA is not evidence of GPA layout.
            let candidates = guest_regions(&regions);
            if candidates.len() == 0 {
                Err(Error::VmMemoryRegionNotFound { pid, hypervisor: hypervisor.label() })
            } else if candidates.len() == 1 {
                proof {
                    let holds = |m: Mapping| m.holds_guest();
                    mappings(maps@).lemma_filter_contains_rev(holds, guest_mappings(mappings(maps@))[0]);
                }
                Ok(candidates[0])
            } else {
                Err(Error::MultipleVmMemoryRegions { pid, count: candidates.len() })
            }
        },
    }
}

/// Every mapping in a `maps` file is a range of at least one byte.
proof fn lemma_mappings_ordered(maps: Seq<char>)
    ensures
        forall|i: int|
            0 <= i < mappings(maps).len() ==> (#[trigger] mappings(maps)[i]).start
                < mappings(maps)[i].end,
    decreases maps.len(),
{
    lemma_position(maps, '\n');
    let end = position(maps, '\n');
    if maps.len() > 0 && end < maps.len() {
        lemma_mappings_ordered(maps.skip(end + 1));
    }
}

fn largest_region(regions: &Vec<ProcMapRegion>) -> (r: Option<usize>)
    requires
        forall|i: int|
            0 <= i < regions@.len() ==> (#[trigger] regions@[i]).memory.start
                < regions@[i].memory.end,
    ensures
        match r {
            Some(at) => largest_writable(mapping_views(regions@), at as int),
            None => forall|i: int| 0 <= i < regions@.len() ==> !(#[trigger] regions@[i])@.read_write(),
        },
{
    let ghost list = mapping_views(regions@);
    let mut best: Option<usize> = None;
    let mut i: usize = 0;
    while i < regions.len()
        invariant
            i <= regions@.len(),
            list == mapping_views(regions@),
            forall|k: int|
                0 <= k < regions@.len() ==> (#[trigger] regions@[k]).memory.start
                    < regions@[k].memory.end,
            match best {
                Some(at) => at < i && largest_writable(list.take(i as int), at as int),
                None => forall|k: int| 0 <= k < i ==> !(#[trigger] regions@[k])@.read_write(),
            },
        decreases regions@.len() - i,
    {
        assert(list[i as int] == regions@[i as int]@);
        assert(forall|k: int| 0 <= k < i ==> list.take(i as int)[k] == #[trigger] list.take(i + 1)[k]);
        assert(list.take(i + 1)[i as int] == list[i as int]);
        assert(forall|k: int| 0 <= k < regions@.len() ==> #[trigger] list[k] == regions@[k]@);
        if is_read_write(&regions[i]) {
            let larger = match best {
                Some(at) => {
                    assert(list.take(i as int)[at as int] == regions@[at as int]@);
                    regions[i].memory.len() >= regions[at].memory.len()
                },
                None => true,
            };
            if larger {
                best = Some(i);
            }
        }
        i += 1;
    }
    assert(list.take(i as int) =~= list);
    best
}

fn guest_regions(regions: &Vec<ProcMapRegion>) -> (r: Vec<MemoryRegion>)
    requires
        forall|i: int|
            0 <= i < regions@.len() ==> (#[trigger] regions@[i]).memory.start
                < regions@[i].memory.end,
    ensures
        r@.len() == guest_mappings(mapping_views(regions@)).len(),
        forall|i: int|
            0 <= i < r@.len() ==> guest_mappings(mapping_views(regions@))[i].start == (
            #[trigger] r@[i]).start && guest_mappings(mapping_views(regions@))[i].end == r@[i].end,
{
    let ghost list = mapping_views(regions@);
    let mut out: Vec<MemoryRegion> = Vec::new();
    let mut i: usize = 0;
    while i < regions.len()
        invariant
            i <= regions@.len(),
            list == mapping_views(regions@),
            forall|k: int|
                0 <= k < regions@.len() ==> (#[trigger] regions@[k]).memory.start
                    < regions@[k].memory.end,
            out@.len() == guest_mappings(list.take(i as int)).len(),
            forall|k: int|
                0 <= k < out@.len() ==> guest_mappings(list.take(i as int))[k].start == (
                #[trigger] out@[k]).start && guest_mappings(list.take(i as int))[k].end
                    == out@[k].end,
        decreases regions@.len() - i,
    {
        let region = &regions[i];
        proof {
            reveal(Seq::filter);
            assert(list[i as int] == region@);
            assert(list.take(i + 1).drop_last() =~= list.take(i as int));
            assert(list.take(i + 1).last() == region@);
        }
        let size: u64 = region.memory.len();
        let named = match &region.path {
            Some(path) => is_vmem_path(path.as_str()),
            None => false,
        };
        if is_read_write(region) && region.offset == 0 && VMWARE_MIN_MEMORY <= size && size
            <= VMWARE_MAX_MEMORY && named {
            out.push(region.memory);
        }
        i += 1;
    }
    assert(list.take(i as int) =~= list);
    out
}

/// Guest memory is looked for only where the process can read and write: the
/// mapping that is picked is one of its mappings and allows both.
pub proof fn law_picked_mapping_is_writable(
    hypervisor: Hypervisor,
    pid: i32,
    maps: Seq<char>,
    region: MemoryRegion,
)
    requires
        is_memory_region(hypervisor, pid, maps, Ok(region)),
    ensures
        exists|i: int|
            {
                &&& 0 <= i < mappings(maps).len()
                &&& (#[trigger] mappings(maps)[i]).read_write()
                &&& mappings(maps)[i].start == region.start
                &&& mappings(maps)[i].end == region.end
            },
{
    let list = mappings(maps);
    match hypervisor {
        Hypervisor::Kvm => {
            let i = choose|i: int| #[trigger]
                largest_writable(list, i) && list[i].start == region.start && list[i].end
                    == region.end;
            assert(list[i].read_write());
        },
        Hypervisor::Vmware => {
            let holds = |m: Mapping| m.holds_guest();
            let guest = guest_mappings(list);
            assert(guest.contains(guest[0]));
            list.lemma_filter_contains_rev(holds, guest[0]);
            let i = list.index_of(guest[0]);
            assert(list[i] == guest[0]);
            list.lemma_filter_pred(holds, 0);
        },
    }
}

} // verus!
