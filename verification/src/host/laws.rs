//! Which process of the host is the machine, and where its memory lies, in numbers.
use crate::error::Error;
use crate::host::guest::{
    gpa_to_offset, primary_memory_region, probe_ptrace_access, LiveVmHandle, ReadFailure,
};
use crate::host::maps::{
    field, guest_mappings, is_memory_region, largest_writable, mapping, mappings,
    select_memory_region, Mapping, MemoryRegion,
};
use crate::host::process::{
    by_pid, classified, classify, discover_vm_processes, machines, parse_pid, process_number,
    select_vm_process, selected, Hypervisor, ProcEntry, VmProcess,
};
use crate::text::{
    begins, dec_int, ends, is_space, joined, lemma_position, position, space_prefix, text_opt,
    trimmed, trimmed_start, unsigned, word_prefix,
};
use crate::text_laws::law_word_ends_at_white_space;
use vstd::prelude::*;
use vstd::string::*;

verus! {

/// Where the memory below the hole ends: 2 GiB under KVM, 3 GiB under VMware.
pub open spec fn hole(hypervisor: Hypervisor) -> int {
    match hypervisor {
        Hypervisor::Kvm => 0x8000_0000,
        Hypervisor::Vmware => 0xC000_0000,
    }
}

/// The offset of a range in guest memory: that of its address below the hole; from 4 GiB
/// on memory goes on where it ended below it. Every other range has none.
pub open spec fn offset_of(hypervisor: Hypervisor, gpa: int, len: int) -> Option<int> {
    if gpa >= 0x1_0000_0000 && gpa + len < 0x1_0000_0000_0000_0000 {
        Some(gpa - 0x1_0000_0000 + hole(hypervisor))
    } else if gpa < hole(hypervisor) && gpa + len <= hole(hypervisor) {
        Some(gpa)
    } else {
        None
    }
}

/// The offset of a guest-physical range skips the hole; a range that has none is refused
/// by its address.
pub proof fn law_offsets_skip_the_hole(
    hypervisor: Hypervisor,
    gpa: u64,
    len: usize,
    r: Result<u64, Error>,
)
    requires
        call_ensures(gpa_to_offset, (hypervisor, gpa, len), r),
    ensures
        match offset_of(hypervisor, gpa as int, len as int) {
            Some(offset) => r matches Ok(v) && v == offset,
            None => r == Err::<u64, Error>(Error::BadPhysicalAddress(gpa)),
        },
{
}

/// A guest-physical range lies in the process as far behind the start of the mapping as
/// its offset is; one that the mapping does not hold whole is refused by its address.
pub proof fn law_addresses_follow_offsets(
    handle: LiveVmHandle,
    gpa: u64,
    len: usize,
    r: Result<u64, Error>,
)
    requires
        call_ensures(LiveVmHandle::host_address, (&handle, gpa, len), r),
    ensures
        match offset_of(handle.hypervisor, gpa as int, len as int) {
            Some(offset) => if handle.memory.start + offset + len <= handle.memory.end {
                r matches Ok(v) && v - handle.memory.start == offset
            } else {
                r == Err::<u64, Error>(Error::BadPhysicalAddress(gpa))
            },
            None => r == Err::<u64, Error>(Error::BadPhysicalAddress(gpa)),
        },
{
}

/// Whether an entry of `/proc` is the machine `process`: a directory named by its
/// number that holds `/dev/kvm`, or else whose program is `vmware-vmx`.
pub open spec fn runs(entry: ProcEntry, process: VmProcess) -> bool {
    &&& entry.is_dir
    &&& entry.name matches Some(name) && process_number(name@) == Some(process.pid as int)
    &&& match process.hypervisor {
        Hypervisor::Kvm => entry.holds_kvm,
        Hypervisor::Vmware => !entry.holds_kvm && (entry.comm matches Some(comm) && trimmed(comm@)
            == "vmware-vmx"@),
    }
}

proof fn lemma_classified(entry: ProcEntry)
    ensures
        match classified(entry) {
            Some(process) => runs(entry, process) && forall|other: VmProcess| #[trigger]
                runs(entry, other) ==> other == process,
            None => forall|other: VmProcess| !#[trigger] runs(entry, other),
        },
{
    if let Some(name) = entry.name {
        lemma_process_number(name@);
    }
}

proof fn lemma_process_number(name: Seq<char>)
    ensures
        process_number(name) matches Some(pid) ==> i32::MIN <= pid <= i32::MAX,
{
    let digits = if name.len() > 0 && name[0] == '-' {
        name.skip(1)
    } else if name.len() > 0 && name[0] == '+' {
        name.skip(1)
    } else {
        name
    };
    lemma_natural(digits);
}

proof fn lemma_natural(s: Seq<char>)
    ensures
        crate::text::number(s, 10) matches Some(n) ==> 0 <= n,
    decreases s.len(),
{
    if s.len() > 0 {
        lemma_natural(s.drop_last());
    }
}

/// An entry is classified as the machine that it runs, if it runs one.
pub proof fn law_entries_are_classified(entry: ProcEntry, r: Option<VmProcess>)
    requires
        call_ensures(classify, (&entry,), r),
    ensures
        match r {
            Some(process) => runs(entry, process),
            None => forall|other: VmProcess| !#[trigger] runs(entry, other),
        },
{
    lemma_classified(entry);
}

proof fn lemma_machines(entries: Seq<ProcEntry>, process: VmProcess)
    ensures
        machines(entries).contains(process) <==> exists|i: int|
            0 <= i < entries.len() && runs(#[trigger] entries[i], process),
    decreases entries.len(),
{
    if entries.len() > 0 {
        let before = entries.drop_last();
        lemma_machines(before, process);
        lemma_classified(entries.last());
        let all = machines(entries);
        let fewer = machines(before);
        if fewer.contains(process) {
            let i = choose|i: int| 0 <= i < before.len() && runs(#[trigger] before[i], process);
            assert(runs(entries[i], process));
            let k = choose|k: int| 0 <= k < fewer.len() && fewer[k] == process;
            assert(all[k] == process);
        }
        if runs(entries.last(), process) {
            assert(runs(entries[entries.len() - 1], process));
            assert(all.last() == process);
        }
        if all.contains(process) {
            let k = choose|k: int| 0 <= k < all.len() && all[k] == process;
            if k < fewer.len() {
                assert(fewer[k] == process);
            }
        }
        if exists|i: int| 0 <= i < entries.len() && runs(#[trigger] entries[i], process) {
            let i = choose|i: int| 0 <= i < entries.len() && runs(#[trigger] entries[i], process);
            if i < before.len() {
                assert(runs(before[i], process));
            }
        }
    }
}

/// Discovery finds exactly the machines that some entry runs, those with lower numbers
/// first.
pub proof fn law_discovery_finds_each_machine(entries: &[ProcEntry], r: Vec<VmProcess>)
    requires
        call_ensures(discover_vm_processes, (entries,), r),
    ensures
        forall|process: VmProcess| #[trigger]
            r@.contains(process) <==> exists|i: int|
                0 <= i < entries@.len() && runs(#[trigger] entries@[i], process),
        forall|i: int, j: int| 0 <= i < j < r@.len() ==> r@[i].pid <= r@[j].pid,
{
    assert forall|process: VmProcess| #[trigger]
        r@.contains(process) <==> exists|i: int|
            0 <= i < entries@.len() && runs(#[trigger] entries@[i], process) by {
        lemma_machines(entries@, process);
        r@.to_multiset_ensures();
        machines(entries@).to_multiset_ensures();
        assert(r@.contains(process) <==> r@.to_multiset().count(process) > 0);
    }
}

/// Whether a mapping may be read and written.
pub open spec fn may_be_used(m: Mapping) -> bool {
    begins(m.permissions, "rw"@)
}

/// Whether a mapping is one that VMware keeps guest memory in: writable, of a `.vmem`
/// file from its start, and of 16 MiB to 1 TiB.
pub open spec fn of_vmware(m: Mapping) -> bool {
    &&& may_be_used(m)
    &&& m.offset == 0
    &&& 16 * 1024 * 1024 <= m.end - m.start <= 1024 * 1024 * 1024 * 1024
    &&& m.path matches Some(path) && (ends(path, ".vmem"@) || ends(path, ".vmem (deleted)"@))
}

proof fn lemma_vmem(path: Seq<char>)
    ensures
        crate::host::maps::vmem_path(path) <==> (ends(path, ".vmem"@) || ends(
            path,
            ".vmem (deleted)"@,
        )),
{
    reveal_strlit(".vmem");
    reveal_strlit(" (deleted)");
    reveal_strlit(".vmem (deleted)");
    let gone = " (deleted)"@;
    let file = ".vmem"@;
    let both = ".vmem (deleted)"@;
    assert(both =~= file + gone);
    let n = path.len();
    if ends(path, gone) {
        let kept = path.take(n - 10);
        assert(path =~= kept + gone);
        if ends(kept, file) {
            assert(path.skip(n - 15) =~= kept.skip(kept.len() - 5) + gone);
        }
        if ends(path, both) {
            assert(kept.skip(kept.len() - 5) =~= path.skip(n - 15).take(5));
            assert(both.take(5) =~= file);
        }
        if ends(path, file) {
            assert(path.skip(n - 5)[4] == path[n - 1]);
            assert(path.skip(n - 10)[9] == path[n - 1]);
            assert(gone[9] == ')' && file[4] == 'm');
        }
    } else if ends(path, both) {
        assert(path.skip(n - 10) =~= path.skip(n - 15).skip(5));
        assert(both.skip(5) =~= gone);
    }
}

/// Under KVM guest memory is the largest mapping that may be read and written, the last
/// of those; where there is none, that is the error.
pub proof fn law_kvm_memory(pid: i32, maps: &str, r: Result<MemoryRegion, Error>)
    requires
        call_ensures(select_memory_region, (Hypervisor::Kvm, pid, maps), r),
    ensures
        ({
            let list = mappings(maps@);
            match r {
                Ok(region) => exists|i: int|
                    {
                        &&& 0 <= i < list.len()
                        &&& may_be_used(#[trigger] list[i])
                        &&& list[i].start == region.start && list[i].end == region.end
                        &&& forall|j: int|
                            0 <= j < list.len() && may_be_used(#[trigger] list[j]) ==> {
                                &&& list[j].end - list[j].start <= list[i].end - list[i].start
                                &&& j > i ==> list[j].end - list[j].start < list[i].end
                                    - list[i].start
                            }
                    },
                Err(e) => {
                    &&& e matches Error::VmMemoryRegionNotFound { pid: p, hypervisor } && p == pid
                        && hypervisor@ == "KVM/QEMU"@
                    &&& forall|i: int|
                        0 <= i < list.len() ==> !may_be_used(#[trigger] list[i])
                },
            }
        }),
{
    let list = mappings(maps@);
    if let Ok(region) = r {
        let i = choose|i: int| #[trigger]
            largest_writable(list, i) && list[i].start == region.start && list[i].end
                == region.end;
        assert(may_be_used(list[i]));
        assert forall|j: int|
            0 <= j < list.len() && may_be_used(#[trigger] list[j]) implies list[j].end
            - list[j].start <= list[i].end - list[i].start && (j > i ==> list[j].end
            - list[j].start < list[i].end - list[i].start) by {
            assert(list[j].read_write());
        }
    } else {
        assert forall|i: int| 0 <= i < list.len() implies !may_be_used(#[trigger] list[i]) by {
            assert(!list[i].read_write());
        }
    }
}

/// Under VMware guest memory is the one mapping that VMware keeps it in; where there is
/// none or more than one, that is the error, with their number.
pub proof fn law_vmware_memory(pid: i32, maps: &str, r: Result<MemoryRegion, Error>)
    requires
        call_ensures(select_memory_region, (Hypervisor::Vmware, pid, maps), r),
    ensures
        ({
            let guest = mappings(maps@).filter(|m: Mapping| of_vmware(m));
            match r {
                Ok(region) => guest.len() == 1 && guest[0].start == region.start && guest[0].end
                    == region.end,
                Err(Error::VmMemoryRegionNotFound { pid: p, hypervisor }) => guest.len() == 0 && p
                    == pid && hypervisor@ == "VMware"@,
                Err(Error::MultipleVmMemoryRegions { pid: p, count }) => guest.len() == count && p
                    == pid && count >= 2,
                Err(_) => false,
            }
        }),
{
    let list = mappings(maps@);
    let ours = |m: Mapping| of_vmware(m);
    let theirs = |m: Mapping| m.holds_guest();
    assert forall|m: Mapping| #[trigger] ours(m) == theirs(m) by {
        if let Some(path) = m.path {
            lemma_vmem(path);
        }
    }
    assert(ours =~= theirs);
    assert(guest_mappings(list) == list.filter(ours));
}

/// A machine is opened only where exactly one runs: its memory is then what its maps
/// say, and one byte at its start could be read.
pub proof fn law_opening<
    L: FnOnce(i32) -> Result<String, ReadFailure>,
    P: FnOnce(i32, u64) -> Result<usize, i32>,
>(
    entries: &[ProcEntry],
    read_maps: L,
    probe: P,
    setting: Option<String>,
    r: Result<LiveVmHandle, Error>,
)
    requires
        call_ensures(LiveVmHandle::new::<L, P>, (entries, read_maps, probe, setting), r),
    ensures
        r matches Ok(handle) ==> {
            &&& exists|i: int|
                0 <= i < entries@.len() && runs(
                    #[trigger] entries@[i],
                    VmProcess { pid: handle.pid, hypervisor: handle.hypervisor },
                )
            &&& forall|i: int, other: VmProcess|
                0 <= i < entries@.len() && #[trigger] runs(entries@[i], other) ==> other.pid
                    == handle.pid && other.hypervisor == handle.hypervisor
            &&& exists|maps: String| #[trigger]
                call_ensures(read_maps, (handle.pid,), Ok::<String, ReadFailure>(maps))
                    && is_memory_region(handle.hypervisor, handle.pid, maps@, Ok(handle.memory))
            &&& call_ensures(probe, (handle.pid, handle.memory.start), Ok::<usize, i32>(1usize))
        },
        (forall|i: int, other: VmProcess|
            0 <= i < entries@.len() ==> !#[trigger] runs(entries@[i], other)) ==> r
            == Err::<LiveVmHandle, Error>(Error::VmNotFound),
{
    let (processes, process) = choose|processes: Seq<VmProcess>, process: Result<VmProcess, Error>|
        {
            &&& #[trigger] by_pid(processes)
            &&& processes.to_multiset() == machines(entries@).to_multiset()
            &&& #[trigger] selected(processes, process)
            &&& match process {
                Err(e) => r == Err::<LiveVmHandle, Error>(e),
                Ok(process) => LiveVmHandle::may_map(
                    process,
                    read_maps,
                    probe,
                    text_opt(setting),
                    r,
                ),
            }
        };
    processes.to_multiset_ensures();
    machines(entries@).to_multiset_ensures();
    assert forall|p: VmProcess| #[trigger]
        processes.contains(p) <==> exists|i: int|
            0 <= i < entries@.len() && runs(#[trigger] entries@[i], p) by {
        lemma_machines(entries@, p);
        assert(processes.contains(p) <==> processes.to_multiset().count(p) > 0);
    }
    if let Ok(handle) = r {
        let process = process->Ok_0;
        assert(processes.len() == 1 && processes[0] == process);
        assert(processes.contains(process));
        let (maps, memory) = choose|
            maps: Result<String, ReadFailure>,
            memory: Result<MemoryRegion, Error>,
        |
            {
                &&& #[trigger] call_ensures(read_maps, (process.pid,), maps)
                &&& #[trigger] crate::host::guest::is_primary_region(
                    process,
                    maps,
                    text_opt(setting),
                    memory,
                )
                &&& match memory {
                    Err(e) => r == Err::<LiveVmHandle, Error>(e),
                    Ok(memory) => exists|outcome: Result<usize, i32>, verdict: Result<(), Error>|
                        {
                            &&& #[trigger] call_ensures(
                                probe,
                                (process.pid, memory.start),
                                outcome,
                            )
                            &&& #[trigger] crate::host::guest::is_probe_result(
                                process.pid,
                                outcome,
                                text_opt(setting),
                                verdict,
                            )
                            &&& match verdict {
                                Err(e) => r == Err::<LiveVmHandle, Error>(e),
                                Ok(_) => r == Ok::<LiveVmHandle, Error>(
                                    LiveVmHandle {
                                        memory,
                                        pid: process.pid,
                                        hypervisor: process.hypervisor,
                                    },
                                ),
                            }
                        },
                }
            };
        assert(maps is Ok);
        assert forall|i: int, other: VmProcess|
            0 <= i < entries@.len() && #[trigger] runs(entries@[i], other) implies other.pid
            == handle.pid && other.hypervisor == handle.hypervisor by {
            assert(processes.contains(other));
        }
    }
    if forall|i: int, other: VmProcess|
        0 <= i < entries@.len() ==> !#[trigger] runs(entries@[i], other) {
        if processes.len() > 0 {
            assert(processes.contains(processes[0]));
        }
    }
}

/// A denied read is told with the pid and the setting, blanks around it taken away; any
/// other failure is told as it is, and one byte read in full is no failure.
pub proof fn law_denials_are_told(
    process: VmProcess,
    failure: ReadFailure,
    outcome: Result<usize, i32>,
    setting: Option<String>,
    region: Result<MemoryRegion, Error>,
    access: Result<(), Error>,
)
    requires
        call_ensures(primary_memory_region, (process, Err(failure), setting), region),
        call_ensures(probe_ptrace_access, (process.pid, outcome, setting), access),
    ensures
        ({
            let shown = match setting {
                Some(setting) => trimmed(setting@),
                None => "unknown"@,
            };
            &&& match failure {
                ReadFailure::Denied => region matches Err(Error::PtraceDenied { pid, scope }) && pid
                    == process.pid && scope@ == shown,
                ReadFailure::Other(why) => region == Err::<MemoryRegion, Error>(Error::Io(why)),
            }
            &&& access is Ok <==> outcome == Ok::<usize, i32>(1usize)
            &&& match outcome {
                Ok(count) => count != 1 ==> access == Err::<(), Error>(Error::PartialRead(count)),
                Err(number) => if number == 1 {
                    access matches Err(Error::PtraceDenied { pid, scope }) && pid == process.pid
                        && scope@ == shown
                } else {
                    access == Err::<(), Error>(Error::Errno(number))
                },
            }
        }),
{
}

/// Whether a text is a word: not empty, and without white space.
pub open spec fn is_word(s: Seq<char>) -> bool {
    s.len() > 0 && forall|i: int| 0 <= i < s.len() ==> !is_space(#[trigger] s[i])
}

proof fn lemma_field(word: Seq<char>, rest: Seq<char>)
    requires
        is_word(word),
        rest.len() > 0 ==> is_space(rest[0]),
    ensures
        field(word + rest) == Some((word, rest)),
        field(seq![' '] + word + rest) == Some((word, rest)),
{
    let s = word + rest;
    law_word_ends_at_white_space(s);
    let end = word_prefix(s);
    if end < word.len() {
        assert(s[end] == word[end]);
    }
    if end > word.len() {
        assert(s[word.len() as int] == rest[0]);
    }
    assert(s.take(end) =~= word);
    assert(s.skip(end) =~= rest);
    assert(s[0] == word[0]);
    assert(space_prefix(s) == 0);
    assert(trimmed_start(s) =~= s);
    let t = seq![' '] + word + rest;
    assert(t.drop_first() =~= s);
    assert(t[0] == ' ');
    assert(space_prefix(t) == 1 + space_prefix(s));
    assert(trimmed_start(t) =~= s);
}

/// A line of a maps file is read field by field: the two ends of the range around its
/// first `-`, the permissions, the offset, two fields that do not matter, and the path,
/// which may hold spaces and may be missing. A line whose numbers cannot be read, or
/// whose range is empty, says nothing.
pub proof fn law_map_line(
    start: Seq<char>,
    end: Seq<char>,
    permissions: Seq<char>,
    offset: Seq<char>,
    device: Seq<char>,
    inode: Seq<char>,
    path: Seq<char>,
)
    requires
        !start.contains('-'),
        is_word(start + seq!['-'] + end),
        is_word(permissions),
        is_word(offset),
        is_word(device),
        is_word(inode),
        path.len() > 0 ==> is_space(path[0]),
    ensures
        mapping(
            start + seq!['-'] + end + (seq![' '] + permissions + (seq![' '] + offset + (seq![' ']
                + device + (seq![' '] + inode + path)))),
        ) == (match (
            unsigned(start, 16, 0xffff_ffff_ffff_ffff),
            unsigned(end, 16, 0xffff_ffff_ffff_ffff),
            unsigned(offset, 16, 0xffff_ffff_ffff_ffff),
        ) {
            (Some(from), Some(to), Some(at)) => if from < to {
                Some(
                    Mapping {
                        start: from,
                        end: to,
                        permissions,
                        offset: at,
                        path: if trimmed_start(path).len() == 0 {
                            None
                        } else {
                            Some(trimmed_start(path))
                        },
                    },
                )
            } else {
                None
            },
            _ => None,
        }),
{
    let range = start + seq!['-'] + end;
    let e = seq![' '] + inode + path;
    let d = seq![' '] + device + e;
    let c = seq![' '] + offset + d;
    let b = seq![' '] + permissions + c;
    assert(is_space(' '));
    assert(e[0] == ' ' && d[0] == ' ' && c[0] == ' ' && b[0] == ' ');
    lemma_field(range, b);
    lemma_field(permissions, c);
    lemma_field(offset, d);
    lemma_field(device, e);
    lemma_field(inode, path);
    lemma_position(range, '-');
    let dash = position(range, '-');
    assert(range[start.len() as int] == '-');
    if dash < start.len() {
        assert(range[dash] == start[dash]);
        assert(start.contains('-'));
    }
    assert(range.take(dash) =~= start);
    assert(range.skip(dash + 1) =~= end);
}

/// Several machines are named in their order, each by its monitor and its number.
pub proof fn law_choices_are_named(processes: Vec<VmProcess>, r: Result<VmProcess, Error>)
    requires
        call_ensures(select_vm_process, (processes,), r),
    ensures
        processes@.len() == 0 ==> r == Err::<VmProcess, Error>(Error::VmNotFound),
        processes@.len() == 1 ==> r == Ok::<VmProcess, Error>(processes@[0]),
        processes@.len() > 1 ==> (r matches Err(Error::MultipleVmProcesses(names)) && names@
            == joined(
            Seq::new(
                processes@.len(),
                |i: int|
                    (match processes@[i].hypervisor {
                        Hypervisor::Kvm => "KVM/QEMU"@,
                        Hypervisor::Vmware => "VMware"@,
                    }) + " PID "@ + dec_int(processes@[i].pid as int),
            ),
            ", "@,
        )),
{
    assert(processes@.map_values(|p: VmProcess| crate::host::process::choice(p)) =~= Seq::new(
        processes@.len(),
        |i: int|
            (match processes@[i].hypervisor {
                Hypervisor::Kvm => "KVM/QEMU"@,
                Hypervisor::Vmware => "VMware"@,
            }) + " PID "@ + dec_int(processes@[i].pid as int),
    ));
}

/// What one line of a `maps` file says: one mapping, or nothing.
pub open spec fn said_by(line: Seq<char>) -> Seq<Mapping> {
    match mapping(line) {
        Some(m) => seq![m],
        None => Seq::empty(),
    }
}

/// A `maps` file says what its lines say, in their order: what the first line says and then
/// what the rest says, whether the line ends in a line feed alone or after a carriage
/// return.
pub proof fn law_maps_are_read_by_line(line: Seq<char>, rest: Seq<char>)
    requires
        forall|i: int| 0 <= i < line.len() ==> #[trigger] line[i] != '\n',
    ensures
        mappings(Seq::empty()).len() == 0,
        line.len() > 0 ==> mappings(line) == said_by(line),
        mappings(line + seq!['\r', '\n'] + rest) == said_by(line) + mappings(rest),
        line.len() == 0 || line.last() != '\r' ==> mappings(line + seq!['\n'] + rest) == said_by(
            line,
        ) + mappings(rest),
{
    lemma_position(line, '\n');
    let plain = line + seq!['\n'] + rest;
    lemma_position(plain, '\n');
    assert(plain[line.len() as int] == '\n');
    assert(position(plain, '\n') == line.len()) by {
        let at = position(plain, '\n');
        if at < line.len() {
            assert(plain[at] == line[at]);
        }
    }
    assert(plain.take(line.len() as int) =~= line);
    assert(plain.skip(line.len() as int + 1) =~= rest);
    let returned = line + seq!['\r', '\n'] + rest;
    lemma_position(returned, '\n');
    assert(returned[line.len() as int + 1] == '\n');
    assert(returned[line.len() as int] == '\r');
    assert(position(returned, '\n') == line.len() + 1) by {
        let at = position(returned, '\n');
        if at < line.len() {
            assert(returned[at] == line[at]);
        }
    }
    let first = returned.take(line.len() as int + 1);
    assert(first =~= line.push('\r'));
    assert(first.drop_last() =~= line);
    assert(returned.skip(line.len() as int + 2) =~= rest);
}

/// A process id is a row of decimal digits, with a sign or without one, that fits; a sign
/// alone is none.
pub proof fn law_process_ids(digits: Seq<char>, value: int)
    requires
        digits.len() > 0,
        '0' <= digits[0] <= '9',
        crate::text::number(digits, 10) == Some(value),
    ensures
        process_number(digits) == if value < 0x8000_0000 {
            Some(value)
        } else {
            None
        },
        process_number(seq!['+'] + digits) == process_number(digits),
        process_number(seq!['-'] + digits) == if value <= 0x8000_0000 {
            Some(-value)
        } else {
            None
        },
        process_number(seq!['-']) is None,
        process_number(seq!['+']) is None,
        process_number(Seq::empty()) is None,
{
    assert((seq!['+'] + digits).skip(1) =~= digits);
    assert((seq!['-'] + digits).skip(1) =~= digits);
}

/// What is read of a name is its process id, where it is one.
pub proof fn law_process_ids_are_read(name: &str, r: Option<i32>)
    requires
        call_ensures(parse_pid, (name,), r),
    ensures
        r is Some <==> process_number(name@) is Some,
        r matches Some(pid) ==> process_number(name@) == Some(pid as int),
{
}

} // verus!
