//! Where guest-physical memory lies in the virtual machine's process.
use crate::error::Error;
use crate::host::maps::{is_memory_region, select_memory_region, MemoryRegion};
use crate::host::process::{
    by_pid, discover_vm_processes, machines, select_vm_process, selected, Hypervisor, ProcEntry,
    VmProcess,
};
use crate::text::{text, text_opt, trim, trimmed};
use crate::types::PhysAddr;
use vstd::prelude::*;
use vstd::string::*;

verus! {

pub const FOUR_GIB: u64 = 0x1_0000_0000;

/// The error number of an operation that is not permitted.
pub const EPERM: i32 = 1;

/// The offset of a guest-physical range in guest memory: memory is contiguous
/// there but for the MMIO hole below 4 GiB. A range that lies in the hole,
/// reaches into it or wraps around has none.
pub open spec fn guest_offset(hypervisor: Hypervisor, gpa: int, len: int) -> Option<int> {
    let low = hypervisor.spec_low_memory_limit();
    if gpa + len > u64::MAX {
        None
    } else if gpa < low && gpa + len <= low {
        Some(gpa)
    } else if gpa >= FOUR_GIB {
        Some(gpa - (FOUR_GIB - low))
    } else {
        None
    }
}

/// The offset of a guest-physical range in guest memory.
pub fn gpa_to_offset(hypervisor: Hypervisor, gpa: PhysAddr, len: usize) -> (r: Result<u64, Error>)
    ensures
        match guest_offset(hypervisor, gpa as int, len as int) {
            Some(offset) => r matches Ok(v) && v == offset,
            None => r == Err::<u64, Error>(Error::BadPhysicalAddress(gpa)),
        },
{
    let end: u64 = match gpa.checked_add(len as u64) {
        Some(end) => end,
        None => return Err(Error::BadPhysicalAddress(gpa)),
    };
    let low_memory_limit: u64 = hypervisor.low_memory_limit();
    if gpa < low_memory_limit && end <= low_memory_limit {
        return Ok(gpa);
    }
    if gpa >= FOUR_GIB {
        return Ok(gpa - (FOUR_GIB - low_memory_limit));
    }
    Err(Error::BadPhysicalAddress(gpa))
}

/// Why a file of the host could not be read.
#[derive(Debug)]
pub enum ReadFailure {
    /// The host denies the permission.
    Denied,
    /// Anything else, in the host's words.
    Other(String),
}

/// What is shown of the host's `ptrace_scope` setting.
pub open spec fn shown_scope(setting: Option<Seq<char>>) -> Seq<char> {
    match setting {
        Some(s) => trimmed(s),
        None => "unknown"@,
    }
}

/// What is shown of the host's `ptrace_scope` setting, where it could be read.
pub fn ptrace_scope(setting: Option<String>) -> (r: String)
    ensures
        r@ == shown_scope(text_opt(setting)),
{
    match setting {
        Some(s) => trim(s.as_str()),
        None => text("unknown"),
    }
}

/// Whether an error says that the host denies access to the process.
pub open spec fn is_denial(e: Error, pid: i32, setting: Option<Seq<char>>) -> bool {
    e matches Error::PtraceDenied { pid: p, scope } && p == pid && scope@ == shown_scope(setting)
}

/// Whether `r` is what follows from reading the `maps` file of a process.
pub open spec fn is_primary_region(
    process: VmProcess,
    maps: Result<String, ReadFailure>,
    setting: Option<Seq<char>>,
    r: Result<MemoryRegion, Error>,
) -> bool {
    match maps {
        Ok(maps) => is_memory_region(process.hypervisor, process.pid, maps@, r),
        Err(ReadFailure::Denied) => r matches Err(e) && is_denial(e, process.pid, setting),
        Err(ReadFailure::Other(why)) => r == Err::<MemoryRegion, Error>(Error::Io(why)),
    }
}

/// The mapping that holds guest memory, given what reading the process's
/// `maps` file gave, and the host's `ptrace_scope` setting.
pub fn primary_memory_region(
    process: VmProcess,
    maps: Result<String, ReadFailure>,
    setting: Option<String>,
) -> (r: Result<MemoryRegion, Error>)
    ensures
        is_primary_region(process, maps, text_opt(setting), r),
        r matches Ok(region) ==> region.start < region.end,
{
    match maps {
        Ok(maps) => select_memory_region(process.hypervisor, process.pid, maps.as_str()),
        Err(ReadFailure::Denied) => Err(
            Error::PtraceDenied { pid: process.pid, scope: ptrace_scope(setting) },
        ),
        Err(ReadFailure::Other(why)) => Err(Error::Io(why)),
    }
}

/// Whether `r` is what follows from trying to read one byte of the process.
pub open spec fn is_probe_result(
    pid: i32,
    outcome: Result<usize, i32>,
    setting: Option<Seq<char>>,
    r: Result<(), Error>,
) -> bool {
    match outcome {
        Err(errno) => if errno == EPERM {
            r matches Err(e) && is_denial(e, pid, setting)
        } else {
            r == Err::<(), Error>(Error::Errno(errno))
        },
        Ok(count) => if count == 1 {
            r is Ok
        } else {
            r == Err::<(), Error>(Error::PartialRead(count))
        },
    }
}

/// Judges an attempt to read one byte of the process: the number of bytes read
/// or the error number.
pub fn probe_ptrace_access(
    pid: i32,
    outcome: Result<usize, i32>,
    setting: Option<String>,
) -> (r: Result<(), Error>)
    ensures
        is_probe_result(pid, outcome, text_opt(setting), r),
{
    match outcome {
        Err(errno) => if errno == EPERM {
            Err(Error::PtraceDenied { pid, scope: ptrace_scope(setting) })
        } else {
            Err(Error::Errno(errno))
        },
        Ok(count) => if count == 1 {
            Ok(())
        } else {
            Err(Error::PartialRead(count))
        },
    }
}

/// A running virtual machine whose memory can be read and written.
#[derive(Debug, Clone, Copy, PartialEq, Eq, Structural)]
pub struct LiveVmHandle {
    pub memory: MemoryRegion,
    pub pid: i32,
    pub hypervisor: Hypervisor,
}

impl LiveVmHandle {
    /// The handle's memory is a range of at least one byte.
    pub open spec fn well_formed(self) -> bool {
        self.memory.start < self.memory.end
    }

    /// Whether opening a virtual machine may end with `r`: the one that runs is
    /// found, then its memory, and one byte of it is read.
    pub open spec fn may_open<
        L: FnOnce(i32) -> Result<String, ReadFailure>,
        P: FnOnce(i32, u64) -> Result<usize, i32>,
    >(
        entries: Seq<ProcEntry>,
        read_maps: L,
        probe: P,
        setting: Option<Seq<char>>,
        r: Result<LiveVmHandle, Error>,
    ) -> bool {
        exists|processes: Seq<VmProcess>, process: Result<VmProcess, Error>|
            {
                &&& #[trigger] by_pid(processes)
                &&& processes.to_multiset() == machines(entries).to_multiset()
                &&& #[trigger] selected(processes, process)
                &&& match process {
                    Err(e) => r == Err::<LiveVmHandle, Error>(e),
                    Ok(process) => Self::may_map(process, read_maps, probe, setting, r),
                }
            }
    }

    /// How opening a virtual machine may go on once its process is known.
    pub open spec fn may_map<
        L: FnOnce(i32) -> Result<String, ReadFailure>,
        P: FnOnce(i32, u64) -> Result<usize, i32>,
    >(
        process: VmProcess,
        read_maps: L,
        probe: P,
        setting: Option<Seq<char>>,
        r: Result<LiveVmHandle, Error>,
    ) -> bool {
        exists|maps: Result<String, ReadFailure>, memory: Result<MemoryRegion, Error>|
            {
                &&& #[trigger] call_ensures(read_maps, (process.pid,), maps)
                &&& #[trigger] is_primary_region(process, maps, setting, memory)
                &&& match memory {
                    Err(e) => r == Err::<LiveVmHandle, Error>(e),
                    Ok(memory) => exists|outcome: Result<usize, i32>, verdict: Result<(), Error>|
                        {
                            &&& #[trigger] call_ensures(
                                probe,
                                (process.pid, memory.start),
                                outcome,
                            )
                            &&& #[trigger] is_probe_result(process.pid, outcome, setting, verdict)
                            &&& match verdict {
                                Err(e) => r == Err::<LiveVmHandle, Error>(e),
                                Ok(_) => r == Ok::<LiveVmHandle, Error>(
                                    LiveVmHandle {
                                        memory,
                                        pid: process.pid,
                                        hypervisor: process.hypervisor,
                                    },
                                ),
                            }
                        },
                }
            }
    }

    /// Opens the virtual machine that is running. `entries` is what `/proc`
    /// shows, `setting` the host's `ptrace_scope`; `read_maps` reads the `maps`
    /// file of a process, and `probe` one byte of its memory.
    pub fn new<
        L: FnOnce(i32) -> Result<String, ReadFailure>,
        P: FnOnce(i32, u64) -> Result<usize, i32>,
    >(entries: &[ProcEntry], read_maps: L, probe: P, setting: Option<String>) -> (r: Result<
        Self,
        Error,
    >)
        requires
            forall|pid: i32| call_requires(read_maps, (pid,)),
            forall|pid: i32, address: u64| call_requires(probe, (pid, address)),
        ensures
            Self::may_open(entries@, read_maps, probe, text_opt(setting), r),
            r matches Ok(handle) ==> handle.well_formed(),
    {
        let processes = discover_vm_processes(entries);
        let ghost found = processes@;
        let chosen = select_vm_process(processes);
        assert(by_pid(found) && selected(found, chosen));
        let process = match chosen {
            Ok(process) => process,
            Err(e) => return Err(e),
        };
        let maps = read_maps(process.pid);
        let again: Option<String> = match &setting {
            Some(s) => Some(s.clone()),
            None => None,
        };
        let primary = primary_memory_region(process, maps, again);
        assert(is_primary_region(process, maps, text_opt(setting), primary));
        let memory = match primary {
            Ok(memory) => memory,
            Err(e) => {
                assert(Self::may_map(process, read_maps, probe, text_opt(setting), Err(e)));
                return Err(e);
            },
        };
        let outcome = probe(process.pid, memory.start);
        let ghost shown = text_opt(setting);
        let verdict = probe_ptrace_access(process.pid, outcome, setting);
        assert(is_probe_result(process.pid, outcome, shown, verdict));
        match verdict {
            Ok(()) => {
                let handle = LiveVmHandle {
                    memory,
                    pid: process.pid,
                    hypervisor: process.hypervisor,
                };
                assert(Self::may_map(process, read_maps, probe, shown, Ok(handle)));
                Ok(handle)
            },
            Err(e) => {
                assert(Self::may_map(process, read_maps, probe, shown, Err(e)));
                Err(e)
            },
        }
    }

    /// Where a guest-physical range lies in the process.
    pub open spec fn located(self, gpa: int, len: int) -> Option<int> {
        match guest_offset(self.hypervisor, gpa, len) {
            None => None,
            Some(offset) => if offset + len > self.memory.end - self.memory.start {
                None
            } else {
                Some(self.memory.start + offset)
            },
        }
    }

    /// Where a guest-physical range lies in the process.
    pub fn host_address(&self, gpa: PhysAddr, len: usize) -> (r: Result<u64, Error>)
        requires
            self.well_formed(),
        ensures
            match self.located(gpa as int, len as int) {
                Some(address) => r matches Ok(v) && v == address,
                None => r == Err::<u64, Error>(Error::BadPhysicalAddress(gpa)),
            },
    {
        let offset: u64 = match gpa_to_offset(self.hypervisor, gpa, len) {
            Ok(offset) => offset,
            Err(e) => return Err(e),
        };
        let end_offset: u64 = match offset.checked_add(len as u64) {
            Some(end) => end,
            None => return Err(Error::BadPhysicalAddress(gpa)),
        };
        if end_offset > self.memory.len() {
            return Err(Error::BadPhysicalAddress(gpa));
        }
        match self.memory.start.checked_add(offset) {
            Some(address) => Ok(address),
            None => Err(Error::BadPhysicalAddress(gpa)),
        }
    }

    /// Judges a read of `wanted` bytes: the number of bytes read or the error
    /// number.
    pub fn read_outcome(wanted: usize, outcome: Result<usize, i32>) -> (r: Result<(), Error>)
        ensures
            match outcome {
                Err(errno) => r == Err::<(), Error>(Error::Errno(errno)),
                Ok(count) => if count == wanted {
                    r is Ok
                } else {
                    r == Err::<(), Error>(Error::PartialRead(count))
                },
            },
    {
        match outcome {
            Err(errno) => Err(Error::Errno(errno)),
            Ok(count) => if count != wanted {
                Err(Error::PartialRead(count))
            } else {
                Ok(())
            },
        }
    }

    /// Judges a write of `wanted` bytes: the number of bytes written or the
    /// error number.
    pub fn write_outcome(wanted: usize, outcome: Result<usize, i32>) -> (r: Result<(), Error>)
        ensures
            match outcome {
                Err(errno) => r == Err::<(), Error>(Error::Errno(errno)),
                Ok(count) => if count == wanted {
                    r is Ok
                } else {
                    r == Err::<(), Error>(Error::PartialWrite(count))
                },
            },
    {
        match outcome {
            Err(errno) => Err(Error::Errno(errno)),
            Ok(count) => if count != wanted {
                Err(Error::PartialWrite(count))
            } else {
                Ok(())
            },
        }
    }
}

/// No guest-physical range in the MMIO hole, or reaching into it, has a place
/// in guest memory.
pub proof fn law_hole_is_rejected(hypervisor: Hypervisor, gpa: int, len: int, at: int)
    requires
        0 <= gpa <= at < gpa + len,
        hypervisor.spec_low_memory_limit() <= at < FOUR_GIB,
    ensures
        guest_offset(hypervisor, gpa, len) is None,
{
}

/// Different guest-physical addresses lie at different offsets.
pub proof fn law_offsets_are_distinct(
    hypervisor: Hypervisor,
    a: int,
    len_a: int,
    b: int,
    len_b: int,
)
    requires
        0 <= a,
        0 <= b,
        0 <= len_a,
        0 <= len_b,
        guest_offset(hypervisor, a, len_a) is Some,
        guest_offset(hypervisor, a, len_a) == guest_offset(hypervisor, b, len_b),
    ensures
        a == b,
{
}

/// Where a range has a place, so has each of its bytes, at the same distance.
pub proof fn law_offsets_are_contiguous(hypervisor: Hypervisor, gpa: int, len: int, at: int)
    requires
        0 <= gpa <= at < gpa + len,
        guest_offset(hypervisor, gpa, len) is Some,
    ensures
        guest_offset(hypervisor, at, 1) == Some(
            guest_offset(hypervisor, gpa, len)->0 + (at - gpa),
        ),
{
}

/// A range that is located lies in the virtual machine's memory, whole.
pub proof fn law_located_is_inside(handle: LiveVmHandle, gpa: int, len: int)
    requires
        handle.well_formed(),
        0 <= gpa,
        0 <= len,
        handle.located(gpa, len) is Some,
    ensures
        handle.memory.start <= handle.located(gpa, len)->0,
        handle.located(gpa, len)->0 + len <= handle.memory.end,
{
}

} // verus!
