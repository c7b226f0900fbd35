//! Which process of the host is the virtual machine.
use crate::error::Error;
use crate::text::{
    chars, dec_int, decimal_int, join, joined, number, parse_unsigned, same, text, texts, trim,
    trimmed, unsigned,
};
use vstd::prelude::*;
use vstd::seq_lib::*;
use vstd::string::*;

verus! {

/// The virtual machine monitors whose guests can be read.
#[derive(Debug, Clone, Copy, PartialEq, Eq, Structural)]
pub enum Hypervisor {
    Kvm,
    Vmware,
}

impl Hypervisor {
    /// The name of the monitor.
    pub open spec fn spec_label(self) -> Seq<char> {
        match self {
            Hypervisor::Kvm => "KVM/QEMU"@,
            Hypervisor::Vmware => "VMware"@,
        }
    }

    pub fn label(self) -> (r: &'static str)
        ensures
            r@ == self.spec_label(),
    {
        match self {
            Self::Kvm => "KVM/QEMU",
            Self::Vmware => "VMware",
        }
    }

    /// Where guest memory below the MMIO hole ends.
    pub open spec fn spec_low_memory_limit(self) -> u64 {
        match self {
            Hypervisor::Kvm => 0x8000_0000,
            Hypervisor::Vmware => 0xC000_0000,
        }
    }

    pub fn low_memory_limit(self) -> (r: u64)
        ensures
            r == self.spec_low_memory_limit(),
    {
        match self {
            Self::Kvm => 0x8000_0000,
            Self::Vmware => 0xC000_0000,
        }
    }
}

/// A process that runs a virtual machine.
#[derive(Debug, Clone, Copy, PartialEq, Eq, Structural)]
pub struct VmProcess {
    pub pid: i32,
    pub hypervisor: Hypervisor,
}

/// What the host shows of one entry under `/proc`.
#[derive(Debug)]
pub struct ProcEntry {
    /// The entry's name; nothing where it is no Unicode text.
    pub name: Option<String>,
    pub is_dir: bool,
    /// Whether one of its file descriptors is `/dev/kvm`.
    pub holds_kvm: bool,
    /// What its `comm` file holds, where that can be read.
    pub comm: Option<String>,
}

/// The number that a name stands for: decimal digits, with an optional sign.
pub open spec fn process_number(name: Seq<char>) -> Option<int> {
    if name.len() > 0 && name[0] == '-' {
        let digits = name.skip(1);
        if digits.len() == 0 {
            None
        } else {
            match number(digits, 10) {
                Some(v) => if -v >= i32::MIN {
                    Some(-v)
                } else {
                    None
                },
                None => None,
            }
        }
    } else {
        unsigned(name, 10, i32::MAX as int)
    }
}

/// Reads a process id.
pub fn parse_pid(name: &str) -> (r: Option<i32>)
    ensures
        match r {
            Some(pid) => process_number(name@) == Some(pid as int),
            None => process_number(name@) is None,
        },
{
    let c = chars(name);
    if c.len() > 0 && c[0] == '-' {
        let digits = vstd::slice::slice_subrange(c.as_slice(), 1, c.len());
        assert(digits@ =~= name@.skip(1));
        if digits.len() > 0 && digits[0] == '+' {
            proof {
                lemma_no_sign(digits@);
            }
            return None;
        }
        match parse_unsigned(digits, 10, 0x8000_0000) {
            Some(v) => Some((-(v as i64)) as i32),
            None => None,
        }
    } else {
        match parse_unsigned(c.as_slice(), 10, 0x7FFF_FFFF) {
            Some(v) => Some(v as i32),
            None => None,
        }
    }
}

/// A sign is no digit.
proof fn lemma_no_sign(s: Seq<char>)
    requires
        s.len() > 0,
        s[0] == '+',
    ensures
        number(s, 10) is None,
    decreases s.len(),
{
    if s.len() > 1 {
        lemma_no_sign(s.drop_last());
    }
}

/// The virtual machine that an entry stands for, if it does.
pub open spec fn classified(entry: ProcEntry) -> Option<VmProcess> {
    match entry.name {
        None => None,
        Some(name) => match process_number(name@) {
            None => None,
            Some(pid) => if !entry.is_dir {
                None
            } else if entry.holds_kvm {
                Some(VmProcess { pid: pid as i32, hypervisor: Hypervisor::Kvm })
            } else if entry.comm matches Some(comm) && trimmed(comm@) == "vmware-vmx"@ {
                Some(VmProcess { pid: pid as i32, hypervisor: Hypervisor::Vmware })
            } else {
                None
            },
        },
    }
}

/// Decides whether an entry is a virtual machine.
pub fn classify(entry: &ProcEntry) -> (r: Option<VmProcess>)
    ensures
        r == classified(*entry),
{
    let pid: i32 = match &entry.name {
        None => return None,
        Some(name) => match parse_pid(name.as_str()) {
            None => return None,
            Some(pid) => pid,
        },
    };
    if !entry.is_dir {
        return None;
    }
    if entry.holds_kvm {
        return Some(VmProcess { pid, hypervisor: Hypervisor::Kvm });
    }
    match &entry.comm {
        Some(comm) => {
            if same(trim(comm.as_str()).as_str(), "vmware-vmx") {
                Some(VmProcess { pid, hypervisor: Hypervisor::Vmware })
            } else {
                None
            }
        },
        None => None,
    }
}

/// The virtual machines among the entries, in their order.
pub open spec fn machines(entries: Seq<ProcEntry>) -> Seq<VmProcess>
    decreases entries.len(),
{
    if entries.len() == 0 {
        Seq::empty()
    } else {
        match classified(entries.last()) {
            Some(process) => machines(entries.drop_last()).push(process),
            None => machines(entries.drop_last()),
        }
    }
}

/// Whether processes stand in ascending order of pid.
pub open spec fn by_pid(list: Seq<VmProcess>) -> bool {
    forall|i: int, j: int| 0 <= i <= j < list.len() ==> list[i].pid <= list[j].pid
}

/// The virtual machines among the entries of `/proc`, by pid.
pub fn discover_vm_processes(entries: &[ProcEntry]) -> (r: Vec<VmProcess>)
    ensures
        by_pid(r@),
        r@.to_multiset() == machines(entries@).to_multiset(),
{
    let mut out: Vec<VmProcess> = Vec::new();
    let mut i: usize = 0;
    assert(entries@.take(0) =~= Seq::<ProcEntry>::empty());
    while i < entries.len()
        invariant
            i <= entries@.len(),
            by_pid(out@),
            out@.to_multiset() == machines(entries@.take(i as int)).to_multiset(),
        decreases entries@.len() - i,
    {
        assert(entries@.take(i + 1).drop_last() =~= entries@.take(i as int));
        assert(entries@.take(i + 1).last() == entries@[i as int]);
        match classify(&entries[i]) {
            Some(process) => {
                proof {
                    to_multiset_build(machines(entries@.take(i as int)), process);
                }
                insert_by_pid(&mut out, process);
            },
            None => {},
        }
        i += 1;
    }
    assert(entries@.take(i as int) =~= entries@);
    out
}

fn insert_by_pid(out: &mut Vec<VmProcess>, process: VmProcess)
    requires
        by_pid(old(out)@),
    ensures
        by_pid(final(out)@),
        final(out)@.to_multiset() == old(out)@.to_multiset().insert(process),
{
    let mut at: usize = 0;
    while at < out.len() && out[at].pid <= process.pid
        invariant
            at <= out@.len(),
            by_pid(out@),
            forall|k: int| 0 <= k < at ==> (#[trigger] out@[k]).pid <= process.pid,
        decreases out@.len() - at,
    {
        at += 1;
    }
    proof {
        to_multiset_insert(out@, at as int, process);
    }
    out.insert(at, process);
}

/// How one of several machines is shown.
pub open spec fn choice(process: VmProcess) -> Seq<char> {
    process.hypervisor.spec_label() + " PID "@ + dec_int(process.pid as int)
}

/// Whether `r` is the one virtual machine that is running, or the reason why
/// there is none to pick.
pub open spec fn selected(processes: Seq<VmProcess>, r: Result<VmProcess, Error>) -> bool {
    if processes.len() == 0 {
        r == Err::<VmProcess, Error>(Error::VmNotFound)
    } else if processes.len() == 1 {
        r == Ok::<VmProcess, Error>(processes[0])
    } else {
        r matches Err(Error::MultipleVmProcesses(m)) && m@ == joined(
            processes.map_values(|p: VmProcess| choice(p)),
            ", "@,
        )
    }
}

/// Picks the one virtual machine that is running.
pub fn select_vm_process(processes: Vec<VmProcess>) -> (r: Result<VmProcess, Error>)
    ensures
        selected(processes@, r),
{
    if processes.len() == 0 {
        return Err(Error::VmNotFound);
    }
    if processes.len() == 1 {
        return Ok(processes[0]);
    }
    let mut choices: Vec<String> = Vec::new();
    let mut i: usize = 0;
    while i < processes.len()
        invariant
            i <= processes@.len(),
            choices@.len() == i,
            forall|k: int| 0 <= k < i ==> (#[trigger] choices@[k])@ == choice(processes@[k]),
        decreases processes@.len() - i,
    {
        let process = processes[i];
        choices.push(
            text(process.hypervisor.label()).concat(" PID ").concat(
                decimal_int(process.pid as i64).as_str(),
            ),
        );
        i += 1;
    }
    assert(texts(choices@) =~= processes@.map_values(|p: VmProcess| choice(p)));
    Err(Error::MultipleVmProcesses(join(choices.as_slice(), ", ")))
}

/// A virtual machine is picked only where exactly one is running, and then it
/// is that one.
pub proof fn law_selection_needs_exactly_one(
    processes: Seq<VmProcess>,
    r: Result<VmProcess, Error>,
)
    requires
        selected(processes, r),
    ensures
        r is Ok <==> processes.len() == 1,
        r matches Ok(process) ==> processes.contains(process),
{
    if processes.len() == 1 {
        assert(processes.contains(processes[0]));
    }
}

} // verus!
