//! The errors that the debugger core reports.
use crate::types::VirtAddr;
use vstd::prelude::*;

verus! {

/// What went wrong.
#[derive(Debug)]
pub enum Error {
    /// The backend does not offer the requested facility.
    NotSupported,
    /// No breakpoint has this id.
    BPNotFound(u32),
    /// A request that the debugger or its remote end refuses, with the reason.
    Rsp(String),
    /// A failure of the kernel-debugger transport.
    Kd(String),
    /// The virtual address is not mapped.
    BadVirtualAddress(VirtAddr),
    /// The physical address is not backed by guest memory.
    BadPhysicalAddress(u64),
    /// Only this many bytes could be read.
    PartialRead(usize),
    /// Only this many bytes could be written.
    PartialWrite(usize),
    /// No virtual machine is running.
    VmNotFound,
    /// Several virtual machines are running; the text lists them.
    MultipleVmProcesses(String),
    /// The virtual machine has no mapping that could be guest memory.
    VmMemoryRegionNotFound { pid: i32, hypervisor: &'static str },
    /// The virtual machine has several mappings that could be guest memory.
    MultipleVmMemoryRegions { pid: i32, count: usize },
    /// The host forbids access to the virtual machine's memory.
    PtraceDenied { pid: i32, scope: String },
    /// A file of the host could not be read, in the host's words.
    Io(String),
    /// A failed system call, by its error number.
    Errno(i32),
    /// The image of a module is no valid PE image, in the parser's words.
    Pe(String),
    /// The Windows kernel was not found in guest memory.
    NtoskrnlNotFound,
    /// Any other failure, in words.
    Other(String),
}

} // verus!
