//! The debug transport: what a backend can be asked to do.
use crate::error::Error;
use crate::memory::MemoryOps;
use crate::text::{dec, decimal, text};
use crate::types::PhysAddr;
use vstd::prelude::*;
use vstd::string::*;

verus! {

/// How many debug-register slots a processor has.
pub const HW_BREAKPOINT_SLOTS: u8 = 4;

/// The access that a debug-register breakpoint traps on.
#[derive(Debug, Clone, Copy, PartialEq, Eq, Structural)]
pub enum HwBreakpointAccess {
    Execute,
    Write,
    ReadWrite,
}

impl HwBreakpointAccess {
    /// The letter of this access in a `ba` token.
    pub open spec fn spec_letter(self) -> char {
        match self {
            HwBreakpointAccess::Execute => 'e',
            HwBreakpointAccess::Write => 'w',
            HwBreakpointAccess::ReadWrite => 'r',
        }
    }

    /// The letter of this access in a `ba` token.
    pub fn letter(self) -> (r: char)
        ensures
            r == self.spec_letter(),
    {
        match self {
            HwBreakpointAccess::Execute => 'e',
            HwBreakpointAccess::Write => 'w',
            HwBreakpointAccess::ReadWrite => 'r',
        }
    }

    /// The name of this access.
    pub open spec fn spec_label(self) -> Seq<char> {
        match self {
            HwBreakpointAccess::Execute => "execute"@,
            HwBreakpointAccess::Write => "write"@,
            HwBreakpointAccess::ReadWrite => "read/write"@,
        }
    }

    /// The name of this access.
    pub fn label(self) -> (r: &'static str)
        ensures
            r@ == self.spec_label(),
    {
        match self {
            HwBreakpointAccess::Execute => "execute",
            HwBreakpointAccess::Write => "write",
            HwBreakpointAccess::ReadWrite => "read/write",
        }
    }
}

/// The access that a data watch traps on.
#[derive(Debug, Clone, Copy, PartialEq, Eq, Structural)]
pub enum WatchpointAccess {
    Write,
    ReadWrite,
}

impl WatchpointAccess {
    /// The name of this access.
    pub open spec fn spec_name(self) -> Seq<char> {
        match self {
            WatchpointAccess::Write => "write"@,
            WatchpointAccess::ReadWrite => "read_write"@,
        }
    }

    /// The name of this access.
    pub fn name(self) -> (r: &'static str)
        ensures
            r@ == self.spec_name(),
    {
        match self {
            WatchpointAccess::Write => "write",
            WatchpointAccess::ReadWrite => "read_write",
        }
    }
}

/// A facility that a backend may offer.
#[derive(Debug, Clone, Copy, PartialEq, Eq, Structural)]
pub enum DebugCapability {
    KernelBreakpoints,
    UserModeBreakpoints,
}

/// Whether a backend offers a facility.
#[derive(Debug, Clone, Copy, PartialEq, Eq, Structural)]
pub struct CapabilityStatus {
    pub capability: DebugCapability,
    pub supported: bool,
}

/// Whether a list of facilities grants one of them.
pub open spec fn grants(caps: Seq<CapabilityStatus>, wanted: DebugCapability) -> bool {
    exists|i: int|
        0 <= i < caps.len() && (#[trigger] caps[i]).capability == wanted && caps[i].supported
}

/// Whether a list of facilities grants one of them.
pub fn capability_granted(caps: &[CapabilityStatus], wanted: DebugCapability) -> (r: bool)
    ensures
        r == grants(caps@, wanted),
{
    let mut i: usize = 0;
    while i < caps.len()
        invariant
            i <= caps@.len(),
            forall|k: int|
                0 <= k < i ==> !((#[trigger] caps@[k]).capability == wanted && caps@[k].supported),
        decreases caps@.len() - i,
    {
        if caps[i].capability == wanted && caps[i].supported {
            return true;
        }
        i += 1;
    }
    false
}

/// A request that changes the state of the target.
#[derive(Debug, Clone, Copy, PartialEq, Eq, Structural)]
pub enum BackendCall {
    /// Write an int3 at the address through the kernel debugger.
    SetBreakpoint(u64),
    /// Take that int3 back.
    RemoveBreakpoint(u64),
    /// Learn that an int3 was patched in behind the backend's back.
    NoteInstalled(u64),
    /// Learn that such an int3 was taken back.
    NoteUninstalled(u64),
    /// Arm a debug register.
    SetHardware { slot: u8, address: u64, access: HwBreakpointAccess, len: u8 },
    /// Disarm a debug register.
    ClearHardware(u8),
    /// Let the target run.
    Continue,
}

/// The transport to the target's debugger.
///
/// Whether a request succeeds, and what state it leaves the transport in, is
/// up to the transport: each implementation says so in `may`, and one that
/// says nothing may do anything.
pub trait DebugBackend: Sized {
    /// Whether the transport, asked for `call`, may answer `reply` and be
    /// `post` afterwards.
    open spec fn may(&self, call: BackendCall, reply: Result<(), Error>, post: &Self) -> bool {
        true
    }

    /// Whether the transport may report these facilities.
    open spec fn may_report(&self, caps: Seq<CapabilityStatus>) -> bool {
        true
    }

    /// Whether the transport may say `supported` of data watches.
    open spec fn may_watch(&self, supported: bool) -> bool {
        true
    }

    /// The facilities of this backend.
    fn capabilities(&self) -> (r: Vec<CapabilityStatus>)
        ensures
            self.may_report(r@),
    ;

    /// Whether debug-register breakpoints can be set.
    fn supports_watchpoints(&self) -> (r: bool)
        ensures
            self.may_watch(r),
    ;

    /// Has the kernel debugger write an int3 at the address. It goes into guest
    /// memory, which is lent for that: nothing is said of what it holds then.
    fn set_breakpoint<M: MemoryOps<PhysAddr>>(&mut self, memory: &mut M, address: u64) -> (r:
        Result<(), Error>)
        ensures
            old(self).may(BackendCall::SetBreakpoint(address), r, final(self)),
    ;

    /// Has the kernel debugger take that int3 back, out of guest memory, which
    /// is lent for that.
    fn remove_breakpoint<M: MemoryOps<PhysAddr>>(&mut self, memory: &mut M, address: u64) -> (r:
        Result<(), Error>)
        ensures
            old(self).may(BackendCall::RemoveBreakpoint(address), r, final(self)),
    ;

    fn note_breakpoint_installed(&mut self, address: u64)
        ensures
            old(self).may(BackendCall::NoteInstalled(address), Ok(()), final(self)),
    ;

    fn note_breakpoint_uninstalled(&mut self, address: u64)
        ensures
            old(self).may(BackendCall::NoteUninstalled(address), Ok(()), final(self)),
    ;

    fn set_hardware_breakpoint(
        &mut self,
        slot: u8,
        address: u64,
        access: HwBreakpointAccess,
        len: u8,
    ) -> (r: Result<(), Error>)
        ensures
            old(self).may(BackendCall::SetHardware { slot, address, access, len }, r, final(self)),
    ;

    fn clear_hardware_breakpoint(&mut self, slot: u8) -> (r: Result<(), Error>)
        ensures
            old(self).may(BackendCall::ClearHardware(slot), r, final(self)),
    ;

    fn continue_execution(&mut self) -> (r: Result<(), Error>)
        ensures
            old(self).may(BackendCall::Continue, r, final(self)),
    ;
}

/// Whether a debug register can hold this watch: one, two, four or eight
/// bytes, naturally aligned, and a single byte for execution.
pub open spec fn watchable(access: HwBreakpointAccess, len: u8, address: u64) -> bool {
    &&& len == 1 || len == 2 || len == 4 || len == 8
    &&& access is Execute ==> len == 1
    &&& address % len as u64 == 0
}

/// What is said of a watch that no debug register can hold.
pub open spec fn watch_refusal(len: u8) -> Seq<char> {
    "a debug register cannot watch "@ + dec(len as nat) + " byte(s) at that address"@
}

/// Refuses a watch that no debug register can hold.
pub fn validate_hw_breakpoint(access: HwBreakpointAccess, len: u8, address: u64) -> (r: Result<
    (),
    Error,
>)
    ensures
        watchable(access, len, address) ==> r is Ok,
        !watchable(access, len, address) ==> (r matches Err(Error::Rsp(m)) && m@
            == watch_refusal(len)),
{
    let width_ok = len == 1 || len == 2 || len == 4 || len == 8;
    let access_ok = match access {
        HwBreakpointAccess::Execute => len == 1,
        _ => true,
    };
    if width_ok && access_ok && address % len as u64 == 0 {
        Ok(())
    } else {
        Err(
            Error::Rsp(
                text("a debug register cannot watch ").concat(decimal(len as u64).as_str()).concat(
                    " byte(s) at that address",
                ),
            ),
        )
    }
}

} // verus!
