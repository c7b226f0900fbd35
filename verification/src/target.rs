//! What the debugger knows of its target.
use crate::types::{Dtb, VirtAddr};
use vstd::prelude::*;

verus! {

/// A process of the guest.
#[derive(Debug)]
pub struct ProcessInfo {
    pub pid: u64,
    pub name: String,
    pub dtb: Dtb,
}

/// A module that the guest has loaded.
#[derive(Debug)]
pub struct ModuleInfo {
    pub base_address: VirtAddr,
    pub size: u32,
    pub short_name: String,
}

impl ModuleInfo {
    /// Whether an address lies within the module.
    pub open spec fn contains(&self, address: VirtAddr) -> bool {
        self.base_address.0 <= address.0 < self.base_address.0 + self.size
    }

    /// Whether an address lies within the module.
    pub fn contains_address(&self, address: VirtAddr) -> (r: bool)
        ensures
            r == self.contains(address),
    {
        self.base_address.0 <= address.0 && address.0 - self.base_address.0 < self.size as u64
    }
}

/// The target: its physical memory, the attached process if there is one, the
/// page table in force, and the kernel modules where they could be listed.
pub struct Target<M> {
    pub phys: M,
    pub current_process_info: Option<ProcessInfo>,
    pub current_dtb: Dtb,
    pub kernel_modules: Option<Vec<ModuleInfo>>,
}

/// The transport to the target, and the target, at one moment.
pub struct Machine<C, M> {
    pub client: C,
    pub target: Target<M>,
}

/// The transport and the target at this moment.
pub open spec fn machine<C, M>(client: &C, target: &Target<M>) -> Machine<C, M> {
    Machine { client: *client, target: *target }
}

/// Whether nothing but guest memory differs.
pub open spec fn same_but_memory<M>(a: Target<M>, b: Target<M>) -> bool {
    b == (Target { phys: b.phys, ..a })
}

} // verus!
