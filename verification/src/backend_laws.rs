//! What a debug register can watch, what a backend grants, and where modules lie.
use crate::backend::{
    capability_granted, validate_hw_breakpoint, CapabilityStatus, DebugCapability,
    HwBreakpointAccess,
};
use crate::error::Error;
use crate::target::ModuleInfo;
use crate::text::dec;
use crate::types::VirtAddr;
use vstd::prelude::*;
use vstd::string::*;

verus! {

/// A watch is refused if and only if it is not of one, two, four or eight bytes, lies on
/// no multiple of its width, or is one for execution of more than a byte.
pub proof fn law_watchable_widths(
    access: HwBreakpointAccess,
    len: u8,
    address: u64,
    r: Result<(), Error>,
)
    requires
        call_ensures(validate_hw_breakpoint, (access, len, address), r),
    ensures
        r is Ok <==> {
            ||| len == 1
            ||| len == 2 && !(access is Execute) && address as int % 2 == 0
            ||| len == 4 && !(access is Execute) && address as int % 4 == 0
            ||| len == 8 && !(access is Execute) && address as int % 8 == 0
        },
        r matches Err(e) ==> (e matches Error::Rsp(words) && words@
            == "a debug register cannot watch "@ + dec(len as nat) + " byte(s) at that address"@),
{
    assert(address as int % 1 == 0);
}

/// A facility is granted if and only if some entry of the report names it as supported.
pub proof fn law_granted_facilities(
    caps: &[CapabilityStatus],
    wanted: DebugCapability,
    r: bool,
)
    requires
        call_ensures(capability_granted, (caps, wanted), r),
    ensures
        r <==> caps@.contains(CapabilityStatus { capability: wanted, supported: true }),
{
    let entry = CapabilityStatus { capability: wanted, supported: true };
    if r {
        let i = choose|i: int|
            0 <= i < caps@.len() && (#[trigger] caps@[i]).capability == wanted
                && caps@[i].supported;
        assert(caps@[i] == entry);
    }
    if caps@.contains(entry) {
        let i = choose|i: int| 0 <= i < caps@.len() && caps@[i] == entry;
        assert(caps@[i].capability == wanted && caps@[i].supported);
    }
}

/// An address lies in a module if and only if it is none of the `size` bytes too far
/// behind its base, nor before it.
pub proof fn law_modules_have_their_size(module: ModuleInfo, address: VirtAddr, r: bool)
    requires
        call_ensures(ModuleInfo::contains_address, (&module, address), r),
    ensures
        r <==> 0 <= address.0 - module.base_address.0 < module.size,
{
}

} // verus!
