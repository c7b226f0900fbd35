//! Structures of the target's kernel, decoded.
use crate::types::{PageTableEntry, VirtAddr};
use vstd::prelude::*;

verus! {

/// An `_IO_STACK_LOCATION`.
#[derive(Debug)]
pub struct IoStackLocationInfo {
    pub address: VirtAddr,
    pub major_function: u8,
    pub minor_function: u8,
    pub device_object: VirtAddr,
    pub file_object: VirtAddr,
    pub completion_routine: VirtAddr,
    pub context: VirtAddr,
}

/// An `_IRP`.
#[derive(Debug)]
pub struct IrpInfo {
    pub address: VirtAddr,
    pub irp_type: u16,
    pub size: u16,
    pub stack_count: u8,
    pub current_location: u8,
    pub pending_returned: bool,
    pub requestor_mode: u8,
    pub io_status: Option<u32>,
    pub user_event: VirtAddr,
    pub user_buffer: VirtAddr,
    pub mdl_address: VirtAddr,
    pub thread: VirtAddr,
    /// Nothing where the stack slot is out of range or unreadable.
    pub current_stack: Option<IoStackLocationInfo>,
}

/// A device of a driver.
#[derive(Debug)]
pub struct DriverDevice {
    pub device: VirtAddr,
    pub device_type: u32,
    pub flags: u32,
    pub characteristics: u32,
    pub attached: VirtAddr,
    pub next: VirtAddr,
}

/// A `_DRIVER_OBJECT`.
#[derive(Debug)]
pub struct DriverObjectDetail {
    pub object: VirtAddr,
    pub via_pointer: bool,
    pub name: Option<String>,
    pub driver_start: VirtAddr,
    pub driver_size: u64,
    pub driver_section: VirtAddr,
    pub driver_unload: VirtAddr,
    pub device_chain: Vec<DriverDevice>,
    /// The routine of each major function, by its number.
    pub dispatch: Vec<VirtAddr>,
}

/// A device in an `AttachedDevice` stack.
#[derive(Debug)]
pub struct AttachedDevice {
    pub device: VirtAddr,
    pub driver_object: VirtAddr,
    pub device_type: u32,
    pub flags: u32,
}

/// A `_DEVICE_OBJECT`.
#[derive(Debug)]
pub struct DeviceObjectDetail {
    pub object: VirtAddr,
    pub via_pointer: bool,
    pub device_type: u32,
    pub flags: u32,
    pub characteristics: u32,
    pub driver_object: VirtAddr,
    pub attached_device: VirtAddr,
    pub next_device: VirtAddr,
    pub current_irp: VirtAddr,
    pub device_extension: VirtAddr,
    pub attached_stack: Vec<AttachedDevice>,
}

/// An executive `_OBJECT_HEADER` and the body it precedes.
#[derive(Debug)]
pub struct ObjectHeaderDetail {
    pub input: VirtAddr,
    /// How the input was taken.
    pub mode: &'static str,
    pub header: VirtAddr,
    pub body: VirtAddr,
    pub pointer_count: i64,
    pub handle_count: i64,
    pub type_index: Option<u64>,
    pub type_object: Option<VirtAddr>,
    pub kind_name: Option<String>,
    pub info_mask: Option<u8>,
    pub name_info: Option<VirtAddr>,
    pub name: Option<String>,
}

/// A registered notification callback.
#[derive(Debug)]
pub struct NotifyCallback {
    pub kind: &'static str,
    pub index: usize,
    pub function: VirtAddr,
    pub block: VirtAddr,
    pub raw: VirtAddr,
    pub context: VirtAddr,
}

/// An entry of a system-service table.
#[derive(Debug)]
pub struct SsdtEntry {
    pub index: usize,
    pub target: VirtAddr,
    pub symbol: Option<String>,
    pub module: Option<String>,
}

/// A system-service table.
#[derive(Debug)]
pub struct SsdtTable {
    pub label: String,
    pub base: VirtAddr,
    pub limit: u32,
    pub entries: Vec<SsdtEntry>,
}

/// A discovered in-flight IRP and the context it was found in.
#[derive(Debug)]
pub struct IrpHit {
    pub irp: VirtAddr,
    pub source: &'static str,
    pub stack_count: u8,
    pub current_location: u8,
    pub pid: Option<u64>,
    pub tid: Option<u64>,
    pub ethread: Option<VirtAddr>,
    pub state: Option<u8>,
    pub wait_reason: Option<u8>,
    pub driver: Option<String>,
    pub device: Option<VirtAddr>,
}

/// The module that an address lies in.
#[derive(Debug)]
pub struct AddressModule {
    pub name: String,
    pub base: VirtAddr,
    pub size: u32,
    pub offset: u64,
}

/// The region of a process that an address lies in.
#[derive(Debug)]
pub struct MemoryRegionInfo {
    pub start: VirtAddr,
    pub end: VirtAddr,
    pub protection: Option<u64>,
    pub vad_type: Option<u64>,
    pub private_memory: Option<bool>,
    pub commit_charge: Option<u64>,
    pub details: Option<String>,
}

/// What an address belongs to.
#[derive(Debug)]
pub struct AddressDescription {
    pub address: VirtAddr,
    pub dtb: u64,
    pub kind: &'static str,
    pub module: Option<AddressModule>,
    pub section: Option<String>,
    pub va_type: Option<String>,
    pub region: Option<MemoryRegionInfo>,
}

/// A hit of a memory search.
#[derive(Debug)]
pub struct MemorySearchMatch {
    pub address: VirtAddr,
    pub offset: u64,
    pub symbol: Option<String>,
    pub description: AddressDescription,
}

/// One level of a page-table walk.
#[derive(Debug)]
pub struct PteLevel {
    pub name: String,
    pub address: VirtAddr,
    pub value: PageTableEntry,
}

} // verus!
