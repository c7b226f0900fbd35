use ntoseye::backend::{
    validate_hw_breakpoint, CapabilityStatus, DebugBackend, DebugCapability, HwBreakpointAccess,
    WatchpointAccess,
};
use ntoseye::error::Error;
use ntoseye::gdb::breakpoints::{
    Breakpoint, BreakpointBackend, BreakpointHitResult, BreakpointManager, BreakpointScope,
    HardwareBreakpoint,
};
use ntoseye::gdb::install::judge_sections;
use ntoseye::memory::{MemoryOps, DTB_IDENTITY};
use ntoseye::target::{ModuleInfo, ProcessInfo, Target};
use ntoseye::types::{PhysAddr, VirtAddr};
use std::cell::RefCell;
use std::sync::Arc;

/// A condition in the form that these tests compile it to.
#[derive(Debug)]
enum Cond {
    Word,
    Binary(Box<Cond>, &'static str, Box<Cond>),
}

/// Splits at the loosest operator that stands outside parentheses.
fn parse(source: &str) -> Result<Cond, Error> {
    let source = source.trim();
    for op in ["||", "&&", "==", "!=", "&"] {
        let mut depth = 0;
        for (at, c) in source.char_indices() {
            match c {
                '(' => depth += 1,
                ')' => depth -= 1,
                _ => {}
            }
            if depth == 0 && source[at..].starts_with(op) {
                let left = parse(&source[..at])?;
                let right = parse(&source[at + op.len()..])?;
                return Ok(Cond::Binary(Box::new(left), op, Box::new(right)));
            }
        }
    }
    if source.starts_with('(') && source.ends_with(')') {
        return parse(&source[1..source.len() - 1]);
    }
    if source.is_empty() {
        return Err(Error::Other("unexpected end of expression".to_string()));
    }
    Ok(Cond::Word)
}

fn manager() -> BreakpointManager<Cond> {
    BreakpointManager::new()
}

#[test]
fn failed_uninstall_keeps_breakpoint_managed_for_retry() {
    let mut manager = manager();
    manager.insert_for_test(
        7,
        VirtAddr(0x1000),
        true,
        Some(HardwareBreakpoint {
            access: HwBreakpointAccess::Execute,
            len: 1,
            slot: 0,
        }),
    );

    let result = manager.remove_if_uninstalled(7, |_| {
        Err(Error::Kd("injected hardware clear failure".into()))
    });
    assert!(result.is_err());
    assert_eq!(manager.list().len(), 1);
    assert_eq!(manager.list()[0].id, 7);
    assert!(manager.has_enabled_hardware_breakpoints());
}

#[test]
fn exposes_data_watches_without_transport_metadata() {
    let mut manager = manager();
    manager.insert_for_test(
        7,
        VirtAddr(0x2000),
        true,
        Some(HardwareBreakpoint {
            access: HwBreakpointAccess::ReadWrite,
            len: 8,
            slot: 2,
        }),
    );

    let breakpoint = manager.list().into_iter().find(|bp| bp.id == 7).unwrap();
    assert_eq!(
        breakpoint.watchpoint(),
        Some((WatchpointAccess::ReadWrite, 8))
    );
}

#[test]
fn detects_breakpoint_hit_at_exact_rip() {
    let mut manager = manager();
    manager.breakpoints.insert(
        0,
        Breakpoint {
            id: 0,
            address: VirtAddr(0x1000),
            enabled: true,
            symbol: None,
            scope: BreakpointScope::Kernel,
            condition: None,
            condition_expr: None,
            temporary: false,
            hardware: None,
            backend: BreakpointBackend::Kernel {
                original_byte: 0x90,
            },
        },
    );

    match manager.check_breakpoint_hit(0x1000, 0) {
        BreakpointHitResult::Hit(bp) => assert_eq!(bp.id, 0),
        other => panic!("unexpected result: {:?}", other),
    }
}

#[test]
fn process_breakpoint_hit_requires_matching_cr3() {
    let mut manager = manager();
    manager.breakpoints.insert(
        0,
        Breakpoint {
            id: 0,
            address: VirtAddr(0x7ff7_1234_1000),
            enabled: true,
            symbol: None,
            scope: BreakpointScope::Process {
                pid: 42,
                dtb: 0x1234_5000,
                name: "user.exe".to_string(),
            },
            condition: None,
            condition_expr: None,
            temporary: false,
            hardware: None,
            backend: BreakpointBackend::GuestMemoryPatch {
                original_byte: 0x90,
            },
        },
    );

    assert!(matches!(
        manager.check_breakpoint_hit(0x7ff7_1234_1000, 0x1234_5000),
        BreakpointHitResult::Hit(_)
    ));
    assert!(matches!(
        manager.check_breakpoint_hit(0x7ff7_1234_1000, 0x1234_5fff),
        BreakpointHitResult::Hit(_)
    ));
    assert!(matches!(
        manager.check_breakpoint_hit(0x7ff7_1234_1000, 0x9999_9000),
        BreakpointHitResult::NotBreakpoint
    ));
    assert!(matches!(
        manager.check_breakpoint_hit(0x7ff7_1234_1000, 0x1234_4000),
        BreakpointHitResult::NotBreakpoint
    ));
}

#[test]
fn hardware_breakpoint_is_ignored_by_int3_hit_predicates() {
    let mut manager = manager();
    manager.insert_for_test(
        0,
        VirtAddr(0x2000),
        true,
        Some(HardwareBreakpoint {
            access: HwBreakpointAccess::Write,
            len: 4,
            slot: 1,
        }),
    );

    // A DR watch traps via DR6, not RIP, so it must never register as an
    // int3 hit even when the faulting RIP equals its address.
    assert!(matches!(
        manager.check_breakpoint_hit(0x2000, 0),
        BreakpointHitResult::NotBreakpoint
    ));
    assert_eq!(manager.breakpoint_id_at_address(0x2000), None);
}

#[test]
fn has_enabled_hardware_breakpoints_tracks_enabled_hw_bps() {
    let mut manager = manager();

    // Software breakpoints never arm a debug register.
    manager.insert_for_test(0, VirtAddr(0x1000), true, None);
    assert!(!manager.has_enabled_hardware_breakpoints());

    // An enabled hardware breakpoint does.
    manager.insert_for_test(
        1,
        VirtAddr(0x2000),
        true,
        Some(HardwareBreakpoint {
            access: HwBreakpointAccess::Write,
            len: 4,
            slot: 1,
        }),
    );
    assert!(manager.has_enabled_hardware_breakpoints());

    // Disabling that same hardware breakpoint ends it again.
    manager.breakpoints.get_mut(&1).unwrap().enabled = false;
    assert!(!manager.has_enabled_hardware_breakpoints());
}

#[test]
fn hardware_breakpoint_for_slot_resolves_enabled_slot_only() {
    let mut manager = manager();
    manager.insert_for_test(
        7,
        VirtAddr(0x3000),
        true,
        Some(HardwareBreakpoint {
            access: HwBreakpointAccess::ReadWrite,
            len: 8,
            slot: 1,
        }),
    );

    let found = manager
        .hardware_breakpoint_for_slot(1)
        .expect("slot 1 hw bp");
    assert_eq!(found.id, 7);
    assert_eq!(found.hardware.expect("hw params").slot, 1);

    // Nothing occupies slot 0.
    assert!(manager.hardware_breakpoint_for_slot(0).is_none());

    // A disabled hw bp in slot 0 must not be resolved either.
    manager.insert_for_test(
        8,
        VirtAddr(0x4000),
        false,
        Some(HardwareBreakpoint {
            access: HwBreakpointAccess::Write,
            len: 2,
            slot: 0,
        }),
    );
    assert!(manager.hardware_breakpoint_for_slot(0).is_none());
}

#[test]
fn software_and_hardware_breakpoint_coexist_at_same_address() {
    let mut manager = manager();
    let addr = 0x5000;

    // Software int3 and a DR watch pinned to the same linear address.
    manager.insert_for_test(0, VirtAddr(addr), true, None);
    manager.insert_for_test(
        1,
        VirtAddr(addr),
        true,
        Some(HardwareBreakpoint {
            access: HwBreakpointAccess::Write,
            len: 4,
            slot: 1,
        }),
    );

    // The int3 predicate resolves the software bp; the DR watch is skipped
    // regardless of HashMap iteration order.
    match manager.check_breakpoint_hit(addr, 0) {
        BreakpointHitResult::Hit(bp) => {
            assert_eq!(bp.id, 0);
            assert!(bp.hardware.is_none());
        }
        other => panic!("expected software hit, got {:?}", other),
    }
    assert_eq!(manager.breakpoint_id_at_address(addr), Some(0));
    assert_eq!(
        manager.enabled_software_breakpoint_id(&BreakpointScope::Kernel, VirtAddr(addr)),
        Some(0)
    );

    // A data watch alone cannot satisfy run-to-address: it fires on a data
    // access, not when execution reaches the watched linear address.
    manager.breakpoints.remove(&0);
    assert_eq!(
        manager.enabled_software_breakpoint_id(&BreakpointScope::Kernel, VirtAddr(addr)),
        None
    );
}

#[test]
fn condition_compiler_accepts_the_full_expression_grammar() {
    let source = "$rax == 1 && ($rcx & 0xff) != 0";
    let compiled = BreakpointManager::compile_condition(Some(source), parse)
        .unwrap()
        .expect("compiled condition");
    assert!(matches!(compiled.as_ref(), Cond::Binary(_, "&&", _)));

    assert!(
        BreakpointManager::compile_condition(None, parse)
            .unwrap()
            .is_none()
    );
    assert!(BreakpointManager::compile_condition(Some("$rax == "), parse).is_err());
}

/// Backend stub that records which DR slots `clear_hardware_breakpoint`
/// releases; every other operation is out of scope for these tests.
struct SlotRecorder {
    cleared: Vec<u8>,
}

impl DebugBackend for SlotRecorder {
    fn capabilities(&self) -> Vec<CapabilityStatus> {
        Vec::new()
    }
    fn supports_watchpoints(&self) -> bool {
        false
    }
    fn set_breakpoint<M: MemoryOps<PhysAddr>>(
        &mut self,
        _memory: &mut M,
        _address: u64,
    ) -> Result<(), Error> {
        Err(Error::NotSupported)
    }
    fn remove_breakpoint<M: MemoryOps<PhysAddr>>(
        &mut self,
        _memory: &mut M,
        _address: u64,
    ) -> Result<(), Error> {
        Err(Error::NotSupported)
    }
    fn note_breakpoint_installed(&mut self, _address: u64) {}
    fn note_breakpoint_uninstalled(&mut self, _address: u64) {}
    fn set_hardware_breakpoint(
        &mut self,
        _slot: u8,
        _address: u64,
        _access: HwBreakpointAccess,
        _len: u8,
    ) -> Result<(), Error> {
        Err(Error::NotSupported)
    }
    fn continue_execution(&mut self) -> Result<(), Error> {
        Err(Error::NotSupported)
    }
    fn clear_hardware_breakpoint(&mut self, slot: u8) -> Result<(), Error> {
        self.cleared.push(slot);
        Ok(())
    }
}

#[test]
fn clear_hardware_slots_releases_every_hw_slot_and_skips_software() {
    let mut manager = manager();
    // Enabled DR watch occupying slot 2.
    manager.insert_for_test(
        0,
        VirtAddr(0x1000),
        true,
        Some(HardwareBreakpoint {
            access: HwBreakpointAccess::Write,
            len: 4,
            slot: 2,
        }),
    );
    // A disabled DR watch still reserves slot 0 and must be released too.
    manager.insert_for_test(
        1,
        VirtAddr(0x2000),
        false,
        Some(HardwareBreakpoint {
            access: HwBreakpointAccess::Execute,
            len: 1,
            slot: 0,
        }),
    );
    // Software int3: no DR slot, must never reach the backend.
    manager.insert_for_test(2, VirtAddr(0x3000), true, None);

    let mut backend = SlotRecorder { cleared: Vec::new() };
    manager.clear_hardware_slots(&mut backend);

    // Exactly the two hardware slots, nothing for the software bp.
    let mut cleared = backend.cleared.clone();
    cleared.sort_unstable();
    assert_eq!(cleared, vec![0, 2]);
}


/// Physical memory that starts at address zero.
struct Ram {
    bytes: RefCell<Vec<u8>>,
    read_only: bool,
}

impl Ram {
    fn new(len: usize) -> Self {
        Ram {
            bytes: RefCell::new((0..len).map(|i| (i % 251) as u8).collect()),
            read_only: false,
        }
    }

    fn at(&self, address: usize) -> u8 {
        self.bytes.borrow()[address]
    }

    fn put_u64(&self, address: usize, value: u64) {
        self.bytes.borrow_mut()[address..address + 8].copy_from_slice(&value.to_le_bytes());
    }
}

impl MemoryOps<PhysAddr> for Ram {
    fn read_bytes(&self, addr: PhysAddr, buf: &mut [u8]) -> Result<(), Error> {
        let bytes = self.bytes.borrow();
        let start = addr as usize;
        if start + buf.len() > bytes.len() {
            return Err(Error::BadPhysicalAddress(addr));
        }
        buf.copy_from_slice(&bytes[start..start + buf.len()]);
        Ok(())
    }

    fn write_bytes(&mut self, addr: PhysAddr, buf: &[u8]) -> Result<(), Error> {
        if self.read_only {
            return Err(Error::Errno(5));
        }
        let mut bytes = self.bytes.borrow_mut();
        let start = addr as usize;
        if start + buf.len() > bytes.len() {
            return Err(Error::BadPhysicalAddress(addr));
        }
        bytes[start..start + buf.len()].copy_from_slice(buf);
        Ok(())
    }
}

/// A transport that writes down what it is asked.
struct Recorder {
    log: Vec<String>,
    kernel: bool,
    user: bool,
    watches: bool,
    fail: Option<&'static str>,
    /// Whether it puts its int3s into guest memory itself.
    patches: bool,
}

impl Recorder {
    fn new() -> Self {
        Recorder {
            log: Vec::new(),
            kernel: true,
            user: true,
            watches: true,
            fail: None,
            patches: false,
        }
    }

    fn note(&mut self, what: String) -> Result<(), Error> {
        let failed = self.fail.is_some_and(|f| what.starts_with(f));
        self.log.push(what);
        if failed {
            Err(Error::Kd("refused".to_string()))
        } else {
            Ok(())
        }
    }
}

impl DebugBackend for Recorder {
    fn capabilities(&self) -> Vec<CapabilityStatus> {
        vec![
            CapabilityStatus {
                capability: DebugCapability::KernelBreakpoints,
                supported: self.kernel,
            },
            CapabilityStatus {
                capability: DebugCapability::UserModeBreakpoints,
                supported: self.user,
            },
        ]
    }
    fn supports_watchpoints(&self) -> bool {
        self.watches
    }
    fn set_breakpoint<M: MemoryOps<PhysAddr>>(
        &mut self,
        memory: &mut M,
        address: u64,
    ) -> Result<(), Error> {
        if self.patches {
            memory.write_bytes(address, &[0xCC])?;
        }
        self.note(format!("set {address:x}"))
    }
    fn remove_breakpoint<M: MemoryOps<PhysAddr>>(
        &mut self,
        memory: &mut M,
        address: u64,
    ) -> Result<(), Error> {
        if self.patches {
            memory.write_bytes(address, &[0x90])?;
        }
        self.note(format!("remove {address:x}"))
    }
    fn note_breakpoint_installed(&mut self, address: u64) {
        self.log.push(format!("installed {address:x}"));
    }
    fn note_breakpoint_uninstalled(&mut self, address: u64) {
        self.log.push(format!("uninstalled {address:x}"));
    }
    fn set_hardware_breakpoint(
        &mut self,
        slot: u8,
        address: u64,
        access: HwBreakpointAccess,
        len: u8,
    ) -> Result<(), Error> {
        self.note(format!("arm {slot} {address:x} {}{len}", access.letter()))
    }
    fn clear_hardware_breakpoint(&mut self, slot: u8) -> Result<(), Error> {
        self.note(format!("disarm {slot}"))
    }
    fn continue_execution(&mut self) -> Result<(), Error> {
        self.note("continue".to_string())
    }
}

fn kernel_target(phys: Ram) -> Target<Ram> {
    Target {
        phys,
        current_process_info: None,
        current_dtb: DTB_IDENTITY,
        kernel_modules: None,
    }
}

fn process_target(phys: Ram) -> Target<Ram> {
    Target {
        phys,
        current_process_info: Some(ProcessInfo {
            pid: 42,
            name: "user.exe".to_string(),
            dtb: DTB_IDENTITY,
        }),
        current_dtb: DTB_IDENTITY,
        kernel_modules: Some(Vec::new()),
    }
}

fn no_image(_base: VirtAddr) -> Result<Vec<u8>, Error> {
    Err(Error::NotSupported)
}

fn add(
    manager: &mut BreakpointManager<Cond>,
    client: &mut Recorder,
    target: &mut Target<Ram>,
    address: u64,
) -> Result<u32, Error> {
    manager.add(client, target, VirtAddr(address), None, None, parse, no_image)
}

fn watch(
    manager: &mut BreakpointManager<Cond>,
    client: &mut Recorder,
    address: u64,
) -> Result<u32, Error> {
    manager.add_hardware(
        client,
        VirtAddr(address),
        HwBreakpointAccess::Write,
        4,
        None,
        None,
        parse,
    )
}

#[test]
fn kernel_breakpoint_is_set_through_the_transport() {
    let mut target = kernel_target(Ram::new(0x2000));
    let mut client = Recorder::new();
    let mut manager = manager();
    let id = manager
        .add(
            &mut client,
            &mut target,
            VirtAddr(0x1003),
            Some("nt!Foo".to_string()),
            Some("$rax == 1".to_string()),
            parse,
            no_image,
        )
        .unwrap();
    assert_eq!(id, 0);
    assert_eq!(manager.next_id, 1);
    assert_eq!(client.log, vec!["set 1003"]);
    let bp = manager.list()[0];
    assert_eq!(bp.address, VirtAddr(0x1003));
    assert!(bp.enabled && !bp.temporary);
    assert_eq!(bp.symbol.as_deref(), Some("nt!Foo"));
    assert_eq!(bp.condition.as_deref(), Some("$rax == 1"));
    assert!(matches!(bp.condition_expr.as_deref(), Some(Cond::Binary(_, "==", _))));
    assert_eq!(bp.scope, BreakpointScope::Kernel);
    assert_eq!(
        bp.backend,
        BreakpointBackend::Kernel { original_byte: target.phys.at(0x1003) }
    );
    // The target's memory is the transport's business.
    assert_eq!(target.phys.at(0x1003), (0x1003 % 251) as u8);
}

#[test]
fn process_breakpoint_is_patched_and_restored() {
    let mut target = process_target(Ram::new(0x2000));
    let mut client = Recorder::new();
    let mut manager = manager();
    let before = target.phys.at(0x1010);
    assert_eq!(add(&mut manager, &mut client, &mut target, 0x1010).unwrap(), 0);
    assert_eq!(target.phys.at(0x1010), 0xCC);
    assert_eq!(
        manager.list()[0].backend,
        BreakpointBackend::GuestMemoryPatch { original_byte: before }
    );
    assert_eq!(manager.list()[0].scope.label(), "user.exe (42)");
    manager.remove(&mut client, &mut target, 0).unwrap();
    assert_eq!(target.phys.at(0x1010), before);
    assert_eq!(client.log, vec!["installed 1010", "uninstalled 1010"]);
    assert!(manager.list().is_empty());
}

#[test]
fn the_displaced_byte_is_read_before_the_int3_is_there() {
    let mut target = kernel_target(Ram::new(0x2000));
    let mut client = Recorder::new();
    client.patches = true;
    let mut manager = manager();
    let before = target.phys.at(0x1003);
    assert_eq!(add(&mut manager, &mut client, &mut target, 0x1003).unwrap(), 0);
    assert_eq!(target.phys.at(0x1003), 0xCC);
    assert_eq!(manager.list()[0].backend, BreakpointBackend::Kernel { original_byte: before });
    // What the transport wrote in its place is its own affair.
    manager.remove(&mut client, &mut target, 0).unwrap();
    assert_eq!(target.phys.at(0x1003), 0x90);
}

#[test]
fn a_process_patch_touches_no_other_byte() {
    let mut target = process_target(Ram::new(0x2000));
    let mut client = Recorder::new();
    let mut manager = manager();
    let before = target.phys.bytes.borrow().clone();
    add(&mut manager, &mut client, &mut target, 0x1010).unwrap();
    let patched = target.phys.bytes.borrow().clone();
    let changed: Vec<usize> = (0..before.len()).filter(|&i| before[i] != patched[i]).collect();
    assert_eq!(changed, vec![0x1010]);
    manager.remove(&mut client, &mut target, 0).unwrap();
    assert_eq!(*target.phys.bytes.borrow(), before);
}

#[test]
fn addresses_are_judged_by_the_section_table() {
    let module = ModuleInfo {
        base_address: VirtAddr(0x4000),
        size: 0x3000,
        short_name: "nt".to_string(),
    };
    let rows = || Ok(vec![(0x1000, 0x1000, 0x800, 0x2000_0000), (0x2000, 0x1000, 0x800, 0)]);
    assert!(judge_sections(VirtAddr(0x5000), &module, rows()).is_ok());
    match judge_sections(VirtAddr(0x6000), &module, rows()) {
        Err(Error::Rsp(why)) => assert_eq!(
            why,
            "refusing breakpoint at 0x6000: address falls in non-executable section of nt"
        ),
        other => panic!("{other:?}"),
    }
    match judge_sections(VirtAddr(0x5000), &module, Err("no table".to_string())) {
        Err(Error::Pe(why)) => assert_eq!(why, "no table"),
        other => panic!("{other:?}"),
    }
    // An address below the module counts as its start.
    assert!(judge_sections(VirtAddr(0), &module, rows()).is_err());
}

#[test]
fn ids_start_over_once_the_last_breakpoint_is_gone() {
    let mut target = kernel_target(Ram::new(0x2000));
    let mut client = Recorder::new();
    let mut manager = manager();
    assert_eq!(add(&mut manager, &mut client, &mut target, 0x100).unwrap(), 0);
    assert_eq!(add(&mut manager, &mut client, &mut target, 0x200).unwrap(), 1);
    manager.remove(&mut client, &mut target, 0).unwrap();
    assert_eq!(manager.next_id, 2);
    assert!(matches!(
        manager.remove(&mut client, &mut target, 0),
        Err(Error::BPNotFound(0))
    ));
    let gone = manager.discard(1).unwrap();
    assert_eq!(gone.address, VirtAddr(0x200));
    assert_eq!(manager.next_id, 0);
    assert!(matches!(manager.discard(1), Err(Error::BPNotFound(1))));
}

#[test]
fn unsupported_scopes_are_refused() {
    let mut client = Recorder::new();
    client.kernel = false;
    let mut manager = manager();
    assert!(matches!(
        add(&mut manager, &mut client, &mut kernel_target(Ram::new(0x1000)), 0x10),
        Err(Error::NotSupported)
    ));
    client.kernel = true;
    client.user = false;
    assert!(matches!(
        add(&mut manager, &mut client, &mut process_target(Ram::new(0x1000)), 0x10),
        Err(Error::NotSupported)
    ));
    assert!(manager.list().is_empty());
    assert!(client.log.is_empty());
}

#[test]
fn refused_breakpoints_leave_no_trace() {
    let mut client = Recorder::new();
    let mut manager = manager();
    let mut target = kernel_target(Ram::new(0x1000));
    // A condition that does not parse.
    assert!(matches!(
        manager.add(
            &mut client,
            &mut target,
            VirtAddr(0x10),
            None,
            Some("$rax ==".to_string()),
            parse,
            no_image,
        ),
        Err(Error::Other(_))
    ));
    // A byte that cannot be read.
    assert!(matches!(
        add(&mut manager, &mut client, &mut target, 0x5000),
        Err(Error::BadPhysicalAddress(0x5000))
    ));
    assert!(client.log.is_empty());
    // A transport that refuses.
    client.fail = Some("set");
    assert!(matches!(
        add(&mut manager, &mut client, &mut target, 0x10),
        Err(Error::Kd(_))
    ));
    // A process that cannot be patched.
    let mut sealed = process_target(Ram::new(0x1000));
    sealed.phys.read_only = true;
    assert!(matches!(
        add(&mut manager, &mut client, &mut sealed, 0x10),
        Err(Error::Errno(5))
    ));
    assert!(manager.list().is_empty());
    assert_eq!(manager.next_id, 0);
    assert_eq!(client.log, vec!["set 10"]);
}

/// Page tables at 0x1000, 0x2000, 0x3000 and 0x4000 that map the page of
/// `virt` to the frame at 0x5000.
fn mapped(virt: u64, flags: u64) -> Ram {
    let ram = Ram::new(0x6000);
    ram.bytes.borrow_mut()[0x1000..0x5000].fill(0);
    ram.put_u64(0x1000 + 8 * ((virt >> 39) & 0x1FF) as usize, 0x2000 | 3);
    ram.put_u64(0x2000 + 8 * ((virt >> 30) & 0x1FF) as usize, 0x3000 | 3);
    ram.put_u64(0x3000 + 8 * ((virt >> 21) & 0x1FF) as usize, 0x4000 | 3);
    ram.put_u64(0x4000 + 8 * ((virt >> 12) & 0x1FF) as usize, 0x5000 | flags);
    ram
}

const NX: u64 = 1 << 63;

#[test]
fn unmapped_and_non_executable_pages_are_refused() {
    let base = 0xFFFF_F800_0000_0000;
    let mut client = Recorder::new();
    let mut manager = manager();
    let mut target = kernel_target(mapped(base, 1 | NX));
    target.current_dtb = 0x1000;
    assert!(matches!(
        add(&mut manager, &mut client, &mut target, base + 0x10_0000),
        Err(Error::BadVirtualAddress(VirtAddr(a))) if a == base + 0x10_0000
    ));
    match add(&mut manager, &mut client, &mut target, base + 4) {
        Err(Error::Rsp(why)) => assert_eq!(
            why,
            "refusing breakpoint at 0xfffff80000000004: target page is non-executable (unknown)"
        ),
        other => panic!("{other:?}"),
    }
    target.kernel_modules = Some(vec![ModuleInfo {
        base_address: VirtAddr(base),
        size: 0x1000,
        short_name: "nt".to_string(),
    }]);
    match add(&mut manager, &mut client, &mut target, base + 4) {
        Err(Error::Rsp(why)) => assert_eq!(
            why,
            "refusing breakpoint at 0xfffff80000000004: target page is non-executable (nt)"
        ),
        other => panic!("{other:?}"),
    }
    assert!(client.log.is_empty());
}

/// A PE32+ image with an executable section at 0x1000 and a data section at
/// 0x2000.
fn image(optional_size: u16) -> Vec<u8> {
    let mut b = vec![0u8; 0x3000];
    b[0..2].copy_from_slice(&0x5A4Du16.to_le_bytes());
    b[0x3C..0x40].copy_from_slice(&0x80u32.to_le_bytes());
    b[0x80..0x84].copy_from_slice(&0x4550u32.to_le_bytes());
    b[0x86..0x88].copy_from_slice(&2u16.to_le_bytes());
    b[0x94..0x96].copy_from_slice(&optional_size.to_le_bytes());
    b[0x98..0x9A].copy_from_slice(&0x20Bu16.to_le_bytes());
    b[0x98 + 56..0x98 + 60].copy_from_slice(&0x3000u32.to_le_bytes());
    b[0x98 + 60..0x98 + 64].copy_from_slice(&0x400u32.to_le_bytes());
    b[0x98 + 108..0x98 + 112].copy_from_slice(&16u32.to_le_bytes());
    let table = 0x98 + optional_size as usize;
    for (i, (address, flags)) in [(0x1000u32, 0x2000_0000u32), (0x2000, 0)].iter().enumerate() {
        let row = table + 40 * i;
        b[row + 8..row + 12].copy_from_slice(&0x1000u32.to_le_bytes());
        b[row + 12..row + 16].copy_from_slice(&address.to_le_bytes());
        b[row + 16..row + 20].copy_from_slice(&0x800u32.to_le_bytes());
        b[row + 36..row + 40].copy_from_slice(&flags.to_le_bytes());
    }
    b
}

fn module_target() -> Target<Ram> {
    let mut target = kernel_target(Ram::new(0x9000));
    target.kernel_modules = Some(vec![
        ModuleInfo {
            base_address: VirtAddr(0x1000),
            size: 0x1000,
            short_name: "hal".to_string(),
        },
        ModuleInfo {
            base_address: VirtAddr(0x4000),
            size: 0x3000,
            short_name: "nt".to_string(),
        },
    ]);
    target
}

#[test]
fn breakpoints_in_modules_must_be_in_executable_sections() {
    let mut target = module_target();
    let mut client = Recorder::new();
    let mut manager = manager();
    let read = |base: VirtAddr| {
        assert_eq!(base, VirtAddr(0x4000));
        Ok(image(240))
    };
    // The first and the last byte of the executable section.
    for address in [0x5000, 0x5FFF] {
        manager
            .add(&mut client, &mut target, VirtAddr(address), None, None, parse, read)
            .unwrap();
    }
    match manager.add(&mut client, &mut target, VirtAddr(0x6000), None, None, parse, read) {
        Err(Error::Rsp(why)) => assert_eq!(
            why,
            "refusing breakpoint at 0x6000: address falls in non-executable section of nt"
        ),
        other => panic!("{other:?}"),
    }
    // Outside every module no image is asked for.
    manager
        .add(&mut client, &mut target, VirtAddr(0x8000), None, None, parse, |_| {
            panic!("no module is there")
        })
        .unwrap();
    assert_eq!(client.log, vec!["set 5000", "set 5fff", "set 8000"]);
}

#[test]
fn images_that_make_no_sense_are_refused() {
    let mut target = module_target();
    let mut client = Recorder::new();
    let mut manager = manager();
    assert!(matches!(
        manager.add(&mut client, &mut target, VirtAddr(0x5000), None, None, parse, no_image),
        Err(Error::NotSupported)
    ));
    assert!(matches!(
        manager.add(&mut client, &mut target, VirtAddr(0x5000), None, None, parse, |_| {
            Ok(vec![0; 0x200])
        }),
        Err(Error::Pe(_))
    ));
    let mut broken = image(240);
    broken[0x3C] = 0x82;
    match manager.add(&mut client, &mut target, VirtAddr(0x5000), None, None, parse, |_| {
        Ok(broken)
    }) {
        Err(Error::Pe(why)) => assert_eq!(why, "address misaligned"),
        other => panic!("{other:?}"),
    }
    assert!(client.log.is_empty());
    // Where in the image the section table lies does not matter.
    manager
        .add(&mut client, &mut target, VirtAddr(0x5000), None, None, parse, |_| Ok(image(242)))
        .unwrap();
    assert_eq!(client.log, vec!["set 5000"]);
}

#[test]
fn temporary_breakpoints_are_plain_code_breakpoints() {
    let mut target = kernel_target(Ram::new(0x1000));
    let mut client = Recorder::new();
    let mut manager = manager();
    let id = manager
        .add_temporary_code(&mut client, &mut target, VirtAddr(0x20), parse, no_image)
        .unwrap();
    let bp = manager.list()[0];
    assert_eq!(bp.id, id);
    assert!(bp.temporary && bp.condition.is_none() && bp.symbol.is_none());
    assert_eq!(
        manager.enabled_breakpoint_id_for_current_context(&target, VirtAddr(0x20)),
        Some(id)
    );
}

#[test]
fn watches_take_the_lowest_free_slot() {
    let mut client = Recorder::new();
    let mut manager = manager();
    let mut target = kernel_target(Ram::new(0x1000));
    for i in 0..4 {
        assert_eq!(watch(&mut manager, &mut client, 0x100 + 8 * i).unwrap(), i as u32);
    }
    match watch(&mut manager, &mut client, 0x200) {
        Err(Error::Rsp(why)) => assert_eq!(why, "all 4 hardware breakpoint slots are in use"),
        other => panic!("{other:?}"),
    }
    // A disabled watch keeps its slot.
    manager.disable(&mut client, &mut target, 1).unwrap();
    assert!(watch(&mut manager, &mut client, 0x200).is_err());
    // A removed one gives it back.
    manager.remove(&mut client, &mut target, 2).unwrap();
    assert_eq!(manager.free_hardware_slot().unwrap(), 2);
    assert_eq!(watch(&mut manager, &mut client, 0x200).unwrap(), 4);
    assert_eq!(
        client.log,
        vec![
            "arm 0 100 w4",
            "arm 1 108 w4",
            "arm 2 110 w4",
            "arm 3 118 w4",
            "disarm 1",
            "disarm 2",
            "arm 2 200 w4",
        ]
    );
    assert_eq!(manager.hardware_breakpoint_for_slot(2).unwrap().id, 4);
}

#[test]
fn watches_are_validated_before_the_transport_is_asked() {
    let mut client = Recorder::new();
    let mut manager = manager();
    match watch(&mut manager, &mut client, 0x102) {
        Err(Error::Rsp(why)) => assert_eq!(
            why,
            "a debug register cannot watch 4 byte(s) at that address"
        ),
        other => panic!("{other:?}"),
    }
    assert!(validate_hw_breakpoint(HwBreakpointAccess::Execute, 1, 0x103).is_ok());
    assert!(validate_hw_breakpoint(HwBreakpointAccess::Execute, 2, 0x104).is_err());
    assert!(validate_hw_breakpoint(HwBreakpointAccess::ReadWrite, 8, 0x108).is_ok());
    assert!(validate_hw_breakpoint(HwBreakpointAccess::Write, 3, 0x108).is_err());
    client.watches = false;
    assert!(matches!(
        watch(&mut manager, &mut client, 0x100),
        Err(Error::NotSupported)
    ));
    assert!(client.log.is_empty());
    client.watches = true;
    client.fail = Some("arm");
    assert!(matches!(watch(&mut manager, &mut client, 0x100), Err(Error::Kd(_))));
    assert!(manager.list().is_empty());
}

#[test]
fn enabling_undoes_disabling() {
    let mut target = process_target(Ram::new(0x1000));
    let mut client = Recorder::new();
    let mut manager = manager();
    let before = target.phys.at(0x30);
    let id = add(&mut manager, &mut client, &mut target, 0x30).unwrap();
    manager.enable(&mut client, &mut target, id).unwrap();
    assert_eq!(client.log.len(), 1);
    manager.disable(&mut client, &mut target, id).unwrap();
    assert_eq!(target.phys.at(0x30), before);
    assert!(!manager.list()[0].enabled && !manager.has_enabled_breakpoints());
    manager.disable(&mut client, &mut target, id).unwrap();
    assert_eq!(client.log.len(), 2);
    manager.enable(&mut client, &mut target, id).unwrap();
    assert_eq!(target.phys.at(0x30), 0xCC);
    assert!(manager.list()[0].enabled && manager.has_enabled_breakpoints());
    assert!(matches!(
        manager.enable(&mut client, &mut target, 9),
        Err(Error::BPNotFound(9))
    ));
    assert!(matches!(
        manager.disable(&mut client, &mut target, 9),
        Err(Error::BPNotFound(9))
    ));
}

#[test]
fn failed_removal_is_retried() {
    let mut target = kernel_target(Ram::new(0x1000));
    let mut client = Recorder::new();
    let mut manager = manager();
    let id = add(&mut manager, &mut client, &mut target, 0x40).unwrap();
    client.fail = Some("remove");
    assert!(manager.remove(&mut client, &mut target, id).is_err());
    assert!(manager.disable(&mut client, &mut target, id).is_err());
    assert!(manager.list()[0].enabled);
    client.fail = None;
    manager.remove(&mut client, &mut target, id).unwrap();
    assert!(manager.list().is_empty());
}

#[test]
fn patches_can_be_taken_out_through_another_page_table() {
    let mut target = process_target(Ram::new(0x1000));
    let mut client = Recorder::new();
    let mut manager = manager();
    let before = target.phys.at(0x50);
    let id = add(&mut manager, &mut client, &mut target, 0x50).unwrap();
    manager
        .disable_guest_memory_patch_in_address_space(&mut client, &mut target, id, DTB_IDENTITY)
        .unwrap();
    assert_eq!(target.phys.at(0x50), before);
    assert!(!manager.list()[0].enabled);
    manager.insert_for_test(7, VirtAddr(0x60), true, None);
    manager.insert_for_test(
        8,
        VirtAddr(0x60),
        true,
        Some(HardwareBreakpoint { access: HwBreakpointAccess::Write, len: 4, slot: 0 }),
    );
    for (id, words) in [
        (7, "cannot address-space-disable a kernel breakpoint"),
        (8, "cannot address-space-disable a hardware breakpoint"),
    ] {
        match manager.disable_guest_memory_patch_in_address_space(
            &mut client,
            &mut target,
            id,
            DTB_IDENTITY,
        ) {
            Err(Error::Rsp(why)) => assert_eq!(why, words),
            other => panic!("{other:?}"),
        }
    }
    assert!(matches!(
        manager.disable_guest_memory_patch_in_address_space(&mut client, &mut target, 9, 0),
        Err(Error::BPNotFound(9))
    ));
}

#[test]
fn mismatched_entries_are_refused() {
    let mut target = kernel_target(Ram::new(0x1000));
    let mut client = Recorder::new();
    let mut manager = manager();
    manager.insert_for_test(0, VirtAddr(0x10), false, None);
    manager.breakpoints.get_mut(&0).unwrap().backend = BreakpointBackend::Hardware;
    match manager.enable(&mut client, &mut target, 0) {
        Err(Error::Rsp(why)) => assert_eq!(why, "hardware breakpoint missing parameters"),
        other => panic!("{other:?}"),
    }
    manager.breakpoints.get_mut(&0).unwrap().backend =
        BreakpointBackend::GuestMemoryPatch { original_byte: 1 };
    match manager.enable(&mut client, &mut target, 0) {
        Err(Error::Rsp(why)) => assert_eq!(why, "breakpoint backend/scope mismatch"),
        other => panic!("{other:?}"),
    }
}

#[test]
fn refreshing_takes_software_breakpoints_by_id() {
    let mut target = kernel_target(Ram::new(0x1000));
    let mut client = Recorder::new();
    let mut manager = manager();
    for address in [0x30, 0x10, 0x20] {
        add(&mut manager, &mut client, &mut target, address).unwrap();
    }
    watch(&mut manager, &mut client, 0x40).unwrap();
    manager.disable(&mut client, &mut target, 1).unwrap();
    client.log.clear();
    // A breakpoint that is gone already is put back all the same.
    client.fail = Some("remove");
    manager.refresh_enabled(&mut client, &mut target).unwrap();
    assert_eq!(client.log, vec!["remove 30", "set 30", "remove 20", "set 20"]);
    client.log.clear();
    client.fail = Some("set");
    assert!(manager.refresh_enabled(&mut client, &mut target).is_err());
    assert_eq!(client.log, vec!["remove 30", "set 30"]);
}

#[test]
fn listings_ascend() {
    let mut manager = manager();
    for id in [5, 1, 9, 0, 3] {
        manager.insert_for_test(id, VirtAddr(0x100 * id as u64), id != 3, None);
    }
    let ids: Vec<u32> = manager.list().iter().map(|bp| bp.id).collect();
    assert_eq!(ids, vec![0, 1, 3, 5, 9]);
    assert_eq!(manager.breakpoint_id_at_address(0x900), Some(9));
    // A disabled one owns no int3.
    assert_eq!(manager.breakpoint_id_at_address(0x300), None);
    assert!(matches!(
        manager.check_breakpoint_hit(0x300, 0),
        BreakpointHitResult::NotBreakpoint
    ));
}

#[test]
fn masking_shows_what_the_int3s_displaced() {
    let mut manager = manager();
    manager.insert_for_test(0, VirtAddr(0x1002), true, None);
    manager.insert_for_test(1, VirtAddr(0x1004), false, None);
    manager.insert_for_test(
        2,
        VirtAddr(0x1005),
        true,
        Some(HardwareBreakpoint { access: HwBreakpointAccess::Write, len: 1, slot: 0 }),
    );
    manager.insert_for_test(3, VirtAddr(0x1006), true, None);
    manager.breakpoints.get_mut(&3).unwrap().scope = BreakpointScope::Process {
        pid: 1,
        dtb: 0x5000,
        name: "a".to_string(),
    };
    let mut buf = [0xCCu8; 8];
    manager.mask_breakpoint_bytes(VirtAddr(0x1000), &mut buf, 0x6000);
    assert_eq!(buf, [0xCC, 0xCC, 0x90, 0xCC, 0xCC, 0xCC, 0xCC, 0xCC]);
    manager.mask_breakpoint_bytes(VirtAddr(0x1000), &mut buf, 0x5ABC);
    assert_eq!(buf, [0xCC, 0xCC, 0x90, 0xCC, 0xCC, 0xCC, 0x90, 0xCC]);
}

#[test]
fn masking_reaches_the_end_of_the_address_space() {
    let mut manager = manager();
    manager.insert_for_test(0, VirtAddr(u64::MAX), true, None);
    let mut buf = [0xCCu8; 2];
    manager.mask_breakpoint_bytes(VirtAddr(u64::MAX - 1), &mut buf, 0);
    assert_eq!(buf, [0xCC, 0x90]);
    let mut empty: [u8; 0] = [];
    manager.mask_breakpoint_bytes(VirtAddr(u64::MAX), &mut empty, 0);
}

#[test]
fn conditions_hold_unless_they_are_zero() {
    let mut target = kernel_target(Ram::new(0x1000));
    let mut client = Recorder::new();
    let mut manager = manager();
    manager
        .add(
            &mut client,
            &mut target,
            VirtAddr(0x10),
            None,
            Some("$rax".to_string()),
            parse,
            no_image,
        )
        .unwrap();
    let bp = manager.list()[0];
    assert!(bp.evaluate_condition(|_| Ok(7)).unwrap());
    assert!(!bp.evaluate_condition(|_| Ok(0)).unwrap());
    assert!(matches!(
        bp.evaluate_condition(|_| Err(Error::NotSupported)),
        Err(Error::NotSupported)
    ));
    let compiled = Arc::clone(bp.condition_expr.as_ref().unwrap());
    match manager.check_breakpoint_hit(0x10, 0) {
        // A copy of the breakpoint shares the compiled condition.
        BreakpointHitResult::Hit(hit) => {
            assert!(Arc::ptr_eq(hit.condition_expr.as_ref().unwrap(), &compiled));
        }
        other => panic!("{other:?}"),
    }
    manager.insert_for_test(4, VirtAddr(0x20), true, None);
    assert!(manager.list()[1].evaluate_condition(|_| Ok(0)).unwrap());
}

#[test]
fn execute_watches_are_code_breakpoints() {
    let mut manager = manager();
    manager.insert_for_test(
        0,
        VirtAddr(0x10),
        true,
        Some(HardwareBreakpoint { access: HwBreakpointAccess::Execute, len: 1, slot: 0 }),
    );
    manager.insert_for_test(
        1,
        VirtAddr(0x10),
        true,
        Some(HardwareBreakpoint { access: HwBreakpointAccess::Write, len: 2, slot: 1 }),
    );
    manager.insert_for_test(2, VirtAddr(0x10), true, None);
    let list = manager.list();
    assert_eq!(list[0].watchpoint(), None);
    assert_eq!(list[0].watch_access_name(), None);
    assert_eq!(list[0].watch_length(), None);
    assert_eq!(list[1].watch_access_name(), Some("write"));
    assert_eq!(list[1].watch_length(), Some(2));
    assert_eq!(list[2].watchpoint(), None);
    assert_eq!(list[0].backend.original_byte(), 0);
    assert_eq!(list[2].backend.original_byte(), 0x90);
}

#[test]
fn scopes_go_by_the_frame_of_the_page_directory() {
    let scope = BreakpointScope::Process {
        pid: 7,
        dtb: 0x8000_0000_1234_5001,
        name: "a.exe".to_string(),
    };
    assert!(scope.matches_cr3(0x1234_5FFF));
    assert!(!scope.matches_cr3(0x1234_6000));
    assert!(BreakpointScope::Kernel.matches_cr3(0xDEAD_B000));
    assert_eq!(BreakpointScope::Kernel.label(), "global");
    assert_eq!(scope.label(), "a.exe (7)");
    let manager: BreakpointManager<Cond> = BreakpointManager::default();
    assert!(manager.list().is_empty());
}
