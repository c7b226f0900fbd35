use ntoseye::error::Error;
use ntoseye::host::guest::{
    gpa_to_offset, primary_memory_region, probe_ptrace_access, ptrace_scope, LiveVmHandle,
    ReadFailure, FOUR_GIB,
};
use ntoseye::host::maps::{
    is_vmem_path, parse_maps, parse_proc_map_region, select_memory_region, MemoryRegion,
};
use ntoseye::host::process::{
    classify, discover_vm_processes, parse_pid, select_vm_process, Hypervisor, ProcEntry,
    VmProcess,
};

#[test]
fn discovery_skips_non_pid_entries_and_finds_each_hypervisor() {
    let entries = [
        ProcEntry {
            name: Some("fb".to_string()),
            is_dir: true,
            holds_kvm: false,
            comm: None,
        },
        ProcEntry {
            name: Some("99".to_string()),
            is_dir: true,
            holds_kvm: false,
            comm: Some("vmware-vmx\n".to_string()),
        },
        ProcEntry {
            name: Some("42".to_string()),
            is_dir: true,
            holds_kvm: true,
            comm: None,
        },
    ];

    assert_eq!(
        discover_vm_processes(&entries),
        vec![
            VmProcess {
                pid: 42,
                hypervisor: Hypervisor::Kvm,
            },
            VmProcess {
                pid: 99,
                hypervisor: Hypervisor::Vmware,
            },
        ]
    );
}

#[test]
fn process_selection_requires_exactly_one_live_vm() {
    assert!(matches!(
        select_vm_process(Vec::new()),
        Err(Error::VmNotFound)
    ));
    let process = VmProcess {
        pid: 42,
        hypervisor: Hypervisor::Kvm,
    };
    assert_eq!(select_vm_process(vec![process]).unwrap(), process);
    assert!(matches!(
        select_vm_process(vec![
            process,
            VmProcess {
                pid: 99,
                hypervisor: Hypervisor::Vmware,
            },
        ]),
        Err(Error::MultipleVmProcesses(_))
    ));
}

#[test]
fn vmware_region_is_a_unique_writable_vmem_mapping() {
    let maps = "\
10000000-12000000 rw-s 00000000 00:01 1 /tmp/Windows 11/Windows 11.vmem
20000000-40000000 rw-p 00000000 00:00 0
50000000-54000000 r--s 00000000 00:01 2 /tmp/read-only.vmem
";
    assert_eq!(
        select_memory_region(Hypervisor::Vmware, 99, maps).unwrap(),
        MemoryRegion {
            start: 0x1000_0000,
            end: 0x1200_0000,
        }
    );
}

#[test]
fn vmware_region_accepts_deleted_vmem_path() {
    let maps = "10000000-12000000 rw-s 00000000 00:01 1 /tmp/Windows.vmem (deleted)\n";
    assert!(select_memory_region(Hypervisor::Vmware, 99, maps).is_ok());
}

#[test]
fn vmware_region_rejects_missing_or_ambiguous_mappings() {
    let missing = "10000000-20000000 rw-p 00000000 00:00 0\n";
    assert!(matches!(
        select_memory_region(Hypervisor::Vmware, 99, missing),
        Err(Error::VmMemoryRegionNotFound {
            pid: 99,
            hypervisor: "VMware",
        })
    ));

    let ambiguous = "\
10000000-12000000 rw-s 00000000 00:01 1 /tmp/first.vmem
20000000-22000000 rw-s 00000000 00:01 2 /tmp/second.vmem
";
    assert!(matches!(
        select_memory_region(Hypervisor::Vmware, 99, ambiguous),
        Err(Error::MultipleVmMemoryRegions { pid: 99, count: 2 })
    ));
}

#[test]
fn kvm_region_is_the_largest_read_write_mapping() {
    let maps = "\
10000000-50000000 ---p 00000000 00:00 0
60000000-62000000 rw-p 00000000 00:00 0
70000000-74000000 rw-s 00000000 00:01 1 /memfd:pc.ram
";
    assert_eq!(
        select_memory_region(Hypervisor::Kvm, 42, maps).unwrap(),
        MemoryRegion {
            start: 0x7000_0000,
            end: 0x7400_0000,
        }
    );
}

#[test]
fn gpa_translation_rejects_mmio_holes_and_crossing_ranges() {
    for (hypervisor, low_memory_limit) in [
        (Hypervisor::Kvm, 0x8000_0000),
        (Hypervisor::Vmware, 0xC000_0000),
    ] {
        assert_eq!(
            gpa_to_offset(hypervisor, low_memory_limit - 1, 1).unwrap(),
            low_memory_limit - 1
        );
        assert!(matches!(
            gpa_to_offset(hypervisor, low_memory_limit - 1, 2),
            Err(Error::BadPhysicalAddress(address)) if address == low_memory_limit - 1
        ));
        assert!(matches!(
            gpa_to_offset(hypervisor, low_memory_limit, 1),
            Err(Error::BadPhysicalAddress(address)) if address == low_memory_limit
        ));
        assert!(matches!(
            gpa_to_offset(hypervisor, FOUR_GIB - 1, 1),
            Err(Error::BadPhysicalAddress(address)) if address == FOUR_GIB - 1
        ));
        assert_eq!(
            gpa_to_offset(hypervisor, FOUR_GIB, 1).unwrap(),
            low_memory_limit
        );
    }
    assert!(matches!(
        gpa_to_offset(Hypervisor::Vmware, u64::MAX, 2),
        Err(Error::BadPhysicalAddress(u64::MAX))
    ));
}

fn entry(name: &str, holds_kvm: bool, comm: Option<&str>) -> ProcEntry {
    ProcEntry {
        name: Some(name.to_string()),
        is_dir: true,
        holds_kvm,
        comm: comm.map(|c| c.to_string()),
    }
}

#[test]
fn process_ids_are_decimal() {
    assert_eq!(parse_pid("42"), Some(42));
    assert_eq!(parse_pid("+42"), Some(42));
    assert_eq!(parse_pid("-42"), Some(-42));
    assert_eq!(parse_pid("2147483647"), Some(i32::MAX));
    assert_eq!(parse_pid("2147483648"), None);
    assert_eq!(parse_pid("-2147483648"), Some(i32::MIN));
    for bad in ["", "-", "+", "-+4", "4x", "self", " 4"] {
        assert_eq!(parse_pid(bad), None, "{bad}");
    }
}

#[test]
fn only_directories_of_processes_count() {
    let mut vm = entry("7", true, None);
    assert_eq!(
        classify(&vm),
        Some(VmProcess { pid: 7, hypervisor: Hypervisor::Kvm })
    );
    vm.is_dir = false;
    assert_eq!(classify(&vm), None);
    vm.is_dir = true;
    vm.name = None;
    assert_eq!(classify(&vm), None);
    assert_eq!(classify(&entry("7", false, Some("vmware-vmx2\n"))), None);
    assert_eq!(classify(&entry("7", false, None)), None);
    assert_eq!(
        classify(&entry("7", false, Some(" vmware-vmx\n"))),
        Some(VmProcess { pid: 7, hypervisor: Hypervisor::Vmware })
    );
}

#[test]
fn ambiguous_machines_are_named() {
    let found = discover_vm_processes(&[
        entry("30", true, None),
        entry("self", true, None),
        entry("4", false, Some("vmware-vmx")),
    ]);
    match select_vm_process(found) {
        Err(Error::MultipleVmProcesses(choices)) => {
            assert_eq!(choices, "VMware PID 4, KVM/QEMU PID 30")
        }
        other => panic!("{other:?}"),
    }
}

#[test]
fn maps_lines_are_read_field_by_field() {
    let line: Vec<char> =
        "7f00-8000\trw-p  000010ff 00:1f 12   /a b/c d ".chars().collect();
    let region = parse_proc_map_region(&line).unwrap();
    assert_eq!(region.memory, MemoryRegion { start: 0x7f00, end: 0x8000 });
    assert_eq!(region.memory.len(), 0x100);
    assert_eq!(region.permissions, "rw-p");
    assert_eq!(region.offset, 0x10ff);
    assert_eq!(region.path.as_deref(), Some("/a b/c d "));
    for bad in [
        "",
        "7f00-8000 rw-p 0 00:1f",
        "7f00 rw-p 0 00:1f 12",
        "8000-7f00 rw-p 0 00:1f 12",
        "7f00-7f00 rw-p 0 00:1f 12",
        "7g00-8000 rw-p 0 00:1f 12",
        "7f00-8000 rw-p x 00:1f 12",
        "7f00-10000000000000000 rw-p 0 00:1f 12",
    ] {
        let line: Vec<char> = bad.chars().collect();
        assert!(parse_proc_map_region(&line).is_none(), "{bad}");
    }
}

#[test]
fn maps_files_may_have_odd_line_ends() {
    let regions = parse_maps("1-2 rw-p 0 0:0 0\r\n\nnonsense\n3-4 r--p 0 0:0 0");
    assert_eq!(regions.len(), 2);
    assert_eq!(regions[0].path, None);
    assert_eq!(regions[1].memory, MemoryRegion { start: 3, end: 4 });
    assert!(parse_maps("").is_empty());
}

#[test]
fn vmem_paths_may_be_deleted() {
    assert!(is_vmem_path("/a/b.vmem"));
    assert!(is_vmem_path("/a/b.vmem (deleted)"));
    assert!(!is_vmem_path("/a/b.vmem (deleted) (deleted)"));
    assert!(!is_vmem_path("/a/b.vmdk"));
    assert!(!is_vmem_path("vmem"));
}

#[test]
fn kvm_prefers_the_last_of_the_largest() {
    let maps = "\
1000-3000 rw-p 0 0:0 0
5000-7000 rw-p 0 0:0 0
8000-9000 rw-p 0 0:0 0
";
    assert_eq!(
        select_memory_region(Hypervisor::Kvm, 1, maps).unwrap(),
        MemoryRegion { start: 0x5000, end: 0x7000 }
    );
    assert!(matches!(
        select_memory_region(Hypervisor::Kvm, 1, "1-2 r--p 0 0:0 0"),
        Err(Error::VmMemoryRegionNotFound { pid: 1, hypervisor: "KVM/QEMU" })
    ));
}

#[test]
fn vmware_mappings_must_be_plausible() {
    for bad in [
        // Too small, too large, not at the start of the file.
        "10000000-10fff000 rw-s 00000000 00:01 1 /a.vmem",
        "10000000-20010001000 rw-s 00000000 00:01 1 /a.vmem",
        "10000000-12000000 rw-s 00001000 00:01 1 /a.vmem",
        "10000000-12000000 rw-s 00000000 00:01 1",
    ] {
        assert!(select_memory_region(Hypervisor::Vmware, 1, bad).is_err(), "{bad}");
    }
    let least = "10000000-11000000 rw-s 00000000 00:01 1 /a.vmem";
    assert!(select_memory_region(Hypervisor::Vmware, 1, least).is_ok());
}

#[test]
fn denied_access_names_the_ptrace_setting() {
    let process = VmProcess { pid: 9, hypervisor: Hypervisor::Kvm };
    let setting = || Some(" 1\n".to_string());
    match primary_memory_region(process, Err(ReadFailure::Denied), setting()) {
        Err(Error::PtraceDenied { pid: 9, scope }) => assert_eq!(scope, "1"),
        other => panic!("{other:?}"),
    }
    assert!(matches!(
        primary_memory_region(process, Err(ReadFailure::Other("gone".to_string())), None),
        Err(Error::Io(why)) if why == "gone"
    ));
    assert_eq!(ptrace_scope(None), "unknown");
    match probe_ptrace_access(9, Err(1), None) {
        Err(Error::PtraceDenied { pid: 9, scope }) => assert_eq!(scope, "unknown"),
        other => panic!("{other:?}"),
    }
    assert!(matches!(probe_ptrace_access(9, Err(3), None), Err(Error::Errno(3))));
    assert!(matches!(probe_ptrace_access(9, Ok(0), None), Err(Error::PartialRead(0))));
    assert!(probe_ptrace_access(9, Ok(1), None).is_ok());
}

#[test]
fn opening_finds_maps_and_probes() {
    let entries = [entry("42", true, None), entry("43", false, Some("bash"))];
    let maps = "10000000-20000000 rw-p 00000000 00:00 0\n";
    let handle = LiveVmHandle::new(
        &entries,
        |pid| {
            assert_eq!(pid, 42);
            Ok(maps.to_string())
        },
        |pid, address| {
            assert_eq!((pid, address), (42, 0x1000_0000));
            Ok(1)
        },
        None,
    )
    .unwrap();
    assert_eq!(
        handle,
        LiveVmHandle {
            memory: MemoryRegion { start: 0x1000_0000, end: 0x2000_0000 },
            pid: 42,
            hypervisor: Hypervisor::Kvm,
        }
    );
    assert!(matches!(
        LiveVmHandle::new(&[], |_| Ok(String::new()), |_, _| Ok(1), None),
        Err(Error::VmNotFound)
    ));
    assert!(matches!(
        LiveVmHandle::new(&entries, |_| Ok(String::new()), |_, _| Ok(1), None),
        Err(Error::VmMemoryRegionNotFound { pid: 42, .. })
    ));
    assert!(matches!(
        LiveVmHandle::new(&entries, |_| Ok(maps.to_string()), |_, _| Err(1), None),
        Err(Error::PtraceDenied { pid: 42, .. })
    ));
}

#[test]
fn guest_addresses_stay_inside_the_mapping() {
    let handle = LiveVmHandle {
        memory: MemoryRegion { start: 0x7000_0000_0000, end: 0x7000_C000_0000 },
        pid: 1,
        hypervisor: Hypervisor::Kvm,
    };
    assert_eq!(handle.host_address(0, 8).unwrap(), 0x7000_0000_0000);
    // Above the hole memory goes on where it ended below it.
    assert_eq!(handle.host_address(0x1_0000_0000, 8).unwrap(), 0x7000_8000_0000);
    assert_eq!(handle.host_address(0x1_3FFF_FFFF, 1).unwrap(), 0x7000_BFFF_FFFF);
    assert!(matches!(
        handle.host_address(0x1_3FFF_FFFF, 2),
        Err(Error::BadPhysicalAddress(0x1_3FFF_FFFF))
    ));
    assert!(matches!(
        handle.host_address(0x9000_0000, 1),
        Err(Error::BadPhysicalAddress(0x9000_0000))
    ));
    assert!(matches!(
        handle.host_address(u64::MAX, 2),
        Err(Error::BadPhysicalAddress(u64::MAX))
    ));
}

#[test]
fn short_transfers_are_errors() {
    assert!(LiveVmHandle::read_outcome(4, Ok(4)).is_ok());
    assert!(matches!(LiveVmHandle::read_outcome(4, Ok(3)), Err(Error::PartialRead(3))));
    assert!(matches!(LiveVmHandle::read_outcome(4, Err(14)), Err(Error::Errno(14))));
    assert!(LiveVmHandle::write_outcome(4, Ok(4)).is_ok());
    assert!(matches!(LiveVmHandle::write_outcome(4, Ok(3)), Err(Error::PartialWrite(3))));
    assert!(matches!(LiveVmHandle::write_outcome(4, Err(14)), Err(Error::Errno(14))));
}
