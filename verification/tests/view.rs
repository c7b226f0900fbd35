use ntoseye::backend::HwBreakpointAccess;
use ntoseye::bugchecks::{BugcheckAnalysis, BugcheckArg, BugcheckFault, BugcheckTrapFrame};
use ntoseye::gdb::breakpoints::{BreakpointManager, HardwareBreakpoint};
use ntoseye::inspect::{
    AddressDescription, AddressModule, AttachedDevice, DeviceObjectDetail, DriverDevice,
    DriverObjectDetail, IoStackLocationInfo, IrpHit, IrpInfo, MemoryRegionInfo, MemorySearchMatch,
    NotifyCallback, ObjectHeaderDetail, PteLevel, SsdtEntry, SsdtTable,
};
use ntoseye::trapframe::KtrapFrame;
use ntoseye::types::{PageTableEntry, VirtAddr};
use ntoseye::view::builders::{
    address_description, breakpoint, bugcheck, bugcheck_trap_frame, device_object, driver_object,
    irp, irp_hit, memory_search_match, notify_callback, object_header, pte_level, ssdt_table,
    trap_frame,
};
use ntoseye::view::json::to_json;
use ntoseye::view::plain::{to_plain, Plain};
use ntoseye::view::View;

#[test]
fn bugcheck_trap_frame_exposes_decode_failure() {
    let view = bugcheck_trap_frame(&BugcheckTrapFrame {
        address: 0xffff_8000_1234_5000,
        frame: None,
        rip_symbol: None,
        error: Some("type `_KTRAP_FRAME` not found".to_string()),
    });
    let json = to_json(&view);
    assert!(json["frame"].is_null());
    assert_eq!(json["error"], "type `_KTRAP_FRAME` not found");
}

#[test]
fn standalone_trap_frame_has_shared_structured_shape() {
    let frame = KtrapFrame {
        address: 0xffff_f800_1234_5000,
        rax: 1,
        rbx: 2,
        rcx: 3,
        rdx: 4,
        rsi: 5,
        rdi: 6,
        rbp: 7,
        rsp: 8,
        r8: 9,
        r9: 10,
        r10: 11,
        r11: 12,
        rip: 0xffff_f800_4321_1000,
        cs: 0x10,
        ss: 0x18,
        eflags: 0x202,
        error_code: 0,
        previous_mode: 0,
        previous_irql: 2,
    };
    let json = to_json(&trap_frame(&frame, Some("nt!KiDispatchException".into())));
    assert_eq!(json["address"], "0xfffff80012345000");
    assert_eq!(json["rip_symbol"], "nt!KiDispatchException");
    assert_eq!(json["frame"]["rip"], "0xfffff80043211000");
    assert_eq!(json["frame"]["previous_irql"], 2);
}

fn every_kind() -> View {
    View::Object(vec![
        ("hex", View::Hex(0xff)),
        ("some_hex", View::OptHex(Some(0))),
        ("no_hex", View::OptHex(None)),
        ("num", View::Num(u64::MAX)),
        ("some_num", View::OptNum(Some(7))),
        ("no_num", View::OptNum(None)),
        ("int", View::Int(-1)),
        ("bool", View::Bool(true)),
        ("some_bool", View::OptBool(Some(false))),
        ("no_bool", View::OptBool(None)),
        ("str", View::Str("a\"b".to_string())),
        ("some_str", View::OptStr(Some(String::new()))),
        ("no_str", View::OptStr(None)),
        ("null", View::Null),
        ("list", View::List(vec![View::Num(1), View::List(Vec::new())])),
        ("object", View::Object(Vec::new())),
    ])
}

#[test]
fn every_kind_of_node_has_its_json() {
    assert_eq!(
        to_json(&every_kind()).to_string(),
        concat_lines(&[
            r#"{"hex":"0xff","some_hex":"0x0","no_hex":null,"#,
            r#""num":18446744073709551615,"some_num":7,"no_num":null,"int":-1,"#,
            r#""bool":true,"some_bool":false,"no_bool":null,"#,
            r#""str":"a\"b","some_str":"","no_str":null,"null":null,"#,
            r#""list":[1,[]],"object":{}}"#,
        ])
    );
}

fn concat_lines(lines: &[&str]) -> String {
    lines.join("")
}

#[test]
fn json_members_keep_the_order_of_the_fields() {
    let view = View::Object(vec![("z", View::Num(1)), ("a", View::Num(2)), ("m", View::Num(3))]);
    assert_eq!(to_json(&view).to_string(), r#"{"z":1,"a":2,"m":3}"#);
    // A name that comes again keeps its place and takes the later value.
    let view = View::Object(vec![("z", View::Num(1)), ("a", View::Num(2)), ("z", View::Num(3))]);
    assert_eq!(to_json(&view).to_string(), r#"{"z":3,"a":2}"#);
}

#[test]
fn plain_values_have_integers_for_addresses() {
    assert!(matches!(to_plain(&View::Hex(0xff)), Plain::Unsigned(0xff)));
    assert!(matches!(to_plain(&View::OptHex(Some(1))), Plain::Unsigned(1)));
    assert!(matches!(to_plain(&View::OptHex(None)), Plain::Nothing));
    assert!(matches!(to_plain(&View::Num(2)), Plain::Unsigned(2)));
    assert!(matches!(to_plain(&View::OptNum(Some(3))), Plain::Unsigned(3)));
    assert!(matches!(to_plain(&View::OptNum(None)), Plain::Nothing));
    assert!(matches!(to_plain(&View::Int(-4)), Plain::Signed(-4)));
    assert!(matches!(to_plain(&View::Bool(true)), Plain::Bool(true)));
    assert!(matches!(to_plain(&View::OptBool(Some(false))), Plain::Bool(false)));
    assert!(matches!(to_plain(&View::OptBool(None)), Plain::Nothing));
    assert!(matches!(to_plain(&View::Str("s".to_string())), Plain::Text(s) if s == "s"));
    assert!(matches!(to_plain(&View::OptStr(Some("t".to_string()))), Plain::Text(s) if s == "t"));
    assert!(matches!(to_plain(&View::OptStr(None)), Plain::Nothing));
    assert!(matches!(to_plain(&View::Null), Plain::Nothing));
    match to_plain(&View::List(vec![View::Null, View::Num(1)])) {
        Plain::List(items) => {
            assert_eq!(items.len(), 2);
            assert!(matches!(items[1], Plain::Unsigned(1)));
        }
        other => panic!("{other:?}"),
    }
    match to_plain(&every_kind()) {
        Plain::Dict(fields) => {
            let names: Vec<&str> = fields.iter().map(|f| f.0).collect();
            assert_eq!(names.len(), 16);
            assert_eq!((names[0], names[15]), ("hex", "object"));
        }
        other => panic!("{other:?}"),
    }
}

fn shown(view: &View) -> String {
    to_json(view).to_string()
}

#[test]
fn irps_show_their_stack_slot() {
    let mut info = IrpInfo {
        address: VirtAddr(0x10),
        irp_type: 6,
        size: 0x40,
        stack_count: 2,
        current_location: 1,
        pending_returned: true,
        requestor_mode: 1,
        io_status: Some(0xC000_0005),
        user_event: VirtAddr(1),
        user_buffer: VirtAddr(2),
        mdl_address: VirtAddr(3),
        thread: VirtAddr(4),
        current_stack: Some(IoStackLocationInfo {
            address: VirtAddr(0x20),
            major_function: 3,
            minor_function: 9,
            device_object: VirtAddr(5),
            file_object: VirtAddr(6),
            completion_routine: VirtAddr(7),
            context: VirtAddr(8),
        }),
    };
    assert_eq!(
        shown(&irp(&info, |major| format!("M{major}"))),
        concat_lines(&[
            r#"{"address":"0x10","type":6,"size":64,"stack_count":2,"current_location":1,"#,
            r#""pending_returned":true,"requestor_mode":1,"io_status":"0xc0000005","#,
            r#""user_event":"0x1","user_buffer":"0x2","mdl_address":"0x3","thread":"0x4","#,
            r#""current_stack":{"address":"0x20","major_function":3,"#,
            r#""major_function_name":"IRP_MJ_M3","minor_function":9,"device_object":"0x5","#,
            r#""file_object":"0x6","completion_routine":"0x7","context":"0x8"}}"#,
        ])
    );
    info.current_stack = None;
    info.io_status = None;
    let json = to_json(&irp(&info, |_| panic!("no stack slot")));
    assert!(json["current_stack"].is_null());
    assert!(json["io_status"].is_null());
}

#[test]
fn driver_objects_show_their_devices_and_dispatch() {
    let detail = DriverObjectDetail {
        object: VirtAddr(1),
        via_pointer: false,
        name: Some("\\Driver\\x".to_string()),
        driver_start: VirtAddr(2),
        driver_size: 0x1000,
        driver_section: VirtAddr(3),
        driver_unload: VirtAddr(0),
        device_chain: vec![DriverDevice {
            device: VirtAddr(4),
            device_type: 5,
            flags: 6,
            characteristics: 7,
            attached: VirtAddr(8),
            next: VirtAddr(9),
        }],
        dispatch: vec![VirtAddr(0x100), VirtAddr(0x200)],
    };
    let view = driver_object(
        &detail,
        |major| format!("M{major}"),
        |at| if at.0 == 0x100 { Some("x!Create".to_string()) } else { None },
    );
    assert_eq!(
        shown(&view),
        concat_lines(&[
            r#"{"object":"0x1","via_pointer":false,"name":"\\Driver\\x","driver_start":"0x2","#,
            r#""driver_size":4096,"driver_section":"0x3","driver_unload":"0x0","#,
            r#""devices":[{"device":"0x4","device_type":5,"flags":6,"characteristics":7,"#,
            r#""attached":"0x8","next":"0x9"}],"#,
            r#""dispatch":[{"index":0,"name":"IRP_MJ_M0","routine":"0x100","symbol":"x!Create"},"#,
            r#"{"index":1,"name":"IRP_MJ_M1","routine":"0x200","symbol":null}]}"#,
        ])
    );
}

#[test]
fn device_objects_show_what_is_attached() {
    let detail = DeviceObjectDetail {
        object: VirtAddr(1),
        via_pointer: true,
        device_type: 2,
        flags: 3,
        characteristics: 4,
        driver_object: VirtAddr(5),
        attached_device: VirtAddr(6),
        next_device: VirtAddr(7),
        current_irp: VirtAddr(8),
        device_extension: VirtAddr(9),
        attached_stack: vec![AttachedDevice {
            device: VirtAddr(10),
            driver_object: VirtAddr(11),
            device_type: 12,
            flags: 13,
        }],
    };
    assert_eq!(
        shown(&device_object(&detail)),
        concat_lines(&[
            r#"{"object":"0x1","via_pointer":true,"device_type":2,"flags":3,"characteristics":4,"#,
            r#""driver_object":"0x5","attached_device":"0x6","next_device":"0x7","#,
            r#""current_irp":"0x8","device_extension":"0x9","attached_stack":[{"device":"0xa","#,
            r#""driver_object":"0xb","device_type":12,"flags":13}]}"#,
        ])
    );
}

#[test]
fn object_headers_show_signed_counts() {
    let header = ObjectHeaderDetail {
        input: VirtAddr(1),
        mode: "body",
        header: VirtAddr(2),
        body: VirtAddr(3),
        pointer_count: -4,
        handle_count: 5,
        type_index: Some(6),
        type_object: Some(VirtAddr(7)),
        kind_name: Some("Event".to_string()),
        info_mask: Some(8),
        name_info: None,
        name: None,
    };
    assert_eq!(
        shown(&object_header(&header)),
        concat_lines(&[
            r#"{"input":"0x1","mode":"body","header":"0x2","body":"0x3","pointer_count":-4,"#,
            r#""handle_count":5,"type_index":6,"type_object":"0x7","type_name":"Event","#,
            r#""info_mask":8,"name_info":null,"name":null}"#,
        ])
    );
}

#[test]
fn callbacks_and_system_tables_are_rows() {
    let callback = NotifyCallback {
        kind: "process",
        index: 1,
        function: VirtAddr(2),
        block: VirtAddr(3),
        raw: VirtAddr(4),
        context: VirtAddr(5),
    };
    assert_eq!(
        shown(&notify_callback(&callback, Some("x!Notify".to_string()))),
        concat_lines(&[
            r#"{"kind":"process","index":1,"function":"0x2","symbol":"x!Notify","block":"0x3","#,
            r#""raw":"0x4","context":"0x5"}"#,
        ])
    );
    let table = SsdtTable {
        label: "nt".to_string(),
        base: VirtAddr(0x10),
        limit: 1,
        entries: vec![SsdtEntry {
            index: 0,
            target: VirtAddr(0x20),
            symbol: None,
            module: Some("nt".to_string()),
        }],
    };
    assert_eq!(
        shown(&ssdt_table(&table)),
        concat_lines(&[
            r#"{"label":"nt","base":"0x10","limit":1,"#,
            r#""entries":[{"index":0,"target":"0x20","symbol":null,"module":"nt"}]}"#,
        ])
    );
}

#[test]
fn irp_hits_name_the_state_of_their_thread() {
    let mut hit = IrpHit {
        irp: VirtAddr(1),
        source: "thread",
        stack_count: 2,
        current_location: 3,
        pid: Some(4),
        tid: None,
        ethread: Some(VirtAddr(5)),
        state: Some(6),
        wait_reason: Some(7),
        driver: None,
        device: Some(VirtAddr(8)),
    };
    assert_eq!(
        shown(&irp_hit(&hit, |n| format!("S{n}"), |n| format!("R{n}"))),
        concat_lines(&[
            r#"{"irp":"0x1","source":"thread","stack_count":2,"current_location":3,"pid":4,"#,
            r#""tid":null,"ethread":"0x5","state":"S6","wait_reason":"R7","driver":null,"#,
            r#""device":"0x8"}"#,
        ])
    );
    hit.state = None;
    hit.wait_reason = None;
    let json = to_json(&irp_hit(&hit, |_| panic!("no state"), |_| panic!("no reason")));
    assert!(json["state"].is_null() && json["wait_reason"].is_null());
}

fn description() -> AddressDescription {
    AddressDescription {
        address: VirtAddr(0x1234),
        dtb: 0x5000,
        kind: "image",
        module: Some(AddressModule {
            name: "nt".to_string(),
            base: VirtAddr(0x1000),
            size: 0x2000,
            offset: 0x234,
        }),
        section: Some(".text".to_string()),
        va_type: None,
        region: Some(MemoryRegionInfo {
            start: VirtAddr(0x1000),
            end: VirtAddr(0x2000),
            protection: Some(1),
            vad_type: None,
            private_memory: Some(true),
            commit_charge: None,
            details: Some("d".to_string()),
        }),
    }
}

#[test]
fn addresses_are_described() {
    let module = r#""module":{"name":"nt","base":"0x1000","size":8192,"offset":"0x234"},"#;
    let rest = concat_lines(&[
        r#""section":".text","va_type":null,"region":{"start":"0x1000","end":"0x2000","#,
        r#""protection":1,"vad_type":null,"private_memory":true,"commit_charge":null,"#,
        r#""details":"d"}}"#,
    ]);
    assert_eq!(
        shown(&address_description(&description())),
        concat_lines(&[r#"{"address":"0x1234","dtb":"0x5000","kind":"image","#, module, &rest])
    );
    let found = MemorySearchMatch {
        address: VirtAddr(0x1240),
        offset: 0xc,
        symbol: Some("nt!a".to_string()),
        description: description(),
    };
    assert_eq!(
        shown(&memory_search_match(&found)),
        concat_lines(&[
            r#"{"address":"0x1240","offset":"0xc","symbol":"nt!a","kind":"image","#,
            module,
            &rest,
        ])
    );
    let bare = AddressDescription { module: None, region: None, section: None, ..description() };
    let json = to_json(&address_description(&bare));
    assert!(json["module"].is_null() && json["region"].is_null() && json["section"].is_null());
}

#[test]
fn page_table_levels_show_their_bits() {
    let level = PteLevel {
        name: "PTE".to_string(),
        address: VirtAddr(0x10),
        value: PageTableEntry(0x8000_0000_0000_5003),
    };
    assert_eq!(
        shown(&pte_level(&level, |entry| format!("{:x}", entry.0 & 0xf))),
        concat_lines(&[
            r#"{"level":"PTE","address":"0x10","value":"0x8000000000005003","pfn":"0x5","#,
            r#""present":true,"large_page":false,"writable":true,"user":false,"nx":true,"#,
            r#""flags":"3"}"#,
        ])
    );
}

#[test]
fn bugchecks_number_their_parameters_from_one() {
    let analysis = BugcheckAnalysis {
        code: 0xD1,
        name: "DRIVER_IRQL".to_string(),
        description: None,
        driver: Some("x.sys".to_string()),
        source: None,
        args: vec![
            BugcheckArg { value: 0x10, description: "address".to_string() },
            BugcheckArg { value: 2, description: String::new() },
        ],
        fault: Some(BugcheckFault { ip: 0x30, symbol: "x!f".to_string(), driver: None }),
        trap_frames: vec![BugcheckTrapFrame {
            address: 0x40,
            frame: None,
            rip_symbol: None,
            error: Some("gone".to_string()),
        }],
    };
    assert_eq!(
        shown(&bugcheck(&analysis)),
        concat_lines(&[
            r#"{"code":209,"code_hex":"0x000000d1","name":"DRIVER_IRQL","description":null,"#,
            r#""driver":"x.sys","source":null,"#,
            r#""args":[{"index":1,"value":"0x10","description":"address"},"#,
            r#"{"index":2,"value":"0x2","description":""}],"#,
            r#""fault":{"ip":"0x30","symbol":"x!f","driver":null},"#,
            r#""trap_frames":[{"address":"0x40","rip_symbol":null,"frame":null,"error":"gone"}]}"#,
        ])
    );
}

#[test]
fn breakpoints_show_what_they_watch() {
    let mut manager: BreakpointManager<()> = BreakpointManager::new();
    manager.insert_for_test(0, VirtAddr(0x100), true, None);
    manager.insert_for_test(
        1,
        VirtAddr(0x200),
        false,
        Some(HardwareBreakpoint { access: HwBreakpointAccess::Write, len: 4, slot: 2 }),
    );
    assert_eq!(
        shown(&breakpoint(manager.list()[0])),
        concat_lines(&[
            r#"{"id":0,"address":"0x100","enabled":true,"symbol":null,"scope":"global","#,
            r#""condition":null,"temporary":false,"watch_access":null,"watch_length":null}"#,
        ])
    );
    let json = to_json(&breakpoint(manager.list()[1]));
    assert_eq!(json["enabled"], false);
    assert_eq!(json["watch_access"], "write");
    assert_eq!(json["watch_length"], 4);
}

#[test]
fn renderings_differ_on_addresses_only() {
    let view = View::List(vec![
        View::Hex(0x10),
        View::Num(0x10),
        View::Object(vec![("a", View::OptHex(Some(1))), ("n", View::Int(-1))]),
    ]);
    assert_eq!(shown(&view), r#"["0x10",16,{"a":"0x1","n":-1}]"#);
    match to_plain(&view) {
        Plain::List(items) => {
            assert!(matches!(items[0], Plain::Unsigned(0x10)));
            assert!(matches!(items[1], Plain::Unsigned(0x10)));
            match &items[2] {
                Plain::Dict(fields) => {
                    assert!(matches!(fields[0], ("a", Plain::Unsigned(1))));
                    assert!(matches!(fields[1], ("n", Plain::Signed(-1))));
                }
                other => panic!("{other:?}"),
            }
        }
        other => panic!("{other:?}"),
    }
}
