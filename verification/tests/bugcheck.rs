use ntoseye::bugchecks::{
    BugcheckAnalysis, BugcheckArg, BugcheckFault, BugcheckTrapFrame, CurrentBugcheckFailure,
    CurrentBugcheckResolution,
};
use ntoseye::repl::bugcheck::{
    format_arg_value, format_bugcheck_fault, print_bugcheck_analysis, print_bugcheck_info,
    print_bugcheck_summary, print_bugcheck_summary_from_memory, print_bugcheck_trap_frame,
    print_ktrap_frame, print_unresolved_bugcheck_data,
};
use ntoseye::trapframe::KtrapFrame;
use ntoseye::ui;

#[test]
fn formats_resolved_bugcheck_fault_site() {
    let line = format_bugcheck_fault(&BugcheckFault {
        ip: 0xffff_f805_f339_1730,
        symbol: "myfault+0x1730".to_string(),
        driver: Some("myfault.sys".to_string()),
    });

    assert!(line.contains("fffff805f3391730"));
    assert!(line.contains("myfault"));
    assert!(line.contains("+0x1730"));
}

#[test]
fn raw_bugcheck_fault_site_is_not_repeated() {
    let line = format_bugcheck_fault(&BugcheckFault {
        ip: 0xffff_f805_f339_1730,
        symbol: "0xfffff805f3391730".to_string(),
        driver: None,
    });

    assert_eq!(line.matches("fffff805f3391730").count(), 1);
}

fn bold(s: &str) -> String {
    format!("\x1b[1m{s}\x1b[0m")
}

fn frame() -> KtrapFrame {
    KtrapFrame {
        address: 0x100,
        rax: 1,
        rbx: 2,
        rcx: 3,
        rdx: 4,
        rsi: 5,
        rdi: 6,
        rbp: 7,
        rsp: 8,
        r8: 9,
        r9: 10,
        r10: 11,
        r11: 12,
        rip: 13,
        cs: 0x10,
        ss: 0x18,
        eflags: 0x202,
        error_code: 0x1f,
        previous_mode: 0,
        previous_irql: 2,
    }
}

fn analysis() -> BugcheckAnalysis {
    BugcheckAnalysis {
        code: 0xD1,
        name: "DRIVER_IRQL_NOT_LESS_OR_EQUAL".to_string(),
        description: Some("bad access".to_string()),
        driver: Some("myfault.sys".to_string()),
        source: Some("KD".to_string()),
        args: vec![
            BugcheckArg { value: 0x10, description: "memory referenced".to_string() },
            BugcheckArg { value: 2, description: String::new() },
        ],
        fault: Some(BugcheckFault {
            ip: 0x20,
            symbol: "myfault+0x1".to_string(),
            driver: None,
        }),
        trap_frames: vec![BugcheckTrapFrame {
            address: 0x30,
            frame: None,
            rip_symbol: None,
            error: None,
        }],
    }
}

#[test]
fn an_analysis_is_shown_from_banner_to_trap_frames() {
    assert_eq!(
        print_bugcheck_analysis(&analysis()),
        vec![
            "".to_string(),
            "\x1b[1m\x1b[31mDRIVER_IRQL_NOT_LESS_OR_EQUAL (0x000000d1)\x1b[39m\x1b[0m".to_string(),
            "  module: \x1b[32mmyfault.sys\x1b[39m".to_string(),
            format!("  fault: {}  {}", ui::addr(0x20), ui::symbol("myfault+0x1")),
            "  reason: bad access".to_string(),
            "".to_string(),
            bold("args"),
            format!("  arg1 {}  memory referenced", ui::addr(0x10)),
            format!("  arg2 {}", ui::addr(2)),
            "  source: \x1b[90mKD\x1b[39m".to_string(),
            "".to_string(),
            format!(
                "{} @ {} (unable to decode: unknown error)",
                bold("trap frame"),
                ui::addr(0x30)
            ),
        ]
    );
    let bare = BugcheckAnalysis {
        description: None,
        driver: None,
        source: None,
        args: Vec::new(),
        fault: None,
        trap_frames: Vec::new(),
        ..analysis()
    };
    assert_eq!(print_bugcheck_analysis(&bare).len(), 4);
    assert_eq!(format_arg_value(5), ui::addr(5));
}

#[test]
fn trap_frames_are_shown_in_rows() {
    let white = |s: &str| format!("\x1b[1m\x1b[97m{s}\x1b[39m\x1b[0m");
    let mut user = frame();
    user.previous_mode = 1;
    assert_eq!(
        print_ktrap_frame(&frame(), Some("nt!Foo")),
        vec![
            format!("{} @ {}", bold("trap frame"), ui::addr(0x100)),
            format!("  rax {}   rbx {}   rcx {}", ui::addr(1), ui::addr(2), ui::addr(3)),
            format!("  rdx {}   rsi {}   rdi {}", ui::addr(4), ui::addr(5), ui::addr(6)),
            format!("  rsp {}   rbp {}   rip {}", ui::addr(8), ui::addr(7), ui::addr(13)),
            format!("  r8  {}   r9  {}   r10 {}", ui::addr(9), ui::addr(10), ui::addr(11)),
            format!("  r11 {}   rfl {} [IF]", ui::addr(12), ui::addr(0x202)),
            format!(
                "  cs  {}  ss  {}  error code 0x1f  irql 2  previous mode kernel",
                white("0010"),
                white("0018")
            ),
            format!("  rip => {}", ui::symbol("nt!Foo")),
        ]
    );
    let lines = print_ktrap_frame(&user, None);
    assert_eq!(lines.len(), 7);
    assert!(lines[6].ends_with("previous mode user"));
    let decoded = BugcheckTrapFrame {
        address: 0x100,
        frame: Some(frame()),
        rip_symbol: Some("nt!Foo".to_string()),
        error: Some("ignored".to_string()),
    };
    assert_eq!(print_bugcheck_trap_frame(&decoded), print_ktrap_frame(&frame(), Some("nt!Foo")));
}

#[test]
fn unresolved_data_is_shown_raw() {
    let failure = CurrentBugcheckFailure {
        address: 0xabc,
        reason: "unreadable".to_string(),
        slots: Some([1, 2, 3, 4, 0x1f]),
        dereferenced_slots: None,
    };
    let head = format!(
        "{} unable to resolve nt!KiBugCheckData at 0xabc: unreadable",
        bold("bugcheck:")
    );
    let raw = format!("{} raw slots = [0x1, 0x2, 0x3, 0x4, 0x1f]", bold("bugcheck:"));
    assert_eq!(print_unresolved_bugcheck_data(&failure), vec![head.clone(), raw.clone()]);
    let both = CurrentBugcheckFailure { dereferenced_slots: Some([0; 5]), ..failure };
    assert_eq!(
        print_bugcheck_summary_from_memory(&CurrentBugcheckResolution::Unresolved(both)),
        vec![
            head,
            raw,
            format!("{} dereferenced slots = [0x0, 0x0, 0x0, 0x0, 0x0]", bold("bugcheck:")),
        ]
    );
}

#[test]
fn summaries_prefer_what_the_transport_reported() {
    let expected = print_bugcheck_analysis(&analysis());
    assert_eq!(print_bugcheck_info(&7, |_| analysis()), expected);
    assert_eq!(
        print_bugcheck_summary(
            Some(&7),
            |info| {
                assert_eq!(*info, 7);
                analysis()
            },
            || panic!("memory is not asked"),
        ),
        expected
    );
    let from_memory = |resolution| {
        print_bugcheck_summary(None::<&u32>, |_| panic!("nothing was reported"), || resolution)
    };
    assert_eq!(from_memory(CurrentBugcheckResolution::Resolved(analysis())), expected);
    assert_eq!(
        from_memory(CurrentBugcheckResolution::SymbolUnavailable),
        vec![format!(
            "{} guest is bugchecking (symbol nt!KiBugCheckData unavailable)",
            bold("bugcheck:")
        )]
    );
}
