use ntoseye::backend::HwBreakpointAccess;
use ntoseye::bugchecks::BugcheckInfo;
use ntoseye::error::Error;
use ntoseye::gdb::breakpoints::{BreakpointManager, HardwareBreakpoint};
use ntoseye::memory::{MemoryOps, DTB_IDENTITY};
use ntoseye::repl::context::{
    pending_reload_location, pending_reload_register_kernel_base_hint, print_break_context,
    print_break_context_at, print_break_context_for_bugcheck,
    print_pending_rediscovery_stop_context, print_target_reload_notification_context,
    print_unreadable_break_context, rebase_kernel_symbol_for_pending_reload, BreakContext,
};
use ntoseye::repl::disasm::{
    format_disasm_line, format_rflags, hex_column_width, print_disasm_context,
    print_event_children, print_registers, print_section, print_stacktrace, print_stop_separator,
    prose_columns, render_rows, wrap_prose, DisasmRow, Registers, StackFrame, Stacktrace,
};
use ntoseye::repl::stop::{TargetReloadStatus, ThreadInfo};
use ntoseye::session::StopEvent;
use ntoseye::target::Target;
use ntoseye::types::{Dtb, PhysAddr, VirtAddr};
use std::cell::RefCell;
use ntoseye::ui;

fn dim(s: &str) -> String {
    format!("\x1b[90m{s}\x1b[39m")
}

fn bold(s: &str) -> String {
    format!("\x1b[1m{s}\x1b[0m")
}

#[test]
fn sections_and_separators_begin_with_an_empty_line() {
    assert_eq!(print_section("stack"), vec!["".to_string(), bold("stack")]);
    assert_eq!(print_stop_separator(), vec![""]);
}

#[test]
fn children_hang_below_their_event() {
    let children = ["one\ntwo".to_string(), "".to_string(), "three\nfour\nfive".to_string()];
    assert_eq!(
        print_event_children(" ", &children),
        vec![
            format!(" {} one", dim("├─")),
            format!(" {}  two", dim("│")),
            format!(" {} three", dim("╰─")),
            "    four".to_string(),
            "    five".to_string(),
        ]
    );
    assert!(print_event_children(" ", &[]).is_empty());
}

#[test]
fn prose_is_wrapped_to_what_is_left_of_the_terminal() {
    assert_eq!(prose_columns(None, 0), None);
    assert_eq!(prose_columns(Some(30), 10), Some(20));
    assert_eq!(prose_columns(Some(29), 10), None);
    assert_eq!(prose_columns(Some(5), 10), None);
    assert_eq!(prose_columns(Some(500), 10), Some(100));
    let prose = "the quick brown fox jumps over the lazy dog";
    assert_eq!(wrap_prose(prose, 0, None), vec![prose]);
    assert_eq!(wrap_prose(prose, 10, Some(20)), vec![prose]);
    assert_eq!(
        wrap_prose(prose, 10, Some(30)),
        vec!["the quick brown fox", "jumps over the lazy", "dog"]
    );
}

#[test]
fn flags_are_named_from_the_lowest_bit_up() {
    assert_eq!(format_rflags(0), "");
    assert_eq!(format_rflags(0x202), " [IF]");
    assert_eq!(format_rflags(0x246), " [PF ZF IF]");
    assert_eq!(format_rflags(0x1000), " [IOPL1]");
    assert_eq!(format_rflags(0x2001), " [CF IOPL2]");
    assert_eq!(
        format_rflags(u64::MAX),
        " [CF PF AF ZF SF TF IF DF OF NT RF VM AC VIF VIP ID IOPL3]"
    );
}

fn registers() -> Registers {
    Registers {
        rax: Some(1),
        rbx: Some(2),
        rcx: Some(3),
        rdx: Some(4),
        rsi: Some(5),
        rdi: Some(6),
        rsp: Some(7),
        rbp: Some(8),
        rip: Some(9),
        r8: Some(10),
        r9: Some(11),
        r10: Some(12),
        r11: Some(13),
        r12: Some(14),
        r13: Some(15),
        r14: Some(16),
        r15: None,
        eflags: Some(0x202),
    }
}

#[test]
fn registers_stand_in_a_grid() {
    let flat = print_registers(&registers(), false);
    assert_eq!(flat.len(), 6);
    assert_eq!(
        flat[0],
        format!(
            "{} {}   {} {}   {} {}",
            dim("rax"),
            ui::addr(1),
            dim("rbx"),
            ui::addr(2),
            dim("rcx"),
            ui::addr(3)
        )
    );
    assert_eq!(
        flat[3],
        format!(
            "{} {}   {} {}   {} {}",
            dim("r8 "),
            ui::addr(10),
            dim("r9 "),
            ui::addr(11),
            dim("r10"),
            ui::addr(12)
        )
    );
    assert_eq!(
        flat[5],
        format!(
            "{} {}   {} {}   {} {} [IF]",
            dim("r14"),
            ui::addr(16),
            dim("r15"),
            dim("N/A             "),
            dim("rfl"),
            ui::addr(0x202)
        )
    );
    let embedded = print_registers(&registers(), true);
    assert_eq!(embedded[..2], ["".to_string(), bold("registers")]);
    assert_eq!(embedded[2], format!("  {}", flat[0]));
}

fn row(ip: u64, hex: &str, code: &str) -> DisasmRow {
    DisasmRow { ip, hex: hex.to_string(), code: code.to_string(), comment: None }
}

#[test]
fn instructions_align() {
    assert_eq!(hex_column_width(&[]), 0);
    assert_eq!(hex_column_width(&["90", "4889c8", "c3"]), 6);
    assert_eq!(
        format_disasm_line(0x10, "90", "nop", Some("nt!Foo+0x2"), None, 4),
        format!(
            "{}  {}  nop {} {}",
            ui::addr(0x10),
            dim("90  "),
            dim(";"),
            ui::symbol("nt!Foo+0x2")
        )
    );
    let rows = [row(0x10, "90", "nop"), row(0x11, "4889c8", "mov rax, rcx")];
    assert_eq!(
        render_rows(&rows, |ip| Some(ip == 0x11)),
        vec![
            format!("   {}  {}  nop", ui::addr(0x10), dim("90    ")),
            format!(
                " \x1b[1m\x1b[33m>\x1b[39m\x1b[0m {}  {}  mov rax, rcx",
                ui::addr(0x11),
                dim("4889c8")
            ),
        ]
    );
    assert_eq!(
        render_rows(&rows[..1], |_| None),
        vec![format!("{}  {}  nop", ui::addr(0x10), dim("90"))]
    );
}

struct Ram(Vec<u8>);

impl MemoryOps<PhysAddr> for Ram {
    fn read_bytes(&self, addr: PhysAddr, buf: &mut [u8]) -> Result<(), Error> {
        let start = addr as usize;
        if start + buf.len() > self.0.len() {
            return Err(Error::BadPhysicalAddress(addr));
        }
        buf.copy_from_slice(&self.0[start..start + buf.len()]);
        Ok(())
    }

    fn write_bytes(&mut self, addr: PhysAddr, _buf: &[u8]) -> Result<(), Error> {
        Err(Error::BadPhysicalAddress(addr))
    }
}

fn target(len: usize) -> Target<Ram> {
    Target {
        phys: Ram((0..len).map(|i| i as u8).collect()),
        current_process_info: None,
        current_dtb: DTB_IDENTITY,
        kernel_modules: None,
    }
}

/// Every instruction has this many bytes; its text is its first byte.
fn decoder(width: u64) -> impl Fn(&[u8], u64, Option<usize>) -> Vec<DisasmRow> {
    move |bytes, start, limit| {
        bytes
            .chunks(width as usize)
            .enumerate()
            .take(limit.unwrap_or(usize::MAX))
            .map(|(i, c)| row(start + width * i as u64, "", &format!("{:02x}", c[0])))
            .collect()
    }
}

fn codes(lines: &[String]) -> Vec<String> {
    lines.iter().map(|l| l[l.len() - 2..].to_string()).collect()
}

#[test]
fn code_is_shown_around_the_current_instruction() {
    let mut breakpoints: BreakpointManager<()> = BreakpointManager::new();
    let target = target(0x100);
    let lines =
        print_disasm_context(&target, &breakpoints, DTB_IDENTITY, DTB_IDENTITY, 0x80, &decoder(2));
    assert_eq!(lines[..2], ["".to_string(), bold("disasm")]);
    assert_eq!(codes(&lines[2..]), vec!["7a", "7c", "7e", "80", "82", "84", "86"]);
    assert!(lines[5].contains('>'));
    // Breakpoints do not show.
    breakpoints.insert_for_test(0, VirtAddr(0x80), true, None);
    breakpoints.insert_for_test(
        1,
        VirtAddr(0x82),
        true,
        Some(HardwareBreakpoint { access: HwBreakpointAccess::Write, len: 1, slot: 0 }),
    );
    let lines =
        print_disasm_context(&target, &breakpoints, DTB_IDENTITY, DTB_IDENTITY, 0x80, &decoder(2));
    assert_eq!(codes(&lines[2..]), vec!["7a", "7c", "7e", "90", "82", "84", "86"]);
}

#[test]
fn code_is_shown_from_the_current_instruction_where_decoding_misses_it() {
    let breakpoints: BreakpointManager<()> = BreakpointManager::new();
    // 0x40 - 64 = 0, and no instruction of three bytes begins at 0x40.
    let lines = print_disasm_context(
        &target(0x100),
        &breakpoints,
        DTB_IDENTITY,
        DTB_IDENTITY,
        0x40,
        &decoder(3),
    );
    assert_eq!(codes(&lines[2..]), vec!["40", "43", "46", "49", "4c", "4f", "52"]);
    assert!(lines[2].contains('>'));
    // Near the start of memory there is less before it.
    let lines = print_disasm_context(
        &target(0x100),
        &breakpoints,
        DTB_IDENTITY,
        DTB_IDENTITY,
        2,
        &decoder(1),
    );
    assert_eq!(codes(&lines[2..]), vec!["00", "01", "02", "03", "04", "05"]);
}

#[test]
fn code_that_cannot_be_read_is_said_so() {
    let breakpoints: BreakpointManager<()> = BreakpointManager::new();
    let lines = print_disasm_context(
        &target(0x50),
        &breakpoints,
        DTB_IDENTITY,
        DTB_IDENTITY,
        0x40,
        &decoder(1),
    );
    assert_eq!(lines[2..], [dim("  (could not read memory at RIP)")]);
    // Another page table may do.
    let lines =
        print_disasm_context(&target(0x100), &breakpoints, 0, DTB_IDENTITY, 0x40, &decoder(1));
    assert_eq!(codes(&lines[2..]), vec!["3d", "3e", "3f", "40", "41", "42", "43"]);
}

fn frames(n: u64) -> Stacktrace {
    Stacktrace {
        frames: (0..n)
            .map(|i| StackFrame {
                sp: 0x1000 + i,
                ip: 0x2000 + i,
                symbol: if i == 1 { "0x2001".to_string() } else { format!("nt!F{i}+0x1") },
                scanned: i == 2,
            })
            .collect(),
        truncated: 0,
    }
}

#[test]
fn frames_are_numbered_and_cut_off() {
    let mut trace = frames(4);
    let lines = print_stacktrace(&trace, 3, false);
    assert_eq!(
        lines,
        vec![
            format!(
                "{} {}  {}  {}",
                dim("#0 "),
                ui::addr(0x1000),
                ui::addr(0x2000),
                ui::symbol("nt!F0+0x1")
            ),
            format!("{} {}  {}", dim("#1 "), ui::addr(0x1001), ui::addr(0x2001)),
            format!(
                "{} {}  {}  {} {}",
                dim("#2 "),
                ui::addr(0x1002),
                ui::addr(0x2002),
                ui::symbol("nt!F2+0x1"),
                dim("[scan]")
            ),
            dim("... 1 more frames"),
        ]
    );
    trace.truncated = 5;
    let lines = print_stacktrace(&trace, 9, true);
    assert_eq!(lines.len(), 2 + 4 + 1);
    assert_eq!(lines[1], bold("stack"));
    assert_eq!(
        lines[2],
        format!("  {} {}  {}", dim("#0 "), ui::addr(0x2000), ui::symbol("nt!F0+0x1"))
    );
    assert_eq!(lines[6], format!("  {}", dim("... 5 more frames")));
}

fn context() -> BreakContext {
    BreakContext {
        thread_id: "p1.1".to_string(),
        description: "System".to_string(),
        rip: 0x80,
        active_dtb: DTB_IDENTITY,
        registers: registers(),
        windows_thread: Some(ThreadInfo {
            process_name: Some("Idle".to_string()),
            state: Some("Running".to_string()),
            ethread: VirtAddr(0x7000),
            pid: Some(0),
            tid: None,
        }),
        stack: frames(1),
    }
}

fn banner(rest: &str) -> String {
    format!("{}{}", ui::badge("BREAK"), bold(&format!(" {}{rest}", bold("p1.1"))))
}

const BUGCHECK: BugcheckInfo = BugcheckInfo { code: 0xD1, p1: 1, p2: 2, p3: 3, p4: 4 };

fn code(_address: u64) -> Dtb {
    DTB_IDENTITY
}

fn name(address: u64) -> String {
    format!("nt!At{address:x}")
}

#[test]
fn a_stop_is_shown_whole() {
    let breakpoints: BreakpointManager<()> = BreakpointManager::new();
    let lines =
        print_break_context(&target(0x100), &breakpoints, &context(), 8, &name, &code, &decoder(2));
    assert_eq!(lines[0], banner(&format!(" System at {} ", ui::symbol("nt!At80"))));
    assert_eq!(
        lines[1],
        format!(
            " {} {} Idle  {} Running  {} {}  {} 0",
            dim("╰─"),
            dim("thread"),
            dim("state"),
            dim("ethread"),
            ui::addr(0x7000),
            dim("pid")
        )
    );
    assert_eq!(lines[3], bold("registers"));
    assert_eq!(lines[11], bold("disasm"));
    assert_eq!(lines[20], bold("stack"));
    assert_eq!(lines[22], "");
    assert_eq!(lines.len(), 23);
}

#[test]
fn a_cause_comes_first_and_the_real_place_second() {
    let breakpoints: BreakpointManager<()> = BreakpointManager::new();
    let lines = print_break_context_at(
        &target(0x100),
        &breakpoints,
        &context(),
        8,
        Some(0x90),
        Some("why".to_string()),
        &name,
        &code,
        &decoder(2),
    );
    assert_eq!(lines[0], banner(&format!(" System at {} ", ui::symbol("nt!At90"))));
    assert_eq!(lines[1], format!(" {} why", dim("├─")));
    assert_eq!(
        lines[2],
        format!(" {} {} {}", dim("├─"), dim("stopped at"), ui::symbol("nt!At80"))
    );
    // A bugcheck that blames the place of the stop needs no second place.
    let lines = print_break_context_for_bugcheck(
        &target(0x100),
        &breakpoints,
        &context(),
        8,
        Some(&BUGCHECK),
        |info: &BugcheckInfo| {
            assert_eq!(*info, BUGCHECK);
            Some(0x80)
        },
        &name,
        &code,
        &decoder(2),
    );
    assert!(lines[1].starts_with(&format!(" {} ", dim("╰─"))));
    // One of which nothing is known blames no place.
    let lines = print_break_context_for_bugcheck(
        &target(0x100),
        &breakpoints,
        &context(),
        8,
        None,
        |_: &BugcheckInfo| panic!("nothing is known"),
        &name,
        &code,
        &decoder(2),
    );
    assert_eq!(lines[0], banner(&format!(" System at {} ", ui::symbol("nt!At80"))));
}

#[test]
fn code_is_read_by_the_page_table_for_the_place_shown() {
    let breakpoints: BreakpointManager<()> = BreakpointManager::new();
    let asked = RefCell::new(Vec::new());
    // The page table of the stop maps nothing.
    let stopped = BreakContext { active_dtb: 0xF_F000, ..context() };
    let lines = print_break_context_at(
        &target(0x100),
        &breakpoints,
        &stopped,
        8,
        Some(0x90),
        None,
        &name,
        &|address| {
            asked.borrow_mut().push(address);
            DTB_IDENTITY
        },
        &decoder(2),
    );
    assert_eq!(*asked.borrow(), vec![0x90]);
    let unreadable = dim("  (could not read memory at RIP)");
    assert!(!lines.contains(&unreadable));
    let lines = print_break_context(
        &target(0x100),
        &breakpoints,
        &stopped,
        8,
        &name,
        &|_| 0xF_F000,
        &decoder(2),
    );
    assert!(lines.contains(&unreadable));
}

#[test]
fn only_the_frames_not_shown_are_counted() {
    let trace = Stacktrace { truncated: usize::MAX, ..frames(3) };
    let lines = print_stacktrace(&trace, 3, false);
    assert_eq!(lines.last().unwrap(), &dim(&format!("... {} more frames", usize::MAX)));
}

#[test]
fn a_stop_without_registers_is_one_line() {
    assert_eq!(
        print_unreadable_break_context("p1.1", "gone"),
        vec![banner(" (read_registers failed: gone) "), "".to_string()]
    );
}

fn event() -> StopEvent {
    StopEvent {
        exception_code: None,
        program_counter: Some(0x5010),
        is_bugcheck: false,
        bugcheck: None,
        target_kernel_base_hint: Some(VirtAddr(0x5000)),
        target_reloaded: true,
    }
}

fn closest(address: VirtAddr) -> Option<(String, String, u32)> {
    let offset = (address.0 % 0x10000) as u32;
    Some(("nt".to_string(), "Start".to_string(), offset))
}

#[test]
fn symbols_of_a_rebooted_kernel_come_from_the_old_one() {
    let old = VirtAddr(0xA_0000);
    let rebase = |pc, hint| rebase_kernel_symbol_for_pending_reload(old, pc, hint, closest);
    assert_eq!(rebase(0x5010, Some(VirtAddr(0x5000))).as_deref(), Some("nt!Start+0x10"));
    assert_eq!(rebase(0x5000, Some(VirtAddr(0x5000))).as_deref(), Some("nt!Start"));
    assert_eq!(rebase(0x6000, Some(VirtAddr(0x5000))).as_deref(), Some("nt!Start+0x1000"));
    assert_eq!(rebase(0x6001, Some(VirtAddr(0x5000))), None);
    assert_eq!(rebase(0x4FFF, Some(VirtAddr(0x5000))), None);
    assert_eq!(rebase(0x5010, None), None);
    assert_eq!(
        rebase_kernel_symbol_for_pending_reload(
            VirtAddr(u64::MAX),
            0x5010,
            Some(VirtAddr(0x5000)),
            closest
        ),
        None
    );
}

#[test]
fn early_places_fall_back_to_addresses() {
    let old = VirtAddr(0xA_0000);
    let pending = |hint| TargetReloadStatus::PendingRediscovery { kernel_base_hint: hint };
    let mut stop = event();
    assert_eq!(
        pending_reload_location(old, &stop, pending(None), Some(VirtAddr(0x5000)), closest),
        ui::symbol("nt!Start+0x10")
    );
    // What the stop says comes before what the registers say.
    assert_eq!(
        pending_reload_location(
            old,
            &stop,
            pending(Some(VirtAddr(0x5008))),
            Some(VirtAddr(0x5000)),
            closest
        ),
        ui::symbol("nt!Start+0x8")
    );
    assert_eq!(
        pending_reload_location(old, &stop, pending(None), None, closest),
        ui::addr(0x5010)
    );
    stop.program_counter = None;
    assert_eq!(
        pending_reload_location(old, &stop, pending(None), None, closest),
        dim("unknown")
    );
}

#[test]
fn registers_may_hint_at_the_kernel_base() {
    let hint = |r9, pc| pending_reload_register_kernel_base_hint(r9, |b| b >= 0x1000, pc, 0x100);
    assert_eq!(hint(Some(0x1000), 0x10FF), Some(VirtAddr(0x1000)));
    assert_eq!(hint(Some(0x1000), 0x1100), None);
    assert_eq!(hint(Some(0x1000), 0xFFF), None);
    assert_eq!(hint(Some(0xFFF), 0xFFF), None);
    assert_eq!(hint(None, 0), None);
}

#[test]
fn reload_notifications_name_the_early_place() {
    let note = |text: &str| format!(" {} {}", dim("╰─"), dim(text));
    let early = banner(&format!(" early boot at {} ", ui::symbol("nt!Start+0x10")));
    let shown = |available| {
        print_target_reload_notification_context(
            VirtAddr(0xA_0000),
            "p1.1",
            &event(),
            TargetReloadStatus::Reloaded { loaded_module_list_available: available },
            closest,
        )
    };
    assert_eq!(
        shown(true),
        vec![
            early.clone(),
            note("kernel reloaded; context is limited, continue to resume boot"),
            "".to_string(),
        ]
    );
    assert_eq!(
        shown(false)[1],
        note("kernel reloaded; module list is not available yet, continue to retry full reload")
    );
}

#[test]
fn undiscovered_kernels_are_shown_with_their_registers() {
    let mut regs = registers();
    regs.r9 = Some(0x5000);
    let shown = |regs: &Result<Registers, String>| {
        print_pending_rediscovery_stop_context(
            VirtAddr(0xA_0000),
            "p1.1",
            &event(),
            TargetReloadStatus::PendingRediscovery { kernel_base_hint: None },
            regs,
            |_| true,
            0x1000,
            closest,
        )
    };
    let lines = shown(&Ok(regs));
    assert_eq!(lines[0], "");
    assert_eq!(lines[1], banner(&format!(" early boot at {} ", ui::symbol("nt!Start+0x10"))));
    assert_eq!(
        lines[2],
        format!(
            " {} {}",
            dim("╰─"),
            dim("kernel is not discoverable yet; context is limited, continue to retry")
        )
    );
    assert_eq!(lines[5], bold("registers"));
    assert_eq!(lines.len(), 4 + 8 + 1);
    let lines = shown(&Err("gone".to_string()));
    assert_eq!(lines[1], banner(&format!(" early boot at {} ", ui::addr(0x5010))));
    assert_eq!(lines[4..], [format!("{} gone", bold("registers unavailable:")), "".to_string()]);
}
