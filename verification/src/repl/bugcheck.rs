//! How a bugcheck of the target is shown.
use crate::bugchecks::{
    BugcheckAnalysis, BugcheckArg, BugcheckFault, BugcheckTrapFrame, CurrentBugcheckFailure,
    CurrentBugcheckResolution,
};
use crate::repl::disasm::{format_rflags, spec_rflags};
use crate::text::{
    append_lines, begins, chars, dec, decimal, hex_padded, hex_prefixed, hexadecimal_padded,
    hexadecimal_prefixed, no_lines, push_line, starts_with, text, text_opt, texts,
};
use crate::trapframe::KtrapFrame;
use crate::ui;
use crate::ui::{
    bold, bright_black, bright_white, green, red, spec_addr, spec_bold, spec_bright_black,
    spec_bright_white, spec_green, spec_red, spec_symbol,
};
use vstd::prelude::*;
use vstd::string::*;

verus! {

/// Five slots of bugcheck data.
pub open spec fn slots_line(label: Seq<char>, data: Seq<u64>) -> Seq<char> {
    spec_bold("bugcheck:"@) + " "@ + label + " = ["@ + hex_prefixed(data[0] as nat) + ", "@
        + hex_prefixed(data[1] as nat) + ", "@ + hex_prefixed(data[2] as nat) + ", "@
        + hex_prefixed(data[3] as nat) + ", "@ + hex_prefixed(data[4] as nat) + "]"@
}

fn slots(label: &str, data: &[u64; 5]) -> (r: String)
    ensures
        r@ == slots_line(label@, data@),
{
    bold("bugcheck:").concat(" ").concat(label).concat(" = [").concat(
        hexadecimal_prefixed(data[0]).as_str(),
    ).concat(", ").concat(hexadecimal_prefixed(data[1]).as_str()).concat(", ").concat(
        hexadecimal_prefixed(data[2]).as_str(),
    ).concat(", ").concat(hexadecimal_prefixed(data[3]).as_str()).concat(", ").concat(
        hexadecimal_prefixed(data[4]).as_str(),
    ).concat("]")
}

/// The line of optional slots, where there are any.
pub open spec fn with_slots(
    lines: Seq<Seq<char>>,
    label: Seq<char>,
    data: Option<[u64; 5]>,
) -> Seq<Seq<char>> {
    match data {
        Some(data) => lines.push(slots_line(label, data@)),
        None => lines,
    }
}

/// The lines that say why bugcheck data could not be made sense of.
pub open spec fn unresolved_lines(failure: CurrentBugcheckFailure) -> Seq<Seq<char>> {
    with_slots(
        with_slots(
            Seq::empty().push(
                spec_bold("bugcheck:"@) + " unable to resolve nt!KiBugCheckData at "@
                    + hex_prefixed(failure.address as nat) + ": "@ + failure.reason@,
            ),
            "raw slots"@,
            failure.slots,
        ),
        "dereferenced slots"@,
        failure.dereferenced_slots,
    )
}

/// The lines that say why bugcheck data could not be made sense of.
pub fn print_unresolved_bugcheck_data(failure: &CurrentBugcheckFailure) -> (r: Vec<String>)
    ensures
        texts(r@) == unresolved_lines(*failure),
{
    let mut out = no_lines();
    push_line(
        &mut out,
        bold("bugcheck:").concat(" unable to resolve nt!KiBugCheckData at ").concat(
            hexadecimal_prefixed(failure.address).as_str(),
        ).concat(": ").concat(failure.reason.as_str()),
    );
    match &failure.slots {
        Some(data) => push_line(&mut out, slots("raw slots", data)),
        None => {},
    }
    match &failure.dereferenced_slots {
        Some(data) => push_line(&mut out, slots("dereferenced slots", data)),
        None => {},
    }
    out
}

/// How a parameter is shown: as an address.
pub fn format_arg_value(value: u64) -> (r: String)
    ensures
        r@ == spec_addr(value),
{
    ui::addr(value)
}

/// How the blamed instruction is shown: its address, and its symbol unless that
/// is the address again.
pub open spec fn fault_text(fault: BugcheckFault) -> Seq<char> {
    if begins(fault.symbol@, "0x"@) {
        spec_addr(fault.ip)
    } else {
        spec_addr(fault.ip) + "  "@ + spec_symbol(fault.symbol@)
    }
}

pub fn format_bugcheck_fault(fault: &BugcheckFault) -> (r: String)
    ensures
        r@ == fault_text(*fault),
{
    let address = ui::addr(fault.ip);
    if starts_with(chars(fault.symbol.as_str()).as_slice(), chars("0x").as_slice()) {
        address
    } else {
        address.concat("  ").concat(ui::symbol(fault.symbol.as_str()).as_str())
    }
}

/// The line of a parameter.
pub open spec fn arg_line(number: int, arg: BugcheckArg) -> Seq<char> {
    let head = "  arg"@ + dec(number as nat) + " "@ + spec_addr(arg.value);
    if arg.description@.len() == 0 {
        head
    } else {
        head + "  "@ + arg.description@
    }
}

fn format_arg(number: u64, arg: &BugcheckArg) -> (r: String)
    ensures
        r@ == arg_line(number as int, *arg),
{
    let head = text("  arg").concat(decimal(number).as_str()).concat(" ").concat(
        format_arg_value(arg.value).as_str(),
    );
    if arg.description.as_str().is_empty() {
        head
    } else {
        head.concat("  ").concat(arg.description.as_str())
    }
}

/// The lines of the first `n` parameters, numbered from 1.
pub open spec fn arg_lines(lines: Seq<Seq<char>>, args: Seq<BugcheckArg>, n: nat) -> Seq<Seq<char>>
    decreases n,
{
    if n == 0 {
        lines
    } else {
        arg_lines(lines, args, (n - 1) as nat).push(arg_line(n as int, args[n - 1]))
    }
}

/// A line that is there where its value is.
pub open spec fn with_line(
    lines: Seq<Seq<char>>,
    head: Seq<char>,
    value: Option<Seq<char>>,
) -> Seq<Seq<char>> {
    match value {
        Some(v) => lines.push(head + v),
        None => lines,
    }
}

/// The lines above the parameters: banner, responsible module, fault site,
/// reason.
pub open spec fn banner_lines(a: BugcheckAnalysis) -> Seq<Seq<char>> {
    let lines = Seq::<Seq<char>>::empty().push(""@).push(
        spec_bold(spec_red(a.name@ + " (0x"@ + hex_padded(a.code as nat, 8) + ")"@)),
    );
    let lines = with_line(
        lines,
        "  module: "@,
        match a.driver {
            Some(driver) => Some(spec_green(driver@)),
            None => None,
        },
    );
    let lines = with_line(
        lines,
        "  fault: "@,
        match a.fault {
            Some(fault) => Some(fault_text(fault)),
            None => None,
        },
    );
    with_line(lines, "  reason: "@, text_opt(a.description)).push(""@).push(spec_bold("args"@))
}

/// The lines of the first `n` trap frames, each after an empty one.
pub open spec fn frames_lines(
    lines: Seq<Seq<char>>,
    frames: Seq<BugcheckTrapFrame>,
    n: nat,
) -> Seq<Seq<char>>
    decreases n,
{
    if n == 0 {
        lines
    } else {
        frames_lines(lines, frames, (n - 1) as nat).push(""@) + trap_lines(frames[n - 1])
    }
}

/// The lines of a decoded bugcheck.
pub open spec fn analysis_lines(a: BugcheckAnalysis) -> Seq<Seq<char>> {
    frames_lines(
        with_line(
            arg_lines(banner_lines(a), a.args@, a.args@.len()),
            "  source: "@,
            match a.source {
                Some(source) => Some(spec_bright_black(source@)),
                None => None,
            },
        ),
        a.trap_frames@,
        a.trap_frames@.len(),
    )
}

fn bugcheck_banner(analysis: &BugcheckAnalysis) -> (r: Vec<String>)
    ensures
        texts(r@) == banner_lines(*analysis),
{
    let mut out = no_lines();
    push_line(&mut out, text(""));
    let title = text(analysis.name.as_str()).concat(" (0x").concat(
        hexadecimal_padded(analysis.code as u64, 8).as_str(),
    ).concat(")");
    push_line(&mut out, bold(red(title.as_str()).as_str()));
    match &analysis.driver {
        Some(driver) => push_line(
            &mut out,
            text("  module: ").concat(green(driver.as_str()).as_str()),
        ),
        None => {},
    }
    match &analysis.fault {
        Some(fault) => push_line(
            &mut out,
            text("  fault: ").concat(format_bugcheck_fault(fault).as_str()),
        ),
        None => {},
    }
    match &analysis.description {
        Some(description) => push_line(&mut out, text("  reason: ").concat(description.as_str())),
        None => {},
    }
    push_line(&mut out, text(""));
    push_line(&mut out, bold("args"));
    out
}

/// Render an already-decoded [`BugcheckAnalysis`]: banner, responsible module,
/// fault site, args (with their documented meanings), data provenance, and any
/// trap frames the parameters point at.
pub fn print_bugcheck_analysis(analysis: &BugcheckAnalysis) -> (r: Vec<String>)
    ensures
        texts(r@) == analysis_lines(*analysis),
{
    let mut out = bugcheck_banner(analysis);
    let mut i: usize = 0;
    while i < analysis.args.len()
        invariant
            i <= analysis.args@.len(),
            texts(out@) == arg_lines(banner_lines(*analysis), analysis.args@, i as nat),
        decreases analysis.args@.len() - i,
    {
        push_line(&mut out, format_arg((i + 1) as u64, &analysis.args[i]));
        i += 1;
    }
    match &analysis.source {
        Some(source) => push_line(
            &mut out,
            text("  source: ").concat(bright_black(source.as_str()).as_str()),
        ),
        None => {},
    }
    let ghost before = texts(out@);
    let mut n: usize = 0;
    while n < analysis.trap_frames.len()
        invariant
            n <= analysis.trap_frames@.len(),
            texts(out@) == frames_lines(before, analysis.trap_frames@, n as nat),
        decreases analysis.trap_frames@.len() - n,
    {
        push_line(&mut out, text(""));
        let lines = print_bugcheck_trap_frame(&analysis.trap_frames[n]);
        append_lines(&mut out, lines);
        n += 1;
    }
    out
}

/// The lines of a trap frame named by a bugcheck parameter.
pub open spec fn trap_lines(tf: BugcheckTrapFrame) -> Seq<Seq<char>> {
    match tf.frame {
        Some(frame) => ktrap_lines(frame, text_opt(tf.rip_symbol)),
        None => Seq::empty().push(
            spec_bold("trap frame"@) + " @ "@ + spec_addr(tf.address) + " (unable to decode: "@ + (
            match tf.error {
                Some(error) => error@,
                None => "unknown error"@,
            }) + ")"@,
        ),
    }
}

/// Render a trap frame named by a bugcheck parameter: always the address,
/// plus either the decoded contents or the precise decode failure.
pub fn print_bugcheck_trap_frame(trap_frame: &BugcheckTrapFrame) -> (r: Vec<String>)
    ensures
        texts(r@) == trap_lines(*trap_frame),
{
    match &trap_frame.frame {
        Some(frame) => print_ktrap_frame(
            frame,
            match &trap_frame.rip_symbol {
                Some(symbol) => Some(symbol.as_str()),
                None => None,
            },
        ),
        None => {
            let error = match &trap_frame.error {
                Some(error) => error.as_str(),
                None => "unknown error",
            };
            let mut out = no_lines();
            push_line(
                &mut out,
                bold("trap frame").concat(" @ ").concat(ui::addr(trap_frame.address).as_str()).concat(
                    " (unable to decode: ",
                ).concat(error).concat(")"),
            );
            out
        },
    }
}

/// A row of three registers.
pub open spec fn triple(
    a: Seq<char>,
    va: u64,
    b: Seq<char>,
    vb: u64,
    c: Seq<char>,
    vc: u64,
) -> Seq<char> {
    "  "@ + a + " "@ + spec_addr(va) + "   "@ + b + " "@ + spec_addr(vb) + "   "@ + c + " "@
        + spec_addr(vc)
}

fn format_triple(a: &str, va: u64, b: &str, vb: u64, c: &str, vc: u64) -> (r: String)
    ensures
        r@ == triple(a@, va, b@, vb, c@, vc),
{
    text("  ").concat(a).concat(" ").concat(ui::addr(va).as_str()).concat("   ").concat(b).concat(
        " ",
    ).concat(ui::addr(vb).as_str()).concat("   ").concat(c).concat(" ").concat(
        ui::addr(vc).as_str(),
    )
}

/// The line of the segment registers and what led to the trap.
pub open spec fn segment_line(frame: KtrapFrame) -> Seq<char> {
    "  cs  "@ + spec_bold(spec_bright_white(hex_padded(frame.cs as nat, 4))) + "  ss  "@ + spec_bold(
        spec_bright_white(hex_padded(frame.ss as nat, 4)),
    ) + "  error code "@ + hex_prefixed(frame.error_code as nat) + "  irql "@ + dec(
        frame.previous_irql as nat,
    ) + "  previous mode "@ + (if frame.previous_mode == 0 {
        "kernel"@
    } else {
        "user"@
    })
}

/// The lines of a decoded trap frame.
pub open spec fn ktrap_lines(frame: KtrapFrame, rip_symbol: Option<Seq<char>>) -> Seq<Seq<char>> {
    let lines = Seq::<Seq<char>>::empty().push(
        spec_bold("trap frame"@) + " @ "@ + spec_addr(frame.address),
    ).push(triple("rax"@, frame.rax, "rbx"@, frame.rbx, "rcx"@, frame.rcx)).push(
        triple("rdx"@, frame.rdx, "rsi"@, frame.rsi, "rdi"@, frame.rdi),
    ).push(triple("rsp"@, frame.rsp, "rbp"@, frame.rbp, "rip"@, frame.rip)).push(
        triple("r8 "@, frame.r8, "r9 "@, frame.r9, "r10"@, frame.r10),
    ).push(
        "  r11 "@ + spec_addr(frame.r11) + "   rfl "@ + spec_addr(frame.eflags as u64)
            + spec_rflags(frame.eflags as u64),
    ).push(segment_line(frame));
    with_line(
        lines,
        "  rip => "@,
        match rip_symbol {
            Some(symbol) => Some(spec_symbol(symbol)),
            None => None,
        },
    )
}

fn segments(frame: &KtrapFrame) -> (r: String)
    ensures
        r@ == segment_line(*frame),
{
    let mode = if frame.previous_mode == 0 {
        "kernel"
    } else {
        "user"
    };
    text("  cs  ").concat(
        bold(bright_white(hexadecimal_padded(frame.cs as u64, 4).as_str()).as_str()).as_str(),
    ).concat("  ss  ").concat(
        bold(bright_white(hexadecimal_padded(frame.ss as u64, 4).as_str()).as_str()).as_str(),
    ).concat("  error code ").concat(hexadecimal_prefixed(frame.error_code).as_str()).concat(
        "  irql ",
    ).concat(decimal(frame.previous_irql as u64).as_str()).concat("  previous mode ").concat(mode)
}

/// Render a decoded [`KtrapFrame`] in the register-grid house style. r12-r15
/// are absent by design: the kernel saves them in the exception frame, not the
/// trap frame.
pub fn print_ktrap_frame(frame: &KtrapFrame, rip_symbol: Option<&str>) -> (r: Vec<String>)
    ensures
        texts(r@) == ktrap_lines(
            *frame,
            match rip_symbol {
                Some(symbol) => Some(symbol@),
                None => None,
            },
        ),
{
    let mut out = no_lines();
    push_line(&mut out, bold("trap frame").concat(" @ ").concat(ui::addr(frame.address).as_str()));
    push_line(
        &mut out,
        format_triple("rax", frame.rax, "rbx", frame.rbx, "rcx", frame.rcx),
    );
    push_line(
        &mut out,
        format_triple("rdx", frame.rdx, "rsi", frame.rsi, "rdi", frame.rdi),
    );
    push_line(
        &mut out,
        format_triple("rsp", frame.rsp, "rbp", frame.rbp, "rip", frame.rip),
    );
    push_line(&mut out, format_triple("r8 ", frame.r8, "r9 ", frame.r9, "r10", frame.r10));
    push_line(
        &mut out,
        text("  r11 ").concat(ui::addr(frame.r11).as_str()).concat("   rfl ").concat(
            ui::addr(frame.eflags as u64).as_str(),
        ).concat(format_rflags(frame.eflags as u64).as_str()),
    );
    push_line(&mut out, segments(frame));
    match rip_symbol {
        Some(symbol) => push_line(
            &mut out,
            text("  rip => ").concat(ui::symbol(symbol).as_str()),
        ),
        None => {},
    }
    out
}

/// The lines of what the target's memory says of the current bugcheck.
pub open spec fn resolution_lines(resolution: CurrentBugcheckResolution) -> Seq<Seq<char>> {
    match resolution {
        CurrentBugcheckResolution::Resolved(analysis) => analysis_lines(analysis),
        CurrentBugcheckResolution::SymbolUnavailable => Seq::empty().push(
            spec_bold("bugcheck:"@)
                + " guest is bugchecking (symbol nt!KiBugCheckData unavailable)"@,
        ),
        CurrentBugcheckResolution::Unresolved(failure) => unresolved_lines(failure),
    }
}

/// Display `nt!KiBugCheckData` (BugCheckCode + 4 parameters) as read while the
/// guest is frozen mid-bugcheck.
pub fn print_bugcheck_summary_from_memory(resolution: &CurrentBugcheckResolution) -> (r: Vec<
    String,
>)
    ensures
        texts(r@) == resolution_lines(*resolution),
{
    match resolution {
        CurrentBugcheckResolution::Resolved(analysis) => print_bugcheck_analysis(analysis),
        CurrentBugcheckResolution::SymbolUnavailable => {
            let mut out = no_lines();
            push_line(
                &mut out,
                bold("bugcheck:").concat(
                    " guest is bugchecking (symbol nt!KiBugCheckData unavailable)",
                ),
            );
            out
        },
        CurrentBugcheckResolution::Unresolved(failure) => print_unresolved_bugcheck_data(failure),
    }
}

/// Render a bugcheck that the transport reported (`info`) using the shared
/// analysis, so no two surfaces ever disagree on the name/arguments/responsible
/// driver of a bugcheck. `analyze` is that analysis.
pub fn print_bugcheck_info<B, A: FnOnce(&B) -> BugcheckAnalysis>(info: &B, analyze: A) -> (r: Vec<
    String,
>)
    requires
        call_requires(analyze, (info,)),
    ensures
        exists|analysis: BugcheckAnalysis| #[trigger]
            call_ensures(analyze, (info,), analysis) && texts(r@) == analysis_lines(analysis),
{
    let analysis = analyze(info);
    print_bugcheck_analysis(&analysis)
}

/// The lines that summarise a bugcheck stop. The kernel debugger normally sends
/// the bugcheck code and parameters before the stop packet; if that stream is
/// missing, `resolve` reads the same values from `nt!KiBugCheckData` while the
/// guest is frozen mid-bugcheck.
pub fn print_bugcheck_summary<
    B,
    A: FnOnce(&B) -> BugcheckAnalysis,
    F: FnOnce() -> CurrentBugcheckResolution,
>(info: Option<&B>, analyze: A, resolve: F) -> (r: Vec<String>)
    requires
        info matches Some(info) ==> call_requires(analyze, (info,)),
        info is None ==> call_requires(resolve, ()),
    ensures
        match info {
            Some(info) => exists|analysis: BugcheckAnalysis| #[trigger]
                call_ensures(analyze, (info,), analysis) && texts(r@) == analysis_lines(analysis),
            None => exists|resolution: CurrentBugcheckResolution| #[trigger]
                call_ensures(resolve, (), resolution) && texts(r@) == resolution_lines(resolution),
        },
{
    match info {
        Some(info) => print_bugcheck_info(info, analyze),
        None => {
            let resolution = resolve();
            print_bugcheck_summary_from_memory(&resolution)
        },
    }
}

} // verus!
