//! What is shown of a bugcheck, line by line.
use crate::bugchecks::{
    BugcheckAnalysis, BugcheckArg, BugcheckFault, BugcheckTrapFrame, CurrentBugcheckFailure,
    CurrentBugcheckResolution,
};
use crate::repl::bugcheck::{
    analysis_lines, arg_lines, banner_lines, format_bugcheck_fault, frames_lines, ktrap_lines,
    print_bugcheck_analysis, print_bugcheck_summary, print_bugcheck_trap_frame, print_ktrap_frame,
    print_unresolved_bugcheck_data, resolution_lines, trap_lines, unresolved_lines,
};
use crate::repl::disasm::spec_rflags;
use crate::text::{begins, dec, hex_padded, hex_prefixed, texts};
use crate::trapframe::KtrapFrame;
use crate::ui::{
    spec_addr, spec_bold, spec_bright_black, spec_bright_white, spec_green, spec_red, spec_symbol,
};
use vstd::prelude::*;
use vstd::string::*;

verus! {

/// A line where there is a value for it, else none.
pub open spec fn if_any(head: Seq<char>, value: Option<Seq<char>>) -> Seq<Seq<char>> {
    match value {
        Some(value) => seq![head + value],
        None => Seq::empty(),
    }
}

/// A blamed instruction: its address, and its symbol unless that is an address.
pub open spec fn blame(fault: BugcheckFault) -> Seq<char> {
    spec_addr(fault.ip) + (if begins(fault.symbol@, "0x"@) {
        Seq::empty()
    } else {
        "  "@ + spec_symbol(fault.symbol@)
    })
}

proof fn lemma_blame(fault: BugcheckFault)
    ensures
        crate::repl::bugcheck::fault_text(fault) == blame(fault),
{
    assert(crate::repl::bugcheck::fault_text(fault) =~= blame(fault));
}

/// The blamed instruction is shown by its address and its symbol.
pub proof fn law_blamed_instruction(fault: BugcheckFault, r: String)
    requires
        call_ensures(format_bugcheck_fault, (&fault,), r),
    ensures
        r@ == blame(fault),
{
    lemma_blame(fault);
}

/// The lines of a trap frame: each register behind its own name.
pub open spec fn trap_shown(frame: KtrapFrame, symbol: Option<Seq<char>>) -> Seq<Seq<char>> {
    seq![
        spec_bold("trap frame"@) + " @ "@ + spec_addr(frame.address),
        "  "@ + "rax"@ + " "@ + spec_addr(frame.rax) + "   "@ + "rbx"@ + " "@ + spec_addr(frame.rbx)
            + "   "@ + "rcx"@ + " "@ + spec_addr(frame.rcx),
        "  "@ + "rdx"@ + " "@ + spec_addr(frame.rdx) + "   "@ + "rsi"@ + " "@ + spec_addr(frame.rsi)
            + "   "@ + "rdi"@ + " "@ + spec_addr(frame.rdi),
        "  "@ + "rsp"@ + " "@ + spec_addr(frame.rsp) + "   "@ + "rbp"@ + " "@ + spec_addr(frame.rbp)
            + "   "@ + "rip"@ + " "@ + spec_addr(frame.rip),
        "  "@ + "r8 "@ + " "@ + spec_addr(frame.r8) + "   "@ + "r9 "@ + " "@ + spec_addr(frame.r9)
            + "   "@ + "r10"@ + " "@ + spec_addr(frame.r10),
        "  r11 "@ + spec_addr(frame.r11) + "   rfl "@ + spec_addr(frame.eflags as u64)
            + spec_rflags(frame.eflags as u64),
        "  cs  "@ + spec_bold(spec_bright_white(hex_padded(frame.cs as nat, 4))) + "  ss  "@
            + spec_bold(spec_bright_white(hex_padded(frame.ss as nat, 4))) + "  error code "@
            + hex_prefixed(frame.error_code as nat) + "  irql "@ + dec(frame.previous_irql as nat)
            + "  previous mode "@ + (if frame.previous_mode == 0 {
            "kernel"@
        } else {
            "user"@
        }),
    ] + if_any(
        "  rip => "@,
        match symbol {
            Some(symbol) => Some(spec_symbol(symbol)),
            None => None,
        },
    )
}

proof fn lemma_ktrap(frame: KtrapFrame, symbol: Option<Seq<char>>)
    ensures
        ktrap_lines(frame, symbol) == trap_shown(frame, symbol),
{
    let a = ktrap_lines(frame, symbol);
    let b = trap_shown(frame, symbol);
    assert(a.len() == b.len());
    assert(a[0] == b[0] && a[1] == b[1] && a[2] == b[2] && a[3] == b[3] && a[4] == b[4]);
    assert(a[5] == b[5] && a[6] == b[6]);
    assert(a =~= b);
}

/// A trap frame shows each register behind its own name, and the symbol of `rip` where
/// it has one.
pub proof fn law_trap_frame_is_shown(frame: KtrapFrame, symbol: Option<&str>, r: Vec<String>)
    requires
        call_ensures(print_ktrap_frame, (&frame, symbol), r),
    ensures
        texts(r@) == trap_shown(
            frame,
            match symbol {
                Some(symbol) => Some(symbol@),
                None => None,
            },
        ),
{
    lemma_ktrap(
        frame,
        match symbol {
            Some(symbol) => Some(symbol@),
            None => None,
        },
    );
}

/// The lines of a trap frame that a bugcheck names: the frame, or why there is none.
pub open spec fn carried(tf: BugcheckTrapFrame) -> Seq<Seq<char>> {
    match tf.frame {
        Some(frame) => trap_shown(
            frame,
            match tf.rip_symbol {
                Some(symbol) => Some(symbol@),
                None => None,
            },
        ),
        None => seq![
            spec_bold("trap frame"@) + " @ "@ + spec_addr(tf.address) + " (unable to decode: "@ + (
            match tf.error {
                Some(error) => error@,
                None => "unknown error"@,
            }) + ")"@,
        ],
    }
}

proof fn lemma_trap(tf: BugcheckTrapFrame)
    ensures
        trap_lines(tf) == carried(tf),
{
    if let Some(frame) = tf.frame {
        lemma_ktrap(frame, crate::text::text_opt(tf.rip_symbol));
    } else {
        assert(trap_lines(tf) =~= carried(tf));
    }
}

/// A trap frame that a bugcheck names is shown, or its address and why it could not be
/// decoded.
pub proof fn law_carried_trap_frame_is_shown(tf: BugcheckTrapFrame, r: Vec<String>)
    requires
        call_ensures(print_bugcheck_trap_frame, (&tf,), r),
    ensures
        texts(r@) == carried(tf),
{
    lemma_trap(tf);
}

/// The line of a parameter, numbered from one.
pub open spec fn parameter(number: int, arg: BugcheckArg) -> Seq<char> {
    "  arg"@ + dec(number as nat) + " "@ + spec_addr(arg.value) + (if arg.description@.len() > 0 {
        "  "@ + arg.description@
    } else {
        Seq::empty()
    })
}

proof fn lemma_args(lines: Seq<Seq<char>>, args: Seq<BugcheckArg>, n: nat)
    requires
        n <= args.len(),
    ensures
        arg_lines(lines, args, n) == lines + Seq::new(n, |i: int| parameter(i + 1, args[i])),
    decreases n,
{
    if n > 0 {
        lemma_args(lines, args, (n - 1) as nat);
        assert(crate::repl::bugcheck::arg_line(n as int, args[n - 1]) =~= parameter(
            n as int,
            args[n - 1],
        ));
    }
    assert(arg_lines(lines, args, n) =~= lines + Seq::new(n, |i: int| parameter(i + 1, args[i])));
}

/// The lines of the first `n` trap frames, each behind an empty line.
pub open spec fn all_carried(frames: Seq<BugcheckTrapFrame>, n: nat) -> Seq<Seq<char>>
    decreases n,
{
    if n == 0 {
        Seq::empty()
    } else {
        all_carried(frames, (n - 1) as nat) + seq![""@] + carried(frames[n - 1])
    }
}

proof fn lemma_frames(lines: Seq<Seq<char>>, frames: Seq<BugcheckTrapFrame>, n: nat)
    requires
        n <= frames.len(),
    ensures
        frames_lines(lines, frames, n) == lines + all_carried(frames, n),
    decreases n,
{
    if n > 0 {
        lemma_frames(lines, frames, (n - 1) as nat);
        lemma_trap(frames[n - 1]);
    }
    assert(frames_lines(lines, frames, n) =~= lines + all_carried(frames, n));
}

/// The lines of a decoded bugcheck.
pub open spec fn decoded(a: BugcheckAnalysis) -> Seq<Seq<char>> {
    seq![""@, spec_bold(spec_red(a.name@ + " (0x"@ + hex_padded(a.code as nat, 8) + ")"@))]
        + if_any(
        "  module: "@,
        match a.driver {
            Some(driver) => Some(spec_green(driver@)),
            None => None,
        },
    ) + if_any(
        "  fault: "@,
        match a.fault {
            Some(fault) => Some(blame(fault)),
            None => None,
        },
    ) + if_any(
        "  reason: "@,
        match a.description {
            Some(reason) => Some(reason@),
            None => None,
        },
    ) + seq![""@, spec_bold("args"@)] + Seq::new(
        a.args@.len(),
        |i: int| parameter(i + 1, a.args@[i]),
    ) + if_any(
        "  source: "@,
        match a.source {
            Some(source) => Some(spec_bright_black(source@)),
            None => None,
        },
    ) + all_carried(a.trap_frames@, a.trap_frames@.len())
}

proof fn lemma_decoded(a: BugcheckAnalysis)
    ensures
        analysis_lines(a) == decoded(a),
{
    if let Some(fault) = a.fault {
        lemma_blame(fault);
    }
    let head = banner_lines(a);
    lemma_args(head, a.args@, a.args@.len());
    let args = Seq::new(a.args@.len(), |i: int| parameter(i + 1, a.args@[i]));
    let source = if_any(
        "  source: "@,
        match a.source {
            Some(source) => Some(spec_bright_black(source@)),
            None => None,
        },
    );
    let lines = head + args + source;
    lemma_frames(lines, a.trap_frames@, a.trap_frames@.len());
    assert(crate::repl::bugcheck::with_line(
        head + args,
        "  source: "@,
        match a.source {
            Some(source) => Some(spec_bright_black(source@)),
            None => None,
        },
    ) =~= lines);
    assert(head =~= seq![
        ""@,
        spec_bold(spec_red(a.name@ + " (0x"@ + hex_padded(a.code as nat, 8) + ")"@)),
    ] + if_any(
        "  module: "@,
        match a.driver {
            Some(driver) => Some(spec_green(driver@)),
            None => None,
        },
    ) + if_any(
        "  fault: "@,
        match a.fault {
            Some(fault) => Some(blame(fault)),
            None => None,
        },
    ) + if_any(
        "  reason: "@,
        match a.description {
            Some(reason) => Some(reason@),
            None => None,
        },
    ) + seq![""@, spec_bold("args"@)]);
}

/// A decoded bugcheck is shown whole: name and code, module, blamed instruction and
/// reason, its parameters, their source, and its trap frames, as far as there are such.
pub proof fn law_bugcheck_is_shown(a: BugcheckAnalysis, r: Vec<String>)
    requires
        call_ensures(print_bugcheck_analysis, (&a,), r),
    ensures
        texts(r@) == decoded(a),
{
    lemma_decoded(a);
}

/// Five slots of data in hex.
pub open spec fn slots(label: Seq<char>, d: Seq<u64>) -> Seq<char> {
    spec_bold("bugcheck:"@) + " "@ + label + " = ["@ + hex_prefixed(d[0] as nat) + ", "@
        + hex_prefixed(d[1] as nat) + ", "@ + hex_prefixed(d[2] as nat) + ", "@ + hex_prefixed(
        d[3] as nat,
    ) + ", "@ + hex_prefixed(d[4] as nat) + "]"@
}

/// Data that could not be made sense of: where it lies and why, and what was read.
pub open spec fn senseless(failure: CurrentBugcheckFailure) -> Seq<Seq<char>> {
    seq![
        spec_bold("bugcheck:"@) + " unable to resolve nt!KiBugCheckData at "@ + hex_prefixed(
            failure.address as nat,
        ) + ": "@ + failure.reason@,
    ] + (match failure.slots {
        Some(data) => seq![slots("raw slots"@, data@)],
        None => Seq::empty(),
    }) + (match failure.dereferenced_slots {
        Some(data) => seq![slots("dereferenced slots"@, data@)],
        None => Seq::empty(),
    })
}

proof fn lemma_senseless(failure: CurrentBugcheckFailure)
    ensures
        unresolved_lines(failure) == senseless(failure),
{
    assert(unresolved_lines(failure) =~= senseless(failure));
}

/// Bugcheck data that could not be made sense of is shown raw, as far as it was read.
pub proof fn law_senseless_data_is_shown(failure: CurrentBugcheckFailure, r: Vec<String>)
    requires
        call_ensures(print_unresolved_bugcheck_data, (&failure,), r),
    ensures
        texts(r@) == senseless(failure),
{
    lemma_senseless(failure);
}

/// A bugcheck is summarised from what the transport reported; only where it reported
/// nothing, from what memory holds: decoded, or raw, or word that its symbol is missing.
pub proof fn law_bugcheck_summary<
    B,
    A: FnOnce(&B) -> BugcheckAnalysis,
    F: FnOnce() -> CurrentBugcheckResolution,
>(info: Option<&B>, analyze: A, resolve: F, r: Vec<String>)
    requires
        call_ensures(print_bugcheck_summary::<B, A, F>, (info, analyze, resolve), r),
    ensures
        info matches Some(info) ==> exists|a: BugcheckAnalysis| #[trigger]
            call_ensures(analyze, (info,), a) && texts(r@) == decoded(a),
        info is None ==> exists|found: CurrentBugcheckResolution| #[trigger]
            call_ensures(resolve, (), found) && texts(r@) == (match found {
                CurrentBugcheckResolution::Resolved(a) => decoded(a),
                CurrentBugcheckResolution::SymbolUnavailable => seq![
                    spec_bold("bugcheck:"@)
                        + " guest is bugchecking (symbol nt!KiBugCheckData unavailable)"@,
                ],
                CurrentBugcheckResolution::Unresolved(failure) => senseless(failure),
            }),
{
    match info {
        Some(info) => {
            let a = choose|a: BugcheckAnalysis| #[trigger]
                call_ensures(analyze, (info,), a) && texts(r@) == analysis_lines(a);
            lemma_decoded(a);
        },
        None => {
            let found = choose|found: CurrentBugcheckResolution| #[trigger]
                call_ensures(resolve, (), found) && texts(r@) == resolution_lines(found);
            match found {
                CurrentBugcheckResolution::Resolved(a) => {
                    lemma_decoded(a);
                },
                CurrentBugcheckResolution::SymbolUnavailable => {
                    assert(resolution_lines(found) =~= seq![
                        spec_bold("bugcheck:"@)
                            + " guest is bugchecking (symbol nt!KiBugCheckData unavailable)"@,
                    ]);
                },
                CurrentBugcheckResolution::Unresolved(failure) => {
                    lemma_senseless(failure);
                },
            }
        },
    }
}

} // verus!
