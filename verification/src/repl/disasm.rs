//! Listings: sections, event details, registers, instructions, stack frames.
use crate::error::Error;
use crate::gdb::breakpoints::BreakpointManager;
use crate::gdb::install::space_of;
use crate::memory::{zero_buffer, zeroes, AddressSpace, MemoryOps};
use crate::target::Target;
use crate::text::{
    append_lines, begins, chars, dec, decimal, join, joined, lines_of, no_lines, pad_right,
    padded_right, push_line, split_lines, starts_with, text, text_opt, texts,
};
use crate::types::{Dtb, PhysAddr, VirtAddr};
use crate::ui;
use crate::ui::{
    bold, bright_black, spec_addr, spec_bold, spec_bright_black, spec_label, spec_muted,
    spec_symbol, spec_yellow, yellow,
};
use vstd::prelude::*;
use vstd::string::*;

verus! {

/// The lines of a section heading.
pub open spec fn section_lines(title: Seq<char>) -> Seq<Seq<char>> {
    Seq::empty().push(""@).push(spec_label(title))
}

/// The lines of a section heading: an empty one and the title.
pub fn print_section(title: &str) -> (r: Vec<String>)
    ensures
        texts(r@) == section_lines(title@),
{
    let mut out = no_lines();
    push_line(&mut out, text(""));
    push_line(&mut out, ui::label(title));
    out
}

/// Begin a stop block: a blank line. The single seam marking every
/// stop-output entry point, in case a heavier delimiter is ever wanted.
pub fn print_stop_separator() -> (r: Vec<String>)
    ensures
        texts(r@) == Seq::empty().push(""@),
{
    let mut out = no_lines();
    push_line(&mut out, text(""));
    out
}

/// The first line of a child of an event.
pub open spec fn child_head(indent: Seq<char>, line: Seq<char>, last: bool) -> Seq<char> {
    indent + spec_muted(
        if last {
            "╰─"@
        } else {
            "├─"@
        },
    ) + " "@ + line
}

/// A further line of a child of an event.
pub open spec fn child_tail(indent: Seq<char>, line: Seq<char>, last: bool) -> Seq<char> {
    if last {
        indent + "   "@ + line
    } else {
        indent + spec_muted("│"@) + "  "@ + line
    }
}

/// The lines of one child of an event.
pub open spec fn child_lines(indent: Seq<char>, child: Seq<char>, last: bool) -> Seq<Seq<char>> {
    let lines = lines_of(child);
    Seq::new(
        lines.len(),
        |i: int|
            if i == 0 {
                child_head(indent, lines[i], last)
            } else {
                child_tail(indent, lines[i], last)
            },
    )
}

/// The lines of the first `n` children of an event.
pub open spec fn children_lines(indent: Seq<char>, children: Seq<Seq<char>>, n: nat) -> Seq<
    Seq<char>,
>
    decreases n,
{
    if n == 0 {
        Seq::empty()
    } else {
        children_lines(indent, children, (n - 1) as nat) + child_lines(
            indent,
            children[n - 1],
            n == children.len(),
        )
    }
}

fn child_of_event(indent: &str, child: &str, last: bool) -> (r: Vec<String>)
    ensures
        texts(r@) == child_lines(indent@, child@, last),
{
    let lines = split_lines(child);
    let ghost wanted = child_lines(indent@, child@, last);
    let mut out = no_lines();
    let mut i: usize = 0;
    assert(wanted.take(0) =~= Seq::<Seq<char>>::empty());
    assert(texts(lines@).len() == lines@.len());
    while i < lines.len()
        invariant
            i <= lines@.len(),
            texts(lines@) == lines_of(child@),
            texts(lines@).len() == lines@.len(),
            wanted == child_lines(indent@, child@, last),
            texts(out@) == wanted.take(i as int),
        decreases lines@.len() - i,
    {
        assert(lines_of(child@)[i as int] == lines@[i as int]@);
        let line = if i == 0 {
            let glyph = if last {
                "╰─"
            } else {
                "├─"
            };
            text(indent).concat(ui::muted(glyph).as_str()).concat(" ").concat(lines[i].as_str())
        } else if last {
            text(indent).concat("   ").concat(lines[i].as_str())
        } else {
            text(indent).concat(ui::muted("│").as_str()).concat("  ").concat(lines[i].as_str())
        };
        push_line(&mut out, line);
        i += 1;
        assert(wanted.take(i as int) =~= wanted.take(i - 1).push(wanted[i - 1]));
    }
    assert(wanted.take(i as int) =~= wanted);
    out
}

/// The detail lines attached to an event banner: muted `├─` for middle
/// children, `╰─` for the last. `indent` is 1 space below a badge banner,
/// 4 spaces for a nested level; it is never derived from the badge width.
///
/// Children may contain `\n` (see [`wrap_prose`]): continuation lines get a
/// `│` gutter while the branch continues, bare spaces after the last child.
pub fn print_event_children(indent: &str, children: &[String]) -> (r: Vec<String>)
    ensures
        texts(r@) == children_lines(indent@, texts(children@), children@.len()),
{
    let mut out = no_lines();
    let mut i: usize = 0;
    while i < children.len()
        invariant
            i <= children@.len(),
            texts(out@) == children_lines(indent@, texts(children@), i as nat),
        decreases children@.len() - i,
    {
        assert(texts(children@)[i as int] == children@[i as int]@);
        assert(texts(children@).len() == children@.len());
        let more = child_of_event(indent, children[i].as_str(), i + 1 == children.len());
        append_lines(&mut out, more);
        i += 1;
    }
    out
}

/// The lines that wrapping a text at a width gives.
pub uninterp spec fn wrapped_lines(text: Seq<char>, width: int) -> Seq<Seq<char>>;

/// `textwrap::wrap` with the default options: named, not described. Its result
/// depends on the text and the width alone.
#[verifier::external_body]
fn wrap(text: &str, width: usize) -> (r: Vec<String>)
    ensures
        texts(r@) == wrapped_lines(text@, width as int),
{
    textwrap::wrap(text, width).into_iter().map(|line| line.into_owned()).collect()
}

/// The width that prose starting at column `col` gets on a terminal of this
/// width: what is left of it, at most 100; nothing where less than 20 is left.
pub open spec fn prose_width(terminal: Option<u16>, col: int) -> Option<int> {
    match terminal {
        None => None,
        Some(w) => {
            let left = if w >= col {
                w - col
            } else {
                0
            };
            if left < 20 {
                None
            } else if left > 100 {
                Some(100)
            } else {
                Some(left)
            }
        },
    }
}

/// The width that prose starting at column `col` gets.
pub fn prose_columns(terminal: Option<u16>, col: usize) -> (r: Option<usize>)
    ensures
        match prose_width(terminal, col as int) {
            Some(width) => r matches Some(v) && v == width,
            None => r is None,
        },
{
    match terminal {
        None => None,
        Some(w) => {
            let columns: usize = w as usize;
            let left: usize = if columns >= col {
                columns - col
            } else {
                0
            };
            let width: usize = if left > 100 {
                100
            } else {
                left
            };
            if width < 20 {
                None
            } else {
                Some(width)
            }
        },
    }
}

/// Wrap plain prose for display starting at terminal column `col`, capped at
/// 100 columns of prose. `terminal` is the terminal's width. Returns a single
/// line when stdout is not a terminal (piped output wants one line per field)
/// or the terminal is too narrow. Wrap before styling; width math over ANSI
/// escapes miscounts.
pub fn wrap_prose(prose: &str, col: usize, terminal: Option<u16>) -> (r: Vec<String>)
    ensures
        texts(r@) == match prose_width(terminal, col as int) {
            Some(width) => wrapped_lines(prose@, width),
            None => Seq::empty().push(prose@),
        },
{
    match prose_columns(terminal, col) {
        Some(width) => wrap(prose, width),
        None => {
            let mut out = no_lines();
            push_line(&mut out, text(prose));
            out
        },
    }
}

/// The names so far, and this one where its bit is set.
pub open spec fn with_flag(
    names: Seq<Seq<char>>,
    flags: u64,
    bit: u64,
    name: Seq<char>,
) -> Seq<Seq<char>> {
    if flags & (1u64 << bit) != 0 {
        names.push(name)
    } else {
        names
    }
}

/// The names of the flags that are set, from the lowest bit up, and then the
/// I/O privilege level unless it is zero.
pub open spec fn rflag_names(flags: u64) -> Seq<Seq<char>> {
    let names = Seq::<Seq<char>>::empty();
    let names = with_flag(names, flags, 0, "CF"@);
    let names = with_flag(names, flags, 2, "PF"@);
    let names = with_flag(names, flags, 4, "AF"@);
    let names = with_flag(names, flags, 6, "ZF"@);
    let names = with_flag(names, flags, 7, "SF"@);
    let names = with_flag(names, flags, 8, "TF"@);
    let names = with_flag(names, flags, 9, "IF"@);
    let names = with_flag(names, flags, 10, "DF"@);
    let names = with_flag(names, flags, 11, "OF"@);
    let names = with_flag(names, flags, 14, "NT"@);
    let names = with_flag(names, flags, 16, "RF"@);
    let names = with_flag(names, flags, 17, "VM"@);
    let names = with_flag(names, flags, 18, "AC"@);
    let names = with_flag(names, flags, 19, "VIF"@);
    let names = with_flag(names, flags, 20, "VIP"@);
    let names = with_flag(names, flags, 21, "ID"@);
    let iopl = (flags >> 12) & 0x3;
    if iopl == 0 {
        names
    } else if iopl == 1 {
        names.push("IOPL1"@)
    } else if iopl == 2 {
        names.push("IOPL2"@)
    } else {
        names.push("IOPL3"@)
    }
}

/// How flags are shown: nothing where none is set.
pub open spec fn spec_rflags(flags: u64) -> Seq<char> {
    if rflag_names(flags).len() == 0 {
        ""@
    } else {
        " ["@ + joined(rflag_names(flags), " "@) + "]"@
    }
}

fn push_flag(names: &mut Vec<String>, flags: u64, bit: u64, name: &str)
    requires
        bit < 64,
    ensures
        texts(final(names)@) == with_flag(texts(old(names)@), flags, bit, name@),
{
    if flags & (1u64 << bit) != 0 {
        push_line(names, text(name));
    }
}

/// The processor flags that are set, by name.
pub fn format_rflags(flags: u64) -> (r: String)
    ensures
        r@ == spec_rflags(flags),
{
    let mut names = no_lines();
    push_flag(&mut names, flags, 0, "CF");
    push_flag(&mut names, flags, 2, "PF");
    push_flag(&mut names, flags, 4, "AF");
    push_flag(&mut names, flags, 6, "ZF");
    push_flag(&mut names, flags, 7, "SF");
    push_flag(&mut names, flags, 8, "TF");
    push_flag(&mut names, flags, 9, "IF");
    push_flag(&mut names, flags, 10, "DF");
    push_flag(&mut names, flags, 11, "OF");
    push_flag(&mut names, flags, 14, "NT");
    push_flag(&mut names, flags, 16, "RF");
    push_flag(&mut names, flags, 17, "VM");
    push_flag(&mut names, flags, 18, "AC");
    push_flag(&mut names, flags, 19, "VIF");
    push_flag(&mut names, flags, 20, "VIP");
    push_flag(&mut names, flags, 21, "ID");
    let iopl: u64 = (flags >> 12) & 0x3;
    if iopl != 0 {
        let name = if iopl == 1 {
            "IOPL1"
        } else if iopl == 2 {
            "IOPL2"
        } else {
            "IOPL3"
        };
        push_line(&mut names, text(name));
    }
    assert(texts(names@) == rflag_names(flags));
    assert(texts(names@).len() == names@.len());
    if names.len() == 0 {
        text("")
    } else {
        text(" [").concat(join(names.as_slice(), " ").as_str()).concat("]")
    }
}

/// The general-purpose registers; nothing for one that cannot be read.
#[derive(Debug, Clone, Copy)]
pub struct Registers {
    pub rax: Option<u64>,
    pub rbx: Option<u64>,
    pub rcx: Option<u64>,
    pub rdx: Option<u64>,
    pub rsi: Option<u64>,
    pub rdi: Option<u64>,
    pub rsp: Option<u64>,
    pub rbp: Option<u64>,
    pub rip: Option<u64>,
    pub r8: Option<u64>,
    pub r9: Option<u64>,
    pub r10: Option<u64>,
    pub r11: Option<u64>,
    pub r12: Option<u64>,
    pub r13: Option<u64>,
    pub r14: Option<u64>,
    pub r15: Option<u64>,
    pub eflags: Option<u64>,
}

/// How the value of a register is shown.
pub open spec fn register_value(value: Option<u64>) -> Seq<char> {
    match value {
        Some(v) => spec_addr(v),
        None => spec_muted(padded_right("N/A"@, 16)),
    }
}

/// How a register is shown.
pub open spec fn register_cell(name: Seq<char>, value: Option<u64>) -> Seq<char> {
    spec_muted(padded_right(name, 3)) + " "@ + register_value(value)
}

/// A row of the register grid.
pub open spec fn register_row(
    indent: Seq<char>,
    a: Seq<char>,
    b: Seq<char>,
    c: Seq<char>,
) -> Seq<char> {
    indent + a + "   "@ + b + "   "@ + c
}

/// The rows of the register grid.
pub open spec fn register_rows(regs: Registers, indent: Seq<char>) -> Seq<Seq<char>> {
    Seq::empty()
        .push(register_row(indent, register_cell("rax"@, regs.rax), register_cell("rbx"@, regs.rbx), register_cell("rcx"@, regs.rcx)))
        .push(register_row(indent, register_cell("rdx"@, regs.rdx), register_cell("rsi"@, regs.rsi), register_cell("rdi"@, regs.rdi)))
        .push(register_row(indent, register_cell("rsp"@, regs.rsp), register_cell("rbp"@, regs.rbp), register_cell("rip"@, regs.rip)))
        .push(register_row(indent, register_cell("r8"@, regs.r8), register_cell("r9"@, regs.r9), register_cell("r10"@, regs.r10)))
        .push(register_row(indent, register_cell("r11"@, regs.r11), register_cell("r12"@, regs.r12), register_cell("r13"@, regs.r13)))
        .push(
            indent + register_cell("r14"@, regs.r14) + "   "@ + register_cell("r15"@, regs.r15)
                + "   "@ + spec_muted("rfl"@) + " "@ + register_value(regs.eflags) + spec_rflags(
                match regs.eflags {
                    Some(v) => v,
                    None => 0,
                },
            ),
        )
}

/// The lines of the register grid.
pub open spec fn register_lines(regs: Registers, embedded: bool) -> Seq<Seq<char>> {
    if embedded {
        section_lines("registers"@) + register_rows(regs, "  "@)
    } else {
        register_rows(regs, ""@)
    }
}

fn styled_value(value: Option<u64>) -> (r: String)
    ensures
        r@ == register_value(value),
{
    match value {
        Some(v) => ui::addr(v),
        None => ui::muted(pad_right("N/A", 16).as_str()),
    }
}

fn cell(name: &str, value: Option<u64>) -> (r: String)
    ensures
        r@ == register_cell(name@, value),
{
    ui::muted(pad_right(name, 3).as_str()).concat(" ").concat(styled_value(value).as_str())
}

fn row(indent: &str, a: String, b: String, c: String) -> (r: String)
    ensures
        r@ == register_row(indent@, a@, b@, c@),
{
    text(indent).concat(a.as_str()).concat("   ").concat(b.as_str()).concat("   ").concat(
        c.as_str(),
    )
}

/// The general-purpose register grid. `embedded` is true inside the
/// break/status dump (`registers` section header, 2-space indent); standalone
/// `registers` passes false so it reads flush-left with no header, matching
/// `disasm`.
pub fn print_registers(regs: &Registers, embedded: bool) -> (r: Vec<String>)
    ensures
        texts(r@) == register_lines(*regs, embedded),
{
    let indent = if embedded {
        "  "
    } else {
        ""
    };
    let mut rows = no_lines();
    push_line(&mut rows, row(indent, cell("rax", regs.rax), cell("rbx", regs.rbx), cell("rcx", regs.rcx)));
    push_line(&mut rows, row(indent, cell("rdx", regs.rdx), cell("rsi", regs.rsi), cell("rdi", regs.rdi)));
    push_line(&mut rows, row(indent, cell("rsp", regs.rsp), cell("rbp", regs.rbp), cell("rip", regs.rip)));
    push_line(&mut rows, row(indent, cell("r8", regs.r8), cell("r9", regs.r9), cell("r10", regs.r10)));
    push_line(&mut rows, row(indent, cell("r11", regs.r11), cell("r12", regs.r12), cell("r13", regs.r13)));
    let rflags: u64 = match regs.eflags {
        Some(v) => v,
        None => 0,
    };
    let last = text(indent).concat(cell("r14", regs.r14).as_str()).concat("   ").concat(
        cell("r15", regs.r15).as_str(),
    ).concat("   ").concat(ui::muted("rfl").as_str()).concat(" ").concat(
        styled_value(regs.eflags).as_str(),
    ).concat(format_rflags(rflags).as_str());
    push_line(&mut rows, last);
    if embedded {
        let mut out = print_section("registers");
        append_lines(&mut out, rows);
        out
    } else {
        rows
    }
}

/// The number of bytes of a text.
pub open spec fn byte_width(s: Seq<char>) -> usize {
    vstd::utf8::encode_utf8(s).len() as usize
}

/// A disassembled instruction. `code` is its text as shown.
#[derive(Debug)]
pub struct DisasmRow {
    pub ip: u64,
    pub hex: String,
    pub code: String,
    pub comment: Option<String>,
}

/// Width of the byte column for a listing: the longest hex string among the
/// rows about to be printed, so the code column always aligns and never gets
/// pushed right by a long (up to 15-byte) instruction.
pub fn hex_column_width(hexes: &[&str]) -> (r: usize)
    ensures
        forall|i: int| 0 <= i < hexes@.len() ==> byte_width((#[trigger] hexes@[i])@) <= r,
        hexes@.len() == 0 ==> r == 0,
        hexes@.len() > 0 ==> exists|i: int|
            0 <= i < hexes@.len() && byte_width((#[trigger] hexes@[i])@) == r,
{
    let mut widest: usize = 0;
    let mut i: usize = 0;
    while i < hexes.len()
        invariant
            i <= hexes@.len(),
            forall|k: int| 0 <= k < i ==> byte_width((#[trigger] hexes@[k])@) <= widest,
            i == 0 ==> widest == 0,
            i > 0 ==> exists|k: int| 0 <= k < i && byte_width((#[trigger] hexes@[k])@) == widest,
        decreases hexes@.len() - i,
    {
        let len: usize = hexes[i].len();
        if len >= widest {
            widest = len;
            assert(byte_width(hexes@[i as int]@) == widest);
        }
        i += 1;
    }
    widest
}

/// The cursor column of a listing: nothing for a plain listing, else a yellow
/// `>` on the current instruction.
pub open spec fn cursor_column(marker: Option<bool>) -> Seq<char> {
    match marker {
        Some(true) => " "@ + spec_bold(spec_yellow(">"@)) + " "@,
        Some(false) => "   "@,
        None => ""@,
    }
}

/// The comment of a disassembly line.
pub open spec fn comment_column(comment: Option<Seq<char>>) -> Seq<char> {
    match comment {
        Some(sym) => " "@ + spec_muted(";"@) + " "@ + spec_symbol(sym),
        None => ""@,
    }
}

/// A disassembly line.
pub open spec fn disasm_line(
    ip: u64,
    hex: Seq<char>,
    code: Seq<char>,
    comment: Option<Seq<char>>,
    marker: Option<bool>,
    hex_width: nat,
) -> Seq<char> {
    cursor_column(marker) + spec_addr(ip) + "  "@ + spec_bright_black(padded_right(hex, hex_width))
        + "  "@ + code + comment_column(comment)
}

/// Render one disassembly line: yellow `>` cursor on the current
/// instruction, dim bytes, dim `;` comment with symbol. The single source of
/// truth for a disassembled instruction, shared by both call sites.
///
/// `hex_width` is the byte column width, computed per listing via
/// [`hex_column_width`] so the code column stays aligned without overfilling.
pub fn format_disasm_line(
    ip: u64,
    hex: &str,
    code: &str,
    comment: Option<&str>,
    marker: Option<bool>,
    hex_width: usize,
) -> (r: String)
    ensures
        r@ == disasm_line(
            ip,
            hex@,
            code@,
            match comment {
                Some(sym) => Some(sym@),
                None => None,
            },
            marker,
            hex_width as nat,
        ),
{
    // `marker` is None for a plain listing (no cursor column); Some(current) for
    // the break/status view, where the current instruction gets a yellow `>`
    let prefix = match marker {
        Some(true) => text(" ").concat(bold(yellow(">").as_str()).as_str()).concat(" "),
        Some(false) => text("   "),
        None => text(""),
    };
    let bytes = bright_black(pad_right(hex, hex_width).as_str());
    let comment = match comment {
        Some(sym) => text(" ").concat(ui::muted(";").as_str()).concat(" ").concat(
            ui::symbol(sym).as_str(),
        ),
        None => text(""),
    };
    prefix.concat(ui::addr(ip).as_str()).concat("  ").concat(bytes.as_str()).concat("  ").concat(
        code,
    ).concat(comment.as_str())
}

/// Whether `width` is the width of the byte column of these rows.
pub open spec fn is_hex_width(rows: Seq<DisasmRow>, width: nat) -> bool {
    &&& forall|i: int| 0 <= i < rows.len() ==> byte_width((#[trigger] rows[i]).hex@) <= width
    &&& rows.len() == 0 ==> width == 0
    &&& rows.len() > 0 ==> exists|i: int|
        0 <= i < rows.len() && byte_width((#[trigger] rows[i]).hex@) == width
}

/// A text has at least as many bytes as characters.
proof fn lemma_bytes_cover_chars(s: Seq<char>)
    ensures
        s.len() <= vstd::utf8::encode_utf8(s).len(),
    decreases s.len(),
{
    if s.len() > 0 {
        lemma_bytes_cover_chars(s.drop_first());
    }
}

/// The code column of a listing aligns: the byte column is as wide on every row
/// as the listing says, and so is never pushed right by a long instruction. (No
/// text has more bytes than the machine can count.)
pub proof fn law_code_column_aligns(rows: Seq<DisasmRow>, width: nat, i: int)
    requires
        is_hex_width(rows, width),
        0 <= i < rows.len(),
        vstd::utf8::encode_utf8(rows[i].hex@).len() <= usize::MAX,
    ensures
        padded_right(rows[i].hex@, width).len() == width,
{
    lemma_bytes_cover_chars(rows[i].hex@);
}

/// The lines of a listing with these cursor states and a byte column of this
/// width.
pub open spec fn row_lines(
    rows: Seq<DisasmRow>,
    marks: Seq<Option<bool>>,
    width: nat,
) -> Seq<Seq<char>> {
    Seq::new(
        rows.len(),
        |i: int|
            disasm_line(
                rows[i].ip,
                rows[i].hex@,
                rows[i].code@,
                text_opt(rows[i].comment),
                marks[i],
                width,
            ),
    )
}

/// Whether `lines` is the listing of these rows with these cursor states.
pub open spec fn is_listing(
    rows: Seq<DisasmRow>,
    marks: Seq<Option<bool>>,
    lines: Seq<Seq<char>>,
) -> bool {
    exists|width: nat| #[trigger]
        is_hex_width(rows, width) && lines == row_lines(rows, marks, width)
}

/// Whether these may be the cursor states that `marker_for` gives the rows.
pub open spec fn may_mark<F: Fn(u64) -> Option<bool>>(
    rows: Seq<DisasmRow>,
    marker_for: F,
    marks: Seq<Option<bool>>,
) -> bool {
    &&& marks.len() == rows.len()
    &&& forall|i: int|
        0 <= i < rows.len() ==> call_ensures(marker_for, (rows[i].ip,), #[trigger] marks[i])
}

/// Decoded rows in the house style, sizing the byte column once across all
/// rows so the code column aligns. `marker_for` gives each row its cursor
/// state: `None` for a plain listing (`disasm`), `Some(current)` for the
/// break/status view where the current instruction gets a `>`.
pub fn render_rows<F: Fn(u64) -> Option<bool>>(rows: &[DisasmRow], marker_for: F) -> (r: Vec<
    String,
>)
    requires
        forall|ip: u64| call_requires(marker_for, (ip,)),
    ensures
        exists|marks: Seq<Option<bool>>| #[trigger]
            may_mark(rows@, marker_for, marks) && is_listing(rows@, marks, texts(r@)),
{
    let mut hexes: Vec<&str> = Vec::new();
    let mut n: usize = 0;
    while n < rows.len()
        invariant
            n <= rows@.len(),
            hexes@.len() == n,
            forall|k: int| 0 <= k < n ==> (#[trigger] hexes@[k])@ == rows@[k].hex@,
        decreases rows@.len() - n,
    {
        hexes.push(rows[n].hex.as_str());
        n += 1;
    }
    let width: usize = hex_column_width(hexes.as_slice());
    proof {
        assert forall|i: int| 0 <= i < rows@.len() implies byte_width((#[trigger] rows@[i]).hex@)
            <= width by {
            assert(hexes@[i]@ == rows@[i].hex@);
        }
        if rows@.len() > 0 {
            let i = choose|i: int|
                0 <= i < hexes@.len() && byte_width((#[trigger] hexes@[i])@) == width;
            assert(byte_width(rows@[i].hex@) == width);
        }
        assert(is_hex_width(rows@, width as nat));
    }
    let mut out = no_lines();
    let ghost mut marks = Seq::<Option<bool>>::empty();
    let mut i: usize = 0;
    while i < rows.len()
        invariant
            i <= rows@.len(),
            forall|ip: u64| call_requires(marker_for, (ip,)),
            may_mark(rows@.take(i as int), marker_for, marks),
            texts(out@) == row_lines(rows@.take(i as int), marks, width as nat),
        decreases rows@.len() - i,
    {
        let row = &rows[i];
        let marker = marker_for(row.ip);
        let comment = match &row.comment {
            Some(sym) => Some(sym.as_str()),
            None => None,
        };
        let line = format_disasm_line(
            row.ip,
            row.hex.as_str(),
            row.code.as_str(),
            comment,
            marker,
            width,
        );
        push_line(&mut out, line);
        let ghost before = marks;
        proof {
            marks = marks.push(marker);
        }
        i += 1;
        assert(row_lines(rows@.take(i as int), marks, width as nat) =~= row_lines(
            rows@.take(i - 1),
            before,
            width as nat,
        ).push(line@));
    }
    assert(rows@.take(i as int) =~= rows@);
    out
}

/// Whether reading `len` bytes of code at an address may give `out`: through
/// the active page table, or where that fails through another one.
pub open spec fn may_fetch<M: MemoryOps<PhysAddr>>(
    target: &Target<M>,
    active: Dtb,
    code: Dtb,
    address: VirtAddr,
    len: nat,
    out: Option<Seq<u8>>,
) -> bool {
    exists|bytes: Seq<u8>, got: Result<(), Error>|
        {
            &&& #[trigger] space_of(target, active).may_read(address, zeroes(len), bytes, got)
            &&& bytes.len() == len
            &&& match got {
                Ok(_) => out == Some(bytes),
                Err(_) => if code == active {
                    out is None
                } else {
                    exists|other: Seq<u8>, again: Result<(), Error>|
                        {
                            &&& #[trigger] space_of(target, code).may_read(
                                address,
                                bytes,
                                other,
                                again,
                            )
                            &&& other.len() == len
                            &&& match again {
                                Ok(_) => out == Some(other),
                                Err(_) => out is None,
                            }
                        }
                },
            }
        }
}

fn fetch_code<M: MemoryOps<PhysAddr>>(
    target: &Target<M>,
    active: Dtb,
    code: Dtb,
    address: VirtAddr,
    len: usize,
) -> (r: Option<Vec<u8>>)
    ensures
        may_fetch(
            target,
            active,
            code,
            address,
            len as nat,
            match r {
                Some(bytes) => Some(bytes@),
                None => None,
            },
        ),
        r matches Some(bytes) ==> bytes@.len() == len,
{
    let mut bytes = zero_buffer(len);
    let active_memory = AddressSpace::new(&target.phys, active);
    let got = active_memory.read_bytes(address, bytes.as_mut_slice());
    let ghost first = bytes@;
    assert(space_of(target, active).may_read(address, zeroes(len as nat), first, got) && first.len()
        == len);
    match got {
        Ok(()) => return Some(bytes),
        Err(_) => {},
    }
    if code == active {
        return None;
    }
    let code_memory = AddressSpace::new(&target.phys, code);
    let again = code_memory.read_bytes(address, bytes.as_mut_slice());
    assert(space_of(target, code).may_read(address, first, bytes@, again) && bytes@.len() == len);
    match again {
        Ok(()) => Some(bytes),
        Err(_) => None,
    }
}

/// Whether `shown` is how bytes at an address are shown, with the breakpoints
/// in the address space of `cr3` hidden.
pub open spec fn is_masked<E>(
    breakpoints: &BreakpointManager<E>,
    address: VirtAddr,
    cr3: u64,
    bytes: Seq<u8>,
    shown: Seq<u8>,
) -> bool {
    &&& shown.len() == bytes.len()
    &&& forall|i: int|
        0 <= i < bytes.len() ==> breakpoints.may_show(
            address.spec_offset(i),
            cr3,
            bytes[i],
            #[trigger] shown[i],
        )
}

/// Whether decoding bytes at an address may give these rows.
pub open spec fn may_decode<D: Fn(&[u8], u64, Option<usize>) -> Vec<DisasmRow>>(
    decode: D,
    bytes: Seq<u8>,
    address: u64,
    limit: Option<usize>,
    rows: Seq<DisasmRow>,
) -> bool {
    exists|buf: &[u8], out: Vec<DisasmRow>| #[trigger]
        call_ensures(decode, (buf, address, limit), out) && buf@ == bytes && out@ == rows
}

/// Whether row `at` is the first one at an address.
pub open spec fn is_row_at(rows: Seq<DisasmRow>, ip: u64, at: int) -> bool {
    &&& 0 <= at < rows.len()
    &&& rows[at].ip == ip
    &&& forall|i: int| 0 <= i < at ==> (#[trigger] rows[i]).ip != ip
}

/// The cursor states of rows with the cursor at `rip`.
pub open spec fn marks_at(rows: Seq<DisasmRow>, rip: u64) -> Seq<Option<bool>> {
    Seq::new(rows.len(), |i: int| Some(rows[i].ip == rip))
}

fn render_rows_at(rows: &[DisasmRow], rip: u64) -> (r: Vec<String>)
    ensures
        is_listing(rows@, marks_at(rows@, rip), texts(r@)),
{
    let marker_for = |ip: u64| -> (mark: Option<bool>)
        ensures
            mark == Some(ip == rip),
        { Some(ip == rip) };
    let out = render_rows(rows, marker_for);
    proof {
        let marks = choose|marks: Seq<Option<bool>>| #[trigger]
            may_mark(rows@, marker_for, marks) && is_listing(rows@, marks, texts(out@));
        assert(marks =~= marks_at(rows@, rip));
    }
    out
}

/// The three rows before a row, the row, and the three after it, as far as
/// there are any.
pub open spec fn around(rows: Seq<DisasmRow>, at: int) -> Seq<DisasmRow> {
    rows.subrange(
        if at < 3 {
            0
        } else {
            at - 3
        },
        if at + 4 < rows.len() {
            at + 4
        } else {
            rows.len() as int
        },
    )
}

/// What is said where no code can be read.
pub open spec fn unreadable_line() -> Seq<char> {
    spec_bright_black("  (could not read memory at RIP)"@)
}

/// How many bytes are decoded on either side of the current instruction.
pub const CONTEXT_BYTES: u64 = 64;

/// Where decoding starts so as to come upon the instruction at `rip`.
pub open spec fn context_start(rip: u64) -> VirtAddr {
    VirtAddr(
        if rip < CONTEXT_BYTES {
            0
        } else {
            (rip - CONTEXT_BYTES) as u64
        },
    )
}

/// Whether the code around `rip` may be listed as `body`: the instructions
/// around it where decoding from a point before it comes upon it, else those
/// from it on.
pub open spec fn may_list_context<
    E,
    M: MemoryOps<PhysAddr>,
    D: Fn(&[u8], u64, Option<usize>) -> Vec<DisasmRow>,
>(
    target: &Target<M>,
    breakpoints: &BreakpointManager<E>,
    active: Dtb,
    code: Dtb,
    rip: u64,
    decode: D,
    body: Seq<Seq<char>>,
) -> bool {
    ||| may_fetch(target, active, code, context_start(rip), 128, None) && body
        == Seq::empty().push(unreadable_line())
    ||| exists|bytes: Seq<u8>, shown: Seq<u8>, rows: Seq<DisasmRow>|
        {
            &&& may_fetch(target, active, code, context_start(rip), 128, Some(bytes))
            &&& #[trigger] is_masked(breakpoints, context_start(rip), active, bytes, shown)
            &&& #[trigger] may_decode(decode, shown, context_start(rip).0, None, rows)
            &&& (forall|at: int|
                is_row_at(rows, rip, at) ==> #[trigger] is_listing(
                    around(rows, at),
                    marks_at(around(rows, at), rip),
                    body,
                ))
            &&& (forall|i: int| 0 <= i < rows.len() ==> (#[trigger] rows[i]).ip != rip)
                ==> may_list_forward(target, breakpoints, active, code, rip, decode, body)
        }
}

/// Whether the code from `rip` on may be listed as `body`.
pub open spec fn may_list_forward<
    E,
    M: MemoryOps<PhysAddr>,
    D: Fn(&[u8], u64, Option<usize>) -> Vec<DisasmRow>,
>(
    target: &Target<M>,
    breakpoints: &BreakpointManager<E>,
    active: Dtb,
    code: Dtb,
    rip: u64,
    decode: D,
    body: Seq<Seq<char>>,
) -> bool {
    ||| may_fetch(target, active, code, VirtAddr(rip), 64, None) && body == Seq::empty().push(
        unreadable_line(),
    )
    ||| exists|bytes: Seq<u8>, shown: Seq<u8>, rows: Seq<DisasmRow>|
        {
            &&& may_fetch(target, active, code, VirtAddr(rip), 64, Some(bytes))
            &&& #[trigger] is_masked(breakpoints, VirtAddr(rip), active, bytes, shown)
            &&& #[trigger] may_decode(decode, shown, rip, Some(7usize), rows)
            &&& is_listing(rows, marks_at(rows, rip), body)
        }
}

fn unreadable() -> (r: Vec<String>)
    ensures
        texts(r@) == Seq::empty().push(unreadable_line()),
{
    let mut out = no_lines();
    push_line(&mut out, bright_black("  (could not read memory at RIP)"));
    out
}

fn forward_listing<
    E,
    M: MemoryOps<PhysAddr>,
    D: Fn(&[u8], u64, Option<usize>) -> Vec<DisasmRow>,
>(
    debugger: &Target<M>,
    breakpoints: &BreakpointManager<E>,
    active: Dtb,
    code: Dtb,
    rip: u64,
    decode: &D,
) -> (r: Vec<String>)
    requires
        forall|buf: &[u8], address: u64, limit: Option<usize>|
            call_requires(*decode, (buf, address, limit)),
    ensures
        may_list_forward(debugger, breakpoints, active, code, rip, *decode, texts(r@)),
{
    match fetch_code(debugger, active, code, VirtAddr(rip), 64) {
        None => {
            assert(may_fetch(debugger, active, code, VirtAddr(rip), 64, None));
            unreadable()
        },
        Some(bytes) => {
            assert(may_fetch(debugger, active, code, VirtAddr(rip), 64, Some(bytes@)));
            let mut shown = bytes;
            let ghost before = shown@;
            breakpoints.mask_breakpoint_bytes(VirtAddr(rip), shown.as_mut_slice(), active);
            assert(is_masked(breakpoints, VirtAddr(rip), active, before, shown@));
            let rows = decode(shown.as_slice(), rip, Some(7usize));
            assert(may_decode(*decode, shown@, rip, Some(7usize), rows@));
            render_rows_at(rows.as_slice(), rip)
        },
    }
}

/// The `disasm` section of the break/status dump. `active` is the page table of
/// the stopped context and `code` the one preferred for code at `rip`; `decode`
/// decodes instructions at an address, at most so many.
pub fn print_disasm_context<
    E,
    M: MemoryOps<PhysAddr>,
    D: Fn(&[u8], u64, Option<usize>) -> Vec<DisasmRow>,
>(
    debugger: &Target<M>,
    breakpoints: &BreakpointManager<E>,
    active: Dtb,
    code: Dtb,
    rip: u64,
    decode: &D,
) -> (r: Vec<String>)
    requires
        forall|buf: &[u8], address: u64, limit: Option<usize>|
            call_requires(*decode, (buf, address, limit)),
    ensures
        exists|body: Seq<Seq<char>>| #[trigger]
            may_list_context(debugger, breakpoints, active, code, rip, *decode, body) && texts(r@)
                == section_lines("disasm"@) + body,
{
    let body = context_listing(debugger, breakpoints, active, code, rip, decode);
    let mut out = print_section("disasm");
    append_lines(&mut out, body);
    out
}

fn context_listing<
    E,
    M: MemoryOps<PhysAddr>,
    D: Fn(&[u8], u64, Option<usize>) -> Vec<DisasmRow>,
>(
    debugger: &Target<M>,
    breakpoints: &BreakpointManager<E>,
    active: Dtb,
    code: Dtb,
    rip: u64,
    decode: &D,
) -> (r: Vec<String>)
    requires
        forall|buf: &[u8], address: u64, limit: Option<usize>|
            call_requires(*decode, (buf, address, limit)),
    ensures
        may_list_context(debugger, breakpoints, active, code, rip, *decode, texts(r@)),
{
    let start: u64 = if rip < CONTEXT_BYTES {
        0
    } else {
        rip - CONTEXT_BYTES
    };
    let window = fetch_code(debugger, active, code, VirtAddr(start), 128);
    let bytes = match window {
        None => {
            assert(may_fetch(debugger, active, code, context_start(rip), 128, None));
            return unreadable();
        },
        Some(bytes) => bytes,
    };
    assert(may_fetch(debugger, active, code, context_start(rip), 128, Some(bytes@)));
    let mut shown = bytes;
    let ghost before = shown@;
    breakpoints.mask_breakpoint_bytes(VirtAddr(start), shown.as_mut_slice(), active);
    assert(is_masked(breakpoints, context_start(rip), active, before, shown@));
    let rows = decode(shown.as_slice(), start, None);
    assert(may_decode(*decode, shown@, context_start(rip).0, None, rows@));
    // find which instruction corresponds to RIP
    let mut at: usize = 0;
    while at < rows.len() && rows[at].ip != rip
        invariant
            at <= rows@.len(),
            forall|i: int| 0 <= i < at ==> (#[trigger] rows@[i]).ip != rip,
        decreases rows@.len() - at,
    {
        at += 1;
    }
    if at < rows.len() {
        let from: usize = if at < 3 {
            0
        } else {
            at - 3
        };
        let to: usize = if rows.len() - at > 4 {
            at + 4
        } else {
            rows.len()
        };
        let part = vstd::slice::slice_subrange(rows.as_slice(), from, to);
        assert(part@ =~= around(rows@, at as int));
        let out = render_rows_at(part, rip);
        assert(is_row_at(rows@, rip, at as int));
        assert forall|other: int| is_row_at(rows@, rip, other) implies #[trigger] is_listing(
            around(rows@, other),
            marks_at(around(rows@, other), rip),
            texts(out@),
        ) by {
            if other < at {
                assert(rows@[other].ip != rip);
            } else if other > at {
                assert(rows@[at as int].ip != rip);
            }
        }
        out
    } else {
        forward_listing(debugger, breakpoints, active, code, rip, decode)
    }
}

/// A stack frame. `symbol` is its address in hex where it has none; `scanned`
/// says that it was found by scanning the stack, not by unwinding.
#[derive(Debug)]
pub struct StackFrame {
    pub sp: u64,
    pub ip: u64,
    pub symbol: String,
    pub scanned: bool,
}

/// A stack trace: the frames found, and how many more were cut off.
#[derive(Debug)]
pub struct Stacktrace {
    pub frames: Vec<StackFrame>,
    pub truncated: usize,
}

/// The symbol column of a stack frame.
pub open spec fn frame_symbol(frame: StackFrame) -> Seq<char> {
    if begins(frame.symbol@, "0x"@) {
        ""@
    } else {
        "  "@ + spec_symbol(frame.symbol@) + (if frame.scanned {
            " "@ + spec_bright_black("[scan]"@)
        } else {
            ""@
        })
    }
}

/// The line of a stack frame.
pub open spec fn frame_line(num: int, frame: StackFrame, embedded: bool) -> Seq<char> {
    let number = spec_muted("#"@ + padded_right(dec(num as nat), 2));
    if embedded {
        "  "@ + number + " "@ + spec_addr(frame.ip) + frame_symbol(frame)
    } else {
        ""@ + number + " "@ + spec_addr(frame.sp) + "  "@ + spec_addr(frame.ip) + frame_symbol(
            frame,
        )
    }
}

/// The lines of the first `n` frames.
pub open spec fn frame_lines(frames: Seq<StackFrame>, embedded: bool, n: nat) -> Seq<Seq<char>>
    decreases n,
{
    if n == 0 {
        Seq::empty()
    } else {
        frame_lines(frames, embedded, (n - 1) as nat).push(
            frame_line(n - 1, frames[n - 1], embedded),
        )
    }
}

/// How many frames of a stack trace are shown under a limit.
pub open spec fn shown_frames(trace: Stacktrace, limit: int) -> int {
    if trace.frames@.len() < limit {
        trace.frames@.len() as int
    } else {
        limit
    }
}

/// How many frames of a stack trace are not shown under a limit, the ones that
/// were cut off before included.
pub open spec fn hidden_frames(trace: Stacktrace, limit: int) -> int {
    trace.frames@.len() - shown_frames(trace, limit) + trace.truncated
}

/// The lines of a stack trace of which at most `limit` frames are shown.
pub open spec fn stack_lines(trace: Stacktrace, limit: int, embedded: bool) -> Seq<Seq<char>> {
    let shown = shown_frames(trace, limit);
    let hidden = hidden_frames(trace, limit);
    let frames = (if embedded {
        section_lines("stack"@)
    } else {
        Seq::empty()
    }) + frame_lines(trace.frames@, embedded, shown as nat);
    if hidden > 0 {
        frames.push(
            (if embedded {
                "  "@
            } else {
                ""@
            }) + spec_bright_black("... "@ + dec(hidden as nat) + " more frames"@),
        )
    } else {
        frames
    }
}

fn stack_line(num: usize, frame: &StackFrame, embedded: bool) -> (r: String)
    ensures
        r@ == frame_line(num as int, *frame, embedded),
{
    let suffix = if frame.scanned {
        text(" ").concat(bright_black("[scan]").as_str())
    } else {
        text("")
    };
    let symbol = if starts_with(
        chars(frame.symbol.as_str()).as_slice(),
        chars("0x").as_slice(),
    ) {
        text("")
    } else {
        text("  ").concat(ui::symbol(frame.symbol.as_str()).as_str()).concat(suffix.as_str())
    };
    let number = ui::muted(
        text("#").concat(pad_right(decimal(num as u64).as_str(), 2).as_str()).as_str(),
    );
    if embedded {
        text("  ").concat(number.as_str()).concat(" ").concat(ui::addr(frame.ip).as_str()).concat(
            symbol.as_str(),
        )
    } else {
        text("").concat(number.as_str()).concat(" ").concat(ui::addr(frame.sp).as_str()).concat(
            "  ",
        ).concat(ui::addr(frame.ip).as_str()).concat(symbol.as_str())
    }
}

/// The stack frames. `embedded` is true inside the break/status dump: bold
/// `stack` header, 2-space indent, and no child-SP column (the return address
/// is the token you act on). Standalone `k` passes false: flush-left, full
/// child-SP + retaddr columns.
pub fn print_stacktrace(trace: &Stacktrace, display_limit: usize, embedded: bool) -> (r: Vec<
    String,
>)
    requires
        hidden_frames(*trace, display_limit as int) <= usize::MAX,
    ensures
        texts(r@) == stack_lines(*trace, display_limit as int, embedded),
{
    let total: usize = trace.frames.len();
    let shown: usize = if total < display_limit {
        total
    } else {
        display_limit
    };
    let mut rows = no_lines();
    let mut i: usize = 0;
    while i < shown
        invariant
            i <= shown <= trace.frames@.len(),
            texts(rows@) == frame_lines(trace.frames@, embedded, i as nat),
        decreases shown - i,
    {
        push_line(&mut rows, stack_line(i, &trace.frames[i], embedded));
        i += 1;
    }
    let mut out = if embedded {
        print_section("stack")
    } else {
        no_lines()
    };
    append_lines(&mut out, rows);
    let hidden: usize = (total - shown) + trace.truncated;
    if hidden > 0 {
        let indent = if embedded {
            "  "
        } else {
            ""
        };
        let note = bright_black(
            text("... ").concat(decimal(hidden as u64).as_str()).concat(" more frames").as_str(),
        );
        push_line(&mut out, text(indent).concat(note.as_str()));
    }
    out
}

} // verus!
