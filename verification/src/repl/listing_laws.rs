//! What listings of instructions and stack frames hold, row by row.
use crate::error::Error;
use crate::gdb::breakpoints::BreakpointManager;
use crate::gdb::install::space_of;
use crate::memory::{zeroes, MemoryOps};
use crate::repl::disasm::{
    around, child_lines, children_lines, context_start, format_disasm_line, frame_line,
    frame_lines, is_hex_width, is_listing, is_masked, is_row_at, marks_at, may_decode, may_fetch,
    may_list_context, may_list_forward, may_mark, print_disasm_context, print_event_children,
    print_stacktrace, prose_columns, render_rows, row_lines, shown_frames, DisasmRow, StackFrame,
    Stacktrace,
};
use crate::target::Target;
use crate::text::{begins, dec, lines_of, padded_right, texts};
use crate::types::{Dtb, PhysAddr, VirtAddr};
use crate::ui::{
    spec_addr, spec_bold, spec_bright_black, spec_label, spec_muted, spec_symbol, spec_yellow,
};
use vstd::prelude::*;
use vstd::string::*;

verus! {

/// The line of an instruction: the cursor, the address, the bytes, the code and the
/// symbol that it names.
pub open spec fn instruction(row: DisasmRow, mark: Option<bool>, width: nat) -> Seq<char> {
    (match mark {
        None => ""@,
        Some(here) => if here {
            " "@ + spec_bold(spec_yellow(">"@)) + " "@
        } else {
            "   "@
        },
    }) + spec_addr(row.ip) + "  "@ + spec_bright_black(padded_right(row.hex@, width)) + "  "@
        + row.code@ + (match row.comment {
        Some(symbol) => " "@ + spec_muted(";"@) + " "@ + spec_symbol(symbol@),
        None => ""@,
    })
}

/// Whether lines are those of rows, each with the mark at its place.
pub open spec fn shows_rows(
    rows: Seq<DisasmRow>,
    marks: Seq<Option<bool>>,
    lines: Seq<Seq<char>>,
) -> bool {
    exists|width: nat|
        {
            &&& #[trigger] is_hex_width(rows, width)
            &&& lines.len() == rows.len()
            &&& forall|i: int|
                0 <= i < rows.len() ==> #[trigger] lines[i] == instruction(rows[i], marks[i], width)
        }
}

proof fn lemma_listing(rows: Seq<DisasmRow>, marks: Seq<Option<bool>>, lines: Seq<Seq<char>>)
    requires
        is_listing(rows, marks, lines),
    ensures
        shows_rows(rows, marks, lines),
{
    let width = choose|width: nat| #[trigger]
        is_hex_width(rows, width) && lines == row_lines(rows, marks, width);
    assert(is_hex_width(rows, width));
}

/// One instruction is one line with all its parts in their order.
pub proof fn law_instruction(
    ip: u64,
    hex: &str,
    code: &str,
    comment: Option<&str>,
    marker: Option<bool>,
    width: usize,
    r: String,
)
    requires
        call_ensures(format_disasm_line, (ip, hex, code, comment, marker, width), r),
    ensures
        marker is None ==> r@ == ""@ + spec_addr(ip) + "  "@ + spec_bright_black(
            padded_right(hex@, width as nat),
        ) + "  "@ + code@ + (match comment {
            Some(symbol) => " "@ + spec_muted(";"@) + " "@ + spec_symbol(symbol@),
            None => ""@,
        }),
        marker == Some(false) ==> r@ == "   "@ + spec_addr(ip) + "  "@ + spec_bright_black(
            padded_right(hex@, width as nat),
        ) + "  "@ + code@ + (match comment {
            Some(symbol) => " "@ + spec_muted(";"@) + " "@ + spec_symbol(symbol@),
            None => ""@,
        }),
        marker == Some(true) ==> r@ == " "@ + spec_bold(spec_yellow(">"@)) + " "@ + spec_addr(ip)
            + "  "@ + spec_bright_black(padded_right(hex@, width as nat)) + "  "@ + code@ + (
        match comment {
            Some(symbol) => " "@ + spec_muted(";"@) + " "@ + spec_symbol(symbol@),
            None => ""@,
        }),
{
}

/// Every row is one line, in the order of the rows, marked as its own address is.
pub proof fn law_rows_are_marked_by_address<F: Fn(u64) -> Option<bool>>(
    rows: &[DisasmRow],
    marker_for: F,
    r: Vec<String>,
)
    requires
        call_ensures(render_rows::<F>, (rows, marker_for), r),
    ensures
        exists|marks: Seq<Option<bool>>| #[trigger]
            shows_rows(rows@, marks, texts(r@)) && marks.len() == rows@.len() && forall|i: int|
                0 <= i < rows@.len() ==> call_ensures(
                    marker_for,
                    (rows@[i].ip,),
                    #[trigger] marks[i],
                ),
{
    let marks = choose|marks: Seq<Option<bool>>| #[trigger]
        may_mark(rows@, marker_for, marks) && is_listing(rows@, marks, texts(r@));
    lemma_listing(rows@, marks, texts(r@));
}

/// Whether code at an address is lost: it cannot be read through the page table of the
/// stop, nor through that for the code, where that is another.
pub open spec fn unreadable<M: MemoryOps<PhysAddr>>(
    target: &Target<M>,
    active: Dtb,
    code: Dtb,
    address: VirtAddr,
) -> bool {
    exists|bytes: Seq<u8>, why: Error|
        {
            &&& #[trigger] space_of(target, active).may_read(
                address,
                zeroes(bytes.len()),
                bytes,
                Err(why),
            )
            &&& code != active ==> exists|other: Seq<u8>, again: Error| #[trigger]
                space_of(target, code).may_read(address, bytes, other, Err(again))
        }
}

/// Whether bytes at an address are what the page table of the stop gives, or where
/// that fails the one for the code.
pub open spec fn readable<M: MemoryOps<PhysAddr>>(
    target: &Target<M>,
    active: Dtb,
    code: Dtb,
    address: VirtAddr,
    out: Seq<u8>,
) -> bool {
    ||| space_of(target, active).may_read(address, zeroes(out.len()), out, Ok(()))
    ||| exists|bytes: Seq<u8>, why: Error|
        {
            &&& #[trigger] space_of(target, active).may_read(
                address,
                zeroes(out.len()),
                bytes,
                Err(why),
            )
            &&& code != active
            &&& space_of(target, code).may_read(address, bytes, out, Ok(()))
        }
}

proof fn lemma_fetch<M: MemoryOps<PhysAddr>>(
    target: &Target<M>,
    active: Dtb,
    code: Dtb,
    address: VirtAddr,
    len: nat,
    out: Option<Seq<u8>>,
)
    requires
        may_fetch(target, active, code, address, len, out),
    ensures
        out matches Some(bytes) ==> bytes.len() == len && readable(
            target,
            active,
            code,
            address,
            bytes,
        ),
        out is None ==> unreadable(target, active, code, address),
{
    let (bytes, got) = choose|bytes: Seq<u8>, got: Result<(), Error>|
        {
            &&& #[trigger] space_of(target, active).may_read(address, zeroes(len), bytes, got)
            &&& bytes.len() == len
            &&& match got {
                Ok(_) => out == Some(bytes),
                Err(_) => if code == active {
                    out is None
                } else {
                    exists|other: Seq<u8>, again: Result<(), Error>|
                        {
                            &&& #[trigger] space_of(target, code).may_read(
                                address,
                                bytes,
                                other,
                                again,
                            )
                            &&& other.len() == len
                            &&& match again {
                                Ok(_) => out == Some(other),
                                Err(_) => out is None,
                            }
                        }
                },
            }
        };
    match got {
        Ok(done) => {
            assert(done == ());
        },
        Err(why) => {
            assert(space_of(target, active).may_read(address, zeroes(bytes.len()), bytes, Err(why)));
            if code != active {
                let (other, again) = choose|other: Seq<u8>, again: Result<(), Error>|
                    {
                        &&& #[trigger] space_of(target, code).may_read(
                            address,
                            bytes,
                            other,
                            again,
                        )
                        &&& other.len() == len
                        &&& match again {
                            Ok(_) => out == Some(other),
                            Err(_) => out is None,
                        }
                    };
                match again {
                    Ok(done) => {
                        assert(done == ());
                    },
                    Err(lost) => {
                        assert(space_of(target, code).may_read(address, bytes, other, Err(lost)));
                    },
                }
            }
        },
    }
}

/// The cursor stands on every row at `rip` and on no other.
pub open spec fn cursors(rows: Seq<DisasmRow>, rip: u64, marks: Seq<Option<bool>>) -> bool {
    &&& marks.len() == rows.len()
    &&& forall|i: int|
        0 <= i < rows.len() ==> #[trigger] marks[i] == Some(rows[i].ip == rip)
}

/// Whether `few` are the rows at most three before and three behind row `at`.
pub open spec fn near(rows: Seq<DisasmRow>, at: int, few: Seq<DisasmRow>) -> bool {
    exists|first: int|
        {
            &&& 0 <= first <= at
            &&& at - first == 3 || (at - first < 3 && first == 0)
            &&& few.len() == 4 + (at - first) || (few.len() < 4 + (at - first) && first + few.len()
                == rows.len())
            &&& #[trigger] rows.subrange(first, first + few.len()) == few
        }
}

/// Code around the current instruction is what is decoded of 128 bytes from 64 before
/// it (or from zero), breakpoints hidden: the row at `rip` and three on each side, the
/// cursor on the rows at `rip`. Where decoding misses `rip`, it is at most seven rows
/// decoded of 64 bytes from `rip`. Where the bytes cannot be read, that is said.
pub proof fn law_code_is_listed_around<
    E,
    M: MemoryOps<PhysAddr>,
    D: Fn(&[u8], u64, Option<usize>) -> Vec<DisasmRow>,
>(
    target: &Target<M>,
    breakpoints: &BreakpointManager<E>,
    active: Dtb,
    code: Dtb,
    rip: u64,
    decode: &D,
    r: Vec<String>,
)
    requires
        call_ensures(
            print_disasm_context::<E, M, D>,
            (target, breakpoints, active, code, rip, decode),
            r,
        ),
    ensures
        exists|body: Seq<Seq<char>>, start: VirtAddr| #[trigger]
            lists_code(target, breakpoints, active, code, rip, *decode, start, body) && texts(r@)
                == seq![""@, spec_label("disasm"@)] + body && start.0 <= rip && (rip - start.0
                == 64 || (start.0 == 0 && rip < 64)),
{
    let body = choose|body: Seq<Seq<char>>| #[trigger]
        may_list_context(target, breakpoints, active, code, rip, *decode, body) && texts(r@)
            == crate::repl::disasm::section_lines("disasm"@) + body;
    assert(crate::repl::disasm::section_lines("disasm"@) =~= seq![""@, spec_label("disasm"@)]);
    lemma_lists(target, breakpoints, active, code, rip, *decode, body);
    assert(lists_code(target, breakpoints, active, code, rip, *decode, context_start(rip), body));
}

/// Whether `body` lists the code around `rip`, decoded from `start`, or else from `rip`.
pub open spec fn lists_code<
    E,
    M: MemoryOps<PhysAddr>,
    D: Fn(&[u8], u64, Option<usize>) -> Vec<DisasmRow>,
>(
    target: &Target<M>,
    breakpoints: &BreakpointManager<E>,
    active: Dtb,
    code: Dtb,
    rip: u64,
    decode: D,
    start: VirtAddr,
    body: Seq<Seq<char>>,
) -> bool {
    ||| body == seq![spec_bright_black("  (could not read memory at RIP)"@)] && (unreadable(
        target,
        active,
        code,
        start,
    ) || unreadable(target, active, code, VirtAddr(rip)))
    ||| exists|bytes: Seq<u8>, shown: Seq<u8>, rows: Seq<DisasmRow>, at: int, few: Seq<DisasmRow>,
            marks: Seq<Option<bool>>|
        {
            &&& bytes.len() == 128
            &&& readable(target, active, code, start, bytes)
            &&& #[trigger] is_masked(breakpoints, start, active, bytes, shown)
            &&& #[trigger] may_decode(decode, shown, start.0, None, rows)
            &&& 0 <= at < rows.len() && rows[at].ip == rip
            &&& #[trigger] near(rows, at, few)
            &&& cursors(few, rip, marks)
            &&& #[trigger] shows_rows(few, marks, body)
        }
    ||| exists|bytes: Seq<u8>, shown: Seq<u8>, rows: Seq<DisasmRow>, marks: Seq<Option<bool>>|
        {
            &&& bytes.len() == 64
            &&& readable(target, active, code, VirtAddr(rip), bytes)
            &&& #[trigger] is_masked(breakpoints, VirtAddr(rip), active, bytes, shown)
            &&& #[trigger] may_decode(decode, shown, rip, Some(7usize), rows)
            &&& cursors(rows, rip, marks)
            &&& #[trigger] shows_rows(rows, marks, body)
        }
}

proof fn lemma_around(rows: Seq<DisasmRow>, at: int, rip: u64)
    requires
        0 <= at < rows.len(),
    ensures
        near(rows, at, around(rows, at)),
        cursors(around(rows, at), rip, marks_at(around(rows, at), rip)),
{
    let first = if at < 3 {
        0
    } else {
        at - 3
    };
    let few = around(rows, at);
    assert(rows.subrange(first, first + few.len()) =~= few);
}

proof fn lemma_first_row(rows: Seq<DisasmRow>, rip: u64, n: int) -> (at: int)
    requires
        0 <= n < rows.len(),
        rows[n].ip == rip,
    ensures
        is_row_at(rows, rip, at),
    decreases n,
{
    if exists|i: int| 0 <= i < n && (#[trigger] rows[i]).ip == rip {
        let i = choose|i: int| 0 <= i < n && (#[trigger] rows[i]).ip == rip;
        lemma_first_row(rows, rip, i)
    } else {
        n
    }
}

proof fn lemma_lists<
    E,
    M: MemoryOps<PhysAddr>,
    D: Fn(&[u8], u64, Option<usize>) -> Vec<DisasmRow>,
>(
    target: &Target<M>,
    breakpoints: &BreakpointManager<E>,
    active: Dtb,
    code: Dtb,
    rip: u64,
    decode: D,
    body: Seq<Seq<char>>,
)
    requires
        may_list_context(target, breakpoints, active, code, rip, decode, body),
    ensures
        lists_code(target, breakpoints, active, code, rip, decode, context_start(rip), body),
{
    let start = context_start(rip);
    let said = seq![spec_bright_black("  (could not read memory at RIP)"@)];
    assert(Seq::empty().push(spec_bright_black("  (could not read memory at RIP)"@)) =~= said);
    if may_fetch(target, active, code, start, 128, None) && body == said {
        lemma_fetch(target, active, code, start, 128, None);
    } else {
        let (bytes, shown, rows) = choose|
            bytes: Seq<u8>,
            shown: Seq<u8>,
            rows: Seq<DisasmRow>,
        |
            {
                &&& may_fetch(target, active, code, start, 128, Some(bytes))
                &&& #[trigger] is_masked(breakpoints, start, active, bytes, shown)
                &&& #[trigger] may_decode(decode, shown, start.0, None, rows)
                &&& (forall|at: int|
                    is_row_at(rows, rip, at) ==> #[trigger] is_listing(
                        around(rows, at),
                        marks_at(around(rows, at), rip),
                        body,
                    ))
                &&& (forall|i: int| 0 <= i < rows.len() ==> (#[trigger] rows[i]).ip != rip)
                    ==> may_list_forward(target, breakpoints, active, code, rip, decode, body)
            };
        lemma_fetch(target, active, code, start, 128, Some(bytes));
        if exists|i: int| 0 <= i < rows.len() && (#[trigger] rows[i]).ip == rip {
            let n = choose|i: int| 0 <= i < rows.len() && (#[trigger] rows[i]).ip == rip;
            let at = lemma_first_row(rows, rip, n);
            let few = around(rows, at);
            lemma_around(rows, at, rip);
            assert(is_listing(few, marks_at(few, rip), body));
            lemma_listing(few, marks_at(few, rip), body);
        } else if may_fetch(target, active, code, VirtAddr(rip), 64, None) && body == said {
            lemma_fetch(target, active, code, VirtAddr(rip), 64, None);
        } else {
            let (bytes, shown, rows) = choose|
                bytes: Seq<u8>,
                shown: Seq<u8>,
                rows: Seq<DisasmRow>,
            |
                {
                    &&& may_fetch(target, active, code, VirtAddr(rip), 64, Some(bytes))
                    &&& #[trigger] is_masked(breakpoints, VirtAddr(rip), active, bytes, shown)
                    &&& #[trigger] may_decode(decode, shown, rip, Some(7usize), rows)
                    &&& is_listing(rows, marks_at(rows, rip), body)
                };
            lemma_fetch(target, active, code, VirtAddr(rip), 64, Some(bytes));
            lemma_listing(rows, marks_at(rows, rip), body);
            assert(cursors(rows, rip, marks_at(rows, rip)));
        }
    }
}

/// The line of a stack frame: its number, unless embedded where its stack lies, its
/// address, and its symbol if it has one.
pub open spec fn frame_shown(number: int, frame: StackFrame, embedded: bool) -> Seq<char> {
    let name = if begins(frame.symbol@, "0x"@) {
        ""@
    } else if frame.scanned {
        "  "@ + spec_symbol(frame.symbol@) + (" "@ + spec_bright_black("[scan]"@))
    } else {
        "  "@ + spec_symbol(frame.symbol@) + ""@
    };
    let number = spec_muted("#"@ + padded_right(dec(number as nat), 2));
    if embedded {
        "  "@ + number + " "@ + spec_addr(frame.ip) + name
    } else {
        ""@ + number + " "@ + spec_addr(frame.sp) + "  "@ + spec_addr(frame.ip) + name
    }
}

proof fn lemma_frames(frames: Seq<StackFrame>, embedded: bool, n: nat)
    requires
        n <= frames.len(),
    ensures
        frame_lines(frames, embedded, n) == Seq::new(
            n,
            |i: int| frame_shown(i, frames[i], embedded),
        ),
    decreases n,
{
    if n > 0 {
        lemma_frames(frames, embedded, (n - 1) as nat);
        assert(frame_line(n - 1, frames[n - 1], embedded) == frame_shown(
            n - 1,
            frames[n - 1],
            embedded,
        ));
    }
    assert(frame_lines(frames, embedded, n) =~= Seq::new(
        n,
        |i: int| frame_shown(i, frames[i], embedded),
    ));
}

/// A stack trace shows its first frames, numbered from zero, as many as the limit
/// allows, and counts all the others, those cut off before included.
pub proof fn law_stack_frames(
    trace: Stacktrace,
    limit: usize,
    embedded: bool,
    n: nat,
    r: Vec<String>,
)
    requires
        call_ensures(print_stacktrace, (&trace, limit, embedded), r),
        n <= trace.frames@.len(),
        n == limit || (n < limit && n == trace.frames@.len()),
    ensures
        texts(r@) == (if embedded {
            seq![""@, spec_label("stack"@)]
        } else {
            Seq::empty()
        }) + Seq::new(n, |i: int| frame_shown(i, trace.frames@[i], embedded)) + (if n
            < trace.frames@.len() || trace.truncated > 0 {
            seq![
                (if embedded {
                    "  "@
                } else {
                    ""@
                }) + spec_bright_black(
                    "... "@ + dec((trace.frames@.len() - n + trace.truncated) as nat)
                        + " more frames"@,
                ),
            ]
        } else {
            Seq::empty()
        }),
{
    lemma_frames(trace.frames@, embedded, n);
    assert(shown_frames(trace, limit as int) == n);
    let head = if embedded {
        seq![""@, spec_label("stack"@)]
    } else {
        Seq::empty()
    };
    assert(crate::repl::disasm::section_lines("stack"@) =~= seq![""@, spec_label("stack"@)]);
    let rows = head + Seq::new(n, |i: int| frame_shown(i, trace.frames@[i], embedded));
    let count = (if embedded {
        "  "@
    } else {
        ""@
    }) + spec_bright_black(
        "... "@ + dec((trace.frames@.len() - n + trace.truncated) as nat) + " more frames"@,
    );
    assert(rows + seq![count] =~= rows.push(count));
    assert(rows + Seq::<Seq<char>>::empty() =~= rows);
}

/// Prose gets what the terminal has left, at most 100 columns; with less than 20 left,
/// or without a terminal, it is not wrapped.
pub proof fn law_prose_width(terminal: Option<u16>, col: usize, r: Option<usize>)
    requires
        call_ensures(prose_columns, (terminal, col), r),
    ensures
        terminal is None ==> r is None,
        terminal matches Some(columns) ==> {
            &&& columns < col + 20 ==> r is None
            &&& col + 20 <= columns <= col + 100 ==> r == Some((columns - col) as usize)
            &&& columns > col + 100 ==> r == Some(100usize)
        },
{
}

/// The lines of a child: its first line hangs on a branch, the last child's on the end of
/// the tree; further lines stand below, the tree going on beside them unless it is the
/// last child.
pub open spec fn hung(indent: Seq<char>, lines: Seq<Seq<char>>, last: bool) -> Seq<Seq<char>> {
    Seq::new(
        lines.len(),
        |i: int|
            indent + (if i == 0 && last {
                spec_muted("╰─"@) + " "@
            } else if i == 0 {
                spec_muted("├─"@) + " "@
            } else if last {
                "   "@
            } else {
                spec_muted("│"@) + "  "@
            }) + lines[i],
    )
}

proof fn lemma_hung(indent: Seq<char>, child: Seq<char>, last: bool)
    ensures
        child_lines(indent, child, last) == hung(indent, lines_of(child), last),
{
    let lines = lines_of(child);
    let a = child_lines(indent, child, last);
    let b = hung(indent, lines, last);
    assert forall|i: int| 0 <= i < lines.len() implies a[i] == b[i] by {
        assert(a[i] =~= b[i]);
    }
    assert(a =~= b);
}

/// Children hang below an event in their order, each with all its lines: one more child
/// behind the others changes the branch of none but the one that was last.
pub proof fn law_children_hang_in_order(
    indent: &str,
    children: &[String],
    r: Vec<String>,
    n: nat,
)
    requires
        call_ensures(print_event_children, (indent, children), r),
        n <= children@.len(),
    ensures
        children_lines(indent@, texts(children@), 0).len() == 0,
        n > 0 ==> children_lines(indent@, texts(children@), n) == children_lines(
            indent@,
            texts(children@),
            (n - 1) as nat,
        ) + hung(indent@, lines_of(children@[n - 1]@), n == children@.len()),
        texts(r@) == children_lines(indent@, texts(children@), children@.len()),
{
    if n > 0 {
        assert(texts(children@)[n - 1] == children@[n - 1]@);
        lemma_hung(indent@, children@[n - 1]@, n == children@.len());
    }
}

/// The rows that are listed are those that decoding these very bytes gave, at the address
/// where they lie.
pub proof fn law_rows_are_decoded<D: Fn(&[u8], u64, Option<usize>) -> Vec<DisasmRow>>(
    decode: D,
    bytes: Seq<u8>,
    address: u64,
    limit: Option<usize>,
    rows: Seq<DisasmRow>,
)
    requires
        may_decode(decode, bytes, address, limit, rows),
        forall|buf: &[u8], out: Vec<DisasmRow>| #[trigger]
            call_ensures(decode, (buf, address, limit), out) ==> out@.len() <= buf@.len(),
    ensures
        rows.len() <= bytes.len(),
        exists|buf: &[u8], out: Vec<DisasmRow>| #[trigger]
            call_ensures(decode, (buf, address, limit), out) && buf@ =~= bytes && out@ =~= rows,
{
}

} // verus!
