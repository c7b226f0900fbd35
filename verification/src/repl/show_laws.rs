//! What the listings show, by name: registers, flags.
use crate::repl::disasm::{
    format_rflags, print_registers, register_cell, register_rows, register_value, rflag_names,
    spec_rflags, with_flag, Registers,
};
use crate::text::{joined, padded_right, texts};
use crate::ui::{spec_addr, spec_label, spec_muted};
use vstd::prelude::*;
use vstd::string::*;

verus! {

/// The names of the register grid, row by row, three to a row.
#[verifier::opaque]
pub open spec fn grid() -> Seq<Seq<char>> {
    seq![
        "rax"@, "rbx"@, "rcx"@,
        "rdx"@, "rsi"@, "rdi"@,
        "rsp"@, "rbp"@, "rip"@,
        "r8"@, "r9"@, "r10"@,
        "r11"@, "r12"@, "r13"@,
        "r14"@, "r15"@, "rfl"@,
    ]
}

/// The register of a name.
#[verifier::opaque]
pub open spec fn register(regs: Registers, name: Seq<char>) -> Option<u64> {
    if name == "rax"@ {
        regs.rax
    } else if name == "rbx"@ {
        regs.rbx
    } else if name == "rcx"@ {
        regs.rcx
    } else if name == "rdx"@ {
        regs.rdx
    } else if name == "rsi"@ {
        regs.rsi
    } else if name == "rdi"@ {
        regs.rdi
    } else if name == "rsp"@ {
        regs.rsp
    } else if name == "rbp"@ {
        regs.rbp
    } else if name == "rip"@ {
        regs.rip
    } else if name == "r8"@ {
        regs.r8
    } else if name == "r9"@ {
        regs.r9
    } else if name == "r10"@ {
        regs.r10
    } else if name == "r11"@ {
        regs.r11
    } else if name == "r12"@ {
        regs.r12
    } else if name == "r13"@ {
        regs.r13
    } else if name == "r14"@ {
        regs.r14
    } else if name == "r15"@ {
        regs.r15
    } else if name == "rfl"@ {
        regs.eflags
    } else {
        None
    }
}

/// How a register is shown: its name, three characters wide, and its value, or that it
/// has none.
#[verifier::opaque]
pub open spec fn named(regs: Registers, name: Seq<char>) -> Seq<char> {
    spec_muted(
        if name.len() == 2 {
            name + " "@
        } else {
            name
        },
    ) + " "@ + match register(regs, name) {
        Some(value) => spec_addr(value),
        None => spec_muted("N/A             "@),
    }
}

/// The flags that are shown behind the register of flags: none where it has no value.
pub open spec fn set_flags(regs: Registers) -> Seq<char> {
    match regs.eflags {
        Some(flags) => spec_rflags(flags),
        None => spec_rflags(0),
    }
}

/// The row of the grid with this number.
pub open spec fn grid_row(regs: Registers, margin: Seq<char>, k: int) -> Seq<char> {
    let row = margin + named(regs, grid()[3 * k]) + "   "@ + named(regs, grid()[3 * k + 1])
        + "   "@ + named(regs, grid()[3 * k + 2]);
    if k == 5 {
        row + set_flags(regs)
    } else {
        row
    }
}

proof fn lemma_names()
    ensures
        forall|i: int, j: int|
            0 <= i < j < 18 ==> #[trigger] grid()[i] != #[trigger] grid()[j],
        forall|i: int| 0 <= i < 18 ==> (#[trigger] grid()[i]).len() == 2 || grid()[i].len() == 3,
{
    reveal(grid);
    reveal_strlit("rax");
    reveal_strlit("rbx");
    reveal_strlit("rcx");
    reveal_strlit("rdx");
    reveal_strlit("rsi");
    reveal_strlit("rdi");
    reveal_strlit("rsp");
    reveal_strlit("rbp");
    reveal_strlit("rip");
    reveal_strlit("r8");
    reveal_strlit("r9");
    reveal_strlit("r10");
    reveal_strlit("r11");
    reveal_strlit("r12");
    reveal_strlit("r13");
    reveal_strlit("r14");
    reveal_strlit("r15");
    reveal_strlit("rfl");
    assert("rax"@.len() == 3);
    assert("rbx"@.len() == 3);
    assert("rcx"@.len() == 3);
    assert("rdx"@.len() == 3);
    assert("rsi"@.len() == 3);
    assert("rdi"@.len() == 3);
    assert("rsp"@.len() == 3);
    assert("rbp"@.len() == 3);
    assert("rip"@.len() == 3);
    assert("r8"@.len() == 2);
    assert("r9"@.len() == 2);
    assert("r10"@.len() == 3);
    assert("r11"@.len() == 3);
    assert("r12"@.len() == 3);
    assert("r13"@.len() == 3);
    assert("r14"@.len() == 3);
    assert("r15"@.len() == 3);
    assert("rfl"@.len() == 3);
    assert("rax"@[1] == 'a');
    assert("rax"@[2] == 'x');
    assert("rbx"@[1] == 'b');
    assert("rbx"@[2] == 'x');
    assert("rcx"@[1] == 'c');
    assert("rcx"@[2] == 'x');
    assert("rdx"@[1] == 'd');
    assert("rdx"@[2] == 'x');
    assert("rsi"@[1] == 's');
    assert("rsi"@[2] == 'i');
    assert("rdi"@[1] == 'd');
    assert("rdi"@[2] == 'i');
    assert("rsp"@[1] == 's');
    assert("rsp"@[2] == 'p');
    assert("rbp"@[1] == 'b');
    assert("rbp"@[2] == 'p');
    assert("rip"@[1] == 'i');
    assert("rip"@[2] == 'p');
    assert("r8"@[1] == '8');
    assert("r9"@[1] == '9');
    assert("r10"@[1] == '1');
    assert("r10"@[2] == '0');
    assert("r11"@[1] == '1');
    assert("r11"@[2] == '1');
    assert("r12"@[1] == '1');
    assert("r12"@[2] == '2');
    assert("r13"@[1] == '1');
    assert("r13"@[2] == '3');
    assert("r14"@[1] == '1');
    assert("r14"@[2] == '4');
    assert("r15"@[1] == '1');
    assert("r15"@[2] == '5');
    assert("rfl"@[1] == 'f');
    assert("rfl"@[2] == 'l');
}

proof fn lemma_spaces(name: Seq<char>)
    ensures
        name.len() == 2 ==> padded_right(name, 3) == name + " "@,
        name.len() == 3 ==> padded_right(name, 3) == name,
        padded_right("N/A"@, 16) == "N/A             "@,
{
    reveal_strlit(" ");
    reveal_strlit("N/A");
    reveal_strlit("N/A             ");
    if name.len() == 2 {
        assert(padded_right(name, 3) =~= name + " "@);
    }
    assert(padded_right("N/A"@, 16) =~= "N/A             "@);
}

proof fn lemma_registers(regs: Registers)
    ensures
        register(regs, grid()[0]) == regs.rax,
        register(regs, grid()[1]) == regs.rbx,
        register(regs, grid()[2]) == regs.rcx,
        register(regs, grid()[3]) == regs.rdx,
        register(regs, grid()[4]) == regs.rsi,
        register(regs, grid()[5]) == regs.rdi,
        register(regs, grid()[6]) == regs.rsp,
        register(regs, grid()[7]) == regs.rbp,
        register(regs, grid()[8]) == regs.rip,
        register(regs, grid()[9]) == regs.r8,
        register(regs, grid()[10]) == regs.r9,
        register(regs, grid()[11]) == regs.r10,
        register(regs, grid()[12]) == regs.r11,
        register(regs, grid()[13]) == regs.r12,
        register(regs, grid()[14]) == regs.r13,
        register(regs, grid()[15]) == regs.r14,
        register(regs, grid()[16]) == regs.r15,
        register(regs, grid()[17]) == regs.eflags,
{
    reveal(grid);
    reveal(register);
    lemma_names();
}

proof fn lemma_last_row(
    a: Seq<char>,
    b: Seq<char>,
    c: Seq<char>,
    m: Seq<char>,
    v: Seq<char>,
    f: Seq<char>,
)
    ensures
        a + b + "   "@ + c + "   "@ + m + " "@ + v + f == a + b + "   "@ + c + "   "@ + (m + " "@
            + v) + f,
{
    let head = a + b + "   "@ + c + "   "@;
    assert(head + m + " "@ + v =~= head + (m + " "@ + v));
}

#[verifier::spinoff_prover]
proof fn lemma_cells(regs: Registers)
    ensures
        named(regs, grid()[0]) == register_cell("rax"@, regs.rax),
        named(regs, grid()[1]) == register_cell("rbx"@, regs.rbx),
        named(regs, grid()[2]) == register_cell("rcx"@, regs.rcx),
        named(regs, grid()[3]) == register_cell("rdx"@, regs.rdx),
        named(regs, grid()[4]) == register_cell("rsi"@, regs.rsi),
        named(regs, grid()[5]) == register_cell("rdi"@, regs.rdi),
        named(regs, grid()[6]) == register_cell("rsp"@, regs.rsp),
        named(regs, grid()[7]) == register_cell("rbp"@, regs.rbp),
        named(regs, grid()[8]) == register_cell("rip"@, regs.rip),
        named(regs, grid()[9]) == register_cell("r8"@, regs.r8),
        named(regs, grid()[10]) == register_cell("r9"@, regs.r9),
        named(regs, grid()[11]) == register_cell("r10"@, regs.r10),
        named(regs, grid()[12]) == register_cell("r11"@, regs.r11),
        named(regs, grid()[13]) == register_cell("r12"@, regs.r12),
        named(regs, grid()[14]) == register_cell("r13"@, regs.r13),
        named(regs, grid()[15]) == register_cell("r14"@, regs.r14),
        named(regs, grid()[16]) == register_cell("r15"@, regs.r15),
        named(regs, grid()[17]) == spec_muted("rfl"@) + " "@ + register_value(
            regs.eflags,
        ),
{
    reveal(grid);
    lemma_registers(regs);
    lemma_cell(regs, 0);
    lemma_cell(regs, 1);
    lemma_cell(regs, 2);
    lemma_cell(regs, 3);
    lemma_cell(regs, 4);
    lemma_cell(regs, 5);
    lemma_cell(regs, 6);
    lemma_cell(regs, 7);
    lemma_cell(regs, 8);
    lemma_cell(regs, 9);
    lemma_cell(regs, 10);
    lemma_cell(regs, 11);
    lemma_cell(regs, 12);
    lemma_cell(regs, 13);
    lemma_cell(regs, 14);
    lemma_cell(regs, 15);
    lemma_cell(regs, 16);
    lemma_cell(regs, 17);
    assert("rfl"@.len() == 3) by {
        reveal_strlit("rfl");
    }
    lemma_spaces("rfl"@);
}

proof fn lemma_cell(regs: Registers, i: int)
    requires
        0 <= i < 18,
    ensures
        named(regs, grid()[i]) == register_cell(
            grid()[i],
            register(regs, grid()[i]),
        ),
{
    lemma_names();
    lemma_spaces(grid()[i]);
    reveal(named);
}

#[verifier::spinoff_prover]
proof fn lemma_rows(regs: Registers, margin: Seq<char>)
    ensures
        register_rows(regs, margin) == Seq::new(
            6,
            |k: int| grid_row(regs, margin, k),
        ),
{
    lemma_cells(regs);
    lemma_last_row(
        margin,
        named(regs, grid()[15]),
        named(regs, grid()[16]),
        spec_muted("rfl"@),
        register_value(regs.eflags),
        set_flags(regs),
    );
    let rows = register_rows(regs, margin);
    assert(rows[0] == grid_row(regs, margin, 0));
    assert(rows[1] == grid_row(regs, margin, 1));
    assert(rows[2] == grid_row(regs, margin, 2));
    assert(rows[3] == grid_row(regs, margin, 3));
    assert(rows[4] == grid_row(regs, margin, 4));
    assert(rows[5] == grid_row(regs, margin, 5));
    assert(rows =~= Seq::new(6, |k: int| grid_row(regs, margin, k)));
}

/// Each cell of the grid shows under the name of a register the value of that
/// register, the flags behind the register of flags.
#[verifier::spinoff_prover]
pub proof fn law_registers_stand_under_their_names(
    regs: Registers,
    embedded: bool,
    lines: Vec<String>,
)
    requires
        call_ensures(print_registers, (&regs, embedded), lines),
    ensures
        !embedded ==> texts(lines@) == Seq::new(6, |k: int| grid_row(regs, ""@, k)),
        embedded ==> texts(lines@) == seq![""@, spec_label("registers"@)] + Seq::new(
            6,
            |k: int| grid_row(regs, "  "@, k),
        ),
{
    if embedded {
        lemma_rows(regs, "  "@);
    } else {
        lemma_rows(regs, ""@);
    }
}

/// Changing one register changes only its cell: every row without it stays, and its own
/// row stays around the cell. (With the register of flags the flags change, too.)
#[verifier::spinoff_prover]
pub proof fn law_one_register_changes_one_cell(
    one: Registers,
    other: Registers,
    which: int,
    a: Vec<String>,
    b: Vec<String>,
)
    requires
        0 <= which < 17,
        forall|i: int|
            0 <= i < 18 && i != which ==> register(one, #[trigger] grid()[i]) == register(
                other,
                grid()[i],
            ),
        call_ensures(print_registers, (&one, false), a),
        call_ensures(print_registers, (&other, false), b),
    ensures
        forall|k: int|
            0 <= k < 6 && k != which / 3 ==> #[trigger] texts(a@)[k] == texts(b@)[k],
        exists|before: Seq<char>, after: Seq<char>|
            {
                &&& texts(a@)[which / 3] == #[trigger] (before + named(one, grid()[which]) + after)
                &&& texts(b@)[which / 3] == before + named(other, grid()[which]) + after
            },
{
    law_registers_stand_under_their_names(one, false, a);
    law_registers_stand_under_their_names(other, false, b);
    lemma_registers(one);
    lemma_registers(other);
    assert forall|i: int| 0 <= i < 18 && i != which implies #[trigger] named(one, grid()[i])
        == named(other, grid()[i]) by {
        reveal(named);
    }
    let k = which / 3;
    assert(which == 3 * k || which == 3 * k + 1 || which == 3 * k + 2);
    let (x, y, z) = (
        named(one, grid()[3 * k]),
        named(one, grid()[3 * k + 1]),
        named(one, grid()[3 * k + 2]),
    );
    let other_cell = named(other, grid()[which]);
    let tail = if k == 5 {
        set_flags(one)
    } else {
        Seq::empty()
    };
    lemma_around(""@, x, y, z, tail);
    if which == 3 * k {
        lemma_around(""@, other_cell, y, z, tail);
        assert(texts(a@)[k] == ""@ + named(one, grid()[which]) + ("   "@ + y + "   "@ + z + tail));
    } else if which == 3 * k + 1 {
        lemma_around(""@, x, other_cell, z, tail);
        assert(texts(a@)[k] == (""@ + x + "   "@) + named(one, grid()[which]) + ("   "@ + z
            + tail));
    } else {
        lemma_around(""@, x, y, other_cell, tail);
        assert(texts(a@)[k] == (""@ + x + "   "@ + y + "   "@) + named(one, grid()[which]) + tail);
    }
}

proof fn lemma_around(m: Seq<char>, x: Seq<char>, y: Seq<char>, z: Seq<char>, t: Seq<char>)
    ensures
        m + x + "   "@ + y + "   "@ + z + t == m + x + ("   "@ + y + "   "@ + z + t),
        m + x + "   "@ + y + "   "@ + z + t == (m + x + "   "@) + y + ("   "@ + z + t),
        m + x + "   "@ + y + "   "@ + z + Seq::<char>::empty() == m + x + "   "@ + y + "   "@ + z,
{
    let gap = "   "@;
    assert(m + x + gap + y + gap + z + t =~= m + x + (gap + y + gap + z + t));
    assert(m + x + gap + y + gap + z + t =~= (m + x + gap) + y + (gap + z + t));
    assert(m + x + gap + y + gap + z + Seq::<char>::empty() =~= m + x + gap + y + gap + z);
}

proof fn lemma_with_flag(
    names: Seq<Seq<char>>,
    flags: u64,
    bit: u64,
    name: Seq<char>,
    q: Seq<char>,
)
    ensures
        with_flag(names, flags, bit, name).contains(q) <==> (names.contains(q) || (q == name && flags
            & (1u64 << bit) != 0)),
{
    lemma_push(names, name, q);
}

proof fn lemma_push(names: Seq<Seq<char>>, name: Seq<char>, q: Seq<char>)
    ensures
        names.push(name).contains(q) <==> (names.contains(q) || q == name),
{
    let more = names.push(name);
    if names.contains(q) {
        let i = choose|i: int| 0 <= i < names.len() && names[i] == q;
        assert(more[i] == q);
    }
    if q == name {
        assert(more[names.len() as int] == q);
    }
    if more.contains(q) {
        let i = choose|i: int| 0 <= i < more.len() && more[i] == q;
        if i < names.len() {
            assert(names[i] == q);
        }
    }
}

/// Each flag is shown if and only if its bit is set, and the I/O privilege level if and
/// only if it is not zero; where there is nothing to show, there are no brackets either.
#[verifier::spinoff_prover]
pub proof fn law_flags_are_bits(flags: u64, r: String)
    requires
        call_ensures(format_rflags, (flags,), r),
    ensures
        exists|names: Seq<Seq<char>>|
            {
                &&& r@ == (if names.len() == 0 {
                    ""@
                } else {
                    " ["@ + #[trigger] joined(names, " "@) + "]"@
                })
                &&& forall|q: Seq<char>| #[trigger] names.contains(q) <==> is_set(flags, q)
            },
{
    let names = rflag_names(flags);
    assert forall|q: Seq<char>| #[trigger] names.contains(q) <==> is_set(flags, q) by {
        lemma_flag_names(flags, q);
    }
    assert(r@ == (if names.len() == 0 {
        ""@
    } else {
        " ["@ + joined(names, " "@) + "]"@
    }));
}

#[verifier::spinoff_prover]
#[verifier::rlimit(60)]
proof fn lemma_flag_names(flags: u64, q: Seq<char>)
    ensures
        rflag_names(flags).contains(q) <==> is_set(flags, q),
{
    let n0 = Seq::<Seq<char>>::empty();
    let n1 = with_flag(n0, flags, 0, "CF"@);
    let n2 = with_flag(n1, flags, 2, "PF"@);
    let n3 = with_flag(n2, flags, 4, "AF"@);
    let n4 = with_flag(n3, flags, 6, "ZF"@);
    let n5 = with_flag(n4, flags, 7, "SF"@);
    let n6 = with_flag(n5, flags, 8, "TF"@);
    let n7 = with_flag(n6, flags, 9, "IF"@);
    let n8 = with_flag(n7, flags, 10, "DF"@);
    let n9 = with_flag(n8, flags, 11, "OF"@);
    let n10 = with_flag(n9, flags, 14, "NT"@);
    let n11 = with_flag(n10, flags, 16, "RF"@);
    let n12 = with_flag(n11, flags, 17, "VM"@);
    let n13 = with_flag(n12, flags, 18, "AC"@);
    let n14 = with_flag(n13, flags, 19, "VIF"@);
    let n15 = with_flag(n14, flags, 20, "VIP"@);
    let n16 = with_flag(n15, flags, 21, "ID"@);
    lemma_with_flag(n0, flags, 0, "CF"@, q);
    lemma_with_flag(n1, flags, 2, "PF"@, q);
    lemma_with_flag(n2, flags, 4, "AF"@, q);
    lemma_with_flag(n3, flags, 6, "ZF"@, q);
    lemma_with_flag(n4, flags, 7, "SF"@, q);
    lemma_with_flag(n5, flags, 8, "TF"@, q);
    lemma_with_flag(n6, flags, 9, "IF"@, q);
    lemma_with_flag(n7, flags, 10, "DF"@, q);
    lemma_with_flag(n8, flags, 11, "OF"@, q);
    lemma_with_flag(n9, flags, 14, "NT"@, q);
    lemma_with_flag(n10, flags, 16, "RF"@, q);
    lemma_with_flag(n11, flags, 17, "VM"@, q);
    lemma_with_flag(n12, flags, 18, "AC"@, q);
    lemma_with_flag(n13, flags, 19, "VIF"@, q);
    lemma_with_flag(n14, flags, 20, "VIP"@, q);
    lemma_with_flag(n15, flags, 21, "ID"@, q);
    lemma_push(n16, "IOPL1"@, q);
    lemma_push(n16, "IOPL2"@, q);
    lemma_push(n16, "IOPL3"@, q);
    assert(rflag_names(flags) == (if (flags >> 12) & 0x3 == 0 {
        n16
    } else if (flags >> 12) & 0x3 == 1 {
        n16.push("IOPL1"@)
    } else if (flags >> 12) & 0x3 == 2 {
        n16.push("IOPL2"@)
    } else {
        n16.push("IOPL3"@)
    }));
    assert({
        (flags & (1u64 << 0u64) != 0) == ((flags / 0x1) % 2 == 1) &&
        (flags & (1u64 << 2u64) != 0) == ((flags / 0x4) % 2 == 1) &&
        (flags & (1u64 << 4u64) != 0) == ((flags / 0x10) % 2 == 1) &&
        (flags & (1u64 << 6u64) != 0) == ((flags / 0x40) % 2 == 1) &&
        (flags & (1u64 << 7u64) != 0) == ((flags / 0x80) % 2 == 1) &&
        (flags & (1u64 << 8u64) != 0) == ((flags / 0x100) % 2 == 1) &&
        (flags & (1u64 << 9u64) != 0) == ((flags / 0x200) % 2 == 1) &&
        (flags & (1u64 << 10u64) != 0) == ((flags / 0x400) % 2 == 1) &&
        (flags & (1u64 << 11u64) != 0) == ((flags / 0x800) % 2 == 1) &&
        (flags & (1u64 << 14u64) != 0) == ((flags / 0x4000) % 2 == 1) &&
        (flags & (1u64 << 16u64) != 0) == ((flags / 0x10000) % 2 == 1) &&
        (flags & (1u64 << 17u64) != 0) == ((flags / 0x20000) % 2 == 1) &&
        (flags & (1u64 << 18u64) != 0) == ((flags / 0x40000) % 2 == 1) &&
        (flags & (1u64 << 19u64) != 0) == ((flags / 0x80000) % 2 == 1) &&
        (flags & (1u64 << 20u64) != 0) == ((flags / 0x100000) % 2 == 1) &&
        (flags & (1u64 << 21u64) != 0) == ((flags / 0x200000) % 2 == 1) &&
        (flags >> 12) & 0x3 == (flags / 0x1000) % 4
    }) by (bit_vector);
    reveal(is_set);
}

/// Whether the flag of this name is set: the bits of the processor's flags.
#[verifier::opaque]
pub open spec fn is_set(flags: u64, q: Seq<char>) -> bool {
    ||| (q == "CF"@ && (flags as int / 0x1) % 2 == 1)
    ||| (q == "PF"@ && (flags as int / 0x4) % 2 == 1)
    ||| (q == "AF"@ && (flags as int / 0x10) % 2 == 1)
    ||| (q == "ZF"@ && (flags as int / 0x40) % 2 == 1)
    ||| (q == "SF"@ && (flags as int / 0x80) % 2 == 1)
    ||| (q == "TF"@ && (flags as int / 0x100) % 2 == 1)
    ||| (q == "IF"@ && (flags as int / 0x200) % 2 == 1)
    ||| (q == "DF"@ && (flags as int / 0x400) % 2 == 1)
    ||| (q == "OF"@ && (flags as int / 0x800) % 2 == 1)
    ||| (q == "NT"@ && (flags as int / 0x4000) % 2 == 1)
    ||| (q == "RF"@ && (flags as int / 0x10000) % 2 == 1)
    ||| (q == "VM"@ && (flags as int / 0x20000) % 2 == 1)
    ||| (q == "AC"@ && (flags as int / 0x40000) % 2 == 1)
    ||| (q == "VIF"@ && (flags as int / 0x80000) % 2 == 1)
    ||| (q == "VIP"@ && (flags as int / 0x100000) % 2 == 1)
    ||| (q == "ID"@ && (flags as int / 0x200000) % 2 == 1)
    ||| (q == "IOPL1"@ && (flags as int / 0x1000) % 4 == 1)
    ||| (q == "IOPL2"@ && (flags as int / 0x1000) % 4 == 2)
    ||| (q == "IOPL3"@ && (flags as int / 0x1000) % 4 == 3)
}

} // verus!
