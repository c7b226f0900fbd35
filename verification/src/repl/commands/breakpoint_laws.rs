//! What the breakpoint commands do with their words, and what they answer.
use crate::backend::{DebugBackend, HwBreakpointAccess};
use crate::error::Error;
use crate::gdb::breakpoints::{Breakpoint, BreakpointManager, CodeRequest};
use crate::gdb::changes::WatchRequest;
use crate::gdb::transport_laws::{
    law_setting_a_code_breakpoint, law_setting_a_watch_arms, tells, untouched, Held,
};
use crate::memory::MemoryOps;
use crate::repl::commands::breakpoints::{
    answers_change, breakpoint_cells, breakpoint_condition, breakpoint_heading, breakpoint_id_arg,
    breakpoint_row, breakpoint_table, cells, cmd_bl, code_set_line, condition_text, is_hw_spec,
    may_ba, may_bp, may_set_code, may_set_watch, parse_hw_breakpoint_spec, table_text,
    watch_set_line,
};
use crate::repl::commands::{may_eval, CommandInvocation, CommandReply};
use crate::target::Machine;
use crate::text::{dec, joined, number, text_opt, texts, unsigned};
use crate::types::{PhysAddr, VirtAddr};
use crate::ui::{spec_addr, spec_bp_id, spec_bright_black, spec_symbol};
use crate::view::field_laws::owner;
use vstd::prelude::*;
use vstd::string::*;

verus! {

/// The words of a command from one on, with spaces between them; nothing where there
/// are none.
pub open spec fn words_from(invocation: CommandInvocation, start: int) -> Option<Seq<char>> {
    if start < invocation.argv@.len() {
        Some(
            joined(
                Seq::new(
                    (invocation.argv@.len() - start) as nat,
                    |i: int| invocation.argv@[start + i]@,
                ),
                " "@,
            ),
        )
    } else {
        None
    }
}

proof fn lemma_words(invocation: CommandInvocation, start: int)
    requires
        0 <= start,
    ensures
        condition_text(invocation, start) == words_from(invocation, start),
{
    if start < invocation.argv@.len() {
        assert(texts(invocation.argv@.skip(start)) =~= Seq::new(
            (invocation.argv@.len() - start) as nat,
            |i: int| invocation.argv@[start + i]@,
        ));
    }
}

/// A condition is all the words from its first on.
pub proof fn law_condition_is_the_rest(
    invocation: CommandInvocation,
    start: usize,
    r: Option<String>,
)
    requires
        call_ensures(breakpoint_condition, (&invocation, start), r),
    ensures
        words_from(invocation, start as int) == (match r {
            Some(condition) => Some(condition@),
            None => None,
        }),
{
    lemma_words(invocation, start as int);
}

/// Which accesses a letter stands for.
pub open spec fn means(letter: char, access: HwBreakpointAccess) -> bool {
    match access {
        HwBreakpointAccess::Execute => letter == 'e' || letter == 'E',
        HwBreakpointAccess::Write => letter == 'w' || letter == 'W',
        HwBreakpointAccess::ReadWrite => letter == 'r' || letter == 'R',
    }
}

/// Whether an access token stands for an access and a width: its letter, then the width
/// in decimal, which may be missing for execution alone and is then one byte.
pub open spec fn stands_for(token: Seq<char>, access: HwBreakpointAccess, len: u8) -> bool {
    &&& token.len() > 0
    &&& means(token[0], access)
    &&& if token.len() == 1 {
        access is Execute && len == 1
    } else {
        unsigned(token.subrange(1, token.len() as int), 10, 255) == Some(len as int)
    }
}

/// An access token is read if and only if it stands for something, and then as that.
pub proof fn law_access_tokens(token: &str, r: Result<(HwBreakpointAccess, u8), Error>)
    requires
        call_ensures(parse_hw_breakpoint_spec, (token,), r),
    ensures
        r matches Ok((access, len)) ==> stands_for(token@, access, len),
        r matches Err(e) ==> e is Rsp && forall|access: HwBreakpointAccess, len: u8|
            !#[trigger] stands_for(token@, access, len),
{
    lemma_token(token@, r);
}

proof fn lemma_token(token: Seq<char>, r: Result<(HwBreakpointAccess, u8), Error>)
    requires
        is_hw_spec(token, r),
    ensures
        r matches Ok((access, len)) ==> stands_for(token, access, len),
        r matches Err(e) ==> e is Rsp && forall|access: HwBreakpointAccess, len: u8|
            !#[trigger] stands_for(token, access, len),
{
    if token.len() > 0 {
        assert(token.skip(1) =~= token.subrange(1, token.len() as int));
        lemma_letters(token[0]);
        lemma_small(token.skip(1));
    }
}

proof fn lemma_letters(c: char)
    ensures
        match crate::repl::commands::breakpoints::access_of(c) {
            Some(access) => forall|other: HwBreakpointAccess|
                #[trigger] means(c, other) <==> other == access,
            None => forall|other: HwBreakpointAccess| !#[trigger] means(c, other),
        },
{
}

proof fn lemma_natural(s: Seq<char>)
    ensures
        number(s, 10) matches Some(n) ==> 0 <= n,
    decreases s.len(),
{
    if s.len() > 0 {
        lemma_natural(s.drop_last());
    }
}

proof fn lemma_small(s: Seq<char>)
    ensures
        unsigned(s, 10, 255) matches Some(n) ==> 0 <= n <= 255,
{
    let body = if s.len() > 0 && s[0] == '+' {
        s.skip(1)
    } else {
        s
    };
    lemma_natural(body);
}

/// The id of a breakpoint is the first word, in decimal; without one the command is
/// explained, and another word is complained about.
pub proof fn law_id_is_the_first_word(
    invocation: CommandInvocation,
    command: &'static str,
    r: Result<u32, CommandReply>,
)
    requires
        call_ensures(breakpoint_id_arg, (&invocation, command), r),
    ensures
        r matches Ok(id) ==> invocation.argv@.len() > 0 && unsigned(
            invocation.argv@[0]@,
            10,
            0xffff_ffff,
        ) == Some(id as int),
        invocation.argv@.len() == 0 ==> (r matches Err(CommandReply::Help(name)) && name@
            == command@),
        (invocation.argv@.len() > 0 && unsigned(invocation.argv@[0]@, 10, 0xffff_ffff) is None)
            ==> (r matches Err(CommandReply::Complaint(why)) && why@ == "invalid breakpoint ID: "@
            + invocation.argv@[0]@),
        (invocation.argv@.len() > 0 && unsigned(invocation.argv@[0]@, 10, 0xffff_ffff) is Some)
            ==> r is Ok,
{
    if invocation.argv@.len() > 0 {
        let s = invocation.argv@[0]@;
        let body = if s.len() > 0 && s[0] == '+' {
            s.skip(1)
        } else {
            s
        };
        lemma_natural(body);
    }
}

/// A symbol in parentheses.
pub open spec fn aside(symbol: Option<String>) -> Seq<char> {
    match symbol {
        Some(symbol) => " ("@ + spec_symbol(symbol@) + ")"@,
        None => ""@,
    }
}

/// A condition, muted.
pub open spec fn proviso(condition: Option<Seq<char>>) -> Seq<char> {
    match condition {
        Some(condition) => spec_bright_black(" if "@ + condition),
        None => spec_bright_black(""@),
    }
}

/// `bp` sets a breakpoint at the value of its first word, under the condition that the
/// other words are, and says so; without words it is explained. Where the word has no
/// value, or the breakpoint cannot be set, the reason is answered, and no breakpoint is
/// added.
pub proof fn law_bp<
    E,
    C: DebugBackend,
    M: MemoryOps<PhysAddr>,
    V: FnOnce(&str) -> Result<VirtAddr, Error>,
    S: FnOnce(VirtAddr) -> Option<String>,
    F: FnOnce(&str) -> Result<E, Error>,
    R: FnOnce(VirtAddr) -> Result<Vec<u8>, Error>,
>(
    manager: &BreakpointManager<E>,
    pre: Machine<C, M>,
    invocation: CommandInvocation,
    eval: V,
    closest: S,
    parse: F,
    read_image: R,
    post: &BreakpointManager<E>,
    end: Machine<C, M>,
    reply: CommandReply,
    held: spec_fn(C) -> Held,
)
    requires
        may_bp(
            manager,
            pre,
            invocation,
            eval,
            closest,
            parse,
            read_image,
            post,
            end,
            reply,
        ),
        tells(held),
    ensures
        invocation.argv@.len() == 0 ==> (reply matches CommandReply::Help(name) && name@ == "bp"@),
        invocation.argv@.len() > 0 ==> reply is Said || reply is Failed,
        !(reply is Said) ==> untouched(manager, post) && held(end.client) == held(pre.client),
        reply matches CommandReply::Said(words) ==> {
            let id = manager.next_id;
            let bp = post.breakpoints@[id];
            &&& invocation.argv@.len() > 0
            &&& may_eval(eval, invocation.argv@[0]@, Ok(bp.address))
            &&& call_ensures(closest, (bp.address,), bp.symbol)
            &&& words_from(invocation, 1) == (match bp.condition {
                Some(condition) => Some(condition@),
                None => None,
            })
            &&& post.breakpoints@.contains_key(id)
            &&& bp.id == id && bp.enabled && !bp.temporary && bp.hardware is None
            &&& words@ == "breakpoint "@ + spec_bp_id(id) + " set at "@ + spec_addr(bp.address.0)
                + aside(bp.symbol) + proviso(words_from(invocation, 1)) + spec_bright_black(
                " ("@ + owner(bp.scope) + ")"@,
            ) + "\n"@
        },
{
    if invocation.argv@.len() > 0 {
        let place = choose|place: Result<VirtAddr, Error>|
            {
                &&& #[trigger] may_eval(eval, invocation.argv@[0]@, place)
                &&& match place {
                    Err(e) => reply == CommandReply::Failed(e) && manager.unchanged(post) && end
                        == pre,
                    Ok(address) => may_set_code(
                        manager,
                        pre,
                        condition_text(invocation, 1),
                        address,
                        closest,
                        parse,
                        read_image,
                        post,
                        end,
                        reply,
                    ),
                }
            };
        if let Ok(address) = place {
            lemma_words(invocation, 1);
            let condition = condition_text(invocation, 1);
            let (symbol, request, added) = choose|
                symbol: Option<String>,
                request: CodeRequest<F, R>,
                added: Result<u32, Error>,
            |
                {
                    &&& #[trigger] call_ensures(closest, (address,), symbol)
                    &&& #[trigger] manager.may_add_code(pre, request, post, end, added)
                    &&& request.address == address
                    &&& request.symbol == symbol
                    &&& text_opt(request.condition) == condition
                    &&& !request.temporary
                    &&& request.parse == parse
                    &&& request.read_image == read_image
                    &&& match added {
                        Ok(id) => reply.says(
                            code_set_line(
                                id,
                                address,
                                text_opt(symbol),
                                condition,
                                post.breakpoints@[id].scope.spec_label(),
                            ),
                        ),
                        Err(e) => reply == CommandReply::Failed(e),
                    }
                };
            law_setting_a_code_breakpoint(manager, pre, request, post, end, added, held);
        }
    }
}

/// `ba` arms a debug register for the access of its first word at the value of its
/// second, under the condition that the other words are, and says so; with fewer words
/// it is explained. Where a word means nothing, or no register can be armed, the reason
/// is answered, and no breakpoint is added.
pub proof fn law_ba<
    E,
    C: DebugBackend,
    V: FnOnce(&str) -> Result<VirtAddr, Error>,
    S: FnOnce(VirtAddr) -> Option<String>,
    F: FnOnce(&str) -> Result<E, Error>,
>(
    manager: &BreakpointManager<E>,
    pre: C,
    invocation: CommandInvocation,
    eval: V,
    closest: S,
    parse: F,
    post: &BreakpointManager<E>,
    end: C,
    reply: CommandReply,
    held: spec_fn(C) -> Held,
)
    requires
        may_ba(manager, &pre, invocation, eval, closest, parse, post, &end, reply),
        tells(held),
    ensures
        invocation.argv@.len() < 2 ==> (reply matches CommandReply::Help(name) && name@ == "ba"@),
        invocation.argv@.len() >= 2 ==> reply is Said || reply is Failed,
        !(reply is Said) ==> untouched(manager, post) && held(end) == held(pre),
        reply matches CommandReply::Said(words) ==> {
            let id = manager.next_id;
            let bp = post.breakpoints@[id];
            &&& invocation.argv@.len() >= 2
            &&& post.breakpoints@.contains_key(id)
            &&& bp.id == id && bp.enabled && !bp.temporary
            &&& may_eval(eval, invocation.argv@[1]@, Ok(bp.address))
            &&& call_ensures(closest, (bp.address,), bp.symbol)
            &&& words_from(invocation, 2) == (match bp.condition {
                Some(condition) => Some(condition@),
                None => None,
            })
            &&& bp.hardware matches Some(hw) && {
                &&& stands_for(invocation.argv@[0]@, hw.access, hw.len)
                &&& held(end).registers.contains_key(hw.slot)
                &&& held(end).registers[hw.slot].address == bp.address.0
                &&& held(end).registers[hw.slot].access == hw.access
                &&& held(end).registers[hw.slot].len == hw.len
                &&& words@ == "hardware breakpoint "@ + spec_bp_id(id) + " ("@ + (
                match hw.access {
                    HwBreakpointAccess::Execute => "execute"@,
                    HwBreakpointAccess::Write => "write"@,
                    HwBreakpointAccess::ReadWrite => "read/write"@,
                }) + " "@ + dec(hw.len as nat) + "b) set at "@ + spec_addr(bp.address.0) + aside(
                    bp.symbol,
                ) + proviso(words_from(invocation, 2)) + "\n"@
            }
        },
{
    if invocation.argv@.len() >= 2 {
        let wanted = choose|wanted: Result<(HwBreakpointAccess, u8), Error>|
            {
                &&& #[trigger] is_hw_spec(invocation.argv@[0]@, wanted)
                &&& match wanted {
                    Err(e) => reply == CommandReply::Failed(e) && manager.unchanged(post) && end
                        == pre,
                    Ok((access, len)) => exists|place: Result<VirtAddr, Error>|
                        {
                            &&& #[trigger] may_eval(eval, invocation.argv@[1]@, place)
                            &&& match place {
                                Err(e) => reply == CommandReply::Failed(e) && manager.unchanged(
                                    post,
                                ) && end == pre,
                                Ok(address) => may_set_watch(
                                    manager,
                                    &pre,
                                    condition_text(invocation, 2),
                                    address,
                                    access,
                                    len,
                                    closest,
                                    parse,
                                    post,
                                    &end,
                                    reply,
                                ),
                            }
                        },
                }
            };
        lemma_token(invocation.argv@[0]@, wanted);
        if let Ok((access, len)) = wanted {
            let place = choose|place: Result<VirtAddr, Error>|
                {
                    &&& #[trigger] may_eval(eval, invocation.argv@[1]@, place)
                    &&& match place {
                        Err(e) => reply == CommandReply::Failed(e) && manager.unchanged(post) && end
                            == pre,
                        Ok(address) => may_set_watch(
                            manager,
                            &pre,
                            condition_text(invocation, 2),
                            address,
                            access,
                            len,
                            closest,
                            parse,
                            post,
                            &end,
                            reply,
                        ),
                    }
                };
            if let Ok(address) = place {
                lemma_words(invocation, 2);
                let condition = condition_text(invocation, 2);
                let (symbol, request, added) = choose|
                    symbol: Option<String>,
                    request: WatchRequest<F>,
                    added: Result<u32, Error>,
                |
                    {
                        &&& #[trigger] call_ensures(closest, (address,), symbol)
                        &&& #[trigger] manager.may_add_hardware(&pre, request, post, &end, added)
                        &&& request.address == address
                        &&& request.access == access
                        &&& request.len == len
                        &&& request.symbol == symbol
                        &&& text_opt(request.condition) == condition
                        &&& request.parse == parse
                        &&& match added {
                            Ok(id) => reply.says(
                                watch_set_line(
                                    id,
                                    access,
                                    len,
                                    address,
                                    text_opt(symbol),
                                    condition,
                                ),
                            ),
                            Err(e) => reply == CommandReply::Failed(e),
                        }
                    };
                law_setting_a_watch_arms(manager, pre, request, post, end, added, held);
            }
        }
    }
}

/// The row of a breakpoint, column by column of the heading.
pub open spec fn row_of<E>(bp: Breakpoint<E>) -> Seq<Seq<char>> {
    seq![
        dec(bp.id as nat),
        if bp.enabled {
            "enabled"@
        } else {
            "disabled"@
        },
        match bp.hardware {
            None => "sw"@,
            Some(hw) => "hw "@ + (match hw.access {
                HwBreakpointAccess::Execute => seq!['e'],
                HwBreakpointAccess::Write => seq!['w'],
                HwBreakpointAccess::ReadWrite => seq!['r'],
            }) + dec(hw.len as nat),
        },
        spec_addr(bp.address.0),
        match bp.symbol {
            Some(symbol) => symbol@,
            None => "-"@,
        },
        match bp.condition {
            Some(condition) => condition@,
            None => "-"@,
        },
        owner(bp.scope),
    ]
}

/// Whether a table is that of the breakpoints: a heading, and then one row for each
/// breakpoint, those with lower ids first.
pub open spec fn tabulates<E>(manager: BreakpointManager<E>, table: Seq<Seq<Seq<char>>>) -> bool {
    exists|order: Seq<u32>|
        {
            &&& #[trigger] manager.lists(order)
            &&& table.len() == order.len() + 1
            &&& table[0] == seq![
                "ID"@,
                "Status"@,
                "Type"@,
                "Address"@,
                "Symbol"@,
                "Condition"@,
                "Scope"@,
            ]
            &&& forall|i: int|
                0 <= i < order.len() ==> #[trigger] table[i + 1] == row_of(
                    manager.breakpoints@[order[i]],
                )
        }
}

proof fn lemma_table<E>(manager: BreakpointManager<E>, order: Seq<u32>)
    requires
        manager.lists(order),
    ensures
        tabulates(manager, breakpoint_cells(manager, order)),
{
    let table = breakpoint_cells(manager, order);
    assert(breakpoint_heading() =~= seq![
        "ID"@,
        "Status"@,
        "Type"@,
        "Address"@,
        "Symbol"@,
        "Condition"@,
        "Scope"@,
    ]);
    assert forall|i: int| 0 <= i < order.len() implies #[trigger] table[i + 1] == row_of(
        manager.breakpoints@[order[i]],
    ) by {
        let bp = manager.breakpoints@[order[i]];
        assert(breakpoint_row(bp) =~= row_of(bp));
    }
}

/// The table of breakpoints has a row for each breakpoint, by its id, with each of its
/// parts in the column that is headed so.
pub proof fn law_breakpoint_table<E>(manager: BreakpointManager<E>, r: Vec<Vec<String>>)
    requires
        call_ensures(breakpoint_table::<E>, (&manager,), r),
    ensures
        tabulates(manager, cells(r@)),
{
    let order = choose|order: Seq<u32>| #[trigger]
        manager.lists(order) && cells(r@) == breakpoint_cells(manager, order);
    lemma_table(manager, order);
}

/// `bl` says that there are no breakpoints if and only if there are none; else it lays
/// out their table with two spaces between columns.
pub proof fn law_bl<E>(manager: BreakpointManager<E>, r: CommandReply)
    requires
        call_ensures(cmd_bl::<E>, (&manager,), r),
    ensures
        r is Said,
        (forall|id: u32| !#[trigger] manager.breakpoints@.contains_key(id)) ==> (r->Said_0)@
            == "no breakpoints set\n"@,
        (exists|id: u32| #[trigger] manager.breakpoints@.contains_key(id)) ==> exists|
            table: Seq<Seq<Seq<char>>>,
        | #[trigger]
            tabulates(manager, table) && (r->Said_0)@ == table_text(table, 0, 2, 0, 0) + "\n"@,
{
    if exists|id: u32| #[trigger] manager.breakpoints@.contains_key(id) {
        let id = choose|id: u32| #[trigger] manager.breakpoints@.contains_key(id);
        assert(manager.breakpoints@.dom().contains(id));
        assert(!manager.breakpoints@.dom().is_empty());
        let order = choose|order: Seq<u32>| #[trigger]
            manager.lists(order) && r.says(
                table_text(breakpoint_cells(manager, order), 0, 2, 0, 0) + "\n"@,
            );
        lemma_table(manager, order);
    } else {
        assert(manager.breakpoints@.dom().is_empty()) by {
            assert forall|id: u32| !manager.breakpoints@.dom().contains(id) by {
                assert(!manager.breakpoints@.contains_key(id));
            }
        }
    }
}

/// A change of a breakpoint is said to be done if and only if it was; else its reason is
/// answered.
pub proof fn law_changes_are_answered(
    reply: CommandReply,
    id: u32,
    done: Result<(), Error>,
    what: Seq<char>,
)
    requires
        answers_change(reply, id, done, what),
    ensures
        reply is Said <==> done is Ok,
        done matches Err(e) ==> reply == CommandReply::Failed(e),
        reply matches CommandReply::Said(words) ==> words@ == "breakpoint "@ + spec_bp_id(id) + " "@
            + what + "\n"@,
{
}

/// What is said of a token that stands for no access and width: that its letter means
/// nothing, that the width is missing, or which width is meant by nothing.
pub proof fn law_bad_tokens_are_told(token: &str, r: Result<(HwBreakpointAccess, u8), Error>)
    requires
        call_ensures(parse_hw_breakpoint_spec, (token,), r),
        r is Err,
    ensures
        r matches Err(Error::Rsp(words)) && words@ == if token@.len() == 0 || (forall|
            access: HwBreakpointAccess,
        |
            !#[trigger] means(token@[0], access)) {
            "invalid access in '"@ + token@ + "' (use e=execute, r=read/write, w=write)"@
        } else if token@.len() == 1 {
            "missing size in '"@ + token@ + "' (e.g. ba w4 <address>)"@
        } else {
            "invalid size '"@ + token@.subrange(1, token@.len() as int) + "' (use 1, 2, 4, or 8)"@
        },
{
    if token@.len() > 0 {
        assert(token@.skip(1) =~= token@.subrange(1, token@.len() as int));
        lemma_letters(token@[0]);
        if let Some(access) = crate::repl::commands::breakpoints::access_of(token@[0]) {
            assert(means(token@[0], access));
        }
    }
}

} // verus!
