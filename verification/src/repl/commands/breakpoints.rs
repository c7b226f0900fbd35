//! The breakpoint commands: bp, ba, bl, bc, bd, be.
use crate::backend::{DebugBackend, HwBreakpointAccess};
use crate::error::Error;
use crate::gdb::breakpoints::{Breakpoint, BreakpointManager, CodeRequest};
use crate::gdb::changes::WatchRequest;
use crate::gdb::install::refused;
use crate::memory::MemoryOps;
use crate::repl::commands::{may_eval, CommandInvocation, CommandReply};
use crate::repl::completion::{caches_follow, ReplCaches};
use crate::target::{machine, Machine, Target};
use crate::text::{
    chars, dec, decimal, from_chars, no_lines, parse_unsigned, push_line, text, text_opt, texts,
    unsigned,
};
use crate::types::{PhysAddr, VirtAddr};
use crate::ui;
use crate::ui::{bright_black, spec_addr, spec_bp_id, spec_bright_black, spec_symbol};
use tabled::builder::Builder;
use tabled::settings::{Padding, Style};
use vstd::prelude::*;
use vstd::string::*;

verus! {

/// The condition in a command whose arguments from `start` on are one.
pub open spec fn condition_text(invocation: CommandInvocation, start: int) -> Option<Seq<char>> {
    if invocation.argv@.len() > start {
        Some(invocation.joined_from(start))
    } else {
        None
    }
}

/// The condition in a command whose arguments from `start` on are one.
pub fn breakpoint_condition(invocation: &CommandInvocation, start: usize) -> (r: Option<String>)
    ensures
        text_opt(r) == condition_text(*invocation, start as int),
{
    if invocation.argv.len() > start {
        Some(invocation.join_args(start))
    } else {
        None
    }
}

/// The access that a letter stands for, in either case.
pub open spec fn access_of(c: char) -> Option<HwBreakpointAccess> {
    if c == 'e' || c == 'E' {
        Some(HwBreakpointAccess::Execute)
    } else if c == 'w' || c == 'W' {
        Some(HwBreakpointAccess::Write)
    } else if c == 'r' || c == 'R' {
        Some(HwBreakpointAccess::ReadWrite)
    } else {
        None
    }
}

/// Whether `r` is what a `ba` access/size token stands for, or the reason why it
/// stands for nothing: an access letter and a width, which may be missing for
/// execution.
pub open spec fn is_hw_spec(spec: Seq<char>, r: Result<(HwBreakpointAccess, u8), Error>) -> bool {
    let access = if spec.len() == 0 {
        None
    } else {
        access_of(spec[0])
    };
    match access {
        None => refused(
            r,
            "invalid access in '"@ + spec + "' (use e=execute, r=read/write, w=write)"@,
        ),
        Some(access) => {
            let size = spec.skip(1);
            if size.len() == 0 {
                if access is Execute {
                    r == Ok::<(HwBreakpointAccess, u8), Error>((access, 1u8))
                } else {
                    refused(r, "missing size in '"@ + spec + "' (e.g. ba w4 <address>)"@)
                }
            } else {
                match unsigned(size, 10, 255) {
                    Some(len) => r == Ok::<(HwBreakpointAccess, u8), Error>((access, len as u8)),
                    None => refused(r, "invalid size '"@ + size + "' (use 1, 2, 4, or 8)"@),
                }
            }
        },
    }
}

/// Parse a WinDbg-style `ba` access/size token like `w4`, `r1`, `e1`: a leading
/// access letter (`e`/`r`/`w`) followed by the watch width in bytes.
pub fn parse_hw_breakpoint_spec(spec: &str) -> (r: Result<(HwBreakpointAccess, u8), Error>)
    ensures
        is_hw_spec(spec@, r),
{
    let c = chars(spec);
    let mut access: Option<HwBreakpointAccess> = None;
    if c.len() > 0 {
        if c[0] == 'e' || c[0] == 'E' {
            access = Some(HwBreakpointAccess::Execute);
        } else if c[0] == 'w' || c[0] == 'W' {
            access = Some(HwBreakpointAccess::Write);
        } else if c[0] == 'r' || c[0] == 'R' {
            access = Some(HwBreakpointAccess::ReadWrite);
        }
    }
    let access = match access {
        Some(access) => access,
        None => return Err(
            Error::Rsp(
                text("invalid access in '").concat(spec).concat(
                    "' (use e=execute, r=read/write, w=write)",
                ),
            ),
        ),
    };
    let size = vstd::slice::slice_subrange(c.as_slice(), 1, c.len());
    assert(size@ =~= spec@.skip(1));
    if size.len() == 0 {
        // Execute watches are always a single byte; allow the bare `e`.
        return match access {
            HwBreakpointAccess::Execute => Ok((access, 1)),
            _ => Err(
                Error::Rsp(
                    text("missing size in '").concat(spec).concat("' (e.g. ba w4 <address>)"),
                ),
            ),
        };
    }
    match parse_unsigned(size, 10, 255) {
        Some(len) => Ok((access, len as u8)),
        None => Err(
            Error::Rsp(
                text("invalid size '").concat(from_chars(size).as_str()).concat(
                    "' (use 1, 2, 4, or 8)",
                ),
            ),
        ),
    }
}

/// Whether `r` is the breakpoint id in the first argument, or what is answered
/// where it is missing or no id.
pub open spec fn is_id_arg(
    invocation: CommandInvocation,
    command: Seq<char>,
    r: Result<u32, CommandReply>,
) -> bool {
    if invocation.argv@.len() == 0 {
        r matches Err(reply) && reply.helps(command)
    } else {
        let arg = invocation.argv@[0]@;
        match unsigned(arg, 10, u32::MAX as int) {
            Some(id) => r == Ok::<u32, CommandReply>(id as u32),
            None => r matches Err(reply) && reply.complains("invalid breakpoint ID: "@ + arg),
        }
    }
}

/// The breakpoint id in the first argument, or what to answer.
pub fn breakpoint_id_arg(invocation: &CommandInvocation, command: &'static str) -> (r: Result<
    u32,
    CommandReply,
>)
    ensures
        is_id_arg(*invocation, command@, r),
{
    let id_str = match invocation.arg(0) {
        Some(arg) => arg,
        None => return Err(CommandReply::Help(command)),
    };
    match parse_unsigned(chars(id_str).as_slice(), 10, u32::MAX as u64) {
        Some(id) => Ok(id as u32),
        None => Err(
            CommandReply::Complaint(text("invalid breakpoint ID: ").concat(id_str)),
        ),
    }
}

/// A symbol in parentheses after a space, where there is one.
pub open spec fn symbol_suffix(symbol: Option<Seq<char>>) -> Seq<char> {
    match symbol {
        Some(s) => " ("@ + spec_symbol(s) + ")"@,
        None => ""@,
    }
}

fn format_symbol_suffix(symbol: &Option<String>) -> (r: String)
    ensures
        r@ == symbol_suffix(text_opt(*symbol)),
{
    match symbol {
        Some(s) => text(" (").concat(ui::symbol(s.as_str()).as_str()).concat(")"),
        None => text(""),
    }
}

/// A condition, muted, where there is one.
pub open spec fn condition_suffix(condition: Option<Seq<char>>) -> Seq<char> {
    spec_bright_black(
        match condition {
            Some(c) => " if "@ + c,
            None => ""@,
        },
    )
}

fn format_condition_suffix(condition: &Option<String>) -> (r: String)
    ensures
        r@ == condition_suffix(text_opt(*condition)),
{
    let label = match condition {
        Some(c) => text(" if ").concat(c.as_str()),
        None => text(""),
    };
    bright_black(label.as_str())
}

/// What is said of a new hardware breakpoint.
pub open spec fn watch_set_line(
    id: u32,
    access: HwBreakpointAccess,
    len: u8,
    address: VirtAddr,
    symbol: Option<Seq<char>>,
    condition: Option<Seq<char>>,
) -> Seq<char> {
    "hardware breakpoint "@ + spec_bp_id(id) + " ("@ + access.spec_label() + " "@ + dec(len as nat)
        + "b) set at "@ + spec_addr(address.0) + symbol_suffix(symbol) + condition_suffix(condition)
        + "\n"@
}

/// Whether `ba` may turn the manager from `manager` to `post` and the transport
/// from `pre` to `end`, and answer `reply`.
pub open spec fn may_ba<
    E,
    C: DebugBackend,
    V: FnOnce(&str) -> Result<VirtAddr, Error>,
    S: FnOnce(VirtAddr) -> Option<String>,
    F: FnOnce(&str) -> Result<E, Error>,
>(
    manager: &BreakpointManager<E>,
    pre: &C,
    invocation: CommandInvocation,
    eval: V,
    closest: S,
    parse: F,
    post: &BreakpointManager<E>,
    end: &C,
    reply: CommandReply,
) -> bool {
    if invocation.argv@.len() < 2 {
        reply.helps("ba"@) && manager.unchanged(post) && end == pre
    } else {
        exists|wanted: Result<(HwBreakpointAccess, u8), Error>|
            {
                &&& #[trigger] is_hw_spec(invocation.argv@[0]@, wanted)
                &&& match wanted {
                    Err(e) => reply == CommandReply::Failed(e) && manager.unchanged(post) && end
                        == pre,
                    Ok((access, len)) => exists|place: Result<VirtAddr, Error>|
                        {
                            &&& #[trigger] may_eval(eval, invocation.argv@[1]@, place)
                            &&& match place {
                                Err(e) => reply == CommandReply::Failed(e) && manager.unchanged(
                                    post,
                                ) && end == pre,
                                Ok(address) => may_set_watch(
                                    manager,
                                    pre,
                                    condition_text(invocation, 2),
                                    address,
                                    access,
                                    len,
                                    closest,
                                    parse,
                                    post,
                                    end,
                                    reply,
                                ),
                            }
                        },
                }
            }
    }
}

/// What `ba` may do once its arguments are known.
pub open spec fn may_set_watch<
    E,
    C: DebugBackend,
    S: FnOnce(VirtAddr) -> Option<String>,
    F: FnOnce(&str) -> Result<E, Error>,
>(
    manager: &BreakpointManager<E>,
    pre: &C,
    condition: Option<Seq<char>>,
    address: VirtAddr,
    access: HwBreakpointAccess,
    len: u8,
    closest: S,
    parse: F,
    post: &BreakpointManager<E>,
    end: &C,
    reply: CommandReply,
) -> bool {
    exists|symbol: Option<String>, request: WatchRequest<F>, added: Result<u32, Error>|
        {
            &&& #[trigger] call_ensures(closest, (address,), symbol)
            &&& #[trigger] manager.may_add_hardware(pre, request, post, end, added)
            &&& request.address == address
            &&& request.access == access
            &&& request.len == len
            &&& request.symbol == symbol
            &&& text_opt(request.condition) == condition
            &&& request.parse == parse
            &&& match added {
                Ok(id) => reply.says(
                    watch_set_line(id, access, len, address, text_opt(symbol), condition),
                ),
                Err(e) => reply == CommandReply::Failed(e),
            }
        }
}

fn copy_text(s: &Option<String>) -> (r: Option<String>)
    ensures
        r == *s,
{
    match s {
        Some(s) => Some(s.clone()),
        None => None,
    }
}

/// `ba <access><size> <address> [<expr>]`: sets a hardware breakpoint. `eval`
/// evaluates the address, `closest` gives its closest symbol, `parse` compiles
/// the condition.
pub fn cmd_ba<
    E,
    X,
    T,
    D,
    C: DebugBackend,
    V: FnOnce(&str) -> Result<VirtAddr, Error>,
    S: FnOnce(VirtAddr) -> Option<String>,
    F: FnOnce(&str) -> Result<E, Error>,
>(
    invocation: &CommandInvocation,
    breakpoints: &mut BreakpointManager<E>,
    caches: &mut ReplCaches<X, T, D>,
    client: &mut C,
    eval: V,
    closest: S,
    parse: F,
) -> (r: CommandReply)
    requires
        old(breakpoints).next_id < u32::MAX,
        forall|s: &str| call_requires(eval, (s,)),
        forall|a: VirtAddr| call_requires(closest, (a,)),
        forall|s: &str| call_requires(parse, (s,)),
    ensures
        may_ba(
            old(breakpoints),
            old(client),
            *invocation,
            eval,
            closest,
            parse,
            final(breakpoints),
            final(client),
            r,
        ),
        old(breakpoints).well_formed() ==> final(breakpoints).well_formed(),
        r is Said ==> caches_follow(*old(caches), *final(caches), *final(breakpoints)),
        !(r is Said) ==> *final(caches) == *old(caches),
{
    let spec_str = match invocation.arg(0) {
        Some(arg) => arg,
        None => return CommandReply::Help("ba"),
    };
    let addr_str = match invocation.arg(1) {
        Some(arg) => arg,
        None => return CommandReply::Help("ba"),
    };
    let wanted = parse_hw_breakpoint_spec(spec_str);
    assert(is_hw_spec(invocation.argv@[0]@, wanted));
    let (access, len) = match wanted {
        Ok(parsed) => parsed,
        Err(e) => return CommandReply::Failed(e),
    };
    let place = eval(addr_str);
    assert(may_eval(eval, invocation.argv@[1]@, place)) by {
        assert(call_ensures(eval, (addr_str,), place));
    }
    let address = match place {
        Ok(address) => address,
        Err(e) => return CommandReply::Failed(e),
    };
    let condition = breakpoint_condition(invocation, 2);
    let symbol = closest(address);
    let ghost request = WatchRequest { address, access, len, symbol, condition, parse };
    let added = breakpoints.add_hardware(
        client,
        address,
        access,
        len,
        copy_text(&symbol),
        copy_text(&condition),
        parse,
    );
    assert(old(breakpoints).may_add_hardware(old(client), request, breakpoints, client, added));
    assert(call_ensures(closest, (address,), symbol));
    let reply = match added {
        Ok(id) => {
            caches.refresh_breakpoints(breakpoints);
            CommandReply::Said(
                text("hardware breakpoint ").concat(ui::bp_id(id).as_str()).concat(" (").concat(
                    access.label(),
                ).concat(" ").concat(decimal(len as u64).as_str()).concat("b) set at ").concat(
                    ui::addr(address.0).as_str(),
                ).concat(format_symbol_suffix(&symbol).as_str()).concat(
                    format_condition_suffix(&condition).as_str(),
                ).concat("\n"),
            )
        },
        Err(e) => CommandReply::Failed(e),
    };
    assert(may_set_watch(
        old(breakpoints),
        old(client),
        condition_text(*invocation, 2),
        address,
        access,
        len,
        closest,
        parse,
        breakpoints,
        client,
        reply,
    ));
    reply
}

/// What is said of a new breakpoint.
pub open spec fn code_set_line(
    id: u32,
    address: VirtAddr,
    symbol: Option<Seq<char>>,
    condition: Option<Seq<char>>,
    scope: Seq<char>,
) -> Seq<char> {
    "breakpoint "@ + spec_bp_id(id) + " set at "@ + spec_addr(address.0) + symbol_suffix(symbol)
        + condition_suffix(condition) + spec_bright_black(" ("@ + scope + ")"@) + "\n"@
}

/// Whether `bp` may turn the manager from `manager` to `post` and the machine
/// from `pre` to `end`, and answer `reply`.
pub open spec fn may_bp<
    E,
    C: DebugBackend,
    M: MemoryOps<PhysAddr>,
    V: FnOnce(&str) -> Result<VirtAddr, Error>,
    S: FnOnce(VirtAddr) -> Option<String>,
    F: FnOnce(&str) -> Result<E, Error>,
    R: FnOnce(VirtAddr) -> Result<Vec<u8>, Error>,
>(
    manager: &BreakpointManager<E>,
    pre: Machine<C, M>,
    invocation: CommandInvocation,
    eval: V,
    closest: S,
    parse: F,
    read_image: R,
    post: &BreakpointManager<E>,
    end: Machine<C, M>,
    reply: CommandReply,
) -> bool {
    if invocation.argv@.len() < 1 {
        reply.helps("bp"@) && manager.unchanged(post) && end == pre
    } else {
        exists|place: Result<VirtAddr, Error>|
            {
                &&& #[trigger] may_eval(eval, invocation.argv@[0]@, place)
                &&& match place {
                    Err(e) => reply == CommandReply::Failed(e) && manager.unchanged(post) && end
                        == pre,
                    Ok(address) => may_set_code(
                        manager,
                        pre,
                        condition_text(invocation, 1),
                        address,
                        closest,
                        parse,
                        read_image,
                        post,
                        end,
                        reply,
                    ),
                }
            }
    }
}

/// What `bp` may do once its arguments are known.
pub open spec fn may_set_code<
    E,
    C: DebugBackend,
    M: MemoryOps<PhysAddr>,
    S: FnOnce(VirtAddr) -> Option<String>,
    F: FnOnce(&str) -> Result<E, Error>,
    R: FnOnce(VirtAddr) -> Result<Vec<u8>, Error>,
>(
    manager: &BreakpointManager<E>,
    pre: Machine<C, M>,
    condition: Option<Seq<char>>,
    address: VirtAddr,
    closest: S,
    parse: F,
    read_image: R,
    post: &BreakpointManager<E>,
    end: Machine<C, M>,
    reply: CommandReply,
) -> bool {
    exists|symbol: Option<String>, request: CodeRequest<F, R>, added: Result<u32, Error>|
        {
            &&& #[trigger] call_ensures(closest, (address,), symbol)
            &&& #[trigger] manager.may_add_code(pre, request, post, end, added)
            &&& request.address == address
            &&& request.symbol == symbol
            &&& text_opt(request.condition) == condition
            &&& !request.temporary
            &&& request.parse == parse
            &&& request.read_image == read_image
            &&& match added {
                Ok(id) => reply.says(
                    code_set_line(
                        id,
                        address,
                        text_opt(symbol),
                        condition,
                        post.breakpoints@[id].scope.spec_label(),
                    ),
                ),
                Err(e) => reply == CommandReply::Failed(e),
            }
        }
}

/// `bp <address> [<expr>]`: sets a breakpoint for the current context. Whether
/// process breakpoints can be had is up to the backend: the manager refuses
/// them with [`Error::NotSupported`] where they cannot. `eval` evaluates the
/// address, `closest` gives its closest symbol, `parse` compiles the condition,
/// and `read_image` reads the image of a module.
pub fn cmd_bp<
    E,
    X,
    T,
    D,
    C: DebugBackend,
    M: MemoryOps<PhysAddr>,
    V: FnOnce(&str) -> Result<VirtAddr, Error>,
    S: FnOnce(VirtAddr) -> Option<String>,
    F: FnOnce(&str) -> Result<E, Error>,
    R: FnOnce(VirtAddr) -> Result<Vec<u8>, Error>,
>(
    invocation: &CommandInvocation,
    breakpoints: &mut BreakpointManager<E>,
    caches: &mut ReplCaches<X, T, D>,
    client: &mut C,
    debugger: &mut Target<M>,
    eval: V,
    closest: S,
    parse: F,
    read_image: R,
) -> (r: CommandReply)
    requires
        old(breakpoints).next_id < u32::MAX,
        forall|s: &str| call_requires(eval, (s,)),
        forall|a: VirtAddr| call_requires(closest, (a,)),
        forall|s: &str| call_requires(parse, (s,)),
        forall|base: VirtAddr| call_requires(read_image, (base,)),
    ensures
        may_bp(
            old(breakpoints),
            machine(old(client), old(debugger)),
            *invocation,
            eval,
            closest,
            parse,
            read_image,
            final(breakpoints),
            machine(final(client), final(debugger)),
            r,
        ),
        old(breakpoints).well_formed() ==> final(breakpoints).well_formed(),
        r is Said ==> caches_follow(*old(caches), *final(caches), *final(breakpoints)),
        !(r is Said) ==> *final(caches) == *old(caches),
{
    let addr_str = match invocation.arg(0) {
        Some(arg) => arg,
        None => return CommandReply::Help("bp"),
    };
    let condition = breakpoint_condition(invocation, 1);
    let place = eval(addr_str);
    assert(may_eval(eval, invocation.argv@[0]@, place)) by {
        assert(call_ensures(eval, (addr_str,), place));
    }
    let address = match place {
        Ok(address) => address,
        Err(e) => return CommandReply::Failed(e),
    };
    let symbol = closest(address);
    let ghost request = CodeRequest {
        address,
        symbol,
        condition,
        temporary: false,
        parse,
        read_image,
    };
    let added = breakpoints.add(
        client,
        debugger,
        address,
        copy_text(&symbol),
        copy_text(&condition),
        parse,
        read_image,
    );
    assert(old(breakpoints).may_add_code(
        machine(old(client), old(debugger)),
        request,
        breakpoints,
        machine(client, debugger),
        added,
    ));
    assert(call_ensures(closest, (address,), symbol));
    let reply = match added {
        Ok(id) => {
            caches.refresh_breakpoints(breakpoints);
            let scope = scope_label(breakpoints, id);
            CommandReply::Said(
                text("breakpoint ").concat(ui::bp_id(id).as_str()).concat(" set at ").concat(
                    ui::addr(address.0).as_str(),
                ).concat(format_symbol_suffix(&symbol).as_str()).concat(
                    format_condition_suffix(&condition).as_str(),
                ).concat(
                    bright_black(text(" (").concat(scope.as_str()).concat(")").as_str()).as_str(),
                ).concat("\n"),
            )
        },
        Err(e) => CommandReply::Failed(e),
    };
    assert(may_set_code(
        old(breakpoints),
        machine(old(client), old(debugger)),
        condition_text(*invocation, 1),
        address,
        closest,
        parse,
        read_image,
        breakpoints,
        machine(client, debugger),
        reply,
    ));
    reply
}

fn scope_label<E>(breakpoints: &BreakpointManager<E>, id: u32) -> (r: String)
    requires
        breakpoints.breakpoints@.contains_key(id),
    ensures
        r@ == breakpoints.breakpoints@[id].scope.spec_label(),
{
    broadcast use vstd::std_specs::hash::group_hash_axioms;

    match breakpoints.breakpoints.get(&id) {
        Some(bp) => bp.scope.label(),
        None => text("global"),
    }
}

/// The cells of a table.
pub open spec fn cells(rows: Seq<Vec<String>>) -> Seq<Seq<Seq<char>>> {
    rows.map_values(|row: Vec<String>| texts(row@))
}

/// How a table of these cells is laid out in the empty style, which draws no
/// borders, with this many spaces to the left and right of each cell and this
/// many lines above and below it.
pub uninterp spec fn table_text(
    cells: Seq<Seq<Seq<char>>>,
    left: int,
    right: int,
    top: int,
    bottom: int,
) -> Seq<char>;

/// `tabled::builder::Builder::build` and the table's `Display`, in the style of
/// `tabled::settings::Style::empty`: named, not described. The layout depends on
/// the cells and the padding alone.
#[verifier::external_body]
fn lay_out_borderless(
    rows: Vec<Vec<String>>,
    left: usize,
    right: usize,
    top: usize,
    bottom: usize,
) -> (r: String)
    ensures
        r@ == table_text(cells(rows@), left as int, right as int, top as int, bottom as int),
{
    let mut table = Builder::from(rows).build();
    table.with(Style::empty()).with(Padding::new(left, right, top, bottom)).to_string()
}

/// The heading of the breakpoint table.
pub open spec fn breakpoint_heading() -> Seq<Seq<char>> {
    Seq::empty().push("ID"@).push("Status"@).push("Type"@).push("Address"@).push("Symbol"@).push(
        "Condition"@,
    ).push("Scope"@)
}

/// The kind of a breakpoint, as shown.
pub open spec fn kind_text<E>(bp: Breakpoint<E>) -> Seq<char> {
    match bp.hardware {
        Some(hw) => "hw "@ + seq![hw.access.spec_letter()] + dec(hw.len as nat),
        None => "sw"@,
    }
}

/// An optional text, or a dash.
pub open spec fn or_dash(s: Option<Seq<char>>) -> Seq<char> {
    match s {
        Some(s) => s,
        None => "-"@,
    }
}

/// The row of a breakpoint.
pub open spec fn breakpoint_row<E>(bp: Breakpoint<E>) -> Seq<Seq<char>> {
    Seq::empty().push(dec(bp.id as nat)).push(
        if bp.enabled {
            "enabled"@
        } else {
            "disabled"@
        },
    ).push(kind_text(bp)).push(spec_addr(bp.address.0)).push(or_dash(text_opt(bp.symbol))).push(
        or_dash(text_opt(bp.condition)),
    ).push(bp.scope.spec_label())
}

/// The cells of the breakpoint table, in this order of breakpoints.
pub open spec fn breakpoint_cells<E>(manager: BreakpointManager<E>, order: Seq<u32>) -> Seq<
    Seq<Seq<char>>,
> {
    Seq::new(
        order.len() + 1,
        |i: int|
            if i == 0 {
                breakpoint_heading()
            } else {
                breakpoint_row(manager.breakpoints@[order[i - 1]])
            },
    )
}

fn heading() -> (r: Vec<String>)
    ensures
        texts(r@) == breakpoint_heading(),
{
    let mut row = no_lines();
    push_line(&mut row, text("ID"));
    push_line(&mut row, text("Status"));
    push_line(&mut row, text("Type"));
    push_line(&mut row, text("Address"));
    push_line(&mut row, text("Symbol"));
    push_line(&mut row, text("Condition"));
    push_line(&mut row, text("Scope"));
    row
}

fn text_or_dash(s: &Option<String>) -> (r: String)
    ensures
        r@ == or_dash(text_opt(*s)),
{
    match s {
        Some(s) => s.clone(),
        None => text("-"),
    }
}

fn table_row<E>(bp: &Breakpoint<E>) -> (r: Vec<String>)
    ensures
        texts(r@) == breakpoint_row(*bp),
{
    let status = if bp.enabled {
        "enabled"
    } else {
        "disabled"
    };
    let kind = match bp.hardware {
        Some(hw) => {
            let mut letter = String::new();
            letter.push(hw.access.letter());
            assert(letter@ =~= seq![hw.access.spec_letter()]);
            text("hw ").concat(letter.as_str()).concat(decimal(hw.len as u64).as_str())
        },
        None => text("sw"),
    };
    let mut row = no_lines();
    push_line(&mut row, decimal(bp.id as u64));
    push_line(&mut row, text(status));
    push_line(&mut row, kind);
    push_line(&mut row, ui::addr(bp.address.0));
    push_line(&mut row, text_or_dash(&bp.symbol));
    push_line(&mut row, text_or_dash(&bp.condition));
    push_line(&mut row, bp.scope.label());
    row
}

/// The cells of the breakpoint table: a heading, then a row for each breakpoint
/// by ascending id.
pub fn breakpoint_table<E>(breakpoints: &BreakpointManager<E>) -> (r: Vec<Vec<String>>)
    ensures
        exists|order: Seq<u32>| #[trigger]
            breakpoints.lists(order) && cells(r@) == breakpoint_cells(*breakpoints, order),
{
    let list = breakpoints.list();
    let ghost order = choose|order: Seq<u32>| #[trigger]
        breakpoints.lists(order) && list@ =~= Seq::new(
            order.len(),
            |i: int| &breakpoints.breakpoints@[order[i]],
        );
    let mut rows: Vec<Vec<String>> = Vec::new();
    rows.push(heading());
    let mut i: usize = 0;
    while i < list.len()
        invariant
            i <= list@.len(),
            rows@.len() == i + 1,
            texts(rows@[0]@) == breakpoint_heading(),
            forall|k: int|
                0 <= k < i ==> texts((#[trigger] rows@[k + 1])@) == breakpoint_row(*list@[k]),
        decreases list@.len() - i,
    {
        rows.push(table_row(list[i]));
        i += 1;
    }
    proof {
        let wanted = breakpoint_cells(*breakpoints, order);
        assert forall|n: int| 0 <= n < rows@.len() implies #[trigger] cells(rows@)[n] == wanted[n] by {
            assert(cells(rows@)[n] == texts(rows@[n]@));
            if n > 0 {
                assert(texts(rows@[(n - 1) + 1]@) == breakpoint_row(*list@[n - 1]));
            }
        }
        assert(cells(rows@) =~= wanted);
    }
    rows
}

/// `bl`: lists all breakpoints.
pub fn cmd_bl<E>(breakpoints: &BreakpointManager<E>) -> (r: CommandReply)
    ensures
        breakpoints.breakpoints@.dom().is_empty() ==> r.says("no breakpoints set\n"@),
        !breakpoints.breakpoints@.dom().is_empty() ==> exists|order: Seq<u32>| #[trigger]
            breakpoints.lists(order) && r.says(
                table_text(breakpoint_cells(*breakpoints, order), 0, 2, 0, 0) + "\n"@,
            ),
{
    broadcast use vstd::std_specs::hash::group_hash_axioms;

    if breakpoints.breakpoints.is_empty() {
        return CommandReply::Said(text("no breakpoints set\n"));
    }
    let rows = breakpoint_table(breakpoints);
    CommandReply::Said(lay_out_borderless(rows, 0, 2, 0, 0).concat("\n"))
}

/// What is said of a breakpoint that was changed.
pub open spec fn changed_line(id: u32, what: Seq<char>) -> Seq<char> {
    "breakpoint "@ + spec_bp_id(id) + " "@ + what + "\n"@
}

/// Whether a reply is what a change of a breakpoint leads to.
pub open spec fn answers_change(
    reply: CommandReply,
    id: u32,
    done: Result<(), Error>,
    what: Seq<char>,
) -> bool {
    match done {
        Ok(_) => reply.says(changed_line(id, what)),
        Err(e) => reply == CommandReply::Failed(e),
    }
}

fn answer_change(id: u32, done: Result<(), Error>, what: &str) -> (r: CommandReply)
    ensures
        answers_change(r, id, done, what@),
{
    match done {
        Ok(_) => CommandReply::Said(
            text("breakpoint ").concat(ui::bp_id(id).as_str()).concat(" ").concat(what).concat("\n"),
        ),
        Err(e) => CommandReply::Failed(e),
    }
}

/// `bc <id>`: clears a breakpoint.
pub fn cmd_bc<E, X, T, D, C: DebugBackend, M: MemoryOps<PhysAddr>>(
    invocation: &CommandInvocation,
    breakpoints: &mut BreakpointManager<E>,
    caches: &mut ReplCaches<X, T, D>,
    client: &mut C,
    debugger: &mut Target<M>,
) -> (r: CommandReply)
    ensures
        exists|id: Result<u32, CommandReply>|
            {
                &&& #[trigger] is_id_arg(*invocation, "bc"@, id)
                &&& match id {
                    Err(reply) => {
                        &&& r == reply
                        &&& old(breakpoints).unchanged(final(breakpoints))
                        &&& *final(client) == *old(client)
                        &&& *final(debugger) == *old(debugger)
                    },
                    Ok(id) => exists|done: Result<(), Error>| #[trigger]
                        old(breakpoints).may_remove(
                            machine(old(client), old(debugger)),
                            id,
                            final(breakpoints),
                            machine(final(client), final(debugger)),
                            done,
                        ) && answers_change(r, id, done, "cleared"@),
                }
            },
        old(breakpoints).well_formed() ==> final(breakpoints).well_formed(),
        r is Said ==> caches_follow(*old(caches), *final(caches), *final(breakpoints)),
        !(r is Said) ==> *final(caches) == *old(caches),
{
    let arg = breakpoint_id_arg(invocation, "bc");
    assert(is_id_arg(*invocation, "bc"@, arg));
    let id: u32 = match arg {
        Ok(id) => id,
        Err(reply) => return reply,
    };
    let done = breakpoints.remove(client, debugger, id);
    assert(old(breakpoints).may_remove(
        machine(old(client), old(debugger)),
        id,
        breakpoints,
        machine(client, debugger),
        done,
    ));
    if done.is_ok() {
        caches.refresh_breakpoints(breakpoints);
    }
    answer_change(id, done, "cleared")
}

/// `bd <id>`: disables a breakpoint.
pub fn cmd_bd<E, X, T, D, C: DebugBackend, M: MemoryOps<PhysAddr>>(
    invocation: &CommandInvocation,
    breakpoints: &mut BreakpointManager<E>,
    caches: &mut ReplCaches<X, T, D>,
    client: &mut C,
    debugger: &mut Target<M>,
) -> (r: CommandReply)
    ensures
        exists|id: Result<u32, CommandReply>|
            {
                &&& #[trigger] is_id_arg(*invocation, "bd"@, id)
                &&& match id {
                    Err(reply) => {
                        &&& r == reply
                        &&& old(breakpoints).unchanged(final(breakpoints))
                        &&& *final(client) == *old(client)
                        &&& *final(debugger) == *old(debugger)
                    },
                    Ok(id) => exists|done: Result<(), Error>| #[trigger]
                        old(breakpoints).may_disable(
                            machine(old(client), old(debugger)),
                            id,
                            final(breakpoints),
                            machine(final(client), final(debugger)),
                            done,
                        ) && answers_change(r, id, done, "disabled"@),
                }
            },
        old(breakpoints).well_formed() ==> final(breakpoints).well_formed(),
        r is Said ==> caches_follow(*old(caches), *final(caches), *final(breakpoints)),
        !(r is Said) ==> *final(caches) == *old(caches),
{
    let arg = breakpoint_id_arg(invocation, "bd");
    assert(is_id_arg(*invocation, "bd"@, arg));
    let id: u32 = match arg {
        Ok(id) => id,
        Err(reply) => return reply,
    };
    let done = breakpoints.disable(client, debugger, id);
    assert(old(breakpoints).may_disable(
        machine(old(client), old(debugger)),
        id,
        breakpoints,
        machine(client, debugger),
        done,
    ));
    if done.is_ok() {
        caches.refresh_breakpoints(breakpoints);
    }
    answer_change(id, done, "disabled")
}

/// `be <id>`: enables a breakpoint.
pub fn cmd_be<E, X, T, D, C: DebugBackend, M: MemoryOps<PhysAddr>>(
    invocation: &CommandInvocation,
    breakpoints: &mut BreakpointManager<E>,
    caches: &mut ReplCaches<X, T, D>,
    client: &mut C,
    debugger: &mut Target<M>,
) -> (r: CommandReply)
    ensures
        exists|id: Result<u32, CommandReply>|
            {
                &&& #[trigger] is_id_arg(*invocation, "be"@, id)
                &&& match id {
                    Err(reply) => {
                        &&& r == reply
                        &&& old(breakpoints).unchanged(final(breakpoints))
                        &&& *final(client) == *old(client)
                        &&& *final(debugger) == *old(debugger)
                    },
                    Ok(id) => exists|done: Result<(), Error>| #[trigger]
                        old(breakpoints).may_enable(
                            machine(old(client), old(debugger)),
                            id,
                            final(breakpoints),
                            machine(final(client), final(debugger)),
                            done,
                        ) && answers_change(r, id, done, "enabled"@),
                }
            },
        old(breakpoints).well_formed() ==> final(breakpoints).well_formed(),
        r is Said ==> caches_follow(*old(caches), *final(caches), *final(breakpoints)),
        !(r is Said) ==> *final(caches) == *old(caches),
{
    let arg = breakpoint_id_arg(invocation, "be");
    assert(is_id_arg(*invocation, "be"@, arg));
    let id: u32 = match arg {
        Ok(id) => id,
        Err(reply) => return reply,
    };
    let done = breakpoints.enable(client, debugger, id);
    assert(old(breakpoints).may_enable(
        machine(old(client), old(debugger)),
        id,
        breakpoints,
        machine(client, debugger),
        done,
    ));
    if done.is_ok() {
        caches.refresh_breakpoints(breakpoints);
    }
    answer_change(id, done, "enabled")
}

} // verus!
