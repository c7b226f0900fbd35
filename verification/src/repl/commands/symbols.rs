//! The symbol and expression commands: x, ln, ev, set, vars, unset.
use crate::error::Error;
use crate::repl::commands::{may_eval, CommandInvocation, CommandReply};
use crate::text::{
    chars, dec, decimal, find, from_chars, no_lines, pad_right, padded_right, position, push_line,
    skip_word, text, text_opt, texts, trim, trimmed, word_prefix,
};
use crate::types::VirtAddr;
use crate::ui;
use crate::ui::{spec_addr, spec_label, spec_muted, spec_symbol};
use crate::variables::{defines, holds, BuiltinVar, UserVar, Variables};
use vstd::prelude::*;
use vstd::string::*;

verus! {

/// How many symbols a search shows at most: bounded purely for terminal-output
/// sanity; a huge match set just floods the screen.
pub const X_LIMIT: usize = 4096;

/// A query: the module it is scoped to, if any, and what is searched for.
pub open spec fn query_parts(query: Seq<char>) -> (Option<Seq<char>>, Seq<char>) {
    let bang = position(query, '!');
    if bang < query.len() {
        (Some(query.take(bang)), query.skip(bang + 1))
    } else {
        (None, query)
    }
}

/// What a name is looked up by: within the requested module when scoped, so a
/// name present in several modules isn't hijacked.
pub open spec fn lookup_key(module: Option<Seq<char>>, name: Seq<char>) -> Seq<char> {
    match module {
        Some(m) => m + "!"@ + name,
        None => name,
    }
}

/// Whether searching for a query may give `names`.
pub open spec fn may_search<G: FnOnce(Option<&str>, &str, usize) -> Vec<String>>(
    search: G,
    query: Seq<char>,
    names: Seq<String>,
) -> bool {
    exists|module: Option<&str>, q: &str, found: Vec<String>|
        {
            &&& #[trigger] call_ensures(search, (module, q, X_LIMIT), found)
            &&& q@ == query_parts(query).1
            &&& match (module, query_parts(query).0) {
                (Some(m), Some(wanted)) => m@ == wanted,
                (None, None) => true,
                _ => false,
            }
            &&& found@ == names
        }
}

/// Whether looking up the first names may give `found`.
pub open spec fn may_look_up<L: Fn(&str) -> Option<(VirtAddr, String)>>(
    lookup: L,
    module: Option<Seq<char>>,
    names: Seq<String>,
    found: Seq<Option<(VirtAddr, String)>>,
) -> bool {
    &&& found.len() <= names.len()
    &&& forall|i: int|
        0 <= i < found.len() ==> may_find(lookup, lookup_key(module, names[i]@), #[trigger] found[i])
}

/// Whether looking up a key may give `found`.
pub open spec fn may_find<L: Fn(&str) -> Option<(VirtAddr, String)>>(
    lookup: L,
    key: Seq<char>,
    found: Option<(VirtAddr, String)>,
) -> bool {
    exists|k: &str| #[trigger] call_ensures(lookup, (k,), found) && k@ == key
}

/// The lines of the first `n` names that were found.
pub open spec fn symbol_lines(
    names: Seq<String>,
    found: Seq<Option<(VirtAddr, String)>>,
    n: nat,
) -> Seq<Seq<char>>
    decreases n,
{
    if n == 0 {
        Seq::empty()
    } else {
        let lines = symbol_lines(names, found, (n - 1) as nat);
        match found[n - 1] {
            Some((address, module)) => lines.push(
                spec_addr(address.0) + "  "@ + spec_symbol(module@ + "!"@ + names[n - 1]@),
            ),
            None => lines,
        }
    }
}

/// The addresses of the first `n` names that were found.
pub open spec fn symbol_hits(found: Seq<Option<(VirtAddr, String)>>, n: nat) -> Seq<u64>
    decreases n,
{
    if n == 0 {
        Seq::empty()
    } else {
        let hits = symbol_hits(found, (n - 1) as nat);
        match found[n - 1] {
            Some((address, _)) => hits.push(address.0),
            None => hits,
        }
    }
}

/// The lines of a symbol search.
pub open spec fn search_lines(
    query: Seq<char>,
    names: Seq<String>,
    found: Seq<Option<(VirtAddr, String)>>,
) -> Seq<Seq<char>> {
    let lines = symbol_lines(names, found, found.len());
    let count = symbol_hits(found, found.len()).len();
    let lines = if count == 0 {
        lines.push("no symbols match '"@ + query + "'"@)
    } else {
        lines.push(""@).push(
            dec(count) + " "@ + (if count == 1 {
                "symbol"@
            } else {
                "symbols"@
            }) + (if names.len() >= X_LIMIT {
                ", truncated; refine query"@
            } else {
                ""@
            }) + " (in $0..$"@ + dec((count - 1) as nat) + ")"@,
        )
    };
    lines.push(""@)
}

/// Whether searching for a query may be answered by `reply` and give `results`.
pub open spec fn may_list_symbols<
    G: FnOnce(Option<&str>, &str, usize) -> Vec<String>,
    L: Fn(&str) -> Option<(VirtAddr, String)>,
>(query: Seq<char>, search: G, lookup: L, reply: CommandReply, results: Seq<u64>) -> bool {
    exists|names: Seq<String>, found: Seq<Option<(VirtAddr, String)>>|
        {
            &&& #[trigger] may_search(search, query, names)
            &&& #[trigger] may_look_up(lookup, query_parts(query).0, names, found)
            &&& found.len() == names.len()
            &&& reply.lists(search_lines(query, names, found))
            &&& results == symbol_hits(found, found.len())
        }
}

fn split_query(query: &str) -> (r: (Option<String>, String))
    ensures
        text_opt(r.0) == query_parts(query@).0,
        r.1@ == query_parts(query@).1,
{
    let c = chars(query);
    let bang: usize = find(c.as_slice(), 0, '!');
    assert(c@.skip(0) =~= c@);
    if bang < c.len() {
        let module = vstd::slice::slice_subrange(c.as_slice(), 0, bang);
        let rest = vstd::slice::slice_subrange(c.as_slice(), bang + 1, c.len());
        assert(module@ =~= query@.take(bang as int));
        assert(rest@ =~= query@.skip(bang + 1));
        (Some(from_chars(module)), from_chars(rest))
    } else {
        (None, text(query))
    }
}

fn summary_line(count: usize, truncated: bool) -> (r: String)
    requires
        count > 0,
    ensures
        r@ == dec(count as nat) + " "@ + (if count == 1 {
            "symbol"@
        } else {
            "symbols"@
        }) + (if truncated {
            ", truncated; refine query"@
        } else {
            ""@
        }) + " (in $0..$"@ + dec((count - 1) as nat) + ")"@,
{
    let noun = if count == 1 {
        "symbol"
    } else {
        "symbols"
    };
    let note = if truncated {
        ", truncated; refine query"
    } else {
        ""
    };
    decimal(count as u64).concat(" ").concat(noun).concat(note).concat(" (in $0..$").concat(
        decimal((count - 1) as u64).as_str(),
    ).concat(")")
}

/// `x <query>` or `x <module>!<query>`: fuzzy-searches symbols by name.
/// `module!query` scopes the search to one module; a bare query matches across
/// all of them. `search` searches, at most so many; `lookup` finds the address
/// and module of a name. The addresses become the result slots.
pub fn cmd_x<
    G: FnOnce(Option<&str>, &str, usize) -> Vec<String>,
    L: Fn(&str) -> Option<(VirtAddr, String)>,
>(
    invocation: &CommandInvocation,
    line: &str,
    variables: &mut Variables,
    search: G,
    lookup: &L,
) -> (r: CommandReply)
    requires
        forall|m: Option<&str>, q: &str| call_requires(search, (m, q, X_LIMIT)),
        forall|k: &str| call_requires(*lookup, (k,)),
    ensures
        final(variables).user == old(variables).user,
        invocation.argv@.len() == 0 ==> r.helps("x"@) && *final(variables) == *old(variables),
        invocation.argv@.len() > 0 ==> may_list_symbols(
            invocation.argv@[0]@,
            search,
            *lookup,
            r,
            final(variables).results@,
        ) && text_opt(final(variables).results_origin) == Some(line@),
{
    let query = match invocation.arg(0) {
        Some(query) => query,
        None => return CommandReply::Help("x"),
    };
    let (module, rest) = split_query(query);
    let scope: Option<&str> = match &module {
        Some(m) => Some(m.as_str()),
        None => None,
    };
    let names = search(scope, rest.as_str(), X_LIMIT);
    assert(may_search(search, query@, names@));
    let truncated = names.len() >= X_LIMIT;
    let mut lines = no_lines();
    let mut hits: Vec<u64> = Vec::new();
    let ghost mut found: Seq<Option<(VirtAddr, String)>> = Seq::empty();
    let mut i: usize = 0;
    while i < names.len()
        invariant
            i <= names@.len(),
            found.len() == i,
            forall|k: &str| call_requires(*lookup, (k,)),
            text_opt(module) == query_parts(query@).0,
            may_look_up(*lookup, query_parts(query@).0, names@, found),
            texts(lines@) == symbol_lines(names@, found, i as nat),
            hits@ == symbol_hits(found, i as nat),
        decreases names@.len() - i,
    {
        let key = match &module {
            Some(m) => text(m.as_str()).concat("!").concat(names[i].as_str()),
            None => names[i].clone(),
        };
        let wanted = key.as_str();
        let hit = lookup(wanted);
        let ghost before = found;
        assert(may_find(*lookup, lookup_key(query_parts(query@).0, names@[i as int]@), hit)) by {
            assert(call_ensures(*lookup, (wanted,), hit));
        }
        proof {
            found = found.push(hit);
            lemma_found_prefix(names@, before, hit, i as nat);
        }
        match hit {
            Some((address, owner)) => {
                let name = owner.concat("!").concat(names[i].as_str());
                push_line(
                    &mut lines,
                    ui::addr(address.0).concat("  ").concat(ui::symbol(name.as_str()).as_str()),
                );
                hits.push(address.0);
            },
            None => {},
        }
        i += 1;
    }
    if hits.len() == 0 {
        push_line(&mut lines, text("no symbols match '").concat(query).concat("'"));
    } else {
        push_line(&mut lines, text(""));
        push_line(&mut lines, summary_line(hits.len(), truncated));
    }
    push_line(&mut lines, text(""));
    variables.set_results(hits, text(line));
    CommandReply::Lines(lines)
}

/// What the first names come to does not depend on those after them.
proof fn lemma_found_prefix(
    names: Seq<String>,
    found: Seq<Option<(VirtAddr, String)>>,
    more: Option<(VirtAddr, String)>,
    n: nat,
)
    requires
        n <= found.len(),
    ensures
        symbol_lines(names, found.push(more), n) == symbol_lines(names, found, n),
        symbol_hits(found.push(more), n) == symbol_hits(found, n),
    decreases n,
{
    if n > 0 {
        lemma_found_prefix(names, found, more, (n - 1) as nat);
    }
}

/// Whether `ln` may be answered by `reply` and give the result slots `results`,
/// if it gives any. `closest` gives the closest symbol, with its offset as
/// shown, and the offset.
pub open spec fn may_ln<
    V: FnOnce(&str) -> Result<VirtAddr, Error>,
    S: FnOnce(VirtAddr) -> Option<(String, u32)>,
>(
    invocation: CommandInvocation,
    eval: V,
    closest: S,
    reply: CommandReply,
    results: Option<Seq<u64>>,
) -> bool {
    if invocation.argv@.len() == 0 {
        reply.helps("ln"@) && results is None
    } else {
        exists|place: Result<VirtAddr, Error>|
            {
                &&& #[trigger] may_eval(eval, invocation.argv@[0]@, place)
                &&& match place {
                    Err(e) => reply == CommandReply::Failed(e) && results is None,
                    Ok(address) => exists|found: Option<(String, u32)>|
                        {
                            &&& #[trigger] call_ensures(closest, (address,), found)
                            &&& match found {
                                Some((label, offset)) => {
                                    &&& reply.says(
                                        spec_addr(address.0) + "  "@ + spec_symbol(label@) + "\n"@,
                                    )
                                    &&& results == Some(
                                        Seq::<u64>::empty().push(symbol_base(address, offset)),
                                    )
                                },
                                None => {
                                    &&& reply.says(
                                        "no symbol found for "@ + spec_addr(address.0) + "\n"@,
                                    )
                                    &&& results is None
                                },
                            }
                        },
                }
            }
    }
}

/// Where a symbol begins that an address lies `offset` bytes behind, on the
/// 64-bit address circle.
pub open spec fn symbol_base(address: VirtAddr, offset: u32) -> u64 {
    if address.0 >= offset {
        (address.0 - offset) as u64
    } else {
        (address.0 - offset + 0x1_0000_0000_0000_0000) as u64
    }
}

/// The result slots after a command: those that it gives, with its line, or
/// those from before.
pub open spec fn results_after(
    pre: Variables,
    line: Seq<char>,
    results: Option<Seq<u64>>,
    post: Variables,
) -> bool {
    &&& post.user == pre.user
    &&& match results {
        Some(results) => post.results@ == results && text_opt(post.results_origin) == Some(line),
        None => post == pre,
    }
}

/// `ln <address>`: lists the nearest symbol to an address. The symbol's base
/// address becomes the result slot.
pub fn cmd_ln<
    V: FnOnce(&str) -> Result<VirtAddr, Error>,
    S: FnOnce(VirtAddr) -> Option<(String, u32)>,
>(
    invocation: &CommandInvocation,
    line: &str,
    variables: &mut Variables,
    eval: V,
    closest: S,
) -> (r: CommandReply)
    requires
        forall|s: &str| call_requires(eval, (s,)),
        forall|a: VirtAddr| call_requires(closest, (a,)),
    ensures
        exists|results: Option<Seq<u64>>| #[trigger]
            may_ln(*invocation, eval, closest, r, results) && results_after(
                *old(variables),
                line@,
                results,
                *final(variables),
            ),
{
    let arg = match invocation.arg(0) {
        Some(arg) => arg,
        None => {
            let reply = CommandReply::Help("ln");
            assert(may_ln(*invocation, eval, closest, reply, None));
            return reply;
        },
    };
    let place = eval(arg);
    assert(may_eval(eval, invocation.argv@[0]@, place)) by {
        assert(call_ensures(eval, (arg,), place));
    }
    let address = match place {
        Ok(address) => address,
        Err(e) => {
            let reply = CommandReply::Failed(e);
            assert(may_ln(*invocation, eval, closest, reply, None));
            return reply;
        },
    };
    let found = closest(address);
    let ghost answer = found;
    assert(call_ensures(closest, (address,), answer));
    match found {
        Some((label, offset)) => {
            let reply = CommandReply::Said(
                ui::addr(address.0).concat("  ").concat(ui::symbol(label.as_str()).as_str()).concat(
                    "\n",
                ),
            );
            // $0 = the symbol's base address (the resolved target)
            let base: u64 = address.0.wrapping_sub(offset as u64);
            let mut results: Vec<u64> = Vec::new();
            results.push(base);
            assert(may_ln(*invocation, eval, closest, reply, Some(results@)));
            variables.set_results(results, text(line));
            reply
        },
        None => {
            let reply = CommandReply::Said(
                text("no symbol found for ").concat(ui::addr(address.0).as_str()).concat("\n"),
            );
            assert(may_ln(*invocation, eval, closest, reply, None));
            reply
        },
    }
}

/// Whether `ev` may be answered by `reply` and give the result slots `results`,
/// if it gives any.
pub open spec fn may_ev<V: FnOnce(&str) -> Result<VirtAddr, Error>>(
    source: Seq<char>,
    eval: V,
    reply: CommandReply,
    results: Option<Seq<u64>>,
) -> bool {
    if source.len() == 0 {
        reply.helps("ev"@) && results is None
    } else {
        exists|value: Result<VirtAddr, Error>|
            {
                &&& #[trigger] may_eval(eval, source, value)
                &&& match value {
                    Err(e) => reply == CommandReply::Failed(e) && results is None,
                    Ok(address) => {
                        &&& reply.says(spec_addr(address.0))
                        &&& results == Some(Seq::<u64>::empty().push(address.0))
                    },
                }
            }
    }
}

/// `ev <expression>`: evaluates all that follows the command's name. The value
/// becomes the result slot.
pub fn cmd_ev<V: FnOnce(&str) -> Result<VirtAddr, Error>>(
    invocation: &CommandInvocation,
    line: &str,
    variables: &mut Variables,
    eval: V,
) -> (r: CommandReply)
    requires
        forall|s: &str| call_requires(eval, (s,)),
    ensures
        exists|results: Option<Seq<u64>>| #[trigger]
            may_ev(invocation.raw_tail@, eval, r, results) && results_after(
                *old(variables),
                line@,
                results,
                *final(variables),
            ),
{
    let source = invocation.raw_tail.as_str();
    if source.is_empty() {
        let reply = CommandReply::Help("ev");
        assert(may_ev(invocation.raw_tail@, eval, reply, None));
        return reply;
    }
    let value = eval(source);
    assert(may_eval(eval, invocation.raw_tail@, value)) by {
        assert(call_ensures(eval, (source,), value));
    }
    match value {
        Ok(address) => {
            let mut results: Vec<u64> = Vec::new();
            results.push(address.0);
            let reply = CommandReply::Said(ui::addr(address.0));
            assert(may_ev(invocation.raw_tail@, eval, reply, Some(results@)));
            variables.set_results(results, text(line));
            reply
        },
        Err(e) => {
            let reply = CommandReply::Failed(e);
            assert(may_ev(invocation.raw_tail@, eval, reply, None));
            reply
        },
    }
}

/// Whether a character may begin a variable name: a letter or `_`. This
/// reserves `$<digits>` (and digit-leading names) for the `$0..$N` result slots,
/// avoiding any collision.
pub open spec fn begins_name(c: char) -> bool {
    'a' <= c <= 'z' || 'A' <= c <= 'Z' || c == '_'
}

/// Whether a text is a variable name.
pub open spec fn is_variable_name(s: Seq<char>) -> bool {
    &&& s.len() > 0
    &&& begins_name(s[0])
    &&& forall|i: int| 0 <= i < s.len() ==> begins_name(#[trigger] s[i]) || '0' <= s[i] <= '9'
}

fn name_start(c: char) -> (r: bool)
    ensures
        r == begins_name(c),
{
    ('a' <= c && c <= 'z') || ('A' <= c && c <= 'Z') || c == '_'
}

fn valid_name(name: &str) -> (r: bool)
    ensures
        r == is_variable_name(name@),
{
    let c = chars(name);
    if c.len() == 0 || !name_start(c[0]) {
        return false;
    }
    let mut i: usize = 0;
    while i < c.len()
        invariant
            i <= c@.len(),
            c@ == name@,
            forall|k: int|
                0 <= k < i ==> begins_name(#[trigger] name@[k]) || '0' <= name@[k] <= '9',
        decreases c@.len() - i,
    {
        let x = c[i];
        if !(name_start(x) || ('0' <= x && x <= '9')) {
            assert(!(begins_name(name@[i as int]) || '0' <= name@[i as int] <= '9'));
            return false;
        }
        i += 1;
    }
    true
}

/// A text without a leading `$`.
pub open spec fn without_dollar(s: Seq<char>) -> Seq<char> {
    if s.len() > 0 && s[0] == '$' {
        s.skip(1)
    } else {
        s
    }
}

fn strip_dollar(s: &str) -> (r: String)
    ensures
        r@ == without_dollar(s@),
{
    let c = chars(s);
    if c.len() > 0 && c[0] == '$' {
        let rest = vstd::slice::slice_subrange(c.as_slice(), 1, c.len());
        assert(rest@ =~= s@.skip(1));
        from_chars(rest)
    } else {
        text(s)
    }
}

/// The name that a text gives to a variable.
pub open spec fn variable_name(lhs: Seq<char>) -> Seq<char> {
    trimmed(without_dollar(trimmed(lhs)))
}

/// What is said of a text that names no variable.
pub open spec fn bad_name(name: Seq<char>) -> Seq<char> {
    "invalid variable name '$"@ + name
        + "' (must start with a letter or '_'; $<digits> are reserved for result slots)"@
}

/// Whether `set` may be answered by `reply`, and set the variable `set` to the
/// value and source in it, if it sets one.
pub open spec fn may_set<V: FnOnce(&str) -> Result<VirtAddr, Error>>(
    rest: Seq<char>,
    eval: V,
    reply: CommandReply,
    set: Option<(Seq<char>, u64, Seq<char>)>,
) -> bool {
    let split = word_prefix(rest);
    let name = variable_name(rest.take(split));
    let source = trimmed(rest.skip(split + 1));
    if split == rest.len() {
        reply.helps("set"@) && set is None
    } else if !is_variable_name(name) {
        reply.complains(bad_name(name)) && set is None
    } else {
        may_assign(name, source, eval, reply, set)
    }
}

/// What `set` may do once the name and the expression are known.
pub open spec fn may_assign<V: FnOnce(&str) -> Result<VirtAddr, Error>>(
    name: Seq<char>,
    source: Seq<char>,
    eval: V,
    reply: CommandReply,
    set: Option<(Seq<char>, u64, Seq<char>)>,
) -> bool {
    exists|value: Result<VirtAddr, Error>|
        {
            &&& #[trigger] may_eval(eval, source, value)
            &&& match value {
                Err(e) => reply == CommandReply::Failed(e) && set is None,
                Ok(v) => {
                    &&& reply.says("$"@ + name + " = "@ + spec_addr(v.0) + "\n"@)
                    &&& set == Some((name, v.0, source))
                },
            }
        }
}

/// The variables after setting one, or not.
pub open spec fn assigned(
    pre: Seq<UserVar>,
    set: Option<(Seq<char>, u64, Seq<char>)>,
    post: Seq<UserVar>,
) -> bool {
    match set {
        None => post == pre,
        Some((name, value, source)) => forall|n: Seq<char>, v: u64, s: Seq<char>| #[trigger]
            holds(post, n, v, s) <==> if n == name {
                v == value && s == source
            } else {
                holds(pre, n, v, s)
            },
    }
}

/// `set $<name> <expression>`: defines a convenience variable usable in
/// expressions as `$<name>`.
pub fn cmd_set<V: FnOnce(&str) -> Result<VirtAddr, Error>>(
    invocation: &CommandInvocation,
    variables: &mut Variables,
    eval: V,
) -> (r: CommandReply)
    requires
        old(variables).well_formed(),
        forall|s: &str| call_requires(eval, (s,)),
    ensures
        final(variables).well_formed(),
        final(variables).results == old(variables).results,
        final(variables).results_origin == old(variables).results_origin,
        exists|set: Option<(Seq<char>, u64, Seq<char>)>| #[trigger]
            may_set(invocation.joined_from(0), eval, r, set) && assigned(
                old(variables).user@,
                set,
                final(variables).user@,
            ),
{
    let rest = invocation.join_args(0);
    let c = chars(rest.as_str());
    let split: usize = skip_word(c.as_slice(), 0);
    assert(c@.skip(0) =~= c@);
    if split == c.len() {
        let reply = CommandReply::Help("set");
        assert(may_set(rest@, eval, reply, None));
        return reply;
    }
    let left = vstd::slice::slice_subrange(c.as_slice(), 0, split);
    let right = vstd::slice::slice_subrange(c.as_slice(), split + 1, c.len());
    assert(left@ =~= rest@.take(split as int));
    assert(right@ =~= rest@.skip(split + 1));
    let lhs = from_chars(left);
    let name = trim(strip_dollar(trim(lhs.as_str()).as_str()).as_str());
    if !valid_name(name.as_str()) {
        let reply = CommandReply::Complaint(
            text("invalid variable name '$").concat(name.as_str()).concat(
                "' (must start with a letter or '_'; $<digits> are reserved for result slots)",
            ),
        );
        assert(may_set(rest@, eval, reply, None));
        return reply;
    }
    let source = trim(from_chars(right).as_str());
    let expression = source.as_str();
    let value = eval(expression);
    assert(may_eval(eval, source@, value)) by {
        assert(call_ensures(eval, (expression,), value));
    }
    match value {
        Ok(v) => {
            let reply = CommandReply::Said(
                text("$").concat(name.as_str()).concat(" = ").concat(ui::addr(v.0).as_str()).concat(
                    "\n",
                ),
            );
            assert(may_assign(name@, source@, eval, reply, Some((name@, v.0, source@))));
            assert(may_set(rest@, eval, reply, Some((name@, v.0, source@))));
            variables.set(name, v.0, source);
            reply
        },
        Err(e) => {
            let reply = CommandReply::Failed(e);
            assert(may_assign(name@, source@, eval, reply, None));
            assert(may_set(rest@, eval, reply, None));
            reply
        },
    }
}

/// `unset $<name>`: removes a convenience variable.
pub fn cmd_unset(invocation: &CommandInvocation, variables: &mut Variables) -> (r: CommandReply)
    requires
        old(variables).well_formed(),
    ensures
        final(variables).well_formed(),
        final(variables).results == old(variables).results,
        final(variables).results_origin == old(variables).results_origin,
        invocation.argv@.len() == 0 ==> r.helps("unset"@) && *final(variables) == *old(variables),
        invocation.argv@.len() > 0 ==> {
            &&& forall|n: Seq<char>, v: u64, s: Seq<char>| #[trigger]
                holds(final(variables).user@, n, v, s) <==> n != without_dollar(
                    invocation.argv@[0]@,
                ) && holds(old(variables).user@, n, v, s)
            &&& if defines(old(variables).user@, without_dollar(invocation.argv@[0]@)) {
                r.says("unset $"@ + without_dollar(invocation.argv@[0]@) + "\n"@)
            } else {
                r.complains("no such variable: $"@ + without_dollar(invocation.argv@[0]@))
            }
        },
{
    let arg = match invocation.arg(0) {
        Some(arg) => arg,
        None => return CommandReply::Help("unset"),
    };
    let name = strip_dollar(arg);
    if variables.unset(name.as_str()) {
        CommandReply::Said(text("unset $").concat(name.as_str()).concat("\n"))
    } else {
        CommandReply::Complaint(text("no such variable: $").concat(name.as_str()))
    }
}

/// The line of a variable.
pub open spec fn variable_line(name: Seq<char>, value: u64, source: Seq<char>) -> Seq<char> {
    "  $"@ + padded_right(name, 16) + " "@ + spec_addr(value) + "   "@ + spec_muted(source)
}

fn format_variable(name: &str, value: u64, source: &str) -> (r: String)
    ensures
        r@ == variable_line(name@, value, source@),
{
    text("  $").concat(pad_right(name, 16).as_str()).concat(" ").concat(
        ui::addr(value).as_str(),
    ).concat("   ").concat(ui::muted(source).as_str())
}

/// The lines of the first `n` user variables, after these.
pub open spec fn user_lines(lines: Seq<Seq<char>>, user: Seq<UserVar>, n: nat) -> Seq<Seq<char>>
    decreases n,
{
    if n == 0 {
        lines
    } else {
        user_lines(lines, user, (n - 1) as nat).push(
            variable_line(user[n - 1].name@, user[n - 1].value, user[n - 1].source@),
        )
    }
}

/// The lines of the first `n` builtin variables, after these.
pub open spec fn builtin_lines(lines: Seq<Seq<char>>, builtins: Seq<BuiltinVar>, n: nat) -> Seq<
    Seq<char>,
>
    decreases n,
{
    if n == 0 {
        lines
    } else {
        builtin_lines(lines, builtins, (n - 1) as nat).push(
            variable_line(builtins[n - 1].name@, builtins[n - 1].value, builtins[n - 1].source@),
        )
    }
}

/// The lines so far, and an empty one where something stands above.
pub open spec fn with_gap(lines: Seq<Seq<char>>, above: bool) -> Seq<Seq<char>> {
    if above {
        lines.push(""@)
    } else {
        lines
    }
}

/// The line of the result slots.
pub open spec fn results_line(count: nat, origin: Option<Seq<char>>) -> Seq<char> {
    "  "@ + spec_muted("$0..$"@ + dec((count - 1) as nat)) + "   "@ + spec_muted(
        match origin {
            Some(cmd) => "from: "@ + cmd,
            None => ""@,
        },
    )
}

/// The lines of all variables: those of the user, the result slots, and the
/// builtins, each part after an empty line where something stands above it.
pub open spec fn variables_lines(vars: Variables, builtins: Seq<BuiltinVar>) -> Seq<Seq<char>> {
    let none = Seq::<Seq<char>>::empty();
    let user = vars.user@.len() > 0;
    let results = vars.results@.len() > 0;
    let lines = if user {
        user_lines(none.push(spec_label("user"@)), vars.user@, vars.user@.len())
    } else {
        none
    };
    let lines = if results {
        with_gap(lines, user).push(
            results_line(vars.results@.len(), text_opt(vars.results_origin)),
        )
    } else {
        lines
    };
    let lines = if builtins.len() > 0 {
        builtin_lines(
            with_gap(lines, user || results).push(spec_label("builtins"@)),
            builtins,
            builtins.len(),
        )
    } else {
        lines
    };
    lines.push(""@)
}

fn results_summary(count: usize, origin: &Option<String>) -> (r: String)
    requires
        count > 0,
    ensures
        r@ == results_line(count as nat, text_opt(*origin)),
{
    let from = match origin {
        Some(cmd) => text("from: ").concat(cmd.as_str()),
        None => text(""),
    };
    text("  ").concat(
        ui::muted(text("$0..$").concat(decimal((count - 1) as u64).as_str()).as_str()).as_str(),
    ).concat("   ").concat(ui::muted(from.as_str()).as_str())
}

/// `vars`: lists the convenience variables, by name, the result slots, and the
/// builtins.
pub fn cmd_vars(variables: &Variables, builtins: &[BuiltinVar]) -> (r: CommandReply)
    ensures
        variables.user@.len() == 0 && variables.results@.len() == 0 && builtins@.len() == 0
            ==> r.says("no variables defined\n"@),
        variables.user@.len() > 0 || variables.results@.len() > 0 || builtins@.len() > 0
            ==> r.lists(variables_lines(*variables, builtins@)),
{
    let user = variables.user.len() > 0;
    let results = variables.results.len() > 0;
    if !user && !results && builtins.len() == 0 {
        return CommandReply::Said(text("no variables defined\n"));
    }
    let mut lines = no_lines();
    if user {
        push_line(&mut lines, ui::label("user"));
        let ghost head = texts(lines@);
        let mut i: usize = 0;
        while i < variables.user.len()
            invariant
                i <= variables.user@.len(),
                texts(lines@) == user_lines(head, variables.user@, i as nat),
            decreases variables.user@.len() - i,
        {
            let var = &variables.user[i];
            push_line(
                &mut lines,
                format_variable(var.name.as_str(), var.value, var.source.as_str()),
            );
            i += 1;
        }
    }
    if results {
        if user {
            push_line(&mut lines, text(""));
        }
        push_line(
            &mut lines,
            results_summary(variables.results.len(), &variables.results_origin),
        );
    }
    if builtins.len() > 0 {
        if user || results {
            push_line(&mut lines, text(""));
        }
        push_line(&mut lines, ui::label("builtins"));
        let ghost head = texts(lines@);
        let mut i: usize = 0;
        while i < builtins.len()
            invariant
                i <= builtins@.len(),
                texts(lines@) == builtin_lines(head, builtins@, i as nat),
            decreases builtins@.len() - i,
        {
            let var = &builtins[i];
            push_line(
                &mut lines,
                format_variable(var.name.as_str(), var.value, var.source.as_str()),
            );
            i += 1;
        }
    }
    push_line(&mut lines, text(""));
    CommandReply::Lines(lines)
}

/// No variable can be set that a result slot would hide: the number of a slot is
/// no variable name.
pub proof fn law_slots_are_reserved(slot: nat)
    ensures
        !is_variable_name(dec(slot)),
    decreases slot,
{
    lemma_first_digit(slot);
}

/// The decimal digits of a number begin with a digit.
proof fn lemma_first_digit(n: nat)
    ensures
        dec(n).len() > 0,
        '0' <= dec(n)[0] <= '9',
    decreases n,
{
    if n >= 10 {
        lemma_first_digit(n / 10);
        assert(dec(n)[0] == dec(n / 10)[0]);
    }
}

/// Removing a variable that was not there before it was set leaves the variables
/// as they were.
pub proof fn law_unset_undoes_set(
    pre: Seq<UserVar>,
    name: Seq<char>,
    value: u64,
    source: Seq<char>,
    mid: Seq<UserVar>,
    post: Seq<UserVar>,
)
    requires
        !defines(pre, name),
        assigned(pre, Some((name, value, source)), mid),
        forall|n: Seq<char>, v: u64, s: Seq<char>| #[trigger]
            holds(post, n, v, s) <==> n != name && holds(mid, n, v, s),
    ensures
        forall|n: Seq<char>, v: u64, s: Seq<char>| #[trigger]
            holds(post, n, v, s) <==> holds(pre, n, v, s),
{
    assert forall|n: Seq<char>, v: u64, s: Seq<char>| #[trigger] holds(post, n, v, s) <==> holds(
        pre,
        n,
        v,
        s,
    ) by {
        if holds(pre, n, v, s) {
            let i = choose|i: int|
                0 <= i < pre.len() && (#[trigger] pre[i]).name@ == n && pre[i].value == v
                    && pre[i].source@ == s;
            assert(n != name);
            assert(holds(mid, n, v, s));
        }
        if holds(post, n, v, s) {
            assert(holds(mid, n, v, s));
        }
    }
}

} // verus!
