//! What the symbol and expression commands do with their words, and what they answer.
use crate::error::Error;
use crate::repl::commands::symbols::{
    assigned, builtin_lines, cmd_vars, is_variable_name, may_assign, may_ev, may_find,
    may_list_symbols, may_ln, may_look_up, may_search, may_set, query_parts, results_after,
    search_lines, symbol_hits, symbol_lines, user_lines, variable_name, without_dollar,
};
use crate::repl::commands::{may_eval, CommandInvocation, CommandReply};
use crate::text::{
    dec, is_space, lemma_position, padded_right, position, texts, trimmed, word_prefix,
};
use crate::text_laws::law_word_ends_at_white_space;
use crate::types::VirtAddr;
use crate::ui::{spec_addr, spec_label, spec_muted, spec_symbol};
use crate::variables::{holds, BuiltinVar, UserVar, Variables};
use vstd::prelude::*;
use vstd::string::*;

verus! {

/// Whether a query asks for `wanted` in a module, or in all of them: a module is all
/// that stands before the first `!`.
pub open spec fn asks(query: Seq<char>, module: Option<Seq<char>>, wanted: Seq<char>) -> bool {
    match module {
        Some(module) => query == module + seq!['!'] + wanted && !module.contains('!'),
        None => query == wanted && !query.contains('!'),
    }
}

proof fn lemma_query(query: Seq<char>)
    ensures
        asks(query, query_parts(query).0, query_parts(query).1),
{
    lemma_position(query, '!');
    let bang = position(query, '!');
    if bang < query.len() {
        assert(query =~= query.take(bang) + seq!['!'] + query.skip(bang + 1));
        assert(!query.take(bang).contains('!'));
    } else {
        assert(!query.contains('!'));
    }
}

/// The names that were found among the first `n`, each with its address and module.
pub open spec fn hits(
    names: Seq<String>,
    found: Seq<Option<(VirtAddr, String)>>,
    n: nat,
) -> Seq<(u64, Seq<char>)>
    decreases n,
{
    if n == 0 {
        Seq::empty()
    } else {
        match found[n - 1] {
            Some((address, module)) => hits(names, found, (n - 1) as nat).push(
                (address.0, module@ + "!"@ + names[n - 1]@),
            ),
            None => hits(names, found, (n - 1) as nat),
        }
    }
}

proof fn lemma_hits(names: Seq<String>, found: Seq<Option<(VirtAddr, String)>>, n: nat)
    requires
        n <= found.len(),
    ensures
        symbol_hits(found, n) == Seq::new(
            hits(names, found, n).len(),
            |k: int| hits(names, found, n)[k].0,
        ),
        symbol_lines(names, found, n) == Seq::new(
            hits(names, found, n).len(),
            |k: int|
                spec_addr(hits(names, found, n)[k].0) + "  "@ + spec_symbol(
                    hits(names, found, n)[k].1,
                ),
        ),
    decreases n,
{
    if n > 0 {
        lemma_hits(names, found, (n - 1) as nat);
    }
    let all = hits(names, found, n);
    assert(symbol_hits(found, n) =~= Seq::new(all.len(), |k: int| all[k].0));
    assert(symbol_lines(names, found, n) =~= Seq::new(
        all.len(),
        |k: int| spec_addr(all[k].0) + "  "@ + spec_symbol(all[k].1),
    ));
}

/// `x` searches for what its query asks for, at most 4096 names, looks each up in the
/// module asked for, and lists those that it finds: line by line the address that the
/// result slot of the same number then holds, and the symbol. It says how many there
/// are, and whether there may be more.
pub proof fn law_x<
    G: FnOnce(Option<&str>, &str, usize) -> Vec<String>,
    L: Fn(&str) -> Option<(VirtAddr, String)>,
>(query: Seq<char>, search: G, lookup: L, reply: CommandReply, results: Seq<u64>)
    requires
        may_list_symbols(query, search, lookup, reply, results),
    ensures
        exists|
            module: Option<&str>,
            wanted: &str,
            names: Vec<String>,
            found: Seq<Option<(VirtAddr, String)>>,
        |
            {
                &&& #[trigger] call_ensures(search, (module, wanted, 4096usize), names)
                &&& asks(
                    query,
                    match module {
                        Some(module) => Some(module@),
                        None => None,
                    },
                    wanted@,
                )
                &&& found.len() == names@.len()
                &&& forall|i: int|
                    0 <= i < found.len() ==> may_find(
                        lookup,
                        match module {
                            Some(module) => module@ + "!"@ + names@[i]@,
                            None => names@[i]@,
                        },
                        #[trigger] found[i],
                    )
                &&& #[trigger] answers_search(query, names@, found, reply, results)
            },
{
    let (names, found) = choose|names: Seq<String>, found: Seq<Option<(VirtAddr, String)>>|
        {
            &&& #[trigger] may_search(search, query, names)
            &&& #[trigger] may_look_up(lookup, query_parts(query).0, names, found)
            &&& found.len() == names.len()
            &&& reply.lists(search_lines(query, names, found))
            &&& results == symbol_hits(found, found.len())
        };
    let (module, wanted, list) = choose|module: Option<&str>, q: &str, list: Vec<String>|
        {
            &&& #[trigger] call_ensures(
                search,
                (module, q, crate::repl::commands::symbols::X_LIMIT),
                list,
            )
            &&& q@ == query_parts(query).1
            &&& match (module, query_parts(query).0) {
                (Some(m), Some(wanted)) => m@ == wanted,
                (None, None) => true,
                _ => false,
            }
            &&& list@ == names
        };
    lemma_query(query);
    lemma_hits(names, found, found.len());
    let all = hits(names, found, found.len());
    let lines = Seq::new(
        all.len(),
        |k: int| spec_addr(all[k].0) + "  "@ + spec_symbol(all[k].1),
    );
    assert(search_lines(query, names, found) =~= lines + tail_of(query, all.len(), names.len()));
    assert(answers_search(query, list@, found, reply, results));
}

/// What a search ends with: that nothing matches, or how many there are.
pub open spec fn tail_of(query: Seq<char>, count: nat, asked: nat) -> Seq<Seq<char>> {
    if count == 0 {
        seq!["no symbols match '"@ + query + "'"@, ""@]
    } else {
        seq![
            ""@,
            dec(count) + " "@ + (if count == 1 {
                "symbol"@
            } else {
                "symbols"@
            }) + (if asked >= 4096 {
                ", truncated; refine query"@
            } else {
                ""@
            }) + " (in $0..$"@ + dec((count - 1) as nat) + ")"@,
            ""@,
        ]
    }
}

/// Whether a reply and result slots are those of the names found.
pub open spec fn answers_search(
    query: Seq<char>,
    names: Seq<String>,
    found: Seq<Option<(VirtAddr, String)>>,
    reply: CommandReply,
    results: Seq<u64>,
) -> bool {
    let all = hits(names, found, found.len());
    &&& results == Seq::new(all.len(), |k: int| all[k].0)
    &&& reply matches CommandReply::Lines(lines) && texts(lines@) == Seq::new(
        all.len(),
        |k: int| spec_addr(all[k].0) + "  "@ + spec_symbol(all[k].1),
    ) + tail_of(query, all.len(), names.len())
}

/// `ln` names the symbol closest to the value of its first word, and gives the place
/// where that symbol begins: the offset before that value, on the 64-bit circle. Where
/// there is no symbol that is said, and the results stay.
pub proof fn law_ln<
    V: FnOnce(&str) -> Result<VirtAddr, Error>,
    S: FnOnce(VirtAddr) -> Option<(String, u32)>,
>(
    invocation: CommandInvocation,
    eval: V,
    closest: S,
    reply: CommandReply,
    results: Option<Seq<u64>>,
)
    requires
        may_ln(invocation, eval, closest, reply, results),
    ensures
        invocation.argv@.len() == 0 ==> (reply matches CommandReply::Help(name) && name@ == "ln"@),
        reply matches CommandReply::Failed(e) ==> may_eval(
            eval,
            invocation.argv@[0]@,
            Err::<VirtAddr, Error>(e),
        ),
        !(reply is Said) ==> results is None,
        invocation.argv@.len() > 0 ==> reply is Said || reply is Failed,
        reply matches CommandReply::Said(said) ==> exists|
            address: VirtAddr,
            found: Option<(String, u32)>,
        |
            {
                &&& may_eval(eval, invocation.argv@[0]@, Ok(address))
                &&& #[trigger] call_ensures(closest, (address,), found)
                &&& match found {
                    Some((label, offset)) => {
                        &&& said@ == spec_addr(address.0) + "  "@ + spec_symbol(label@) + "\n"@
                        &&& results matches Some(list) && list.len() == 1 && (list[0] + offset)
                            % 0x1_0000_0000_0000_0000 == address.0
                    },
                    None => {
                        &&& said@ == "no symbol found for "@ + spec_addr(address.0) + "\n"@
                        &&& results is None
                    },
                }
            },
{
    if invocation.argv@.len() > 0 {
        let place = choose|place: Result<VirtAddr, Error>|
            {
                &&& #[trigger] may_eval(eval, invocation.argv@[0]@, place)
                &&& match place {
                    Err(e) => reply == CommandReply::Failed(e) && results is None,
                    Ok(address) => exists|found: Option<(String, u32)>|
                        {
                            &&& #[trigger] call_ensures(closest, (address,), found)
                            &&& match found {
                                Some((label, offset)) => {
                                    &&& reply.says(
                                        spec_addr(address.0) + "  "@ + spec_symbol(label@) + "\n"@,
                                    )
                                    &&& results == Some(
                                        Seq::<u64>::empty().push(
                                            crate::repl::commands::symbols::symbol_base(
                                                address,
                                                offset,
                                            ),
                                        ),
                                    )
                                },
                                None => {
                                    &&& reply.says(
                                        "no symbol found for "@ + spec_addr(address.0) + "\n"@,
                                    )
                                    &&& results is None
                                },
                            }
                        },
                }
            };
        assert(reply is Said ==> place is Ok);
    }
}

/// `ev` answers the value of all that follows it, which becomes the only result; what
/// has no value leaves the results as they were.
pub proof fn law_ev<V: FnOnce(&str) -> Result<VirtAddr, Error>>(
    source: Seq<char>,
    eval: V,
    reply: CommandReply,
    results: Option<Seq<u64>>,
)
    requires
        may_ev(source, eval, reply, results),
    ensures
        source.len() == 0 ==> (reply matches CommandReply::Help(name) && name@ == "ev"@),
        source.len() > 0 ==> reply is Said || reply is Failed,
        reply is Said <==> results is Some,
        reply matches CommandReply::Failed(e) ==> may_eval(
            eval,
            source,
            Err::<VirtAddr, Error>(e),
        ),
        results matches Some(list) ==> list.len() == 1 && may_eval(
            eval,
            source,
            Ok::<VirtAddr, Error>(VirtAddr(list[0])),
        ) && (reply->Said_0)@ == spec_addr(list[0]),
{
}

/// `set` gives the variable that its first word names, with or without a `$`, the value
/// of the expression behind it, and says so. The variable then has that value and that
/// source and every other what it had; without a name or a value nothing changes.
pub proof fn law_set<V: FnOnce(&str) -> Result<VirtAddr, Error>>(
    rest: Seq<char>,
    eval: V,
    reply: CommandReply,
    set: Option<(Seq<char>, u64, Seq<char>)>,
    pre: Seq<UserVar>,
    post: Seq<UserVar>,
)
    requires
        may_set(rest, eval, reply, set),
        assigned(pre, set, post),
    ensures
        reply is Said <==> set is Some,
        set is None ==> post == pre,
        (forall|i: int| 0 <= i < rest.len() ==> !is_space(#[trigger] rest[i])) ==> (
        reply matches CommandReply::Help(name) && name@ == "set"@),
        set matches Some((name, value, source)) ==> {
            &&& exists|end: int|
                {
                    &&& 0 <= end < rest.len()
                    &&& is_space(rest[end])
                    &&& forall|i: int| 0 <= i < end ==> !is_space(#[trigger] rest[i])
                    &&& name == variable_name(#[trigger] rest.take(end))
                    &&& source == trimmed(rest.skip(end + 1))
                }
            &&& is_variable_name(name)
            &&& may_eval(eval, source, Ok::<VirtAddr, Error>(VirtAddr(value)))
            &&& (reply->Said_0)@ == "$"@ + name + " = "@ + spec_addr(value) + "\n"@
            &&& holds(post, name, value, source)
            &&& forall|v: u64, s: Seq<char>| #[trigger]
                holds(post, name, v, s) ==> v == value && s == source
            &&& forall|n: Seq<char>, v: u64, s: Seq<char>|
                n != name ==> (#[trigger] holds(post, n, v, s) <==> holds(pre, n, v, s))
        },
{
    law_word_ends_at_white_space(rest);
    let split = word_prefix(rest);
    if let Some((name, value, source)) = set {
        assert(split < rest.len());
        let found = choose|found: Result<VirtAddr, Error>|
            {
                &&& #[trigger] may_eval(eval, source, found)
                &&& match found {
                    Err(e) => reply == CommandReply::Failed(e) && set is None,
                    Ok(v) => {
                        &&& reply.says("$"@ + name + " = "@ + spec_addr(v.0) + "\n"@)
                        &&& set == Some((name, v.0, source))
                    },
                }
            };
        assert(may_assign(name, source, eval, reply, set));
        assert(found == Ok::<VirtAddr, Error>(VirtAddr(value)));
        assert(name == variable_name(rest.take(split)));
    }
    if split == rest.len() {
    } else {
        assert(is_space(rest[split]));
    }
}

/// A name that `set` takes: a letter or `_`, and then letters, digits and `_`.
pub proof fn law_variable_names(name: Seq<char>)
    ensures
        is_variable_name(name) <==> {
            &&& name.len() > 0
            &&& !('0' <= name[0] <= '9')
            &&& forall|i: int|
                0 <= i < name.len() ==> ('a' <= #[trigger] name[i] <= 'z' || 'A' <= name[i] <= 'Z'
                    || '0' <= name[i] <= '9' || name[i] == '_')
        },
{
}

/// A variable goes by its name with or without a `$` before it: only one `$` is taken
/// away, and a text without one stays as it is.
pub proof fn law_dollars(name: Seq<char>)
    ensures
        without_dollar(seq!['$'] + name) == name,
        (name.len() == 0 || name[0] != '$') ==> without_dollar(name) == name,
{
    assert((seq!['$'] + name).skip(1) =~= name);
}

/// The result slots are those that a command gave, under its line; a command that gave
/// none leaves slots and line as they were, and no command changes a variable.
pub proof fn law_results_are_replaced(
    pre: Variables,
    line: Seq<char>,
    results: Option<Seq<u64>>,
    post: Variables,
)
    requires
        results_after(pre, line, results, post),
    ensures
        post.user == pre.user,
        results matches Some(list) ==> post.results@ == list && (post.results_origin matches Some(
            origin,
        ) && origin@ == line),
        results is None ==> post.results == pre.results && post.results_origin
            == pre.results_origin,
{
}

/// The line of a variable: its name, its value, and what it came from.
pub open spec fn variable_shown(name: Seq<char>, value: u64, source: Seq<char>) -> Seq<char> {
    "  $"@ + padded_right(name, 16) + " "@ + spec_addr(value) + "   "@ + spec_muted(source)
}

proof fn lemma_users(lines: Seq<Seq<char>>, user: Seq<UserVar>, n: nat)
    requires
        n <= user.len(),
    ensures
        user_lines(lines, user, n) == lines + Seq::new(
            n,
            |i: int| variable_shown(user[i].name@, user[i].value, user[i].source@),
        ),
    decreases n,
{
    if n > 0 {
        lemma_users(lines, user, (n - 1) as nat);
    }
    assert(user_lines(lines, user, n) =~= lines + Seq::new(
        n,
        |i: int| variable_shown(user[i].name@, user[i].value, user[i].source@),
    ));
}

proof fn lemma_builtins(lines: Seq<Seq<char>>, builtins: Seq<BuiltinVar>, n: nat)
    requires
        n <= builtins.len(),
    ensures
        builtin_lines(lines, builtins, n) == lines + Seq::new(
            n,
            |i: int| variable_shown(builtins[i].name@, builtins[i].value, builtins[i].source@),
        ),
    decreases n,
{
    if n > 0 {
        lemma_builtins(lines, builtins, (n - 1) as nat);
    }
    assert(builtin_lines(lines, builtins, n) =~= lines + Seq::new(
        n,
        |i: int| variable_shown(builtins[i].name@, builtins[i].value, builtins[i].source@),
    ));
}

/// These lines where a condition holds, else none.
pub open spec fn lines_if(condition: bool, lines: Seq<Seq<char>>) -> Seq<Seq<char>> {
    if condition {
        lines
    } else {
        Seq::empty()
    }
}

/// `vars` lists every variable of the user, the range of the result slots and what they
/// came from, and every builtin, in that order, each part behind an empty line where
/// something stands above it; without any it says so.
pub proof fn law_vars(variables: Variables, builtins: &[BuiltinVar], r: CommandReply)
    requires
        call_ensures(cmd_vars, (&variables, builtins), r),
    ensures
        ({
            let user = variables.user@;
            let slots = variables.results@.len();
            if user.len() == 0 && slots == 0 && builtins@.len() == 0 {
                r matches CommandReply::Said(said) && said@ == "no variables defined\n"@
            } else {
                r matches CommandReply::Lines(lines) && texts(lines@) == lines_if(
                    user.len() > 0,
                    seq![spec_label("user"@)],
                ) + Seq::new(
                    user.len(),
                    |i: int| variable_shown(user[i].name@, user[i].value, user[i].source@),
                ) + lines_if(user.len() > 0 && slots > 0, seq![""@]) + lines_if(
                    slots > 0,
                    seq![
                        "  "@ + spec_muted("$0..$"@ + dec((slots - 1) as nat)) + "   "@
                            + spec_muted(
                            match variables.results_origin {
                                Some(command) => "from: "@ + command@,
                                None => ""@,
                            },
                        ),
                    ],
                ) + lines_if((user.len() > 0 || slots > 0) && builtins@.len() > 0, seq![""@])
                    + lines_if(builtins@.len() > 0, seq![spec_label("builtins"@)]) + Seq::new(
                    builtins@.len(),
                    |i: int|
                        variable_shown(
                            builtins@[i].name@,
                            builtins@[i].value,
                            builtins@[i].source@,
                        ),
                ) + seq![""@]
            }
        }),
{
    let user = variables.user@;
    let slots = variables.results@.len();
    let none = Seq::<Seq<char>>::empty();
    if user.len() > 0 || slots > 0 || builtins@.len() > 0 {
        let a = lines_if(user.len() > 0, seq![spec_label("user"@)]);
        let b = Seq::new(
            user.len(),
            |i: int| variable_shown(user[i].name@, user[i].value, user[i].source@),
        );
        lemma_users(none.push(spec_label("user"@)), user, user.len());
        let first = if user.len() > 0 {
            user_lines(none.push(spec_label("user"@)), user, user.len())
        } else {
            none
        };
        assert(first =~= a + b);
        let origin = "  "@ + spec_muted("$0..$"@ + dec((slots - 1) as nat)) + "   "@ + spec_muted(
            match variables.results_origin {
                Some(command) => "from: "@ + command@,
                None => ""@,
            },
        );
        let c = lines_if(user.len() > 0 && slots > 0, seq![""@]) + lines_if(
            slots > 0,
            seq![origin],
        );
        let second = if slots > 0 {
            crate::repl::commands::symbols::with_gap(first, user.len() > 0).push(origin)
        } else {
            first
        };
        assert(second =~= a + b + c);
        let d = lines_if((user.len() > 0 || slots > 0) && builtins@.len() > 0, seq![""@])
            + lines_if(builtins@.len() > 0, seq![spec_label("builtins"@)]);
        let above = crate::repl::commands::symbols::with_gap(
            second,
            user.len() > 0 || slots > 0,
        ).push(spec_label("builtins"@));
        lemma_builtins(above, builtins@, builtins@.len());
        let e = Seq::new(
            builtins@.len(),
            |i: int|
                variable_shown(builtins@[i].name@, builtins@[i].value, builtins@[i].source@),
        );
        let third = if builtins@.len() > 0 {
            builtin_lines(above, builtins@, builtins@.len())
        } else {
            second
        };
        assert(third =~= a + b + c + d + e);
        assert(third.push(""@) =~= a + b + lines_if(user.len() > 0 && slots > 0, seq![""@])
            + lines_if(slots > 0, seq![origin]) + lines_if(
            (user.len() > 0 || slots > 0) && builtins@.len() > 0,
            seq![""@],
        ) + lines_if(builtins@.len() > 0, seq![spec_label("builtins"@)]) + e + seq![""@]);
    }
}

/// What `set` says of a word that is no name of a variable: the name without its `$`, and
/// what a name has to be.
pub proof fn law_bad_names_are_told<V: FnOnce(&str) -> Result<VirtAddr, Error>>(
    rest: Seq<char>,
    end: int,
    eval: V,
    reply: CommandReply,
    set: Option<(Seq<char>, u64, Seq<char>)>,
)
    requires
        may_set(rest, eval, reply, set),
        0 <= end < rest.len(),
        is_space(rest[end]),
        forall|i: int| 0 <= i < end ==> !is_space(#[trigger] rest[i]),
        !is_variable_name(variable_name(rest.take(end))),
    ensures
        reply matches CommandReply::Complaint(words) && words@ == "invalid variable name '$"@
            + variable_name(rest.take(end))
            + "' (must start with a letter or '_'; $<digits> are reserved for result slots)"@,
        set is None,
{
    law_word_ends_at_white_space(rest);
    let split = word_prefix(rest);
    assert(split == end) by {
        if split < end {
            assert(!is_space(rest[split]));
        } else if split > end {
            assert(!is_space(rest[end]));
        }
    }
}

} // verus!
