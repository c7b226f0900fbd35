//! What the commands that change breakpoints and variables change.
use crate::backend::DebugBackend;
use crate::error::Error;
use crate::gdb::breakpoints::BreakpointManager;
use crate::memory::MemoryOps;
use crate::repl::commands::breakpoints::{
    answers_change, cmd_bc, cmd_bd, cmd_be, is_id_arg,
};
use crate::repl::commands::symbols::{
    cmd_ev, cmd_ln, cmd_set, cmd_unset, cmd_x, may_ev, may_ln, may_set,
};
use crate::repl::commands::{CommandInvocation, CommandReply};
use crate::repl::completion::ReplCaches;
use crate::target::{machine, Target};
use crate::text::unsigned;
use crate::types::{PhysAddr, VirtAddr};
use crate::ui::spec_bp_id;
use crate::variables::{holds, Variables};
use vstd::prelude::*;
use vstd::string::*;

verus! {

/// The id that the first word of a command gives.
pub open spec fn id_of(invocation: CommandInvocation) -> Option<u32> {
    if invocation.argv@.len() == 0 {
        None
    } else {
        match unsigned(invocation.argv@[0]@, 10, 0xffff_ffff) {
            Some(id) => Some(id as u32),
            None => None,
        }
    }
}

/// What is answered where a command has no id: its help, or a complaint.
pub open spec fn explains(
    invocation: CommandInvocation,
    command: Seq<char>,
    reply: CommandReply,
) -> bool {
    match reply {
        CommandReply::Help(name) => invocation.argv@.len() == 0 && name@ == command,
        CommandReply::Complaint(why) => invocation.argv@.len() > 0 && why@
            == "invalid breakpoint ID: "@ + invocation.argv@[0]@,
        _ => false,
    }
}

/// What is answered to a change of a breakpoint: that it is done, or why it is not.
pub open spec fn told(reply: CommandReply, id: u32, done: Result<(), Error>, what: Seq<char>) -> bool {
    match (reply, done) {
        (CommandReply::Said(words), Ok(_)) => words@ == "breakpoint "@ + spec_bp_id(id) + " "@ + what
            + "\n"@,
        (CommandReply::Failed(e), Err(why)) => e == why,
        _ => false,
    }
}

proof fn lemma_id(
    invocation: CommandInvocation,
    command: Seq<char>,
    r: Result<u32, CommandReply>,
)
    requires
        is_id_arg(invocation, command, r),
    ensures
        match r {
            Ok(id) => id_of(invocation) == Some(id),
            Err(reply) => id_of(invocation) is None && explains(invocation, command, reply),
        },
{
}

proof fn lemma_told(reply: CommandReply, id: u32, done: Result<(), Error>, what: Seq<char>)
    requires
        answers_change(reply, id, done, what),
    ensures
        told(reply, id, done, what),
{
}

/// `bc` removes the breakpoint that its first word names and says so, or says why not;
/// without an id nothing is changed.
pub proof fn law_bc<E, X, T, D, C: DebugBackend, M: MemoryOps<PhysAddr>>(
    invocation: &CommandInvocation,
    breakpoints: &mut BreakpointManager<E>,
    caches: &mut ReplCaches<X, T, D>,
    client: &mut C,
    target: &mut Target<M>,
    id: u32,
    r: CommandReply,
)
    requires
        call_ensures(
            cmd_bc::<E, X, T, D, C, M>,
            (invocation, breakpoints, caches, client, target),
            r,
        ),
    ensures
        id_of(*invocation) is None ==> {
            &&& explains(*invocation, "bc"@, r)
            &&& final(breakpoints).breakpoints@ == old(breakpoints).breakpoints@
            &&& *final(client) == *old(client)
            &&& *final(target) == *old(target)
        },
        id_of(*invocation) == Some(id) ==> exists|done: Result<(), Error>| #[trigger]
                old(breakpoints).may_remove(
                    machine(old(client), old(target)),
                    id,
                    final(breakpoints),
                    machine(final(client), final(target)),
                    done,
                ) && told(r, id, done, "cleared"@),
{
    let given = choose|id: Result<u32, CommandReply>|
        {
            &&& #[trigger] is_id_arg(*invocation, "bc"@, id)
            &&& match id {
                Err(reply) => {
                    &&& r == reply
                    &&& old(breakpoints).unchanged(final(breakpoints))
                    &&& *final(client) == *old(client)
                    &&& *final(target) == *old(target)
                },
                Ok(id) => exists|done: Result<(), Error>| #[trigger]
                    old(breakpoints).may_remove(
                        machine(old(client), old(target)),
                        id,
                        final(breakpoints),
                        machine(final(client), final(target)),
                        done,
                    ) && answers_change(r, id, done, "cleared"@),
            }
        };
    lemma_id(*invocation, "bc"@, given);
    if given == Ok::<u32, CommandReply>(id) {
        let done = choose|done: Result<(), Error>| #[trigger]
            old(breakpoints).may_remove(
                machine(old(client), old(target)),
                id,
                final(breakpoints),
                machine(final(client), final(target)),
                done,
            ) && answers_change(r, id, done, "cleared"@);
        lemma_told(r, id, done, "cleared"@);
    }
}

/// `bd` disables the breakpoint that its first word names and says so, or says why not;
/// without an id nothing is changed.
pub proof fn law_bd<E, X, T, D, C: DebugBackend, M: MemoryOps<PhysAddr>>(
    invocation: &CommandInvocation,
    breakpoints: &mut BreakpointManager<E>,
    caches: &mut ReplCaches<X, T, D>,
    client: &mut C,
    target: &mut Target<M>,
    id: u32,
    r: CommandReply,
)
    requires
        call_ensures(
            cmd_bd::<E, X, T, D, C, M>,
            (invocation, breakpoints, caches, client, target),
            r,
        ),
    ensures
        id_of(*invocation) is None ==> {
            &&& explains(*invocation, "bd"@, r)
            &&& final(breakpoints).breakpoints@ == old(breakpoints).breakpoints@
            &&& *final(client) == *old(client)
            &&& *final(target) == *old(target)
        },
        id_of(*invocation) == Some(id) ==> exists|done: Result<(), Error>| #[trigger]
                old(breakpoints).may_disable(
                    machine(old(client), old(target)),
                    id,
                    final(breakpoints),
                    machine(final(client), final(target)),
                    done,
                ) && told(r, id, done, "disabled"@),
{
    let given = choose|id: Result<u32, CommandReply>|
        {
            &&& #[trigger] is_id_arg(*invocation, "bd"@, id)
            &&& match id {
                Err(reply) => {
                    &&& r == reply
                    &&& old(breakpoints).unchanged(final(breakpoints))
                    &&& *final(client) == *old(client)
                    &&& *final(target) == *old(target)
                },
                Ok(id) => exists|done: Result<(), Error>| #[trigger]
                    old(breakpoints).may_disable(
                        machine(old(client), old(target)),
                        id,
                        final(breakpoints),
                        machine(final(client), final(target)),
                        done,
                    ) && answers_change(r, id, done, "disabled"@),
            }
        };
    lemma_id(*invocation, "bd"@, given);
    if given == Ok::<u32, CommandReply>(id) {
        let done = choose|done: Result<(), Error>| #[trigger]
            old(breakpoints).may_disable(
                machine(old(client), old(target)),
                id,
                final(breakpoints),
                machine(final(client), final(target)),
                done,
            ) && answers_change(r, id, done, "disabled"@);
        lemma_told(r, id, done, "disabled"@);
    }
}

/// `be` enables the breakpoint that its first word names and says so, or says why not;
/// without an id nothing is changed.
pub proof fn law_be<E, X, T, D, C: DebugBackend, M: MemoryOps<PhysAddr>>(
    invocation: &CommandInvocation,
    breakpoints: &mut BreakpointManager<E>,
    caches: &mut ReplCaches<X, T, D>,
    client: &mut C,
    target: &mut Target<M>,
    id: u32,
    r: CommandReply,
)
    requires
        call_ensures(
            cmd_be::<E, X, T, D, C, M>,
            (invocation, breakpoints, caches, client, target),
            r,
        ),
    ensures
        id_of(*invocation) is None ==> {
            &&& explains(*invocation, "be"@, r)
            &&& final(breakpoints).breakpoints@ == old(breakpoints).breakpoints@
            &&& *final(client) == *old(client)
            &&& *final(target) == *old(target)
        },
        id_of(*invocation) == Some(id) ==> exists|done: Result<(), Error>| #[trigger]
                old(breakpoints).may_enable(
                    machine(old(client), old(target)),
                    id,
                    final(breakpoints),
                    machine(final(client), final(target)),
                    done,
                ) && told(r, id, done, "enabled"@),
{
    let given = choose|id: Result<u32, CommandReply>|
        {
            &&& #[trigger] is_id_arg(*invocation, "be"@, id)
            &&& match id {
                Err(reply) => {
                    &&& r == reply
                    &&& old(breakpoints).unchanged(final(breakpoints))
                    &&& *final(client) == *old(client)
                    &&& *final(target) == *old(target)
                },
                Ok(id) => exists|done: Result<(), Error>| #[trigger]
                    old(breakpoints).may_enable(
                        machine(old(client), old(target)),
                        id,
                        final(breakpoints),
                        machine(final(client), final(target)),
                        done,
                    ) && answers_change(r, id, done, "enabled"@),
            }
        };
    lemma_id(*invocation, "be"@, given);
    if given == Ok::<u32, CommandReply>(id) {
        let done = choose|done: Result<(), Error>| #[trigger]
            old(breakpoints).may_enable(
                machine(old(client), old(target)),
                id,
                final(breakpoints),
                machine(final(client), final(target)),
                done,
            ) && answers_change(r, id, done, "enabled"@);
        lemma_told(r, id, done, "enabled"@);
    }
}

/// The name in a word, without the `$` that may stand before it.
pub open spec fn named_in(word: Seq<char>) -> Seq<char> {
    if word.len() > 0 && word[0] == '$' {
        word.subrange(1, word.len() as int)
    } else {
        word
    }
}

/// `unset` removes the variable that its first word names, and no other, and says so; it
/// complains where there is none. The results stay.
pub proof fn law_unset(invocation: &CommandInvocation, variables: &mut Variables, r: CommandReply)
    requires
        call_ensures(cmd_unset, (invocation, variables), r),
    ensures
        final(variables).results == old(variables).results,
        final(variables).results_origin == old(variables).results_origin,
        invocation.argv@.len() == 0 ==> (r matches CommandReply::Help(name) && name@ == "unset"@)
            && *final(variables) == *old(variables),
        invocation.argv@.len() > 0 ==> ({
            let name = named_in(invocation.argv@[0]@);
            let known = exists|v: u64, s: Seq<char>| #[trigger]
                holds(old(variables).user@, name, v, s);
            &&& forall|v: u64, s: Seq<char>| !#[trigger] holds(final(variables).user@, name, v, s)
            &&& forall|n: Seq<char>, v: u64, s: Seq<char>|
                n != name ==> (#[trigger] holds(final(variables).user@, n, v, s) <==> holds(
                    old(variables).user@,
                    n,
                    v,
                    s,
                ))
            &&& known ==> (r matches CommandReply::Said(words) && words@ == "unset $"@ + name
                + "\n"@)
            &&& !known ==> (r matches CommandReply::Complaint(words) && words@
                == "no such variable: $"@ + name)
        }),
{
    if invocation.argv@.len() > 0 {
        let word = invocation.argv@[0]@;
        let name = named_in(word);
        if word.len() > 0 && word[0] == '$' {
            assert(word.skip(1) =~= name);
        }
        let user = old(variables).user@;
        if crate::variables::defines(user, name) {
            let i = choose|i: int| 0 <= i < user.len() && (#[trigger] user[i]).name@ == name;
            assert(holds(user, name, user[i].value, user[i].source@));
        }
    }
}

/// A variable that is set has its new value and source and no other; every other
/// variable, and the results, stay.
pub proof fn law_setting_a_variable(
    variables: &mut Variables,
    name: String,
    value: u64,
    source: String,
)
    requires
        call_ensures(Variables::set, (variables, name, value, source), ()),
    ensures
        holds(final(variables).user@, name@, value, source@),
        forall|v: u64, s: Seq<char>| #[trigger]
            holds(final(variables).user@, name@, v, s) ==> v == value && s == source@,
        forall|n: Seq<char>, v: u64, s: Seq<char>|
            n != name@ ==> (#[trigger] holds(final(variables).user@, n, v, s) <==> holds(
                old(variables).user@,
                n,
                v,
                s,
            )),
        final(variables).results == old(variables).results,
        final(variables).results_origin == old(variables).results_origin,
{
}

/// A variable that is unset is gone, and whether there was one is said; every other
/// variable, and the results, stay.
pub proof fn law_unsetting_a_variable(variables: &mut Variables, name: &str, r: bool)
    requires
        call_ensures(Variables::unset, (variables, name), r),
    ensures
        r <==> exists|v: u64, s: Seq<char>| #[trigger] holds(old(variables).user@, name@, v, s),
        forall|v: u64, s: Seq<char>| !#[trigger] holds(final(variables).user@, name@, v, s),
        forall|n: Seq<char>, v: u64, s: Seq<char>|
            n != name@ ==> (#[trigger] holds(final(variables).user@, n, v, s) <==> holds(
                old(variables).user@,
                n,
                v,
                s,
            )),
        final(variables).results == old(variables).results,
{
    let user = old(variables).user@;
    if crate::variables::defines(user, name@) {
        let i = choose|i: int| 0 <= i < user.len() && (#[trigger] user[i]).name@ == name@;
        assert(holds(user, name@, user[i].value, user[i].source@));
    }
}

/// `x` leaves the variables alone; its findings replace the results, under its line.
pub proof fn law_x_replaces_the_results<
    G: FnOnce(Option<&str>, &str, usize) -> Vec<String>,
    L: Fn(&str) -> Option<(VirtAddr, String)>,
>(
    invocation: &CommandInvocation,
    line: &str,
    variables: &mut Variables,
    search: G,
    lookup: &L,
    r: CommandReply,
)
    requires
        call_ensures(cmd_x::<G, L>, (invocation, line, variables, search, lookup), r),
    ensures
        final(variables).user == old(variables).user,
        invocation.argv@.len() == 0 ==> (r matches CommandReply::Help(name) && name@ == "x"@)
            && *final(variables) == *old(variables),
        invocation.argv@.len() > 0 ==> {
            &&& crate::repl::commands::symbols::may_list_symbols(
                invocation.argv@[0]@,
                search,
                *lookup,
                r,
                final(variables).results@,
            )
            &&& final(variables).results_origin matches Some(origin) && origin@ == line@
        },
{
}

/// `ln` and `ev` leave the variables alone; what they give replaces the results, under
/// their line, and where they give nothing the results stay.
pub proof fn law_ln_and_ev_replace_the_results<
    V: FnOnce(&str) -> Result<VirtAddr, Error>,
    S: FnOnce(VirtAddr) -> Option<(String, u32)>,
>(
    invocation: &CommandInvocation,
    line: &str,
    a: &mut Variables,
    b: &mut Variables,
    eval: V,
    closest: S,
    ln: CommandReply,
    ev: CommandReply,
)
    requires
        call_ensures(cmd_ln::<V, S>, (invocation, line, a, eval, closest), ln),
        call_ensures(cmd_ev::<V>, (invocation, line, b, eval), ev),
    ensures
        final(a).user == old(a).user,
        final(b).user == old(b).user,
        exists|results: Option<Seq<u64>>| #[trigger]
            may_ln(*invocation, eval, closest, ln, results) && match results {
                Some(list) => final(a).results@ == list && (
                final(a).results_origin matches Some(origin) && origin@ == line@),
                None => final(a).results == old(a).results && final(a).results_origin
                    == old(a).results_origin,
            },
        exists|results: Option<Seq<u64>>| #[trigger]
            may_ev(invocation.raw_tail@, eval, ev, results) && match results {
                Some(list) => final(b).results@ == list && (
                final(b).results_origin matches Some(origin) && origin@ == line@),
                None => final(b).results == old(b).results && final(b).results_origin
                    == old(b).results_origin,
            },
{
}

/// `set` leaves the results alone and sets what its words say.
pub proof fn law_set_leaves_the_results<V: FnOnce(&str) -> Result<VirtAddr, Error>>(
    invocation: &CommandInvocation,
    variables: &mut Variables,
    eval: V,
    r: CommandReply,
)
    requires
        call_ensures(cmd_set::<V>, (invocation, variables, eval), r),
    ensures
        final(variables).results == old(variables).results,
        final(variables).results_origin == old(variables).results_origin,
        exists|set: Option<(Seq<char>, u64, Seq<char>)>| #[trigger]
            may_set(invocation.joined_from(0), eval, r, set) && match set {
                None => final(variables).user@ == old(variables).user@,
                Some((name, value, source)) => holds(
                    final(variables).user@,
                    name,
                    value,
                    source,
                ),
            },
{
    let set = choose|set: Option<(Seq<char>, u64, Seq<char>)>| #[trigger]
        may_set(invocation.joined_from(0), eval, r, set)
            && crate::repl::commands::symbols::assigned(
            old(variables).user@,
            set,
            final(variables).user@,
        );
    if let Some((name, value, source)) = set {
        assert(holds(final(variables).user@, name, value, source));
    }
}

} // verus!
