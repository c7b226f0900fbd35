//! What tab completion knows, entry by entry.
use crate::error::Error;
use crate::gdb::breakpoints::BreakpointManager;
use crate::repl::completion::{
    breakpoint_entry, caches_follow, law_breakpoint_entries_are_the_listing, law_names_are_distinct,
    may_move_to, process_entries, shows, variable_kind, CompletionStrategy, ReplCaches,
};
use crate::target::ProcessInfo;
use crate::text::{comes_before, dec, texts};
use crate::types::Dtb;
use vstd::prelude::*;
use vstd::string::*;

verus! {

/// Whether a name is that of a strategy.
pub open spec fn called(strategy: CompletionStrategy, name: Seq<char>) -> bool {
    match strategy {
        CompletionStrategy::Nothing => name == "none"@ || name == ""@,
        CompletionStrategy::Symbol => name == "symbol"@,
        CompletionStrategy::Expression => name == "expression"@,
        CompletionStrategy::Type => name == "type"@,
        CompletionStrategy::Process => name == "process"@,
        CompletionStrategy::Thread => name == "thread"@,
        CompletionStrategy::Vcpu => name == "vcpu"@,
        CompletionStrategy::Breakpoint => name == "breakpoint"@,
        CompletionStrategy::Driver => name == "driver"@,
        CompletionStrategy::Alias => name == "alias"@,
    }
}

/// Every strategy goes by its own name, and by no name of another.
pub proof fn law_strategies_are_called(strategy: CompletionStrategy, other: CompletionStrategy)
    ensures
        called(strategy, strategy.kebab()),
        called(other, strategy.kebab()) ==> other == strategy,
{
    law_names_are_distinct(strategy, other);
}

/// Each process is kept with its own name and number, in the order of the listing.
pub proof fn law_processes_are_kept(processes: Seq<ProcessInfo>)
    ensures
        process_entries(processes).len() == processes.len(),
        forall|i: int|
            0 <= i < processes.len() ==> (#[trigger] process_entries(processes)[i]).0
                == processes[i].name && process_entries(processes)[i].1 == processes[i].pid,
{
}

/// Each breakpoint is kept with its own number, state, address and symbol.
pub proof fn law_breakpoints_are_kept<S, T, D, E>(
    before: ReplCaches<S, T, D>,
    after: ReplCaches<S, T, D>,
    breakpoints: BreakpointManager<E>,
)
    requires
        breakpoints.well_formed(),
        caches_follow(before, after, breakpoints),
    ensures
        forall|i: int|
            0 <= i < after.breakpoints@.len() ==> {
                let entry = #[trigger] after.breakpoints@[i];
                let bp = breakpoints.breakpoints@[entry.0];
                &&& breakpoints.breakpoints@.contains_key(entry.0)
                &&& entry.1 == bp.enabled
                &&& entry.2 == bp.address
                &&& entry.3 == bp.symbol
            },
        forall|k: u32| #[trigger]
            breakpoints.breakpoints@.contains_key(k) ==> exists|i: int|
                0 <= i < after.breakpoints@.len() && (#[trigger] after.breakpoints@[i]).0 == k,
        after.symbols == before.symbols && after.types == before.types && after.dtb == before.dtb,
        after.processes == before.processes && after.threads == before.threads,
        after.vcpus == before.vcpus && after.drivers == before.drivers,
{
    law_breakpoint_entries_are_the_listing(before, after, breakpoints);
    assert forall|k: u32| #[trigger] breakpoints.breakpoints@.contains_key(k) implies exists|i: int|
        0 <= i < after.breakpoints@.len() && (#[trigger] after.breakpoints@[i]).0 == k by {
        let entry = breakpoint_entry(breakpoints.breakpoints@[k]);
        assert(after.breakpoints@.contains(entry));
        let i = choose|i: int|
            0 <= i < after.breakpoints@.len() && after.breakpoints@[i] == entry;
        assert(after.breakpoints@[i].0 == k);
    }
}

/// Another page table brings the symbols and types of its context and changes nothing
/// else; the same one changes nothing at all.
pub proof fn law_context_brings_its_symbols<S, T, D, F: FnOnce() -> S, G: FnOnce() -> S>(
    before: ReplCaches<S, T, D>,
    dtb: Dtb,
    symbol_index: F,
    types_index: G,
    after: ReplCaches<S, T, D>,
)
    requires
        may_move_to(before, dtb, symbol_index, types_index, after),
    ensures
        after.dtb == dtb,
        dtb == before.dtb ==> after == before,
        dtb != before.dtb ==> call_ensures(symbol_index, (), after.symbols) && call_ensures(
            types_index,
            (),
            after.types,
        ),
        after.processes == before.processes && after.threads == before.threads,
        after.vcpus == before.vcpus && after.breakpoints == before.breakpoints,
        after.drivers == before.drivers && after.registers == before.registers,
        after.expression_variables == before.expression_variables,
        after.user_commands == before.user_commands && after.aliases == before.aliases,
{
}

/// A name of an expression is shown by what it means there: a result slot before all
/// else, a variable only where no register hides it, a builtin only where neither does;
/// every other name is not shown.
pub proof fn law_names_mean_one_thing(
    name: Seq<char>,
    variables: Seq<Seq<char>>,
    registers: Seq<Seq<char>>,
    results: int,
    builtins: Seq<Seq<char>>,
)
    ensures
        ({
            let kind = variable_kind(name, variables, registers, results, builtins);
            let slot = exists|i: int| 0 <= i < results && #[trigger] dec(i as nat) == name;
            let variable = exists|i: int| 0 <= i < variables.len() && #[trigger] variables[i] == name;
            let hidden = exists|i: int| 0 <= i < registers.len() && #[trigger] registers[i] == name;
            let builtin = exists|i: int| 0 <= i < builtins.len() && #[trigger] builtins[i] == name;
            &&& slot ==> kind == Some("Result"@)
            &&& (!slot && variable && !hidden) ==> kind == Some("Variable"@)
            &&& (!slot && (!variable || hidden) && builtin) ==> kind == Some("Builtin"@)
            &&& (!slot && (!variable || hidden) && !builtin) ==> kind is None
        }),
{
}

/// Whether the entries differ at most in those of processes.
pub open spec fn but_processes<S, T, D>(
    before: ReplCaches<S, T, D>,
    after: ReplCaches<S, T, D>,
) -> bool {
    &&& after.symbols == before.symbols && after.types == before.types && after.dtb == before.dtb
    &&& after.threads == before.threads && after.vcpus == before.vcpus
    &&& after.breakpoints == before.breakpoints && after.drivers == before.drivers
    &&& after.registers == before.registers
    &&& after.expression_variables == before.expression_variables
    &&& after.user_commands == before.user_commands && after.aliases == before.aliases
}

/// Whether entries are those of a listing of processes.
pub open spec fn lists_processes(entries: Seq<(String, u64)>, processes: Seq<ProcessInfo>) -> bool {
    &&& entries.len() == processes.len()
    &&& forall|i: int|
        0 <= i < processes.len() ==> (#[trigger] entries[i]).0 == processes[i].name && entries[i].1
            == processes[i].pid
}

/// A listing of processes is taken over; where there is none, the reason is told, and
/// the entries from before stay.
pub proof fn law_processes_are_refreshed<S, T, D>(
    caches: &mut ReplCaches<S, T, D>,
    listing: Result<Vec<ProcessInfo>, Error>,
    r: Result<(), Error>,
)
    requires
        call_ensures(ReplCaches::<S, T, D>::refresh_processes, (caches, listing), r),
    ensures
        but_processes(*old(caches), *final(caches)),
        match listing {
            Ok(processes) => r is Ok && lists_processes(final(caches).processes@, processes@),
            Err(e) => r == Err::<(), Error>(e) && final(caches).processes == old(caches).processes,
        },
{
    if let Ok(processes) = listing {
        law_processes_are_kept(processes@);
    }
}

/// Anew, a listing of processes is taken over; where there is none, the reason is told,
/// and no entries stay.
pub proof fn law_processes_are_reset<S, T, D>(
    caches: &mut ReplCaches<S, T, D>,
    listing: Result<Vec<ProcessInfo>, Error>,
    r: Result<(), Error>,
)
    requires
        call_ensures(ReplCaches::<S, T, D>::reset_processes, (caches, listing), r),
    ensures
        but_processes(*old(caches), *final(caches)),
        match listing {
            Ok(processes) => r is Ok && lists_processes(final(caches).processes@, processes@),
            Err(e) => r == Err::<(), Error>(e) && final(caches).processes@.len() == 0,
        },
{
    if let Ok(processes) = listing {
        law_processes_are_kept(processes@);
    }
}

/// A listing of processors or drivers is taken over; without one, refreshing keeps the
/// entries from before, and resetting drops them.
pub proof fn law_listings_are_taken_over<S, T, D>(
    a: &mut ReplCaches<S, T, D>,
    b: &mut ReplCaches<S, T, D>,
    c: &mut ReplCaches<S, T, D>,
    d: &mut ReplCaches<S, T, D>,
    vcpus: Result<Vec<String>, Error>,
    drivers: Result<Vec<D>, Error>,
)
    requires
        call_ensures(ReplCaches::<S, T, D>::refresh_vcpus, (a, vcpus), ()),
        call_ensures(ReplCaches::<S, T, D>::reset_vcpus, (b, vcpus), ()),
        call_ensures(ReplCaches::<S, T, D>::refresh_drivers, (c, drivers), ()),
        call_ensures(ReplCaches::<S, T, D>::reset_drivers, (d, drivers), ()),
    ensures
        match vcpus {
            Ok(list) => final(a).vcpus == list && final(b).vcpus == list,
            Err(_) => final(a).vcpus == old(a).vcpus && final(b).vcpus@.len() == 0,
        },
        match drivers {
            Ok(list) => final(c).drivers == list && final(d).drivers == list,
            Err(_) => final(c).drivers == old(c).drivers && final(d).drivers@.len() == 0,
        },
        final(a).processes == old(a).processes && final(b).processes == old(b).processes,
        final(a).drivers == old(a).drivers && final(b).drivers == old(b).drivers,
        final(c).vcpus == old(c).vcpus && final(d).vcpus == old(d).vcpus,
        final(c).breakpoints == old(c).breakpoints && final(d).breakpoints == old(d).breakpoints,
{
}

/// Forgetting drops the entries of one kind and keeps those of every other.
pub proof fn law_forgetting_drops_one_kind<S, T, D>(
    a: &mut ReplCaches<S, T, D>,
    b: &mut ReplCaches<S, T, D>,
    c: &mut ReplCaches<S, T, D>,
    d: &mut ReplCaches<S, T, D>,
)
    requires
        call_ensures(ReplCaches::<S, T, D>::forget_processes, (a,), ()),
        call_ensures(ReplCaches::<S, T, D>::forget_breakpoints, (b,), ()),
        call_ensures(ReplCaches::<S, T, D>::forget_drivers, (c,), ()),
        call_ensures(ReplCaches::<S, T, D>::clear_threads, (d,), ()),
    ensures
        final(a).processes@.len() == 0 && but_processes(*old(a), *final(a)),
        final(b).breakpoints@.len() == 0 && final(b).processes == old(b).processes,
        final(b).drivers == old(b).drivers && final(b).threads == old(b).threads,
        final(c).drivers@.len() == 0 && final(c).processes == old(c).processes,
        final(c).breakpoints == old(c).breakpoints && final(c).threads == old(c).threads,
        final(d).threads@.len() == 0 && final(d).processes == old(d).processes,
        final(d).breakpoints == old(d).breakpoints && final(d).drivers == old(d).drivers,
{
}

/// The names of expressions are kept in ascending order, each with what it means, and
/// nothing else changes.
pub proof fn law_expression_names<S, T, D>(
    caches: &mut ReplCaches<S, T, D>,
    user_vars: &[String],
    results: usize,
    builtins: &[String],
    name: Seq<char>,
    kind: Seq<char>,
)
    requires
        call_ensures(
            ReplCaches::<S, T, D>::refresh_expression_context,
            (caches, user_vars, results, builtins),
            (),
        ),
    ensures
        ({
            let list = final(caches).expression_variables@;
            &&& forall|i: int, j: int|
                0 <= i < j < list.len() ==> comes_before(
                    (#[trigger] list[i]).0@,
                    (#[trigger] list[j]).0@,
                )
            &&& (exists|i: int|
                0 <= i < list.len() && (#[trigger] list[i]).0@ == name && list[i].1@ == kind)
                <==> variable_kind(
                name,
                texts(user_vars@),
                texts(old(caches).registers@),
                results as int,
                texts(builtins@),
            ) == Some(kind)
        }),
        final(caches).registers == old(caches).registers,
        final(caches).processes == old(caches).processes,
{
    assert(shows(final(caches).expression_variables@, name, kind) <==> variable_kind(
        name,
        texts(user_vars@),
        texts(old(caches).registers@),
        results as int,
        texts(builtins@),
    ) == Some(kind));
}

} // verus!
