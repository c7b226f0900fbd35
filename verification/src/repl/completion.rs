//! What tab completion knows, and how it is kept up to date.
use crate::error::Error;
use crate::gdb::breakpoints::{Breakpoint, BreakpointManager};
use crate::gdb::laws::law_listing_ascends;
use crate::target::ProcessInfo;
use crate::text::{
    comes_before, dec, decimal, is_before, lemma_before_total, lemma_before_transitive, same,
    texts,
};
use crate::types::{Dtb, VirtAddr};
use vstd::prelude::*;
use vstd::string::*;

verus! {

/// What an argument of a command is completed from.
#[derive(Clone, Copy, Debug, PartialEq, Eq, Structural)]
pub enum CompletionStrategy {
    Nothing,
    Symbol,
    Expression,
    Type,
    Process,
    Thread,
    Vcpu,
    Breakpoint,
    Driver,
    Alias,
}

impl CompletionStrategy {
    /// The name of the strategy.
    pub open spec fn kebab(self) -> Seq<char> {
        match self {
            CompletionStrategy::Nothing => "none"@,
            CompletionStrategy::Symbol => "symbol"@,
            CompletionStrategy::Expression => "expression"@,
            CompletionStrategy::Type => "type"@,
            CompletionStrategy::Process => "process"@,
            CompletionStrategy::Thread => "thread"@,
            CompletionStrategy::Vcpu => "vcpu"@,
            CompletionStrategy::Breakpoint => "breakpoint"@,
            CompletionStrategy::Driver => "driver"@,
            CompletionStrategy::Alias => "alias"@,
        }
    }

    /// The strategy of this name; the empty name means none.
    pub fn from_kebab(s: &str) -> (r: Option<Self>)
        ensures
            match r {
                Some(strategy) => s@ == strategy.kebab() || (s@ == ""@ && strategy
                    == CompletionStrategy::Nothing),
                None => s@ != ""@ && forall|strategy: CompletionStrategy|
                    s@ != #[trigger] strategy.kebab(),
            },
    {
        if same(s, "none") || same(s, "") {
            Some(Self::Nothing)
        } else if same(s, "symbol") {
            Some(Self::Symbol)
        } else if same(s, "expression") {
            Some(Self::Expression)
        } else if same(s, "type") {
            Some(Self::Type)
        } else if same(s, "process") {
            Some(Self::Process)
        } else if same(s, "thread") {
            Some(Self::Thread)
        } else if same(s, "vcpu") {
            Some(Self::Vcpu)
        } else if same(s, "breakpoint") {
            Some(Self::Breakpoint)
        } else if same(s, "driver") {
            Some(Self::Driver)
        } else if same(s, "alias") {
            Some(Self::Alias)
        } else {
            None
        }
    }
}

/// Each name stands for one strategy, and none is empty.
pub proof fn law_names_are_distinct(a: CompletionStrategy, b: CompletionStrategy)
    ensures
        a.kebab() == b.kebab() ==> a == b,
        a.kebab() != ""@,
{
    reveal_strlit("none");
    reveal_strlit("symbol");
    reveal_strlit("expression");
    reveal_strlit("type");
    reveal_strlit("process");
    reveal_strlit("thread");
    reveal_strlit("vcpu");
    reveal_strlit("breakpoint");
    reveal_strlit("driver");
    reveal_strlit("alias");
    reveal_strlit("");
    assert(a.kebab().len() > 0 && ""@.len() == 0);
    assert(a.kebab()[0] == b.kebab()[0] && a.kebab().len() == b.kebab().len() && a.kebab()[1]
        == b.kebab()[1] ==> a == b);
}

/// Cached process info for completion (name, PID)
pub type ProcessCache = Vec<(String, u64)>;

/// Cached execution-context IDs for completion
pub type VcpuCache = Vec<String>;

/// Cached breakpoint info for completion (id, enabled, address, symbol)
pub type BreakpointCache = Vec<(u32, bool, VirtAddr, Option<String>)>;

/// Cached expression variable name and display kind
pub type ExpressionVariableCache = Vec<(String, &'static str)>;

/// Cached (name, help, per-arg strategies) for script-registered commands
pub type UserCommandCache = Vec<(String, String, Vec<CompletionStrategy>)>;

/// Cached user alias definitions for completion
pub type AliasCache = Vec<(String, String)>;

/// Completion-facing state shared between the REPL loop (which rewrites the
/// caches as the target's state changes) and the tab completer. `S` is an index
/// of symbols, `T` what is known of a thread, `D` of a driver object.
pub struct ReplCaches<S, T, D> {
    pub symbols: S,
    pub types: S,
    pub dtb: Dtb,
    pub processes: ProcessCache,
    pub threads: Vec<T>,
    pub vcpus: VcpuCache,
    pub breakpoints: BreakpointCache,
    pub drivers: Vec<D>,
    pub registers: Vec<String>,
    pub expression_variables: ExpressionVariableCache,
    pub user_commands: UserCommandCache,
    pub aliases: AliasCache,
}

/// What is kept of processes: name and PID.
pub open spec fn process_entries(processes: Seq<ProcessInfo>) -> Seq<(String, u64)> {
    processes.map_values(|p: ProcessInfo| (p.name, p.pid))
}

/// What is kept of a breakpoint.
pub open spec fn breakpoint_entry<E>(bp: Breakpoint<E>) -> (u32, bool, VirtAddr, Option<String>) {
    (bp.id, bp.enabled, bp.address, bp.symbol)
}

/// Whether the completion entries of breakpoints are those of the breakpoints,
/// and all other entries as they were.
pub open spec fn caches_follow<S, T, D, E>(
    before: ReplCaches<S, T, D>,
    caches: ReplCaches<S, T, D>,
    breakpoints: BreakpointManager<E>,
) -> bool {
    &&& exists|order: Seq<u32>| #[trigger]
        breakpoints.lists(order) && caches.breakpoints@ =~= Seq::new(
            order.len(),
            |i: int| breakpoint_entry(breakpoints.breakpoints@[order[i]]),
        )
    &&& caches == (ReplCaches { breakpoints: caches.breakpoints, ..before })
}

/// Whether the entries may be `after` once the active context has the page table
/// `dtb`: as they were where it had it before, and else with the symbols and types
/// of that context.
pub open spec fn may_move_to<S, T, D, F: FnOnce() -> S, G: FnOnce() -> S>(
    before: ReplCaches<S, T, D>,
    dtb: Dtb,
    symbol_index: F,
    types_index: G,
    after: ReplCaches<S, T, D>,
) -> bool {
    if dtb == before.dtb {
        after == before
    } else {
        &&& call_ensures(symbol_index, (), after.symbols)
        &&& call_ensures(types_index, (), after.types)
        &&& after == (ReplCaches { symbols: after.symbols, types: after.types, dtb, ..before })
    }
}

/// Whether `name` is the number of one of this many result slots.
pub open spec fn is_slot(name: Seq<char>, results: int) -> bool {
    exists|i: int| 0 <= i < results && #[trigger] dec(i as nat) == name
}

/// What is shown of an expression name: a result slot, else a variable unless a
/// register has that name, else a builtin.
pub open spec fn variable_kind(
    name: Seq<char>,
    variables: Seq<Seq<char>>,
    registers: Seq<Seq<char>>,
    results: int,
    builtins: Seq<Seq<char>>,
) -> Option<Seq<char>> {
    if is_slot(name, results) {
        Some("Result"@)
    } else if variables.contains(name) && !registers.contains(name) {
        Some("Variable"@)
    } else if builtins.contains(name) {
        Some("Builtin"@)
    } else {
        None
    }
}

/// Whether a list shows `name` as `kind`.
pub open spec fn shows(
    list: Seq<(String, &'static str)>,
    name: Seq<char>,
    kind: Seq<char>,
) -> bool {
    exists|i: int| 0 <= i < list.len() && (#[trigger] list[i]).0@ == name && list[i].1@ == kind
}

/// Whether a list holds `name`.
pub open spec fn names(list: Seq<(String, &'static str)>, name: Seq<char>) -> bool {
    exists|i: int| 0 <= i < list.len() && (#[trigger] list[i]).0@ == name
}

/// Whether a list is in strictly ascending order of name.
pub open spec fn ascends(list: Seq<(String, &'static str)>) -> bool {
    forall|i: int, j: int|
        0 <= i < j < list.len() ==> comes_before((#[trigger] list[i]).0@, (#[trigger] list[j]).0@)
}

/// Puts a name into a list in ascending order. A name that is there already
/// keeps its kind unless it is replaced.
fn put(list: &mut Vec<(String, &'static str)>, name: String, kind: &'static str, replace: bool)
    requires
        ascends(old(list)@),
    ensures
        ascends(final(list)@),
        forall|n: Seq<char>, k: Seq<char>| #[trigger]
            shows(final(list)@, n, k) <==> if n == name@ && (replace || !names(old(list)@, n)) {
                k == kind@
            } else {
                shows(old(list)@, n, k)
            },
{
    let ghost before = list@;
    let mut at: usize = 0;
    while at < list.len() && is_before(list[at].0.as_str(), name.as_str())
        invariant
            at <= list@.len(),
            list@ == before,
            forall|i: int| 0 <= i < at ==> comes_before((#[trigger] list@[i]).0@, name@),
        decreases list@.len() - at,
    {
        at += 1;
    }
    proof {
        assert forall|i: int| at <= i < before.len() implies !comes_before(
            (#[trigger] before[i]).0@,
            name@,
        ) && (i > at ==> comes_before(name@, before[i].0@)) by {
            if i > at {
                assert(comes_before(before[at as int].0@, before[i].0@));
                lemma_before_total(before[at as int].0@, name@);
                lemma_before_total(before[i].0@, name@);
                if before[at as int].0@ != name@ {
                    lemma_before_transitive(name@, before[at as int].0@, before[i].0@);
                }
            }
        }
        assert forall|i: int| 0 <= i < at implies (#[trigger] before[i]).0@ != name@ by {
            lemma_before_total(before[i].0@, name@);
        }
    }
    if at < list.len() && same(list[at].0.as_str(), name.as_str()) {
        assert(names(before, name@));
        proof {
            assert forall|i: int| 0 <= i < before.len() && i != at implies (#[trigger] before[i]).0@
                != name@ by {
                lemma_before_total(before[i].0@, name@);
            }
        }
        if replace {
            list.set(at, (name, kind));
            proof {
                assert forall|n: Seq<char>, k: Seq<char>| #[trigger]
                    shows(list@, n, k) <==> (if n == name@ {
                        k == kind@
                    } else {
                        shows(before, n, k)
                    }) by {
                    lemma_replaced(before, list@, at as int, n, k);
                }
                assert(ascends(list@)) by {
                    assert forall|i: int, j: int| 0 <= i < j < list@.len() implies comes_before(
                        (#[trigger] list@[i]).0@,
                        (#[trigger] list@[j]).0@,
                    ) by {
                        assert(comes_before(before[i].0@, before[j].0@));
                    }
                }
            }
        }
    } else {
        proof {
            assert(!names(before, name@)) by {
                if names(before, name@) {
                    let i = choose|i: int| 0 <= i < before.len() && (#[trigger] before[i]).0@ == name@;
                    if i >= at {
                        lemma_before_total(before[i].0@, name@);
                    }
                }
            }
            if at < before.len() {
                lemma_before_total(before[at as int].0@, name@);
            }
        }
        list.insert(at, (name, kind));
        proof {
            assert forall|n: Seq<char>, k: Seq<char>| #[trigger]
                shows(list@, n, k) <==> (if n == name@ {
                    k == kind@
                } else {
                    shows(before, n, k)
                }) by {
                lemma_inserted(before, (name, kind), at as int, n, k);
            }
            assert(ascends(list@)) by {
                assert forall|i: int, j: int| 0 <= i < j < list@.len() implies comes_before(
                    (#[trigger] list@[i]).0@,
                    (#[trigger] list@[j]).0@,
                ) by {
                    let p = if i < at {
                        i
                    } else {
                        i - 1
                    };
                    let q = if j < at {
                        j
                    } else {
                        j - 1
                    };
                    if i != at && j != at {
                        assert(comes_before(before[p].0@, before[q].0@));
                    }
                }
            }
        }
    }
}

proof fn lemma_replaced(
    before: Seq<(String, &'static str)>,
    after: Seq<(String, &'static str)>,
    at: int,
    n: Seq<char>,
    k: Seq<char>,
)
    requires
        0 <= at < before.len(),
        after.len() == before.len(),
        forall|i: int| 0 <= i < before.len() && i != at ==> #[trigger] after[i] == before[i],
        after[at].0@ == before[at].0@,
        forall|i: int|
            0 <= i < before.len() && i != at ==> (#[trigger] before[i]).0@ != before[at].0@,
    ensures
        shows(after, n, k) <==> (if n == before[at].0@ {
            k == after[at].1@
        } else {
            shows(before, n, k)
        }),
{
    if shows(after, n, k) {
        let i = choose|i: int| 0 <= i < after.len() && (#[trigger] after[i]).0@ == n && after[i].1@ == k;
        assert(before[i].0@ == after[i].0@);
    }
    if n == before[at].0@ && k == after[at].1@ {
        assert(after[at].0@ == n);
    }
    if n != before[at].0@ && shows(before, n, k) {
        let i = choose|i: int|
            0 <= i < before.len() && (#[trigger] before[i]).0@ == n && before[i].1@ == k;
        assert(after[i] == before[i]);
    }
}

proof fn lemma_inserted(
    before: Seq<(String, &'static str)>,
    entry: (String, &'static str),
    at: int,
    n: Seq<char>,
    k: Seq<char>,
)
    requires
        0 <= at <= before.len(),
        !names(before, entry.0@),
    ensures
        shows(before.insert(at, entry), n, k) <==> (if n == entry.0@ {
            k == entry.1@
        } else {
            shows(before, n, k)
        }),
{
    let after = before.insert(at, entry);
    if shows(after, n, k) {
        let i = choose|i: int| 0 <= i < after.len() && (#[trigger] after[i]).0@ == n && after[i].1@ == k;
        if i < at {
            assert(before[i] == after[i]);
        } else if i > at {
            assert(before[i - 1] == after[i]);
        }
    }
    if n == entry.0@ && k == entry.1@ {
        assert(after[at].0@ == n);
    }
    if n != entry.0@ && shows(before, n, k) {
        let i = choose|i: int|
            0 <= i < before.len() && (#[trigger] before[i]).0@ == n && before[i].1@ == k;
        if i < at {
            assert(after[i] == before[i]);
        } else {
            assert(after[i + 1] == before[i]);
        }
    }
}

impl<S, T, D> ReplCaches<S, T, D> {
    /// Take the guest's process list, as enumerated, into the completion cache
    pub fn refresh_processes(&mut self, listing: Result<Vec<ProcessInfo>, Error>) -> (r: Result<
        (),
        Error,
    >)
        ensures
            match listing {
                Ok(processes) => {
                    &&& r == Ok::<(), Error>(())
                    &&& final(self).processes@ == process_entries(processes@)
                    &&& *final(self) == (ReplCaches {
                        processes: final(self).processes,
                        ..*old(self)
                    })
                },
                Err(e) => r == Err::<(), Error>(e) && *final(self) == *old(self),
            },
    {
        let processes = match listing {
            Ok(processes) => processes,
            Err(e) => return Err(e),
        };
        let mut out: ProcessCache = Vec::new();
        let mut i: usize = 0;
        while i < processes.len()
            invariant
                i <= processes@.len(),
                out@ =~= process_entries(processes@.take(i as int)),
            decreases processes@.len() - i,
        {
            out.push((processes[i].name.clone(), processes[i].pid));
            i += 1;
        }
        assert(processes@.take(i as int) =~= processes@);
        self.processes = out;
        Ok(())
    }

    /// Take the guest's process list, as enumerated, into the completion cache,
    /// dropping the previous entries if enumeration failed
    pub fn reset_processes(&mut self, listing: Result<Vec<ProcessInfo>, Error>) -> (r: Result<
        (),
        Error,
    >)
        ensures
            match listing {
                Ok(processes) => {
                    &&& r == Ok::<(), Error>(())
                    &&& final(self).processes@ == process_entries(processes@)
                },
                Err(e) => {
                    &&& r == Err::<(), Error>(e)
                    &&& final(self).processes@ == Seq::<(String, u64)>::empty()
                },
            },
            *final(self) == (ReplCaches { processes: final(self).processes, ..*old(self) }),
    {
        self.forget_processes();
        self.refresh_processes(listing)
    }

    /// Drop the processes
    pub fn forget_processes(&mut self)
        ensures
            final(self).processes@ == Seq::<(String, u64)>::empty(),
            *final(self) == (ReplCaches { processes: final(self).processes, ..*old(self) }),
    {
        self.processes = Vec::new();
    }

    /// Drop the breakpoints
    pub fn forget_breakpoints(&mut self)
        ensures
            final(self).breakpoints@ == Seq::<(u32, bool, VirtAddr, Option<String>)>::empty(),
            *final(self) == (ReplCaches { breakpoints: final(self).breakpoints, ..*old(self) }),
    {
        self.breakpoints = Vec::new();
    }

    /// Drop the driver objects
    pub fn forget_drivers(&mut self)
        ensures
            final(self).drivers@ == Seq::<D>::empty(),
            *final(self) == (ReplCaches { drivers: final(self).drivers, ..*old(self) }),
    {
        self.drivers = Vec::new();
    }

    /// Take the execution contexts, as listed, into the completion cache,
    /// dropping the previous entries if listing failed
    pub fn reset_vcpus(&mut self, listing: Result<Vec<String>, Error>)
        ensures
            match listing {
                Ok(vcpus) => final(self).vcpus == vcpus,
                Err(_) => final(self).vcpus@ == Seq::<String>::empty(),
            },
            *final(self) == (ReplCaches { vcpus: final(self).vcpus, ..*old(self) }),
    {
        self.vcpus = match listing {
            Ok(vcpus) => vcpus,
            Err(_) => Vec::new(),
        };
    }

    /// Take the driver objects, as enumerated, into the completion cache,
    /// dropping the previous entries if enumeration failed
    pub fn reset_drivers(&mut self, listing: Result<Vec<D>, Error>)
        ensures
            match listing {
                Ok(drivers) => final(self).drivers == drivers,
                Err(_) => final(self).drivers@ == Seq::<D>::empty(),
            },
            *final(self) == (ReplCaches { drivers: final(self).drivers, ..*old(self) }),
    {
        self.drivers = match listing {
            Ok(drivers) => drivers,
            Err(_) => Vec::new(),
        };
    }

    /// Take the execution contexts, as listed, into the completion cache,
    /// leaving the previous entries in place if listing failed
    pub fn refresh_vcpus(&mut self, listing: Result<Vec<String>, Error>)
        ensures
            *final(self) == (match listing {
                Ok(vcpus) => ReplCaches { vcpus, ..*old(self) },
                Err(_) => *old(self),
            }),
    {
        match listing {
            Ok(vcpus) => {
                self.vcpus = vcpus;
            },
            Err(_) => {},
        }
    }

    /// The thread cache is only populated on demand (threads/thread commands);
    /// a full thread walk is far too expensive to run on every stop, especially
    /// over serial KD. Reloads just drop the now-stale entries.
    pub fn clear_threads(&mut self)
        ensures
            final(self).threads@ == Seq::<T>::empty(),
            *final(self) == (ReplCaches { threads: final(self).threads, ..*old(self) }),
    {
        self.threads = Vec::new();
    }

    /// Snapshot the current breakpoint set into the completion cache
    pub fn refresh_breakpoints<E>(&mut self, breakpoints: &BreakpointManager<E>)
        ensures
            caches_follow(*old(self), *final(self), *breakpoints),
    {
        let list = breakpoints.list();
        let ghost order = choose|order: Seq<u32>| #[trigger]
            breakpoints.lists(order) && list@ =~= Seq::new(
                order.len(),
                |i: int| &breakpoints.breakpoints@[order[i]],
            );
        let mut out: BreakpointCache = Vec::new();
        let mut i: usize = 0;
        while i < list.len()
            invariant
                i <= list@.len(),
                out@.len() == i,
                forall|k: int| 0 <= k < i ==> #[trigger] out@[k] == breakpoint_entry(*list@[k]),
            decreases list@.len() - i,
        {
            let bp = list[i];
            let symbol: Option<String> = match &bp.symbol {
                Some(s) => Some(s.clone()),
                None => None,
            };
            out.push((bp.id, bp.enabled, bp.address, symbol));
            i += 1;
        }
        assert(out@ =~= Seq::new(
            order.len(),
            |i: int| breakpoint_entry(breakpoints.breakpoints@[order[i]]),
        ));
        self.breakpoints = out;
    }

    /// Rebuild the symbol/type/DTB completion caches after the active context
    /// changes (kernel reload, process attach/detach).
    ///
    /// The merged symbol/type indexes are a function of the active DTB (the caches
    /// are built coherently with `dtb` at init and on every change), and
    /// rebuilding+sorting them is expensive. The continue loop calls this on every
    /// stop, so a breakpoint on a hot function; e.g. `PeekMessageW`, hammered by
    /// every message pump, would otherwise re-sort the whole index per hit. Skip
    /// the rebuild when the context DTB hasn't moved.
    pub fn refresh_symbol_context<F: FnOnce() -> S, G: FnOnce() -> S>(
        &mut self,
        new_dtb: Dtb,
        symbol_index: F,
        types_index: G,
    )
        requires
            new_dtb != old(self).dtb ==> call_requires(symbol_index, ()) && call_requires(
                types_index,
                (),
            ),
        ensures
            may_move_to(*old(self), new_dtb, symbol_index, types_index, *final(self)),
    {
        if self.dtb == new_dtb {
            return;
        }
        self.symbols = symbol_index();
        self.types = types_index();
        self.dtb = new_dtb;
    }

    /// Best-effort re-enumeration of driver objects into the completion cache,
    /// leaving the previous entries in place if enumeration fails
    pub fn refresh_drivers(&mut self, listing: Result<Vec<D>, Error>)
        ensures
            *final(self) == (match listing {
                Ok(drivers) => ReplCaches { drivers, ..*old(self) },
                Err(_) => *old(self),
            }),
    {
        match listing {
            Ok(drivers) => {
                self.drivers = drivers;
            },
            Err(_) => {},
        }
    }

    /// Take the names that expressions can use into the completion cache, each
    /// once, in ascending order: result slots, then user variables that no
    /// register hides, then builtins that neither of them hides.
    pub fn refresh_expression_context(
        &mut self,
        user_vars: &[String],
        results: usize,
        builtins: &[String],
    )
        ensures
            ascends(final(self).expression_variables@),
            forall|name: Seq<char>, kind: Seq<char>| #[trigger]
                shows(final(self).expression_variables@, name, kind) <==> variable_kind(
                    name,
                    texts(user_vars@),
                    texts(old(self).registers@),
                    results as int,
                    texts(builtins@),
                ) == Some(kind),
            *final(self) == (ReplCaches {
                expression_variables: final(self).expression_variables,
                ..*old(self)
            }),
    {
        let list = expression_names(user_vars, self.registers.as_slice(), results, builtins);
        self.expression_variables = list;
    }
}

fn listed(list: &[String], name: &str) -> (r: bool)
    ensures
        r == texts(list@).contains(name@),
{
    let mut i: usize = 0;
    while i < list.len()
        invariant
            i <= list@.len(),
            forall|k: int| 0 <= k < i ==> texts(list@)[k] != name@,
        decreases list@.len() - i,
    {
        assert(texts(list@)[i as int] == list@[i as int]@);
        if same(list[i].as_str(), name) {
            assert(texts(list@)[i as int] == name@);
            return true;
        }
        i += 1;
    }
    false
}

fn expression_names(
    user_vars: &[String],
    registers: &[String],
    results: usize,
    builtins: &[String],
) -> (r: ExpressionVariableCache)
    ensures
        ascends(r@),
        forall|name: Seq<char>, kind: Seq<char>| #[trigger]
            shows(r@, name, kind) <==> variable_kind(
                name,
                texts(user_vars@),
                texts(registers@),
                results as int,
                texts(builtins@),
            ) == Some(kind),
{
    let mut list: ExpressionVariableCache = Vec::new();
    let none: Ghost<Seq<Seq<char>>> = Ghost(Seq::empty());
    let mut i: usize = 0;
    while i < user_vars.len()
        invariant
            i <= user_vars@.len(),
            none@ == Seq::<Seq<char>>::empty(),
            ascends(list@),
            forall|name: Seq<char>, kind: Seq<char>| #[trigger]
                shows(list@, name, kind) <==> variable_kind(
                    name,
                    texts(user_vars@).take(i as int),
                    texts(registers@),
                    0,
                    none@,
                ) == Some(kind),
        decreases user_vars@.len() - i,
    {
        let ghost before = list@;
        let ghost vars = texts(user_vars@);
        assert(vars[i as int] == user_vars@[i as int]@);
        if !listed(registers, user_vars[i].as_str()) {
            put(&mut list, user_vars[i].clone(), "Variable", true);
        }
        assert forall|name: Seq<char>| #[trigger] vars.take(i + 1).contains(name) <==> vars.take(
            i as int,
        ).contains(name) || name == vars[i as int] by {
            lemma_take_contains(vars, i as int, name);
        }
        i += 1;
    }
    assert(texts(user_vars@).take(i as int) =~= texts(user_vars@));
    let mut n: usize = 0;
    while n < results
        invariant
            n <= results,
            none@ == Seq::<Seq<char>>::empty(),
            ascends(list@),
            forall|name: Seq<char>, kind: Seq<char>| #[trigger]
                shows(list@, name, kind) <==> variable_kind(
                    name,
                    texts(user_vars@),
                    texts(registers@),
                    n as int,
                    none@,
                ) == Some(kind),
        decreases results - n,
    {
        let ghost before = list@;
        let slot = decimal(n as u64);
        put(&mut list, slot, "Result", true);
        assert forall|name: Seq<char>| #[trigger] is_slot(name, n + 1) <==> is_slot(name, n as int)
            || name == dec(n as nat) by {
            lemma_next_slot(name, n as int);
        }
        n += 1;
    }
    let mut b: usize = 0;
    assert(texts(builtins@).take(0) =~= none@);
    while b < builtins.len()
        invariant
            b <= builtins@.len(),
            ascends(list@),
            forall|name: Seq<char>, kind: Seq<char>| #[trigger]
                shows(list@, name, kind) <==> variable_kind(
                    name,
                    texts(user_vars@),
                    texts(registers@),
                    results as int,
                    texts(builtins@).take(b as int),
                ) == Some(kind),
        decreases builtins@.len() - b,
    {
        let ghost before = list@;
        let ghost names_of = texts(builtins@);
        let ghost added = names_of[b as int];
        assert(added == builtins@[b as int]@);
        put(&mut list, builtins[b].clone(), "Builtin", false);
        assert forall|name: Seq<char>| #[trigger] names_of.take(b + 1).contains(name)
            <==> names_of.take(b as int).contains(name) || name == added by {
            lemma_take_contains(names_of, b as int, name);
        }
        proof {
            lemma_named_is_shown(before, added);
            let was = variable_kind(
                added,
                texts(user_vars@),
                texts(registers@),
                results as int,
                names_of.take(b as int),
            );
            if was is Some {
                assert(shows(before, added, was->0));
                lemma_shown_is_named(before, added, was->0);
            }
        }
        b += 1;
    }
    assert(texts(builtins@).take(b as int) =~= texts(builtins@));
    list
}

proof fn lemma_next_slot(name: Seq<char>, n: int)
    requires
        0 <= n,
    ensures
        is_slot(name, n + 1) <==> is_slot(name, n) || name == dec(n as nat),
{
    if is_slot(name, n + 1) {
        let k = choose|k: int| 0 <= k < n + 1 && #[trigger] dec(k as nat) == name;
        if k < n {
            assert(is_slot(name, n));
        }
    }
    if is_slot(name, n) {
        let k = choose|k: int| 0 <= k < n && #[trigger] dec(k as nat) == name;
        assert(0 <= k < n + 1);
        assert(is_slot(name, n + 1));
    }
    if name == dec(n as nat) {
        assert(0 <= n < n + 1);
        assert(is_slot(name, n + 1));
    }
}

proof fn lemma_take_contains(s: Seq<Seq<char>>, i: int, x: Seq<char>)
    requires
        0 <= i < s.len(),
    ensures
        s.take(i + 1).contains(x) <==> s.take(i).contains(x) || x == s[i],
{
    if s.take(i + 1).contains(x) {
        let k = s.take(i + 1).index_of(x);
        if k < i {
            assert(s.take(i)[k] == x);
        }
    }
    if s.take(i).contains(x) {
        let k = s.take(i).index_of(x);
        assert(s.take(i + 1)[k] == x);
    }
    if x == s[i] {
        assert(s.take(i + 1)[i] == x);
    }
}

proof fn lemma_named_is_shown(list: Seq<(String, &'static str)>, name: Seq<char>)
    ensures
        names(list, name) ==> exists|kind: Seq<char>| shows(list, name, kind),
{
    if names(list, name) {
        let i = choose|i: int| 0 <= i < list.len() && (#[trigger] list[i]).0@ == name;
        assert(shows(list, name, list[i].1@));
    }
}

proof fn lemma_shown_is_named(list: Seq<(String, &'static str)>, name: Seq<char>, kind: Seq<char>)
    requires
        shows(list, name, kind),
    ensures
        names(list, name),
{
    let i = choose|i: int|
        0 <= i < list.len() && (#[trigger] list[i]).0@ == name && list[i].1@ == kind;
    assert(list[i].0@ == name);
}

proof fn lemma_ascending_is_unique(a: Seq<u32>, b: Seq<u32>)
    requires
        forall|i: int, j: int| 0 <= i < j < a.len() ==> a[i] < a[j],
        forall|i: int, j: int| 0 <= i < j < b.len() ==> b[i] < b[j],
        forall|k: u32| a.contains(k) <==> b.contains(k),
    ensures
        a == b,
    decreases a.len(),
{
    if a.len() == 0 {
        if b.len() > 0 {
            assert(b.contains(b[0]));
        }
    } else {
        assert(a.contains(a.last()));
        assert(b.len() > 0);
        assert(b.contains(b.last()));
        assert(a.last() == b.last());
        let (c, d) = (a.drop_last(), b.drop_last());
        assert forall|k: u32| c.contains(k) <==> d.contains(k) by {
            if c.contains(k) {
                let i = choose|i: int| 0 <= i < c.len() && c[i] == k;
                assert(a[i] == k && a[i] < a.last());
                assert(a.contains(k));
                let j = choose|j: int| 0 <= j < b.len() && b[j] == k;
                assert(d[j] == k);
            }
            if d.contains(k) {
                let j = choose|j: int| 0 <= j < d.len() && d[j] == k;
                assert(b[j] == k && b[j] < b.last());
                assert(b.contains(k));
                let i = choose|i: int| 0 <= i < a.len() && a[i] == k;
                assert(c[i] == k);
            }
        }
        lemma_ascending_is_unique(c, d);
        assert(a =~= c.push(a.last()));
        assert(b =~= d.push(b.last()));
    }
}

/// Refreshing the entries of breakpoints leaves one for each breakpoint, in
/// ascending order of id, with what the breakpoint is now, and every other entry
/// as it was.
pub proof fn law_breakpoint_entries_are_the_listing<S, T, D, E>(
    before: ReplCaches<S, T, D>,
    after: ReplCaches<S, T, D>,
    breakpoints: BreakpointManager<E>,
)
    requires
        breakpoints.well_formed(),
        caches_follow(before, after, breakpoints),
    ensures
        forall|i: int, j: int|
            0 <= i < j < after.breakpoints@.len() ==> (#[trigger] after.breakpoints@[i]).0 < (
            #[trigger] after.breakpoints@[j]).0,
        forall|i: int|
            0 <= i < after.breakpoints@.len() ==> breakpoints.breakpoints@.contains_key(
                (#[trigger] after.breakpoints@[i]).0,
            ) && after.breakpoints@[i] == breakpoint_entry(
                breakpoints.breakpoints@[after.breakpoints@[i].0],
            ),
        forall|k: u32| #[trigger]
            breakpoints.breakpoints@.contains_key(k) ==> after.breakpoints@.contains(
                breakpoint_entry(breakpoints.breakpoints@[k]),
            ),
        after == (ReplCaches { breakpoints: after.breakpoints, ..before }),
{
    let order = choose|order: Seq<u32>| #[trigger]
        breakpoints.lists(order) && after.breakpoints@ =~= Seq::new(
            order.len(),
            |i: int| breakpoint_entry(breakpoints.breakpoints@[order[i]]),
        );
    law_listing_ascends(&breakpoints, order);
    assert forall|i: int| 0 <= i < order.len() implies breakpoints.breakpoints@.contains_key(
        #[trigger] order[i],
    ) && after.breakpoints@[i].0 == order[i] by {
        assert(order.contains(order[i]));
    }
    assert forall|i: int| 0 <= i < after.breakpoints@.len() implies
        breakpoints.breakpoints@.contains_key((#[trigger] after.breakpoints@[i]).0)
        && after.breakpoints@[i] == breakpoint_entry(
        breakpoints.breakpoints@[after.breakpoints@[i].0],
    ) by {
        assert(breakpoints.breakpoints@.contains_key(order[i]));
    }
    assert forall|i: int, j: int| 0 <= i < j < after.breakpoints@.len() implies (
    #[trigger] after.breakpoints@[i]).0 < (#[trigger] after.breakpoints@[j]).0 by {
        assert(order[i] < order[j]);
    }
    assert forall|k: u32| #[trigger]
        breakpoints.breakpoints@.contains_key(k) implies after.breakpoints@.contains(
        breakpoint_entry(breakpoints.breakpoints@[k]),
    ) by {
        assert(order.contains(k));
        let i = choose|i: int| 0 <= i < order.len() && order[i] == k;
        assert(after.breakpoints@[i] == breakpoint_entry(breakpoints.breakpoints@[k]));
    }
}

/// Refreshing the entries of breakpoints leaves nothing of the old ones: whatever
/// they were, the new ones are the same.
pub proof fn law_breakpoint_entries_are_replaced<S, T, D, E>(
    one: ReplCaches<S, T, D>,
    after_one: ReplCaches<S, T, D>,
    other: ReplCaches<S, T, D>,
    after_other: ReplCaches<S, T, D>,
    breakpoints: BreakpointManager<E>,
)
    requires
        breakpoints.well_formed(),
        caches_follow(one, after_one, breakpoints),
        caches_follow(other, after_other, breakpoints),
    ensures
        after_one.breakpoints@ == after_other.breakpoints@,
{
    let a = choose|order: Seq<u32>| #[trigger]
        breakpoints.lists(order) && after_one.breakpoints@ =~= Seq::new(
            order.len(),
            |i: int| breakpoint_entry(breakpoints.breakpoints@[order[i]]),
        );
    let b = choose|order: Seq<u32>| #[trigger]
        breakpoints.lists(order) && after_other.breakpoints@ =~= Seq::new(
            order.len(),
            |i: int| breakpoint_entry(breakpoints.breakpoints@[order[i]]),
        );
    law_listing_ascends(&breakpoints, a);
    law_listing_ascends(&breakpoints, b);
    assert forall|k: u32| a.contains(k) <==> b.contains(k) by {
        assert(breakpoints.breakpoints@.contains_key(k) <==> a.contains(k));
    }
    lemma_ascending_is_unique(a, b);
}

/// Moving to a context takes its page table up, and its indexes where the page
/// table moved; moving to the same context again changes nothing, and asks for no
/// index.
pub proof fn law_symbol_context_is_settled<
    S,
    T,
    D,
    F: FnOnce() -> S,
    G: FnOnce() -> S,
    H: FnOnce() -> S,
    I: FnOnce() -> S,
>(
    before: ReplCaches<S, T, D>,
    dtb: Dtb,
    symbol_index: F,
    types_index: G,
    after: ReplCaches<S, T, D>,
    symbol_index_again: H,
    types_index_again: I,
    again: ReplCaches<S, T, D>,
)
    requires
        may_move_to(before, dtb, symbol_index, types_index, after),
        may_move_to(after, dtb, symbol_index_again, types_index_again, again),
    ensures
        after.dtb == dtb,
        before.dtb == dtb ==> after == before,
        before.dtb != dtb ==> call_ensures(symbol_index, (), after.symbols) && call_ensures(
            types_index,
            (),
            after.types,
        ),
        after == (ReplCaches {
            symbols: after.symbols,
            types: after.types,
            dtb: after.dtb,
            ..before
        }),
        again == after,
{
}

} // verus!
