//! Looking breakpoints up.
use crate::gdb::breakpoints::{
    enumerates, Breakpoint, BreakpointHitResult, BreakpointManager, BreakpointScope,
};
use crate::gdb::install::{is_context_scope, scope_for_current_context};
use crate::target::Target;
use crate::types::VirtAddr;
use vstd::prelude::*;

verus! {

broadcast use vstd::std_specs::hash::group_hash_axioms;

/// What a breakpoint is looked up by.
enum Query<'a> {
    Enabled,
    Watching,
    Slot(u8),
    Hit { rip: u64, cr3: u64 },
    Patched { scope: &'a BreakpointScope, address: VirtAddr },
    Owned(u64),
}

impl<'a> Query<'a> {
    /// Whether a breakpoint answers the query.
    spec fn meets<E>(self, bp: Breakpoint<E>) -> bool {
        match self {
            Query::Enabled => bp.enabled,
            Query::Watching => bp.watches(),
            Query::Slot(slot) => bp.watches_slot(slot),
            Query::Hit { rip, cr3 } => bp.hit_by(rip, cr3),
            Query::Patched { scope, address } => bp.patched_at(VirtAddr(address.0))
                && bp.scope.same_as(scope),
            Query::Owned(rip) => bp.patched_at(VirtAddr(rip)),
        }
    }

    fn accepts<E>(&self, bp: &Breakpoint<E>) -> (r: bool)
        ensures
            r == self.meets(*bp),
    {
        match self {
            Query::Enabled => bp.enabled,
            Query::Watching => bp.enabled && bp.hardware.is_some(),
            Query::Slot(slot) => match bp.hardware {
                Some(hw) => bp.enabled && hw.slot == *slot,
                None => false,
            },
            Query::Hit { rip, cr3 } => bp.hardware.is_none() && bp.address.0 == *rip && bp.enabled
                && bp.scope.matches_cr3(*cr3),
            Query::Patched { scope, address } => bp.enabled && bp.hardware.is_none()
                && bp.address.0 == address.0 && bp.scope.equals(*scope),
            Query::Owned(rip) => bp.enabled && bp.hardware.is_none() && bp.address.0 == *rip,
        }
    }
}

impl<E> Breakpoint<E> {
    /// Whether this is an armed debug-register breakpoint.
    pub open spec fn watches(self) -> bool {
        self.enabled && self.hardware is Some
    }

    /// Whether this is the armed breakpoint of a debug register.
    pub open spec fn watches_slot(self, slot: u8) -> bool {
        self.enabled && (self.hardware matches Some(hw) && hw.slot == slot)
    }

    /// Whether this breakpoint has its int3 at an address.
    pub open spec fn patched_at(self, address: VirtAddr) -> bool {
        self.enabled && self.hardware is None && self.address == address
    }

    /// Whether stopping on the int3 at `rip` in the address space of `cr3` is
    /// a hit of this breakpoint.
    pub open spec fn hit_by(self, rip: u64, cr3: u64) -> bool {
        self.patched_at(VirtAddr(rip)) && self.scope.covers_cr3(cr3)
    }
}

impl<E> BreakpointManager<E> {
    /// Whether `bp` is registered under some key.
    pub open spec fn holds(&self, bp: Breakpoint<E>) -> bool {
        exists|k: u32| #[trigger] self.breakpoints@.contains_key(k) && self.breakpoints@[k] == bp
    }

    fn find(&self, query: Query<'_>) -> (r: Option<&Breakpoint<E>>)
        ensures
            match r {
                Some(bp) => query.meets(*bp) && self.holds(*bp),
                None => forall|k: u32| #[trigger]
                    self.breakpoints@.contains_key(k) ==> !query.meets(self.breakpoints@[k]),
            },
    {
        let ids = self.ids();
        let mut i: usize = 0;
        while i < ids.len()
            invariant
                i <= ids@.len(),
                enumerates(ids@, self.breakpoints@),
                forall|n: int| 0 <= n < i ==> !query.meets(self.breakpoints@[#[trigger] ids@[n]]),
            decreases ids@.len() - i,
        {
            let id: u32 = ids[i];
            assert(ids@.contains(id));
            assert(self.breakpoints@.contains_key(id));
            match self.breakpoints.get(&id) {
                Some(bp) => {
                    if query.accepts(bp) {
                        return Some(bp);
                    }
                },
                None => {},
            }
            i += 1;
        }
        None
    }

    /// Whether `order` is a listing of the breakpoints by ascending id.
    pub open spec fn lists(&self, order: Seq<u32>) -> bool {
        &&& enumerates(order, self.breakpoints@)
        &&& forall|i: int, j: int|
            0 <= i <= j < order.len() ==> self.breakpoints@[#[trigger] order[i]].id
                <= self.breakpoints@[#[trigger] order[j]].id
    }

    /// The keys of the breakpoints, by ascending id.
    pub(crate) fn ordered(&self) -> (r: Vec<u32>)
        ensures
            self.lists(r@),
    {
        let ids = self.ids();
        let mut out: Vec<u32> = Vec::new();
        let mut i: usize = 0;
        while i < ids.len()
            invariant
                i <= ids@.len(),
                enumerates(ids@, self.breakpoints@),
                out@.no_duplicates(),
                forall|k: u32| out@.contains(k) <==> exists|n: int| 0 <= n < i && #[trigger] ids@[n] == k,
                forall|a: int, b: int|
                    0 <= a <= b < out@.len() ==> self.breakpoints@[#[trigger] out@[a]].id
                        <= self.breakpoints@[#[trigger] out@[b]].id,
            decreases ids@.len() - i,
        {
            let id: u32 = ids[i];
            let at: usize = self.place(&out, id, Ghost(ids@));
            let ghost before = out@;
            assert(!before.contains(id));
            out.insert(at, id);
            assert forall|k: u32| out@.contains(k) <==> exists|n: int|
                0 <= n < i + 1 && #[trigger] ids@[n] == k by {
                if out@.contains(k) {
                    let p = out@.index_of(k);
                    if p < at {
                        assert(before[p] == k);
                        assert(before.contains(k));
                    } else if p > at {
                        assert(before[p - 1] == k);
                        assert(before.contains(k));
                    } else {
                        assert(ids@[i as int] == k);
                    }
                }
                if exists|n: int| 0 <= n < i + 1 && #[trigger] ids@[n] == k {
                    if k == id {
                        assert(out@[at as int] == k);
                    } else {
                        assert(before.contains(k));
                        let p = before.index_of(k);
                        if p < at {
                            assert(out@[p] == k);
                        } else {
                            assert(out@[p + 1] == k);
                        }
                    }
                }
            }
            i += 1;
        }
        assert forall|k: u32| #[trigger] self.breakpoints@.contains_key(k) <==> out@.contains(k) by {
            if ids@.contains(k) {
                assert(ids@[ids@.index_of(k)] == k);
            }
        }
        out
    }

    /// Where a key belongs in a list that is ordered by id.
    fn place(&self, out: &Vec<u32>, id: u32, Ghost(ids): Ghost<Seq<u32>>) -> (at: usize)
        requires
            enumerates(ids, self.breakpoints@),
            ids.contains(id),
            forall|k: u32| #[trigger] out@.contains(k) ==> ids.contains(k),
            forall|a: int, b: int|
                0 <= a <= b < out@.len() ==> self.breakpoints@[#[trigger] out@[a]].id
                    <= self.breakpoints@[#[trigger] out@[b]].id,
        ensures
            at <= out@.len(),
            forall|a: int|
                0 <= a < at ==> self.breakpoints@[#[trigger] out@[a]].id
                    <= self.breakpoints@[id].id,
            forall|a: int|
                at <= a < out@.len() ==> self.breakpoints@[id].id
                    < self.breakpoints@[#[trigger] out@[a]].id,
    {
        assert(self.breakpoints@.contains_key(id));
        let key: u32 = match self.breakpoints.get(&id) {
            Some(bp) => bp.id,
            None => 0,
        };
        let mut at: usize = 0;
        while at < out.len()
            invariant
                at <= out@.len(),
                enumerates(ids, self.breakpoints@),
                key == self.breakpoints@[id].id,
                forall|k: u32| #[trigger] out@.contains(k) ==> ids.contains(k),
                forall|a: int, b: int|
                    0 <= a <= b < out@.len() ==> self.breakpoints@[#[trigger] out@[a]].id
                        <= self.breakpoints@[#[trigger] out@[b]].id,
                forall|a: int|
                    0 <= a < at ==> self.breakpoints@[#[trigger] out@[a]].id <= key,
            decreases out@.len() - at,
        {
            let other: u32 = out[at];
            assert(out@.contains(other));
            assert(self.breakpoints@.contains_key(other));
            match self.breakpoints.get(&other) {
                Some(bp) => {
                    if bp.id > key {
                        return at;
                    }
                },
                None => {},
            }
            at += 1;
        }
        at
    }

    /// Every breakpoint, by ascending id.
    pub fn list(&self) -> (r: Vec<&Breakpoint<E>>)
        ensures
            exists|order: Seq<u32>| #[trigger]
                self.lists(order) && r@ =~= Seq::new(
                    order.len(),
                    |i: int| &self.breakpoints@[order[i]],
                ),
    {
        let order = self.ordered();
        let mut out: Vec<&Breakpoint<E>> = Vec::new();
        let mut i: usize = 0;
        while i < order.len()
            invariant
                i <= order@.len(),
                self.lists(order@),
                out@ =~= Seq::new(i as nat, |n: int| &self.breakpoints@[order@[n]]),
            decreases order@.len() - i,
        {
            let id: u32 = order[i];
            assert(order@.contains(id));
            assert(self.breakpoints@.contains_key(id));
            match self.breakpoints.get(&id) {
                Some(bp) => out.push(bp),
                None => {},
            }
            i += 1;
        }
        out
    }

    pub fn has_enabled_breakpoints(&self) -> (r: bool)
        ensures
            r <==> exists|k: u32| #[trigger]
                self.breakpoints@.contains_key(k) && self.breakpoints@[k].enabled,
    {
        self.find(Query::Enabled).is_some()
    }

    /// Whether any enabled hardware (DR) breakpoint exists — the cheap gate the
    /// stop path checks before reading DR6 on a single-step.
    pub fn has_enabled_hardware_breakpoints(&self) -> (r: bool)
        ensures
            r <==> exists|k: u32| #[trigger]
                self.breakpoints@.contains_key(k) && self.breakpoints@[k].watches(),
    {
        self.find(Query::Watching).is_some()
    }

    /// The enabled hardware breakpoint occupying DR slot `slot`, if any — used
    /// to map a DR6 status bit back to the breakpoint that fired.
    pub fn hardware_breakpoint_for_slot(&self, slot: u8) -> (r: Option<Breakpoint<E>>)
        ensures
            match r {
                Some(bp) => bp.watches_slot(slot) && self.holds(bp),
                None => forall|k: u32| #[trigger]
                    self.breakpoints@.contains_key(k) ==> !self.breakpoints@[k].watches_slot(slot),
            },
    {
        match self.find(Query::Slot(slot)) {
            Some(bp) => Some(bp.clone()),
            None => None,
        }
    }

    /// Whether `r` is a breakpoint that stopping at `rip` in the address space
    /// of `cr3` hits, or there is none.
    pub open spec fn may_report(&self, rip: u64, cr3: u64, r: BreakpointHitResult<E>) -> bool {
        match r {
            BreakpointHitResult::Hit(bp) => bp.hit_by(rip, cr3) && self.holds(bp),
            BreakpointHitResult::NotBreakpoint => forall|k: u32| #[trigger]
                self.breakpoints@.contains_key(k) ==> !self.breakpoints@[k].hit_by(rip, cr3),
        }
    }

    /// Whether stopping at `rip` in the address space of `cr3` is a hit. Where
    /// several breakpoints claim the stop, one of them is reported.
    pub fn check_breakpoint_hit(&self, rip: u64, cr3: u64) -> (r: BreakpointHitResult<E>)
        ensures
            self.may_report(rip, cr3, r),
    {
        match self.find(Query::Hit { rip, cr3 }) {
            Some(bp) => BreakpointHitResult::Hit(bp.clone()),
            None => BreakpointHitResult::NotBreakpoint,
        }
    }

    /// Whether `r` names a breakpoint that has its int3 at `address` for
    /// exactly this scope, or there is none.
    pub open spec fn names_patch(
        &self,
        scope: BreakpointScope,
        address: VirtAddr,
        r: Option<u32>,
    ) -> bool {
        match r {
            Some(id) => exists|k: u32| #[trigger]
                self.breakpoints@.contains_key(k) && self.breakpoints@[k].id == id
                    && self.breakpoints@[k].patched_at(address) && self.breakpoints@[k].scope.same_as(
                    &scope,
                ),
            None => forall|k: u32| #[trigger]
                self.breakpoints@.contains_key(k) ==> !(self.breakpoints@[k].patched_at(address)
                    && self.breakpoints@[k].scope.same_as(&scope)),
        }
    }

    /// The breakpoint that a new one at `address` would repeat.
    pub fn enabled_breakpoint_id_for_current_context<M>(
        &self,
        debugger: &Target<M>,
        address: VirtAddr,
    ) -> (r: Option<u32>)
        ensures
            exists|scope: BreakpointScope| #[trigger]
                is_context_scope(debugger, scope) && self.names_patch(scope, address, r),
    {
        let scope = scope_for_current_context(debugger);
        self.enabled_software_breakpoint_id(&scope, address)
    }

    pub fn enabled_software_breakpoint_id(&self, scope: &BreakpointScope, address: VirtAddr) -> (r:
        Option<u32>)
        ensures
            self.names_patch(*scope, address, r),
    {
        match self.find(Query::Patched { scope, address }) {
            Some(bp) => Some(bp.id),
            None => None,
        }
    }

    /// Find a breakpoint at `rip` regardless of its scope; "is this int3 owned
    /// by us?"
    pub fn breakpoint_id_at_address(&self, rip: u64) -> (r: Option<u32>)
        ensures
            match r {
                Some(id) => exists|k: u32| #[trigger]
                    self.breakpoints@.contains_key(k) && self.breakpoints@[k].id == id
                        && self.breakpoints@[k].patched_at(VirtAddr(rip)),
                None => forall|k: u32| #[trigger]
                    self.breakpoints@.contains_key(k) ==> !self.breakpoints@[k].patched_at(
                        VirtAddr(rip),
                    ),
            },
    {
        match self.find(Query::Owned(rip)) {
            Some(bp) => Some(bp.id),
            None => None,
        }
    }
}

} // verus!
