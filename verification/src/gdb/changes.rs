//! Changing the breakpoints of a session: arming debug registers, removing,
//! enabling, disabling and refreshing.
use crate::backend::{
    validate_hw_breakpoint, watch_refusal, watchable, BackendCall, DebugBackend, HwBreakpointAccess,
    HW_BREAKPOINT_SLOTS,
};
use crate::error::Error;
use crate::gdb::breakpoints::{
    enumerates, Breakpoint, BreakpointBackend, BreakpointManager, BreakpointScope,
    HardwareBreakpoint,
};
use crate::gdb::install::{
    install_existing_breakpoint, may_install_existing, may_restore, may_uninstall, refused,
    restore_byte, uninstall_breakpoint,
};
use crate::memory::MemoryOps;
use crate::target::{machine, Machine, Target};
use crate::text::{dec, decimal, text, text_opt};
use crate::types::{Dtb, PhysAddr, VirtAddr};
use std::sync::Arc;
use vstd::prelude::*;
use vstd::string::*;

verus! {

broadcast use vstd::std_specs::hash::group_hash_axioms;

/// A request for a debug-register breakpoint.
pub struct WatchRequest<F> {
    pub address: VirtAddr,
    pub access: HwBreakpointAccess,
    pub len: u8,
    pub symbol: Option<String>,
    pub condition: Option<String>,
    pub parse: F,
}

impl<E> BreakpointManager<E> {
    /// Whether a DR slot is claimed, by an enabled breakpoint or a disabled one.
    pub open spec fn slot_taken(&self, slot: u8) -> bool {
        exists|k: u32| #[trigger]
            self.breakpoints@.contains_key(k) && (self.breakpoints@[k].hardware matches Some(hw)
                && hw.slot == slot)
    }

    /// Whether `slot` is the lowest DR slot that no breakpoint claims.
    pub open spec fn lowest_free(&self, slot: u8) -> bool {
        &&& slot < HW_BREAKPOINT_SLOTS
        &&& !self.slot_taken(slot)
        &&& forall|lower: u8| lower < slot ==> #[trigger] self.slot_taken(lower)
    }

    /// Whether every DR slot is claimed.
    pub open spec fn slots_exhausted(&self) -> bool {
        forall|slot: u8| slot < HW_BREAKPOINT_SLOTS ==> #[trigger] self.slot_taken(slot)
    }

    fn takes_slot(&self, slot: u8) -> (r: bool)
        ensures
            r == self.slot_taken(slot),
    {
        let ids = self.ids();
        let mut i: usize = 0;
        while i < ids.len()
            invariant
                i <= ids@.len(),
                enumerates(ids@, self.breakpoints@),
                forall|n: int|
                    0 <= n < i ==> !(self.breakpoints@[#[trigger] ids@[n]].hardware matches Some(hw)
                        && hw.slot == slot),
            decreases ids@.len() - i,
        {
            let id: u32 = ids[i];
            assert(ids@.contains(id));
            assert(self.breakpoints@.contains_key(id));
            match self.breakpoints.get(&id) {
                Some(bp) => match bp.hardware {
                    Some(hw) => {
                        if hw.slot == slot {
                            return true;
                        }
                    },
                    None => {},
                },
                None => {},
            }
            i += 1;
        }
        false
    }

    /// What is said when no DR slot is left.
    pub open spec fn no_slot_message() -> Seq<char> {
        "all "@ + dec(HW_BREAKPOINT_SLOTS as nat) + " hardware breakpoint slots are in use"@
    }

    /// The lowest DR slot (0-3) not already claimed by a hardware breakpoint,
    /// or an error when all four are in use. Disabled hardware breakpoints keep
    /// their slot reserved (matching WinDbg's fixed four).
    pub fn free_hardware_slot(&self) -> (r: Result<u8, Error>)
        ensures
            match r {
                Ok(slot) => self.lowest_free(slot),
                Err(_) => self.slots_exhausted() && refused(r, Self::no_slot_message()),
            },
    {
        let mut slot: u8 = 0;
        while slot < HW_BREAKPOINT_SLOTS
            invariant
                slot <= HW_BREAKPOINT_SLOTS,
                forall|lower: u8| lower < slot ==> #[trigger] self.slot_taken(lower),
            decreases HW_BREAKPOINT_SLOTS - slot,
        {
            if !self.takes_slot(slot) {
                return Ok(slot);
            }
            slot += 1;
        }
        Err(
            Error::Rsp(
                text("all ").concat(decimal(HW_BREAKPOINT_SLOTS as u64).as_str()).concat(
                    " hardware breakpoint slots are in use",
                ),
            ),
        )
    }

    /// Whether setting a debug-register breakpoint may turn the manager from
    /// `self` to `post` and the transport from `pre` to `end`, and end with
    /// `result`.
    pub open spec fn may_add_hardware<C: DebugBackend, F: FnOnce(&str) -> Result<E, Error>>(
        &self,
        pre: &C,
        request: WatchRequest<F>,
        post: &Self,
        end: &C,
        result: Result<u32, Error>,
    ) -> bool {
        exists|compiled: Result<Option<Arc<E>>, Error>|
            {
                &&& #[trigger] Self::may_compile(
                    text_opt(request.condition),
                    request.parse,
                    compiled,
                )
                &&& match compiled {
                    Err(e) => {
                        &&& result == Err::<u32, Error>(e)
                        &&& self.unchanged(post)
                        &&& end == pre
                    },
                    Ok(expr) => exists|supported: bool|
                        {
                            &&& #[trigger] pre.may_watch(supported)
                            &&& if !supported {
                                &&& result == Err::<u32, Error>(Error::NotSupported)
                                &&& self.unchanged(post)
                                &&& end == pre
                            } else if !watchable(request.access, request.len, request.address.0) {
                                &&& refused(result, watch_refusal(request.len))
                                &&& self.unchanged(post)
                                &&& end == pre
                            } else if self.slots_exhausted() {
                                &&& refused(result, Self::no_slot_message())
                                &&& self.unchanged(post)
                                &&& end == pre
                            } else {
                                self.may_arm(pre, request, expr, post, end, result)
                            }
                        },
                }
            }
    }

    /// What setting a debug-register breakpoint may do once it is admitted: the
    /// lowest free slot is armed, and the breakpoint is registered if and only
    /// if that worked.
    pub open spec fn may_arm<C: DebugBackend, F: FnOnce(&str) -> Result<E, Error>>(
        &self,
        pre: &C,
        request: WatchRequest<F>,
        expr: Option<Arc<E>>,
        post: &Self,
        end: &C,
        result: Result<u32, Error>,
    ) -> bool {
        exists|slot: u8, reply: Result<(), Error>|
            {
                &&& #[trigger] self.lowest_free(slot)
                &&& #[trigger] pre.may(
                    BackendCall::SetHardware {
                        slot,
                        address: request.address.0,
                        access: request.access,
                        len: request.len,
                    },
                    reply,
                    end,
                )
                &&& match reply {
                    Err(e) => result == Err::<u32, Error>(e) && self.unchanged(post),
                    Ok(_) => {
                        &&& result == Ok::<u32, Error>(self.next_id)
                        &&& post.next_id == self.next_id + 1
                        &&& post.breakpoints@ == self.breakpoints@.insert(
                            self.next_id,
                            Breakpoint {
                                id: self.next_id,
                                address: request.address,
                                enabled: true,
                                symbol: request.symbol,
                                scope: BreakpointScope::Kernel,
                                condition: request.condition,
                                condition_expr: expr,
                                temporary: false,
                                hardware: Some(
                                    HardwareBreakpoint {
                                        access: request.access,
                                        len: request.len,
                                        slot,
                                    },
                                ),
                                backend: BreakpointBackend::Hardware,
                            },
                        )
                    },
                }
            }
    }

    /// Set a hardware (debug-register) breakpoint: a global watch on `address`
    /// for `access` over `len` bytes. Backends without DR support reject this
    /// with [`Error::NotSupported`]. Unlike software breakpoints these are
    /// always global (DR matches a linear address in any process) and modify no
    /// guest memory, so validation is alignment/width only, not page
    /// executability. `parse` compiles the condition.
    pub fn add_hardware<C: DebugBackend, F: FnOnce(&str) -> Result<E, Error>>(
        &mut self,
        client: &mut C,
        address: VirtAddr,
        access: HwBreakpointAccess,
        len: u8,
        symbol: Option<String>,
        condition: Option<String>,
        parse: F,
    ) -> (r: Result<u32, Error>)
        requires
            old(self).next_id < u32::MAX,
            forall|s: &str| call_requires(parse, (s,)),
        ensures
            old(self).may_add_hardware(
                old(client),
                WatchRequest { address, access, len, symbol, condition, parse },
                final(self),
                final(client),
                r,
            ),
            old(self).well_formed() ==> final(self).well_formed(),
    {
        let ghost asked = WatchRequest { address, access, len, symbol, condition, parse };
        let compiled = Self::compile_condition(
            match &condition {
                Some(s) => Some(s.as_str()),
                None => None,
            },
            parse,
        );
        assert(Self::may_compile(text_opt(asked.condition), asked.parse, compiled));
        let condition_expr = match compiled {
            Ok(expr) => expr,
            Err(e) => return Err(e),
        };
        let supported = client.supports_watchpoints();
        assert(client.may_watch(supported));
        if !supported {
            return Err(Error::NotSupported);
        }
        match validate_hw_breakpoint(access, len, address.0) {
            Ok(()) => {},
            Err(e) => return Err(e),
        }
        let slot: u8 = match self.free_hardware_slot() {
            Ok(slot) => slot,
            Err(e) => return Err(e),
        };
        let reply = client.set_hardware_breakpoint(slot, address.0, access, len);
        assert(self.lowest_free(slot));
        assert(!self.slots_exhausted());
        let ghost expr = condition_expr;
        match reply {
            Ok(()) => {},
            Err(e) => {
                assert(old(self).may_arm(old(client), asked, expr, self, client, Err(e)));
                return Err(e);
            },
        }
        let id: u32 = self.next_id;
        self.next_id += 1;
        self.breakpoints.insert(
            id,
            Breakpoint {
                id,
                address,
                enabled: true,
                symbol,
                scope: BreakpointScope::Kernel,
                condition,
                condition_expr,
                temporary: false,
                hardware: Some(HardwareBreakpoint { access, len, slot }),
                backend: BreakpointBackend::Hardware,
            },
        );
        assert(old(self).may_arm(old(client), asked, expr, self, client, Ok(id)));
        proof {
            if old(self).well_formed() {
                assert forall|k: u32, l: u32| #[trigger] self.holds_slot_of(k, l) implies k == l by {
                    if k != id && l != id {
                        assert(old(self).holds_slot_of(k, l));
                    } else if k != id || l != id {
                        let other = if k != id { k } else { l };
                        assert(old(self).breakpoints@.contains_key(other));
                        assert(old(self).slot_taken(slot));
                    }
                }
            }
        }
        Ok(id)
    }

    /// Whether `post` is the manager without the entry `id`. Ids start over
    /// once the last entry is gone.
    pub open spec fn dropped(&self, id: u32, post: &Self) -> bool {
        &&& post.breakpoints@ == self.breakpoints@.remove(id)
        &&& post.next_id == if self.breakpoints@.remove(id).dom().is_empty() {
            0
        } else {
            self.next_id
        }
    }

    fn drop_entry(&mut self, id: u32) -> (r: Option<Breakpoint<E>>)
        requires
            old(self).breakpoints@.contains_key(id),
        ensures
            r == Some(old(self).breakpoints@[id]),
            old(self).dropped(id, final(self)),
            old(self).well_formed() ==> final(self).well_formed(),
    {
        let bp = self.breakpoints.remove(&id);
        if self.breakpoints.is_empty() {
            self.next_id = 0;
        }
        proof {
            if old(self).well_formed() {
                assert forall|k: u32, l: u32| #[trigger] self.holds_slot_of(k, l) implies k == l by {
                    assert(old(self).holds_slot_of(k, l));
                }
                assert forall|k: u32| #[trigger] self.breakpoints@.contains_key(k) implies
                    self.breakpoints@[k].id == k && k < self.next_id by {
                    assert(old(self).breakpoints@.contains_key(k));
                    assert(self.breakpoints@.dom().contains(k));
                }
            }
        }
        bp
    }

    /// Whether removing the breakpoint `id` may turn the manager from `self` to
    /// `post` and the machine from `pre` to `end`, and end with `result`. An
    /// enabled breakpoint that cannot be taken out of the target stays.
    pub open spec fn may_remove<C: DebugBackend, M: MemoryOps<PhysAddr>>(
        &self,
        pre: Machine<C, M>,
        id: u32,
        post: &Self,
        end: Machine<C, M>,
        result: Result<(), Error>,
    ) -> bool {
        if !self.breakpoints@.contains_key(id) {
            &&& result == Err::<(), Error>(Error::BPNotFound(id))
            &&& self.unchanged(post)
            &&& end == pre
        } else if !self.breakpoints@[id].enabled {
            &&& result == Ok::<(), Error>(())
            &&& self.dropped(id, post)
            &&& end == pre
        } else {
            &&& may_uninstall(pre, &self.breakpoints@[id], result, end)
            &&& match result {
                Ok(_) => self.dropped(id, post),
                Err(_) => self.unchanged(post),
            }
        }
    }

    pub fn remove<C: DebugBackend, M: MemoryOps<PhysAddr>>(
        &mut self,
        client: &mut C,
        debugger: &mut Target<M>,
        id: u32,
    ) -> (r: Result<(), Error>)
        ensures
            old(self).may_remove(
                machine(old(client), old(debugger)),
                id,
                final(self),
                machine(final(client), final(debugger)),
                r,
            ),
            old(self).well_formed() ==> final(self).well_formed(),
    {
        match self.breakpoints.get(&id) {
            None => return Err(Error::BPNotFound(id)),
            Some(bp) => {
                if bp.enabled {
                    let outcome = uninstall_breakpoint(client, debugger, bp);
                    match outcome {
                        Ok(done) => assert(done == ()),
                        Err(e) => return Err(e),
                    }
                }
            },
        }
        let _ = self.drop_entry(id);
        Ok(())
    }

    /// Removes a breakpoint, where `uninstall` takes an enabled one out of the
    /// target: if it fails, the breakpoint stays.
    pub fn remove_if_uninstalled<F: FnOnce(&Breakpoint<E>) -> Result<(), Error>>(
        &mut self,
        id: u32,
        uninstall: F,
    ) -> (r: Result<(), Error>)
        requires
            old(self).breakpoints@.contains_key(id) ==> call_requires(
                uninstall,
                (&old(self).breakpoints@[id],),
            ),
        ensures
            if !old(self).breakpoints@.contains_key(id) {
                r == Err::<(), Error>(Error::BPNotFound(id)) && old(self).unchanged(final(self))
            } else if !old(self).breakpoints@[id].enabled {
                r == Ok::<(), Error>(()) && old(self).dropped(id, final(self))
            } else {
                &&& call_ensures(uninstall, (&old(self).breakpoints@[id],), r)
                &&& match r {
                    Ok(_) => old(self).dropped(id, final(self)),
                    Err(_) => old(self).unchanged(final(self)),
                }
            },
            old(self).well_formed() ==> final(self).well_formed(),
    {
        match self.breakpoints.get(&id) {
            None => return Err(Error::BPNotFound(id)),
            Some(bp) => {
                if bp.enabled {
                    let outcome = uninstall(bp);
                    match outcome {
                        Ok(done) => assert(done == ()),
                        Err(e) => return Err(e),
                    }
                }
            },
        }
        let _ = self.drop_entry(id);
        Ok(())
    }

    /// Forgets a breakpoint without touching the target.
    pub fn discard(&mut self, id: u32) -> (r: Result<Breakpoint<E>, Error>)
        ensures
            if old(self).breakpoints@.contains_key(id) {
                &&& r == Ok::<Breakpoint<E>, Error>(old(self).breakpoints@[id])
                &&& old(self).dropped(id, final(self))
            } else {
                &&& r == Err::<Breakpoint<E>, Error>(Error::BPNotFound(id))
                &&& old(self).unchanged(final(self))
            },
            old(self).well_formed() ==> final(self).well_formed(),
    {
        if !self.breakpoints.contains_key(&id) {
            return Err(Error::BPNotFound(id));
        }
        match self.drop_entry(id) {
            Some(bp) => Ok(bp),
            None => Err(Error::BPNotFound(id)),
        }
    }

    /// Whether `post` differs only in that the entry `id` is enabled or not.
    pub open spec fn switched(&self, id: u32, enabled: bool, post: &Self) -> bool {
        &&& post.breakpoints@ == self.breakpoints@.insert(
            id,
            Breakpoint { enabled, ..self.breakpoints@[id] },
        )
        &&& post.next_id == self.next_id
    }

    fn switch(&mut self, id: u32, enabled: bool)
        requires
            old(self).breakpoints@.contains_key(id),
        ensures
            old(self).switched(id, enabled, final(self)),
            old(self).well_formed() ==> final(self).well_formed(),
    {
        match self.breakpoints.remove(&id) {
            Some(mut bp) => {
                bp.enabled = enabled;
                self.breakpoints.insert(id, bp);
            },
            None => {},
        }
        proof {
            assert(self.breakpoints@ =~= old(self).breakpoints@.insert(
                id,
                Breakpoint { enabled, ..old(self).breakpoints@[id] },
            ));
            if old(self).well_formed() {
                assert forall|k: u32, l: u32| #[trigger] self.holds_slot_of(k, l) implies k == l by {
                    assert(old(self).holds_slot_of(k, l));
                }
            }
        }
    }

    /// Whether enabling the breakpoint `id` may turn the manager from `self` to
    /// `post` and the machine from `pre` to `end`, and end with `result`.
    pub open spec fn may_enable<C: DebugBackend, M: MemoryOps<PhysAddr>>(
        &self,
        pre: Machine<C, M>,
        id: u32,
        post: &Self,
        end: Machine<C, M>,
        result: Result<(), Error>,
    ) -> bool {
        if !self.breakpoints@.contains_key(id) {
            &&& result == Err::<(), Error>(Error::BPNotFound(id))
            &&& self.unchanged(post)
            &&& end == pre
        } else if self.breakpoints@[id].enabled {
            &&& result == Ok::<(), Error>(())
            &&& self.unchanged(post)
            &&& end == pre
        } else {
            &&& may_install_existing(pre, &self.breakpoints@[id], result, end)
            &&& match result {
                Ok(_) => self.switched(id, true, post),
                Err(_) => self.unchanged(post),
            }
        }
    }

    pub fn enable<C: DebugBackend, M: MemoryOps<PhysAddr>>(
        &mut self,
        client: &mut C,
        debugger: &mut Target<M>,
        id: u32,
    ) -> (r: Result<(), Error>)
        ensures
            old(self).may_enable(
                machine(old(client), old(debugger)),
                id,
                final(self),
                machine(final(client), final(debugger)),
                r,
            ),
            old(self).well_formed() ==> final(self).well_formed(),
    {
        match self.breakpoints.get(&id) {
            None => return Err(Error::BPNotFound(id)),
            Some(bp) => {
                if bp.enabled {
                    return Ok(());
                }
                let outcome = install_existing_breakpoint(client, debugger, bp);
                match outcome {
                    Ok(done) => assert(done == ()),
                    Err(e) => return Err(e),
                }
            },
        }
        self.switch(id, true);
        Ok(())
    }

    /// Whether disabling the breakpoint `id` may turn the manager from `self`
    /// to `post` and the machine from `pre` to `end`, and end with `result`.
    pub open spec fn may_disable<C: DebugBackend, M: MemoryOps<PhysAddr>>(
        &self,
        pre: Machine<C, M>,
        id: u32,
        post: &Self,
        end: Machine<C, M>,
        result: Result<(), Error>,
    ) -> bool {
        if !self.breakpoints@.contains_key(id) {
            &&& result == Err::<(), Error>(Error::BPNotFound(id))
            &&& self.unchanged(post)
            &&& end == pre
        } else if !self.breakpoints@[id].enabled {
            &&& result == Ok::<(), Error>(())
            &&& self.unchanged(post)
            &&& end == pre
        } else {
            &&& may_uninstall(pre, &self.breakpoints@[id], result, end)
            &&& match result {
                Ok(_) => self.switched(id, false, post),
                Err(_) => self.unchanged(post),
            }
        }
    }

    pub fn disable<C: DebugBackend, M: MemoryOps<PhysAddr>>(
        &mut self,
        client: &mut C,
        debugger: &mut Target<M>,
        id: u32,
    ) -> (r: Result<(), Error>)
        ensures
            old(self).may_disable(
                machine(old(client), old(debugger)),
                id,
                final(self),
                machine(final(client), final(debugger)),
                r,
            ),
            old(self).well_formed() ==> final(self).well_formed(),
    {
        match self.breakpoints.get(&id) {
            None => return Err(Error::BPNotFound(id)),
            Some(bp) => {
                if !bp.enabled {
                    return Ok(());
                }
                let outcome = uninstall_breakpoint(client, debugger, bp);
                match outcome {
                    Ok(done) => assert(done == ()),
                    Err(e) => return Err(e),
                }
            },
        }
        self.switch(id, false);
        Ok(())
    }

    /// Whether disabling the guest memory patch `id` through the page table
    /// `dtb` may turn the manager from `self` to `post` and the machine from
    /// `pre` to `end`, and end with `result`.
    pub open spec fn may_disable_in<C: DebugBackend, M: MemoryOps<PhysAddr>>(
        &self,
        pre: Machine<C, M>,
        id: u32,
        dtb: Dtb,
        post: &Self,
        end: Machine<C, M>,
        result: Result<(), Error>,
    ) -> bool {
        let bp = self.breakpoints@[id];
        if !self.breakpoints@.contains_key(id) {
            &&& result == Err::<(), Error>(Error::BPNotFound(id))
            &&& self.unchanged(post)
            &&& end == pre
        } else if !bp.enabled {
            &&& result == Ok::<(), Error>(())
            &&& self.unchanged(post)
            &&& end == pre
        } else {
            match bp.backend {
                BreakpointBackend::GuestMemoryPatch { original_byte } => {
                    &&& may_restore(pre, dtb, bp.address, original_byte, result, end)
                    &&& match result {
                        Ok(_) => self.switched(id, false, post),
                        Err(_) => self.unchanged(post),
                    }
                },
                BreakpointBackend::Kernel { .. } => {
                    &&& refused(result, "cannot address-space-disable a kernel breakpoint"@)
                    &&& self.unchanged(post)
                    &&& end == pre
                },
                BreakpointBackend::Hardware => {
                    &&& refused(result, "cannot address-space-disable a hardware breakpoint"@)
                    &&& self.unchanged(post)
                    &&& end == pre
                },
            }
        }
    }

    /// Disables a guest memory patch through another page table than the one it
    /// was set through.
    pub fn disable_guest_memory_patch_in_address_space<
        C: DebugBackend,
        M: MemoryOps<PhysAddr>,
    >(&mut self, client: &mut C, debugger: &mut Target<M>, id: u32, dtb: Dtb) -> (r: Result<(), Error>)
        ensures
            old(self).may_disable_in(
                machine(old(client), old(debugger)),
                id,
                dtb,
                final(self),
                machine(final(client), final(debugger)),
                r,
            ),
            old(self).well_formed() ==> final(self).well_formed(),
    {
        match self.breakpoints.get(&id) {
            None => return Err(Error::BPNotFound(id)),
            Some(bp) => {
                if !bp.enabled {
                    return Ok(());
                }
                match bp.backend {
                    BreakpointBackend::GuestMemoryPatch { original_byte } => {
                        match restore_byte(client, debugger, dtb, bp.address, original_byte) {
                            Ok(done) => assert(done == ()),
                            Err(e) => return Err(e),
                        }
                    },
                    BreakpointBackend::Kernel { .. } => {
                        return Err(
                            Error::Rsp(text("cannot address-space-disable a kernel breakpoint")),
                        );
                    },
                    BreakpointBackend::Hardware => {
                        return Err(
                            Error::Rsp(text("cannot address-space-disable a hardware breakpoint")),
                        );
                    },
                }
            },
        }
        self.switch(id, false);
        Ok(())
    }

    /// Whether disarming the debug registers of the listed breakpoints, in
    /// order and whatever the replies, may turn the transport from `pre` to
    /// `end`.
    pub open spec fn may_clear<C: DebugBackend>(&self, order: Seq<u32>, pre: C, end: C) -> bool
        decreases order.len(),
    {
        if order.len() == 0 {
            end == pre
        } else {
            match self.breakpoints@[order[0]].hardware {
                None => self.may_clear(order.skip(1), pre, end),
                Some(hw) => exists|reply: Result<(), Error>, next: C|
                    {
                        &&& #[trigger] pre.may(BackendCall::ClearHardware(hw.slot), reply, &next)
                        &&& self.may_clear(order.skip(1), next, end)
                    },
            }
        }
    }

    /// Best-effort release of every DR slot held by a hardware breakpoint
    /// (enabled or not — disabled ones still reserve their slot). Used by the
    /// target-reload path before it drops the manager: after a real reboot the
    /// debug registers are reset anyway, but a reload without a machine reset
    /// (kernel rediscovery) would otherwise leave orphaned watches raising
    /// `#DB`s no manager entry can claim.
    pub fn clear_hardware_slots<C: DebugBackend>(&self, client: &mut C)
        ensures
            exists|order: Seq<u32>| #[trigger]
                enumerates(order, self.breakpoints@) && self.may_clear(
                    order,
                    *old(client),
                    *final(client),
                ),
    {
        let ids = self.ids();
        self.clear_from(&ids, 0, client);
        assert(ids@.skip(0) =~= ids@);
    }

    fn clear_from<C: DebugBackend>(&self, ids: &Vec<u32>, from: usize, client: &mut C)
        requires
            enumerates(ids@, self.breakpoints@),
            from <= ids@.len(),
        ensures
            self.may_clear(ids@.skip(from as int), *old(client), *final(client)),
        decreases ids@.len() - from,
    {
        let ghost rest = ids@.skip(from as int);
        if from == ids.len() {
            return;
        }
        let id: u32 = ids[from];
        assert(ids@.contains(id));
        assert(self.breakpoints@.contains_key(id));
        assert(rest[0] == id);
        assert(rest.skip(1) =~= ids@.skip(from + 1));
        match self.breakpoints.get(&id) {
            Some(bp) => match bp.hardware {
                Some(hw) => {
                    let reply = client.clear_hardware_breakpoint(hw.slot);
                    assert(old(client).may(BackendCall::ClearHardware(hw.slot), reply, client));
                },
                None => {},
            },
            None => {},
        }
        self.clear_from(ids, from + 1, client);
    }

    /// Whether taking each enabled software breakpoint of `order` out and
    /// putting it back may turn the machine from `pre` to `end` and end with
    /// `result`. Only putting one back can fail the whole, and ends it.
    pub open spec fn may_refresh<C: DebugBackend, M: MemoryOps<PhysAddr>>(
        &self,
        order: Seq<u32>,
        pre: Machine<C, M>,
        end: Machine<C, M>,
        result: Result<(), Error>,
    ) -> bool
        decreases order.len(),
    {
        if order.len() == 0 {
            end == pre && result == Ok::<(), Error>(())
        } else {
            let bp = self.breakpoints@[order[0]];
            if bp.enabled && bp.hardware is None {
                exists|
                    out: Result<(), Error>,
                    mid: Machine<C, M>,
                    back: Result<(), Error>,
                    next: Machine<C, M>,
                |
                    {
                        &&& #[trigger] may_uninstall(pre, &bp, out, mid)
                        &&& #[trigger] may_install_existing(mid, &bp, back, next)
                        &&& match back {
                            Err(e) => result == Err::<(), Error>(e) && end == next,
                            Ok(_) => self.may_refresh(order.skip(1), next, end, result),
                        }
                    }
            } else {
                self.may_refresh(order.skip(1), pre, end, result)
            }
        }
    }

    /// Makes the target's breakpoints match the enabled ones here, in case they
    /// were cleared (single-stepping clears those after the step).
    pub fn refresh_enabled<C: DebugBackend, M: MemoryOps<PhysAddr>>(
        &self,
        client: &mut C,
        debugger: &mut Target<M>,
    ) -> (r: Result<(), Error>)
        ensures
            exists|order: Seq<u32>| #[trigger]
                self.lists(order) && self.may_refresh(
                    order,
                    machine(old(client), old(debugger)),
                    machine(final(client), final(debugger)),
                    r,
                ),
    {
        let order = self.ordered();
        let r = self.refresh_from(&order, 0, client, debugger);
        assert(order@.skip(0) =~= order@);
        r
    }

    fn refresh_from<C: DebugBackend, M: MemoryOps<PhysAddr>>(
        &self,
        order: &Vec<u32>,
        from: usize,
        client: &mut C,
        debugger: &mut Target<M>,
    ) -> (r: Result<(), Error>)
        requires
            enumerates(order@, self.breakpoints@),
            from <= order@.len(),
        ensures
            self.may_refresh(
                order@.skip(from as int),
                machine(old(client), old(debugger)),
                machine(final(client), final(debugger)),
                r,
            ),
        decreases order@.len() - from,
    {
        let ghost rest = order@.skip(from as int);
        if from == order.len() {
            return Ok(());
        }
        let ghost pre = machine(client, debugger);
        let id: u32 = order[from];
        assert(order@.contains(id));
        assert(self.breakpoints@.contains_key(id));
        assert(rest[0] == id);
        assert(rest.skip(1) =~= order@.skip(from + 1));
        match self.breakpoints.get(&id) {
            Some(bp) => {
                if bp.enabled && bp.hardware.is_none() {
                    let out = uninstall_breakpoint(client, debugger, bp);
                    let ghost mid = machine(client, debugger);
                    assert(may_uninstall(pre, bp, out, mid));
                    let back = install_existing_breakpoint(client, debugger, bp);
                    assert(may_install_existing(mid, bp, back, machine(client, debugger)));
                    match back {
                        Ok(()) => {},
                        Err(e) => return Err(e),
                    }
                }
            },
            None => {},
        }
        self.refresh_from(order, from + 1, client, debugger)
    }
}

} // verus!
