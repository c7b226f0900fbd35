//! The breakpoints of a session: setting, clearing, hitting and hiding them.
use crate::backend::{
    capability_granted, grants, CapabilityStatus, DebugBackend, DebugCapability,
    HwBreakpointAccess, WatchpointAccess, HW_BREAKPOINT_SLOTS,
};
use crate::error::Error;
use crate::gdb::install::{
    install_breakpoint, is_context_scope, may_install, may_validate, scope_for_current_context,
    validate_breakpoint_target,
};
use crate::memory::MemoryOps;
use crate::target::{machine, Machine, Target};
use crate::text::{dec, decimal, same, text};
use crate::types::{Dtb, PhysAddr, VirtAddr};
use std::collections::HashMap;
use std::sync::Arc;
use vstd::prelude::*;
use vstd::string::*;

verus! {

broadcast use vstd::std_specs::hash::group_hash_axioms;

/// `Arc::clone`, of which it claims what std documents: another pointer to the
/// same value.
#[verifier::external_body]
fn share<T>(a: &Arc<T>) -> (r: Arc<T>)
    ensures
        r == *a,
{
    a.clone()
}

/// A hardware (debug-register) breakpoint's parameters: the access it traps on,
/// the watch width in bytes, and which DR slot (0-3) it occupies.
#[derive(Debug, Clone, Copy, PartialEq, Eq, Structural)]
pub struct HardwareBreakpoint {
    pub access: HwBreakpointAccess,
    pub len: u8,
    pub slot: u8,
}

/// A stop point. `E` is the compiled form of a condition.
#[derive(Debug)]
pub struct Breakpoint<E> {
    pub id: u32,
    pub address: VirtAddr,
    pub enabled: bool,
    pub symbol: Option<String>,
    pub scope: BreakpointScope,
    pub condition: Option<String>,
    pub condition_expr: Option<Arc<E>>,
    pub temporary: bool,
    /// Transport-specific breakpoint state; hosts use [`Self::watchpoint`] for
    /// the semantic data-watch metadata.
    pub hardware: Option<HardwareBreakpoint>,
    pub backend: BreakpointBackend,
}

fn clone_text(s: &Option<String>) -> (r: Option<String>)
    ensures
        r == *s,
{
    match s {
        Some(s) => Some(s.clone()),
        None => None,
    }
}

impl<E> Clone for Breakpoint<E> {
    fn clone(&self) -> (r: Self)
        ensures
            r == *self,
    {
        Breakpoint {
            id: self.id,
            address: self.address,
            enabled: self.enabled,
            symbol: clone_text(&self.symbol),
            scope: self.scope.clone(),
            condition: clone_text(&self.condition),
            condition_expr: match &self.condition_expr {
                Some(expr) => Some(share(expr)),
                None => None,
            },
            temporary: self.temporary,
            hardware: self.hardware,
            backend: self.backend,
        }
    }
}

/// The access of a data watch, or nothing for an execute-only breakpoint.
pub open spec fn watched_access(access: HwBreakpointAccess) -> Option<WatchpointAccess> {
    match access {
        HwBreakpointAccess::Write => Some(WatchpointAccess::Write),
        HwBreakpointAccess::ReadWrite => Some(WatchpointAccess::ReadWrite),
        HwBreakpointAccess::Execute => None,
    }
}

impl<E> Breakpoint<E> {
    /// Data-watch semantics for this stop point.
    pub open spec fn spec_watchpoint(&self) -> Option<(WatchpointAccess, u8)> {
        match self.hardware {
            Some(hw) => match watched_access(hw.access) {
                Some(access) => Some((access, hw.len)),
                None => None,
            },
            None => None,
        }
    }

    /// Data-watch semantics for this stop point. Execute-only debug-register
    /// breakpoints remain code breakpoints and deliberately return `None`.
    pub fn watchpoint(&self) -> (r: Option<(WatchpointAccess, u8)>)
        ensures
            r == self.spec_watchpoint(),
    {
        match self.hardware {
            Some(hardware) => {
                let access = match hardware.access {
                    HwBreakpointAccess::Write => WatchpointAccess::Write,
                    HwBreakpointAccess::ReadWrite => WatchpointAccess::ReadWrite,
                    HwBreakpointAccess::Execute => return None,
                };
                Some((access, hardware.len))
            },
            None => None,
        }
    }

    /// The watched access name (`"write"`/`"read_write"`), or `None` for a
    /// code breakpoint. Presentation surfaces share this instead of
    /// destructuring [`Self::watchpoint`] themselves.
    pub fn watch_access_name(&self) -> (r: Option<&'static str>)
        ensures
            match self.spec_watchpoint() {
                Some((access, _)) => r matches Some(name) && name@ == access.spec_name(),
                None => r is None,
            },
    {
        match self.watchpoint() {
            Some((access, _)) => Some(access.name()),
            None => None,
        }
    }

    /// The watched byte width, or `None` for a code breakpoint.
    pub fn watch_length(&self) -> (r: Option<u8>)
        ensures
            r == (match self.spec_watchpoint() {
                Some((_, length)) => Some(length),
                None => None,
            }),
    {
        match self.watchpoint() {
            Some((_, length)) => Some(length),
            None => None,
        }
    }

    /// Evaluate the condition compiled when this breakpoint was installed;
    /// `resolve` gives the value of an expression. Unconditional breakpoints
    /// always hold.
    pub fn evaluate_condition<F: FnOnce(&E) -> Result<u64, Error>>(&self, resolve: F) -> (r: Result<
        bool,
        Error,
    >)
        requires
            self.condition_expr matches Some(expr) ==> call_requires(resolve, (&*expr,)),
        ensures
            match self.condition_expr {
                Some(expr) => exists|value: Result<u64, Error>| #[trigger]
                    call_ensures(resolve, (&*expr,), value) && r == (match value {
                        Ok(v) => Ok::<bool, Error>(v != 0),
                        Err(e) => Err(e),
                    }),
                None => r == Ok::<bool, Error>(true),
            },
    {
        match &self.condition_expr {
            Some(expr) => {
                let value = resolve(&**expr);
                match value {
                    Ok(v) => Ok(v != 0),
                    Err(e) => Err(e),
                }
            },
            None => Ok(true),
        }
    }
}

/// Where a breakpoint applies.
#[derive(Debug, PartialEq, Eq)]
pub enum BreakpointScope {
    Kernel,
    Process { pid: u64, dtb: Dtb, name: String },
}

/// The physical frame of a page directory in CR3: the PCID (bits 0..11) and
/// the reserved and canonical bits (52..63) masked out.
pub const CR3_PAGE_MASK: u64 = 0x000F_FFFF_FFFF_F000;

impl Clone for BreakpointScope {
    fn clone(&self) -> (r: Self)
        ensures
            r == *self,
    {
        match self {
            BreakpointScope::Kernel => BreakpointScope::Kernel,
            BreakpointScope::Process { pid, dtb, name } => BreakpointScope::Process {
                pid: *pid,
                dtb: *dtb,
                name: name.clone(),
            },
        }
    }
}

impl BreakpointScope {
    /// Whether the scope covers the address space of `cr3`.
    pub open spec fn covers_cr3(&self, cr3: u64) -> bool {
        match self {
            BreakpointScope::Kernel => true,
            BreakpointScope::Process { dtb, .. } => cr3 & CR3_PAGE_MASK == dtb & CR3_PAGE_MASK,
        }
    }

    pub fn matches_cr3(&self, cr3: u64) -> (r: bool)
        ensures
            r == self.covers_cr3(cr3),
    {
        match self {
            BreakpointScope::Kernel => true,
            BreakpointScope::Process { dtb, .. } => (cr3 & CR3_PAGE_MASK) == (*dtb & CR3_PAGE_MASK),
        }
    }

    /// How the scope is shown.
    pub open spec fn spec_label(&self) -> Seq<char> {
        match self {
            BreakpointScope::Kernel => "global"@,
            BreakpointScope::Process { pid, name, .. } => name@ + " ("@ + dec(*pid as nat) + ")"@,
        }
    }

    pub fn label(&self) -> (r: String)
        ensures
            r@ == self.spec_label(),
    {
        match self {
            BreakpointScope::Kernel => text("global"),
            BreakpointScope::Process { pid, name, .. } => text(name.as_str()).concat(" (").concat(
                decimal(*pid).as_str(),
            ).concat(")"),
        }
    }

    /// Whether two scopes are the same.
    pub open spec fn same_as(&self, other: &BreakpointScope) -> bool {
        match (self, other) {
            (BreakpointScope::Kernel, BreakpointScope::Kernel) => true,
            (
                BreakpointScope::Process { pid, dtb, name },
                BreakpointScope::Process { pid: other_pid, dtb: other_dtb, name: other_name },
            ) => pid == other_pid && dtb == other_dtb && name@ == other_name@,
            _ => false,
        }
    }

    pub(crate) fn equals(&self, other: &BreakpointScope) -> (r: bool)
        ensures
            r == self.same_as(other),
    {
        match (self, other) {
            (BreakpointScope::Kernel, BreakpointScope::Kernel) => true,
            (
                BreakpointScope::Process { pid, dtb, name },
                BreakpointScope::Process { pid: other_pid, dtb: other_dtb, name: other_name },
            ) => *pid == *other_pid && *dtb == *other_dtb && same(
                name.as_str(),
                other_name.as_str(),
            ),
            _ => false,
        }
    }
}

/// Who owns the int3 byte for a breakpoint.
///
/// * `Kernel`: written via the target's kernel debugger API. The kernel tracks
///   the original byte and handles step-over.
///
/// * `GuestMemoryPatch`: 0xCC is written against a specific process's page
///   table, the only way to scope a user-mode breakpoint to one process.
///   Writing at the physical-frame level bypasses copy-on-write, so the int3 is
///   visible to every process mapping that frame; `check_breakpoint_hit`'s CR3
///   filter discards wrong-process hits.
///
/// * `Hardware`: an x86 debug-register watch (`ba`). No memory is modified, so
///   there is no displaced byte. The DR slot and watch parameters live on
///   [`Breakpoint::hardware`]; hits are identified by DR6, not by RIP, so
///   hardware breakpoints stay out of the int3-hit predicates.
#[derive(Debug, Clone, Copy, PartialEq, Eq, Structural)]
pub enum BreakpointBackend {
    Kernel { original_byte: u8 },
    GuestMemoryPatch { original_byte: u8 },
    Hardware,
}

impl BreakpointBackend {
    /// The instruction byte that the int3 displaced.
    pub open spec fn displaced(self) -> u8 {
        match self {
            BreakpointBackend::Kernel { original_byte } => original_byte,
            BreakpointBackend::GuestMemoryPatch { original_byte } => original_byte,
            BreakpointBackend::Hardware => 0,
        }
    }

    /// The instruction byte we displaced with the int3, so display paths can
    /// overlay it and never show our own breakpoint. Hardware breakpoints
    /// displace nothing (they never reach the masking path).
    pub fn original_byte(&self) -> (r: u8)
        ensures
            r == self.displaced(),
    {
        match self {
            BreakpointBackend::Kernel { original_byte } => *original_byte,
            BreakpointBackend::GuestMemoryPatch { original_byte } => *original_byte,
            BreakpointBackend::Hardware => 0,
        }
    }
}

/// The answer to "did execution stop at one of our breakpoints?".
#[derive(Debug)]
pub enum BreakpointHitResult<E> {
    /// Breakpoint hit
    Hit(Breakpoint<E>),
    /// RIP doesn't match any breakpoint
    NotBreakpoint,
}

/// The breakpoints of a session, by id.
pub struct BreakpointManager<E> {
    pub breakpoints: HashMap<u32, Breakpoint<E>>,
    pub next_id: u32,
}

/// Whether `order` names every key of the map, each once.
pub open spec fn enumerates<V>(order: Seq<u32>, m: Map<u32, V>) -> bool {
    &&& order.no_duplicates()
    &&& forall|k: u32| #[trigger] m.contains_key(k) <==> order.contains(k)
}

impl<E> BreakpointManager<E> {
    pub fn new() -> (r: Self)
        ensures
            r.breakpoints@ == Map::<u32, Breakpoint<E>>::empty(),
            r.next_id == 0,
            r.well_formed(),
    {
        Self { breakpoints: HashMap::new(), next_id: 0 }
    }

    /// Every breakpoint is stored under its own id, ids below `next_id` only
    /// are in use, and no two hardware breakpoints share a DR slot.
    pub open spec fn well_formed(&self) -> bool {
        &&& forall|k: u32| #[trigger]
            self.breakpoints@.contains_key(k) ==> self.breakpoints@[k].id == k && k < self.next_id
        &&& forall|k: u32, l: u32| #[trigger]
            self.holds_slot_of(k, l) ==> k == l
        &&& forall|k: u32| #[trigger]
            self.breakpoints@.contains_key(k) ==> (self.breakpoints@[k].hardware matches Some(hw)
                ==> hw.slot < HW_BREAKPOINT_SLOTS)
    }

    /// Whether two entries occupy the same DR slot.
    pub open spec fn holds_slot_of(&self, k: u32, l: u32) -> bool {
        &&& self.breakpoints@.contains_key(k)
        &&& self.breakpoints@.contains_key(l)
        &&& self.breakpoints@[k].hardware matches Some(a)
        &&& self.breakpoints@[l].hardware matches Some(b)
        &&& a.slot == b.slot
    }

    /// The ids in use, in no particular order.
    pub(crate) fn ids(&self) -> (r: Vec<u32>)
        ensures
            enumerates(r@, self.breakpoints@),
            r@.len() == self.breakpoints@.dom().len(),
    {
        let mut out: Vec<u32> = Vec::new();
        for key in it: self.breakpoints.keys()
            invariant
                out@ == it.seq().unref().take(it.index()),
                it.seq().unref().to_set() == self.breakpoints@.dom(),
                it.seq().no_duplicates(),
                it.seq().len() == self.breakpoints@.dom().len(),
                out@.no_duplicates(),
                forall|k: u32| out@.contains(k) ==> #[trigger] self.breakpoints@.contains_key(k),
                it.index() == it.seq().len() ==> forall|k: u32| #[trigger]
                    self.breakpoints@.contains_key(k) ==> out@.contains(k),
        {
            assert(it.seq().unref()[it.index()] == *key);
            assert(it.seq().unref().to_set().contains(*key));
            assert(!out@.contains(*key));
            let ghost before = out@;
            out.push(*key);
            assert(it.index() + 1 == it.seq().len() ==> out@ =~= it.seq().unref());
            assert forall|k: u32| out@.contains(k) implies #[trigger]
                self.breakpoints@.contains_key(k) by {
                let i = out@.index_of(k);
                if i < before.len() {
                    assert(before[i] == k);
                }
            }
        }
        out
    }

    /// Whether nothing about the manager differs.
    pub open spec fn unchanged(&self, post: &Self) -> bool {
        self.breakpoints@ == post.breakpoints@ && self.next_id == post.next_id
    }

    /// Registers a breakpoint directly, without touching the target:
    /// `hardware: Some(..)` makes a DR breakpoint, `None` a kernel int3 with a
    /// dummy displaced byte. Lets callers stage manager state without a live
    /// target.
    pub fn insert_for_test(
        &mut self,
        id: u32,
        address: VirtAddr,
        enabled: bool,
        hardware: Option<HardwareBreakpoint>,
    )
        ensures
            final(self).next_id == old(self).next_id,
            final(self).breakpoints@ == old(self).breakpoints@.insert(
                id,
                Breakpoint {
                    id,
                    address,
                    enabled,
                    symbol: None,
                    scope: BreakpointScope::Kernel,
                    condition: None,
                    condition_expr: None,
                    temporary: false,
                    hardware,
                    backend: match hardware {
                        Some(_) => BreakpointBackend::Hardware,
                        None => BreakpointBackend::Kernel { original_byte: 0x90 },
                    },
                },
            ),
    {
        let backend = match hardware {
            Some(_) => BreakpointBackend::Hardware,
            None => BreakpointBackend::Kernel { original_byte: 0x90 },
        };
        self.breakpoints.insert(
            id,
            Breakpoint {
                id,
                address,
                enabled,
                symbol: None,
                scope: BreakpointScope::Kernel,
                condition: None,
                condition_expr: None,
                temporary: false,
                hardware,
                backend,
            },
        );
    }

    /// Whether compiling a condition may yield `result`: nothing for no
    /// condition, else what `parse` makes of it.
    pub open spec fn may_compile<F: FnOnce(&str) -> Result<E, Error>>(
        condition: Option<Seq<char>>,
        parse: F,
        result: Result<Option<Arc<E>>, Error>,
    ) -> bool {
        match condition {
            None => result == Ok::<Option<Arc<E>>, Error>(None),
            Some(source) => exists|s: &str, parsed: Result<E, Error>|
                {
                    &&& #[trigger] call_ensures(parse, (s,), parsed)
                    &&& s@ == source
                    &&& match parsed {
                        Ok(expr) => result matches Ok(Some(compiled)) && *compiled == expr,
                        Err(e) => result == Err::<Option<Arc<E>>, Error>(e),
                    }
                },
        }
    }

    /// Compiles a condition, if there is one; `parse` parses an expression.
    pub fn compile_condition<F: FnOnce(&str) -> Result<E, Error>>(
        condition: Option<&str>,
        parse: F,
    ) -> (r: Result<Option<Arc<E>>, Error>)
        requires
            forall|s: &str| call_requires(parse, (s,)),
        ensures
            Self::may_compile(
                match condition {
                    Some(s) => Some(s@),
                    None => None,
                },
                parse,
                r,
            ),
    {
        match condition {
            None => Ok(None),
            Some(source) => {
                let parsed = parse(source);
                assert(call_ensures(parse, (source,), parsed));
                match parsed {
                    Ok(expr) => Ok(Some(Arc::new(expr))),
                    Err(e) => Err(e),
                }
            },
        }
    }

    /// Whether the facilities of a backend allow a breakpoint of this scope.
    pub open spec fn scope_supported(
        scope: BreakpointScope,
        caps: Seq<CapabilityStatus>,
    ) -> bool {
        match scope {
            BreakpointScope::Process { .. } => grants(caps, DebugCapability::UserModeBreakpoints),
            BreakpointScope::Kernel => grants(caps, DebugCapability::KernelBreakpoints),
        }
    }

    /// Whether setting a code breakpoint may turn the manager from `self` to
    /// `post` and the machine from `pre` to `end`, and end with `result`.
    pub open spec fn may_add_code<
        C: DebugBackend,
        M: MemoryOps<PhysAddr>,
        F: FnOnce(&str) -> Result<E, Error>,
        R: FnOnce(VirtAddr) -> Result<Vec<u8>, Error>,
    >(
        &self,
        pre: Machine<C, M>,
        request: CodeRequest<F, R>,
        post: &Self,
        end: Machine<C, M>,
        result: Result<u32, Error>,
    ) -> bool {
        exists|compiled: Result<Option<Arc<E>>, Error>|
            {
                &&& #[trigger] Self::may_compile(
                    crate::text::text_opt(request.condition),
                    request.parse,
                    compiled,
                )
                &&& match compiled {
                    Err(e) => {
                        &&& result == Err::<u32, Error>(e)
                        &&& self.unchanged(post)
                        &&& end == pre
                    },
                    Ok(expr) => self.may_place_code(pre, request, expr, post, end, result),
                }
            }
    }

    /// What setting a code breakpoint may do once its condition is compiled.
    pub open spec fn may_place_code<
        C: DebugBackend,
        M: MemoryOps<PhysAddr>,
        F: FnOnce(&str) -> Result<E, Error>,
        R: FnOnce(VirtAddr) -> Result<Vec<u8>, Error>,
    >(
        &self,
        pre: Machine<C, M>,
        request: CodeRequest<F, R>,
        expr: Option<Arc<E>>,
        post: &Self,
        end: Machine<C, M>,
        result: Result<u32, Error>,
    ) -> bool {
        exists|scope: BreakpointScope, caps: Seq<CapabilityStatus>|
            {
                &&& #[trigger] is_context_scope(&pre.target, scope)
                &&& #[trigger] pre.client.may_report(caps)
                &&& if !Self::scope_supported(scope, caps) {
                    &&& result == Err::<u32, Error>(Error::NotSupported)
                    &&& self.unchanged(post)
                    &&& end == pre
                } else {
                    exists|verdict: Result<(), Error>|
                        {
                            &&& #[trigger] may_validate(
                                &pre.target,
                                request.address,
                                request.read_image,
                                verdict,
                            )
                            &&& match verdict {
                                Err(e) => {
                                    &&& result == Err::<u32, Error>(e)
                                    &&& self.unchanged(post)
                                    &&& end == pre
                                },
                                Ok(_) => self.may_commit_code(
                                    pre,
                                    request,
                                    expr,
                                    scope,
                                    post,
                                    end,
                                    result,
                                ),
                            }
                        }
                }
            }
    }

    /// What setting a code breakpoint may do once its target is validated: it
    /// is registered if and only if it could be installed.
    pub open spec fn may_commit_code<
        C: DebugBackend,
        M: MemoryOps<PhysAddr>,
        F: FnOnce(&str) -> Result<E, Error>,
        R: FnOnce(VirtAddr) -> Result<Vec<u8>, Error>,
    >(
        &self,
        pre: Machine<C, M>,
        request: CodeRequest<F, R>,
        expr: Option<Arc<E>>,
        scope: BreakpointScope,
        post: &Self,
        end: Machine<C, M>,
        result: Result<u32, Error>,
    ) -> bool {
        exists|installed: Result<BreakpointBackend, Error>|
            {
                &&& #[trigger] may_install(pre, request.address, scope, installed, end)
                &&& match installed {
                    Err(e) => result == Err::<u32, Error>(e) && self.unchanged(post),
                    Ok(backend) => {
                        &&& result == Ok::<u32, Error>(self.next_id)
                        &&& post.next_id == self.next_id + 1
                        &&& post.breakpoints@ == self.breakpoints@.insert(
                            self.next_id,
                            Breakpoint {
                                id: self.next_id,
                                address: request.address,
                                enabled: true,
                                symbol: request.symbol,
                                scope,
                                condition: request.condition,
                                condition_expr: expr,
                                temporary: request.temporary,
                                hardware: None,
                                backend,
                            },
                        )
                    },
                }
            }
    }

    /// Sets a code breakpoint for the current context. `parse` compiles the
    /// condition; `read_image` reads the image of the module at an address.
    pub fn add<
        C: DebugBackend,
        M: MemoryOps<PhysAddr>,
        F: FnOnce(&str) -> Result<E, Error>,
        R: FnOnce(VirtAddr) -> Result<Vec<u8>, Error>,
    >(
        &mut self,
        client: &mut C,
        debugger: &mut Target<M>,
        address: VirtAddr,
        symbol: Option<String>,
        condition: Option<String>,
        parse: F,
        read_image: R,
    ) -> (r: Result<u32, Error>)
        requires
            old(self).next_id < u32::MAX,
            forall|s: &str| call_requires(parse, (s,)),
            forall|base: VirtAddr| call_requires(read_image, (base,)),
        ensures
            old(self).may_add_code(
                machine(old(client), old(debugger)),
                CodeRequest { address, symbol, condition, temporary: false, parse, read_image },
                final(self),
                machine(final(client), final(debugger)),
                r,
            ),
            old(self).well_formed() ==> final(self).well_formed(),
    {
        self.add_code(
            client,
            debugger,
            CodeRequest { address, symbol, condition, temporary: false, parse, read_image },
        )
    }

    /// Sets an unconditional code breakpoint that is meant to be hit once.
    pub fn add_temporary_code<
        C: DebugBackend,
        M: MemoryOps<PhysAddr>,
        F: FnOnce(&str) -> Result<E, Error>,
        R: FnOnce(VirtAddr) -> Result<Vec<u8>, Error>,
    >(
        &mut self,
        client: &mut C,
        debugger: &mut Target<M>,
        address: VirtAddr,
        parse: F,
        read_image: R,
    ) -> (r: Result<u32, Error>)
        requires
            old(self).next_id < u32::MAX,
            forall|s: &str| call_requires(parse, (s,)),
            forall|base: VirtAddr| call_requires(read_image, (base,)),
        ensures
            old(self).may_add_code(
                machine(old(client), old(debugger)),
                CodeRequest {
                    address,
                    symbol: None,
                    condition: None,
                    temporary: true,
                    parse,
                    read_image,
                },
                final(self),
                machine(final(client), final(debugger)),
                r,
            ),
            old(self).well_formed() ==> final(self).well_formed(),
    {
        self.add_code(
            client,
            debugger,
            CodeRequest {
                address,
                symbol: None,
                condition: None,
                temporary: true,
                parse,
                read_image,
            },
        )
    }

    fn add_code<
        C: DebugBackend,
        M: MemoryOps<PhysAddr>,
        F: FnOnce(&str) -> Result<E, Error>,
        R: FnOnce(VirtAddr) -> Result<Vec<u8>, Error>,
    >(&mut self, client: &mut C, debugger: &mut Target<M>, request: CodeRequest<F, R>) -> (r: Result<
        u32,
        Error,
    >)
        requires
            old(self).next_id < u32::MAX,
            forall|s: &str| call_requires(request.parse, (s,)),
            forall|base: VirtAddr| call_requires(request.read_image, (base,)),
        ensures
            old(self).may_add_code(
                machine(old(client), old(debugger)),
                request,
                final(self),
                machine(final(client), final(debugger)),
                r,
            ),
            old(self).well_formed() ==> final(self).well_formed(),
    {
        let ghost asked = request;
        let ghost pre = machine(client, debugger);
        let CodeRequest { address, symbol, condition, temporary, parse, read_image } = request;
        let compiled = Self::compile_condition(
            match &condition {
                Some(s) => Some(s.as_str()),
                None => None,
            },
            parse,
        );
        assert(Self::may_compile(crate::text::text_opt(asked.condition), asked.parse, compiled));
        let condition_expr = match compiled {
            Ok(expr) => expr,
            Err(e) => return Err(e),
        };
        let scope = scope_for_current_context(debugger);
        let caps = client.capabilities();
        assert(is_context_scope(&pre.target, scope) && pre.client.may_report(caps@));
        let wanted = match &scope {
            BreakpointScope::Process { .. } => DebugCapability::UserModeBreakpoints,
            BreakpointScope::Kernel => DebugCapability::KernelBreakpoints,
        };
        if !capability_granted(caps.as_slice(), wanted) {
            assert(self.may_place_code(
                pre,
                asked,
                condition_expr,
                self,
                pre,
                Err(Error::NotSupported),
            ));
            return Err(Error::NotSupported);
        }
        let verdict = validate_breakpoint_target(debugger, address, read_image);
        assert(may_validate(&pre.target, asked.address, asked.read_image, verdict));
        match verdict {
            Ok(()) => {},
            Err(e) => {
                assert(self.may_place_code(pre, asked, condition_expr, self, pre, Err(e)));
                return Err(e);
            },
        }
        let installed = install_breakpoint(client, debugger, address, &scope);
        let ghost end = machine(client, debugger);
        assert(may_install(pre, asked.address, scope, installed, end));
        let ghost placed = (scope, condition_expr);
        let backend = match installed {
            Ok(backend) => backend,
            Err(e) => {
                assert(old(self).may_commit_code(
                    pre,
                    asked,
                    condition_expr,
                    scope,
                    self,
                    end,
                    Err(e),
                ));
                return Err(e);
            },
        };
        let id: u32 = self.next_id;
        self.next_id += 1;
        self.breakpoints.insert(
            id,
            Breakpoint {
                id,
                address,
                enabled: true,
                symbol,
                scope,
                condition,
                condition_expr,
                temporary,
                hardware: None,
                backend,
            },
        );
        assert(old(self).may_commit_code(pre, asked, placed.1, placed.0, self, end, Ok(id)));
        assert(old(self).may_place_code(pre, asked, placed.1, self, end, Ok(id)));
        assert(old(self).well_formed() ==> self.well_formed()) by {
            assert forall|k: u32, l: u32|
                old(self).well_formed() && #[trigger] self.holds_slot_of(k, l) implies k == l by {
                assert(old(self).holds_slot_of(k, l));
            }
        }
        Ok(id)
    }
}

impl<E> Default for BreakpointManager<E> {
    fn default() -> (r: Self)
        ensures
            r.breakpoints@ == Map::<u32, Breakpoint<E>>::empty(),
            r.next_id == 0,
            r.well_formed(),
    {
        Self::new()
    }
}

/// A request for a code breakpoint.
pub struct CodeRequest<F, R> {
    pub address: VirtAddr,
    pub symbol: Option<String>,
    pub condition: Option<String>,
    pub temporary: bool,
    pub parse: F,
    pub read_image: R,
}

} // verus!
