//! What running to a place sets up, and how a watch that was hit is named.
use crate::backend::{DebugBackend, HwBreakpointAccess};
use crate::error::Error;
use crate::gdb::breakpoints::{Breakpoint, BreakpointManager, BreakpointScope, CodeRequest};
use crate::gdb::install::is_context_scope;
use crate::gdb::query_laws::{current, stands_at};
use crate::gdb::transport_laws::{law_setting_a_code_breakpoint, tells, untouched, Held};
use crate::memory::MemoryOps;
use crate::repl::commands::exec::{may_get_ready, surface_hardware_breakpoint_hit, RunTo};
use crate::target::Machine;
use crate::text::dec;
use crate::types::{PhysAddr, VirtAddr};
use crate::ui::{spec_bp_id, spec_bright_black, spec_label, spec_symbol};
use vstd::prelude::*;
use vstd::string::*;

verus! {

/// The target just runs if and only if a breakpoint of the current context has its int3
/// at the place; else a temporary one is set there, without a condition, or the reason
/// why it could not be is told and nothing is changed.
pub proof fn law_running_to_a_place<
    E,
    C: DebugBackend,
    M: MemoryOps<PhysAddr>,
    F: FnOnce(&str) -> Result<E, Error>,
    R: FnOnce(VirtAddr) -> Result<Vec<u8>, Error>,
>(
    manager: &BreakpointManager<E>,
    pre: Machine<C, M>,
    address: VirtAddr,
    parse: F,
    read_image: R,
    post: &BreakpointManager<E>,
    end: Machine<C, M>,
    plan: RunTo,
    held: spec_fn(C) -> Held,
)
    requires
        may_get_ready(manager, pre, address, parse, read_image, post, end, plan),
        tells(held),
    ensures
        plan is Continue <==> exists|k: u32| #[trigger]
            manager.breakpoints@.contains_key(k) && stands_at(manager.breakpoints@[k], address.0)
                && current(&pre.target, manager.breakpoints@[k].scope),
        !(plan is Temporary) ==> untouched(manager, post) && held(end.client) == held(pre.client),
        plan matches RunTo::Temporary(id) ==> {
            let bp = post.breakpoints@[id];
            &&& id == manager.next_id
            &&& post.breakpoints@.contains_key(id)
            &&& bp.temporary && bp.enabled
            &&& bp.address == address
            &&& bp.condition is None && bp.condition_expr is None && bp.symbol is None
            &&& bp.hardware is None
            &&& forall|k: u32|
                k != id ==> (#[trigger] post.breakpoints@.contains_key(k)
                    <==> manager.breakpoints@.contains_key(k)) && post.breakpoints@[k]
                    == manager.breakpoints@[k]
        },
{
    let (scope, known) = choose|scope: BreakpointScope, known: Option<u32>|
        {
            &&& #[trigger] is_context_scope(&pre.target, scope)
            &&& #[trigger] manager.names_patch(scope, address, known)
            &&& match known {
                Some(_) => plan == RunTo::Continue && manager.unchanged(post) && end == pre,
                None => exists|added: Result<u32, Error>|
                    {
                        &&& #[trigger] manager.may_add_code(
                            pre,
                            CodeRequest {
                                address,
                                symbol: None,
                                condition: None,
                                temporary: true,
                                parse,
                                read_image,
                            },
                            post,
                            end,
                            added,
                        )
                        &&& plan == (match added {
                            Ok(id) => RunTo::Temporary(id),
                            Err(e) => RunTo::Refused(e),
                        })
                    },
            }
        };
    match known {
        Some(id) => {
            let k = choose|k: u32| #[trigger]
                manager.breakpoints@.contains_key(k) && manager.breakpoints@[k].id == id
                    && manager.breakpoints@[k].patched_at(address)
                    && manager.breakpoints@[k].scope.same_as(&scope);
            assert(manager.breakpoints@.contains_key(k) && stands_at(
                manager.breakpoints@[k],
                address.0,
            ) && current(&pre.target, manager.breakpoints@[k].scope));
        },
        None => {
            let request = CodeRequest {
                address,
                symbol: None,
                condition: None,
                temporary: true,
                parse,
                read_image,
            };
            let added = choose|added: Result<u32, Error>|
                {
                    &&& #[trigger] manager.may_add_code(pre, request, post, end, added)
                    &&& plan == (match added {
                        Ok(id) => RunTo::Temporary(id),
                        Err(e) => RunTo::Refused(e),
                    })
                };
            law_setting_a_code_breakpoint(manager, pre, request, post, end, added, held);
            assert forall|k: u32| #[trigger] manager.breakpoints@.contains_key(k) implies !(
            stands_at(manager.breakpoints@[k], address.0) && current(
                &pre.target,
                manager.breakpoints@[k].scope,
            )) by {
                let bp = manager.breakpoints@[k];
                assert(!(bp.patched_at(address) && bp.scope.same_as(&scope)));
            }
        },
    }
}

/// A watch that was hit is named by its number, by what it watches for and how wide, and
/// by its symbol where it has one.
pub proof fn law_hit_watch_is_named<E>(bp: Breakpoint<E>, r: String)
    requires
        call_ensures(surface_hardware_breakpoint_hit::<E>, (&bp,), r),
    ensures
        r@ == spec_label("hardware breakpoint:"@) + " "@ + spec_bp_id(bp.id) + spec_bright_black(
            match bp.hardware {
                Some(hw) => " "@ + (match hw.access {
                    HwBreakpointAccess::Execute => seq!['e'],
                    HwBreakpointAccess::Write => seq!['w'],
                    HwBreakpointAccess::ReadWrite => seq!['r'],
                }) + dec(hw.len as nat),
                None => ""@,
            },
        ) + " "@ + (match bp.symbol {
            Some(symbol) => "("@ + spec_symbol(symbol@) + ")"@,
            None => ""@,
        }),
{
}

} // verus!
