//! Hiding breakpoints from what is shown of the target's memory.
use crate::gdb::breakpoints::{enumerates, Breakpoint, BreakpointManager};
use crate::types::VirtAddr;
use vstd::prelude::*;

verus! {

broadcast use vstd::std_specs::hash::group_hash_axioms;

/// An address lies `i` bytes behind another exactly where their difference on
/// the address circle is `i`.
proof fn lemma_distance(address: u64, start: u64, i: int)
    requires
        0 <= i <= u64::MAX,
    ensures
        VirtAddr(address) == VirtAddr(start).spec_offset(i) <==> address.wrapping_sub(start) == i,
{
}

impl<E> Breakpoint<E> {
    /// Whether this breakpoint's int3 stands at an address of the address space
    /// of `cr3`.
    pub open spec fn shadows(self, address: VirtAddr, cr3: u64) -> bool {
        &&& self.enabled
        &&& self.hardware is None
        &&& self.scope.covers_cr3(cr3)
        &&& self.address == address
    }
}

impl<E> BreakpointManager<E> {
    /// Whether a byte of the target may be shown as `shown`: the displaced byte
    /// of a breakpoint that has its int3 there, or the byte itself where there
    /// is none.
    pub open spec fn may_show(&self, address: VirtAddr, cr3: u64, byte: u8, shown: u8) -> bool {
        if self.shadowed(address, cr3) {
            exists|k: u32| #[trigger]
                self.breakpoints@.contains_key(k) && self.breakpoints@[k].shadows(address, cr3)
                    && shown == self.breakpoints@[k].backend.displaced()
        } else {
            shown == byte
        }
    }

    /// Whether some breakpoint has its int3 at an address.
    pub open spec fn shadowed(&self, address: VirtAddr, cr3: u64) -> bool {
        exists|k: u32| #[trigger]
            self.breakpoints@.contains_key(k) && self.breakpoints@[k].shadows(address, cr3)
    }

    /// What a byte may be shown as with only some of the breakpoints overlaid.
    spec fn shown_after(
        &self,
        keys: Seq<u32>,
        address: VirtAddr,
        cr3: u64,
        byte: u8,
        shown: u8,
    ) -> bool {
        if exists|k: u32| #[trigger]
            keys.contains(k) && self.breakpoints@[k].shadows(address, cr3) {
            exists|k: u32| #[trigger]
                keys.contains(k) && self.breakpoints@[k].shadows(address, cr3) && shown
                    == self.breakpoints@[k].backend.displaced()
        } else {
            shown == byte
        }
    }

    /// Overlay our breakpoints' original bytes onto a buffer read for display,
    /// so no view ever shows the int3 we injected. `start` is the buffer's
    /// guest VA; `cr3` scopes process breakpoints to the address space the
    /// bytes were read from (kernel breakpoints are global).
    pub fn mask_breakpoint_bytes(&self, start: VirtAddr, buf: &mut [u8], cr3: u64)
        ensures
            final(buf)@.len() == old(buf)@.len(),
            forall|i: int|
                0 <= i < old(buf)@.len() ==> self.may_show(
                    start.spec_offset(i),
                    cr3,
                    old(buf)@[i],
                    #[trigger] final(buf)@[i],
                ),
    {
        let len: usize = buf.len();
        let ids = self.ids();
        let mut n: usize = 0;
        while n < ids.len()
            invariant
                n <= ids@.len(),
                enumerates(ids@, self.breakpoints@),
                buf@.len() == old(buf)@.len(),
                buf@.len() == len,
                forall|i: int|
                    0 <= i < buf@.len() ==> self.shown_after(
                        ids@.take(n as int),
                        start.spec_offset(i),
                        cr3,
                        old(buf)@[i],
                        #[trigger] buf@[i],
                    ),
            decreases ids@.len() - n,
        {
            let id: u32 = ids[n];
            assert(ids@.contains(id));
            assert(self.breakpoints@.contains_key(id));
            let ghost seen = ids@.take(n as int);
            let ghost before = buf@;
            assert(ids@.take(n + 1) =~= seen.push(id));
            match self.breakpoints.get(&id) {
                Some(bp) => {
                    if bp.enabled && bp.hardware.is_none() && bp.scope.matches_cr3(cr3) {
                        let at: u64 = bp.address.0.wrapping_sub(start.0);
                        if at < len as u64 {
                            buf[at as usize] = bp.backend.original_byte();
                        }
                    }
                },
                None => {},
            }
            assert forall|i: int| 0 <= i < buf@.len() implies self.shown_after(
                seen.push(id),
                start.spec_offset(i),
                cr3,
                old(buf)@[i],
                #[trigger] buf@[i],
            ) by {
                let address = start.spec_offset(i);
                let bp = self.breakpoints@[id];
                assert(self.shown_after(seen, address, cr3, old(buf)@[i], before[i]));
                lemma_distance(bp.address.0, start.0, i);
                assert(seen.push(id)[seen.len() as int] == id);
                assert(seen.push(id).contains(id));
                assert forall|k: u32| seen.contains(k) implies #[trigger] seen.push(id).contains(
                    k,
                ) by {
                    assert(seen.push(id)[seen.index_of(k)] == k);
                }
                assert forall|k: u32| #[trigger] seen.push(id).contains(k) implies k == id
                    || seen.contains(k) by {
                    let p = seen.push(id).index_of(k);
                    if p < seen.len() {
                        assert(seen[p] == k);
                    }
                }
                if bp.shadows(address, cr3) {
                    assert(buf@[i] == bp.backend.displaced());
                } else {
                    assert(buf@[i] == before[i]);
                    if exists|k: u32| #[trigger]
                        seen.contains(k) && self.breakpoints@[k].shadows(address, cr3) {
                        let k = choose|k: u32| #[trigger]
                            seen.contains(k) && self.breakpoints@[k].shadows(address, cr3)
                                && before[i] == self.breakpoints@[k].backend.displaced();
                        assert(seen.push(id).contains(k));
                    }
                }
            }
            n += 1;
        }
        assert(ids@.take(n as int) =~= ids@);
        assert forall|i: int| 0 <= i < buf@.len() implies self.may_show(
            start.spec_offset(i),
            cr3,
            old(buf)@[i],
            #[trigger] buf@[i],
        ) by {
            let address = start.spec_offset(i);
            assert(self.shown_after(ids@, address, cr3, old(buf)@[i], buf@[i]));
            if self.shadowed(address, cr3) {
                let k = choose|k: u32| #[trigger]
                    self.breakpoints@.contains_key(k) && self.breakpoints@[k].shadows(address, cr3);
                assert(ids@.contains(k));
                let shown = choose|k: u32| #[trigger]
                    ids@.contains(k) && self.breakpoints@[k].shadows(address, cr3) && buf@[i]
                        == self.breakpoints@[k].backend.displaced();
                assert(self.breakpoints@.contains_key(shown));
            } else if exists|k: u32| #[trigger]
                ids@.contains(k) && self.breakpoints@[k].shadows(address, cr3) {
                let k = choose|k: u32| #[trigger]
                    ids@.contains(k) && self.breakpoints@[k].shadows(address, cr3);
                assert(self.breakpoints@.contains_key(k));
            }
        }
    }
}

} // verus!
