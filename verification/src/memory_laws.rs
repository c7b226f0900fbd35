//! What holds of translation, reads and writes as a whole.
use crate::error::Error;
use crate::memory::{
    chunk_len, identity_translation, splice, AddressSpace, MemoryOps, Translation,
    TranslationResult, DTB_IDENTITY,
};
use crate::types::{Dtb, PageTableEntry, PhysAddr, VirtAddr};
use vstd::prelude::*;

verus! {

/// Whether two addresses lie on the same 4 KiB page.
pub open spec fn same_page(a: VirtAddr, b: VirtAddr) -> bool {
    a.0 / 0x1000 == b.0 / 0x1000
}

/// A translation whose address is `delta` bytes further on.
pub open spec fn moved(found: TranslationResult, delta: int) -> TranslationResult {
    match found {
        Ok(Some(t)) => Ok(Some(Translation { address: (t.address + delta) as u64, ..t })),
        other => other,
    }
}

/// Whether every successful read of `memory` yields the bytes that `bytes`
/// names.
pub open spec fn holds<B: MemoryOps<PhysAddr>>(memory: &B, bytes: spec_fn(int) -> u8) -> bool {
    forall|a: PhysAddr, before: Seq<u8>, after: Seq<u8>|
        #![trigger memory.may_read(a, before, after, Ok::<(), Error>(()))]
        memory.may_read(a, before, after, Ok::<(), Error>(())) ==> forall|i: int|
            0 <= i < after.len() ==> #[trigger] after[i] == bytes(a + i)
}

/// Whether every translation in `space` is the one that `tables` names.
pub open spec fn steady<B: MemoryOps<PhysAddr>>(
    space: &AddressSpace<'_, B>,
    tables: spec_fn(VirtAddr) -> Option<Translation>,
) -> bool {
    forall|va: VirtAddr, found: TranslationResult| #[trigger]
        space.may_translate(va, found) ==> found == Ok::<Option<Translation>, Error>(tables(va))
}

/// Whether `va` is unmapped in `space`.
pub open spec fn unmapped<B: MemoryOps<PhysAddr>>(
    space: &AddressSpace<'_, B>,
    va: VirtAddr,
) -> bool {
    forall|found: TranslationResult| #[trigger]
        space.may_translate(va, found) ==> found == Ok::<Option<Translation>, Error>(None)
}

proof fn lemma_frame(entry: PageTableEntry)
    ensures
        entry.frame() % 0x1000 == 0,
        entry.frame() <= 0xF_FFFF_F000,
{
    let v = entry.0;
    assert((v & ((!0xFu64 << 8) & 0xFFFFFFFFFu64)) % 0x1000 == 0) by (bit_vector);
    assert(v & ((!0xFu64 << 8) & 0xFFFFFFFFFu64) <= 0xF_FFFF_F000) by (bit_vector);
}

proof fn lemma_shifts(x: u64)
    ensures
        x >> 12u64 == x / 0x1000,
        x >> 21u64 == x / 0x20_0000,
        x >> 30u64 == x / 0x4000_0000,
{
    assert(x >> 12u64 == x / 0x1000) by (bit_vector);
    assert(x >> 21u64 == x / 0x20_0000) by (bit_vector);
    assert(x >> 30u64 == x / 0x4000_0000) by (bit_vector);
}

proof fn lemma_same_indices(a: VirtAddr, b: VirtAddr)
    requires
        same_page(a, b),
    ensures
        a.spec_index(12) == b.spec_index(12),
        a.spec_index(21) == b.spec_index(21),
        a.spec_index(30) == b.spec_index(30),
        a.spec_index(39) == b.spec_index(39),
        b.spec_page_offset() - a.spec_page_offset() == b.0 - a.0,
        b.spec_large_page_offset() - a.spec_large_page_offset() == b.0 - a.0,
        b.spec_huge_page_offset() - a.spec_huge_page_offset() == b.0 - a.0,
{
    let x = a.0;
    let y = b.0;
    lemma_shifts(x);
    lemma_shifts(y);
    assert(x >> 21u64 == y >> 21u64 && x >> 30u64 == y >> 30u64 && x >> 39u64 == y >> 39u64)
        by (bit_vector)
        requires
            x >> 12u64 == y >> 12u64,
    ;
}

/// A page keeps its layout: a translation keeps the offset within a 4 KiB
/// page, whatever the size of the page that maps the address.
pub proof fn law_translation_keeps_page_offset<B: MemoryOps<PhysAddr>>(
    space: &AddressSpace<'_, B>,
    va: VirtAddr,
    t: Translation,
)
    requires
        space.may_translate(va, Ok(Some(t))),
    ensures
        t.address % 0x1000 == va.0 % 0x1000,
{
    assert forall|e: PageTableEntry| #[trigger] e.frame() % 0x1000 == 0 && e.frame()
        <= 0xF_FFFF_F000 by {
        lemma_frame(e);
    }
}

/// A page is mapped as a whole: where one address of a page leads, each other
/// address of that page may lead as well, as far off, with the same rights.
pub proof fn law_translation_moves_with_the_address<B: MemoryOps<PhysAddr>>(
    space: &AddressSpace<'_, B>,
    a: VirtAddr,
    b: VirtAddr,
    found: TranslationResult,
)
    requires
        same_page(a, b),
        space.may_translate(a, found),
    ensures
        space.may_translate(b, moved(found, b.0 - a.0)),
        found matches Ok(Some(t)) ==> 0 <= t.address + (b.0 - a.0) <= u64::MAX,
{
    lemma_same_indices(a, b);
    assert forall|e: PageTableEntry| #[trigger] e.frame() % 0x1000 == 0 && e.frame()
        <= 0xF_FFFF_F000 by {
        lemma_frame(e);
    }
}

/// An access is split at page boundaries: each piece has at least one byte,
/// and its last byte lies on the page of its first.
pub proof fn law_pieces_stay_on_one_page(va: VirtAddr, offset: int, len: int)
    requires
        0 <= offset < len,
    ensures
        1 <= chunk_len(va, offset, len) <= len - offset,
        va.0 + chunk_len(va, offset, len) - 1 <= u64::MAX,
        same_page(va, VirtAddr((va.0 + chunk_len(va, offset, len) - 1) as u64)),
{
}

/// What follows once the piece at `offset` has been read as `chunk` with the
/// outcome `done`: the end of the read, or its next piece.
spec fn after_piece<B: MemoryOps<PhysAddr>>(
    space: &AddressSpace<'_, B>,
    addr: VirtAddr,
    offset: int,
    before: Seq<u8>,
    after: Seq<u8>,
    read: Result<(), Error>,
    chunk: Seq<u8>,
    done: Result<(), Error>,
) -> bool {
    let next = splice(before, offset, chunk);
    match done {
        Err(e) => after == next && read == Err::<(), Error>(e),
        Ok(_) => space.reads_from(addr, offset + chunk.len(), next, after, read),
    }
}

proof fn lemma_piece_moves<B: MemoryOps<PhysAddr>>(
    space: &AddressSpace<'_, B>,
    tables: spec_fn(VirtAddr) -> Option<Translation>,
    addr: VirtAddr,
    offset: int,
    i: int,
)
    requires
        steady(space, tables),
        0 <= offset <= i,
        i - offset < 0x1000 - addr.spec_offset(offset).spec_page_offset(),
        space.may_translate(addr.spec_offset(offset), Ok(tables(addr.spec_offset(offset)))),
        tables(addr.spec_offset(offset)) is Some,
    ensures
        tables(addr.spec_offset(i)) is Some,
        tables(addr.spec_offset(i))->0.address == tables(addr.spec_offset(offset))->0.address + (i
            - offset),
{
    let va = addr.spec_offset(offset);
    let other = addr.spec_offset(i);
    assert(other.0 == va.0 + (i - offset));
    law_translation_moves_with_the_address(space, va, other, Ok(tables(va)));
}

proof fn lemma_reads_from<B: MemoryOps<PhysAddr>>(
    space: &AddressSpace<'_, B>,
    bytes: spec_fn(int) -> u8,
    tables: spec_fn(VirtAddr) -> Option<Translation>,
    addr: VirtAddr,
    offset: int,
    before: Seq<u8>,
    after: Seq<u8>,
)
    requires
        holds(space.backend, bytes),
        steady(space, tables),
        0 <= offset,
        space.reads_from(addr, offset, before, after, Ok(())),
    ensures
        after.len() == before.len(),
        forall|i: int| 0 <= i < offset && i < after.len() ==> after[i] == before[i],
        forall|i: int|
            offset <= i < after.len() ==> (#[trigger] tables(addr.spec_offset(i)) is Some
                && after[i] == bytes(tables(addr.spec_offset(i))->0.address as int)),
    decreases before.len() - offset,
{
    if offset < before.len() {
        let va = addr.spec_offset(offset);
        let n = chunk_len(va, offset, before.len() as int);
        let t = tables(va)->0;
        assert(space.may_translate(va, Ok(Some(t))));
        let (chunk, done) = choose|chunk: Seq<u8>, done: Result<(), Error>|
            {
                &&& #[trigger] space.backend.may_read(
                    t.address,
                    before.subrange(offset, offset + n),
                    chunk,
                    done,
                )
                &&& chunk.len() == n
                &&& after_piece(space, addr, offset, before, after, Ok(()), chunk, done)
            };
        assert(done is Ok);
        assert(done->Ok_0 == ());
        lemma_reads_from(
            space,
            bytes,
            tables,
            addr,
            offset + n,
            splice(before, offset, chunk),
            after,
        );
        assert forall|i: int| offset <= i < after.len() implies (#[trigger] tables(
            addr.spec_offset(i),
        ) is Some && after[i] == bytes(tables(addr.spec_offset(i))->0.address as int)) by {
            if i < offset + n {
                lemma_piece_moves(space, tables, addr, offset, i);
                assert(after[i] == chunk[i - offset]);
            }
        }
    }
}

/// Reading is translating: a successful read fills the whole buffer, and each
/// byte is the one that physical memory holds where the byte's own address
/// leads.
pub proof fn law_read_follows_the_tables<B: MemoryOps<PhysAddr>>(
    space: &AddressSpace<'_, B>,
    bytes: spec_fn(int) -> u8,
    tables: spec_fn(VirtAddr) -> Option<Translation>,
    addr: VirtAddr,
    before: Seq<u8>,
    after: Seq<u8>,
)
    requires
        holds(space.backend, bytes),
        steady(space, tables),
        space.may_read(addr, before, after, Ok(())),
    ensures
        after.len() == before.len(),
        forall|i: int|
            0 <= i < after.len() ==> (#[trigger] tables(addr.spec_offset(i)) is Some
                && after[i] == bytes(tables(addr.spec_offset(i))->0.address as int)),
{
    lemma_reads_from(space, bytes, tables, addr, 0, before, after);
}

/// Where byte `i` of an access at `addr` lies in physical memory.
pub open spec fn place(
    tables: spec_fn(VirtAddr) -> Option<Translation>,
    addr: VirtAddr,
    i: int,
) -> int {
    tables(addr.spec_offset(i))->0.address as int
}

/// What memory holds once `piece` is stored at `a`.
pub open spec fn put(memory: spec_fn(int) -> u8, a: int, piece: Seq<u8>) -> spec_fn(int) -> u8 {
    |p: int|
        if a <= p < a + piece.len() {
            piece[p - a]
        } else {
            memory(p)
        }
}

/// Whether memory of this type takes what is written: once a write succeeded, it
/// holds the bytes of the write, and else what it held.
pub open spec fn remembers<B: MemoryOps<PhysAddr>>() -> bool {
    forall|memory: B, post: B, a: PhysAddr, piece: Seq<u8>, bytes: spec_fn(int) -> u8|
        #![trigger memory.may_write(a, piece, Ok::<(), Error>(()), &post), holds(&memory, bytes)]
        memory.may_write(a, piece, Ok::<(), Error>(()), &post) && holds(&memory, bytes) ==> holds(
            &post,
            put(bytes, a as int, piece),
        )
}

/// Whether no write to memory of this type fails.
pub open spec fn takes_all<B: MemoryOps<PhysAddr>>() -> bool {
    forall|memory: B, post: B, a: PhysAddr, piece: Seq<u8>, outcome: Result<(), Error>| #[trigger]
        memory.may_write(a, piece, outcome, &post) ==> outcome is Ok
}

/// Whether `tables` is in force before and after each piece of a write from
/// `offset` on: the write does not change the tables it goes through.
pub open spec fn keeps_tables<B: MemoryOps<PhysAddr>>(
    memory: B,
    dtb: Dtb,
    tables: spec_fn(VirtAddr) -> Option<Translation>,
    addr: VirtAddr,
    offset: int,
    bytes: Seq<u8>,
) -> bool
    decreases bytes.len() - offset,
{
    &&& steady(&AddressSpace { backend: &memory, dtb }, tables)
    &&& offset < bytes.len() ==> {
        let n = chunk_len(addr.spec_offset(offset), offset, bytes.len() as int);
        forall|next: B| #[trigger]
            memory.may_write(
                place(tables, addr, offset) as u64,
                bytes.subrange(offset, offset + n),
                Ok::<(), Error>(()),
                &next,
            ) ==> keeps_tables(next, dtb, tables, addr, offset + n, bytes)
    }
}

/// What memory holds once the pieces of a write from `offset` on are stored.
pub open spec fn after_write(
    tables: spec_fn(VirtAddr) -> Option<Translation>,
    addr: VirtAddr,
    offset: int,
    bytes: Seq<u8>,
    memory: spec_fn(int) -> u8,
) -> spec_fn(int) -> u8
    decreases bytes.len() - offset,
{
    if offset >= bytes.len() {
        memory
    } else {
        let n = chunk_len(addr.spec_offset(offset), offset, bytes.len() as int);
        let piece = bytes.subrange(offset, offset + n);
        after_write(
            tables,
            addr,
            offset + n,
            bytes,
            put(memory, place(tables, addr, offset), piece),
        )
    }
}

/// Whether an access from `offset` on is mapped, and the bytes of each piece lie
/// one after the other.
spec fn in_pieces(
    tables: spec_fn(VirtAddr) -> Option<Translation>,
    addr: VirtAddr,
    offset: int,
    len: int,
) -> bool
    decreases len - offset,
{
    offset < len ==> {
        let n = chunk_len(addr.spec_offset(offset), offset, len);
        &&& forall|i: int|
            offset <= i < offset + n ==> tables(#[trigger] addr.spec_offset(i)) is Some
        &&& forall|i: int|
            offset <= i < offset + n ==> #[trigger] place(tables, addr, i) == place(
                tables,
                addr,
                offset,
            ) + (i - offset)
        &&& in_pieces(tables, addr, offset + n, len)
    }
}

proof fn lemma_writes_from<B: MemoryOps<PhysAddr>>(
    memory: B,
    dtb: Dtb,
    tables: spec_fn(VirtAddr) -> Option<Translation>,
    held: spec_fn(int) -> u8,
    addr: VirtAddr,
    offset: int,
    bytes: Seq<u8>,
    post: B,
)
    requires
        remembers::<B>(),
        keeps_tables(memory, dtb, tables, addr, offset, bytes),
        holds(&memory, held),
        0 <= offset,
        AddressSpace::writes_from(memory, dtb, addr, offset, bytes, Ok(()), post),
    ensures
        holds(&post, after_write(tables, addr, offset, bytes, held)),
        steady(&AddressSpace { backend: &post, dtb }, tables),
        in_pieces(tables, addr, offset, bytes.len() as int),
    decreases bytes.len() - offset,
{
    if offset < bytes.len() {
        let space = AddressSpace { backend: &memory, dtb };
        let va = addr.spec_offset(offset);
        let n = chunk_len(va, offset, bytes.len() as int);
        let piece = bytes.subrange(offset, offset + n);
        let t = tables(va)->0;
        assert(space.may_translate(va, Ok(Some(t))));
        let (done, next) = choose|done: Result<(), Error>, next: B|
            {
                &&& #[trigger] memory.may_write(t.address, piece, done, &next)
                &&& match done {
                    Err(e) => Ok::<(), Error>(()) == Err::<(), Error>(e) && post == next,
                    Ok(_) => AddressSpace::writes_from(
                        next,
                        dtb,
                        addr,
                        offset + n,
                        bytes,
                        Ok(()),
                        post,
                    ),
                }
            };
        assert(done->Ok_0 == ());
        assert(memory.may_write(place(tables, addr, offset) as u64, piece, Ok::<(), Error>(()), &next));
        assert(keeps_tables(next, dtb, tables, addr, offset + n, bytes));
        let held_next = put(held, place(tables, addr, offset), piece);
        assert(holds(&next, held_next));
        lemma_writes_from(next, dtb, tables, held_next, addr, offset + n, bytes, post);
        assert forall|i: int| offset <= i < offset + n implies tables(
            #[trigger] addr.spec_offset(i),
        ) is Some by {
            lemma_piece_moves(&space, tables, addr, offset, i);
        }
        assert forall|i: int| offset <= i < offset + n implies #[trigger] place(tables, addr, i)
            == place(tables, addr, offset) + (i - offset) by {
            lemma_piece_moves(&space, tables, addr, offset, i);
        }
    }
}

proof fn lemma_all_mapped(
    tables: spec_fn(VirtAddr) -> Option<Translation>,
    addr: VirtAddr,
    offset: int,
    len: int,
)
    requires
        0 <= offset,
        in_pieces(tables, addr, offset, len),
    ensures
        forall|i: int| offset <= i < len ==> tables(#[trigger] addr.spec_offset(i)) is Some,
    decreases len - offset,
{
    if offset < len {
        lemma_all_mapped(
            tables,
            addr,
            offset + chunk_len(addr.spec_offset(offset), offset, len),
            len,
        );
    }
}

/// Writing is translating: a successful write leaves in physical memory what
/// storing each piece where its address leads leaves there, whatever the size
/// of the pages, and every address of the write is mapped.
pub proof fn law_write_follows_the_tables<B: MemoryOps<PhysAddr>>(
    memory: B,
    dtb: Dtb,
    tables: spec_fn(VirtAddr) -> Option<Translation>,
    held: spec_fn(int) -> u8,
    addr: VirtAddr,
    bytes: Seq<u8>,
    post: B,
)
    requires
        remembers::<B>(),
        keeps_tables(memory, dtb, tables, addr, 0, bytes),
        holds(&memory, held),
        AddressSpace::may_write(memory, dtb, addr, bytes, Ok(()), post),
    ensures
        holds(&post, after_write(tables, addr, 0, bytes, held)),
        forall|i: int| 0 <= i < bytes.len() ==> tables(#[trigger] addr.spec_offset(i)) is Some,
{
    lemma_writes_from(memory, dtb, tables, held, addr, 0, bytes, post);
    lemma_all_mapped(tables, addr, 0, bytes.len() as int);
}

proof fn lemma_rest_is_kept(
    tables: spec_fn(VirtAddr) -> Option<Translation>,
    held: spec_fn(int) -> u8,
    addr: VirtAddr,
    offset: int,
    bytes: Seq<u8>,
    p: int,
)
    requires
        0 <= offset,
        in_pieces(tables, addr, offset, bytes.len() as int),
        forall|i: int| offset <= i < bytes.len() ==> #[trigger] place(tables, addr, i) != p,
    ensures
        after_write(tables, addr, offset, bytes, held)(p) == held(p),
    decreases bytes.len() - offset,
{
    if offset < bytes.len() {
        let n = chunk_len(addr.spec_offset(offset), offset, bytes.len() as int);
        let a = place(tables, addr, offset);
        let next = put(held, a, bytes.subrange(offset, offset + n));
        if a <= p < a + n {
            assert(place(tables, addr, offset + (p - a)) == p);
        }
        lemma_rest_is_kept(tables, next, addr, offset + n, bytes, p);
    }
}

proof fn lemma_write_lands(
    tables: spec_fn(VirtAddr) -> Option<Translation>,
    held: spec_fn(int) -> u8,
    addr: VirtAddr,
    offset: int,
    bytes: Seq<u8>,
)
    requires
        0 <= offset,
        in_pieces(tables, addr, offset, bytes.len() as int),
        forall|i: int, j: int|
            offset <= i < j < bytes.len() ==> #[trigger] place(tables, addr, i)
                != #[trigger] place(tables, addr, j),
    ensures
        forall|i: int|
            offset <= i < bytes.len() ==> after_write(tables, addr, offset, bytes, held)(
                #[trigger] place(tables, addr, i),
            ) == bytes[i],
    decreases bytes.len() - offset,
{
    if offset < bytes.len() {
        let n = chunk_len(addr.spec_offset(offset), offset, bytes.len() as int);
        let a = place(tables, addr, offset);
        let piece = bytes.subrange(offset, offset + n);
        let next = put(held, a, piece);
        lemma_write_lands(tables, next, addr, offset + n, bytes);
        let end = after_write(tables, addr, offset, bytes, held);
        assert(end == after_write(tables, addr, offset + n, bytes, next));
        assert forall|i: int| offset <= i < bytes.len() implies end(
            #[trigger] place(tables, addr, i),
        ) == bytes[i] by {
            if i < offset + n {
                let p = place(tables, addr, i);
                assert(p == a + (i - offset));
                lemma_rest_is_kept(tables, next, addr, offset + n, bytes, p);
                assert(piece[i - offset] == bytes[i]);
            }
        }
    }
}

/// A read gives back what a write stored: where memory takes what is written, the
/// write does not change the tables it goes through, and no two bytes of it
/// share a place, a read after a successful write yields the bytes that were
/// written.
pub proof fn law_read_gives_back_the_write<B: MemoryOps<PhysAddr>>(
    memory: B,
    dtb: Dtb,
    tables: spec_fn(VirtAddr) -> Option<Translation>,
    held: spec_fn(int) -> u8,
    addr: VirtAddr,
    bytes: Seq<u8>,
    post: B,
    before: Seq<u8>,
    after: Seq<u8>,
)
    requires
        remembers::<B>(),
        keeps_tables(memory, dtb, tables, addr, 0, bytes),
        holds(&memory, held),
        forall|i: int, j: int|
            0 <= i < j < bytes.len() ==> #[trigger] place(tables, addr, i) != #[trigger] place(
                tables,
                addr,
                j,
            ),
        AddressSpace::may_write(memory, dtb, addr, bytes, Ok(()), post),
        before.len() == bytes.len(),
        (AddressSpace { backend: &post, dtb }).may_read(addr, before, after, Ok(())),
    ensures
        after == bytes,
{
    let end = after_write(tables, addr, 0, bytes, held);
    lemma_writes_from(memory, dtb, tables, held, addr, 0, bytes, post);
    lemma_write_lands(tables, held, addr, 0, bytes);
    law_read_follows_the_tables(
        &AddressSpace { backend: &post, dtb },
        end,
        tables,
        addr,
        before,
        after,
    );
    assert forall|i: int| 0 <= i < bytes.len() implies after[i] == bytes[i] by {
        assert(end(place(tables, addr, i)) == bytes[i]);
        assert(tables(addr.spec_offset(i)) is Some);
    }
    assert(after =~= bytes);
}

/// A write changes no other memory: every place that no byte of it leads to
/// holds what it held.
pub proof fn law_write_keeps_the_rest<B: MemoryOps<PhysAddr>>(
    memory: B,
    dtb: Dtb,
    tables: spec_fn(VirtAddr) -> Option<Translation>,
    held: spec_fn(int) -> u8,
    addr: VirtAddr,
    bytes: Seq<u8>,
    post: B,
    p: int,
)
    requires
        remembers::<B>(),
        keeps_tables(memory, dtb, tables, addr, 0, bytes),
        holds(&memory, held),
        AddressSpace::may_write(memory, dtb, addr, bytes, Ok(()), post),
        forall|i: int| 0 <= i < bytes.len() ==> #[trigger] place(tables, addr, i) != p,
    ensures
        holds(&post, after_write(tables, addr, 0, bytes, held)),
        after_write(tables, addr, 0, bytes, held)(p) == held(p),
{
    lemma_writes_from(memory, dtb, tables, held, addr, 0, bytes, post);
    lemma_rest_is_kept(tables, held, addr, 0, bytes, p);
}

/// Under the identity sentinel no table is walked: a successful read yields
/// the bytes that the memory below holds at the addresses themselves.
pub proof fn law_identity_reads_through<B: MemoryOps<PhysAddr>>(
    space: &AddressSpace<'_, B>,
    bytes: spec_fn(int) -> u8,
    addr: VirtAddr,
    before: Seq<u8>,
    after: Seq<u8>,
)
    requires
        space.dtb == DTB_IDENTITY,
        holds(space.backend, bytes),
        space.may_read(addr, before, after, Ok(())),
    ensures
        after.len() == before.len(),
        forall|i: int| 0 <= i < after.len() ==> after[i] == bytes(#[trigger] addr.spec_offset(i).0 as int),
{
    let tables = |va: VirtAddr| Some(identity_translation(va));
    law_read_follows_the_tables(space, bytes, tables, addr, before, after);
    assert forall|i: int| 0 <= i < after.len() implies after[i] == bytes(
        #[trigger] addr.spec_offset(i).0 as int,
    ) by {
        assert(tables(addr.spec_offset(i)) is Some);
    }
}

/// An access of no bytes succeeds and touches nothing.
pub proof fn law_empty_access_succeeds<B: MemoryOps<PhysAddr>>(
    memory: B,
    dtb: Dtb,
    addr: VirtAddr,
    after: Seq<u8>,
    read: Result<(), Error>,
    written: Result<(), Error>,
    post: B,
)
    requires
        (AddressSpace { backend: &memory, dtb }).may_read(addr, Seq::empty(), after, read),
        AddressSpace::may_write(memory, dtb, addr, Seq::empty(), written, post),
    ensures
        after == Seq::<u8>::empty(),
        read is Ok,
        written is Ok,
        post == memory,
{
}

/// An access that starts at an unmapped address names that address; a read
/// leaves the buffer as it was, and a write the memory.
pub proof fn law_unmapped_start_is_named<B: MemoryOps<PhysAddr>>(
    memory: B,
    dtb: Dtb,
    addr: VirtAddr,
    before: Seq<u8>,
    after: Seq<u8>,
    read: Result<(), Error>,
    written: Result<(), Error>,
    post: B,
)
    requires
        before.len() > 0,
        unmapped(&AddressSpace { backend: &memory, dtb }, addr),
        (AddressSpace { backend: &memory, dtb }).may_read(addr, before, after, read),
        AddressSpace::may_write(memory, dtb, addr, before, written, post),
    ensures
        after == before,
        post == memory,
        read == Err::<(), Error>(Error::BadVirtualAddress(addr)),
        written == Err::<(), Error>(Error::BadVirtualAddress(addr)),
{
    assert(addr.spec_offset(0) == addr);
}

#[verifier::spinoff_prover]
#[verifier::rlimit(40)]
proof fn lemma_stopped_read<B: MemoryOps<PhysAddr>>(
    space: &AddressSpace<'_, B>,
    addr: VirtAddr,
    offset: int,
    before: Seq<u8>,
    after: Seq<u8>,
    read: Result<(), Error>,
    stop: int,
)
    requires
        0 <= offset <= stop,
        stop < before.len() <= usize::MAX,
        unmapped(space, addr.spec_offset(stop)),
        addr.spec_offset(stop).spec_page_offset() == 0,
        space.reads_from(addr, offset, before, after, read),
    ensures
        after.len() == before.len(),
        forall|i: int| stop <= i < after.len() ==> after[i] == before[i],
        read is Err,
    decreases before.len() - offset,
{
    let va = addr.spec_offset(offset);
    let n = chunk_len(va, offset, before.len() as int);
    if offset < stop {
        assert(offset + n <= stop);
        let found = choose|found: TranslationResult|
            {
                &&& #[trigger] space.may_translate(va, found)
                &&& match found {
                    Ok(Some(t)) => exists|chunk: Seq<u8>, done: Result<(), Error>|
                        {
                            &&& #[trigger] space.backend.may_read(
                                t.address,
                                before.subrange(offset, offset + n),
                                chunk,
                                done,
                            )
                            &&& chunk.len() == n
                            &&& after_piece(space, addr, offset, before, after, read, chunk, done)
                        },
                    _ => after == before && read is Err,
                }
            };
        if let Ok(Some(t)) = found {
            let (chunk, done) = choose|chunk: Seq<u8>, done: Result<(), Error>|
                {
                    &&& #[trigger] space.backend.may_read(
                        t.address,
                        before.subrange(offset, offset + n),
                        chunk,
                        done,
                    )
                    &&& chunk.len() == n
                    &&& after_piece(space, addr, offset, before, after, read, chunk, done)
                };
            if done is Ok {
                let next = splice(before, offset, chunk);
                lemma_stopped_read(space, addr, offset + n, next, after, read, stop);
                assert forall|i: int| stop <= i < after.len() implies after[i] == before[i] by {
                    assert(after[i] == next[i]);
                }
            }
        }
    }
}

/// A read that runs into an unmapped page fails, and the buffer keeps what it
/// held from that page on.
pub proof fn law_stopped_read_keeps_the_rest<B: MemoryOps<PhysAddr>>(
    space: &AddressSpace<'_, B>,
    addr: VirtAddr,
    before: Seq<u8>,
    after: Seq<u8>,
    read: Result<(), Error>,
    stop: int,
)
    requires
        0 <= stop < before.len() <= usize::MAX,
        unmapped(space, addr.spec_offset(stop)),
        addr.spec_offset(stop).spec_page_offset() == 0,
        space.may_read(addr, before, after, read),
    ensures
        after.len() == before.len(),
        forall|i: int| stop <= i < after.len() ==> after[i] == before[i],
        read is Err,
{
    lemma_stopped_read(space, addr, 0, before, after, read, stop);
}

/// Whether no read of `memory` fails.
pub open spec fn never_fails<B: MemoryOps<PhysAddr>>(memory: &B) -> bool {
    forall|a: PhysAddr, before: Seq<u8>, after: Seq<u8>, outcome: Result<(), Error>| #[trigger]
        memory.may_read(a, before, after, outcome) ==> outcome is Ok
}

/// Whether `stop` is where an access of `len` bytes at `addr` meets the first
/// address that is not mapped, or its end where all are.
pub open spec fn first_unmapped(
    tables: spec_fn(VirtAddr) -> Option<Translation>,
    addr: VirtAddr,
    len: int,
    stop: int,
) -> bool {
    &&& 0 <= stop <= len
    &&& forall|i: int| 0 <= i < stop ==> tables(#[trigger] addr.spec_offset(i)) is Some
    &&& stop < len ==> tables(addr.spec_offset(stop)) is None
}

/// How an access that is not refused below ends, given where it meets the first
/// address that is not mapped; `partial` is the error that counts the bytes
/// before it.
pub open spec fn ended(addr: VirtAddr, len: int, stop: int, partial: Error) -> Result<(), Error> {
    if stop == len {
        Ok(())
    } else if stop == 0 {
        Err(Error::BadVirtualAddress(addr))
    } else {
        Err(partial)
    }
}

proof fn lemma_read_in_full<B: MemoryOps<PhysAddr>>(
    space: &AddressSpace<'_, B>,
    bytes: spec_fn(int) -> u8,
    tables: spec_fn(VirtAddr) -> Option<Translation>,
    addr: VirtAddr,
    offset: int,
    stop: int,
    before: Seq<u8>,
    after: Seq<u8>,
    read: Result<(), Error>,
)
    requires
        never_fails(space.backend),
        holds(space.backend, bytes),
        steady(space, tables),
        0 <= offset <= stop,
        first_unmapped(tables, addr, before.len() as int, stop),
        space.reads_from(addr, offset, before, after, read),
    ensures
        after.len() == before.len(),
        forall|i: int|
            offset <= i < stop ==> after[i] == bytes(#[trigger] place(tables, addr, i)),
        forall|i: int|
            (0 <= i < offset || stop <= i < before.len()) ==> #[trigger] after[i] == before[i],
        read == ended(addr, before.len() as int, stop, Error::PartialRead(stop as usize)),
    decreases before.len() - offset,
{
    if offset < before.len() {
        let va = addr.spec_offset(offset);
        let n = chunk_len(va, offset, before.len() as int);
        if offset == stop {
            assert(space.may_translate(va, Ok(None)));
            assert(addr.spec_offset(0) == addr);
        } else {
            let t = tables(va)->0;
            assert(tables(va) is Some);
            assert(space.may_translate(va, Ok(Some(t))));
            let (chunk, done) = choose|chunk: Seq<u8>, done: Result<(), Error>|
                {
                    &&& #[trigger] space.backend.may_read(
                        t.address,
                        before.subrange(offset, offset + n),
                        chunk,
                        done,
                    )
                    &&& chunk.len() == n
                    &&& after_piece(space, addr, offset, before, after, read, chunk, done)
                };
            assert(done->Ok_0 == ());
            assert(stop >= offset + n) by {
                if stop < offset + n {
                    lemma_piece_moves(space, tables, addr, offset, stop);
                }
            }
            let next = splice(before, offset, chunk);
            lemma_read_in_full(
                space,
                bytes,
                tables,
                addr,
                offset + n,
                stop,
                next,
                after,
                read,
            );
            assert forall|i: int| offset <= i < stop implies after[i] == bytes(
                #[trigger] place(tables, addr, i),
            ) by {
                if i < offset + n {
                    lemma_piece_moves(space, tables, addr, offset, i);
                    assert(after[i] == next[i]);
                }
            }
            assert forall|i: int|
                (0 <= i < offset || stop <= i < before.len()) implies #[trigger] after[i]
                == before[i] by {
                assert(after[i] == next[i]);
            }
        }
    }
}

/// What a read does, in full, where the memory below refuses nothing: up to the
/// first address that is not mapped the buffer is filled with what physical
/// memory holds where each byte's own address leads, and from there on it stays
/// as it was. The read succeeds where all is mapped; else it names the address
/// if that is the first one, and counts the bytes that were filled if not.
pub proof fn law_read_in_full<B: MemoryOps<PhysAddr>>(
    space: &AddressSpace<'_, B>,
    bytes: spec_fn(int) -> u8,
    tables: spec_fn(VirtAddr) -> Option<Translation>,
    addr: VirtAddr,
    stop: int,
    before: Seq<u8>,
    after: Seq<u8>,
    read: Result<(), Error>,
)
    requires
        never_fails(space.backend),
        holds(space.backend, bytes),
        steady(space, tables),
        first_unmapped(tables, addr, before.len() as int, stop),
        space.may_read(addr, before, after, read),
    ensures
        after.len() == before.len(),
        forall|i: int| 0 <= i < stop ==> after[i] == bytes(#[trigger] place(tables, addr, i)),
        forall|i: int| stop <= i < before.len() ==> #[trigger] after[i] == before[i],
        read == ended(addr, before.len() as int, stop, Error::PartialRead(stop as usize)),
{
    lemma_read_in_full(space, bytes, tables, addr, 0, stop, before, after, read);
}

proof fn lemma_write_is_counted<B: MemoryOps<PhysAddr>>(
    memory: B,
    dtb: Dtb,
    tables: spec_fn(VirtAddr) -> Option<Translation>,
    addr: VirtAddr,
    offset: int,
    stop: int,
    bytes: Seq<u8>,
    written: Result<(), Error>,
    post: B,
)
    requires
        takes_all::<B>(),
        keeps_tables(memory, dtb, tables, addr, offset, bytes),
        0 <= offset <= stop,
        first_unmapped(tables, addr, bytes.len() as int, stop),
        AddressSpace::writes_from(memory, dtb, addr, offset, bytes, written, post),
    ensures
        written == ended(addr, bytes.len() as int, stop, Error::PartialWrite(stop as usize)),
    decreases bytes.len() - offset,
{
    if offset < bytes.len() {
        let space = AddressSpace { backend: &memory, dtb };
        let va = addr.spec_offset(offset);
        let n = chunk_len(va, offset, bytes.len() as int);
        if offset == stop {
            assert(addr.spec_offset(0) == addr);
        } else {
            let piece = bytes.subrange(offset, offset + n);
            let t = tables(va)->0;
            assert(tables(va) is Some);
            assert(space.may_translate(va, Ok(Some(t))));
            let (done, next) = choose|done: Result<(), Error>, next: B|
                {
                    &&& #[trigger] memory.may_write(t.address, piece, done, &next)
                    &&& match done {
                        Err(e) => written == Err::<(), Error>(e) && post == next,
                        Ok(_) => AddressSpace::writes_from(
                            next,
                            dtb,
                            addr,
                            offset + n,
                            bytes,
                            written,
                            post,
                        ),
                    }
                };
            assert(done->Ok_0 == ());
            assert(memory.may_write(
                place(tables, addr, offset) as u64,
                piece,
                Ok::<(), Error>(()),
                &next,
            ));
            assert(stop >= offset + n) by {
                if stop < offset + n {
                    lemma_piece_moves(&space, tables, addr, offset, stop);
                }
            }
            lemma_write_is_counted(
                next,
                dtb,
                tables,
                addr,
                offset + n,
                stop,
                bytes,
                written,
                post,
            );
        }
    }
}

/// How a write ends where the memory below refuses nothing and the write does
/// not change the tables it goes through: it succeeds where all is mapped; else
/// it names the address that is not if that is the first one, and counts the
/// bytes before it if not.
pub proof fn law_write_is_counted<B: MemoryOps<PhysAddr>>(
    memory: B,
    dtb: Dtb,
    tables: spec_fn(VirtAddr) -> Option<Translation>,
    addr: VirtAddr,
    stop: int,
    bytes: Seq<u8>,
    written: Result<(), Error>,
    post: B,
)
    requires
        takes_all::<B>(),
        keeps_tables(memory, dtb, tables, addr, 0, bytes),
        first_unmapped(tables, addr, bytes.len() as int, stop),
        AddressSpace::may_write(memory, dtb, addr, bytes, written, post),
    ensures
        written == ended(addr, bytes.len() as int, stop, Error::PartialWrite(stop as usize)),
{
    lemma_write_is_counted(memory, dtb, tables, addr, 0, stop, bytes, written, post);
}

} // verus!
