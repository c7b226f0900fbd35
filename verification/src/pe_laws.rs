//! What the section table of an image says, in numbers.
use crate::pe::{header_error, in_executable_section, sections, Section};
use vstd::prelude::*;

verus! {

/// The number that two bytes stand for, low byte first.
pub open spec fn word(b: Seq<u8>, at: int) -> int {
    b[at] + 0x100 * b[at + 1]
}

/// The number that four bytes stand for, low byte first.
pub open spec fn dword(b: Seq<u8>, at: int) -> int {
    b[at] + 0x100 * b[at + 1] + 0x1_0000 * b[at + 2] + 0x100_0000 * b[at + 3]
}

/// The rows of the section table are those of the format: as many as the file header
/// counts, 40 bytes each, behind the optional header, each with its address, its size in
/// memory, its size in the file, and its flags. What is no image is refused in words.
pub proof fn law_section_table(image: &[u8], r: Result<Vec<Section>, String>)
    requires
        call_ensures(sections, (image,), r),
    ensures
        r is Ok <==> header_error(image@) is None,
        r matches Err(why) ==> header_error(image@) == Some(why@),
        r matches Ok(rows) ==> ({
            let nt = dword(image@, 0x3C);
            let table = nt + 24 + word(image@, nt + 20);
            &&& rows@.len() == word(image@, nt + 6)
            &&& forall|i: int|
                0 <= i < rows@.len() ==> {
                    let row = #[trigger] rows@[i];
                    &&& row.0 == dword(image@, table + 40 * i + 12)
                    &&& row.1 == dword(image@, table + 40 * i + 8)
                    &&& row.2 == dword(image@, table + 40 * i + 16)
                    &&& row.3 == dword(image@, table + 40 * i + 36)
                }
        }),
{
}

/// A relative address lies in code if and only if it lies in a section that may be
/// executed (bit 29 of its flags): in its address range, which is as long as the larger
/// of its two sizes.
pub proof fn law_code_lies_in_sections(table: &[Section], rva: u32, r: bool)
    requires
        call_ensures(in_executable_section, (table, rva), r),
        rva < u32::MAX,
    ensures
        r <==> exists|i: int|
            {
                &&& 0 <= i < table@.len()
                &&& ((#[trigger] table@[i]).3 as int / 0x2000_0000) % 2 == 1
                &&& table@[i].0 <= rva
                &&& rva < table@[i].0 + table@[i].1 || rva < table@[i].0 + table@[i].2
            },
{
    assert forall|i: int| 0 <= i < table@.len() implies (#[trigger]
    crate::pe::section_executes(table@[i], rva) <==> {
        &&& (table@[i].3 as int / 0x2000_0000) % 2 == 1
        &&& table@[i].0 <= rva
        &&& rva < table@[i].0 + table@[i].1 || rva < table@[i].0 + table@[i].2
    }) by {
        let flags = table@[i].3;
        assert((flags & 0x2000_0000u32 != 0) == ((flags / 0x2000_0000) % 2 == 1)) by (bit_vector);
    }
    if r {
        let i = choose|i: int|
            0 <= i < table@.len() && #[trigger] crate::pe::section_executes(table@[i], rva);
        assert((table@[i].3 as int / 0x2000_0000) % 2 == 1);
    }
    if exists|i: int|
        {
            &&& 0 <= i < table@.len()
            &&& ((#[trigger] table@[i]).3 as int / 0x2000_0000) % 2 == 1
            &&& table@[i].0 <= rva
            &&& rva < table@[i].0 + table@[i].1 || rva < table@[i].0 + table@[i].2
        } {
        let i = choose|i: int|
            {
                &&& 0 <= i < table@.len()
                &&& ((#[trigger] table@[i]).3 as int / 0x2000_0000) % 2 == 1
                &&& table@[i].0 <= rva
                &&& rva < table@[i].0 + table@[i].1 || rva < table@[i].0 + table@[i].2
            };
        assert(crate::pe::section_executes(table@[i], rva));
    }
}

} // verus!
