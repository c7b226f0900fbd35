//! The section table of a loaded PE32+ image.
use pelite::pe64::{Pe, PeView};
use vstd::bytes::{
    lemma_auto_spec_u64_to_from_le_bytes, spec_u64_from_le_bytes, spec_u64_to_le_bytes,
    u64_from_le_bytes,
};
use vstd::prelude::*;

verus! {

/// The flag of a section that can be executed.
pub const IMAGE_SCN_MEM_EXECUTE: u32 = 0x2000_0000;

/// One row of a section table: virtual address, virtual size, size of the raw
/// data, characteristics.
pub type Section = (u32, u32, u32, u32);

/// The little-endian 16-bit number at `at`.
pub open spec fn le16(b: Seq<u8>, at: int) -> int {
    b[at] + 0x100 * b[at + 1]
}

/// The little-endian 32-bit number at `at`.
pub open spec fn le32(b: Seq<u8>, at: int) -> int {
    le16(b, at) + 0x1_0000 * le16(b, at + 2)
}

/// Where the NT headers begin.
pub open spec fn nt_offset(b: Seq<u8>) -> int {
    le32(b, 0x3C)
}

/// Where the section table begins.
pub open spec fn section_table_offset(b: Seq<u8>) -> int {
    nt_offset(b) + 24 + le16(b, nt_offset(b) + 20)
}

/// The section table of an image with headers that make sense.
pub open spec fn section_table(b: Seq<u8>) -> Seq<Section> {
    Seq::new(
        le16(b, nt_offset(b) + 6) as nat,
        |i: int|
            {
                let row = section_table_offset(b) + 40 * i;
                (
                    le32(b, row + 12) as u32,
                    le32(b, row + 8) as u32,
                    le32(b, row + 16) as u32,
                    le32(b, row + 36) as u32,
                )
            },
    )
}

fn read_le16(b: &[u8], at: usize) -> (r: u32)
    requires
        at + 2 <= b@.len(),
    ensures
        r == le16(b@, at as int),
        r <= 0xFFFF,
{
    b[at] as u32 + 0x100 * b[at + 1] as u32
}

fn read_le32(b: &[u8], at: usize) -> (r: u32)
    requires
        at + 4 <= b@.len(),
    ensures
        r == le32(b@, at as int),
{
    let len: usize = b.len();
    assert(at + 4 <= len);
    read_le16(b, at) + 0x1_0000 * read_le16(b, at + 2)
}

/// The bytes of words as they lie in memory, low byte first.
pub open spec fn bytes_of(words: Seq<u64>) -> Seq<u8> {
    Seq::new(8 * words.len(), |i: int| spec_u64_to_le_bytes(words[i / 8])[i % 8])
}

/// The bytes of an image that lies in words from byte `start` on.
pub open spec fn image_in(words: Seq<u64>, start: int, len: int) -> Seq<u8> {
    bytes_of(words).subrange(start, start + len)
}

/// Whether an image that begins at byte `start` of words has its headers where
/// they can be viewed: itself on a four-byte boundary, and its NT headers, which
/// hold 64-bit numbers, on an eight-byte one. Words lie on eight-byte boundaries.
pub open spec fn in_place(image: Seq<u8>, start: int) -> bool {
    &&& start % 4 == 0
    &&& image.len() >= 64 && nt_offset(image) % 4 == 0 ==> (start + nt_offset(image)) % 8 == 0
}

/// Whether an image is long enough for its headers and section table.
pub open spec fn headers_fit(image: Seq<u8>) -> bool {
    &&& image.len() >= 64
    &&& nt_offset(image) % 4 == 0
    &&& nt_offset(image) + 136 <= image.len()
    &&& section_table_offset(image) + 40 * le16(image, nt_offset(image) + 6) <= image.len()
}

/// Why the bytes are not taken for a loaded PE32+ image, in words; nothing where
/// they are.
pub uninterp spec fn header_error(image: Seq<u8>) -> Option<Seq<char>>;

/// `PeView::from_bytes` of `pelite`, and the words of its error: named, not
/// described. What it accepts holds its headers and section table. It is handed
/// the memory of the words, which `dataview::bytes` shows as bytes. Both go by the
/// byte order of the machine, which is taken to be that of the format, low byte
/// first.
///
/// It makes references to the headers after testing for a four-byte boundary
/// only, so the image must be in place. As it always is, the answer depends on
/// the bytes and not on where they lie.
#[verifier::external_body]
fn view_headers(words: &[u64], start: usize, len: usize) -> (r: Result<(), String>)
    requires
        start + len <= 8 * words@.len(),
        in_place(image_in(words@, start as int, len as int), start as int),
    ensures
        match r {
            Ok(_) => {
                let image = image_in(words@, start as int, len as int);
                header_error(image) is None && headers_fit(image)
            },
            Err(why) => header_error(image_in(words@, start as int, len as int)) == Some(why@),
        },
{
    match PeView::from_bytes(&dataview::bytes(words)[start..][..len]) {
        Ok(_) => Ok(()),
        Err(e) => Err(e.to_string()),
    }
}

/// `Pe::section_headers` of `pelite`: the rows of the section table, in order. It
/// makes a slice of them in place, so the table must lie on a four-byte boundary.
/// The image is handed over as in [`view_headers`].
#[verifier::external_body]
fn view_sections(words: &[u64], start: usize, len: usize) -> (r: Vec<Section>)
    requires
        start + len <= 8 * words@.len(),
        in_place(image_in(words@, start as int, len as int), start as int),
        header_error(image_in(words@, start as int, len as int)) is None,
        section_table_offset(image_in(words@, start as int, len as int)) % 4 == 0,
    ensures
        r@ == section_table(image_in(words@, start as int, len as int)),
{
    let view = PeView::from_bytes(&dataview::bytes(words)[start..][..len]).unwrap();
    let rows = view.section_headers().iter();
    rows.map(|s| (s.VirtualAddress, s.VirtualSize, s.SizeOfRawData, s.Characteristics)).collect()
}

/// Lays bytes out in words, from byte `start` on.
fn lay_in_words(image: &[u8], start: usize) -> (r: Vec<u64>)
    requires
        start < 8,
        image@.len() == 0 ==> start == 0,
    ensures
        start + image@.len() <= 8 * r@.len(),
        image_in(r@, start as int, image@.len() as int) == image@,
{
    let len: usize = image.len();
    let mut words: Vec<u64> = Vec::new();
    let mut at: usize = 0;
    while at < len
        invariant
            len == image@.len(),
            start < 8,
            at <= len,
            words@.len() == 0 ==> at == 0,
            words@.len() > 0 && at < len ==> 8 * words@.len() == start + at,
            words@.len() > 0 ==> start + at <= 8 * words@.len(),
            forall|i: int|
                0 <= i < at && words@.len() > 0 ==> #[trigger] image@[i] == bytes_of(words@)[start
                    + i],
        decreases len - at,
    {
        let ghost laid = words@;
        let ghost from = at;
        let lead: usize = if words.len() == 0 {
            start
        } else {
            0
        };
        let mut chunk: Vec<u8> = Vec::new();
        while chunk.len() < 8
            invariant
                len == image@.len(),
                lead < 8,
                from <= at <= len,
                from < len,
                chunk@.len() <= 8,
                at == from + (if chunk@.len() <= lead {
                    0
                } else {
                    chunk@.len() - lead
                }) || (at == len && chunk@.len() >= lead + (len - from)),
                forall|i: int|
                    from <= i < at ==> lead + i - from < chunk@.len() && #[trigger] image@[i]
                        == chunk@[lead + i - from],
            decreases 8 - chunk@.len(),
        {
            if chunk.len() >= lead && at < len {
                chunk.push(image[at]);
                at += 1;
            } else {
                chunk.push(0);
            }
        }
        words.push(u64_from_le_bytes(chunk.as_slice()));
        proof {
            lemma_auto_spec_u64_to_from_le_bytes();
            let word = words@.last();
            assert(word == spec_u64_from_le_bytes(chunk@));
            assert(spec_u64_to_le_bytes(word) == chunk@);
            assert forall|i: int| 0 <= i < at implies #[trigger] image@[i] == bytes_of(words@)[start
                + i] by {
                if i < from {
                    assert((start + i) / 8 < laid.len());
                    assert(image@[i] == bytes_of(laid)[start + i]);
                } else {
                    assert(start + i == 8 * laid.len() + (lead + i - from));
                    assert((start + i) / 8 == laid.len());
                    assert((start + i) % 8 == lead + i - from);
                }
            }
        }
    }
    assert(image_in(words@, start as int, len as int) =~= image@);
    words
}

/// Reads the section table byte by byte.
fn read_sections(image: &[u8]) -> (r: Vec<Section>)
    requires
        headers_fit(image@),
    ensures
        r@ == section_table(image@),
{
    let len: usize = image.len();
    let nt: usize = read_le32(image, 0x3C) as usize;
    let count: usize = read_le16(image, nt + 6) as usize;
    let table: usize = nt + 24 + read_le16(image, nt + 20) as usize;
    let mut rows: Vec<Section> = Vec::new();
    let mut i: usize = 0;
    while i < count
        invariant
            i <= count,
            len == image@.len(),
            count == le16(image@, nt_offset(image@) + 6),
            table == section_table_offset(image@),
            table + 40 * count <= len,
            rows@ =~= section_table(image@).take(i as int),
        decreases count - i,
    {
        let row: usize = table + 40 * i;
        rows.push(
            (
                read_le32(image, row + 12),
                read_le32(image, row + 8),
                read_le32(image, row + 16),
                read_le32(image, row + 36),
            ),
        );
        i += 1;
    }
    assert(section_table(image@).take(i as int) =~= section_table(image@));
    rows
}

/// The section table of an image, or in words why it has none. The image is
/// viewed in a copy that has its headers in place, wherever it lies itself. A
/// section table can still be off a four-byte boundary; then it cannot be viewed
/// and is read byte by byte.
pub fn sections(image: &[u8]) -> (r: Result<Vec<Section>, String>)
    ensures
        match header_error(image@) {
            None => r matches Ok(rows) && rows@ == section_table(image@),
            Some(why) => r matches Err(words) && words@ == why,
        },
{
    let len: usize = image.len();
    let start: usize = if len >= 64 && read_le32(image, 0x3C) % 8 == 4 {
        4
    } else {
        0
    };
    let words = lay_in_words(image, start);
    match view_headers(words.as_slice(), start, len) {
        Ok(_) => {},
        Err(why) => return Err(why),
    }
    let nt: usize = read_le32(image, 0x3C) as usize;
    if read_le16(image, nt + 20) % 4 == 0 {
        Ok(view_sections(words.as_slice(), start, len))
    } else {
        Ok(read_sections(image))
    }
}

/// Whether a section can be executed and holds the relative address.
pub open spec fn section_executes(s: Section, rva: u32) -> bool {
    let size = if s.1 > s.2 {
        s.1
    } else {
        s.2
    };
    &&& size != 0
    &&& s.3 & IMAGE_SCN_MEM_EXECUTE != 0
    &&& s.0 <= rva
    &&& rva < s.0 + size
    &&& rva < u32::MAX || s.0 + size <= u32::MAX
}

/// Whether a relative address lies in a section that can be executed.
pub open spec fn executable_at(table: Seq<Section>, rva: u32) -> bool {
    exists|i: int| 0 <= i < table.len() && #[trigger] section_executes(table[i], rva)
}

/// Whether a relative address lies in a section that can be executed.
pub fn in_executable_section(table: &[Section], rva: u32) -> (r: bool)
    ensures
        r == executable_at(table@, rva),
{
    let mut i: usize = 0;
    while i < table.len()
        invariant
            i <= table@.len(),
            forall|k: int| 0 <= k < i ==> !#[trigger] section_executes(table@[k], rva),
        decreases table@.len() - i,
    {
        let s = table[i];
        let size: u32 = if s.1 > s.2 {
            s.1
        } else {
            s.2
        };
        let end: u32 = match s.0.checked_add(size) {
            Some(end) => end,
            None => u32::MAX,
        };
        if size != 0 && s.3 & IMAGE_SCN_MEM_EXECUTE != 0 && rva >= s.0 && rva < end {
            assert(section_executes(table@[i as int], rva));
            return true;
        }
        i += 1;
    }
    false
}

} // verus!
