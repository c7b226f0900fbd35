//! How the house style looks, control sequence by control sequence.
use crate::text::{dec, number};
use crate::text_laws::law_padded_hex_reads_back;
use crate::ui;
use crate::ui::offset_start;
use vstd::prelude::*;
use vstd::string::*;

verus! {

/// An address is sixteen hexadecimal digits or more, bold and bright white, that read
/// back as the address.
pub proof fn law_addresses_read_back(v: u64, r: String, digits: String)
    requires
        call_ensures(ui::addr, (v,), r),
        call_ensures(crate::text::hexadecimal_padded, (v, 16usize), digits),
    ensures
        r@ == "\x1b[1m"@ + ("\x1b[97m"@ + digits@ + "\x1b[39m"@) + "\x1b[0m"@,
        digits@.len() >= 16,
        number(digits@, 16) == Some(v as int),
{
    law_padded_hex_reads_back(v, 16, digits);
}

/// Minor text is bright black, a heading bold, and so is the number of a breakpoint.
pub proof fn law_plain_styles(
    s: &str,
    id: u32,
    muted: String,
    label: String,
    bp_id: String,
    thread: String,
    plate: String,
    badge: String,
)
    requires
        call_ensures(ui::muted, (s,), muted),
        call_ensures(ui::label, (s,), label),
        call_ensures(ui::bp_id, (id,), bp_id),
        call_ensures(ui::thread_id, (s,), thread),
        call_ensures(ui::plate, (s,), plate),
        call_ensures(ui::badge, (s,), badge),
    ensures
        muted@ == "\x1b[90m"@ + s@ + "\x1b[39m"@,
        label@ == "\x1b[1m"@ + s@ + "\x1b[0m"@,
        bp_id@ == "\x1b[1m"@ + ("#"@ + dec(id as nat)) + "\x1b[0m"@,
        thread@ == "\x1b[1m"@ + s@ + "\x1b[0m"@,
        plate@ == "\x1b[1m"@ + s@ + "\x1b[0m"@,
        badge@ == "\x1b[1m"@ + ("\x1b[31m"@ + (" "@ + s@ + " "@) + "\x1b[39m"@) + "\x1b[0m"@,
{
}

/// A colour is put before a text and taken back behind it.
pub proof fn law_colours(s: Seq<char>)
    ensures
        ui::spec_bright_black(s) == "\x1b[90m"@ + s + "\x1b[39m"@,
        ui::spec_bright_white(s) == "\x1b[97m"@ + s + "\x1b[39m"@,
        ui::spec_red(s) == "\x1b[31m"@ + s + "\x1b[39m"@,
        ui::spec_green(s) == "\x1b[32m"@ + s + "\x1b[39m"@,
        ui::spec_yellow(s) == "\x1b[33m"@ + s + "\x1b[39m"@,
        ui::spec_bold(s) == "\x1b[1m"@ + s + "\x1b[0m"@,
{
}

/// Whether an offset begins at a place of a text.
pub open spec fn offset_at(s: Seq<char>, i: int) -> bool {
    0 <= i && i + 3 <= s.len() && s[i] == '+' && s[i + 1] == '0' && s[i + 2] == 'x'
}

proof fn lemma_offset(s: Seq<char>)
    ensures
        0 <= offset_start(s) <= s.len(),
        offset_start(s) < s.len() ==> offset_at(s, offset_start(s)),
        forall|i: int| 0 <= i < offset_start(s) ==> !#[trigger] offset_at(s, i),
    decreases s.len(),
{
    reveal_strlit("+0x");
    if s.len() >= 3 {
        assert(s.take(3) =~= "+0x"@ <==> offset_at(s, 0)) by {
            if offset_at(s, 0) {
                assert(s.take(3) =~= "+0x"@);
            }
            if s.take(3) == "+0x"@ {
                assert(s.take(3)[0] == '+' && s.take(3)[1] == '0' && s.take(3)[2] == 'x');
            }
        }
    }
    if s.len() > 0 && !crate::text::begins(s, "+0x"@) {
        let rest = s.drop_first();
        lemma_offset(rest);
        assert forall|i: int| 0 <= i < offset_start(s) implies !#[trigger] offset_at(s, i) by {
            if i > 0 {
                assert(!offset_at(rest, i - 1));
            }
        }
        if offset_start(s) < s.len() {
            assert(offset_at(rest, offset_start(rest)));
        }
    }
}

/// A symbol is green, but for its offset: from the first `+0x` on it is bright black.
pub proof fn law_symbols_have_offsets(s: &str, r: String)
    requires
        call_ensures(ui::symbol, (s,), r),
    ensures
        (forall|i: int| !#[trigger] offset_at(s@, i)) ==> r@ == "\x1b[32m"@ + s@ + "\x1b[39m"@,
        forall|i: int|
            #[trigger] offset_at(s@, i) && (forall|j: int|
                0 <= j < i ==> !#[trigger] offset_at(s@, j)) ==> r@ == ("\x1b[32m"@
                + s@.subrange(0, i) + "\x1b[39m"@) + ("\x1b[90m"@ + s@.subrange(
                i,
                s@.len() as int,
            ) + "\x1b[39m"@),
{
    lemma_offset(s@);
    let at = offset_start(s@);
    if at < s@.len() {
        assert(offset_at(s@, at));
        assert(s@.take(at) =~= s@.subrange(0, at));
        assert(s@.skip(at) =~= s@.subrange(at, s@.len() as int));
    }
    assert forall|i: int|
        #[trigger] offset_at(s@, i) && (forall|j: int|
            0 <= j < i ==> !#[trigger] offset_at(s@, j)) implies i == at by {
        if at < i {
            assert(!offset_at(s@, at));
        }
    }
}

} // verus!
