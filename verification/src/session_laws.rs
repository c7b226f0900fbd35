//! Which processor the id of a backend thread stands for.
use crate::session::processor_index;
use crate::text::{digit, hex};
use crate::text_laws::law_digits_read_back;
use vstd::prelude::*;

verus! {

proof fn lemma_hex_digits(v: nat)
    ensures
        forall|i: int| 0 <= i < hex(v).len() ==> #[trigger] hex(v)[i] != '.' && hex(v)[i] != '+',
    decreases v,
{
    if v >= 16 {
        assert(v / 16 < v);
        lemma_hex_digits(v / 16);
        let high = hex(v / 16);
        assert(hex(v) == high.push(digit((v % 16) as int)));
        assert forall|i: int| 0 <= i < hex(v).len() implies #[trigger] hex(v)[i] != '.' && hex(v)[i]
            != '+' by {
            if i < high.len() {
                assert(high[i] == hex(v)[i]);
            }
        }
    } else {
        assert(hex(v) =~= seq![digit(v as int)]);
    }
}

/// The processor is the number behind the last dot, in hex, counted from one there and
/// from zero here: whatever stands before that dot, and for every number that a
/// processor can have.
pub proof fn law_processors_count_from_one(before: Seq<char>, n: nat)
    requires
        n <= 0xffff,
    ensures
        processor_index(before + seq!['.'] + hex(n)) == (if n == 0 {
            None
        } else {
            Some(n - 1)
        }),
{
    let digits = hex(n);
    let id = before + seq!['.'] + digits;
    lemma_hex_digits(n);
    law_digits_read_back(n, 16);
    let at = before.len() as int;
    assert(id[at] == '.');
    assert forall|i: int| at < i < id.len() implies id[i] != '.' by {
        assert(id[i] == digits[i - at - 1]);
    }
    crate::session::lemma_after_last(id, '.', at);
    assert(id.skip(at + 1) =~= digits);
    assert(digits[0] != '+');
}

} // verus!
