//! What texts made of numbers and pieces of texts satisfy.
use crate::text::{
    comes_before, digit, digit_value, digits, hexadecimal_padded, is_space, lemma_prefix_bounds,
    lemma_quotient_smaller, lines_of, number, pad_right, space_prefix, space_suffix, trim, trimmed,
    trimmed_start, word_prefix,
};
use vstd::prelude::*;

verus! {

proof fn lemma_digit(d: int, base: int)
    requires
        0 <= d < base <= 36,
    ensures
        digit_value(digit(d), base) == Some(d),
{
}

/// The digits of a number read back as that number, in every base.
pub proof fn law_digits_read_back(v: nat, base: nat)
    requires
        2 <= base <= 36,
    ensures
        number(digits(v, base), base as int) == Some(v as int),
        digits(v, base).len() > 0,
    decreases v,
{
    let all = digits(v, base);
    if v < base {
        lemma_digit(v as int, base as int);
        assert(all =~= seq![digit(v as int)]);
        assert(all.drop_last() =~= Seq::<char>::empty());
        reveal_with_fuel(number, 2);
        assert(0 * base == 0) by (nonlinear_arith);
    } else {
        lemma_quotient_smaller(v, base);
        law_digits_read_back(v / base, base);
        assert(all.drop_last() =~= digits(v / base, base));
        assert(0 <= v % base < base) by (nonlinear_arith)
            requires
                2 <= base,
        ;
        lemma_digit((v % base) as int, base as int);
        assert((v / base) * base + v % base == v) by (nonlinear_arith)
            requires
                2 <= base,
        ;
    }
}

/// Zeroes before digits change nothing.
proof fn lemma_zeroes(n: nat, s: Seq<char>, base: int)
    requires
        2 <= base <= 36,
    ensures
        number(Seq::new(n, |i: int| '0') + s, base) == number(s, base),
    decreases n + s.len(),
{
    let zeroes = Seq::new(n, |i: int| '0');
    let all = zeroes + s;
    if s.len() > 0 {
        lemma_zeroes(n, s.drop_last(), base);
        assert(all.drop_last() =~= zeroes + s.drop_last());
    } else if n > 0 {
        lemma_zeroes((n - 1) as nat, s, base);
        let fewer = Seq::new((n - 1) as nat, |i: int| '0') + s;
        assert(all.drop_last() =~= fewer);
        assert(all.last() == '0');
        let high = number(fewer, base)->0;
        assert(high * base == 0) by (nonlinear_arith)
            requires
                high == 0,
        ;
    } else {
        assert(all =~= s);
    }
}

/// A number in hex, zeroes first, is at least as wide as asked for, and reads back as
/// that number.
pub proof fn law_padded_hex_reads_back(v: u64, width: usize, r: String)
    requires
        call_ensures(hexadecimal_padded, (v, width), r),
    ensures
        r@.len() >= width,
        number(r@, 16) == Some(v as int),
{
    law_digits_read_back(v as nat, 16);
    let plain = digits(v as nat, 16);
    if plain.len() < width {
        lemma_zeroes((width - plain.len()) as nat, plain, 16);
        assert(crate::text::repeated('0', (width - plain.len()) as nat) =~= Seq::new(
            (width - plain.len()) as nat,
            |i: int| '0',
        ));
    }
}

/// Filling up a text keeps it and adds nothing but spaces, no more than are needed.
pub proof fn law_padding_adds_spaces(s: &str, width: usize, r: String)
    requires
        call_ensures(pad_right, (s, width), r),
    ensures
        r@.len() >= width && r@.len() >= s@.len(),
        r@.len() == width || r@.len() == s@.len(),
        r@.subrange(0, s@.len() as int) == s@,
        forall|i: int| s@.len() <= i < r@.len() ==> r@[i] == ' ',
{
}

/// The white space that a text begins and ends with reaches to the first and last other
/// character.
pub proof fn law_spaces_at_the_ends(s: Seq<char>)
    ensures
        0 <= space_prefix(s) <= s.len(),
        forall|i: int| 0 <= i < space_prefix(s) ==> is_space(#[trigger] s[i]),
        space_prefix(s) < s.len() ==> !is_space(s[space_prefix(s)]),
        0 <= space_suffix(s) <= s.len(),
        forall|i: int| s.len() - space_suffix(s) <= i < s.len() ==> is_space(#[trigger] s[i]),
        space_suffix(s) < s.len() ==> !is_space(s[s.len() - space_suffix(s) - 1]),
    decreases s.len(),
{
    lemma_prefix_bounds(s);
    if s.len() > 0 {
        law_spaces_at_the_ends(s.drop_first());
        law_spaces_at_the_ends(s.drop_last());
        assert forall|i: int| 0 <= i < space_prefix(s) implies is_space(#[trigger] s[i]) by {
            if i > 0 {
                assert(s.drop_first()[i - 1] == s[i]);
            }
        }
        assert forall|i: int| s.len() - space_suffix(s) <= i < s.len() implies is_space(
            #[trigger] s[i],
        ) by {
            if i < s.len() - 1 {
                assert(s.drop_last()[i] == s[i]);
            }
        }
        if is_space(s[0]) && space_prefix(s) < s.len() {
            assert(s.drop_first()[space_prefix(s) - 1] == s[space_prefix(s)]);
        }
    }
}

/// Trimming takes away white space at the two ends, all of it and nothing else.
pub proof fn law_trim_takes_white_space(s: &str, r: String)
    requires
        call_ensures(trim, (s,), r),
    ensures
        exists|a: int, b: int|
            {
                &&& 0 <= a <= b <= s@.len()
                &&& r@ == #[trigger] s@.subrange(a, b)
                &&& forall|i: int| 0 <= i < a || b <= i < s@.len() ==> is_space(#[trigger] s@[i])
                &&& a < b ==> !is_space(s@[a]) && !is_space(s@[b - 1])
            },
{
    law_trimmed(s@);
}

/// A trimmed text is the text without the white space at its two ends.
pub proof fn law_trimmed(s: Seq<char>)
    ensures
        exists|a: int, b: int|
            {
                &&& 0 <= a <= b <= s.len()
                &&& trimmed(s) == #[trigger] s.subrange(a, b)
                &&& forall|i: int| 0 <= i < a || b <= i < s.len() ==> is_space(#[trigger] s[i])
                &&& a < b ==> !is_space(s[a]) && !is_space(s[b - 1])
            },
{
    let t = trimmed_start(s);
    law_spaces_at_the_ends(s);
    law_spaces_at_the_ends(t);
    let a = space_prefix(s);
    let b = a + t.len() - space_suffix(t);
    assert(trimmed(s) =~= s.subrange(a, b));
    assert forall|i: int| 0 <= i < a || b <= i < s.len() implies is_space(#[trigger] s[i]) by {
        if b <= i {
            assert(t[i - a] == s[i]);
        }
    }
    if a < b {
        assert(t[t.len() - space_suffix(t) - 1] == s[b - 1]);
    }
}

/// The first word ends at the first white space, or with the text.
pub proof fn law_word_ends_at_white_space(s: Seq<char>)
    ensures
        0 <= word_prefix(s) <= s.len(),
        forall|i: int| 0 <= i < word_prefix(s) ==> !is_space(#[trigger] s[i]),
        word_prefix(s) < s.len() ==> is_space(s[word_prefix(s)]),
    decreases s.len(),
{
    if s.len() > 0 && !is_space(s[0]) {
        law_word_ends_at_white_space(s.drop_first());
        assert forall|i: int| 0 <= i < word_prefix(s) implies !is_space(#[trigger] s[i]) by {
            if i > 0 {
                assert(s.drop_first()[i - 1] == s[i]);
            }
        }
        if word_prefix(s) < s.len() {
            assert(s.drop_first()[word_prefix(s) - 1] == s[word_prefix(s)]);
        }
    }
}

/// A text comes before another if and only if it is a proper beginning of it, or has the
/// smaller character where they first differ.
pub proof fn law_order_of_texts(a: Seq<char>, b: Seq<char>)
    ensures
        comes_before(a, b) <==> exists|n: int|
            {
                &&& 0 <= n <= a.len() && n < b.len()
                &&& #[trigger] a.subrange(0, n) == b.subrange(0, n)
                &&& n == a.len() || (a[n] as int) < (b[n] as int)
            },
    decreases a.len(),
{
    if a.len() > 0 && b.len() > 0 && a[0] == b[0] {
        let x = a.drop_first();
        let y = b.drop_first();
        law_order_of_texts(x, y);
        if comes_before(x, y) {
            let n = choose|n: int|
                {
                    &&& 0 <= n <= x.len() && n < y.len()
                    &&& #[trigger] x.subrange(0, n) == y.subrange(0, n)
                    &&& n == x.len() || (x[n] as int) < (y[n] as int)
                };
            assert forall|i: int| 0 <= i < n + 1 implies a[i] == b[i] by {
                if i > 0 {
                    assert(x.subrange(0, n)[i - 1] == y.subrange(0, n)[i - 1]);
                }
            }
            assert(a.subrange(0, n + 1) =~= b.subrange(0, n + 1));
            assert(n + 1 < a.len() ==> a[n + 1] == x[n] && b[n + 1] == y[n]);
        }
        if exists|n: int|
            {
                &&& 0 <= n <= a.len() && n < b.len()
                &&& #[trigger] a.subrange(0, n) == b.subrange(0, n)
                &&& n == a.len() || (a[n] as int) < (b[n] as int)
            } {
            let n = choose|n: int|
                {
                    &&& 0 <= n <= a.len() && n < b.len()
                    &&& #[trigger] a.subrange(0, n) == b.subrange(0, n)
                    &&& n == a.len() || (a[n] as int) < (b[n] as int)
                };
            assert(n > 0);
            assert forall|i: int| 0 <= i < n - 1 implies x[i] == y[i] by {
                assert(a.subrange(0, n)[i + 1] == b.subrange(0, n)[i + 1]);
            }
            assert(x.subrange(0, n - 1) =~= y.subrange(0, n - 1));
        }
    } else if b.len() > 0 {
        assert(a.subrange(0, 0) =~= b.subrange(0, 0));
        if exists|n: int|
            {
                &&& 0 <= n <= a.len() && n < b.len()
                &&& #[trigger] a.subrange(0, n) == b.subrange(0, n)
                &&& n == a.len() || (a[n] as int) < (b[n] as int)
            } {
            let n = choose|n: int|
                {
                    &&& 0 <= n <= a.len() && n < b.len()
                    &&& #[trigger] a.subrange(0, n) == b.subrange(0, n)
                    &&& n == a.len() || (a[n] as int) < (b[n] as int)
                };
            if n > 0 {
                assert(a.subrange(0, n)[0] == b.subrange(0, n)[0]);
            }
        }
    }
}

/// A text without a line feed is one line, or none where it is empty.
pub proof fn law_last_line(s: Seq<char>)
    requires
        !s.contains('\n'),
    ensures
        lines_of(s) == (if s.len() == 0 {
            Seq::<Seq<char>>::empty()
        } else {
            seq![s]
        }),
{
    crate::text::lemma_position(s, '\n');
}

/// What stands before the first line feed is the first line, without a carriage return
/// at its end; the lines behind it are those of the rest.
pub proof fn law_first_line(line: Seq<char>, rest: Seq<char>)
    requires
        !line.contains('\n'),
    ensures
        lines_of(line + seq!['\n'] + rest) == seq![
            (if line.len() > 0 && line[line.len() - 1] == '\r' {
                line.subrange(0, line.len() - 1)
            } else {
                line
            }),
        ] + lines_of(rest),
{
    let s = line + seq!['\n'] + rest;
    crate::text::lemma_position(s, '\n');
    let end = crate::text::position(s, '\n');
    assert(s[line.len() as int] == '\n');
    if end < line.len() {
        assert(s[end] == line[end]);
        assert(line.contains('\n'));
    }
    assert(s.take(end) =~= line);
    assert(s.skip(end + 1) =~= rest);
    if line.len() > 0 {
        assert(line.drop_last() =~= line.subrange(0, line.len() - 1));
    }
}

} // verus!
