//! Text: numbers in words of digits, padding, joining, trimming, and the small
//! parsers that commands and host files need.
use vstd::prelude::*;
use vstd::string::*;

verus! {

/// `String::push`, of which it claims what std documents: the character is
/// appended to the end of the text.
pub assume_specification[ String::push ](s: &mut String, c: char)
    ensures
        final(s)@ == old(s)@.push(c),
;

/// The texts of a list of strings.
pub open spec fn texts(list: Seq<String>) -> Seq<Seq<char>> {
    list.map_values(|s: String| s@)
}

/// The text of an optional string.
pub open spec fn text_opt(s: Option<String>) -> Option<Seq<char>> {
    match s {
        Some(s) => Some(s@),
        None => None,
    }
}

/// A copy of a text.
pub fn text(s: &str) -> (r: String)
    ensures
        r@ == s@,
{
    s.to_string()
}

/// The characters of a text.
pub fn chars(s: &str) -> (r: Vec<char>)
    ensures
        r@ == s@,
{
    let mut out: Vec<char> = Vec::new();
    for c in it: s.chars()
        invariant
            out@ == it.seq().take(it.index()),
            it.seq() == s@,
    {
        out.push(c);
    }
    assert(out@ =~= s@);
    out
}

/// The text made of these characters.
pub fn from_chars(c: &[char]) -> (r: String)
    ensures
        r@ == c@,
{
    let mut out = String::new();
    let mut i: usize = 0;
    while i < c.len()
        invariant
            i <= c@.len(),
            out@ == c@.take(i as int),
        decreases c@.len() - i,
    {
        out.push(c[i]);
        i += 1;
        assert(c@.take(i as int) =~= c@.take(i - 1).push(c@[i - 1]));
    }
    assert(out@ =~= c@);
    out
}

/// Whether two texts are the same.
pub fn same(a: &str, b: &str) -> (r: bool)
    ensures
        r == (a@ == b@),
{
    a.to_string() == b.to_string()
}

/// The digit with this value, in lower case.
pub open spec fn digit(d: int) -> char {
    if d < 10 {
        (48 + d) as char
    } else {
        (87 + d) as char
    }
}

/// Dividing a number by a base that it reaches makes it smaller.
pub proof fn lemma_quotient_smaller(v: nat, base: nat)
    by (nonlinear_arith)
    requires
        2 <= base <= v,
    ensures
        v / base < v,
{
}

/// The digits of a number in a base of at most 36, most significant first.
pub open spec fn digits(v: nat, base: nat) -> Seq<char>
    decreases v,
    when 2 <= base
{
    if v < base {
        seq![digit(v as int)]
    } else {
        proof {
            lemma_quotient_smaller(v, base);
        }
        digits(v / base, base).push(digit((v % base) as int))
    }
}

/// The decimal digits of a number (`{}`).
pub open spec fn dec(v: nat) -> Seq<char> {
    digits(v, 10)
}

/// The lower-case hexadecimal digits of a number (`{:x}`).
pub open spec fn hex(v: nat) -> Seq<char> {
    digits(v, 16)
}

/// A decimal number with its sign (`{}`).
pub open spec fn dec_int(v: int) -> Seq<char> {
    if v < 0 {
        seq!['-'] + dec((-v) as nat)
    } else {
        dec(v as nat)
    }
}

/// A hexadecimal number with its prefix (`{:#x}`).
pub open spec fn hex_prefixed(v: nat) -> Seq<char> {
    "0x"@ + hex(v)
}

/// The text `c` repeated `n` times.
pub open spec fn repeated(c: char, n: nat) -> Seq<char> {
    Seq::new(n, |i: int| c)
}

/// `s` filled up on the left to `width` characters.
pub open spec fn padded_left(s: Seq<char>, c: char, width: nat) -> Seq<char> {
    if s.len() >= width {
        s
    } else {
        repeated(c, (width - s.len()) as nat) + s
    }
}

/// `s` filled up on the right with spaces to `width` characters (`{:<width$}`).
pub open spec fn padded_right(s: Seq<char>, width: nat) -> Seq<char> {
    if s.len() >= width {
        s
    } else {
        s + repeated(' ', (width - s.len()) as nat)
    }
}

fn digit_char(d: u64) -> (r: char)
    requires
        d < 36,
    ensures
        r == digit(d as int),
{
    if d < 10 {
        (48u8 + d as u8) as char
    } else {
        (87u8 + d as u8) as char
    }
}

fn push_digits(out: &mut String, v: u64, base: u64)
    requires
        2 <= base <= 36,
    ensures
        final(out)@ == old(out)@ + digits(v as nat, base as nat),
    decreases v,
{
    if v >= base {
        proof {
            lemma_quotient_smaller(v as nat, base as nat);
        }
        push_digits(out, v / base, base);
    }
    assert(v % base < base && (v < base ==> v % base == v)) by (nonlinear_arith)
        requires
            0 <= v,
            2 <= base,
    ;
    out.push(digit_char(v % base));
    assert(out@ =~= old(out)@ + digits(v as nat, base as nat));
}

/// The decimal digits of a number.
pub fn decimal(v: u64) -> (r: String)
    ensures
        r@ == dec(v as nat),
{
    let mut out = String::new();
    push_digits(&mut out, v, 10);
    assert(out@ =~= dec(v as nat));
    out
}

/// A decimal number with its sign.
pub fn decimal_int(v: i64) -> (r: String)
    ensures
        r@ == dec_int(v as int),
{
    let mut out = String::new();
    if v < 0 {
        out.push('-');
        let magnitude: u64 = if v == i64::MIN {
            0x8000_0000_0000_0000
        } else {
            (-v) as u64
        };
        push_digits(&mut out, magnitude, 10);
    } else {
        push_digits(&mut out, v as u64, 10);
    }
    assert(out@ =~= dec_int(v as int));
    out
}

/// The hexadecimal digits of a number.
pub fn hexadecimal(v: u64) -> (r: String)
    ensures
        r@ == hex(v as nat),
{
    let mut out = String::new();
    push_digits(&mut out, v, 16);
    assert(out@ =~= hex(v as nat));
    out
}

/// A hexadecimal number with its prefix.
pub fn hexadecimal_prefixed(v: u64) -> (r: String)
    ensures
        r@ == hex_prefixed(v as nat),
{
    text("0x").concat(hexadecimal(v).as_str())
}

/// A text of `n` equal characters.
pub fn repeat(c: char, n: usize) -> (r: String)
    ensures
        r@ == repeated(c, n as nat),
{
    let mut out = String::new();
    let mut i: usize = 0;
    while i < n
        invariant
            i <= n,
            out@ == repeated(c, i as nat),
        decreases n - i,
    {
        out.push(c);
        i += 1;
        assert(repeated(c, i as nat) =~= repeated(c, (i - 1) as nat).push(c));
    }
    out
}

/// Fills a text up on the left.
pub fn pad_left(s: &str, c: char, width: usize) -> (r: String)
    ensures
        r@ == padded_left(s@, c, width as nat),
{
    let len: usize = s.unicode_len();
    if len >= width {
        text(s)
    } else {
        repeat(c, width - len).concat(s)
    }
}

/// Fills a text up on the right with spaces.
pub fn pad_right(s: &str, width: usize) -> (r: String)
    ensures
        r@ == padded_right(s@, width as nat),
{
    let len: usize = s.unicode_len();
    if len >= width {
        text(s)
    } else {
        text(s).concat(repeat(' ', width - len).as_str())
    }
}

/// A hexadecimal number in at least `width` digits, zeroes first
/// (`{:0width$x}`).
pub open spec fn hex_padded(v: nat, width: nat) -> Seq<char> {
    padded_left(hex(v), '0', width)
}

/// A hexadecimal number in at least `width` digits, zeroes first.
pub fn hexadecimal_padded(v: u64, width: usize) -> (r: String)
    ensures
        r@ == hex_padded(v as nat, width as nat),
{
    pad_left(hexadecimal(v).as_str(), '0', width)
}

/// The texts of a list, one after the other, with `sep` between them.
pub open spec fn joined(list: Seq<Seq<char>>, sep: Seq<char>) -> Seq<char>
    decreases list.len(),
{
    if list.len() == 0 {
        Seq::empty()
    } else if list.len() == 1 {
        list[0]
    } else {
        joined(list.drop_last(), sep) + sep + list.last()
    }
}

/// Joins texts.
pub fn join(list: &[String], sep: &str) -> (r: String)
    ensures
        r@ == joined(texts(list@), sep@),
{
    let mut out = String::new();
    let mut i: usize = 0;
    assert(texts(list@.take(0)) =~= Seq::<Seq<char>>::empty());
    while i < list.len()
        invariant
            i <= list@.len(),
            out@ == joined(texts(list@.take(i as int)), sep@),
        decreases list@.len() - i,
    {
        let ghost done = texts(list@.take(i as int));
        let ghost more = texts(list@.take(i + 1));
        assert(more.drop_last() =~= done);
        assert(more.last() == list@[i as int]@);
        if i > 0 {
            out.append(sep);
        } else {
            assert(out@ =~= Seq::<char>::empty());
        }
        out.append(list[i].as_str());
        i += 1;
        assert(out@ =~= joined(more, sep@));
    }
    assert(list@.take(i as int) =~= list@);
    out
}

/// Whether a character counts as white space (Unicode `White_Space`).
pub open spec fn is_space(c: char) -> bool {
    let v = c as u32;
    ||| 0x09 <= v <= 0x0D
    ||| v == 0x20
    ||| v == 0x85
    ||| v == 0xA0
    ||| v == 0x1680
    ||| 0x2000 <= v <= 0x200A
    ||| v == 0x2028
    ||| v == 0x2029
    ||| v == 0x202F
    ||| v == 0x205F
    ||| v == 0x3000
}

/// Whether a character counts as white space.
pub fn whitespace(c: char) -> (r: bool)
    ensures
        r == is_space(c),
{
    let v: u32 = c as u32;
    (0x09 <= v && v <= 0x0D) || v == 0x20 || v == 0x85 || v == 0xA0 || v == 0x1680 || (0x2000 <= v
        && v <= 0x200A) || v == 0x2028 || v == 0x2029 || v == 0x202F || v == 0x205F || v == 0x3000
}

/// How many of the first characters are white space.
pub open spec fn space_prefix(s: Seq<char>) -> int
    decreases s.len(),
{
    if s.len() == 0 || !is_space(s[0]) {
        0
    } else {
        1 + space_prefix(s.drop_first())
    }
}

/// How many of the first characters are not white space.
pub open spec fn word_prefix(s: Seq<char>) -> int
    decreases s.len(),
{
    if s.len() == 0 || is_space(s[0]) {
        0
    } else {
        1 + word_prefix(s.drop_first())
    }
}

/// How many of the last characters are white space.
pub open spec fn space_suffix(s: Seq<char>) -> int
    decreases s.len(),
{
    if s.len() == 0 || !is_space(s.last()) {
        0
    } else {
        1 + space_suffix(s.drop_last())
    }
}

/// `s` without the white space at its start.
pub open spec fn trimmed_start(s: Seq<char>) -> Seq<char> {
    s.skip(space_prefix(s))
}

/// `s` without the white space at its end.
pub open spec fn trimmed_end(s: Seq<char>) -> Seq<char> {
    s.take(s.len() - space_suffix(s))
}

/// `s` without the white space at its ends.
pub open spec fn trimmed(s: Seq<char>) -> Seq<char> {
    trimmed_end(trimmed_start(s))
}

pub proof fn lemma_prefix_bounds(s: Seq<char>)
    ensures
        0 <= space_prefix(s) <= s.len(),
        0 <= word_prefix(s) <= s.len(),
        0 <= space_suffix(s) <= s.len(),
    decreases s.len(),
{
    if s.len() > 0 {
        lemma_prefix_bounds(s.drop_first());
        lemma_prefix_bounds(s.drop_last());
    }
}

/// The index of the first character from `from` on that is no white space.
pub fn skip_spaces(s: &[char], from: usize) -> (r: usize)
    requires
        from <= s@.len(),
    ensures
        r == from + space_prefix(s@.skip(from as int)),
        from <= r <= s@.len(),
{
    let mut i: usize = from;
    while i < s.len() && whitespace(s[i])
        invariant
            from <= i <= s@.len(),
            i + space_prefix(s@.skip(i as int)) == from + space_prefix(s@.skip(from as int)),
        decreases s@.len() - i,
    {
        assert(s@.skip(i as int).drop_first() =~= s@.skip(i + 1));
        i += 1;
    }
    i
}

/// The index of the first white space from `from` on.
pub fn skip_word(s: &[char], from: usize) -> (r: usize)
    requires
        from <= s@.len(),
    ensures
        r == from + word_prefix(s@.skip(from as int)),
        from <= r <= s@.len(),
{
    let mut i: usize = from;
    while i < s.len() && !whitespace(s[i])
        invariant
            from <= i <= s@.len(),
            i + word_prefix(s@.skip(i as int)) == from + word_prefix(s@.skip(from as int)),
        decreases s@.len() - i,
    {
        assert(s@.skip(i as int).drop_first() =~= s@.skip(i + 1));
        i += 1;
    }
    i
}

/// Removes the white space at both ends.
pub fn trim(s: &str) -> (r: String)
    ensures
        r@ == trimmed(s@),
{
    let c = chars(s);
    let start: usize = skip_spaces(c.as_slice(), 0);
    assert(c@.skip(0) =~= c@);
    let ghost rest = trimmed_start(s@);
    let mut end: usize = c.len();
    assert(c@.subrange(start as int, end as int) =~= rest);
    while end > start && whitespace(c[end - 1])
        invariant
            start <= end <= c@.len(),
            end - start - space_suffix(c@.subrange(start as int, end as int)) == rest.len()
                - space_suffix(rest),
        decreases end,
    {
        assert(c@.subrange(start as int, end as int).drop_last() =~= c@.subrange(
            start as int,
            end - 1,
        ));
        end -= 1;
    }
    proof {
        lemma_prefix_bounds(rest);
    }
    assert(c@.subrange(start as int, end as int) =~= trimmed_end(rest));
    from_chars(vstd::slice::slice_subrange(c.as_slice(), start, end))
}

/// Whether `s` begins with `prefix`.
pub open spec fn begins(s: Seq<char>, prefix: Seq<char>) -> bool {
    prefix.len() <= s.len() && s.take(prefix.len() as int) == prefix
}

/// Whether `s` ends with `suffix`.
pub open spec fn ends(s: Seq<char>, suffix: Seq<char>) -> bool {
    suffix.len() <= s.len() && s.skip(s.len() - suffix.len()) == suffix
}

/// Whether a text begins with another.
pub fn starts_with(s: &[char], prefix: &[char]) -> (r: bool)
    ensures
        r == begins(s@, prefix@),
{
    if prefix.len() > s.len() {
        return false;
    }
    let mut i: usize = 0;
    while i < prefix.len()
        invariant
            i <= prefix@.len() <= s@.len(),
            forall|k: int| 0 <= k < i ==> s@[k] == prefix@[k],
        decreases prefix@.len() - i,
    {
        if s[i] != prefix[i] {
            assert(s@.take(prefix@.len() as int)[i as int] != prefix@[i as int]);
            return false;
        }
        i += 1;
    }
    assert(s@.take(prefix@.len() as int) =~= prefix@);
    true
}

/// Whether a text ends with another.
pub fn ends_with(s: &[char], suffix: &[char]) -> (r: bool)
    ensures
        r == ends(s@, suffix@),
{
    if suffix.len() > s.len() {
        return false;
    }
    let base: usize = s.len() - suffix.len();
    let mut i: usize = 0;
    while i < suffix.len()
        invariant
            i <= suffix@.len() <= s@.len(),
            s@.len() <= usize::MAX,
            base == s@.len() - suffix@.len(),
            forall|k: int| 0 <= k < i ==> s@[base + k] == suffix@[k],
        decreases suffix@.len() - i,
    {
        if s[base + i] != suffix[i] {
            assert(s@.skip(base as int)[i as int] != suffix@[i as int]);
            return false;
        }
        i += 1;
    }
    assert(s@.skip(base as int) =~= suffix@);
    true
}

/// The value of a digit, or nothing where the base does not have it.
pub open spec fn digit_value(c: char, base: int) -> Option<int> {
    let v = c as int;
    let d = if 48 <= v <= 57 {
        v - 48
    } else if 97 <= v <= 122 {
        v - 87
    } else if 65 <= v <= 90 {
        v - 55
    } else {
        36
    };
    if d < base {
        Some(d)
    } else {
        None
    }
}

/// The number that a row of digits stands for, or nothing where one of them is
/// no digit of the base.
pub open spec fn number(s: Seq<char>, base: int) -> Option<int>
    decreases s.len(),
{
    if s.len() == 0 {
        Some(0)
    } else {
        match (number(s.drop_last(), base), digit_value(s.last(), base)) {
            (Some(high), Some(low)) => Some(high * base + low),
            _ => None,
        }
    }
}

/// The number that a text stands for: digits with an optional `+` before
/// them, not above `max`.
pub open spec fn unsigned(s: Seq<char>, base: int, max: int) -> Option<int> {
    let body = if s.len() > 0 && s[0] == '+' {
        s.skip(1)
    } else {
        s
    };
    if body.len() == 0 {
        None
    } else {
        match number(body, base) {
            Some(v) => if v <= max {
                Some(v)
            } else {
                None
            },
            None => None,
        }
    }
}

fn value_of(c: char, base: u64) -> (r: Option<u64>)
    requires
        base <= 36,
    ensures
        match r {
            Some(d) => digit_value(c, base as int) == Some(d as int) && d < base,
            None => digit_value(c, base as int) is None,
        },
{
    let v: u32 = c as u32;
    let d: u32 = if 48 <= v && v <= 57 {
        v - 48
    } else if 97 <= v && v <= 122 {
        v - 87
    } else if 65 <= v && v <= 90 {
        v - 55
    } else {
        36
    };
    if (d as u64) < base {
        Some(d as u64)
    } else {
        None
    }
}

proof fn lemma_number_prefix(s: Seq<char>, i: int, base: int)
    requires
        0 <= i <= s.len(),
        2 <= base,
    ensures
        number(s, base) is Some ==> number(s.take(i), base) is Some && 0 <= number(
            s.take(i),
            base,
        )->0 <= number(s, base)->0,
    decreases s.len() - i,
{
    if i == s.len() {
        assert(s.take(i) =~= s);
        lemma_number_nonnegative(s, base);
    } else {
        lemma_number_prefix(s, i + 1, base);
        assert(s.take(i + 1).drop_last() =~= s.take(i));
        lemma_number_nonnegative(s.take(i), base);
        if number(s, base) is Some {
            let low = number(s.take(i), base)->0;
            assert(low <= low * base) by (nonlinear_arith)
                requires
                    0 <= low,
                    2 <= base,
            ;
        }
    }
}

proof fn lemma_number_nonnegative(s: Seq<char>, base: int)
    requires
        2 <= base,
    ensures
        number(s, base) is Some ==> number(s, base)->0 >= 0,
    decreases s.len(),
{
    if s.len() > 0 {
        lemma_number_nonnegative(s.drop_last(), base);
        if number(s, base) is Some {
            let high = number(s.drop_last(), base)->0;
            assert(0 <= high * base) by (nonlinear_arith)
                requires
                    0 <= high,
                    2 <= base,
            ;
        }
    }
}

/// Reads an unsigned number.
pub fn parse_unsigned(s: &[char], base: u64, max: u64) -> (r: Option<u64>)
    requires
        2 <= base <= 36,
    ensures
        match r {
            Some(v) => unsigned(s@, base as int, max as int) == Some(v as int),
            None => unsigned(s@, base as int, max as int) is None,
        },
{
    let start: usize = if s.len() > 0 && s[0] == '+' {
        1
    } else {
        0
    };
    let ghost body = s@.skip(start as int);
    assert(start == 0 ==> body =~= s@);
    if start == s.len() {
        return None;
    }
    let mut value: u64 = 0;
    let mut i: usize = start;
    assert(body.take(0) =~= Seq::<char>::empty());
    while i < s.len()
        invariant
            2 <= base <= 36,
            start <= i <= s@.len(),
            body == s@.skip(start as int),
            body.len() > 0,
            unsigned(s@, base as int, max as int) == (match number(body, base as int) {
                Some(v) => if v <= max {
                    Some(v)
                } else {
                    None
                },
                None => None,
            }),
            number(body.take(i - start), base as int) == Some(value as int),
            value <= max,
        decreases s@.len() - i,
    {
        let ghost done = i - start;
        assert(body.take(done + 1).drop_last() =~= body.take(done));
        assert(body.take(done + 1).last() == s@[i as int]);
        proof {
            lemma_number_prefix(body, done + 1, base as int);
        }
        match value_of(s[i], base) {
            None => {
                return None;
            },
            Some(d) => {
                assert(0 <= value as int * base as int <= u64::MAX * 36) by (nonlinear_arith)
                    requires
                        0 <= value <= u64::MAX,
                        0 <= base <= 36,
                ;
                let next: u128 = value as u128 * base as u128 + d as u128;
                if next > max as u128 {
                    return None;
                }
                value = next as u64;
            },
        }
        i += 1;
    }
    assert(body.take(i - start) =~= body);
    Some(value)
}

/// The index of the first `c` in `s`, or its length where there is none.
pub open spec fn position(s: Seq<char>, c: char) -> int
    decreases s.len(),
{
    if s.len() == 0 || s[0] == c {
        0
    } else {
        1 + position(s.drop_first(), c)
    }
}

pub proof fn lemma_position(s: Seq<char>, c: char)
    ensures
        0 <= position(s, c) <= s.len(),
        position(s, c) < s.len() ==> s[position(s, c)] == c,
        forall|i: int| 0 <= i < position(s, c) ==> s[i] != c,
    decreases s.len(),
{
    if s.len() > 0 && s[0] != c {
        lemma_position(s.drop_first(), c);
        assert forall|i: int| 0 <= i < position(s, c) implies s[i] != c by {
            if i > 0 {
                assert(s.drop_first()[i - 1] == s[i]);
            }
        }
    }
}

/// The index of the first `c` from `from` on, or the length where there is
/// none.
pub fn find(s: &[char], from: usize, c: char) -> (r: usize)
    requires
        from <= s@.len(),
    ensures
        r == from + position(s@.skip(from as int), c),
        from <= r <= s@.len(),
{
    let mut i: usize = from;
    while i < s.len() && s[i] != c
        invariant
            from <= i <= s@.len(),
            i + position(s@.skip(i as int), c) == from + position(s@.skip(from as int), c),
        decreases s@.len() - i,
    {
        assert(s@.skip(i as int).drop_first() =~= s@.skip(i + 1));
        i += 1;
    }
    i
}

/// Adds a line.
pub fn push_line(out: &mut Vec<String>, line: String)
    ensures
        texts(final(out)@) == texts(old(out)@).push(line@),
{
    let ghost before = out@;
    out.push(line);
    assert(texts(out@) =~= texts(before).push(line@));
}

/// No lines.
pub fn no_lines() -> (r: Vec<String>)
    ensures
        texts(r@) == Seq::<Seq<char>>::empty(),
{
    let r: Vec<String> = Vec::new();
    assert(texts(r@) =~= Seq::<Seq<char>>::empty());
    r
}

/// Adds the lines of another list.
pub fn append_lines(out: &mut Vec<String>, more: Vec<String>)
    ensures
        texts(final(out)@) == texts(old(out)@) + texts(more@),
{
    let ghost before = out@;
    let mut i: usize = 0;
    assert(texts(before) =~= texts(before) + texts(more@.take(0)));
    while i < more.len()
        invariant
            i <= more@.len(),
            texts(out@) == texts(before) + texts(more@.take(i as int)),
        decreases more@.len() - i,
    {
        let ghost so_far = texts(out@);
        push_line(out, more[i].clone());
        i += 1;
        assert(texts(out@) =~= texts(before) + texts(more@.take(i as int)));
    }
    assert(more@.take(i as int) =~= more@);
}

/// `line` without the carriage return that belongs to its end.
pub open spec fn without_return(line: Seq<char>) -> Seq<char> {
    if line.len() > 0 && line.last() == '\r' {
        line.drop_last()
    } else {
        line
    }
}

/// The lines of a text: what stands between line feeds, without the carriage
/// return before a line feed. What follows the last line feed is a line unless
/// it is empty.
pub open spec fn lines_of(s: Seq<char>) -> Seq<Seq<char>>
    decreases s.len(),
{
    if s.len() == 0 {
        Seq::empty()
    } else {
        let end = position(s, '\n');
        if end < 0 || end >= s.len() {
            seq![s]
        } else {
            seq![without_return(s.take(end))] + lines_of(s.skip(end + 1))
        }
    }
}

/// Splits a text into lines.
pub fn split_lines(s: &str) -> (r: Vec<String>)
    ensures
        texts(r@) == lines_of(s@),
{
    let c = chars(s);
    let mut out = no_lines();
    let mut i: usize = 0;
    assert(c@.skip(0) =~= c@);
    assert(lines_of(s@) =~= texts(out@) + lines_of(c@.skip(0)));
    while i < c.len()
        invariant
            i <= c@.len(),
            lines_of(s@) == texts(out@) + lines_of(c@.skip(i as int)),
        decreases c@.len() - i,
    {
        let ghost rest = c@.skip(i as int);
        let end: usize = find(c.as_slice(), i, '\n');
        proof {
            lemma_position(rest, '\n');
        }
        let ended = end < c.len();
        let stop: usize = if ended && end > i && c[end - 1] == '\r' {
            end - 1
        } else {
            end
        };
        let line = vstd::slice::slice_subrange(c.as_slice(), i, stop);
        let next: usize = if ended {
            end + 1
        } else {
            end
        };
        if ended {
            assert(line@ =~= without_return(rest.take(end - i)));
            assert(c@.skip(end + 1) =~= rest.skip(end - i + 1));
        } else {
            assert(line@ =~= rest);
            assert(c@.skip(next as int) =~= Seq::<char>::empty());
        }
        let ghost before = texts(out@);
        push_line(&mut out, from_chars(line));
        assert(lines_of(s@) =~= texts(out@) + lines_of(c@.skip(next as int)));
        i = next;
    }
    assert(c@.skip(i as int) =~= Seq::<char>::empty());
    assert(texts(out@) =~= lines_of(s@));
    out
}

/// Whether `a` comes before `b` in the order of their characters.
pub open spec fn comes_before(a: Seq<char>, b: Seq<char>) -> bool
    decreases a.len(),
{
    if b.len() == 0 {
        false
    } else if a.len() == 0 {
        true
    } else if a[0] != b[0] {
        (a[0] as int) < (b[0] as int)
    } else {
        comes_before(a.drop_first(), b.drop_first())
    }
}

fn code_point(c: char) -> (r: u32)
    ensures
        r == c as int,
{
    c as u32
}

/// Whether a text comes before another in the order of their characters.
pub fn is_before(a: &str, b: &str) -> (r: bool)
    ensures
        r == comes_before(a@, b@),
{
    let x = chars(a);
    let y = chars(b);
    let mut i: usize = 0;
    assert(x@.skip(0) =~= x@);
    assert(y@.skip(0) =~= y@);
    while i < x.len() && i < y.len() && x[i] == y[i]
        invariant
            i <= x@.len(),
            i <= y@.len(),
            comes_before(x@.skip(i as int), y@.skip(i as int)) == comes_before(a@, b@),
        decreases x@.len() - i,
    {
        assert(x@.skip(i as int).drop_first() =~= x@.skip(i + 1));
        assert(y@.skip(i as int).drop_first() =~= y@.skip(i + 1));
        i += 1;
    }
    if i == y.len() {
        false
    } else if i == x.len() {
        true
    } else {
        code_point(x[i]) < code_point(y[i])
    }
}

/// Of two different texts, one comes before the other.
pub proof fn lemma_before_total(a: Seq<char>, b: Seq<char>)
    ensures
        a != b ==> comes_before(a, b) || comes_before(b, a),
        !comes_before(a, a),
        !(comes_before(a, b) && comes_before(b, a)),
    decreases a.len(),
{
    if a.len() > 0 && b.len() > 0 && a[0] == b[0] {
        lemma_before_total(a.drop_first(), b.drop_first());
        if a.drop_first() == b.drop_first() {
            assert(a =~= seq![a[0]] + a.drop_first());
            assert(b =~= seq![b[0]] + b.drop_first());
        }
    } else if a.len() == 0 && b.len() == 0 {
        assert(a =~= b);
    }
    if a.len() > 0 {
        lemma_before_total(a.drop_first(), a.drop_first());
    }
}

/// The order of texts is transitive.
pub proof fn lemma_before_transitive(a: Seq<char>, b: Seq<char>, c: Seq<char>)
    requires
        comes_before(a, b),
        comes_before(b, c),
    ensures
        comes_before(a, c),
    decreases a.len(),
{
    if a.len() > 0 && b.len() > 0 && c.len() > 0 && a[0] == b[0] && b[0] == c[0] {
        lemma_before_transitive(a.drop_first(), b.drop_first(), c.drop_first());
    }
}

} // verus!
