//! The house style: how addresses, symbols and labels look on a terminal.
use crate::text::{begins, chars, dec, decimal, from_chars, hex_padded, hexadecimal_padded, starts_with, text};
use owo_colors::OwoColorize;
use vstd::prelude::*;
use vstd::string::*;

verus! {

/// `s` between two terminal control sequences.
pub open spec fn painted(on: Seq<char>, s: Seq<char>, off: Seq<char>) -> Seq<char> {
    on + s + off
}

/// `s` in bright black.
pub open spec fn spec_bright_black(s: Seq<char>) -> Seq<char> {
    painted("\x1b[90m"@, s, "\x1b[39m"@)
}

/// `s` in bright white.
pub open spec fn spec_bright_white(s: Seq<char>) -> Seq<char> {
    painted("\x1b[97m"@, s, "\x1b[39m"@)
}

/// `s` in red.
pub open spec fn spec_red(s: Seq<char>) -> Seq<char> {
    painted("\x1b[31m"@, s, "\x1b[39m"@)
}

/// `s` in green.
pub open spec fn spec_green(s: Seq<char>) -> Seq<char> {
    painted("\x1b[32m"@, s, "\x1b[39m"@)
}

/// `s` in yellow.
pub open spec fn spec_yellow(s: Seq<char>) -> Seq<char> {
    painted("\x1b[33m"@, s, "\x1b[39m"@)
}

/// `s` in bold.
pub open spec fn spec_bold(s: Seq<char>) -> Seq<char> {
    painted("\x1b[1m"@, s, "\x1b[0m"@)
}

/// `OwoColorize::bright_black`, printed: the text between the control
/// sequences for the bright black foreground and for the default foreground.
#[verifier::external_body]
pub(crate) fn bright_black(s: &str) -> (r: String)
    ensures
        r@ == spec_bright_black(s@),
{
    s.bright_black().to_string()
}

/// `OwoColorize::bright_white`, printed: the text between the control
/// sequences for the bright white foreground and for the default foreground.
#[verifier::external_body]
pub(crate) fn bright_white(s: &str) -> (r: String)
    ensures
        r@ == spec_bright_white(s@),
{
    s.bright_white().to_string()
}

/// `OwoColorize::red`, printed: the text between the control sequences for the
/// red foreground and for the default foreground.
#[verifier::external_body]
pub(crate) fn red(s: &str) -> (r: String)
    ensures
        r@ == spec_red(s@),
{
    s.red().to_string()
}

/// `OwoColorize::green`, printed: the text between the control sequences for
/// the green foreground and for the default foreground.
#[verifier::external_body]
pub(crate) fn green(s: &str) -> (r: String)
    ensures
        r@ == spec_green(s@),
{
    s.green().to_string()
}

/// `OwoColorize::yellow`, printed: the text between the control sequences for
/// the yellow foreground and for the default foreground.
#[verifier::external_body]
pub(crate) fn yellow(s: &str) -> (r: String)
    ensures
        r@ == spec_yellow(s@),
{
    s.yellow().to_string()
}

/// `OwoColorize::bold`, printed: the text between the control sequences for
/// bold and for no attribute.
#[verifier::external_body]
pub(crate) fn bold(s: &str) -> (r: String)
    ensures
        r@ == spec_bold(s@),
{
    s.bold().to_string()
}

/// An address: sixteen hexadecimal digits.
pub open spec fn spec_addr(v: u64) -> Seq<char> {
    spec_bold(spec_bright_white(hex_padded(v as nat, 16)))
}

/// An address: sixteen hexadecimal digits.
pub fn addr(v: u64) -> (r: String)
    ensures
        r@ == spec_addr(v),
{
    bold(bright_white(hexadecimal_padded(v, 16).as_str()).as_str())
}

/// An address that may be unknown.
pub open spec fn spec_addr_opt(v: Option<u64>) -> Seq<char> {
    match v {
        Some(v) => spec_addr(v),
        None => spec_muted("unknown"@),
    }
}

/// An address that may be unknown.
pub fn addr_opt(v: Option<u64>) -> (r: String)
    ensures
        r@ == spec_addr_opt(v),
{
    match v {
        Some(v) => addr(v),
        None => muted("unknown"),
    }
}

/// Text of minor interest.
pub open spec fn spec_muted(s: Seq<char>) -> Seq<char> {
    spec_bright_black(s)
}

/// Text of minor interest.
pub fn muted(s: &str) -> (r: String)
    ensures
        r@ == spec_muted(s@),
{
    bright_black(s)
}

/// A heading.
pub open spec fn spec_label(s: Seq<char>) -> Seq<char> {
    spec_bold(s)
}

/// A heading.
pub fn label(s: &str) -> (r: String)
    ensures
        r@ == spec_label(s@),
{
    bold(s)
}

/// Where the offset of a symbol begins (`+0x..`), or its length.
pub open spec fn offset_start(s: Seq<char>) -> int
    decreases s.len(),
{
    if s.len() == 0 || begins(s, "+0x"@) {
        0
    } else {
        1 + offset_start(s.drop_first())
    }
}

/// A symbol: its name in green, its offset muted.
pub open spec fn spec_symbol(s: Seq<char>) -> Seq<char> {
    let at = offset_start(s);
    if at < s.len() {
        spec_green(s.take(at)) + spec_muted(s.skip(at))
    } else {
        spec_green(s)
    }
}

/// A symbol: its name in green, its offset muted.
pub fn symbol(s: &str) -> (r: String)
    ensures
        r@ == spec_symbol(s@),
{
    let c = chars(s);
    let mark = chars("+0x");
    let mut at: usize = 0;
    assert(c@.skip(0) =~= c@);
    while at < c.len() && !starts_with(vstd::slice::slice_subrange(c.as_slice(), at, c.len()), mark.as_slice())
        invariant
            at <= c@.len(),
            c@ == s@,
            mark@ == "+0x"@,
            at + offset_start(c@.skip(at as int)) == offset_start(s@),
        decreases c@.len() - at,
    {
        assert(c@.subrange(at as int, c@.len() as int) =~= c@.skip(at as int));
        assert(c@.skip(at as int).drop_first() =~= c@.skip(at + 1));
        at += 1;
    }
    assert(c@.subrange(at as int, c@.len() as int) =~= c@.skip(at as int));
    if at < c.len() {
        let name = from_chars(vstd::slice::slice_subrange(c.as_slice(), 0, at));
        let offset = from_chars(vstd::slice::slice_subrange(c.as_slice(), at, c.len()));
        assert(name@ =~= s@.take(at as int));
        green(name.as_str()).concat(muted(offset.as_str()).as_str())
    } else {
        green(s)
    }
}

/// A breakpoint id.
pub open spec fn spec_bp_id(id: u32) -> Seq<char> {
    spec_bold("#"@ + dec(id as nat))
}

/// A breakpoint id.
pub fn bp_id(id: u32) -> (r: String)
    ensures
        r@ == spec_bp_id(id),
{
    bold(text("#").concat(decimal(id as u64).as_str()).as_str())
}

/// The id of an execution context.
pub open spec fn spec_thread_id(id: Seq<char>) -> Seq<char> {
    spec_bold(id)
}

/// The id of an execution context.
pub fn thread_id(id: &str) -> (r: String)
    ensures
        r@ == spec_thread_id(id@),
{
    bold(id)
}

/// The badge that opens an event banner.
pub open spec fn spec_badge(s: Seq<char>) -> Seq<char> {
    spec_bold(spec_red(" "@ + s + " "@))
}

/// The badge that opens an event banner.
pub fn badge(s: &str) -> (r: String)
    ensures
        r@ == spec_badge(s@),
{
    bold(red(text(" ").concat(s).concat(" ").as_str()).as_str())
}

/// The plate that follows the badge of an event banner.
pub open spec fn spec_plate(s: Seq<char>) -> Seq<char> {
    spec_bold(s)
}

/// The plate that follows the badge of an event banner.
pub fn plate(s: &str) -> (r: String)
    ensures
        r@ == spec_plate(s@),
{
    bold(s)
}

} // verus!
