//! How command lines are cut into words.
use crate::repl::commands::{parse_command, words, CommandInvocation, CommandStyle, ParsedCommand};
use crate::text::{is_space, space_prefix, texts, trimmed, trimmed_start, word_prefix};
use crate::text_laws::{law_spaces_at_the_ends, law_trimmed, law_word_ends_at_white_space};
use vstd::prelude::*;

verus! {

/// Whether a text is white space from `a` to `b`.
pub open spec fn blank(s: Seq<char>, a: int, b: int) -> bool {
    forall|i: int| a <= i < b ==> is_space(#[trigger] s[i])
}

/// A command line is cut at its white space: its name is the first word, and what
/// follows is all the rest without the white space around it. Only a line of white space
/// is none.
pub proof fn law_command_line(line: &str, r: Option<ParsedCommand>)
    requires
        call_ensures(parse_command, (line,), r),
    ensures
        r is None <==> blank(line@, 0, line@.len() as int),
        r matches Some(command) ==> exists|a: int, b: int, c: int, d: int|
            {
                &&& 0 <= a < b <= c <= d <= line@.len()
                &&& blank(line@, 0, a) && blank(line@, b, c) && blank(line@, d, line@.len() as int)
                &&& command.name@ == #[trigger] line@.subrange(a, b)
                &&& forall|i: int| a <= i < b ==> !is_space(#[trigger] line@[i])
                &&& command.tail@ == #[trigger] line@.subrange(c, d)
                &&& c < d ==> b < c && !is_space(line@[c]) && !is_space(line@[d - 1])
            },
{
    let s = line@;
    law_trimmed(s);
    let (a, d) = choose|a: int, b: int|
        {
            &&& 0 <= a <= b <= s.len()
            &&& trimmed(s) == #[trigger] s.subrange(a, b)
            &&& forall|i: int| 0 <= i < a || b <= i < s.len() ==> is_space(#[trigger] s[i])
            &&& a < b ==> !is_space(s[a]) && !is_space(s[b - 1])
        };
    let rest = s.subrange(a, d);
    law_word_ends_at_white_space(rest);
    let word = word_prefix(rest);
    let after = rest.skip(word);
    law_spaces_at_the_ends(after);
    let gap = space_prefix(after);
    if a < d {
        assert(rest[0] == s[a]);
        assert(word > 0) by {
            if word == 0 {
                assert(is_space(rest[0]));
            }
        }
        assert(!is_space(s[a]));
        let b = a + word;
        let c = b + gap;
        assert(rest.take(word) =~= s.subrange(a, b));
        assert(trimmed_start(after) =~= s.subrange(c, d));
        assert forall|i: int| a <= i < b implies !is_space(#[trigger] s[i]) by {
            assert(rest[i - a] == s[i]);
        }
        assert forall|i: int| b <= i < c implies is_space(#[trigger] s[i]) by {
            assert(after[i - b] == s[i]);
        }
        if c < d {
            assert(after[gap] == s[c]);
            assert(rest[word] == s[b]);
            assert(after[0] == s[b]);
        }
        assert(!blank(s, 0, s.len() as int));
    } else {
        assert(rest.len() == 0);
    }
}

/// The words of a text that begins with white space are those of the rest.
pub proof fn law_words_skip_white_space(c: char, rest: Seq<char>)
    requires
        is_space(c),
    ensures
        words(seq![c] + rest) == words(rest),
{
    let s = seq![c] + rest;
    assert(s.drop_first() =~= rest);
    law_spaces_at_the_ends(rest);
    assert(trimmed_start(s) =~= trimmed_start(rest));
    law_word_ends_at_white_space(trimmed_start(rest));
}

/// A text that begins with a word has that word and the words behind it: a word is
/// characters that are no white space, up to white space or the end.
pub proof fn law_words_begin_with_the_first(word: Seq<char>, rest: Seq<char>)
    requires
        word.len() > 0,
        forall|i: int| 0 <= i < word.len() ==> !is_space(#[trigger] word[i]),
        rest.len() > 0 ==> is_space(rest[0]),
    ensures
        words(word + rest) == seq![word] + words(rest),
{
    let s = word + rest;
    assert(s[0] == word[0]);
    law_spaces_at_the_ends(s);
    assert(trimmed_start(s) =~= s);
    law_word_ends_at_white_space(s);
    let end = word_prefix(s);
    if end < word.len() {
        assert(s[end] == word[end]);
    }
    if end > word.len() {
        assert(s[word.len() as int] == rest[0]);
    }
    assert(s.take(end) =~= word);
    assert(s.skip(end) =~= rest);
}

/// An empty text has no words.
pub proof fn law_nothing_has_no_words()
    ensures
        words(Seq::<char>::empty()).len() == 0,
{
}

/// What follows the name is taken as it stands, and as words unless the command takes
/// one expression.
pub proof fn law_invocation(command: ParsedCommand, style: CommandStyle, r: CommandInvocation)
    requires
        call_ensures(ParsedCommand::invocation, (&command, style), r),
    ensures
        r.name@ == command.name@,
        r.raw_tail@ == command.tail@,
        style == CommandStyle::Words ==> texts(r.argv@) == words(command.tail@),
        style == CommandStyle::ExpressionTail ==> r.argv@.len() == 0,
{
    assert(texts(r.argv@).len() == r.argv@.len());
}

} // verus!
