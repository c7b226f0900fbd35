//! The commands of the interactive surface.
pub mod breakpoint_laws;
pub mod breakpoints;
pub mod change_laws;
pub mod exec;
pub mod line_laws;
pub mod meta;
pub mod run_laws;
pub mod run_to_laws;
pub mod symbol_laws;
pub mod symbols;
pub mod table;
pub mod table_laws;

use crate::error::Error;
use crate::text::{
    chars, from_chars, join, joined, lemma_prefix_bounds, no_lines, push_line, skip_spaces, skip_word,
    text, texts, trim, trimmed, trimmed_start, word_prefix,
};
use vstd::prelude::*;
use vstd::string::*;

verus! {

/// A command as typed: its name, its arguments, and all that follows the name.
#[derive(Debug)]
pub struct CommandInvocation {
    pub name: String,
    pub argv: Vec<String>,
    pub raw_tail: String,
}

impl CommandInvocation {
    /// An argument, where there is one.
    pub fn arg(&self, index: usize) -> (r: Option<&str>)
        ensures
            match r {
                Some(arg) => index < self.argv@.len() && arg@ == self.argv@[index as int]@,
                None => index >= self.argv@.len(),
            },
    {
        if index < self.argv.len() {
            Some(self.argv[index].as_str())
        } else {
            None
        }
    }

    /// The arguments from one on, with spaces between them.
    pub open spec fn joined_from(&self, start: int) -> Seq<char> {
        joined(
            if start <= self.argv@.len() {
                texts(self.argv@.skip(start))
            } else {
                Seq::empty()
            },
            " "@,
        )
    }

    /// The arguments from one on, with spaces between them.
    pub fn join_args(&self, start: usize) -> (r: String)
        ensures
            r@ == self.joined_from(start as int),
    {
        if start > self.argv.len() {
            assert(joined(Seq::<Seq<char>>::empty(), " "@) =~= ""@) by {
                reveal_strlit("");
            }
            return text("");
        }
        let tail = vstd::slice::slice_subrange(self.argv.as_slice(), start, self.argv.len());
        assert(tail@ =~= self.argv@.skip(start as int));
        join(tail, " ")
    }
}

/// What a command answers.
#[derive(Debug)]
pub enum CommandReply {
    /// The help of a command.
    Help(&'static str),
    /// Something to print, followed by a line end.
    Said(String),
    /// Lines to print.
    Lines(Vec<String>),
    /// Something to report as an error.
    Complaint(String),
    /// An error to report.
    Failed(Error),
}

impl CommandReply {
    /// Whether this is the help of a command.
    pub open spec fn helps(self, command: Seq<char>) -> bool {
        self matches CommandReply::Help(name) && name@ == command
    }

    /// Whether this prints a text.
    pub open spec fn says(self, words: Seq<char>) -> bool {
        self matches CommandReply::Said(s) && s@ == words
    }

    /// Whether this prints these lines.
    pub open spec fn lists(self, lines: Seq<Seq<char>>) -> bool {
        self matches CommandReply::Lines(list) && texts(list@) == lines
    }

    /// Whether this reports a text as an error.
    pub open spec fn complains(self, words: Seq<char>) -> bool {
        self matches CommandReply::Complaint(s) && s@ == words
    }
}

/// Whether evaluating a text may give `r`.
pub open spec fn may_eval<T, F: FnOnce(&str) -> Result<T, Error>>(
    eval: F,
    source: Seq<char>,
    r: Result<T, Error>,
) -> bool {
    exists|s: &str| #[trigger] call_ensures(eval, (s,), r) && s@ == source
}

/// How what follows a command's name is taken.
#[derive(Debug, Clone, Copy, PartialEq, Eq, Structural)]
pub enum CommandStyle {
    /// As arguments with white space between them.
    Words,
    /// As one expression.
    ExpressionTail,
}

/// A command line, cut into the command's name and what follows it.
#[derive(Debug)]
pub struct ParsedCommand {
    pub name: String,
    pub tail: String,
}

/// Cuts a command line into the command's name and what follows it; nothing for
/// an empty line.
pub fn parse_command(line: &str) -> (r: Option<ParsedCommand>)
    ensures
        match r {
            None => trimmed(line@).len() == 0,
            Some(parsed) => {
                let rest = trimmed(line@);
                &&& rest.len() > 0
                &&& parsed.name@ == rest.take(word_prefix(rest))
                &&& parsed.tail@ == trimmed_start(rest.skip(word_prefix(rest)))
            },
        },
{
    let rest = trim(line);
    let c = chars(rest.as_str());
    if c.len() == 0 {
        return None;
    }
    let end: usize = skip_word(c.as_slice(), 0);
    assert(c@.skip(0) =~= c@);
    let begin: usize = skip_spaces(c.as_slice(), end);
    let name = vstd::slice::slice_subrange(c.as_slice(), 0, end);
    let tail = vstd::slice::slice_subrange(c.as_slice(), begin, c.len());
    assert(name@ =~= rest@.take(word_prefix(rest@)));
    assert(tail@ =~= trimmed_start(rest@.skip(word_prefix(rest@))));
    Some(ParsedCommand { name: from_chars(name), tail: from_chars(tail) })
}

/// The words of a text.
pub open spec fn words(s: Seq<char>) -> Seq<Seq<char>>
    decreases s.len(),
{
    let rest = trimmed_start(s);
    if rest.len() == 0 || rest.len() > s.len() || word_prefix(rest) <= 0 || word_prefix(rest)
        > rest.len() {
        Seq::empty()
    } else {
        seq![rest.take(word_prefix(rest))] + words(rest.skip(word_prefix(rest)))
    }
}

proof fn lemma_word_not_empty(s: Seq<char>)
    ensures
        trimmed_start(s).len() <= s.len(),
        trimmed_start(s).len() > 0 ==> 0 < word_prefix(trimmed_start(s)) <= trimmed_start(s).len(),
    decreases s.len(),
{
    lemma_prefix_bounds(s);
    lemma_prefix_bounds(trimmed_start(s));
    if s.len() > 0 {
        lemma_prefix_bounds(s.drop_first());
        lemma_word_not_empty(s.drop_first());
        if crate::text::is_space(s[0]) {
            assert(trimmed_start(s) =~= trimmed_start(s.drop_first()));
        } else {
            assert(trimmed_start(s) =~= s);
            lemma_prefix_bounds(s.drop_first());
        }
    }
}

fn split_words(s: &str) -> (r: Vec<String>)
    ensures
        texts(r@) == words(s@),
{
    let c = chars(s);
    let mut out = no_lines();
    let mut i: usize = 0;
    assert(c@.skip(0) =~= c@);
    assert(words(s@) =~= texts(out@) + words(c@.skip(0)));
    loop
        invariant_except_break
            i <= c@.len(),
            words(s@) == texts(out@) + words(c@.skip(i as int)),
        ensures
            words(s@) == texts(out@),
        decreases c@.len() - i,
    {
        let ghost here = c@.skip(i as int);
        proof {
            lemma_word_not_empty(here);
        }
        let begin: usize = skip_spaces(c.as_slice(), i);
        let ghost rest = trimmed_start(here);
        assert(rest =~= c@.skip(begin as int));
        if begin == c.len() {
            assert(words(here) =~= Seq::<Seq<char>>::empty());
            assert(texts(out@) + words(here) =~= texts(out@));
            break;
        }
        let end: usize = skip_word(c.as_slice(), begin);
        let word = vstd::slice::slice_subrange(c.as_slice(), begin, end);
        assert(word@ =~= rest.take(word_prefix(rest)));
        assert(rest.skip(word_prefix(rest)) =~= c@.skip(end as int));
        let ghost before = texts(out@);
        push_line(&mut out, from_chars(word));
        assert(before + words(here) =~= texts(out@) + words(c@.skip(end as int)));
        i = end;
    }
    out
}

impl ParsedCommand {
    /// The invocation of the command in a style.
    pub fn invocation(&self, style: CommandStyle) -> (r: CommandInvocation)
        ensures
            r.name@ == self.name@,
            r.raw_tail@ == self.tail@,
            texts(r.argv@) == (match style {
                CommandStyle::Words => words(self.tail@),
                CommandStyle::ExpressionTail => Seq::<Seq<char>>::empty(),
            }),
    {
        let argv = match style {
            CommandStyle::Words => split_words(self.tail.as_str()),
            CommandStyle::ExpressionTail => no_lines(),
        };
        CommandInvocation { name: self.name.clone(), argv, raw_tail: self.tail.clone() }
    }
}

} // verus!
