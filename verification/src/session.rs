//! What a debug session learns when the target stops.
use crate::bugchecks::BugcheckInfo;
use crate::text::{chars, parse_unsigned, unsigned};
use crate::types::VirtAddr;
use vstd::prelude::*;
use vstd::string::*;

verus! {

/// A stop of the target.
#[derive(Debug, Clone, Copy, PartialEq, Eq, Structural)]
pub struct StopEvent {
    pub exception_code: Option<u32>,
    pub program_counter: Option<u64>,
    pub is_bugcheck: bool,
    /// What the transport reported of the bugcheck, where it did.
    pub bugcheck: Option<BugcheckInfo>,
    /// Where the kernel of a rebooted target seems to be.
    pub target_kernel_base_hint: Option<VirtAddr>,
    /// Whether the stop was found to follow a reboot.
    pub target_reloaded: bool,
}

/// What became of a stop that a watchpoint may have caused.
#[derive(Debug)]
pub enum WatchpointStopAction {
    /// A watchpoint was hit; its condition may have failed to evaluate.
    Hit { id: u32, condition_error: Option<String> },
    /// A condition did not hold, and the target runs again.
    Resumed,
    NotBreakpoint,
}

/// What became of a stop that a code breakpoint may have caused.
#[derive(Debug)]
pub enum BreakpointStopAction {
    /// A breakpoint was hit; its condition may have failed to evaluate.
    Hit { id: u32, symbol: Option<String>, temporary: bool, condition_error: Option<String> },
    /// The hit was not for us, and the target runs again.
    Resumed,
    NotBreakpoint,
}

/// How to step over the current instruction.
#[derive(Debug, Clone, Copy, PartialEq, Eq, Structural)]
pub enum StepKind {
    /// It is no call: a single step does.
    Single,
    /// It is a call: run to where it returns.
    RunTo(VirtAddr),
}

/// What follows the last `c` of a text, or nothing where there is none.
pub open spec fn after_last(s: Seq<char>, c: char) -> Option<Seq<char>>
    decreases s.len(),
{
    if s.len() == 0 {
        None
    } else if s.last() == c {
        Some(Seq::empty())
    } else {
        match after_last(s.drop_last(), c) {
            Some(rest) => Some(rest.push(s.last())),
            None => None,
        }
    }
}

/// The processor that a backend thread id (`p1.<n>`, in hex, from 1) stands for,
/// counted from 0.
pub open spec fn processor_index(id: Seq<char>) -> Option<int> {
    match after_last(id, '.') {
        None => None,
        Some(digits) => match unsigned(digits, 16, u16::MAX as int) {
            Some(n) => if n == 0 {
                None
            } else {
                Some(n - 1)
            },
            None => None,
        },
    }
}

pub proof fn lemma_after_last(s: Seq<char>, c: char, at: int)
    requires
        0 <= at < s.len(),
        s[at] == c,
        forall|i: int| at < i < s.len() ==> s[i] != c,
    ensures
        after_last(s, c) == Some(s.skip(at + 1)),
    decreases s.len(),
{
    if at == s.len() - 1 {
        assert(s.skip(at + 1) =~= Seq::<char>::empty());
    } else {
        lemma_after_last(s.drop_last(), c, at);
        assert(s.drop_last().skip(at + 1).push(s.last()) =~= s.skip(at + 1));
    }
}

proof fn lemma_no_last(s: Seq<char>, c: char)
    requires
        forall|i: int| 0 <= i < s.len() ==> s[i] != c,
    ensures
        after_last(s, c) is None,
    decreases s.len(),
{
    if s.len() > 0 {
        lemma_no_last(s.drop_last(), c);
    }
}

/// The processor that a backend thread id stands for, counted from 0.
pub fn processor_index_from_backend_thread_id(id: &str) -> (r: Option<u16>)
    ensures
        match r {
            Some(n) => processor_index(id@) == Some(n as int),
            None => processor_index(id@) is None,
        },
{
    let c = chars(id);
    let mut at: usize = c.len();
    while at > 0 && c[at - 1] != '.'
        invariant
            at <= c@.len(),
            forall|i: int| at <= i < c@.len() ==> c@[i] != '.',
        decreases at,
    {
        at -= 1;
    }
    if at == 0 {
        proof {
            lemma_no_last(id@, '.');
        }
        return None;
    }
    proof {
        lemma_after_last(id@, '.', at - 1);
    }
    let digits = vstd::slice::slice_subrange(c.as_slice(), at, c.len());
    assert(digits@ =~= id@.skip(at as int));
    match parse_unsigned(digits, 16, 0xFFFF) {
        Some(n) => {
            if n == 0 {
                None
            } else {
                Some((n - 1) as u16)
            }
        },
        None => None,
    }
}

} // verus!
