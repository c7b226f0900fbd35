//! What is known of a bugcheck of the target.
use crate::trapframe::KtrapFrame;
use vstd::prelude::*;

verus! {

/// How many slots `nt!KiBugCheckData` has: the code and four parameters.
pub const BUGCHECK_DATA_SLOTS: usize = 5;

/// A bugcheck as the transport reports it: its code and four parameters.
#[derive(Debug, Clone, Copy, PartialEq, Eq, Structural)]
pub struct BugcheckInfo {
    pub code: u32,
    pub p1: u64,
    pub p2: u64,
    pub p3: u64,
    pub p4: u64,
}

/// A parameter of a bugcheck and its documented meaning, which may be empty.
#[derive(Debug)]
pub struct BugcheckArg {
    pub value: u64,
    pub description: String,
}

/// The instruction that a bugcheck blames.
#[derive(Debug)]
pub struct BugcheckFault {
    pub ip: u64,
    /// Its symbol, or its address in hex where it has none.
    pub symbol: String,
    pub driver: Option<String>,
}

/// A trap frame that a parameter of a bugcheck points at.
#[derive(Debug)]
pub struct BugcheckTrapFrame {
    pub address: u64,
    pub frame: Option<KtrapFrame>,
    pub rip_symbol: Option<String>,
    /// Why the frame could not be decoded.
    pub error: Option<String>,
}

/// A decoded bugcheck.
#[derive(Debug)]
pub struct BugcheckAnalysis {
    pub code: u32,
    pub name: String,
    pub description: Option<String>,
    pub driver: Option<String>,
    /// Where the data comes from.
    pub source: Option<String>,
    pub args: Vec<BugcheckArg>,
    pub fault: Option<BugcheckFault>,
    pub trap_frames: Vec<BugcheckTrapFrame>,
}

/// Why `nt!KiBugCheckData` could not be made sense of.
#[derive(Debug)]
pub struct CurrentBugcheckFailure {
    pub address: u64,
    pub reason: String,
    pub slots: Option<[u64; 5]>,
    pub dereferenced_slots: Option<[u64; 5]>,
}

/// What the target's memory says of the current bugcheck.
#[derive(Debug)]
pub enum CurrentBugcheckResolution {
    Resolved(BugcheckAnalysis),
    SymbolUnavailable,
    Unresolved(CurrentBugcheckFailure),
}

} // verus!
