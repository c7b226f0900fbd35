//! The registers that the kernel saves when it is entered.
use vstd::prelude::*;

verus! {

/// A decoded `_KTRAP_FRAME`. r12-r15 are absent by design: the kernel saves
/// them in the exception frame, not the trap frame.
#[derive(Debug, Clone, Copy, PartialEq, Eq, Structural)]
pub struct KtrapFrame {
    pub address: u64,
    pub rax: u64,
    pub rbx: u64,
    pub rcx: u64,
    pub rdx: u64,
    pub rsi: u64,
    pub rdi: u64,
    pub rbp: u64,
    pub rsp: u64,
    pub r8: u64,
    pub r9: u64,
    pub r10: u64,
    pub r11: u64,
    pub rip: u64,
    pub cs: u16,
    pub ss: u16,
    pub eflags: u32,
    pub error_code: u64,
    pub previous_mode: u8,
    pub previous_irql: u8,
}

} // verus!
