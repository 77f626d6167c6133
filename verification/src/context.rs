//! The register context saved for a suspended execution unit.

use vstd::prelude::*;

verus! {

/// Snapshot of the stack pointer and the callee-saved registers of one unit.
///
/// The fields stand in the order in which the switch routine saves and
/// restores them; `win_nt_tib` is the pair of thread-information-block
/// pointers that some platforms keep per thread.
#[derive(Clone, Copy, Debug, PartialEq, Eq, Structural)]
pub struct ThreadContext {
    pub rsp: u64,
    pub r15: u64,
    pub r14: u64,
    pub r13: u64,
    pub r12: u64,
    pub rbx: u64,
    pub rbp: u64,
    pub win_nt_tib: u128,
}

impl ThreadContext {
    /// The context of a unit that has never run: every register is zero.
    pub open spec fn zeroed() -> ThreadContext {
        ThreadContext { rsp: 0, r15: 0, r14: 0, r13: 0, r12: 0, rbx: 0, rbp: 0, win_nt_tib: 0 }
    }

    /// This context with its stack pointer replaced by `rsp`.
    pub open spec fn with_rsp(self, rsp: u64) -> ThreadContext {
        ThreadContext { rsp, ..self }
    }
}

impl Default for ThreadContext {
    fn default() -> (ctx: ThreadContext)
        ensures
            ctx == ThreadContext::zeroed(),
    {
        ThreadContext { rsp: 0, r15: 0, r14: 0, r13: 0, r12: 0, rbx: 0, rbp: 0, win_nt_tib: 0 }
    }
}

} // verus!
