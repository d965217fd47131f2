use vstd::prelude::*;

verus! {

/// Callee-saved registers of a task, restored when the task is switched in.
#[derive(Copy, Clone, Debug)]
pub struct TaskContext {
    /// Return address after task switching.
    pub ra: usize,
    /// Stack pointer.
    pub sp: usize,
    /// Registers `s0`..`s11`, callee saved.
    pub s: [usize; 12],
}

impl TaskContext {
    /// Whether every saved `s` register is zero.
    pub open spec fn saved_regs_zero(&self) -> bool {
        forall|i: int| 0 <= i < 12 ==> #[trigger] self.s[i] == 0
    }

    /// A context with every register zero.
    pub fn zero_init() -> (ctx: Self)
        ensures
            ctx.ra == 0,
            ctx.sp == 0,
            ctx.saved_regs_zero(),
    {
        Self { ra: 0, sp: 0, s: [0; 12] }
    }

    /// A context that, when switched to, resumes at `trap_return_entry`
    /// (the code that returns from the kernel to user space) on the kernel
    /// stack whose top is `kstack_ptr`.
    pub fn trap_return_ctx(kstack_ptr: usize, trap_return_entry: usize) -> (ctx: Self)
        ensures
            ctx.ra == trap_return_entry,
            ctx.sp == kstack_ptr,
            ctx.saved_regs_zero(),
    {
        Self { ra: trap_return_entry, sp: kstack_ptr, s: [0; 12] }
    }
}

} // verus!
