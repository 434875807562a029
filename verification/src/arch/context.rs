use vstd::prelude::*;

verus! {

pub const STACK_ALIGNMENT: usize = 16;

/// The callee-saved registers of a suspended kernel thread.
#[derive(Copy, Clone, PartialEq, Eq, Structural, Debug)]
pub struct TaskContext {
    pub rsp: u64,
    pub rbx: u64,
    pub rbp: u64,
    pub r12: u64,
    pub r13: u64,
    pub r14: u64,
    pub r15: u64,
}

impl TaskContext {
    /// A context with every register zero.
    pub fn empty() -> (c: Self)
        ensures
            c == (TaskContext { rsp: 0, rbx: 0, rbp: 0, r12: 0, r13: 0, r14: 0, r15: 0 }),
    {
        TaskContext { rsp: 0, rbx: 0, rbp: 0, r12: 0, r13: 0, r14: 0, r15: 0 }
    }
}

/// Where a new kernel thread's first frame goes on a stack that spans
/// `[stack_base, stack_base + stack_len)`: the end rounded down to 16 bytes, the
/// exit trap's address one word below it, the entry point's address two words
/// below it, and the stack pointer at the entry slot.
pub open spec fn spec_thread_frame(stack_base: int, stack_len: int) -> (int, int, int) {
    let end = stack_base + stack_len;
    let aligned = end - end % 16;
    (aligned - 8, aligned - 16, aligned - 16)
}

/// The exit-trap slot, the entry slot and the initial stack pointer of a new kernel thread.
pub fn kernel_thread_frame(stack_base: usize, stack_len: usize) -> (r: (usize, usize, usize))
    requires
        stack_base + stack_len <= usize::MAX,
        stack_len >= 32,
    ensures
        r.0 == spec_thread_frame(stack_base as int, stack_len as int).0,
        r.1 == spec_thread_frame(stack_base as int, stack_len as int).1,
        r.2 == spec_thread_frame(stack_base as int, stack_len as int).2,
        stack_base <= r.1 && r.0 + 8 <= stack_base + stack_len,
        r.2 % 16 == 0,
{
    let stack_end = stack_base + stack_len;
    let aligned_end = stack_end - stack_end % STACK_ALIGNMENT;
    let exit_slot = aligned_end - 8;
    let entry_slot = exit_slot - 8;
    (exit_slot, entry_slot, entry_slot)
}

/// The context a new kernel thread starts from: only its stack pointer is set.
pub fn initialize_kernel_thread(context: &mut TaskContext, stack_base: usize, stack_len: usize)
    requires
        stack_base + stack_len <= usize::MAX,
        stack_len >= 32,
    ensures
        *final(context) == (TaskContext {
            rsp: spec_thread_frame(stack_base as int, stack_len as int).2 as u64,
            rbx: 0,
            rbp: 0,
            r12: 0,
            r13: 0,
            r14: 0,
            r15: 0,
        }),
{
    let (_exit_slot, _entry_slot, rsp) = kernel_thread_frame(stack_base, stack_len);
    *context = TaskContext { rsp: rsp as u64, ..TaskContext::empty() };
}

} // verus!
