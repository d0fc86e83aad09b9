//! AArch64 thread stacks.
use vstd::prelude::*;

verus! {

/// Size of a kernel thread stack: 64 KiB.
pub const STACK_SIZE: usize = 64 * 1024;

/// The default kernel thread stack size.
pub fn stack_size() -> (n: usize)
    ensures
        n == STACK_SIZE,
{
    STACK_SIZE
}

/// Prepare a new thread stack: on AArch64 nothing is pushed, so the
/// initial stack pointer is the stack top itself.
pub fn initial_stack(_entry_point: u64, stack_top: u64) -> (rsp: u64)
    ensures
        rsp == stack_top,
{
    stack_top
}

} // verus!
