//! x86_64 thread stacks: the frame a new thread's first context switch
//! pops. `switch` saves rbp, rbx, r12-r15 and returns; a new stack holds six
//! zero registers, then the address of the entry stub as return address,
//! then the real entry point, which the stub pops and calls.
use vstd::prelude::*;

verus! {

/// Size of a kernel thread stack: 64 KiB.
pub const STACK_SIZE: usize = 64 * 1024;

/// The default kernel thread stack size.
pub fn stack_size() -> (n: usize)
    ensures
        n == STACK_SIZE,
{
    STACK_SIZE
}

/// A stack frame under construction: the current stack pointer and the
/// words stored so far, as `(address, value)` in push order.
pub struct StackFrame {
    pub rsp: u64,
    pub words: Vec<(u64, u64)>,
}

/// Push `value`: the stack pointer moves down one 8-byte word (wrapping
/// around the address space) and the value goes there.
pub fn push_u64(frame: &mut StackFrame, value: u64)
    ensures
        final(frame).rsp == old(frame).rsp.wrapping_sub(8),
        final(frame).words@ == old(frame).words@.push((final(frame).rsp, value)),
{
    frame.rsp = frame.rsp.wrapping_sub(8);
    frame.words.push((frame.rsp, value));
}

/// Address `n` words below `top`, wrapping around the address space.
pub open spec fn words_below(top: u64, n: u64) -> u64 {
    ((top - 8 * n) % 0x1_0000_0000_0000_0000) as u64
}

/// The words a new thread's stack starts with, highest address first: the
/// entry point, the entry stub's address (the return address of the first
/// switch), then six zeroed registers (rbp, rbx, r12, r13, r14, r15).
pub open spec fn initial_words(entry_point: u64, entry_stub: u64, top: u64) -> Seq<(u64, u64)> {
    seq![
        (words_below(top, 1), entry_point),
        (words_below(top, 2), entry_stub),
        (words_below(top, 3), 0u64),
        (words_below(top, 4), 0u64),
        (words_below(top, 5), 0u64),
        (words_below(top, 6), 0u64),
        (words_below(top, 7), 0u64),
        (words_below(top, 8), 0u64),
    ]
}

/// Prepare a new thread stack whose top is `stack_top` (one past its
/// highest byte) so that the first switch to it enters `entry_stub`, which
/// calls `entry_point`. Returns the initial stack pointer and the words the
/// caller stores.
pub fn initial_stack(entry_point: u64, entry_stub: u64, stack_top: u64) -> (frame: StackFrame)
    ensures
        frame.rsp == words_below(stack_top, 8),
        frame.words@ == initial_words(entry_point, entry_stub, stack_top),
{
    let mut frame = StackFrame { rsp: stack_top, words: Vec::new() };
    push_u64(&mut frame, entry_point);
    push_u64(&mut frame, entry_stub);
    push_u64(&mut frame, 0);
    push_u64(&mut frame, 0);
    push_u64(&mut frame, 0);
    push_u64(&mut frame, 0);
    push_u64(&mut frame, 0);
    push_u64(&mut frame, 0);
    assert(frame.words@ =~= initial_words(entry_point, entry_stub, stack_top));
    frame
}

} // verus!
