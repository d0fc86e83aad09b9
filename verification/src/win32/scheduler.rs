//! Single-core round-robin scheduler for Windows threads: thread control
//! blocks live in a fixed table of slots, and the ready queue holds slot
//! numbers, oldest first, packed at the front of a fixed array.
use vstd::prelude::*;
use crate::least::{least_index, lemma_least_index, lemma_least_index_is};
use crate::win32::thread::{Thread, ThreadState};

verus! {

/// Number of thread slots.
pub const MAX_THREADS: usize = 16;
/// Capacity of the ready queue.
pub const MAX_READY: usize = 16;

/// The thread table, its usage map, the ready queue, the running slot, the
/// idle context's saved stack pointer and the next thread id.
pub struct Win32Scheduler {
    storage: [Thread; 16],
    used: [bool; 16],
    ready: [Option<usize>; 16],
    current: Option<usize>,
    idle_rsp: u64,
    next_tid: u64,
}

/// Whether entry `i` of `q` is occupied.
pub open spec fn occupied(q: Seq<Option<usize>>) -> spec_fn(int) -> bool {
    |i: int| q[i] is Some
}

/// Whether entry `i` of `q` is empty.
pub open spec fn vacant(q: Seq<Option<usize>>) -> spec_fn(int) -> bool {
    |i: int| q[i] is None
}

/// Whether slot `i` is unused.
pub open spec fn unused(used: Seq<bool>) -> spec_fn(int) -> bool {
    |i: int| !used[i]
}

/// The first `Some` entry's position, if any.
pub open spec fn first_some(q: Seq<Option<usize>>) -> Option<int> {
    least_index(occupied(q), 0, q.len() as int)
}

/// The first `None` entry's position, if any.
pub open spec fn first_none(q: Seq<Option<usize>>) -> Option<int> {
    least_index(vacant(q), 0, q.len() as int)
}

/// The first unused slot, if any.
pub open spec fn first_unused(used: Seq<bool>) -> Option<int> {
    least_index(unused(used), 0, used.len() as int)
}

/// Ready queue after removing its entry at `head`: the entries behind it
/// move one place forward and the last place becomes empty.
pub open spec fn queue_without(q: Seq<Option<usize>>, head: int) -> Seq<Option<usize>> {
    q.take(head) + q.skip(head + 1) + seq![None::<usize>]
}

/// A thread with every field zero, the content of a slot never written.
pub open spec fn blank_thread() -> Thread {
    Thread { tid: 0, pid: 0, entry_point: 0, stack_base: 0, stack_limit: 0, rsp: 0, state: ThreadState::Ready }
}

/// What the caller does after [`schedule`] chose a thread: save the
/// current stack pointer into thread slot `save` (the idle context when
/// `None`) and resume at `new_rsp`.
#[derive(Clone, Copy, PartialEq, Eq, Structural, Debug)]
pub struct SchedulePlan {
    pub save: Option<usize>,
    pub new_rsp: u64,
}

impl Win32Scheduler {
    /// Thread control blocks by slot.
    pub closed spec fn threads(&self) -> Seq<Thread> {
        self.storage@
    }

    /// Which slots are taken.
    pub closed spec fn slots_used(&self) -> Seq<bool> {
        self.used@
    }

    /// The ready queue array.
    pub closed spec fn ready_queue(&self) -> Seq<Option<usize>> {
        self.ready@
    }

    /// The running slot, if a thread was scheduled.
    pub closed spec fn current_slot(&self) -> Option<usize> {
        self.current
    }

    /// Saved stack pointer of the idle context.
    pub closed spec fn idle_stack(&self) -> u64 {
        self.idle_rsp
    }

    /// The id the next thread gets.
    pub closed spec fn next_thread_id(&self) -> u64 {
        self.next_tid
    }

    /// A scheduler with every slot free, an empty queue, nothing running,
    /// and thread ids starting at 1.
    pub fn new() -> (s: Self)
        ensures
            s.threads() == Seq::new(16, |i: int| blank_thread()),
            s.slots_used() == Seq::new(16, |i: int| false),
            s.ready_queue() == Seq::new(16, |i: int| None::<usize>),
            s.current_slot() is None,
            s.idle_stack() == 0,
            s.next_thread_id() == 1,
    {
        let blank = Thread::new(0, 0, 0);
        let s = Win32Scheduler {
            storage: [blank; 16],
            used: [false; 16],
            ready: [None; 16],
            current: None,
            idle_rsp: 0,
            next_tid: 1,
        };
        assert(s.storage@ =~= Seq::new(16, |i: int| blank_thread()));
        assert(s.used@ =~= Seq::new(16, |i: int| false));
        assert(s.ready@ =~= Seq::new(16, |i: int| None::<usize>));
        s
    }
}

/// The first free thread slot, if any.
pub fn alloc_thread_slot(s: &Win32Scheduler) -> (slot: Option<usize>)
    ensures
        slot matches Some(i) ==> first_unused(s.slots_used()) == Some(i as int) && i < MAX_THREADS,
        slot is None ==> first_unused(s.slots_used()) is None,
{
    let mut i: usize = 0;
    while i < MAX_THREADS
        invariant
            i <= MAX_THREADS,
            s.used@.len() == MAX_THREADS,
            forall|j: int| 0 <= j < i ==> s.used@[j],
        decreases MAX_THREADS - i,
    {
        if !s.used[i] {
            proof {
                lemma_least_index_is(unused(s.used@), 0, MAX_THREADS as int, i as int);
            }
            return Some(i);
        }
        i += 1;
    }
    proof {
        lemma_least_index(unused(s.used@), 0, MAX_THREADS as int);
    }
    None
}

/// Add `slot` at the first empty place of the ready queue; `None` (queue
/// unchanged) when the queue is full.
pub fn enqueue_thread(s: &mut Win32Scheduler, slot: usize) -> (r: Option<()>)
    ensures
        match first_none(old(s).ready_queue()) {
            Some(i) => r is Some && final(s).ready_queue() == old(s).ready_queue().update(i, Some(slot)),
            None => r is None && final(s).ready_queue() == old(s).ready_queue(),
        },
        final(s).threads() == old(s).threads(),
        final(s).slots_used() == old(s).slots_used(),
        final(s).current_slot() == old(s).current_slot(),
        final(s).idle_stack() == old(s).idle_stack(),
        final(s).next_thread_id() == old(s).next_thread_id(),
{
    let mut i: usize = 0;
    while i < MAX_READY
        invariant
            i <= MAX_READY,
            s.ready@.len() == MAX_READY,
            s.ready@ == old(s).ready@,
            *s == *old(s),
            forall|j: int| 0 <= j < i ==> s.ready@[j] is Some,
        decreases MAX_READY - i,
    {
        if s.ready[i].is_none() {
            proof {
                lemma_least_index_is(vacant(s.ready@), 0, MAX_READY as int, i as int);
            }
            s.ready[i] = Some(slot);
            return Some(());
        }
        i += 1;
    }
    proof {
        lemma_least_index(vacant(s.ready@), 0, MAX_READY as int);
    }
    None
}

/// Position of the first occupied place of the ready queue.
fn first_some_position(s: &Win32Scheduler) -> (h: Option<usize>)
    ensures
        h matches Some(i) ==> first_some(s.ready_queue()) == Some(i as int) && i < MAX_READY,
        h is None ==> first_some(s.ready_queue()) is None,
{
    let mut head: usize = 0;
    while head < MAX_READY
        invariant
            head <= MAX_READY,
            s.ready@.len() == MAX_READY,
            forall|j: int| 0 <= j < head ==> s.ready@[j] is None,
        decreases MAX_READY - head,
    {
        if s.ready[head].is_some() {
            proof {
                lemma_least_index_is(occupied(s.ready@), 0, MAX_READY as int, head as int);
            }
            return Some(head);
        }
        head += 1;
    }
    proof {
        lemma_least_index(occupied(s.ready@), 0, MAX_READY as int);
    }
    None
}

/// Take the oldest slot off the ready queue (its first `Some` entry); the
/// entries behind it move one place forward. `None` when the queue is
/// empty.
pub fn dequeue_thread(s: &mut Win32Scheduler) -> (r: Option<usize>)
    ensures
        match first_some(old(s).ready_queue()) {
            Some(h) => r == old(s).ready_queue()[h] && final(s).ready_queue() == queue_without(
                old(s).ready_queue(),
                h,
            ),
            None => r is None && final(s).ready_queue() == old(s).ready_queue(),
        },
        final(s).threads() == old(s).threads(),
        final(s).slots_used() == old(s).slots_used(),
        final(s).current_slot() == old(s).current_slot(),
        final(s).idle_stack() == old(s).idle_stack(),
        final(s).next_thread_id() == old(s).next_thread_id(),
{
    let ghost q = s.ready@;
    let head = match first_some_position(s) {
        Some(h) => h,
        None => return None,
    };
    let slot = s.ready[head].take();
    let mut i: usize = head;
    while i < MAX_READY - 1
        invariant
            head <= i <= MAX_READY - 1,
            s.ready@.len() == MAX_READY,
            s.storage == old(s).storage,
            s.used == old(s).used,
            s.current == old(s).current,
            s.idle_rsp == old(s).idle_rsp,
            s.next_tid == old(s).next_tid,
            forall|j: int| 0 <= j < head ==> s.ready@[j] == q[j],
            forall|j: int| head <= j < i ==> s.ready@[j] == q[j + 1],
            forall|j: int| i < j < MAX_READY ==> s.ready@[j] == q[j],
        decreases MAX_READY - i,
    {
        s.ready[i] = s.ready[i + 1];
        i += 1;
    }
    s.ready[MAX_READY - 1] = None;
    assert(s.ready@ =~= queue_without(q, head as int));
    slot
}

/// Ready queue after [`enqueue_thread`] of `slot`.
pub open spec fn queue_with(q: Seq<Option<usize>>, slot: usize) -> Seq<Option<usize>> {
    match first_none(q) {
        Some(i) => q.update(i, Some(slot)),
        None => q,
    }
}

impl Win32Scheduler {
    /// Well-formedness: the running slot is a real slot.
    pub closed spec fn wf(&self) -> bool {
        self.current matches Some(c) ==> c < MAX_THREADS
    }

    /// The control block in `slot`.
    fn put_thread(&mut self, slot: usize, t: Thread)
        requires
            slot < MAX_THREADS,
        ensures
            final(self).threads() == old(self).threads().update(slot as int, t),
            final(self).slots_used() == old(self).slots_used(),
            final(self).ready_queue() == old(self).ready_queue(),
            final(self).current_slot() == old(self).current_slot(),
            final(self).idle_stack() == old(self).idle_stack(),
            final(self).next_thread_id() == old(self).next_thread_id(),
    {
        self.storage[slot] = t;
    }
}

impl Win32Scheduler {
    /// Where a context switch saves the stack pointer it leaves: the
    /// `rsp` of thread slot `save`, or the idle context's when `None`.
    /// Whatever is stored through the reference stays there.
    pub fn saved_rsp_mut(&mut self, save: Option<usize>) -> (r: &mut u64)
        requires
            save matches Some(i) ==> i < MAX_THREADS,
        ensures
            *r == match save {
                Some(i) => old(self).threads()[i as int].rsp,
                None => old(self).idle_stack(),
            },
            final(self).threads() == match save {
                Some(i) => old(self).threads().update(
                    i as int,
                    Thread { rsp: *final(r), ..old(self).threads()[i as int] },
                ),
                None => old(self).threads(),
            },
            final(self).idle_stack() == match save {
                Some(_) => old(self).idle_stack(),
                None => *final(r),
            },
            final(self).slots_used() == old(self).slots_used(),
            final(self).ready_queue() == old(self).ready_queue(),
            final(self).current_slot() == old(self).current_slot(),
            final(self).next_thread_id() == old(self).next_thread_id(),
    {
        match save {
            Some(i) => &mut self.storage[i].rsp,
            None => &mut self.idle_rsp,
        }
    }
}

/// Create a ready thread of process `pid` starting at `entry_point`, in the
/// first free slot, on the stack allocated at `stack_base` whose prepared
/// stack pointer is `initial_rsp`; it gets the next thread id and joins the
/// ready queue. `None` when no slot is free, or when the queue is full (the
/// slot then stays taken).
pub fn create_thread(s: &mut Win32Scheduler, pid: u64, entry_point: u64, stack_base: u64, initial_rsp: u64) -> (slot: Option<usize>)
    requires
        old(s).wf(),
    ensures
        final(s).wf(),
        final(s).current_slot() == old(s).current_slot(),
        final(s).idle_stack() == old(s).idle_stack(),
        match first_unused(old(s).slots_used()) {
            None => slot is None && *final(s) == *old(s),
            Some(i) => {
                let t = Thread {
                    tid: old(s).next_thread_id(),
                    pid,
                    entry_point,
                    stack_base,
                    stack_limit: stack_base,
                    rsp: initial_rsp,
                    state: ThreadState::Ready,
                };
                &&& final(s).threads() == old(s).threads().update(i, t)
                &&& final(s).slots_used() == old(s).slots_used().update(i, true)
                &&& final(s).next_thread_id() == old(s).next_thread_id().wrapping_add(1)
                &&& final(s).ready_queue() == queue_with(old(s).ready_queue(), i as usize)
                &&& slot == if first_none(old(s).ready_queue()) is Some {
                    Some(i as usize)
                } else {
                    None
                }
            },
        },
{
    let slot = match alloc_thread_slot(s) {
        Some(slot) => slot,
        None => return None,
    };
    let tid = s.next_tid;
    s.next_tid = s.next_tid.wrapping_add(1);
    let mut thread = Thread::new(tid, pid, entry_point);
    thread.stack_base = stack_base;
    thread.stack_limit = stack_base;
    thread.rsp = initial_rsp;
    thread.state = ThreadState::Ready;
    s.put_thread(slot, thread);
    s.used[slot] = true;
    match enqueue_thread(s, slot) {
        Some(()) => Some(slot),
        None => None,
    }
}

/// The control block in `slot`, `None` when `slot` is not a slot number.
pub fn thread(s: &Win32Scheduler, slot: usize) -> (t: Option<&Thread>)
    ensures
        slot < MAX_THREADS ==> t == Some(&s.threads()[slot as int]),
        slot >= MAX_THREADS ==> t is None,
{
    if slot >= MAX_THREADS {
        return None;
    }
    Some(&s.storage[slot])
}

/// The state [`schedule`] leaves, given the ready queue `q1` without the
/// chosen slot `n`: `n` runs, and the previously running thread, unless it
/// exited, becomes ready again at the back of the queue.
pub open spec fn after_schedule(
    threads: Seq<Thread>,
    q1: Seq<Option<usize>>,
    current: Option<usize>,
    n: int,
) -> (Seq<Thread>, Seq<Option<usize>>) {
    let th1 = threads.update(n, Thread { state: ThreadState::Running, ..threads[n] });
    match current {
        None => (th1, q1),
        Some(c) => if th1[c as int].state != ThreadState::Exited {
            (th1.update(c as int, Thread { state: ThreadState::Ready, ..th1[c as int] }), queue_with(q1, c))
        } else {
            (th1, q1)
        },
    }
}

/// Switch to the oldest ready thread: it runs and becomes current; the
/// thread that was running, unless it exited, goes back to the ready queue.
/// Returns where to save the current stack pointer and where to resume;
/// `None` (nothing to switch to) when the queue is empty.
pub fn schedule(s: &mut Win32Scheduler) -> (plan: Option<SchedulePlan>)
    requires
        old(s).wf(),
    ensures
        final(s).wf(),
        final(s).slots_used() == old(s).slots_used(),
        final(s).idle_stack() == old(s).idle_stack(),
        final(s).next_thread_id() == old(s).next_thread_id(),
        match first_some(old(s).ready_queue()) {
            None => plan is None && final(s).threads() == old(s).threads()
                && final(s).ready_queue() == old(s).ready_queue()
                && final(s).current_slot() == old(s).current_slot(),
            Some(h) => {
                let n = old(s).ready_queue()[h].unwrap();
                let q1 = queue_without(old(s).ready_queue(), h);
                if n >= MAX_THREADS {
                    &&& plan is None
                    &&& final(s).ready_queue() == q1
                    &&& final(s).threads() == old(s).threads()
                    &&& final(s).current_slot() == old(s).current_slot()
                } else {
                    let after = after_schedule(old(s).threads(), q1, old(s).current_slot(), n as int);
                    &&& plan == Some(
                        SchedulePlan { save: old(s).current_slot(), new_rsp: old(s).threads()[n as int].rsp },
                    )
                    &&& final(s).threads() == after.0
                    &&& final(s).ready_queue() == after.1
                    &&& final(s).current_slot() == Some(n)
                }
            },
        },
{
    let next_slot = match dequeue_thread(s) {
        Some(n) => n,
        None => return None,
    };
    if next_slot >= MAX_THREADS {
        return None;
    }
    let next = s.storage[next_slot];
    let new_rsp = next.rsp;
    s.put_thread(next_slot, Thread { state: ThreadState::Running, ..next });
    let current_slot = s.current;
    match current_slot {
        Some(slot) => {
            let cur = s.storage[slot];
            if cur.state != ThreadState::Exited {
                s.put_thread(slot, Thread { state: ThreadState::Ready, ..cur });
                let _ = enqueue_thread(s, slot);
            }
        },
        None => {},
    }
    s.current = Some(next_slot);
    Some(SchedulePlan { save: current_slot, new_rsp })
}

/// The running thread has returned from its entry point: mark it exited
/// and switch to the next ready thread (see [`schedule`]).
pub fn thread_exit(s: &mut Win32Scheduler) -> (plan: Option<SchedulePlan>)
    requires
        old(s).wf(),
    ensures
        final(s).wf(),
        ({
            let threads = match old(s).current_slot() {
                Some(c) => old(s).threads().update(
                    c as int,
                    Thread { state: ThreadState::Exited, ..old(s).threads()[c as int] },
                ),
                None => old(s).threads(),
            };
            let q = old(s).ready_queue();
            match first_some(q) {
                None => plan is None && final(s).threads() == threads && final(s).ready_queue() == q
                    && final(s).current_slot() == old(s).current_slot(),
                Some(h) => {
                    let n = q[h].unwrap();
                    if n >= MAX_THREADS {
                        plan is None && final(s).threads() == threads && final(s).ready_queue()
                            == queue_without(q, h) && final(s).current_slot() == old(s).current_slot()
                    } else {
                        let after = after_schedule(threads, queue_without(q, h), old(s).current_slot(), n as int);
                        &&& plan == Some(SchedulePlan { save: old(s).current_slot(), new_rsp: threads[n as int].rsp })
                        &&& final(s).threads() == after.0
                        &&& final(s).ready_queue() == after.1
                        &&& final(s).current_slot() == Some(n)
                    }
                },
            }
        }),
{
    match s.current {
        Some(slot) => {
            let cur = s.storage[slot];
            s.put_thread(slot, Thread { state: ThreadState::Exited, ..cur });
        },
        None => {},
    }
    schedule(s)
}

/// Whether the ready queue array `q` holds exactly the slots `items`,
/// oldest first, packed at the front.
pub open spec fn packed_queue(q: Seq<Option<usize>>, items: Seq<usize>) -> bool {
    &&& q.len() == MAX_READY
    &&& items.len() <= MAX_READY
    &&& forall|i: int| 0 <= i < items.len() ==> #[trigger] q[i] == Some(items[i])
    &&& forall|i: int| items.len() <= i < MAX_READY ==> #[trigger] q[i] is None
}

/// The ready queue is first-in first-out: enqueueing onto a packed queue
/// that has room puts the slot at the back, and dequeueing from a
/// non-empty packed queue takes the front and keeps the rest packed.
pub proof fn lemma_ready_queue_fifo(q: Seq<Option<usize>>, items: Seq<usize>, slot: usize)
    requires
        packed_queue(q, items),
    ensures
        items.len() < MAX_READY ==> packed_queue(queue_with(q, slot), items.push(slot)),
        items.len() > 0 ==> first_some(q) == Some(0int) && q[0] == Some(items[0]) && packed_queue(
            queue_without(q, 0),
            items.drop_first(),
        ),
        items.len() == 0 ==> first_some(q) is None,
{
    if items.len() < MAX_READY {
        let n = items.len() as int;
        assert(q[n] is None);
        assert forall|j: int| 0 <= j < n implies !#[trigger] vacant(q)(j) by {
            assert(q[j] == Some(items[j]));
        }
        lemma_least_index_is(vacant(q), 0, q.len() as int, n);
        let q2 = queue_with(q, slot);
        let it2 = items.push(slot);
        assert forall|i: int| 0 <= i < it2.len() implies #[trigger] q2[i] == Some(it2[i]) by {
            if i < n {
                assert(q[i] == Some(items[i]));
            }
        }
    }
    if items.len() > 0 {
        assert(q[0] == Some(items[0]));
        lemma_least_index_is(occupied(q), 0, q.len() as int, 0);
        let q2 = queue_without(q, 0);
        let it2 = items.drop_first();
        assert forall|i: int| 0 <= i < it2.len() implies #[trigger] q2[i] == Some(it2[i]) by {
            assert(q[i + 1] == Some(items[i + 1]));
        }
        assert forall|i: int| it2.len() <= i < MAX_READY implies #[trigger] q2[i] is None by {
            if i < MAX_READY - 1 {
                assert(q[i + 1] is None);
            }
        }
    } else {
        lemma_least_index(occupied(q), 0, q.len() as int);
        if first_some(q) is Some {
            let m = first_some(q).unwrap();
            assert(q[m] is None);
        }
    }
}

} // verus!
