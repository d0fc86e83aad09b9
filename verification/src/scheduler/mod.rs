//! Cooperative round-robin scheduler for kernel tasks.
use vstd::prelude::*;
use std::collections::VecDeque;
use crate::least::{least_index, lemma_least_index, lemma_least_index_is};

verus! {

/// Size of a task stack in bytes.
pub const STACK_SIZE: usize = 64 * 1024;

/// Saved CPU context of a task.
#[derive(Clone, Copy, PartialEq, Eq, Structural, Debug)]
pub struct Context {
    pub rsp: usize,
}

/// Life-cycle state of a task.
#[derive(Clone, Copy, PartialEq, Eq, Structural, Debug)]
pub enum TaskState {
    Ready,
    Running,
    Dead,
}

/// A kernel task; `stack` is the address of its `STACK_SIZE`-byte stack.
#[derive(Clone, Copy, PartialEq, Eq, Structural, Debug)]
pub struct Task {
    pub id: usize,
    pub stack: usize,
    pub context: Context,
    pub entry: usize,
    pub state: TaskState,
}

impl Task {
    /// A ready task `id` that starts at `entry`, on the stack allocated at
    /// `stack`; its context is not set up yet.
    pub fn new(id: usize, entry: usize, stack: usize) -> (t: Self)
        ensures
            t == (Task { id, stack, context: Context { rsp: 0 }, entry, state: TaskState::Ready }),
    {
        Task { id, stack, context: Context { rsp: 0 }, entry, state: TaskState::Ready }
    }

    /// One past the highest address of the task's stack.
    pub fn stack_top(&self) -> (top: usize)
        requires
            self.stack + STACK_SIZE <= usize::MAX,
        ensures
            top == self.stack + STACK_SIZE,
    {
        self.stack + STACK_SIZE
    }

    /// Set up the initial context: the saved stack pointer is one word
    /// below the stack top, where the caller stores the entry point. Returns
    /// that address.
    pub fn init_context(&mut self) -> (rsp: usize)
        requires
            old(self).stack + STACK_SIZE <= usize::MAX,
        ensures
            rsp == old(self).stack + STACK_SIZE - vstd::layout::size_of::<usize>(),
            *final(self) == (Task { context: Context { rsp }, ..*old(self) }),
    {
        proof {
            broadcast use vstd::layout::group_layout_axioms;
        }
        let mut rsp = self.stack_top();
        rsp -= core::mem::size_of::<usize>();
        self.context.rsp = rsp;
        rsp
    }
}

/// What the caller does after [`switch_task`] chose a task: save the
/// current task's registers (if `save` names one, by its index) and resume
/// at `next_rsp`.
#[derive(Clone, Copy, PartialEq, Eq, Structural, Debug)]
pub struct SwitchPlan {
    pub save: Option<usize>,
    pub next: usize,
    pub next_rsp: usize,
}

/// The task list, the running task's id, and the id counter.
pub struct Scheduler {
    tasks: VecDeque<Task>,
    current: Option<usize>,
    counter: usize,
}

/// The task `k + 1` places after position `cur`, going round the list.
#[verifier::opaque]
pub open spec fn cyclic_after(tasks: Seq<Task>, cur: int, k: int) -> Task {
    tasks[(cur + 1 + k) % (tasks.len() as int)]
}

/// Position, in cyclic order after position `cur`, of the first task of
/// `tasks` that is not dead: `Some(k)` means `cyclic_after(tasks, cur, k)`.
pub open spec fn next_alive_offset(tasks: Seq<Task>, cur: int) -> Option<int> {
    least_index(alive_after(tasks, cur), 0, tasks.len() as int)
}

/// Whether the task `k + 1` places after position `cur` is not dead.
pub open spec fn alive_after(tasks: Seq<Task>, cur: int) -> spec_fn(int) -> bool {
    |k: int| cyclic_after(tasks, cur, k).state != TaskState::Dead
}

impl Scheduler {
    /// The tasks, in spawn order.
    pub closed spec fn tasks(&self) -> Seq<Task> {
        self.tasks@
    }

    /// The id of the running task, if one was started.
    pub closed spec fn current(&self) -> Option<usize> {
        self.current
    }

    /// Well-formedness: task `i` has id `i`, the counter is the number of
    /// tasks, and the running task exists.
    pub closed spec fn wf(&self) -> bool {
        &&& forall|i: int| 0 <= i < self.tasks@.len() ==> #[trigger] self.tasks@[i].id == i
        &&& self.counter == self.tasks@.len()
        &&& self.tasks@.len() <= usize::MAX / 2
        &&& self.current matches Some(c) ==> c < self.tasks@.len()
    }

    /// What well-formedness gives callers: task `i` has id `i`, the running
    /// task (if one was started) is one of the tasks, and there are at most
    /// `usize::MAX / 2` tasks.
    pub proof fn lemma_wf_shape(&self)
        requires
            self.wf(),
        ensures
            forall|i: int| 0 <= i < self.tasks().len() ==> #[trigger] self.tasks()[i].id == i,
            self.current() matches Some(c) ==> c < self.tasks().len(),
            self.tasks().len() <= usize::MAX / 2,
    {
    }

    /// A scheduler with no task.
    pub fn new() -> (s: Self)
        ensures
            s.wf(),
            s.tasks() == Seq::<Task>::empty(),
            s.current() is None,
    {
        Scheduler { tasks: VecDeque::new(), current: None, counter: 0 }
    }

    /// Number of tasks spawned.
    pub fn task_count(&self) -> (n: usize)
        ensures
            n == self.tasks().len(),
    {
        self.tasks.len()
    }

    /// The stack pointer saved for task `idx`.
    pub fn saved_rsp(&self, idx: usize) -> (rsp: usize)
        requires
            idx < self.tasks().len(),
        ensures
            rsp == self.tasks()[idx as int].context.rsp,
    {
        self.tasks[idx].context.rsp
    }

    /// Record the stack pointer saved for task `idx`.
    pub fn set_rsp(&mut self, idx: usize, rsp: usize)
        requires
            old(self).wf(),
            idx < old(self).tasks().len(),
        ensures
            final(self).wf(),
            final(self).current() == old(self).current(),
            final(self).tasks() == old(self).tasks().update(
                idx as int,
                Task { context: Context { rsp }, ..old(self).tasks()[idx as int] },
            ),
    {
        let mut t = self.tasks[idx];
        t.context.rsp = rsp;
        self.tasks.remove(idx);
        self.tasks.insert(idx, t);
        assert(self.tasks@ =~= old(self).tasks().update(
            idx as int,
            Task { context: Context { rsp }, ..old(self).tasks()[idx as int] },
        ));
    }

    /// Replace task `idx` by `t` (same id).
    fn put(&mut self, idx: usize, t: Task)
        requires
            old(self).wf(),
            idx < old(self).tasks().len(),
            t.id == idx,
        ensures
            final(self).wf(),
            final(self).current() == old(self).current(),
            final(self).tasks() == old(self).tasks().update(idx as int, t),
    {
        self.tasks.remove(idx);
        self.tasks.insert(idx, t);
        assert(self.tasks@ =~= old(self).tasks().update(idx as int, t));
    }
}

/// Number of machine words in a task stack.
pub open spec fn stack_word_count() -> int {
    STACK_SIZE as int / vstd::layout::size_of::<usize>() as int
}

/// The words a new task's stack starts with, lowest address first: all
/// zero but the top word, which holds the entry point, so that the first
/// switch to the task "returns" there.
pub open spec fn initial_stack_image(entry: usize) -> Seq<usize> {
    Seq::new(stack_word_count() as nat, |i: int| if i == stack_word_count() - 1 { entry } else { 0 })
}

/// The words a new task's stack starts with (see [`initial_stack_image`]).
pub fn initial_stack_words(entry: usize) -> (w: Vec<usize>)
    ensures
        w@ == initial_stack_image(entry),
        w@.len() * vstd::layout::size_of::<usize>() == STACK_SIZE,
{
    proof {
        broadcast use vstd::layout::group_layout_axioms;
    }
    let word = core::mem::size_of::<usize>();
    assert(word == 4 || word == 8);
    let n = STACK_SIZE / word;
    assert(n == 8192 || n == 16384) by {
        if word == 4 {
            assert(STACK_SIZE / 4 == 16384);
        } else {
            assert(STACK_SIZE / 8 == 8192);
        }
    }
    let mut w: Vec<usize> = Vec::new();
    let mut i: usize = 0;
    while i < n - 1
        invariant
            n == stack_word_count(),
            n == 8192 || n == 16384,
            i <= n - 1,
            w@ == Seq::new(i as nat, |j: int| 0usize),
        decreases n - 1 - i,
    {
        w.push(0);
        i += 1;
    }
    w.push(entry);
    assert(w@ =~= initial_stack_image(entry));
    w
}

/// A task just spawned: its id, its initial stack pointer, and the words
/// its stack starts with, lowest address first, which the caller stores at
/// the stack's address.
pub struct SpawnedTask {
    pub id: usize,
    pub rsp: usize,
    pub stack_words: Vec<usize>,
}

/// Spawn a task starting at `entry` on the `STACK_SIZE`-byte stack
/// allocated at `stack`. Returns the new task's id, its initial stack
/// pointer (one word below the stack top) and the stack's first contents:
/// zero everywhere but the word at that pointer, which holds `entry`.
pub fn spawn(sched: &mut Scheduler, entry: usize, stack: usize) -> (r: SpawnedTask)
    requires
        old(sched).wf(),
        old(sched).tasks().len() < usize::MAX / 2,
        stack + STACK_SIZE <= usize::MAX,
    ensures
        final(sched).wf(),
        r.id == old(sched).tasks().len(),
        r.rsp == stack + STACK_SIZE - vstd::layout::size_of::<usize>(),
        r.stack_words@ == initial_stack_image(entry),
        r.rsp == stack + (stack_word_count() - 1) * vstd::layout::size_of::<usize>(),
        final(sched).current() == old(sched).current(),
        final(sched).tasks() == old(sched).tasks().push(
            Task {
                id: r.id,
                stack,
                context: Context { rsp: r.rsp },
                entry,
                state: TaskState::Ready,
            },
        ),
{
    proof {
        broadcast use vstd::layout::group_layout_axioms;
    }
    let id = sched.counter;
    sched.counter = sched.counter + 1;
    let mut task = Task::new(id, entry, stack);
    let rsp = task.init_context();
    sched.tasks.push_back(task);
    let stack_words = initial_stack_words(entry);
    SpawnedTask { id, rsp, stack_words }
}

/// Id of the running task, 0 before any task was started.
pub fn current_task_id(sched: &Scheduler) -> (id: usize)
    ensures
        id == match sched.current() {
            Some(c) => c,
            None => 0,
        },
{
    match sched.current {
        Some(c) => c,
        None => 0,
    }
}

/// Tasks after switching away from position `cur` to position `next`:
/// the old task, if it was running, becomes ready, and the new one runs.
pub open spec fn tasks_after_switch(tasks: Seq<Task>, cur: int, next: int) -> Seq<Task> {
    let t1 = if tasks[cur].state == TaskState::Running {
        tasks.update(cur, Task { state: TaskState::Ready, ..tasks[cur] })
    } else {
        tasks
    };
    t1.update(next, Task { state: TaskState::Running, ..t1[next] })
}

impl Scheduler {
    /// Position of the task with id `id` (the running task's id always has
    /// one).
    fn position_of(&self, id: usize) -> (i: usize)
        requires
            self.wf(),
            id < self.tasks().len(),
        ensures
            i == id,
    {
        let len = self.tasks.len();
        let mut i: usize = 0;
        while i < len
            invariant
                len == self.tasks@.len(),
                i <= len,
                self.wf(),
                id < len,
                forall|j: int| 0 <= j < i ==> self.tasks@[j].id != id,
            decreases len - i,
        {
            if self.tasks[i].id == id {
                return i;
            }
            i += 1;
        }
        assert(self.tasks@[id as int].id == id);
        0
    }

    /// Offset, after position `ci`, of the first task that is not dead, in
    /// cyclic order.
    fn next_alive(&self, ci: usize) -> (k: Option<usize>)
        requires
            self.wf(),
            ci < self.tasks().len(),
        ensures
            k matches Some(m) ==> next_alive_offset(self.tasks(), ci as int) == Some(m as int)
                && m < self.tasks().len(),
            k is None ==> next_alive_offset(self.tasks(), ci as int) is None,
    {
        let len = self.tasks.len();
        let ghost tasks = self.tasks@;
        let mut k: usize = 0;
        while k < len
            invariant
                len == tasks.len(),
                self.tasks@ == tasks,
                len <= usize::MAX / 2,
                ci < len,
                k <= len,
                forall|j: int| 0 <= j < k ==> #[trigger] cyclic_after(tasks, ci as int, j).state == TaskState::Dead,
            decreases len - k,
        {
            let idx = (ci + 1 + k) % len;
            assert(cyclic_after(tasks, ci as int, k as int) == tasks[idx as int]) by {
                reveal(cyclic_after);
            }
            if self.tasks[idx].state != TaskState::Dead {
                proof {
                    lemma_least_index_is(alive_after(tasks, ci as int), 0, len as int, k as int);
                }
                return Some(k);
            }
            k += 1;
        }
        proof {
            lemma_least_index(alive_after(tasks, ci as int), 0, len as int);
        }
        None
    }
}

/// Pick the next task round-robin: the first task that is not dead after
/// the running one (task 0 before any task was started), in cyclic order.
/// Marks the old task ready (if it was running) and the new one running,
/// and makes it current. `None`, with nothing changed, when there is no
/// task or every task is dead.
pub fn switch_task(sched: &mut Scheduler) -> (plan: Option<SwitchPlan>)
    requires
        old(sched).wf(),
    ensures
        final(sched).wf(),
        ({
            let tasks = old(sched).tasks();
            let cur = match old(sched).current() {
                Some(c) => c as int,
                None => 0,
            };
            if tasks.len() == 0 || next_alive_offset(tasks, cur) is None {
                &&& plan is None
                &&& final(sched).tasks() == tasks
                &&& final(sched).current() == old(sched).current()
            } else {
                let next = (cur + 1 + next_alive_offset(tasks, cur).unwrap()) % (tasks.len() as int);
                &&& plan == Some(
                    SwitchPlan { save: Some(cur as usize), next: next as usize, next_rsp: tasks[next].context.rsp },
                )
                &&& final(sched).tasks() == tasks_after_switch(tasks, cur, next)
                &&& final(sched).current() == Some(next as usize)
            }
        }),
{
    let len = sched.tasks.len();
    if len == 0 {
        return None;
    }
    let cur_id = match sched.current {
        Some(c) => c,
        None => 0,
    };
    let ci = sched.position_of(cur_id);
    let k = match sched.next_alive(ci) {
        Some(k) => k,
        None => return None,
    };
    let next = (ci + 1 + k) % len;
    let cur_task = sched.tasks[ci];
    if cur_task.state == TaskState::Running {
        sched.put(ci, Task { state: TaskState::Ready, ..cur_task });
    }
    let next_task = sched.tasks[next];
    let next_id = next_task.id;
    let next_rsp = next_task.context.rsp;
    sched.put(next, Task { state: TaskState::Running, ..next_task });
    sched.current = Some(next_id);
    Some(SwitchPlan { save: Some(ci), next, next_rsp })
}

/// Start the first task: it becomes running and current, and its saved
/// stack pointer is returned. `None` when there is no task (the caller
/// halts).
pub fn run_scheduler(sched: &mut Scheduler) -> (rsp: Option<usize>)
    requires
        old(sched).wf(),
    ensures
        final(sched).wf(),
        old(sched).tasks().len() == 0 ==> rsp is None && final(sched).tasks() == old(sched).tasks()
            && final(sched).current() == old(sched).current(),
        old(sched).tasks().len() > 0 ==> {
            let t0 = old(sched).tasks()[0];
            &&& rsp == Some(t0.context.rsp)
            &&& final(sched).tasks() == old(sched).tasks().update(0, Task { state: TaskState::Running, ..t0 })
            &&& final(sched).current() == Some(t0.id)
        },
{
    if sched.tasks.len() == 0 {
        return None;
    }
    let first = sched.tasks[0];
    sched.put(0, Task { state: TaskState::Running, ..first });
    sched.current = Some(first.id);
    Some(first.context.rsp)
}

/// The task round-robin picks is not dead, and every task it passes over
/// on the way is.
pub proof fn lemma_round_robin_choice(tasks: Seq<Task>, cur: int)
    requires
        tasks.len() > 0,
        next_alive_offset(tasks, cur) is Some,
    ensures
        ({
            let k = next_alive_offset(tasks, cur).unwrap();
            &&& 0 <= k < tasks.len()
            &&& cyclic_after(tasks, cur, k).state != TaskState::Dead
            &&& forall|j: int| 0 <= j < k ==> #[trigger] cyclic_after(tasks, cur, j).state == TaskState::Dead
        }),
{
    lemma_least_index(alive_after(tasks, cur), 0, tasks.len() as int);
    let m = next_alive_offset(tasks, cur).unwrap();
    assert forall|j: int| 0 <= j < m implies #[trigger] cyclic_after(tasks, cur, j).state == TaskState::Dead by {
        assert(!alive_after(tasks, cur)(j));
    }
}

/// Round-robin finds a task exactly when some task is not dead.
pub proof fn lemma_round_robin_total(tasks: Seq<Task>, cur: int, live: int)
    requires
        0 <= cur < tasks.len(),
        0 <= live < tasks.len(),
        tasks[live].state != TaskState::Dead,
    ensures
        next_alive_offset(tasks, cur) is Some,
{
    let n = tasks.len() as int;
    let k = (live - cur - 1 + n) % n;
    assert(0 <= k < n);
    assert((cur + 1 + k) % n == live) by (nonlinear_arith)
        requires
            0 <= cur < n,
            0 <= live < n,
            k == (live - cur - 1 + n) % n,
    ;
    assert(cyclic_after(tasks, cur, k) == tasks[live]) by {
        reveal(cyclic_after);
    }
    assert(alive_after(tasks, cur)(k));
}

} // verus!
