use vibeos::scheduler::{current_task_id, initial_stack_words, run_scheduler, spawn, switch_task, Scheduler, SwitchPlan, TaskState, Task, STACK_SIZE};
use vibeos::win32::scheduler::{
    alloc_thread_slot, create_thread, dequeue_thread, enqueue_thread, schedule, thread, thread_exit,
    Win32Scheduler, MAX_THREADS,
};
use vibeos::win32::thread::{Thread, ThreadState};

#[test]
fn tasks_get_consecutive_ids_and_stack_slots() {
    let mut s = Scheduler::new();
    assert_eq!(current_task_id(&s), 0);
    let a = spawn(&mut s, 0x1000, 0x10_0000);
    let b = spawn(&mut s, 0x2000, 0x20_0000);
    assert_eq!((a.id, b.id), (0, 1));
    assert_eq!(a.rsp, 0x10_0000 + STACK_SIZE - 8);
    assert_eq!(b.rsp, 0x20_0000 + STACK_SIZE - 8);
    assert_eq!(s.task_count(), 2);
}

#[test]
fn spawned_stack_is_zero_but_the_entry_at_its_pointer() {
    let mut s = Scheduler::new();
    let t = spawn(&mut s, 0xABCD, 0x10_0000);
    let word = std::mem::size_of::<usize>();
    assert_eq!(t.stack_words.len() * word, STACK_SIZE);
    let top = t.stack_words.len() - 1;
    assert_eq!(0x10_0000 + top * word, t.rsp);
    assert_eq!(t.stack_words[top], 0xABCD);
    assert!(t.stack_words[..top].iter().all(|&w| w == 0));
    assert_eq!(initial_stack_words(7), t.stack_words[..top].iter().copied().chain([7]).collect::<Vec<_>>());
}

#[test]
fn task_stack_top_and_context() {
    let mut t = Task::new(3, 0x400, 0x8000);
    assert_eq!(t.state, TaskState::Ready);
    assert_eq!(t.stack_top(), 0x8000 + STACK_SIZE);
    assert_eq!(t.init_context(), 0x8000 + STACK_SIZE - 8);
    assert_eq!(t.context.rsp, 0x8000 + STACK_SIZE - 8);
}

#[test]
fn round_robin_cycles_through_tasks() {
    let mut s = Scheduler::new();
    assert_eq!(run_scheduler(&mut s), None);
    assert_eq!(switch_task(&mut s), None);
    let r0 = spawn(&mut s, 1, 0x10_0000).rsp;
    let r1 = spawn(&mut s, 2, 0x20_0000).rsp;
    let r2 = spawn(&mut s, 3, 0x30_0000).rsp;
    assert_eq!(run_scheduler(&mut s), Some(r0));
    assert_eq!(current_task_id(&s), 0);
    assert_eq!(switch_task(&mut s), Some(SwitchPlan { save: Some(0), next: 1, next_rsp: r1 }));
    assert_eq!(current_task_id(&s), 1);
    assert_eq!(switch_task(&mut s), Some(SwitchPlan { save: Some(1), next: 2, next_rsp: r2 }));
    s.set_rsp(2, 1234);
    assert_eq!(switch_task(&mut s), Some(SwitchPlan { save: Some(2), next: 0, next_rsp: r0 }));
    assert_eq!(switch_task(&mut s), Some(SwitchPlan { save: Some(0), next: 1, next_rsp: r1 }));
    assert_eq!(switch_task(&mut s), Some(SwitchPlan { save: Some(1), next: 2, next_rsp: 1234 }));
}

#[test]
fn first_switch_without_start_leaves_task_zero() {
    let mut s = Scheduler::new();
    let _r0 = spawn(&mut s, 1, 0x10_0000).rsp;
    let r1 = spawn(&mut s, 2, 0x20_0000).rsp;
    assert_eq!(switch_task(&mut s), Some(SwitchPlan { save: Some(0), next: 1, next_rsp: r1 }));
}

#[test]
fn single_task_switches_to_itself() {
    let mut s = Scheduler::new();
    let r0 = spawn(&mut s, 1, 0x10_0000).rsp;
    run_scheduler(&mut s);
    assert_eq!(switch_task(&mut s), Some(SwitchPlan { save: Some(0), next: 0, next_rsp: r0 }));
}

#[test]
fn threads_fill_slots_and_queue_in_order() {
    let mut s = Win32Scheduler::new();
    assert_eq!(alloc_thread_slot(&s), Some(0));
    assert_eq!(create_thread(&mut s, 7, 0x401000, 0x9000, 0x9fc0), Some(0));
    assert_eq!(create_thread(&mut s, 7, 0x402000, 0xa000, 0xafc0), Some(1));
    let t0: Thread = *thread(&s, 0).unwrap();
    assert_eq!((t0.tid, t0.pid, t0.entry_point, t0.stack_base, t0.stack_limit, t0.rsp), (1, 7, 0x401000, 0x9000, 0x9000, 0x9fc0));
    assert_eq!(t0.state, ThreadState::Ready);
    assert_eq!(thread(&s, 1).unwrap().tid, 2);
    assert!(thread(&s, MAX_THREADS).is_none());
    let p = schedule(&mut s).unwrap();
    assert_eq!((p.save, p.new_rsp), (None, 0x9fc0));
    assert_eq!(thread(&s, 0).unwrap().state, ThreadState::Running);
    *s.saved_rsp_mut(Some(0)) = 0x9f00;
    let p = schedule(&mut s).unwrap();
    assert_eq!((p.save, p.new_rsp), (Some(0), 0xafc0));
    assert_eq!(thread(&s, 0).unwrap().state, ThreadState::Ready);
    assert_eq!(thread(&s, 1).unwrap().state, ThreadState::Running);
    let p = schedule(&mut s).unwrap();
    assert_eq!((p.save, p.new_rsp), (Some(1), 0x9f00));
}

#[test]
fn exited_threads_leave_the_queue() {
    let mut s = Win32Scheduler::new();
    create_thread(&mut s, 1, 0x10, 0x1000, 0x1f00);
    create_thread(&mut s, 1, 0x20, 0x2000, 0x2f00);
    schedule(&mut s);
    let p = thread_exit(&mut s).unwrap();
    assert_eq!((p.save, p.new_rsp), (Some(0), 0x2f00));
    assert_eq!(thread(&s, 0).unwrap().state, ThreadState::Exited);
    assert!(schedule(&mut s).is_none());
    assert_eq!(thread(&s, 1).unwrap().state, ThreadState::Running);
}

#[test]
fn ready_queue_dequeues_oldest_and_compacts() {
    let mut s = Win32Scheduler::new();
    assert_eq!(dequeue_thread(&mut s), None);
    assert_eq!(enqueue_thread(&mut s, 5), Some(()));
    assert_eq!(enqueue_thread(&mut s, 9), Some(()));
    assert_eq!(dequeue_thread(&mut s), Some(5));
    assert_eq!(enqueue_thread(&mut s, 2), Some(()));
    assert_eq!(dequeue_thread(&mut s), Some(9));
    assert_eq!(dequeue_thread(&mut s), Some(2));
    assert_eq!(dequeue_thread(&mut s), None);
    for i in 0..16 {
        assert_eq!(enqueue_thread(&mut s, i), Some(()));
    }
    assert_eq!(enqueue_thread(&mut s, 16), None);
}

#[test]
fn slots_run_out_after_sixteen_threads() {
    let mut s = Win32Scheduler::new();
    for i in 0..MAX_THREADS {
        assert_eq!(create_thread(&mut s, 1, 0, 0, 0), Some(i));
    }
    assert_eq!(alloc_thread_slot(&s), None);
    assert_eq!(create_thread(&mut s, 1, 0, 0, 0), None);
}
