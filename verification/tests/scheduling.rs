use stride_sched::context::{ContextSlot, SwitchRequest, TaskContext};
use stride_sched::forest::{all_distinct, forest_valid, holds, node_valid};
use stride_sched::manager::{StrideManager, TaskManager};
use stride_sched::order::runs_before;
use stride_sched::platform::{
    KernelEntry, KernelStack, LoadedImage, MemorySet, PidHandle, TrapContext,
};
use stride_sched::processor::Processor;
use stride_sched::scheduler::Scheduler;
use stride_sched::task::{
    TaskControlBlock, TaskStatus, BIG_STRIDE, MAX_SYSCALL_NUM, PASS_INIT, PRIORITY_INIT,
};

fn kernel() -> KernelEntry {
    KernelEntry { kernel_token: 0x8000_0001, trap_handler: 0x8020_0000, trap_return: 0x8020_1000 }
}

fn image(token: usize) -> LoadedImage {
    LoadedImage {
        memory_set: MemorySet { token, trap_cx_ppn: token + 7, data_pages: 12 },
        user_sp: 0x1_0000 + token,
        entry_point: 0x1000 + token,
    }
}

fn stack(n: usize) -> KernelStack {
    KernelStack { top: 0xffff_0000 - n * 0x3000 }
}

fn boot() -> Scheduler {
    Scheduler::new(kernel(), stack(0), image(100))
}

#[test]
fn zero_context_is_all_zero() {
    let cx = TaskContext::zero_init();
    assert_eq!(cx.ra, 0);
    assert_eq!(cx.sp, 0);
    assert_eq!(cx.s, [0usize; 12]);
}

#[test]
fn trap_return_context_enters_trampoline() {
    let cx = TaskContext::goto_trap_return(0x8020_1000, 0xffff_0000);
    assert_eq!(cx.ra, 0x8020_1000);
    assert_eq!(cx.sp, 0xffff_0000);
    assert_eq!(cx.s, [0usize; 12]);
}

#[test]
fn new_process_is_fresh() {
    let k = kernel();
    let t = TaskControlBlock::new(PidHandle(3), stack(3), image(5), &k);
    assert_eq!(t.getpid(), 3);
    assert_eq!(t.kernel_stack, stack(3));
    assert_eq!(t.inner.task_status, TaskStatus::Ready);
    assert_eq!(t.inner.stride, 0);
    assert_eq!(t.inner.pass, PASS_INIT);
    assert_eq!(t.inner.priority, PRIORITY_INIT);
    assert_eq!(t.inner.priority, 16);
    assert_eq!(t.inner.parent, None);
    assert!(t.inner.children.is_empty());
    assert_eq!(t.inner.exit_code, 0);
    assert!(t.inner.syscall_times.is_empty());
    assert_eq!(t.inner.start_time, 0);
    assert_eq!(t.inner.base_size, image(5).user_sp);
    assert_eq!(t.inner.memory_set, image(5).memory_set);
    assert_eq!(t.inner.trap_cx_ppn, 12);
    assert_eq!(t.inner.task_cx.ra, k.trap_return);
    assert_eq!(t.inner.task_cx.sp, stack(3).top);
    assert_eq!(
        t.inner.trap_cx,
        TrapContext {
            entry: image(5).entry_point,
            user_sp: image(5).user_sp,
            kernel_satp: k.kernel_token,
            kernel_sp: stack(3).top,
            trap_handler: k.trap_handler,
        }
    );
    assert!(!t.inner.is_zombie());
    assert_eq!(t.inner.get_user_token(), 5);
}

#[test]
fn exec_keeps_identity_and_replaces_image() {
    let k = kernel();
    let mut t = TaskControlBlock::new(PidHandle(4), stack(4), image(5), &k);
    t.inner.stride = 77;
    t.inner.parent = Some(1);
    t.inner.children.push(9);
    t.exec(image(6), &k);
    assert_eq!(t.getpid(), 4);
    assert_eq!(t.kernel_stack, stack(4));
    assert_eq!(t.inner.memory_set, image(6).memory_set);
    assert_eq!(t.inner.trap_cx_ppn, image(6).memory_set.trap_cx_ppn);
    assert_eq!(t.inner.trap_cx.entry, image(6).entry_point);
    assert_eq!(t.inner.trap_cx.user_sp, image(6).user_sp);
    assert_eq!(t.inner.trap_cx.kernel_sp, stack(4).top);
    assert_eq!(t.inner.base_size, image(5).user_sp);
    assert_eq!(t.inner.stride, 77);
    assert_eq!(t.inner.parent, Some(1));
    assert_eq!(t.inner.children, vec![9]);
}

#[test]
fn fork_copies_accounting_and_links_child() {
    let k = kernel();
    let mut p = TaskControlBlock::new(PidHandle(1), stack(1), image(5), &k);
    p.inner.priority = 4;
    p.inner.stride = 1000;
    p.inner.pass = 3;
    p.inner.start_time = 55;
    p.inner.increase_task_syscall(64);
    p.inner.get_trap_cx().user_sp = 0xabc;
    let dup = MemorySet { token: 900, trap_cx_ppn: 901, data_pages: 12 };
    let c = p.fork(PidHandle(2), stack(2), dup, &k);
    assert_eq!(c.getpid(), 2);
    assert_eq!(c.inner.parent, Some(1));
    assert!(c.inner.children.is_empty());
    assert_eq!(c.inner.priority, 4);
    assert_eq!(c.inner.stride, 1000);
    assert_eq!(c.inner.pass, 3);
    assert_eq!(c.inner.start_time, 55);
    assert_eq!(c.inner.syscall_times.get(&64), Some(&1));
    assert_eq!(c.inner.memory_set, dup);
    assert_eq!(c.inner.trap_cx_ppn, 901);
    assert_eq!(c.inner.base_size, p.inner.base_size);
    assert_eq!(c.inner.trap_cx.user_sp, 0xabc);
    assert_eq!(c.inner.trap_cx.entry, p.inner.trap_cx.entry);
    assert_eq!(c.inner.trap_cx.kernel_sp, stack(2).top);
    assert_eq!(p.inner.trap_cx.kernel_sp, stack(1).top);
    assert_eq!(c.inner.task_cx.sp, stack(2).top);
    assert_eq!(c.inner.task_status, TaskStatus::Ready);
    assert_eq!(c.inner.exit_code, 0);
    assert_eq!(p.inner.children, vec![2]);
    assert_eq!(p.inner.stride, 1000);
}

#[test]
fn fork_counters_are_not_shared() {
    let k = kernel();
    let mut p = TaskControlBlock::new(PidHandle(1), stack(1), image(5), &k);
    p.inner.increase_task_syscall(64);
    let mut c = p.fork(PidHandle(2), stack(2), image(8).memory_set, &k);
    c.inner.increase_task_syscall(64);
    c.inner.add_stride();
    assert_eq!(p.inner.syscall_times.get(&64), Some(&1));
    assert_eq!(c.inner.syscall_times.get(&64), Some(&2));
    assert_eq!(p.inner.stride, 0);
    p.inner.increase_task_syscall(93);
    assert_eq!(c.inner.syscall_times.get(&93), None);
}

#[test]
fn spawn_is_fresh_with_parent() {
    let k = kernel();
    let mut p = TaskControlBlock::new(PidHandle(1), stack(1), image(5), &k);
    p.inner.priority = 4;
    p.inner.stride = 1000;
    p.inner.increase_task_syscall(64);
    let c = p.spawn(PidHandle(2), stack(2), image(6), &k);
    assert_eq!(c.inner.parent, Some(1));
    assert_eq!(c.inner.memory_set, image(6).memory_set);
    assert_ne!(c.inner.memory_set, p.inner.memory_set);
    assert_eq!(c.inner.priority, 16);
    assert_eq!(c.inner.stride, 0);
    assert_eq!(c.inner.start_time, 0);
    assert!(c.inner.syscall_times.is_empty());
    assert_eq!(c.inner.trap_cx.entry, image(6).entry_point);
    assert_eq!(p.inner.children, vec![2]);
}

#[test]
fn add_stride_uses_big_stride_over_priority() {
    let k = kernel();
    let mut t = TaskControlBlock::new(PidHandle(0), stack(0), image(5), &k);
    assert_eq!(BIG_STRIDE, 0xffff_ffff);
    t.inner.add_stride();
    assert_eq!(t.inner.stride, 268435455);
    t.inner.priority = 2;
    t.inner.add_stride();
    assert_eq!(t.inner.stride, 268435455 + 2147483647);
    t.inner.priority = 1;
    t.inner.stride = 5;
    t.inner.add_stride();
    assert_eq!(t.inner.stride, 5 + 0xffff_ffff);
}

#[test]
fn add_stride_wraps_at_counter_width() {
    let k = kernel();
    let mut t = TaskControlBlock::new(PidHandle(0), stack(0), image(5), &k);
    t.inner.priority = 2;
    t.inner.stride = usize::MAX - 10;
    t.inner.add_stride();
    assert_eq!(t.inner.stride, 2147483647 - 11);
}

#[test]
fn syscall_counter_starts_at_one_and_increments() {
    let k = kernel();
    let mut t = TaskControlBlock::new(PidHandle(0), stack(0), image(5), &k);
    t.inner.increase_task_syscall(169);
    assert_eq!(t.inner.syscall_times.get(&169), Some(&1));
    t.inner.increase_task_syscall(169);
    t.inner.increase_task_syscall(169);
    assert_eq!(t.inner.syscall_times.get(&169), Some(&3));
    t.inner.increase_task_syscall(0x1_0000 + 7);
    assert_eq!(t.inner.syscall_times.get(&7), Some(&1));
    assert_eq!(t.inner.syscall_times.len(), 2);
}

#[test]
fn task_info_reports_counts_and_elapsed_milliseconds() {
    let k = kernel();
    let mut t = TaskControlBlock::new(PidHandle(0), stack(0), image(5), &k);
    t.inner.start_time = 1_000_500;
    t.inner.increase_task_syscall(64);
    t.inner.increase_task_syscall(64);
    t.inner.increase_task_syscall(499);
    t.inner.increase_task_syscall(500);
    let info = t.inner.get_task_info(1_004_499);
    assert_eq!(info.status, TaskStatus::Ready);
    assert_eq!(info.time, 3);
    assert_eq!(info.syscall_times.len(), MAX_SYSCALL_NUM);
    assert_eq!(info.syscall_times.len(), 500);
    assert_eq!(info.syscall_times[64], 2);
    assert_eq!(info.syscall_times[499], 1);
    assert_eq!(info.syscall_times[0], 0);
    assert_eq!(info.syscall_times.iter().map(|c| *c as usize).sum::<usize>(), 3);
}

#[test]
fn exclusive_access_reaches_the_inner_state() {
    let k = kernel();
    let mut t = TaskControlBlock::new(PidHandle(0), stack(0), image(5), &k);
    t.inner_exclusive_access().exit_code = -3;
    assert_eq!(t.inner.exit_code, -3);
    assert_eq!(t.inner.get_status(), TaskStatus::Ready);
    t.inner_exclusive_access().task_status = TaskStatus::Zombie;
    assert!(t.inner.is_zombie());
}

#[test]
fn smaller_stride_orders_greater() {
    let k = kernel();
    let mut a = TaskControlBlock::new(PidHandle(0), stack(0), image(5), &k);
    let mut b = TaskControlBlock::new(PidHandle(1), stack(1), image(6), &k);
    assert!(a == b);
    assert_eq!(a.partial_cmp(&b), Some(std::cmp::Ordering::Equal));
    a.inner.stride = 3;
    b.inner.stride = 9;
    assert!(a != b);
    assert!(a > b);
    assert_eq!(a.partial_cmp(&b), Some(std::cmp::Ordering::Greater));
    assert_eq!(b.partial_cmp(&a), Some(std::cmp::Ordering::Less));
    assert!(runs_before(&a, &b));
    assert!(!runs_before(&b, &a));
    assert!(!runs_before(&a, &a));
}

#[test]
fn processor_take_and_current() {
    let mut p = Processor::new();
    assert_eq!(p.current(), None);
    assert_eq!(p.take_current(), None);
    p.current = Some(4);
    assert_eq!(p.current(), Some(4));
    assert_eq!(p.current(), Some(4));
    assert_eq!(p.take_current(), Some(4));
    assert_eq!(p.current(), None);
    p.get_idle_task_cx_ptr().ra = 9;
    assert_eq!(p.idle_task_cx.ra, 9);
}

#[test]
fn manager_fetch_on_empty_reports_none() {
    let mut m = StrideManager::new();
    let mut tasks: Vec<TaskControlBlock> = Vec::new();
    assert_eq!(m.fetch(&mut tasks), None);
    assert!(m.ready_queue.is_empty());
}

#[test]
fn manager_fetches_minimal_stride() {
    let k = kernel();
    let mut tasks: Vec<TaskControlBlock> = Vec::new();
    for i in 0..4 {
        tasks.push(TaskControlBlock::new(PidHandle(i), stack(i), image(i), &k));
    }
    tasks[0].inner.stride = 50;
    tasks[1].inner.stride = 20;
    tasks[2].inner.stride = 10;
    tasks[3].inner.stride = 30;
    let mut m = StrideManager::new();
    m.add(0);
    m.add(1);
    m.add(2);
    m.add(3);
    assert_eq!(m.min_stride_index(&tasks), 2);
    assert_eq!(m.fetch(&mut tasks), Some(2));
    assert_eq!(tasks[2].inner.stride, 10 + 268435455);
    assert_eq!(m.ready_queue, vec![0, 1, 3]);
    assert_eq!(m.fetch(&mut tasks), Some(1));
    assert_eq!(m.fetch(&mut tasks), Some(3));
    assert_eq!(m.fetch(&mut tasks), Some(0));
    assert_eq!(m.fetch(&mut tasks), None);
    assert_eq!(tasks[0].inner.stride, 50 + 268435455);
}

#[test]
fn worked_stride_scenario() {
    let k = kernel();
    let mut tasks: Vec<TaskControlBlock> = Vec::new();
    tasks.push(TaskControlBlock::new(PidHandle(0), stack(0), image(1), &k));
    tasks.push(TaskControlBlock::new(PidHandle(1), stack(1), image(2), &k));
    tasks[0].inner.priority = 16;
    tasks[1].inner.priority = 2;
    let mut m = StrideManager::new();
    m.add(0);
    m.add(1);
    assert_eq!(m.fetch(&mut tasks), Some(0));
    assert_eq!(tasks[0].inner.stride, 268435455);
    m.add(0);
    assert_eq!(m.fetch(&mut tasks), Some(1));
    assert_eq!(tasks[1].inner.stride, 2147483647);
    m.add(1);
    let mut runs_of_a = 1;
    loop {
        let next = m.fetch(&mut tasks).unwrap();
        m.add(next);
        if next == 1 {
            break;
        }
        runs_of_a += 1;
        if runs_of_a == 8 {
            assert_eq!(tasks[0].inner.stride, 2147483640);
        }
    }
    assert_eq!(runs_of_a, 9);
    assert_eq!(tasks[0].inner.stride, 9 * 268435455);
    assert_eq!(tasks[1].inner.stride, 2 * 2147483647);
}

#[test]
fn boot_state_holds_root_only() {
    let s = boot();
    assert_eq!(s.initproc, 0);
    assert_eq!(s.tasks.len(), 1);
    assert_eq!(s.tasks[0].getpid(), 0);
    assert_eq!(s.tasks[0].inner.parent, None);
    assert_eq!(s.tasks[0].inner.task_status, TaskStatus::Ready);
    assert!(s.manager.ready_queue.is_empty());
    assert_eq!(s.current_task(), None);
    assert_eq!(s.pid_alloc(), PidHandle(1));
    assert!(!s.is_queued(0));
}

#[test]
fn idle_turn_with_nothing_ready_changes_nothing() {
    let mut s = boot();
    assert_eq!(s.run_tasks(10), None);
    assert_eq!(s.current_task(), None);
    assert_eq!(s.fetch_task(), None);
    assert_eq!(s.tasks[0].inner.stride, 0);
}

#[test]
fn idle_turn_dispatches_and_stamps_first_start() {
    let mut s = boot();
    s.add_initproc();
    assert!(s.is_queued(0));
    let req = s.run_tasks(1234);
    assert_eq!(req, Some(SwitchRequest { from: ContextSlot::Idle, to: ContextSlot::Task(0) }));
    assert_eq!(s.current_task(), Some(0));
    assert_eq!(s.tasks[0].inner.task_status, TaskStatus::Running);
    assert_eq!(s.tasks[0].inner.start_time, 1234);
    assert_eq!(s.tasks[0].inner.stride, 268435455);
    assert!(!s.is_queued(0));
    assert_eq!(s.current_user_token(), 100);
    assert_eq!(s.current_trap_cx().entry, image(100).entry_point);
    assert_eq!(s.current_trap_cx().kernel_sp, stack(0).top);
    let back = s.suspend_current_and_run_next();
    assert_eq!(back, SwitchRequest { from: ContextSlot::Task(0), to: ContextSlot::Idle });
    assert_eq!(s.current_task(), None);
    assert_eq!(s.tasks[0].inner.task_status, TaskStatus::Ready);
    assert_eq!(s.manager.ready_queue, vec![0]);
    assert_eq!(s.tasks[0].inner.stride, 268435455);
    s.run_tasks(9999);
    assert_eq!(s.tasks[0].inner.start_time, 1234);
    assert_eq!(s.tasks[0].inner.stride, 2 * 268435455);
}

#[test]
fn schedule_targets_idle() {
    let s = boot();
    assert_eq!(
        s.schedule(ContextSlot::Scratch),
        SwitchRequest { from: ContextSlot::Scratch, to: ContextSlot::Idle }
    );
    assert_eq!(
        s.schedule(ContextSlot::Task(5)),
        SwitchRequest { from: ContextSlot::Task(5), to: ContextSlot::Idle }
    );
}

#[test]
fn take_current_task_ejects() {
    let mut s = boot();
    s.add_initproc();
    s.run_tasks(1);
    assert_eq!(s.take_current_task(), Some(0));
    assert_eq!(s.take_current_task(), None);
    assert_eq!(s.current_task(), None);
}

#[test]
fn current_task_accounting() {
    let mut s = boot();
    s.add_initproc();
    s.run_tasks(2_000);
    s.increase_current_task_syscall(64);
    s.increase_current_task_syscall(64);
    s.increase_current_task_syscall(124);
    let info = s.get_current_task_info(9_999);
    assert_eq!(info.status, TaskStatus::Running);
    assert_eq!(info.time, 7);
    assert_eq!(info.syscall_times[64], 2);
    assert_eq!(info.syscall_times[124], 1);
    assert_eq!(info.syscall_times[1], 0);
}

#[test]
fn fork_task_registers_child_with_next_pid() {
    let mut s = boot();
    let dup = MemorySet { token: 200, trap_cx_ppn: 201, data_pages: 12 };
    let a = s.fork_task(0, stack(1), dup);
    let b = s.spawn_task(0, stack(2), image(300));
    let c = s.fork_task(a, stack(3), dup);
    assert_eq!((a, b, c), (1, 2, 3));
    assert_eq!(s.tasks.len(), 4);
    for (i, t) in s.tasks.iter().enumerate() {
        assert_eq!(t.getpid(), i);
    }
    assert_eq!(s.tasks[0].inner.children, vec![1, 2]);
    assert_eq!(s.tasks[1].inner.children, vec![3]);
    assert_eq!(s.tasks[1].inner.parent, Some(0));
    assert_eq!(s.tasks[2].inner.parent, Some(0));
    assert_eq!(s.tasks[3].inner.parent, Some(1));
    assert_eq!(s.tasks[1].inner.memory_set, dup);
    assert_eq!(s.tasks[2].inner.memory_set, image(300).memory_set);
    assert!(!s.is_queued(1));
    s.add_task(1);
    assert!(s.is_queued(1));
}

#[test]
fn exec_on_child_leaves_parent_address_space() {
    let mut s = boot();
    let dup = MemorySet { token: 200, trap_cx_ppn: 201, data_pages: 12 };
    let child = s.fork_task(0, stack(1), dup);
    let parent_space = s.tasks[0].inner.memory_set;
    s.exec_task(child, image(400));
    assert_eq!(s.tasks[0].inner.memory_set, parent_space);
    assert_eq!(s.tasks[child].inner.memory_set, image(400).memory_set);
    assert_eq!(s.tasks[child].getpid(), child);
    assert_eq!(s.tasks[child].kernel_stack, stack(1));
    assert_eq!(s.tasks[child].inner.parent, Some(0));
    s.exec_task(0, image(500));
    assert_eq!(s.tasks[child].inner.memory_set, image(400).memory_set);
}

#[test]
fn exit_reparents_children_to_root() {
    let mut s = boot();
    let dup = MemorySet { token: 200, trap_cx_ppn: 201, data_pages: 12 };
    let a = s.fork_task(0, stack(1), dup);
    let b = s.fork_task(0, stack(2), dup);
    let a1 = s.fork_task(a, stack(3), dup);
    let a2 = s.spawn_task(a, stack(4), image(9));
    s.add_task(a);
    let req = s.run_tasks(5);
    assert_eq!(req, Some(SwitchRequest { from: ContextSlot::Idle, to: ContextSlot::Task(a) }));
    let stride_before = s.tasks[a].inner.stride;
    let out = s.exit_current_and_run_next(-7);
    assert_eq!(out, SwitchRequest { from: ContextSlot::Scratch, to: ContextSlot::Idle });
    assert_eq!(s.current_task(), None);
    assert!(s.tasks[a].inner.is_zombie());
    assert_eq!(s.tasks[a].inner.exit_code, -7);
    assert!(s.tasks[a].inner.children.is_empty());
    assert_eq!(s.tasks[a].inner.memory_set.data_pages, 0);
    assert_eq!(s.tasks[a].inner.memory_set.token, 200);
    assert_eq!(s.tasks[a].inner.parent, Some(0));
    assert_eq!(s.tasks[a].inner.stride, stride_before);
    assert_eq!(s.tasks[a1].inner.parent, Some(0));
    assert_eq!(s.tasks[a2].inner.parent, Some(0));
    assert_eq!(s.tasks[b].inner.parent, Some(0));
    assert_eq!(s.tasks[0].inner.children, vec![a, b, a1, a2]);
    assert_eq!(s.tasks[b].inner.memory_set.data_pages, 12);
    assert!(s.manager.ready_queue.is_empty());
    for (p, t) in s.tasks.iter().enumerate() {
        for c in t.inner.children.iter() {
            assert_eq!(s.tasks[*c].inner.parent, Some(p));
        }
        if let Some(parent) = t.inner.parent {
            assert!(s.tasks[parent].inner.children.contains(&p));
        }
    }
}

#[test]
fn scheduler_dispatches_least_stride_first() {
    let mut s = boot();
    let dup = MemorySet { token: 200, trap_cx_ppn: 201, data_pages: 12 };
    let a = s.fork_task(0, stack(1), dup);
    let b = s.fork_task(0, stack(2), dup);
    s.tasks[a].inner.stride = 40;
    s.tasks[b].inner.stride = 7;
    s.add_initproc();
    s.add_task(a);
    s.add_task(b);
    assert_eq!(s.fetch_task(), Some(0));
    assert_eq!(s.fetch_task(), Some(b));
    assert_eq!(s.fetch_task(), Some(a));
    assert_eq!(s.fetch_task(), None);
    assert_eq!(s.tasks[b].inner.stride, 7 + 268435455);
    assert_eq!(s.tasks[a].inner.task_status, TaskStatus::Ready);
}

#[test]
fn memory_set_recycle_keeps_token() {
    let mut m = MemorySet { token: 3, trap_cx_ppn: 4, data_pages: 5 };
    m.recycle_data_pages();
    assert_eq!(m, MemorySet { token: 3, trap_cx_ppn: 4, data_pages: 0 });
    assert_eq!(m.token(), 3);
    assert_eq!(stack(2).get_top(), 0xffff_0000 - 0x6000);
    let t = TrapContext::app_init_context(1, 2, 3, 4, 5);
    assert_eq!(
        t,
        TrapContext { entry: 1, user_sp: 2, kernel_satp: 3, kernel_sp: 4, trap_handler: 5 }
    );
}

#[test]
fn wrapped_stride_is_compared_as_a_plain_number() {
    let k = kernel();
    let mut tasks: Vec<TaskControlBlock> = Vec::new();
    tasks.push(TaskControlBlock::new(PidHandle(0), stack(0), image(1), &k));
    tasks.push(TaskControlBlock::new(PidHandle(1), stack(1), image(2), &k));
    tasks[0].inner.stride = usize::MAX - 5;
    tasks[1].inner.stride = usize::MAX - 3;
    let mut m = StrideManager::new();
    m.add(0);
    m.add(1);
    assert_eq!(m.fetch(&mut tasks), Some(0));
    assert_eq!(tasks[0].inner.stride, 268435455 - 6);
    m.add(0);
    assert_eq!(m.fetch(&mut tasks), Some(0));
    assert_eq!(tasks[0].inner.stride, 2 * 268435455 - 6);
}

#[test]
fn registered_pids_are_pairwise_distinct() {
    let mut s = boot();
    let dup = MemorySet { token: 200, trap_cx_ppn: 201, data_pages: 12 };
    for n in 1..6 {
        let parent = (n - 1) / 2;
        if n % 2 == 0 {
            s.fork_task(parent, stack(n), dup);
        } else {
            s.spawn_task(parent, stack(n), image(n));
        }
    }
    for a in 0..s.tasks.len() {
        for b in 0..s.tasks.len() {
            assert_eq!(s.tasks[a].pid == s.tasks[b].pid, a == b);
        }
    }
}

#[test]
fn zombie_stays_zombie_and_is_never_dispatched() {
    let mut s = boot();
    let dup = MemorySet { token: 200, trap_cx_ppn: 201, data_pages: 12 };
    let a = s.fork_task(0, stack(1), dup);
    s.add_task(a);
    s.add_initproc();
    assert_eq!(s.run_tasks(1), Some(SwitchRequest { from: ContextSlot::Idle, to: ContextSlot::Task(a) }));
    s.exit_current_and_run_next(0);
    for now in 2..6 {
        let r = s.run_tasks(now);
        assert_eq!(r, Some(SwitchRequest { from: ContextSlot::Idle, to: ContextSlot::Task(0) }));
        assert_eq!(s.tasks[a].inner.task_status, TaskStatus::Zombie);
        assert_eq!(s.tasks[0].inner.task_status, TaskStatus::Running);
        s.suspend_current_and_run_next();
        assert_eq!(s.tasks[0].inner.task_status, TaskStatus::Ready);
    }
    assert_eq!(s.tasks[a].inner.stride, 268435455);
    assert_eq!(s.tasks[0].inner.stride, 4 * 268435455);
}

#[test]
fn trap_frame_of_current_can_be_written() {
    let mut s = boot();
    s.add_initproc();
    s.run_tasks(1);
    s.current_trap_cx().entry += 4;
    assert_eq!(s.tasks[0].inner.trap_cx.entry, image(100).entry_point + 4);
    assert_eq!(s.current_task(), Some(0));
}

#[test]
fn every_operation_keeps_the_state_valid() {
    let mut s = boot();
    assert!(s.is_valid());
    let dup = MemorySet { token: 200, trap_cx_ppn: 201, data_pages: 12 };
    let a = s.fork_task(0, stack(1), dup);
    assert!(s.is_valid());
    let b = s.spawn_task(a, stack(2), image(3));
    assert!(s.is_valid());
    s.add_initproc();
    s.add_task(a);
    s.add_task(b);
    assert!(s.is_valid());
    while s.current_task() != Some(a) {
        if s.current_task().is_some() {
            s.suspend_current_and_run_next();
            assert!(s.is_valid());
        }
        s.run_tasks(7);
        assert!(s.is_valid());
    }
    s.increase_current_task_syscall(64);
    s.exec_task(a, image(8));
    assert!(s.is_valid());
    s.exit_current_and_run_next(1);
    assert!(s.is_valid());
    assert_eq!(s.tasks[b].inner.parent, Some(0));
    assert_eq!(s.tasks[0].inner.children, vec![a, b]);
    assert_eq!(s.fetch_task().is_some(), true);
    assert!(s.is_valid());
}

#[test]
fn broken_states_are_told_apart() {
    let dup = MemorySet { token: 200, trap_cx_ppn: 201, data_pages: 12 };
    let make = || {
        let mut s = boot();
        let a = s.fork_task(0, stack(1), dup);
        s.add_task(a);
        s
    };
    assert!(make().is_valid());
    let mut s = make();
    s.tasks[1].inner.parent = None;
    assert!(!s.is_valid());
    assert!(!forest_valid(&s.tasks));
    assert!(node_valid(&s.tasks, 1));
    assert!(!node_valid(&s.tasks, 0));
    let mut s = make();
    s.tasks[0].inner.children.clear();
    assert!(!s.is_valid());
    let mut s = make();
    s.tasks[0].inner.children.push(1);
    assert!(!s.is_valid());
    let mut s = make();
    s.tasks[1].inner.priority = 0;
    assert!(!s.is_valid());
    let mut s = make();
    s.tasks[1].pid = PidHandle(5);
    assert!(!s.is_valid());
    let mut s = make();
    s.manager.add(1);
    assert!(!s.is_valid());
    let mut s = make();
    s.manager.add(9);
    assert!(!s.is_valid());
    let mut s = make();
    s.tasks[1].inner.task_status = TaskStatus::Zombie;
    assert!(!s.is_valid());
    let mut s = make();
    s.processor.current = Some(0);
    assert!(!s.is_valid());
    let mut s = make();
    s.initproc = 2;
    assert!(!s.is_valid());
    let mut s = make();
    s.manager.ready_queue.clear();
    assert!(s.is_valid());
    s.tasks[1].inner.task_status = TaskStatus::Zombie;
    assert!(!s.is_valid());
    s.tasks[1].inner.memory_set.recycle_data_pages();
    assert!(s.is_valid());
    s.tasks[1].inner.children.push(0);
    assert!(!s.is_valid());
    let mut s = make();
    s.tasks[0].inner.task_status = TaskStatus::Zombie;
    s.tasks[0].inner.memory_set.recycle_data_pages();
    assert!(!s.is_valid());
    let mut s = make();
    s.tasks[0].inner.parent = Some(7);
    assert!(!s.is_valid());
}

#[test]
fn list_helpers() {
    assert!(holds(&vec![3, 1, 4], 4));
    assert!(!holds(&vec![3, 1, 4], 5));
    assert!(!holds(&vec![], 0));
    assert!(all_distinct(&vec![]));
    assert!(all_distinct(&vec![3, 1, 4]));
    assert!(!all_distinct(&vec![3, 1, 3]));
    assert!(!all_distinct(&vec![1, 4, 4]));
}
