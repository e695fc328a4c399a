use crate::context::{ContextSlot, SwitchRequest};
use crate::forest::{
    all_distinct, born, child_link_ok, exited, exited_at, forest_valid, holds,
    lemma_birth_keeps_forest,
    lemma_birth_keeps_zombies, lemma_exit_keeps_forest, lemma_exit_keeps_zombies,
    lemma_push_contains, lemma_tree_wf_same_links, lemma_zombies_kept, slot_ok, tree_wf,
    zombies_ok,
};
use crate::manager::{dispatched, fetched, is_minimal, StrideManager, TaskManager};
use crate::platform::{KernelEntry, KernelStack, LoadedImage, MemorySet, PidHandle, TrapContext};
use crate::processor::Processor;
use crate::task::{
    count_of, syscall_key, TaskControlBlock, TaskControlBlockInner, TaskInfo, TaskStatus,
    MAX_SYSCALL_NUM,
};
use vstd::prelude::*;

verus! {

/// A process dispatched at time `now_us`: Running, and stamped with the
/// time of its first dispatch if it had none.
pub open spec fn started(task: TaskControlBlock, now_us: usize) -> TaskControlBlock {
    TaskControlBlock {
        inner: TaskControlBlockInner {
            task_status: TaskStatus::Running,
            start_time: if task.inner.start_time == 0 {
                now_us
            } else {
                task.inner.start_time
            },
            ..task.inner
        },
        ..task
    }
}

/// A record with its trap-entry frame replaced.
pub open spec fn with_trap_cx(task: TaskControlBlock, trap_cx: TrapContext) -> TaskControlBlock {
    TaskControlBlock { inner: TaskControlBlockInner { trap_cx, ..task.inner }, ..task }
}

/// The scheduler's whole state: the table of processes, the ready set, the
/// processor, and which process is the root of the tree.
pub struct Scheduler {
    pub tasks: Vec<TaskControlBlock>,
    pub manager: StrideManager,
    pub processor: Processor,
    pub initproc: usize,
    pub kernel: KernelEntry,
}

impl Scheduler {
    /// The table as a sequence, indexed by process identifier.
    pub open spec fn table(&self) -> Seq<TaskControlBlock> {
        self.tasks@
    }

    /// The ready set.
    pub open spec fn queue(&self) -> Seq<usize> {
        self.manager.ready_queue@
    }

    /// Validity: the root is registered and no Zombie, the table is a
    /// forest, a Zombie has neither children nor data pages, the ready set
    /// holds registered Ready processes, none twice, and the running
    /// process, if any, is registered and Running.
    pub open spec fn wf(&self) -> bool {
        &&& self.initproc < self.tasks@.len()
        &&& self.tasks@[self.initproc as int].inner.task_status != TaskStatus::Zombie
        &&& tree_wf(self.tasks@)
        &&& zombies_ok(self.tasks@)
        &&& self.queue().no_duplicates()
        &&& forall|i: int|
            0 <= i < self.queue().len() ==> (#[trigger] self.queue()[i]) < self.tasks@.len()
                && self.tasks@[self.queue()[i] as int].inner.task_status == TaskStatus::Ready
        &&& self.processor.current is Some ==> self.processor.current.unwrap() < self.tasks@.len()
            && self.tasks@[self.processor.current.unwrap() as int].inner.task_status
            == TaskStatus::Running
    }

    /// No record's status moved but along one legal transition.
    pub open spec fn statuses_legal(
        before: Seq<TaskControlBlock>,
        after: Seq<TaskControlBlock>,
    ) -> bool {
        forall|p: int|
            0 <= p < before.len() && p < after.len() ==> (#[trigger] before[p]).inner.task_status.stays_or_becomes(
                after[p].inner.task_status,
            )
    }

    /// No record's stride moved.
    pub open spec fn strides_kept(
        before: Seq<TaskControlBlock>,
        after: Seq<TaskControlBlock>,
    ) -> bool {
        forall|p: int|
            0 <= p < before.len() && p < after.len() ==> (#[trigger] before[p]).inner.stride
                == after[p].inner.stride
    }

    /// The state at boot: the root process alone, built from `image`, with
    /// identifier 0, not yet runnable; nothing runs.
    pub fn new(kernel: KernelEntry, kernel_stack: KernelStack, image: LoadedImage) -> (r: Self)
        ensures
            r.wf(),
            r.initproc == 0,
            r.kernel == kernel,
            r.table().len() == 1,
            r.table()[0].pid == PidHandle(0),
            r.table()[0].kernel_stack == kernel_stack,
            r.table()[0].inner.is_fresh(image, kernel_stack.top, kernel, None),
            r.queue() == Seq::<usize>::empty(),
            r.processor.current is None,
            r.processor.idle_task_cx.enters(0, 0),
    {
        let root = TaskControlBlock::new(PidHandle(0), kernel_stack, image, &kernel);
        let mut tasks: Vec<TaskControlBlock> = Vec::new();
        tasks.push(root);
        Scheduler {
            tasks,
            manager: StrideManager::new(),
            processor: Processor::new(),
            initproc: 0,
            kernel,
        }
    }

    /// Tests validity, for a caller that cannot otherwise know it.
    pub fn is_valid(&self) -> (r: bool)
        ensures
            r == self.wf(),
    {
        if self.initproc >= self.tasks.len() || !forest_valid(&self.tasks) || !all_distinct(
            &self.manager.ready_queue,
        ) {
            return false;
        }
        if self.tasks[self.initproc].inner.task_status == TaskStatus::Zombie {
            return false;
        }
        match self.processor.current {
            Some(c) => {
                if c >= self.tasks.len() || self.tasks[c].inner.task_status != TaskStatus::Running {
                    return false;
                }
            },
            None => {},
        }
        let mut i: usize = 0;
        while i < self.manager.ready_queue.len()
            invariant
                i <= self.queue().len(),
                forall|j: int|
                    0 <= j < i ==> (#[trigger] self.queue()[j]) < self.tasks@.len()
                        && self.tasks@[self.queue()[j] as int].inner.task_status
                        == TaskStatus::Ready,
            decreases self.queue().len() - i,
        {
            let q: usize = self.manager.ready_queue[i];
            if q >= self.tasks.len() || self.tasks[q].inner.task_status != TaskStatus::Ready {
                return false;
            }
            i += 1;
        }
        true
    }

    /// The identifier that the next created process will get.
    pub fn pid_alloc(&self) -> (r: PidHandle)
        ensures
            r.0 == self.table().len(),
    {
        PidHandle(self.tasks.len())
    }

    /// Whether `pid` is in the ready set.
    pub fn is_queued(&self, pid: usize) -> (r: bool)
        ensures
            r == self.queue().contains(pid),
    {
        holds(&self.manager.ready_queue, pid)
    }

    /// Makes the Ready process `pid` runnable.
    pub fn add_task(&mut self, pid: usize)
        requires
            old(self).wf(),
            pid < old(self).table().len(),
            old(self).table()[pid as int].inner.task_status == TaskStatus::Ready,
            !old(self).queue().contains(pid),
        ensures
            final(self).wf(),
            final(self).queue() == old(self).queue().push(pid),
            final(self).tasks == old(self).tasks,
            final(self).processor == old(self).processor,
            final(self).initproc == old(self).initproc,
            final(self).kernel == old(self).kernel,
    {
        self.manager.add(pid);
    }

    /// Makes the root process runnable.
    pub fn add_initproc(&mut self)
        requires
            old(self).wf(),
            old(self).table()[old(self).initproc as int].inner.task_status == TaskStatus::Ready,
            !old(self).queue().contains(old(self).initproc),
        ensures
            final(self).wf(),
            final(self).queue() == old(self).queue().push(old(self).initproc),
            final(self).tasks == old(self).tasks,
            final(self).processor == old(self).processor,
            final(self).initproc == old(self).initproc,
            final(self).kernel == old(self).kernel,
    {
        let root: usize = self.initproc;
        self.add_task(root);
    }

    /// Takes a process of minimal stride out of the ready set and advances
    /// its stride; `None` when the ready set is empty. The process stays
    /// Ready until it is installed as running.
    pub fn fetch_task(&mut self) -> (r: Option<usize>)
        requires
            old(self).wf(),
        ensures
            final(self).wf(),
            fetched(old(self).queue(), old(self).table(), final(self).queue(), final(self).table(), r),
            r is Some ==> r.unwrap() < old(self).table().len()
                && old(self).table()[r.unwrap() as int].inner.task_status == TaskStatus::Ready
                && !final(self).queue().contains(r.unwrap()),
            r is None <==> old(self).queue().len() == 0,
            final(self).table().len() == old(self).table().len(),
            Self::statuses_legal(old(self).table(), final(self).table()),
            final(self).processor == old(self).processor,
            final(self).initproc == old(self).initproc,
            final(self).kernel == old(self).kernel,
    {
        proof {
            assert forall|i: int| 0 <= i < self.queue().len() implies (#[trigger] self.queue()[i])
                < self.table().len() && self.table()[self.queue()[i] as int].inner.priority > 0 by {
                assert(slot_ok(self.table(), self.queue()[i] as int));
            }
        }
        let r = self.manager.fetch(&mut self.tasks);
        proof {
            if let Some(pid) = r {
                let q = old(self).queue();
                let k = choose|k: int|
                    {
                        &&& #[trigger] is_minimal(q, old(self).table(), k)
                        &&& q[k] == pid
                        &&& self.queue() == q.remove(k)
                        &&& self.table() == old(self).table().update(
                            pid as int,
                            dispatched(old(self).table()[pid as int]),
                        )
                    };
                assert(q[k] < old(self).table().len());
                lemma_tree_wf_same_links(old(self).table(), self.table());
                lemma_zombies_kept(old(self).table(), self.table());
                assert forall|i: int| 0 <= i < self.queue().len() implies (#[trigger] self.queue()[i])
                    < self.tasks@.len() && self.tasks@[self.queue()[i] as int].inner.task_status
                    == TaskStatus::Ready && self.queue()[i] != pid by {
                    if i < k {
                        assert(self.queue()[i] == q[i]);
                    } else {
                        assert(self.queue()[i] == q[i + 1]);
                    }
                }
                assert forall|i: int, j: int|
                    0 <= i < self.queue().len() && 0 <= j < self.queue().len() && i != j implies self.queue()[i]
                    != self.queue()[j] by {
                    let a = if i < k { i } else { i + 1 };
                    let b = if j < k { j } else { j + 1 };
                    assert(self.queue()[i] == q[a]);
                    assert(self.queue()[j] == q[b]);
                }
            }
        }
        r
    }

    /// Removes and returns the running process.
    pub fn take_current_task(&mut self) -> (r: Option<usize>)
        ensures
            r == old(self).processor.current,
            *final(self) == (Scheduler {
                processor: Processor { current: None, ..old(self).processor },
                ..*old(self)
            }),
            old(self).wf() ==> final(self).wf(),
    {
        self.processor.take_current()
    }

    /// The running process, which stays installed.
    pub fn current_task(&self) -> (r: Option<usize>)
        ensures
            r == self.processor.current,
    {
        self.processor.current()
    }

    /// Address-space token of the running process.
    pub fn current_user_token(&self) -> (r: usize)
        requires
            self.wf(),
            self.processor.current is Some,
        ensures
            r == self.table()[self.processor.current.unwrap() as int].inner.memory_set.token,
    {
        let pid: usize = self.processor.current().unwrap();
        self.tasks[pid].inner.get_user_token()
    }

    /// Trap-entry frame of the running process, for the trap path to read
    /// and to write. Nothing else of the state can change through it.
    pub fn current_trap_cx(&mut self) -> (r: &mut TrapContext)
        requires
            old(self).wf(),
            old(self).processor.current is Some,
        ensures
            *r == old(self).table()[old(self).processor.current.unwrap() as int].inner.trap_cx,
            final(self).wf(),
            final(self).table() == old(self).table().update(
                old(self).processor.current.unwrap() as int,
                with_trap_cx(
                    old(self).table()[old(self).processor.current.unwrap() as int],
                    *final(r),
                ),
            ),
            final(self).manager == old(self).manager,
            final(self).processor == old(self).processor,
            final(self).initproc == old(self).initproc,
            final(self).kernel == old(self).kernel,
    {
        let pid: usize = self.processor.current().unwrap();
        proof {
            let ts = self.table();
            assert forall|tc: TrapContext|
                tree_wf(#[trigger] ts.update(pid as int, with_trap_cx(ts[pid as int], tc)))
                    && zombies_ok(ts.update(pid as int, with_trap_cx(ts[pid as int], tc))) by {
                lemma_tree_wf_same_links(ts, ts.update(pid as int, with_trap_cx(ts[pid as int], tc)));
                lemma_zombies_kept(ts, ts.update(pid as int, with_trap_cx(ts[pid as int], tc)));
            }
        }
        &mut self.tasks[pid].inner.trap_cx
    }

    /// Task-info record of the running process at time `now_us`.
    pub fn get_current_task_info(&self, now_us: usize) -> (info: TaskInfo)
        requires
            self.wf(),
            self.processor.current is Some,
            now_us >= self.table()[self.processor.current.unwrap() as int].inner.start_time,
        ensures
            info.status == TaskStatus::Running,
            info.time == (now_us
                - self.table()[self.processor.current.unwrap() as int].inner.start_time) / 1000,
            info.syscall_times@.len() == MAX_SYSCALL_NUM,
            forall|i: int|
                0 <= i < MAX_SYSCALL_NUM ==> info.syscall_times@[i] == count_of(
                    self.table()[self.processor.current.unwrap() as int].inner.syscall_times@,
                    i as u16,
                ),
    {
        let pid: usize = self.processor.current().unwrap();
        self.tasks[pid].inner.get_task_info(now_us)
    }

    /// Counts one more invocation of `syscall_id` on the running process.
    pub fn increase_current_task_syscall(&mut self, syscall_id: usize)
        requires
            old(self).wf(),
            old(self).processor.current is Some,
            count_of(
                old(self).table()[old(self).processor.current.unwrap() as int].inner.syscall_times@,
                syscall_key(syscall_id),
            ) < u32::MAX,
        ensures
            final(self).wf(),
            final(self).table().len() == old(self).table().len(),
            forall|p: int|
                0 <= p < old(self).table().len() && p != old(self).processor.current.unwrap()
                    ==> final(self).table()[p] == old(self).table()[p],
            ({
                let c = old(self).processor.current.unwrap() as int;
                let before = old(self).table()[c];
                let after = final(self).table()[c];
                &&& after.inner.syscall_times@ == before.inner.syscall_times@.insert(
                    syscall_key(syscall_id),
                    (count_of(before.inner.syscall_times@, syscall_key(syscall_id)) + 1) as u32,
                )
                &&& after == (TaskControlBlock {
                    inner: TaskControlBlockInner {
                        syscall_times: after.inner.syscall_times,
                        ..before.inner
                    },
                    ..before
                })
            }),
            final(self).manager == old(self).manager,
            final(self).processor == old(self).processor,
            final(self).initproc == old(self).initproc,
            final(self).kernel == old(self).kernel,
            Self::statuses_legal(old(self).table(), final(self).table()),
            Self::strides_kept(old(self).table(), final(self).table()),
    {
        let pid: usize = self.processor.current().unwrap();
        self.tasks[pid].inner.increase_task_syscall(syscall_id);
        proof {
            lemma_tree_wf_same_links(old(self).table(), self.table());
            lemma_zombies_kept(old(self).table(), self.table());
        }
    }

    /// One turn of the idle loop at time `now_us`. With a runnable process:
    /// one of minimal stride leaves the ready set, is charged for the
    /// dispatch, becomes Running and current, and the caller is to switch
    /// from the idle frame into it. With none: nothing changes.
    pub fn run_tasks(&mut self, now_us: usize) -> (r: Option<SwitchRequest>)
        requires
            old(self).wf(),
        ensures
            final(self).wf(),
            final(self).initproc == old(self).initproc,
            final(self).kernel == old(self).kernel,
            final(self).processor.idle_task_cx == old(self).processor.idle_task_cx,
            Self::statuses_legal(old(self).table(), final(self).table()),
            match r {
                None => {
                    &&& old(self).queue().len() == 0
                    &&& final(self).queue() == old(self).queue()
                    &&& final(self).table() == old(self).table()
                    &&& final(self).processor == old(self).processor
                },
                Some(req) => exists|k: int|
                    {
                        &&& #[trigger] is_minimal(old(self).queue(), old(self).table(), k)
                        &&& req == (SwitchRequest {
                            from: ContextSlot::Idle,
                            to: ContextSlot::Task(old(self).queue()[k]),
                        })
                        &&& final(self).processor.current == Some(old(self).queue()[k])
                        &&& final(self).queue() == old(self).queue().remove(k)
                        &&& final(self).table() == old(self).table().update(
                            old(self).queue()[k] as int,
                            started(dispatched(old(self).table()[old(self).queue()[k] as int]), now_us),
                        )
                    },
            },
    {
        let fetched_pid = self.fetch_task();
        match fetched_pid {
            None => None,
            Some(pid) => {
                let ghost mid = self.table();
                self.tasks[pid].inner.task_status = TaskStatus::Running;
                if self.tasks[pid].inner.start_time == 0 {
                    self.tasks[pid].inner.start_time = now_us;
                }
                self.processor.current = Some(pid);
                proof {
                    lemma_tree_wf_same_links(mid, self.table());
                    lemma_zombies_kept(mid, self.table());
                    let q = old(self).queue();
                    let k = choose|k: int|
                        {
                            &&& #[trigger] is_minimal(q, old(self).table(), k)
                            &&& q[k] == pid
                            &&& self.queue() == q.remove(k)
                            &&& mid == old(self).table().update(
                                pid as int,
                                dispatched(old(self).table()[pid as int]),
                            )
                        };
                    assert(self.table() =~= old(self).table().update(
                        pid as int,
                        started(dispatched(old(self).table()[pid as int]), now_us),
                    ));
                    assert(is_minimal(q, old(self).table(), k));
                }
                Some(SwitchRequest { from: ContextSlot::Idle, to: ContextSlot::Task(pid) })
            },
        }
    }

    /// The switch by which a flow that saved itself in `from` gives the
    /// processor back to the idle loop.
    pub fn schedule(&self, from: ContextSlot) -> (r: SwitchRequest)
        ensures
            r == (SwitchRequest { from, to: ContextSlot::Idle }),
    {
        SwitchRequest { from, to: ContextSlot::Idle }
    }

    /// The running process yields: it is no longer current, becomes Ready
    /// and joins the ready set; the caller is to switch from its frame to
    /// the idle frame.
    pub fn suspend_current_and_run_next(&mut self) -> (r: SwitchRequest)
        requires
            old(self).wf(),
            old(self).processor.current is Some,
        ensures
            final(self).wf(),
            ({
                let c = old(self).processor.current.unwrap();
                &&& r == (SwitchRequest { from: ContextSlot::Task(c), to: ContextSlot::Idle })
                &&& final(self).queue() == old(self).queue().push(c)
                &&& final(self).table() == old(self).table().update(
                    c as int,
                    TaskControlBlock {
                        inner: TaskControlBlockInner {
                            task_status: TaskStatus::Ready,
                            ..old(self).table()[c as int].inner
                        },
                        ..old(self).table()[c as int]
                    },
                )
            }),
            final(self).processor == (Processor { current: None, ..old(self).processor }),
            final(self).initproc == old(self).initproc,
            final(self).kernel == old(self).kernel,
            Self::statuses_legal(old(self).table(), final(self).table()),
            Self::strides_kept(old(self).table(), final(self).table()),
    {
        let pid: usize = self.take_current_task().unwrap();
        self.tasks[pid].inner.task_status = TaskStatus::Ready;
        proof {
            lemma_tree_wf_same_links(old(self).table(), self.table());
            lemma_zombies_kept(old(self).table(), self.table());
            assert(!self.queue().contains(pid)) by {
                if self.queue().contains(pid) {
                    let i = choose|i: int| 0 <= i < self.queue().len() && self.queue()[i] == pid;
                    assert(old(self).table()[old(self).queue()[i] as int].inner.task_status
                        == TaskStatus::Ready);
                }
            }
            assert(self.table() =~= old(self).table().update(
                pid as int,
                TaskControlBlock {
                    inner: TaskControlBlockInner {
                        task_status: TaskStatus::Ready,
                        ..old(self).table()[pid as int].inner
                    },
                    ..old(self).table()[pid as int]
                },
            ));
        }
        self.add_task(pid);
        self.schedule(ContextSlot::Task(pid))
    }

    /// The running process exits with `exit_code`: it is no longer current
    /// and becomes a Zombie with that code; each of its children now names
    /// the root as parent and is listed by the root after the root's own;
    /// its children list is empty and its data pages are given back. The
    /// caller is to switch from a throwaway frame to the idle frame.
    pub fn exit_current_and_run_next(&mut self, exit_code: i32) -> (r: SwitchRequest)
        requires
            old(self).wf(),
            old(self).processor.current is Some,
            old(self).processor.current.unwrap() != old(self).initproc,
        ensures
            final(self).wf(),
            r == (SwitchRequest { from: ContextSlot::Scratch, to: ContextSlot::Idle }),
            exited(
                old(self).table(),
                final(self).table(),
                old(self).processor.current.unwrap() as int,
                old(self).initproc as int,
                exit_code,
            ),
            final(self).processor == (Processor { current: None, ..old(self).processor }),
            final(self).manager == old(self).manager,
            final(self).initproc == old(self).initproc,
            final(self).kernel == old(self).kernel,
            Self::statuses_legal(old(self).table(), final(self).table()),
            Self::strides_kept(old(self).table(), final(self).table()),
    {
        let pid: usize = self.take_current_task().unwrap();
        let root: usize = self.initproc;
        let ghost before = old(self).table();
        self.tasks[pid].inner.task_status = TaskStatus::Zombie;
        self.tasks[pid].inner.exit_code = exit_code;
        let mut kids: Vec<usize> = Vec::new();
        std::mem::swap(&mut self.tasks[pid].inner.children, &mut kids);
        self.tasks[pid].inner.memory_set.recycle_data_pages();
        assert(kids@.take(0) =~= Seq::<usize>::empty());
        let mut i: usize = 0;
        while i < kids.len()
            invariant
                i <= kids@.len(),
                kids@ == before[pid as int].inner.children@,
                before == old(self).table(),
                tree_wf(before),
                pid < before.len(),
                root < before.len(),
                pid != root,
                self.table().len() == before.len(),
                forall|p: int|
                    #![trigger self.table()[p]]
                    0 <= p < before.len() ==> exited_at(
                        before,
                        self.table(),
                        p,
                        pid as int,
                        root as int,
                        exit_code,
                        kids@.take(i as int),
                    ),
                self.processor == (Processor { current: None, ..old(self).processor }),
                self.manager == old(self).manager,
                self.initproc == old(self).initproc,
                self.kernel == old(self).kernel,
            decreases kids@.len() - i,
        {
            let child: usize = kids[i];
            let ghost mid = self.table();
            proof {
                assert(child_link_ok(before, pid as int, i as int));
            }
            self.tasks[child].inner.parent = Some(root);
            self.tasks[root].inner.children.push(child);
            proof {
                let moved = kids@.take(i as int);
                let next = kids@.take(i + 1);
                assert(next =~= moved.push(child));
                assert forall|p: int|
                    #![trigger self.table()[p]]
                    0 <= p < before.len() implies exited_at(
                    before,
                    self.table(),
                    p,
                    pid as int,
                    root as int,
                    exit_code,
                    next,
                ) by {
                    assert(exited_at(before, mid, p, pid as int, root as int, exit_code, moved));
                    assert(slot_ok(before, p));
                    lemma_push_contains(moved, child, p as usize);
                    if p == root {
                        assert(self.table()[p].inner.children@ =~= before[p].inner.children@ + next);
                    }
                }
            }
            i += 1;
        }
        proof {
            assert(kids@.take(i as int) =~= kids@);
            lemma_exit_keeps_forest(before, self.table(), pid as int, root as int, exit_code);
            lemma_exit_keeps_zombies(before, self.table(), pid as int, root as int, exit_code);
            assert forall|j: int| 0 <= j < self.queue().len() implies (#[trigger] self.queue()[j])
                < self.tasks@.len() && self.tasks@[self.queue()[j] as int].inner.task_status
                == TaskStatus::Ready by {
                let q = old(self).queue()[j];
                assert(before[q as int].inner.task_status == TaskStatus::Ready);
                assert(exited_at(
                    before,
                    self.table(),
                    q as int,
                    pid as int,
                    root as int,
                    exit_code,
                    kids@,
                ));
            }
            assert forall|p: int| 0 <= p < before.len() implies (#[trigger] before[p]).inner.task_status.stays_or_becomes(
                self.table()[p].inner.task_status,
            ) && before[p].inner.stride == self.table()[p].inner.stride by {
                assert(exited_at(
                    before,
                    self.table(),
                    p,
                    pid as int,
                    root as int,
                    exit_code,
                    kids@,
                ));
            }
        }
        SwitchRequest { from: ContextSlot::Scratch, to: ContextSlot::Idle }
    }

    /// Registers a fork of the live process `parent` that runs in the
    /// duplicate address space `memory_set`. The child gets the next identifier, which is
    /// returned; it is Ready and not yet in the ready set.
    pub fn fork_task(
        &mut self,
        parent: usize,
        kernel_stack: KernelStack,
        memory_set: MemorySet,
    ) -> (pid: usize)
        requires
            old(self).wf(),
            parent < old(self).table().len(),
            old(self).table()[parent as int].inner.task_status != TaskStatus::Zombie,
        ensures
            final(self).wf(),
            pid == old(self).table().len(),
            born(old(self).table(), final(self).table(), parent as int),
            final(self).table()[pid as int].kernel_stack == kernel_stack,
            final(self).table()[pid as int].inner.is_fork_of(
                old(self).table()[parent as int],
                memory_set,
                kernel_stack.top,
                old(self).kernel,
            ),
            final(self).manager == old(self).manager,
            final(self).processor == old(self).processor,
            final(self).initproc == old(self).initproc,
            final(self).kernel == old(self).kernel,
            Self::statuses_legal(old(self).table(), final(self).table()),
            Self::strides_kept(old(self).table(), final(self).table()),
    {
        let pid = self.pid_alloc();
        let child = self.tasks[parent].fork(pid, kernel_stack, memory_set, &self.kernel);
        self.tasks.push(child);
        proof {
            assert(slot_ok(old(self).table(), parent as int));
            lemma_birth_keeps_forest(old(self).table(), self.table(), parent as int);
            lemma_birth_keeps_zombies(old(self).table(), self.table(), parent as int);
        }
        pid.0
    }

    /// Registers a child of the live process `parent` built from a loaded image, with fresh
    /// scheduling and accounting fields. The child gets the next
    /// identifier, which is returned; it is Ready and not yet in the ready
    /// set.
    pub fn spawn_task(
        &mut self,
        parent: usize,
        kernel_stack: KernelStack,
        image: LoadedImage,
    ) -> (pid: usize)
        requires
            old(self).wf(),
            parent < old(self).table().len(),
            old(self).table()[parent as int].inner.task_status != TaskStatus::Zombie,
        ensures
            final(self).wf(),
            pid == old(self).table().len(),
            born(old(self).table(), final(self).table(), parent as int),
            final(self).table()[pid as int].kernel_stack == kernel_stack,
            final(self).table()[pid as int].inner.is_fresh(
                image,
                kernel_stack.top,
                old(self).kernel,
                Some(parent),
            ),
            final(self).manager == old(self).manager,
            final(self).processor == old(self).processor,
            final(self).initproc == old(self).initproc,
            final(self).kernel == old(self).kernel,
            Self::statuses_legal(old(self).table(), final(self).table()),
            Self::strides_kept(old(self).table(), final(self).table()),
    {
        let pid = self.pid_alloc();
        let child = self.tasks[parent].spawn(pid, kernel_stack, image, &self.kernel);
        self.tasks.push(child);
        proof {
            assert(slot_ok(old(self).table(), parent as int));
            lemma_birth_keeps_forest(old(self).table(), self.table(), parent as int);
            lemma_birth_keeps_zombies(old(self).table(), self.table(), parent as int);
        }
        pid.0
    }

    /// Replaces the program of the live process `pid` by a loaded image. Only that
    /// record changes, and of it only the address space, the frame page and
    /// the trap-entry frame.
    pub fn exec_task(&mut self, pid: usize, image: LoadedImage)
        requires
            old(self).wf(),
            pid < old(self).table().len(),
            old(self).table()[pid as int].inner.task_status != TaskStatus::Zombie,
        ensures
            final(self).wf(),
            final(self).table() == old(self).table().update(
                pid as int,
                TaskControlBlock {
                    inner: TaskControlBlockInner {
                        memory_set: image.memory_set,
                        trap_cx_ppn: image.memory_set.trap_cx_ppn,
                        trap_cx: TrapContext {
                            entry: image.entry_point,
                            user_sp: image.user_sp,
                            kernel_satp: old(self).kernel.kernel_token,
                            kernel_sp: old(self).table()[pid as int].kernel_stack.top,
                            trap_handler: old(self).kernel.trap_handler,
                        },
                        ..old(self).table()[pid as int].inner
                    },
                    ..old(self).table()[pid as int]
                },
            ),
            final(self).manager == old(self).manager,
            final(self).processor == old(self).processor,
            final(self).initproc == old(self).initproc,
            final(self).kernel == old(self).kernel,
            Self::statuses_legal(old(self).table(), final(self).table()),
            Self::strides_kept(old(self).table(), final(self).table()),
    {
        self.tasks[pid].exec(image, &self.kernel);
        proof {
            lemma_tree_wf_same_links(old(self).table(), self.table());
            lemma_zombies_kept(old(self).table(), self.table());
            assert(self.table() =~= old(self).table().update(
                pid as int,
                TaskControlBlock {
                    inner: TaskControlBlockInner {
                        memory_set: image.memory_set,
                        trap_cx_ppn: image.memory_set.trap_cx_ppn,
                        trap_cx: TrapContext {
                            entry: image.entry_point,
                            user_sp: image.user_sp,
                            kernel_satp: old(self).kernel.kernel_token,
                            kernel_sp: old(self).table()[pid as int].kernel_stack.top,
                            trap_handler: old(self).kernel.trap_handler,
                        },
                        ..old(self).table()[pid as int].inner
                    },
                    ..old(self).table()[pid as int]
                },
            ));
        }
    }
}

} // verus!
