use crate::order::runs_before;
use crate::task::{stride_after, TaskControlBlock, TaskControlBlockInner, BIG_STRIDE};
use vstd::prelude::*;

verus! {

/// Every queued identifier names a registered process with a positive weight.
pub open spec fn queue_ready(queue: Seq<usize>, tasks: Seq<TaskControlBlock>) -> bool {
    forall|i: int|
        0 <= i < queue.len() ==> (#[trigger] queue[i]) < tasks.len()
            && tasks[queue[i] as int].inner.priority > 0
}

/// Position `k` of the queue holds a process of minimal stride.
pub open spec fn is_minimal(queue: Seq<usize>, tasks: Seq<TaskControlBlock>, k: int) -> bool {
    &&& 0 <= k < queue.len()
    &&& forall|j: int|
        0 <= j < queue.len() ==> tasks[queue[k] as int].inner.stride
            <= tasks[#[trigger] queue[j] as int].inner.stride
}

/// A process after one dispatch: its stride advanced, all else as it was.
pub open spec fn dispatched(task: TaskControlBlock) -> TaskControlBlock {
    TaskControlBlock {
        inner: TaskControlBlockInner {
            stride: stride_after(task.inner.stride, task.inner.priority),
            ..task.inner
        },
        ..task
    }
}

/// What a fetch does: on an empty queue nothing; otherwise it takes out one
/// entry of minimal stride and advances that process's stride.
pub open spec fn fetched(
    queue: Seq<usize>,
    tasks: Seq<TaskControlBlock>,
    queue_after: Seq<usize>,
    tasks_after: Seq<TaskControlBlock>,
    r: Option<usize>,
) -> bool {
    match r {
        None => queue.len() == 0 && queue_after == queue && tasks_after == tasks,
        Some(pid) => exists|k: int|
            {
                &&& #[trigger] is_minimal(queue, tasks, k)
                &&& queue[k] == pid
                &&& queue_after == queue.remove(k)
                &&& tasks_after == tasks.update(pid as int, dispatched(tasks[pid as int]))
            },
    }
}

/// A fetch moves no stride but that of the process it returns, which it
/// advances by one dispatch; unless the counter wraps, no stride falls.
pub proof fn lemma_fetch_strides(
    queue: Seq<usize>,
    tasks: Seq<TaskControlBlock>,
    queue_after: Seq<usize>,
    tasks_after: Seq<TaskControlBlock>,
    r: Option<usize>,
    p: int,
)
    requires
        queue_ready(queue, tasks),
        fetched(queue, tasks, queue_after, tasks_after, r),
        0 <= p < tasks.len(),
    ensures
        tasks_after.len() == tasks.len(),
        tasks_after[p].inner.stride == if r is Some && r.unwrap() == p {
            stride_after(tasks[p].inner.stride, tasks[p].inner.priority)
        } else {
            tasks[p].inner.stride
        },
        tasks[p].inner.priority > 0 && tasks[p].inner.stride + BIG_STRIDE / tasks[p].inner.priority
            <= usize::MAX ==> tasks_after[p].inner.stride >= tasks[p].inner.stride,
{
    if let Some(pid) = r {
        let k = choose|k: int|
            {
                &&& #[trigger] is_minimal(queue, tasks, k)
                &&& queue[k] == pid
                &&& queue_after == queue.remove(k)
                &&& tasks_after == tasks.update(pid as int, dispatched(tasks[pid as int]))
            };
        assert(queue[k] < tasks.len());
    }
}

/// A fetch returns a process whose stride no queued process undercuts.
pub proof fn lemma_fetch_minimal(
    queue: Seq<usize>,
    tasks: Seq<TaskControlBlock>,
    queue_after: Seq<usize>,
    tasks_after: Seq<TaskControlBlock>,
    pid: usize,
    j: int,
)
    requires
        fetched(queue, tasks, queue_after, tasks_after, Some(pid)),
        0 <= j < queue.len(),
    ensures
        queue.contains(pid),
        tasks[pid as int].inner.stride <= tasks[queue[j] as int].inner.stride,
{
    let k = choose|k: int|
        {
            &&& #[trigger] is_minimal(queue, tasks, k)
            &&& queue[k] == pid
            &&& queue_after == queue.remove(k)
            &&& tasks_after == tasks.update(pid as int, dispatched(tasks[pid as int]))
        };
    assert(queue[k] == pid);
}

/// A policy that holds the runnable processes and picks the next to run.
pub trait TaskManager: Sized {
    /// The identifiers held, in the order they are stored.
    spec fn ready(&self) -> Seq<usize>;

    /// A manager that holds nothing.
    fn new() -> (r: Self)
        ensures
            r.ready() == Seq::<usize>::empty(),
    ;

    /// Adds a runnable process.
    fn add(&mut self, task: usize)
        ensures
            final(self).ready() == old(self).ready().push(task),
    ;

    /// Takes out the next process to run and charges it for the dispatch.
    fn fetch(&mut self, tasks: &mut Vec<TaskControlBlock>) -> (r: Option<usize>)
        requires
            queue_ready(old(self).ready(), old(tasks)@),
        ensures
            fetched(old(self).ready(), old(tasks)@, final(self).ready(), final(tasks)@, r),
    ;
}

/// Ready set that dispatches by ascending stride.
pub struct StrideManager {
    pub ready_queue: Vec<usize>,
}

impl StrideManager {
    /// Position of an entry whose process has the least stride, compared as
    /// plain numbers.
    pub fn min_stride_index(&self, tasks: &Vec<TaskControlBlock>) -> (k: usize)
        requires
            self.ready_queue@.len() > 0,
            queue_ready(self.ready_queue@, tasks@),
        ensures
            is_minimal(self.ready_queue@, tasks@, k as int),
    {
        let n: usize = self.ready_queue.len();
        let mut best: usize = 0;
        let mut i: usize = 1;
        while i < n
            invariant
                1 <= i <= n,
                best < i,
                n == self.ready_queue@.len(),
                queue_ready(self.ready_queue@, tasks@),
                forall|j: int|
                    0 <= j < i ==> tasks@[self.ready_queue@[best as int] as int].inner.stride
                        <= tasks@[#[trigger] self.ready_queue@[j] as int].inner.stride,
            decreases n - i,
        {
            if runs_before(&tasks[self.ready_queue[i]], &tasks[self.ready_queue[best]]) {
                best = i;
            }
            i += 1;
        }
        best
    }
}

impl TaskManager for StrideManager {
    open spec fn ready(&self) -> Seq<usize> {
        self.ready_queue@
    }

    fn new() -> (r: Self) {
        StrideManager { ready_queue: Vec::new() }
    }

    fn add(&mut self, task: usize) {
        self.ready_queue.push(task);
    }

    fn fetch(&mut self, tasks: &mut Vec<TaskControlBlock>) -> (r: Option<usize>) {
        if self.ready_queue.len() == 0 {
            return None;
        }
        let k: usize = self.min_stride_index(tasks);
        let pid: usize = self.ready_queue.remove(k);
        tasks[pid].inner.add_stride();
        proof {
            assert(is_minimal(old(self).ready_queue@, old(tasks)@, k as int));
            assert(tasks@ =~= old(tasks)@.update(pid as int, dispatched(old(tasks)@[pid as int])));
        }
        Some(pid)
    }
}

} // verus!
