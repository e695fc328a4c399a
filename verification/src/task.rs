use crate::context::TaskContext;
use crate::platform::{KernelEntry, KernelStack, LoadedImage, MemorySet, PidHandle, TrapContext};
use std::collections::BTreeMap;
use vstd::prelude::*;

verus! {

/// Range of the stride counter that one dispatch at weight 1 covers.
pub const BIG_STRIDE: usize = 0xffff_ffff;

/// Weight of a process that never asked for another.
pub const PRIORITY_INIT: usize = 16;

/// Pass of a process that has not run.
pub const PASS_INIT: usize = 0;

/// Number of system-call identifiers that the task-info record counts.
pub const MAX_SYSCALL_NUM: usize = 500;

/// Lifecycle status of a process.
#[derive(Copy, Clone, PartialEq, Eq, Structural, Debug)]
pub enum TaskStatus {
    UnInit,
    Ready,
    Running,
    Zombie,
}

impl TaskStatus {
    /// The status machine: a record becomes Ready when constructed, Running
    /// when dispatched, Ready again when it yields, Zombie when it exits.
    pub open spec fn may_become(self, next: TaskStatus) -> bool {
        match (self, next) {
            (TaskStatus::UnInit, TaskStatus::Ready) => true,
            (TaskStatus::Ready, TaskStatus::Running) => true,
            (TaskStatus::Running, TaskStatus::Ready) => true,
            (TaskStatus::Running, TaskStatus::Zombie) => true,
            _ => false,
        }
    }

    /// Either nothing happened or one legal transition did.
    pub open spec fn stays_or_becomes(self, next: TaskStatus) -> bool {
        self == next || self.may_become(next)
    }
}

/// Stride after one dispatch at weight `priority`, wrapping at the counter's width.
pub open spec fn stride_after(stride: usize, priority: usize) -> usize
    recommends
        priority > 0,
{
    let sum = stride + BIG_STRIDE as int / priority as int;
    if sum > usize::MAX {
        (sum - usize::MAX - 1) as usize
    } else {
        sum as usize
    }
}

/// The key under which a system-call identifier is counted.
pub open spec fn syscall_key(syscall_id: usize) -> u16 {
    (syscall_id % 0x10000) as u16
}

/// Count recorded under `key`, zero where none was.
pub open spec fn count_of(counts: Map<u16, u32>, key: u16) -> u32 {
    if counts.contains_key(key) {
        counts[key]
    } else {
        0
    }
}

/// Snapshot handed to a process that asks about itself.
pub struct TaskInfo {
    pub status: TaskStatus,
    pub syscall_times: Vec<u32>,
    pub time: usize,
}

/// The mutable part of a process control block.
pub struct TaskControlBlockInner {
    pub trap_cx_ppn: usize,
    pub trap_cx: TrapContext,
    pub base_size: usize,
    pub task_cx: TaskContext,
    pub task_status: TaskStatus,
    pub memory_set: MemorySet,
    pub parent: Option<usize>,
    pub children: Vec<usize>,
    pub exit_code: i32,
    pub syscall_times: BTreeMap<u16, u32>,
    pub start_time: usize,
    pub priority: usize,
    pub pass: usize,
    pub stride: usize,
}

/// A process: its identity and its mutable state.
pub struct TaskControlBlock {
    pub pid: PidHandle,
    pub kernel_stack: KernelStack,
    pub inner: TaskControlBlockInner,
}

impl TaskControlBlockInner {
    /// State of a process freshly built from `image`, with kernel stack top
    /// `kstack_top` and the given parent.
    pub open spec fn is_fresh(
        &self,
        image: LoadedImage,
        kstack_top: usize,
        kernel: KernelEntry,
        parent: Option<usize>,
    ) -> bool {
        &&& self.trap_cx_ppn == image.memory_set.trap_cx_ppn
        &&& self.trap_cx == (TrapContext {
            entry: image.entry_point,
            user_sp: image.user_sp,
            kernel_satp: kernel.kernel_token,
            kernel_sp: kstack_top,
            trap_handler: kernel.trap_handler,
        })
        &&& self.base_size == image.user_sp
        &&& self.task_cx.enters(kernel.trap_return, kstack_top)
        &&& self.task_status == TaskStatus::Ready
        &&& self.memory_set == image.memory_set
        &&& self.parent == parent
        &&& self.children@ == Seq::<usize>::empty()
        &&& self.exit_code == 0
        &&& self.syscall_times@ == Map::<u16, u32>::empty()
        &&& self.start_time == 0
        &&& self.priority == PRIORITY_INIT
        &&& self.pass == PASS_INIT
        &&& self.stride == 0
    }

    /// State of a process forked from `parent` into the duplicate address
    /// space `memory_set`: everything is the parent's but the address space,
    /// the kernel stack in both frames, the tree position and the exit code.
    pub open spec fn is_fork_of(
        &self,
        parent: TaskControlBlock,
        memory_set: MemorySet,
        kstack_top: usize,
        kernel: KernelEntry,
    ) -> bool {
        &&& self.trap_cx_ppn == memory_set.trap_cx_ppn
        &&& self.trap_cx == (TrapContext { kernel_sp: kstack_top, ..parent.inner.trap_cx })
        &&& self.base_size == parent.inner.base_size
        &&& self.task_cx.enters(kernel.trap_return, kstack_top)
        &&& self.task_status == TaskStatus::Ready
        &&& self.memory_set == memory_set
        &&& self.parent == Some(parent.pid.0)
        &&& self.children@ == Seq::<usize>::empty()
        &&& self.exit_code == 0
        &&& self.syscall_times@ == parent.inner.syscall_times@
        &&& self.start_time == parent.inner.start_time
        &&& self.priority == parent.inner.priority
        &&& self.pass == parent.inner.pass
        &&& self.stride == parent.inner.stride
    }

    /// The trap-entry frame, for the trap path to fill or read.
    pub fn get_trap_cx(&mut self) -> (r: &mut TrapContext)
        ensures
            *r == old(self).trap_cx,
            *final(self) == (TaskControlBlockInner { trap_cx: *final(r), ..*old(self) }),
    {
        &mut self.trap_cx
    }

    /// Token of the process's address space.
    pub fn get_user_token(&self) -> (r: usize)
        ensures
            r == self.memory_set.token,
    {
        self.memory_set.token()
    }

    /// Current lifecycle status.
    pub fn get_status(&self) -> (r: TaskStatus)
        ensures
            r == self.task_status,
    {
        self.task_status
    }

    /// Whether the process has exited and waits to be collected.
    pub fn is_zombie(&self) -> (r: bool)
        ensures
            r == (self.task_status == TaskStatus::Zombie),
    {
        self.get_status() == TaskStatus::Zombie
    }

    /// Fills the task-info record at time `now_us` (microseconds): status,
    /// one count per system-call identifier below `MAX_SYSCALL_NUM`, and the
    /// milliseconds since the first dispatch.
    pub fn get_task_info(&self, now_us: usize) -> (info: TaskInfo)
        requires
            now_us >= self.start_time,
        ensures
            info.status == self.task_status,
            info.time == (now_us - self.start_time) / 1000,
            info.syscall_times@.len() == MAX_SYSCALL_NUM,
            forall|i: int|
                0 <= i < MAX_SYSCALL_NUM ==> info.syscall_times@[i] == count_of(
                    self.syscall_times@,
                    i as u16,
                ),
    {
        broadcast use vstd::std_specs::btree::group_btree_axioms;

        let mut count: Vec<u32> = Vec::new();
        let mut id: usize = 0;
        while id < MAX_SYSCALL_NUM
            invariant
                id <= MAX_SYSCALL_NUM,
                count@.len() == id,
                forall|i: int|
                    0 <= i < id ==> count@[i] == count_of(self.syscall_times@, i as u16),
            decreases MAX_SYSCALL_NUM - id,
        {
            let key: u16 = id as u16;
            let times: u32 = match self.syscall_times.get(&key) {
                Some(c) => *c,
                None => 0,
            };
            count.push(times);
            id += 1;
        }
        TaskInfo {
            status: self.task_status,
            syscall_times: count,
            time: (now_us - self.start_time) / 1000,
        }
    }

    /// Counts one more invocation of `syscall_id`.
    pub fn increase_task_syscall(&mut self, syscall_id: usize)
        requires
            count_of(old(self).syscall_times@, syscall_key(syscall_id)) < u32::MAX,
        ensures
            final(self).syscall_times@ == old(self).syscall_times@.insert(
                syscall_key(syscall_id),
                (count_of(old(self).syscall_times@, syscall_key(syscall_id)) + 1) as u32,
            ),
            *final(self) == (TaskControlBlockInner {
                syscall_times: final(self).syscall_times,
                ..*old(self)
            }),
    {
        broadcast use vstd::std_specs::btree::group_btree_axioms;

        let key: u16 = (syscall_id % 0x10000) as u16;
        let times: u32 = match self.syscall_times.get(&key) {
            Some(c) => *c,
            None => 0,
        };
        self.syscall_times.insert(key, times + 1);
    }

    /// Advances the stride by one dispatch at this process's weight.
    pub fn add_stride(&mut self)
        requires
            old(self).priority > 0,
        ensures
            *final(self) == (TaskControlBlockInner {
                stride: stride_after(old(self).stride, old(self).priority),
                ..*old(self)
            }),
            old(self).stride + BIG_STRIDE / old(self).priority <= usize::MAX
                ==> final(self).stride == old(self).stride + BIG_STRIDE / old(self).priority,
    {
        self.stride = self.stride.wrapping_add(BIG_STRIDE / self.priority);
    }
}

impl TaskControlBlock {
    /// Exclusive access to the mutable state.
    pub fn inner_exclusive_access(&mut self) -> (r: &mut TaskControlBlockInner)
        ensures
            *r == old(self).inner,
            *final(self) == (TaskControlBlock { inner: *final(r), ..*old(self) }),
    {
        &mut self.inner
    }

    /// The process identifier.
    pub fn getpid(&self) -> (r: usize)
        ensures
            r == self.pid.0,
    {
        self.pid.0
    }

    /// A process built from a loaded image: Ready, no parent, no children,
    /// default weight, stride zero, first resumed at the trampoline.
    pub fn new(
        pid: PidHandle,
        kernel_stack: KernelStack,
        image: LoadedImage,
        kernel: &KernelEntry,
    ) -> (r: Self)
        ensures
            r.pid == pid,
            r.kernel_stack == kernel_stack,
            r.inner.is_fresh(image, kernel_stack.top, *kernel, None),
    {
        Self::build(pid, kernel_stack, image, kernel, None)
    }

    /// The record of a process built from a loaded image, with the given
    /// parent reference.
    fn build(
        pid: PidHandle,
        kernel_stack: KernelStack,
        image: LoadedImage,
        kernel: &KernelEntry,
        parent: Option<usize>,
    ) -> (r: Self)
        ensures
            r.pid == pid,
            r.kernel_stack == kernel_stack,
            r.inner.is_fresh(image, kernel_stack.top, *kernel, parent),
    {
        let kernel_stack_top = kernel_stack.get_top();
        TaskControlBlock {
            pid,
            kernel_stack,
            inner: TaskControlBlockInner {
                trap_cx_ppn: image.memory_set.trap_cx_ppn,
                trap_cx: TrapContext::app_init_context(
                    image.entry_point,
                    image.user_sp,
                    kernel.kernel_token,
                    kernel_stack_top,
                    kernel.trap_handler,
                ),
                base_size: image.user_sp,
                task_cx: TaskContext::goto_trap_return(kernel.trap_return, kernel_stack_top),
                task_status: TaskStatus::Ready,
                memory_set: image.memory_set,
                parent,
                children: Vec::new(),
                exit_code: 0,
                syscall_times: BTreeMap::new(),
                start_time: 0,
                priority: PRIORITY_INIT,
                pass: PASS_INIT,
                stride: 0,
            },
        }
    }

    /// Replaces the program: the address space, the frame page and the
    /// trap-entry frame come from `image`; identity, tree position, status,
    /// scheduling and accounting fields stay.
    pub fn exec(&mut self, image: LoadedImage, kernel: &KernelEntry)
        ensures
            final(self).pid == old(self).pid,
            final(self).kernel_stack == old(self).kernel_stack,
            final(self).inner == (TaskControlBlockInner {
                memory_set: image.memory_set,
                trap_cx_ppn: image.memory_set.trap_cx_ppn,
                trap_cx: TrapContext {
                    entry: image.entry_point,
                    user_sp: image.user_sp,
                    kernel_satp: kernel.kernel_token,
                    kernel_sp: old(self).kernel_stack.top,
                    trap_handler: kernel.trap_handler,
                },
                ..old(self).inner
            }),
    {
        self.inner.memory_set = image.memory_set;
        self.inner.trap_cx_ppn = image.memory_set.trap_cx_ppn;
        self.inner.trap_cx = TrapContext::app_init_context(
            image.entry_point,
            image.user_sp,
            kernel.kernel_token,
            self.kernel_stack.get_top(),
            kernel.trap_handler,
        );
    }

    /// Forks this process into the duplicate address space `memory_set`. The
    /// child inherits the trap frame but for its kernel stack pointer, and
    /// the scheduling and accounting fields; it names this process as parent
    /// and is appended to this process's children. Nothing else of the
    /// parent changes.
    pub fn fork(
        &mut self,
        pid: PidHandle,
        kernel_stack: KernelStack,
        memory_set: MemorySet,
        kernel: &KernelEntry,
    ) -> (child: TaskControlBlock)
        ensures
            child.pid == pid,
            child.kernel_stack == kernel_stack,
            child.inner.is_fork_of(*old(self), memory_set, kernel_stack.top, *kernel),
            final(self).inner.children@ == old(self).inner.children@.push(pid.0),
            *final(self) == (TaskControlBlock {
                inner: TaskControlBlockInner {
                    children: final(self).inner.children,
                    ..old(self).inner
                },
                ..*old(self)
            }),
    {
        broadcast use vstd::std_specs::btree::group_btree_axioms;

        let kernel_stack_top = kernel_stack.get_top();
        let mut trap_cx = self.inner.trap_cx;
        trap_cx.kernel_sp = kernel_stack_top;
        let child = TaskControlBlock {
            pid,
            kernel_stack,
            inner: TaskControlBlockInner {
                trap_cx_ppn: memory_set.trap_cx_ppn,
                trap_cx,
                base_size: self.inner.base_size,
                task_cx: TaskContext::goto_trap_return(kernel.trap_return, kernel_stack_top),
                task_status: TaskStatus::Ready,
                memory_set,
                parent: Some(self.pid.0),
                children: Vec::new(),
                exit_code: 0,
                syscall_times: self.inner.syscall_times.clone(),
                start_time: self.inner.start_time,
                priority: self.inner.priority,
                pass: self.inner.pass,
                stride: self.inner.stride,
            },
        };
        self.inner.children.push(pid.0);
        child
    }

    /// Spawns a child from a loaded image: fresh state as `new` gives it,
    /// with this process as parent, appended to this process's children.
    /// Nothing else of the parent changes.
    pub fn spawn(
        &mut self,
        pid: PidHandle,
        kernel_stack: KernelStack,
        image: LoadedImage,
        kernel: &KernelEntry,
    ) -> (child: TaskControlBlock)
        ensures
            child.pid == pid,
            child.kernel_stack == kernel_stack,
            child.inner.is_fresh(image, kernel_stack.top, *kernel, Some(old(self).pid.0)),
            final(self).inner.children@ == old(self).inner.children@.push(pid.0),
            *final(self) == (TaskControlBlock {
                inner: TaskControlBlockInner {
                    children: final(self).inner.children,
                    ..old(self).inner
                },
                ..*old(self)
            }),
    {
        let child = Self::build(pid, kernel_stack, image, kernel, Some(self.pid.0));
        self.inner.children.push(pid.0);
        child
    }
}

/// A dispatch that does not wrap the counter never lowers the stride.
pub proof fn lemma_stride_never_decreases(stride: usize, priority: usize)
    requires
        priority > 0,
        stride + BIG_STRIDE / priority <= usize::MAX,
    ensures
        stride_after(stride, priority) >= stride,
        stride_after(stride, priority) == stride + BIG_STRIDE / priority,
{
}

/// Zombie is terminal, and a record that is not yet initialised can only
/// become Ready.
pub proof fn lemma_status_machine(from: TaskStatus, to: TaskStatus)
    ensures
        from == TaskStatus::Zombie ==> !from.may_become(to),
        from == TaskStatus::UnInit ==> (from.may_become(to) <==> to == TaskStatus::Ready),
        from == TaskStatus::Zombie && from.stays_or_becomes(to) ==> to == TaskStatus::Zombie,
{
}

} // verus!
