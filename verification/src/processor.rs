use crate::context::TaskContext;
use vstd::prelude::*;

verus! {

/// Per-core state: the process that runs, if any, and the idle frame.
pub struct Processor {
    pub current: Option<usize>,
    pub idle_task_cx: TaskContext,
}

impl Processor {
    /// A processor that runs nothing, with a zeroed idle frame.
    pub fn new() -> (r: Self)
        ensures
            r.current is None,
            r.idle_task_cx.enters(0, 0),
    {
        Processor { current: None, idle_task_cx: TaskContext::zero_init() }
    }

    /// The idle frame, for the switch primitive to save into or resume.
    pub fn get_idle_task_cx_ptr(&mut self) -> (r: &mut TaskContext)
        ensures
            *r == old(self).idle_task_cx,
            *final(self) == (Processor { idle_task_cx: *final(r), ..*old(self) }),
    {
        &mut self.idle_task_cx
    }

    /// Removes and returns the running process.
    pub fn take_current(&mut self) -> (r: Option<usize>)
        ensures
            r == old(self).current,
            *final(self) == (Processor { current: None, ..*old(self) }),
    {
        self.current.take()
    }

    /// The running process, which stays installed.
    pub fn current(&self) -> (r: Option<usize>)
        ensures
            r == self.current,
    {
        self.current
    }
}

} // verus!
