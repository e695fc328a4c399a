use vstd::prelude::*;

verus! {

/// Saved register frame of a suspended flow of control: where it resumes
/// (`ra`), on which stack (`sp`), and its callee-saved registers.
#[derive(Copy, Clone, Debug)]
pub struct TaskContext {
    pub ra: usize,
    pub sp: usize,
    pub s: [usize; 12],
}

impl TaskContext {
    /// The frame resumes at `ra` on stack `sp` with all saved registers zero.
    pub open spec fn enters(&self, ra: usize, sp: usize) -> bool {
        &&& self.ra == ra
        &&& self.sp == sp
        &&& forall|i: int| 0 <= i < 12 ==> self.s[i] == 0
    }

    /// A frame with every register zero, used as a throwaway save slot.
    pub fn zero_init() -> (r: Self)
        ensures
            r.enters(0, 0),
    {
        TaskContext { ra: 0, sp: 0, s: [0; 12] }
    }

    /// A frame that, when first switched into, begins at the return-to-user
    /// trampoline `trap_return` on the kernel stack whose top is `kstack_ptr`.
    pub fn goto_trap_return(trap_return: usize, kstack_ptr: usize) -> (r: Self)
        ensures
            r.enters(trap_return, kstack_ptr),
    {
        TaskContext { ra: trap_return, sp: kstack_ptr, s: [0; 12] }
    }
}

/// One of the places a register frame can be saved to or restored from.
#[derive(Copy, Clone, PartialEq, Eq, Structural, Debug)]
pub enum ContextSlot {
    /// The processor's idle frame, in which the scheduler loop runs.
    Idle,
    /// The frame owned by the process with this identifier.
    Task(usize),
    /// A zeroed frame that is written once and never resumed.
    Scratch,
}

/// A context switch for the caller to perform: save into `from`, resume `to`.
#[derive(Copy, Clone, PartialEq, Eq, Structural, Debug)]
pub struct SwitchRequest {
    pub from: ContextSlot,
    pub to: ContextSlot,
}

} // verus!
