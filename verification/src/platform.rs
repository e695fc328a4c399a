use vstd::prelude::*;

verus! {

/// A process identifier.
#[derive(Copy, Clone, PartialEq, Eq, Structural, Debug)]
pub struct PidHandle(pub usize);

/// Handle of a process's dedicated kernel-mode stack.
#[derive(Copy, Clone, PartialEq, Eq, Structural, Debug)]
pub struct KernelStack {
    pub top: usize,
}

impl KernelStack {
    /// Address just past the highest byte of the stack.
    pub fn get_top(&self) -> (r: usize)
        ensures
            r == self.top,
    {
        self.top
    }
}

/// What the scheduler reads of an address space: the token that activates
/// it, the physical page that holds its trap-entry frame, and how many data
/// pages back it.
#[derive(Copy, Clone, PartialEq, Eq, Structural, Debug)]
pub struct MemorySet {
    pub token: usize,
    pub trap_cx_ppn: usize,
    pub data_pages: usize,
}

impl MemorySet {
    /// Token that identifies this address space to the hardware.
    pub fn token(&self) -> (r: usize)
        ensures
            r == self.token,
    {
        self.token
    }

    /// Gives back every backing data page; token and frame page stay.
    pub fn recycle_data_pages(&mut self)
        ensures
            *final(self) == (MemorySet { data_pages: 0, ..*old(self) }),
    {
        self.data_pages = 0;
    }
}

/// An executable image once the address-space manager has built it.
#[derive(Copy, Clone, PartialEq, Eq, Structural, Debug)]
pub struct LoadedImage {
    pub memory_set: MemorySet,
    pub user_sp: usize,
    pub entry_point: usize,
}

/// Addresses of the kernel's own entry points, fixed at boot.
#[derive(Copy, Clone, PartialEq, Eq, Structural, Debug)]
pub struct KernelEntry {
    /// Token of the kernel's address space.
    pub kernel_token: usize,
    /// Entry of the trap handler.
    pub trap_handler: usize,
    /// Entry of the return-to-user trampoline.
    pub trap_return: usize,
}

/// Trap-entry frame: what a process needs to resume in user mode.
#[derive(Copy, Clone, PartialEq, Eq, Structural, Debug)]
pub struct TrapContext {
    pub entry: usize,
    pub user_sp: usize,
    pub kernel_satp: usize,
    pub kernel_sp: usize,
    pub trap_handler: usize,
}

impl TrapContext {
    /// Frame of a process that has not run yet.
    pub fn app_init_context(
        entry: usize,
        sp: usize,
        kernel_satp: usize,
        kernel_sp: usize,
        trap_handler: usize,
    ) -> (r: Self)
        ensures
            r == (TrapContext { entry, user_sp: sp, kernel_satp, kernel_sp, trap_handler }),
    {
        TrapContext { entry, user_sp: sp, kernel_satp, kernel_sp, trap_handler }
    }
}

} // verus!
