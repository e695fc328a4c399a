//! Process scheduling and lifecycle core of a single-core teaching kernel:
//! process control blocks, a stride-ordered ready set, the per-core processor
//! state, and the scheduler that ties them together.
pub mod context;
pub mod forest;
pub mod manager;
pub mod order;
pub mod platform;
pub mod processor;
pub mod scheduler;
pub mod task;
