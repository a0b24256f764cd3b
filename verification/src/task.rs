//! Task control blocks and the round-robin scheduler over them.

pub mod context;
pub mod laws;
pub mod manager;
pub mod task;

pub use context::TaskContext;
pub use manager::{
    current_trap_cx, current_user_token, exit_current_and_run_next, map_new_memory,
    run_first_task, suspend_current_and_run_next, unmap_memory, ContextSwitch, ManagerView,
    TaskManager,
};
pub use task::{LoadedApp, TaskControlBlock, TaskStatus, TaskView};
