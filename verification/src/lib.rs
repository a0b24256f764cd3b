//! Process and memory core of a small cooperative, single-core kernel:
//! task control blocks, a round-robin scheduler, and per-task address-space
//! bookkeeping for memory-map requests.
//!
//! The library holds state and decisions only. Whatever touches hardware
//! (the context-switch primitive, page tables, the clock) belongs to the
//! kernel that embeds it, which acts on the values returned from here: a
//! scheduling operation returns the [`task::ContextSwitch`] to perform, a
//! memory request leaves the new list of mapped areas to be backed with
//! frames.
//!
//! Contracts are stated over mathematical views. A task control block is
//! seen as a [`task::TaskView`], the task manager as a
//! [`task::ManagerView`], and every operation says which view it leaves
//! behind. What holds across calls is proved in [`task::laws`].
//!
//! - [`config`]: the page size and the limits of requests.
//! - [`error`]: the closed set of refusals.
//! - [`mm`]: addresses, page ranges, access rights, mapped areas.
//! - [`task`]: the task control block, the task manager and its laws.
//! - [`syscall`]: the entry points for the system-call dispatcher.

pub mod config;
pub mod error;
pub mod mm;
pub mod syscall;
pub mod task;
