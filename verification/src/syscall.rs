//! The entry points that the system-call dispatcher reaches.

pub mod process;

pub use process::{sys_exit, sys_get_time, sys_mmap, sys_munmap, sys_yield, TimeVal};
