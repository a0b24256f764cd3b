//! Address-space bookkeeping: addresses, page ranges, permissions and the
//! set of mapped areas a task owns.

pub mod address;
pub mod memory_set;

pub use address::{PhysPageNum, VPNRange, VirtAddr, VirtPageNum};
pub use memory_set::{MapArea, MapPermission, MemorySet};
