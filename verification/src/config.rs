//! Sizes shared by the address-space and task modules.

use vstd::prelude::*;

verus! {

/// Bytes in one page of virtual memory.
pub const PAGE_SIZE: usize = 4096;

/// Largest byte length a single mapping request may ask for (1 GiB).
pub const MAX_MAP_LEN: usize = 1073741824;

/// Microseconds in one second.
pub const MICROS_PER_SEC: usize = 1000000;

} // verus!
