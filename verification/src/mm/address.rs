//! Virtual addresses, page numbers and half-open ranges of page numbers.

use vstd::prelude::*;
use crate::config::PAGE_SIZE;

verus! {

/// Number of the page that holds byte address `addr`.
pub open spec fn page_floor(addr: int) -> int {
    addr / (PAGE_SIZE as int)
}

/// Number of the first page that starts at or after byte address `addr`.
pub open spec fn page_ceil(addr: int) -> int {
    (addr + PAGE_SIZE - 1) / (PAGE_SIZE as int)
}

/// The range of pages that the `len` bytes at byte address `start` touch:
/// from the page of the first byte up to the first page that starts at or
/// after the end. For `len == 0` at a page-aligned `start` it holds no
/// page.
pub open spec fn requested_range(start: usize, len: usize) -> VPNRange {
    VPNRange {
        start: VirtPageNum(page_floor(start as int) as usize),
        end: VirtPageNum(page_ceil(start + len) as usize),
    }
}

/// A byte address in a virtual address space.
#[derive(Clone, Copy, Debug, PartialEq, Eq, Structural)]
pub struct VirtAddr(pub usize);

/// The number of a virtual page: a virtual address divided by the page size.
#[derive(Clone, Copy, Debug, PartialEq, Eq, Structural)]
pub struct VirtPageNum(pub usize);

/// The number of a physical page frame.
#[derive(Clone, Copy, Debug, PartialEq, Eq, Structural)]
pub struct PhysPageNum(pub usize);

impl VirtAddr {
    /// The page that holds this address.
    pub fn floor(&self) -> (vpn: VirtPageNum)
        ensures
            vpn.0 == page_floor(self.0 as int),
    {
        VirtPageNum(self.0 / PAGE_SIZE)
    }

    /// The first page that starts at or after this address.
    pub fn ceil(&self) -> (vpn: VirtPageNum)
        ensures
            vpn.0 == page_ceil(self.0 as int),
    {
        let whole: usize = self.0 / PAGE_SIZE;
        if self.0 % PAGE_SIZE == 0 {
            VirtPageNum(whole)
        } else {
            VirtPageNum(whole + 1)
        }
    }

    /// Distance of this address from the start of its page.
    pub fn page_offset(&self) -> (offset: usize)
        ensures
            offset == self.0 % PAGE_SIZE,
    {
        self.0 % PAGE_SIZE
    }

    /// Whether this address is the first byte of a page.
    pub fn aligned(&self) -> (yes: bool)
        ensures
            yes <==> self.0 % PAGE_SIZE == 0,
    {
        self.page_offset() == 0
    }
}

/// The pages `start, start + 1, ..., end - 1`. A range whose `end` is not
/// above its `start` holds no page.
#[derive(Clone, Copy, Debug, PartialEq, Eq, Structural)]
pub struct VPNRange {
    pub start: VirtPageNum,
    pub end: VirtPageNum,
}

impl VPNRange {
    /// Whether page number `vpn` lies in the range.
    pub open spec fn contains(self, vpn: int) -> bool {
        self.start.0 <= vpn < self.end.0
    }

    /// Whether the two ranges share at least one page number.
    pub open spec fn overlaps(self, other: VPNRange) -> bool {
        exists|vpn: int| #[trigger] self.contains(vpn) && other.contains(vpn)
    }

    /// The range from `start` up to, but without, `end`.
    pub fn new(start: VirtPageNum, end: VirtPageNum) -> (range: Self)
        ensures
            range.start == start,
            range.end == end,
    {
        VPNRange { start, end }
    }

    /// The first page of the range.
    pub fn get_start(&self) -> (vpn: VirtPageNum)
        ensures
            vpn == self.start,
    {
        self.start
    }

    /// The page behind the last page of the range.
    pub fn get_end(&self) -> (vpn: VirtPageNum)
        ensures
            vpn == self.end,
    {
        self.end
    }

    /// Decides whether two ranges share a page.
    pub fn is_overlap(&self, other: VPNRange) -> (yes: bool)
        ensures
            yes == self.overlaps(other),
    {
        let low: usize = if self.start.0 >= other.start.0 {
            self.start.0
        } else {
            other.start.0
        };
        let high: usize = if self.end.0 <= other.end.0 {
            self.end.0
        } else {
            other.end.0
        };
        proof {
            if low < high {
                assert(self.contains(low as int) && other.contains(low as int));
            }
        }
        low < high
    }

    /// The range of pages that the `len` bytes at address `start` touch.
    /// The sum `start + len` is taken over the integers, so a request that
    /// runs past the top of the address space is still measured exactly.
    pub fn covering(start: usize, len: usize) -> (range: Self)
        ensures
            range == requested_range(start, len),
    {
        let whole: usize = start / PAGE_SIZE + len / PAGE_SIZE;
        let rest: usize = start % PAGE_SIZE + len % PAGE_SIZE;
        let end: usize = whole + (rest + (PAGE_SIZE - 1)) / PAGE_SIZE;
        VPNRange { start: VirtPageNum(start / PAGE_SIZE), end: VirtPageNum(end) }
    }
}

} // verus!
