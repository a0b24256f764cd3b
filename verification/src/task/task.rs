//! The task control block and the memory-map logic that works on its
//! address space.

use vstd::prelude::*;
use crate::config::{MAX_MAP_LEN, PAGE_SIZE};
use crate::error::KernelError;
use crate::mm::address::{requested_range, PhysPageNum, VPNRange, VirtAddr};
use crate::mm::memory_set::{
    overlaps_any, pairwise_disjoint, unmap_target, MapArea, MapPermission, MemorySet,
};
use crate::task::context::TaskContext;
use crate::task::laws::{
    lemma_map_keeps_disjoint, lemma_map_twice_refused, lemma_unmap_keeps_disjoint,
};

verus! {

/// Where a task stands in its life. `Exited` is final.
#[derive(Clone, Copy, Debug, PartialEq, Eq, Structural)]
pub enum TaskStatus {
    Ready,
    Running,
    Exited,
}

/// What loading one application yields: its address space, the top of its
/// user stack, the frame that holds its trap context, and the top of the
/// kernel stack set aside for it.
#[derive(Debug, PartialEq, Eq)]
pub struct LoadedApp {
    pub memory_set: MemorySet,
    pub user_sp: usize,
    pub trap_cx_ppn: PhysPageNum,
    pub kernel_stack_top: usize,
}

/// The unit of scheduling.
#[derive(Debug, PartialEq, Eq)]
pub struct TaskControlBlock {
    pub task_status: TaskStatus,
    pub task_cx: TaskContext,
    pub memory_set: MemorySet,
    pub trap_cx_ppn: PhysPageNum,
    pub base_size: usize,
}

/// What a task control block holds, as a mathematical value.
#[verifier::ext_equal]
pub struct TaskView {
    pub status: TaskStatus,
    pub context: TaskContext,
    /// The mapped areas of the address space, in the order of insertion.
    pub areas: Seq<MapArea>,
    /// The token of the address space.
    pub token: usize,
    pub trap_cx_ppn: PhysPageNum,
    pub base_size: usize,
}

impl View for TaskControlBlock {
    type V = TaskView;

    open spec fn view(&self) -> TaskView {
        TaskView {
            status: self.task_status,
            context: self.task_cx,
            areas: self.memory_set@,
            token: self.memory_set.root_token,
            trap_cx_ppn: self.trap_cx_ppn,
            base_size: self.base_size,
        }
    }
}

impl LoadedApp {
    /// The task that [`TaskControlBlock::new`] makes of this application:
    /// ready, never run, owning the address space that loading gave it.
    pub open spec fn fresh_task(self) -> TaskView {
        TaskView {
            status: TaskStatus::Ready,
            context: TaskContext::TrapReturn { kernel_stack_top: self.kernel_stack_top },
            areas: self.memory_set@,
            token: self.memory_set.root_token,
            trap_cx_ppn: self.trap_cx_ppn,
            base_size: self.user_sp,
        }
    }
}

/// Whether a mapping request is well formed: a length within the ceiling,
/// a page-aligned start, and request bits that name a right.
pub open spec fn map_request_valid(start: usize, len: usize, port: usize) -> bool {
    &&& len <= MAX_MAP_LEN
    &&& start % PAGE_SIZE == 0
    &&& MapPermission::port_valid(port)
}

/// What a mapping request means for an address space that holds `areas`:
/// nothing for an empty request, else it is refused as malformed, else
/// refused when it meets an existing area, else the area given is to be
/// added.
pub open spec fn map_request(areas: Seq<MapArea>, start: usize, len: usize, port: usize) -> Result<
    Option<MapArea>,
    KernelError,
> {
    if len == 0 {
        Ok(None)
    } else if !map_request_valid(start, len, port) {
        Err(KernelError::InvalidArgument)
    } else if overlaps_any(areas, requested_range(start, len)) {
        Err(KernelError::AddressAlreadyMapped)
    } else {
        Ok(
            Some(
                MapArea {
                    vpn_range: requested_range(start, len),
                    map_perm: MapPermission::of_port(port),
                },
            ),
        )
    }
}

/// The answer to a mapping request on an address space that holds `areas`.
pub open spec fn map_result(areas: Seq<MapArea>, start: usize, len: usize, port: usize) -> Result<
    (),
    KernelError,
> {
    match map_request(areas, start, len, port) {
        Ok(_) => Ok(()),
        Err(e) => Err(e),
    }
}

/// The answer to a request to unmap `len` bytes at address `start` from an
/// address space that holds `areas`: granted where one of the areas covers
/// exactly the pages of the request and is open to user code.
pub open spec fn unmap_result(areas: Seq<MapArea>, start: usize, len: usize) -> Result<
    (),
    KernelError,
> {
    if unmap_target(areas, requested_range(start, len)) is Some {
        Ok(())
    } else {
        Err(KernelError::NoSuchMapping)
    }
}

impl TaskView {
    /// The task after a mapping request: with the new area behind the
    /// others where the request is granted, unchanged where it is empty or
    /// refused.
    pub open spec fn mapped(self, start: usize, len: usize, port: usize) -> TaskView {
        match map_request(self.areas, start, len, port) {
            Ok(Some(area)) => TaskView { areas: self.areas.push(area), ..self },
            _ => self,
        }
    }

    /// The task after an unmap request: without the first area that the
    /// request addresses, the others in their order, or unchanged where it
    /// addresses none.
    pub open spec fn unmapped(self, start: usize, len: usize) -> TaskView {
        match unmap_target(self.areas, requested_range(start, len)) {
            Some(index) => TaskView { areas: self.areas.remove(index), ..self },
            None => self,
        }
    }
}

impl TaskControlBlock {
    /// The control block of a task that has not run yet: ready, primed to
    /// enter user mode by the return-from-trap path on its kernel stack,
    /// owning the address space that loading gave it.
    pub fn new(app: LoadedApp) -> (task: Self)
        ensures
            task@ == app.fresh_task(),
    {
        TaskControlBlock {
            task_status: TaskStatus::Ready,
            task_cx: TaskContext::goto_trap_return(app.kernel_stack_top),
            memory_set: app.memory_set,
            trap_cx_ppn: app.trap_cx_ppn,
            base_size: app.user_sp,
        }
    }

    /// The frame where the trap context of the task is kept.
    pub fn get_trap_cx(&self) -> (frame: PhysPageNum)
        ensures
            frame == self@.trap_cx_ppn,
    {
        self.trap_cx_ppn
    }

    /// The token of the address space that the task owns.
    pub fn get_user_token(&self) -> (token: usize)
        ensures
            token == self@.token,
    {
        self.memory_set.token()
    }

    /// Maps `len` bytes at address `start` with the rights that `port`
    /// asks for. An empty request succeeds and maps nothing. A request is
    /// judged in full before anything changes, so a refused one leaves the
    /// address space as it was.
    pub fn map_memory_area(&mut self, start: usize, len: usize, port: usize) -> (result: Result<
        (),
        KernelError,
    >)
        ensures
            result == map_result(old(self)@.areas, start, len, port),
            final(self)@ == old(self)@.mapped(start, len, port),
            len > 0 && result is Ok ==> map_result(final(self)@.areas, start, len, port) == Err::<
                (),
                KernelError,
            >(KernelError::AddressAlreadyMapped),
            pairwise_disjoint(old(self)@.areas) ==> pairwise_disjoint(final(self)@.areas),
    {
        proof {
            lemma_map_twice_refused(self@, start, len, port);
            if pairwise_disjoint(self@.areas) {
                lemma_map_keeps_disjoint(self@, start, len, port);
            }
        }
        if len == 0 {
            return Ok(());
        }
        if len > MAX_MAP_LEN {
            return Err(KernelError::InvalidArgument);
        }
        if !VirtAddr(start).aligned() {
            return Err(KernelError::InvalidArgument);
        }
        if !MapPermission::check_port(port) {
            return Err(KernelError::InvalidArgument);
        }
        let new_range: VPNRange = VPNRange::covering(start, len);
        if self.memory_set.is_mapped(new_range) {
            return Err(KernelError::AddressAlreadyMapped);
        }
        let permission: MapPermission = MapPermission::from_port(port);
        self.memory_set.insert_framed_area(new_range.get_start(), new_range.get_end(), permission);
        Ok(())
    }

    /// Removes the mapping that covers exactly the pages of the `len`
    /// bytes at address `start`. Only areas that user code has access to
    /// can be addressed this way.
    pub fn unmap_memory_area(&mut self, start: usize, len: usize) -> (result: Result<
        (),
        KernelError,
    >)
        ensures
            result == unmap_result(old(self)@.areas, start, len),
            final(self)@ == old(self)@.unmapped(start, len),
            pairwise_disjoint(old(self)@.areas) ==> pairwise_disjoint(final(self)@.areas),
    {
        proof {
            if pairwise_disjoint(self@.areas) {
                lemma_unmap_keeps_disjoint(self@, start, len);
            }
        }
        let range: VPNRange = VPNRange::covering(start, len);
        match self.memory_set.find_unmap_target(range) {
            Some(index) => {
                self.memory_set.remove_area(index);
                Ok(())
            },
            None => Err(KernelError::NoSuchMapping),
        }
    }
}

} // verus!
