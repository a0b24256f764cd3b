//! What holds of the scheduler and of memory mapping across calls, stated
//! over the views of the task manager and of the task control block.

use vstd::prelude::*;
use vstd::arithmetic::div_mod::lemma_fundamental_div_mod_converse;
use crate::config::PAGE_SIZE;
use crate::error::KernelError;
use crate::mm::address::{page_ceil, page_floor, requested_range, VPNRange, VirtPageNum};
use crate::mm::memory_set::{
    lemma_unmap_target_is, pairwise_disjoint, unmap_matches, unmap_target,
};
use crate::task::manager::{
    all_exited, cyclic_after, first_ready_at, first_ready_from, is_first_ready_after, next_ready,
    no_ready, ContextSwitch, ManagerView,
};
use crate::task::task::{map_request, map_result, unmap_result, TaskStatus, TaskView};

verus! {

/// Whether every task that has exited in `pre` has exited in `post` too.
pub open spec fn exits_are_final(pre: Seq<TaskStatus>, post: Seq<TaskStatus>) -> bool {
    forall|i: int|
        0 <= i < pre.len() && i < post.len() && #[trigger] pre[i] is Exited ==> post[i] is Exited
}

/// Stepping round the ring is addition modulo the number of tasks.
pub proof fn lemma_cyclic_after_is_mod(current: int, offset: int, n: int)
    requires
        0 <= current < n,
        0 <= offset <= n,
    ensures
        cyclic_after(current, offset, n) == (current + offset) % n,
        0 <= cyclic_after(current, offset, n) < n,
{
    if current + offset < n {
        lemma_fundamental_div_mod_converse(current + offset, n, 0, current + offset);
    } else {
        lemma_fundamental_div_mod_converse(current + offset, n, 1, current + offset - n);
    }
}

/// The search from `d` finds the first ready task that lies `d` or more
/// steps after `current`, and finds none only where none of them is
/// ready.
proof fn lemma_first_ready_from(statuses: Seq<TaskStatus>, current: int, d: int)
    requires
        0 <= current < statuses.len(),
        1 <= d <= statuses.len() + 1,
    ensures
        match first_ready_from(statuses, current, d) {
            Some(next) => exists|at: int|
                {
                    &&& d <= at <= statuses.len()
                    &&& #[trigger] cyclic_after(current, at, statuses.len() as int) == next
                    &&& 0 <= next < statuses.len()
                    &&& statuses[next] is Ready
                    &&& forall|e: int|
                        #![trigger cyclic_after(current, e, statuses.len() as int)]
                        d <= e < at ==> !(statuses[cyclic_after(
                            current,
                            e,
                            statuses.len() as int,
                        )] is Ready)
                },
            None => forall|e: int|
                #![trigger cyclic_after(current, e, statuses.len() as int)]
                d <= e <= statuses.len() ==> !(statuses[cyclic_after(
                    current,
                    e,
                    statuses.len() as int,
                )] is Ready),
        },
    decreases statuses.len() + 1 - d,
{
    let n = statuses.len() as int;
    if d <= n {
        if statuses[cyclic_after(current, d, n)] is Ready {
            // the task that lies `d` steps after `current` is the witness
            assert(first_ready_from(statuses, current, d) == Some(cyclic_after(current, d, n)));
        } else {
            lemma_first_ready_from(statuses, current, d + 1);
        }
    }
}

/// Round-robin fairness: what selection picks is the first ready task on
/// the ring after the current one, and selection picks nothing only where
/// no task is ready.
pub proof fn lemma_next_ready_is_first(statuses: Seq<TaskStatus>, current: int)
    requires
        0 <= current < statuses.len(),
    ensures
        match next_ready(statuses, current) {
            Some(next) => {
                &&& 0 <= next < statuses.len()
                &&& is_first_ready_after(statuses, current, next)
            },
            None => no_ready(statuses),
        },
{
    let n = statuses.len() as int;
    lemma_first_ready_from(statuses, current, 1);
    match next_ready(statuses, current) {
        Some(next) => {
            let at = choose|at: int|
                {
                    &&& 1 <= at <= n
                    &&& #[trigger] cyclic_after(current, at, n) == next
                    &&& 0 <= next < n
                    &&& statuses[next] is Ready
                    &&& forall|e: int|
                        #![trigger cyclic_after(current, e, n)]
                        1 <= e < at ==> !(statuses[cyclic_after(current, e, n)] is Ready)
                };
            assert(first_ready_at(statuses, current, at, next));
        },
        None => {
            assert forall|i: int| 0 <= i < n implies !(#[trigger] statuses[i] is Ready) by {
                let e = if i > current {
                    i - current
                } else {
                    i - current + n
                };
                assert(cyclic_after(current, e, n) == i);
            }
        },
    }
}

/// The first ready task on the ring after the current one is one task
/// only, and it is the one that selection picks.
pub proof fn lemma_first_ready_is_next(statuses: Seq<TaskStatus>, current: int, next: int)
    requires
        0 <= current < statuses.len(),
        is_first_ready_after(statuses, current, next),
    ensures
        next_ready(statuses, current) == Some(next),
{
    let n = statuses.len() as int;
    lemma_next_ready_is_first(statuses, current);
    let d = choose|d: int| first_ready_at(statuses, current, d, next);
    match next_ready(statuses, current) {
        Some(found) => {
            let at = choose|at: int| first_ready_at(statuses, current, at, found);
            if at < d {
                assert(!(statuses[cyclic_after(current, at, n)] is Ready));
            } else if d < at {
                assert(!(statuses[cyclic_after(current, d, n)] is Ready));
            }
        },
        None => {
            assert(statuses[next] is Ready);
        },
    }
}

/// Full-cycle wraparound: where the current task is the only ready one,
/// selection comes back to it.
pub proof fn lemma_only_ready_is_next(statuses: Seq<TaskStatus>, current: int)
    requires
        0 <= current < statuses.len(),
        statuses[current] is Ready,
        forall|i: int|
            0 <= i < statuses.len() && i != current ==> !(#[trigger] statuses[i] is Ready),
    ensures
        next_ready(statuses, current) == Some(current),
{
    let n = statuses.len() as int;
    assert(first_ready_at(statuses, current, n, current));
    lemma_first_ready_is_next(statuses, current, current);
}

/// Where the task that lies `e` steps after `current` is ready, the
/// search from any `d` up to `e` finds a task.
proof fn lemma_first_ready_found(statuses: Seq<TaskStatus>, current: int, d: int, e: int)
    requires
        1 <= d <= e <= statuses.len(),
        statuses[cyclic_after(current, e, statuses.len() as int)] is Ready,
    ensures
        first_ready_from(statuses, current, d) is Some,
    decreases e - d,
{
    if d < e {
        lemma_first_ready_found(statuses, current, d + 1, e);
    }
}

/// Selection comes back to the current task at the latest: where the
/// current task is ready, selection finds a task.
pub proof fn lemma_ready_current_is_found(manager: ManagerView)
    requires
        0 <= manager.current < manager.tasks.len(),
        manager.tasks[manager.current].status is Ready,
    ensures
        manager.next_ready() is Some,
{
    let n = manager.tasks.len() as int;
    lemma_first_ready_found(manager.statuses(), manager.current, 1, n);
}

/// Selection finds a task exactly where one is ready.
pub proof fn lemma_next_ready_none_iff(manager: ManagerView)
    requires
        manager.wf(),
    ensures
        manager.next_ready() is None <==> no_ready(manager.statuses()),
        manager.switch_asked() is Err <==> no_ready(manager.statuses()),
        all_exited(manager.statuses()) ==> no_ready(manager.statuses()),
{
    if manager.tasks.len() > 0 {
        lemma_next_ready_is_first(manager.statuses(), manager.current);
    }
}

/// Once every task has exited, none is ready: from then on each attempt to
/// schedule finds nothing to run, is answered with `NoRunnableTask`, and
/// changes nothing.
pub proof fn lemma_all_exited_is_the_end(manager: ManagerView)
    requires
        manager.wf(),
        all_exited(manager.statuses()),
    ensures
        no_ready(manager.statuses()),
        manager.next_ready() is None,
        manager.switch_asked() == Err::<ContextSwitch, KernelError>(KernelError::NoRunnableTask),
        manager.rescheduled() == manager,
{
    lemma_next_ready_none_iff(manager);
}

/// At most one task is running: two running tasks of a well-formed
/// manager are the same task, and it is the current one.
pub proof fn lemma_single_running(manager: ManagerView, i: int, j: int)
    requires
        manager.wf(),
        0 <= i < manager.tasks.len(),
        0 <= j < manager.tasks.len(),
        manager.statuses()[i] is Running,
        manager.statuses()[j] is Running,
    ensures
        i == j,
        i == manager.current,
{
    assert(manager.tasks[i].status is Running);
    assert(manager.tasks[j].status is Running);
}

/// Every step of the scheduler keeps the manager well formed, and so keeps
/// the number of running tasks at one or none: starting the first task,
/// suspending or ending the running task, handing the processor on, and
/// mapping or unmapping memory.
pub proof fn lemma_steps_keep_wf(manager: ManagerView, start: usize, len: usize, port: usize)
    requires
        manager.wf(),
    ensures
        manager.startable() ==> manager.with_current(TaskStatus::Running).wf(),
        manager.current_running() ==> manager.with_current(TaskStatus::Ready).wf(),
        manager.current_running() ==> manager.with_current(TaskStatus::Exited).wf(),
        !manager.current_running() ==> manager.rescheduled().wf(),
        manager.tasks.len() > 0 ==> manager.mapped(start, len, port).wf(),
        manager.tasks.len() > 0 ==> manager.unmapped(start, len).wf(),
{
    if manager.tasks.len() > 0 {
        lemma_next_ready_is_first(manager.statuses(), manager.current);
    }
}

/// Exited is final: no step of the scheduler takes a task out of it.
pub proof fn lemma_steps_keep_exits(manager: ManagerView, start: usize, len: usize, port: usize)
    requires
        manager.wf(),
    ensures
        manager.startable() ==> exits_are_final(
            manager.statuses(),
            manager.with_current(TaskStatus::Running).statuses(),
        ),
        manager.current_running() ==> exits_are_final(
            manager.statuses(),
            manager.with_current(TaskStatus::Ready).statuses(),
        ),
        manager.current_running() ==> exits_are_final(
            manager.statuses(),
            manager.with_current(TaskStatus::Exited).statuses(),
        ),
        !manager.current_running() ==> exits_are_final(
            manager.statuses(),
            manager.rescheduled().statuses(),
        ),
        manager.tasks.len() > 0 ==> manager.mapped(start, len, port).statuses()
            == manager.statuses(),
        manager.tasks.len() > 0 ==> manager.unmapped(start, len).statuses() == manager.statuses(),
{
    if manager.tasks.len() > 0 {
        lemma_next_ready_is_first(manager.statuses(), manager.current);
        assert(manager.mapped(start, len, port).statuses() =~= manager.statuses());
        assert(manager.unmapped(start, len).statuses() =~= manager.statuses());
    }
}

/// While a task runs, the kernel has work: after a yield a task is
/// running again, and after an exit a task is running unless every task
/// has exited.
pub proof fn lemma_one_task_runs_on(manager: ManagerView)
    requires
        manager.wf(),
        manager.current_running(),
    ensures
        manager.with_current(TaskStatus::Ready).rescheduled().current_running(),
        manager.with_current(TaskStatus::Exited).rescheduled().current_running() || all_exited(
            manager.with_current(TaskStatus::Exited).rescheduled().statuses(),
        ),
{
    let yielded = manager.with_current(TaskStatus::Ready);
    lemma_next_ready_is_first(yielded.statuses(), yielded.current);
    assert(yielded.statuses()[yielded.current] is Ready);
    let ended = manager.with_current(TaskStatus::Exited);
    lemma_next_ready_is_first(ended.statuses(), ended.current);
    if ended.next_ready() is None {
        assert forall|i: int| 0 <= i < ended.statuses().len() implies #[trigger] ended.statuses()[i]
            is Exited by {
            if i != manager.current {
                assert(manager.tasks[i].status == ended.tasks[i].status);
            }
        }
    }
}

/// The range of a request is measured without loss: its bounds are the
/// page of the first byte and the first page at or after the end, as
/// integers. A request for at least one byte touches at least one page,
/// the page of its first byte.
pub proof fn lemma_requested_range_bounds(start: usize, len: usize)
    ensures
        requested_range(start, len).start.0 == page_floor(start as int),
        requested_range(start, len).end.0 == page_ceil(start + len),
        len > 0 ==> requested_range(start, len).contains(page_floor(start as int)),
{
}

/// Rounding up: one byte at a page-aligned address asks for exactly the one
/// page that starts there, not for none.
pub proof fn lemma_one_byte_maps_one_page(start: usize)
    requires
        start % PAGE_SIZE == 0,
    ensures
        requested_range(start, 1) == (VPNRange {
            start: VirtPageNum(start / PAGE_SIZE),
            end: VirtPageNum((start / PAGE_SIZE + 1) as usize),
        }),
        forall|vpn: int| requested_range(start, 1).contains(vpn) <==> vpn == start / PAGE_SIZE,
{
}

/// A granted request cannot be granted twice: once `len > 0` bytes at
/// `start` have been mapped, the same request is refused as already
/// mapped.
pub proof fn lemma_map_twice_refused(task: TaskView, start: usize, len: usize, port: usize)
    ensures
        len > 0 && map_result(task.areas, start, len, port) is Ok ==> map_result(
            task.mapped(start, len, port).areas,
            start,
            len,
            port,
        ) == Err::<(), KernelError>(KernelError::AddressAlreadyMapped),
{
    if len > 0 && map_result(task.areas, start, len, port) is Ok {
        let range = requested_range(start, len);
        let areas = task.mapped(start, len, port).areas;
        let last = areas.len() - 1;
        lemma_requested_range_bounds(start, len);
        assert(areas[last].vpn_range == range);
        assert(range.contains(page_floor(start as int)));
        assert(areas[last].vpn_range.overlaps(range));
    }
}

/// Mapping keeps areas apart: where no two areas shared a page before a
/// mapping request, none do after it, whatever the request was.
pub proof fn lemma_map_keeps_disjoint(task: TaskView, start: usize, len: usize, port: usize)
    requires
        pairwise_disjoint(task.areas),
    ensures
        pairwise_disjoint(task.mapped(start, len, port).areas),
{
    let before = task.areas;
    let after = task.mapped(start, len, port).areas;
    match map_request(before, start, len, port) {
        Ok(Some(area)) => {
            assert forall|i: int, j: int| 0 <= i < j < after.len() implies !(#[trigger] after[i])
                .vpn_range.overlaps((#[trigger] after[j]).vpn_range) by {
                assert(after[i] == before[i]);
                if j == before.len() {
                    if after[i].vpn_range.overlaps(area.vpn_range) {
                        assert(before[i].vpn_range.overlaps(requested_range(start, len)));
                    }
                } else {
                    assert(after[j] == before[j]);
                }
            }
        },
        _ => {},
    }
}

/// Unmapping keeps areas apart as well.
pub proof fn lemma_unmap_keeps_disjoint(task: TaskView, start: usize, len: usize)
    requires
        pairwise_disjoint(task.areas),
    ensures
        pairwise_disjoint(task.unmapped(start, len).areas),
{
    let before = task.areas;
    let after = task.unmapped(start, len).areas;
    match unmap_target(before, requested_range(start, len)) {
        Some(index) => {
            assert forall|i: int, j: int| 0 <= i < j < after.len() implies !(#[trigger] after[i])
                .vpn_range.overlaps((#[trigger] after[j]).vpn_range) by {
                let from_i = if i < index { i } else { i + 1 };
                let from_j = if j < index { j } else { j + 1 };
                assert(after[i] == before[from_i]);
                assert(after[j] == before[from_j]);
            }
        },
        None => {},
    }
}

/// Unmapping spares what user code has no access to: an area without the
/// user right, such as a page that loading set aside for the kernel, is
/// still there after any unmap request.
pub proof fn lemma_unmap_spares_kernel_areas(task: TaskView, start: usize, len: usize, i: int)
    requires
        0 <= i < task.areas.len(),
        !task.areas[i].map_perm.user,
    ensures
        task.unmapped(start, len).areas.contains(task.areas[i]),
{
    let after = task.unmapped(start, len).areas;
    match unmap_target(task.areas, requested_range(start, len)) {
        Some(index) => {
            assert(unmap_matches(task.areas[index], requested_range(start, len)));
            let to = if i < index {
                i
            } else {
                i - 1
            };
            assert(after[to] == task.areas[i]);
        },
        None => {
            assert(after[i] == task.areas[i]);
        },
    }
}

/// Unmapping undoes mapping: after a granted request for `len > 0` bytes
/// at `start`, the request to unmap those bytes is granted and leaves the
/// task as it was before the two.
pub proof fn lemma_unmap_undoes_map(task: TaskView, start: usize, len: usize, port: usize)
    requires
        len > 0,
        map_result(task.areas, start, len, port) is Ok,
    ensures
        unmap_result(task.mapped(start, len, port).areas, start, len) == Ok::<(), KernelError>(()),
        task.mapped(start, len, port).unmapped(start, len) == task,
{
    let range = requested_range(start, len);
    let areas = task.mapped(start, len, port).areas;
    let last = areas.len() - 1;
    lemma_requested_range_bounds(start, len);
    assert(unmap_matches(areas[last], range));
    assert forall|j: int| 0 <= j < last implies !unmap_matches(#[trigger] areas[j], range) by {
        if areas[j].vpn_range == range {
            assert(task.areas[j].vpn_range.contains(page_floor(start as int)));
            assert(task.areas[j].vpn_range.overlaps(range));
        }
    }
    lemma_unmap_target_is(areas, range, last);
    assert(areas.remove(last) =~= task.areas);
}

} // verus!
