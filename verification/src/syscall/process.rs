//! Process-related system calls. Each takes the task manager it acts on;
//! one that changes the running task returns the switch to perform.

use vstd::prelude::*;
use crate::config::MICROS_PER_SEC;
use crate::error::KernelError;
use crate::task::manager::{
    all_exited, exit_current_and_run_next, map_new_memory, no_ready, result_code,
    suspend_current_and_run_next, unmap_memory, ContextSwitch, TaskManager,
};
use crate::task::task::{map_result, unmap_result, TaskStatus};

verus! {

/// A time of day: whole seconds and the microseconds beyond them.
#[derive(Clone, Copy, Debug, PartialEq, Eq, Structural)]
pub struct TimeVal {
    pub sec: usize,
    pub usec: usize,
}

/// The running task ends; its exit code is for the caller's log alone. It
/// never runs again: the outcome is the switch to the next ready task, or
/// `NoRunnableTask` when no task is ready, which is when every task has
/// exited.
pub fn sys_exit(manager: &mut TaskManager, _exit_code: i32) -> (result: Result<
    ContextSwitch,
    KernelError,
>)
    requires
        old(manager)@.current_running(),
    ensures
        result == old(manager)@.with_current(TaskStatus::Exited).switch_asked(),
        final(manager)@ == old(manager)@.with_current(TaskStatus::Exited).rescheduled(),
        result is Err <==> no_ready(old(manager)@.with_current(TaskStatus::Exited).statuses()),
        all_exited(old(manager)@.with_current(TaskStatus::Exited).statuses()) ==> result == Err::<
            ContextSwitch,
            KernelError,
        >(KernelError::NoRunnableTask),
        final(manager)@.wf(),
{
    exit_current_and_run_next(manager)
}

/// The running task yields. Returns the number 0 that the task is given
/// when it runs again, and the switch to perform now.
pub fn sys_yield(manager: &mut TaskManager) -> (outcome: (isize, ContextSwitch))
    requires
        old(manager)@.current_running(),
    ensures
        outcome.0 == 0,
        Ok::<ContextSwitch, KernelError>(outcome.1) == old(manager)@.with_current(
            TaskStatus::Ready,
        ).switch_asked(),
        final(manager)@ == old(manager)@.with_current(TaskStatus::Ready).rescheduled(),
        final(manager)@.wf(),
{
    let switch: ContextSwitch = suspend_current_and_run_next(manager);
    (0, switch)
}

/// Writes the time `us`, given in microseconds, to `ts` as seconds and
/// microseconds. The time zone is not used. Returns 0.
pub fn sys_get_time(ts: &mut TimeVal, _tz: usize, us: usize) -> (code: isize)
    ensures
        code == 0,
        final(ts).sec == us / MICROS_PER_SEC,
        final(ts).usec == us % MICROS_PER_SEC,
{
    ts.sec = us / MICROS_PER_SEC;
    ts.usec = us % MICROS_PER_SEC;
    0
}

/// Maps `len` bytes at address `start` into the address space of the
/// running task, with the rights that `port` asks for. Returns 0 when the
/// request is granted or empty, and the error's negative code otherwise.
pub fn sys_mmap(manager: &mut TaskManager, start: usize, len: usize, port: usize) -> (code: isize)
    requires
        old(manager)@.tasks.len() > 0,
    ensures
        code == result_code(
            map_result(old(manager)@.tasks[old(manager)@.current].areas, start, len, port),
        ),
        final(manager)@ == old(manager)@.mapped(start, len, port),
        len > 0 && code == 0 ==> map_result(
            final(manager)@.tasks[final(manager)@.current].areas,
            start,
            len,
            port,
        ) == Err::<(), KernelError>(KernelError::AddressAlreadyMapped),
        final(manager)@.wf(),
{
    map_new_memory(manager, start, len, port)
}

/// Removes from the address space of the running task the mapping that
/// covers exactly the pages of the `len` bytes at address `start`. Returns
/// 0 when it was there, and the negative code of `NoSuchMapping` otherwise.
pub fn sys_munmap(manager: &mut TaskManager, start: usize, len: usize) -> (code: isize)
    requires
        old(manager)@.tasks.len() > 0,
    ensures
        code == result_code(
            unmap_result(old(manager)@.tasks[old(manager)@.current].areas, start, len),
        ),
        final(manager)@ == old(manager)@.unmapped(start, len),
        final(manager)@.wf(),
{
    unmap_memory(manager, start, len)
}

} // verus!
