//! The task manager: a fixed list of task control blocks, the index of the
//! current one, and round-robin selection of the next.
//!
//! Every operation here only decides. An operation that ends in a change
//! of the running task returns a [`ContextSwitch`], a plain value that
//! borrows nothing: the caller performs the switch once the manager is no
//! longer borrowed, so exclusive access to the manager is never held across
//! a switch.

use vstd::prelude::*;
use crate::error::KernelError;
use crate::mm::address::PhysPageNum;
use crate::task::context::TaskContext;
use crate::task::laws::{
    lemma_next_ready_is_first, lemma_next_ready_none_iff, lemma_ready_current_is_found,
};
use crate::task::task::{
    map_result, unmap_result, LoadedApp, TaskControlBlock, TaskStatus, TaskView,
};

verus! {

/// A context transfer for the embedding kernel to perform: save the running
/// computation into the slot of task `current`, or into a placeholder that
/// is never resumed when there is none, and resume from the slot of task
/// `next`.
#[derive(Clone, Copy, Debug, PartialEq, Eq)]
pub struct ContextSwitch {
    pub current: Option<usize>,
    pub next: usize,
}

/// The index reached from `current` by `offset` steps round a ring of
/// `n`, for an `offset` of one turn at most: `current + offset` modulo `n`.
pub open spec fn cyclic_after(current: int, offset: int, n: int) -> int {
    if current + offset < n {
        current + offset
    } else {
        current + offset - n
    }
}

/// The first ready task among those that lie `d`, `d + 1`, ..., `n` steps
/// after `current` on the ring of the `n` tasks, or `None` where none of
/// them is ready.
pub open spec fn first_ready_from(statuses: Seq<TaskStatus>, current: int, d: int) -> Option<int>
    decreases statuses.len() + 1 - d,
{
    let n = statuses.len() as int;
    if d < 1 || d > n {
        None
    } else if statuses[cyclic_after(current, d, n)] is Ready {
        Some(cyclic_after(current, d, n))
    } else {
        first_ready_from(statuses, current, d + 1)
    }
}

/// Round-robin selection: the first ready task among `current + 1`,
/// `current + 2`, ..., `current + n`, each taken modulo the number `n` of
/// tasks. The last of these is `current` itself. `None` where no task is
/// ready.
pub open spec fn next_ready(statuses: Seq<TaskStatus>, current: int) -> Option<int> {
    first_ready_from(statuses, current, 1)
}

/// Whether none of the tasks is ready.
pub open spec fn no_ready(statuses: Seq<TaskStatus>) -> bool {
    forall|i: int| 0 <= i < statuses.len() ==> !(#[trigger] statuses[i] is Ready)
}

/// Whether every task has exited.
pub open spec fn all_exited(statuses: Seq<TaskStatus>) -> bool {
    forall|i: int| 0 <= i < statuses.len() ==> #[trigger] statuses[i] is Exited
}

/// Whether `next` is the first ready task on the ring after `current`: it
/// lies `d` steps after `current` for some `d` from 1 to the number of
/// tasks, it is ready, and none of the tasks that lie fewer steps after
/// `current` is.
pub open spec fn is_first_ready_after(
    statuses: Seq<TaskStatus>,
    current: int,
    next: int,
) -> bool {
    exists|d: int| first_ready_at(statuses, current, d, next)
}

/// Whether `next` lies `d` steps after `current` on the ring and is the
/// first ready task met on the way.
pub open spec fn first_ready_at(
    statuses: Seq<TaskStatus>,
    current: int,
    d: int,
    next: int,
) -> bool {
    let n = statuses.len() as int;
    &&& 1 <= d <= n
    &&& cyclic_after(current, d, n) == next
    &&& statuses[next] is Ready
    &&& forall|e: int|
        #![trigger cyclic_after(current, e, n)]
        1 <= e < d ==> !(statuses[cyclic_after(current, e, n)] is Ready)
}

/// What a task manager holds, as a mathematical value.
#[verifier::ext_equal]
pub struct ManagerView {
    /// The tasks, by index.
    pub tasks: Seq<TaskView>,
    /// The index of the current task.
    pub current: int,
}

impl ManagerView {
    /// The status of each task, by index.
    pub open spec fn statuses(self) -> Seq<TaskStatus> {
        Seq::new(self.tasks.len(), |i: int| self.tasks[i].status)
    }

    /// The invariant of every task manager: the current index names a task
    /// wherever there is one, and no task but the current one is running.
    /// So at most one task is running.
    pub open spec fn wf(self) -> bool {
        &&& 0 <= self.current
        &&& self.current < self.tasks.len() || (self.tasks.len() == 0 && self.current == 0)
        &&& forall|i: int|
            0 <= i < self.tasks.len() && (#[trigger] self.tasks[i]).status is Running ==> i
                == self.current
    }

    /// Whether there is a current task and it is running.
    pub open spec fn current_running(self) -> bool {
        0 <= self.current < self.tasks.len() && self.tasks[self.current].status is Running
    }

    /// Whether no task has been started yet: the first task is the current
    /// one and is ready.
    pub open spec fn startable(self) -> bool {
        self.tasks.len() > 0 && self.current == 0 && self.tasks[0].status is Ready
    }

    /// The manager once the current task has been given status `status`.
    pub open spec fn with_current(self, status: TaskStatus) -> ManagerView {
        ManagerView {
            tasks: self.tasks.update(
                self.current,
                TaskView { status, ..self.tasks[self.current] },
            ),
            ..self
        }
    }

    /// The manager once control has passed from the current task to task
    /// `next`: the slot of the old current task holds what was switched
    /// out, and `next` is running and current.
    pub open spec fn switched(self, next: int) -> ManagerView {
        let saved = self.tasks.update(
            self.current,
            TaskView { context: TaskContext::Saved, ..self.tasks[self.current] },
        );
        ManagerView {
            tasks: saved.update(next, TaskView { status: TaskStatus::Running, ..saved[next] }),
            current: next,
        }
    }

    /// The task that round-robin selection picks, if any is ready.
    pub open spec fn next_ready(self) -> Option<int> {
        next_ready(self.statuses(), self.current)
    }

    /// The manager once the processor has been handed on: switched to the
    /// task that selection picks, or unchanged where no task is ready.
    pub open spec fn rescheduled(self) -> ManagerView {
        match self.next_ready() {
            Some(next) => self.switched(next),
            None => self,
        }
    }

    /// What handing the processor on asks of the kernel: the switch from
    /// the current task to the task that selection picks, or
    /// `NoRunnableTask` where no task is ready.
    pub open spec fn switch_asked(self) -> Result<ContextSwitch, KernelError> {
        match self.next_ready() {
            Some(next) => Ok(
                ContextSwitch { current: Some(self.current as usize), next: next as usize },
            ),
            None => Err(KernelError::NoRunnableTask),
        }
    }

    /// The manager once the current task has made a mapping request.
    pub open spec fn mapped(self, start: usize, len: usize, port: usize) -> ManagerView {
        ManagerView {
            tasks: self.tasks.update(
                self.current,
                self.tasks[self.current].mapped(start, len, port),
            ),
            ..self
        }
    }

    /// The manager once the current task has made an unmap request.
    pub open spec fn unmapped(self, start: usize, len: usize) -> ManagerView {
        ManagerView {
            tasks: self.tasks.update(self.current, self.tasks[self.current].unmapped(start, len)),
            ..self
        }
    }
}

/// The scheduler's state.
#[derive(Debug, PartialEq, Eq)]
pub struct TaskManager {
    num_app: usize,
    tasks: Vec<TaskControlBlock>,
    current_task: usize,
}

impl View for TaskManager {
    type V = ManagerView;

    closed spec fn view(&self) -> ManagerView {
        ManagerView {
            tasks: Seq::new(self.tasks@.len(), |i: int| self.tasks@[i]@),
            current: self.current_task as int,
        }
    }
}

impl TaskManager {
    /// What Verus holds of every task manager at every point of a
    /// program: its view is well formed, and the number of tasks it was
    /// made with is the number that it holds.
    #[verifier::type_invariant]
    pub closed spec fn inv(&self) -> bool {
        &&& self.num_app == self.tasks@.len()
        &&& self.current_task < self.tasks@.len() || (self.tasks@.len() == 0 && self.current_task
            == 0)
        &&& forall|i: int|
            0 <= i < self.tasks@.len() && (#[trigger] self.tasks@[i]).task_status is Running ==> i
                == self.current_task
    }

    /// The view of every task manager is well formed.
    pub proof fn lemma_inv_gives_wf(self)
        requires
            self.inv(),
        ensures
            self@.wf(),
    {
        assert forall|i: int|
            0 <= i < self@.tasks.len() && (#[trigger] self@.tasks[i]).status is Running implies i
            == self@.current by {
            assert(self.tasks@[i].task_status is Running);
        }
    }

    /// A manager over the given applications, in their order, none of them
    /// started. The first is the current task.
    pub fn new(apps: Vec<LoadedApp>) -> (manager: Self)
        ensures
            manager@.wf(),
            manager@.current == 0,
            manager@.tasks.len() == apps@.len(),
            forall|i: int|
                0 <= i < apps@.len() ==> #[trigger] manager@.tasks[i] == apps@[i].fresh_task(),
    {
        let num_app: usize = apps.len();
        let mut tasks: Vec<TaskControlBlock> = Vec::new();
        for app in it: apps
            invariant
                tasks@.len() == it.index(),
                forall|i: int|
                    0 <= i < tasks@.len() ==> (#[trigger] tasks@[i])@ == it.seq()[i].fresh_task(),
        {
            tasks.push(TaskControlBlock::new(app));
        }
        TaskManager { num_app, tasks, current_task: 0 }
    }

    /// The number of tasks.
    pub fn num_app(&self) -> (n: usize)
        ensures
            n == self@.tasks.len(),
            self@.wf(),
    {
        proof {
            use_type_invariant(&*self);
        }
        self.num_app
    }

    /// The index of the current task.
    pub fn current_task(&self) -> (index: usize)
        ensures
            index == self@.current,
            self@.wf(),
    {
        proof {
            use_type_invariant(&*self);
        }
        self.current_task
    }

    /// The status of task `index`.
    pub fn task_status(&self, index: usize) -> (status: TaskStatus)
        requires
            index < self@.tasks.len(),
        ensures
            status == self@.tasks[index as int].status,
    {
        self.tasks[index].task_status
    }

    /// The control block of task `index`.
    pub fn task(&self, index: usize) -> (task: &TaskControlBlock)
        requires
            index < self@.tasks.len(),
        ensures
            task@ == self@.tasks[index as int],
    {
        &self.tasks[index]
    }

    /// Round-robin selection: the first ready task after the current one,
    /// going round the ring once and ending at the current task itself.
    /// `None` says that no task is ready.
    pub fn find_next_task(&self) -> (found: Option<usize>)
        ensures
            match found {
                Some(next) => {
                    &&& next < self@.tasks.len()
                    &&& self@.next_ready() == Some(next as int)
                    &&& is_first_ready_after(self@.statuses(), self@.current, next as int)
                },
                None => self@.next_ready() is None && no_ready(self@.statuses()),
            },
    {
        proof {
            use_type_invariant(&*self);
        }
        let n: usize = self.num_app;
        if n == 0 {
            return None;
        }
        let current: usize = self.current_task;
        let ghost statuses = self@.statuses();
        let mut index: usize = current;
        let mut offset: usize = 0;
        while offset < n
            invariant
                n == self.tasks@.len(),
                statuses == self@.statuses(),
                current == self@.current,
                current < n,
                offset <= n,
                index == cyclic_after(current as int, offset as int, n as int),
                next_ready(statuses, current as int) == first_ready_from(
                    statuses,
                    current as int,
                    offset + 1,
                ),
            decreases n - offset,
        {
            index = if index + 1 == n {
                0
            } else {
                index + 1
            };
            offset += 1;
            assert(statuses[index as int] == self.tasks@[index as int].task_status);
            if self.tasks[index].task_status == TaskStatus::Ready {
                proof {
                    lemma_next_ready_is_first(statuses, current as int);
                }
                return Some(index);
            }
        }
        proof {
            lemma_next_ready_is_first(statuses, current as int);
        }
        None
    }

    /// Starts the first task: marks task 0 running and asks for a switch
    /// into it from a placeholder context.
    pub fn run_first_task(&mut self) -> (switch: ContextSwitch)
        requires
            old(self)@.startable(),
        ensures
            final(self)@ == old(self)@.with_current(TaskStatus::Running),
            final(self)@.wf(),
            switch == (ContextSwitch { current: None, next: 0 }),
    {
        proof {
            use_type_invariant(&*self);
        }
        self.tasks[0].task_status = TaskStatus::Running;
        assert(self@ =~~= old(self)@.with_current(TaskStatus::Running));
        ContextSwitch { current: None, next: 0 }
    }

    /// The running task gives up the processor: it is ready again. No
    /// switch is asked for.
    pub fn mark_current_suspended(&mut self)
        requires
            old(self)@.current_running(),
        ensures
            final(self)@ == old(self)@.with_current(TaskStatus::Ready),
            final(self)@.wf(),
    {
        proof {
            use_type_invariant(&*self);
        }
        let current: usize = self.current_task;
        self.tasks[current].task_status = TaskStatus::Ready;
        assert(self@ =~~= old(self)@.with_current(TaskStatus::Ready));
    }

    /// The running task ends. No switch is asked for.
    pub fn mark_current_exited(&mut self)
        requires
            old(self)@.current_running(),
        ensures
            final(self)@ == old(self)@.with_current(TaskStatus::Exited),
            final(self)@.wf(),
    {
        proof {
            use_type_invariant(&*self);
        }
        let current: usize = self.current_task;
        self.tasks[current].task_status = TaskStatus::Exited;
        assert(self@ =~~= old(self)@.with_current(TaskStatus::Exited));
    }

    /// The token of the current task's address space.
    pub fn get_current_token(&self) -> (token: usize)
        requires
            self@.tasks.len() > 0,
        ensures
            token == self@.tasks[self@.current].token,
    {
        proof {
            use_type_invariant(&*self);
        }
        self.tasks[self.current_task].get_user_token()
    }

    /// The frame where the current task's trap context is kept.
    pub fn get_current_trap_cx(&self) -> (frame: PhysPageNum)
        requires
            self@.tasks.len() > 0,
        ensures
            frame == self@.tasks[self@.current].trap_cx_ppn,
    {
        proof {
            use_type_invariant(&*self);
        }
        self.tasks[self.current_task].get_trap_cx()
    }

    /// Applies a mapping request to the current task's address space.
    pub fn map_memory_area(&mut self, start: usize, len: usize, port: usize) -> (result: Result<
        (),
        KernelError,
    >)
        requires
            old(self)@.tasks.len() > 0,
        ensures
            result == map_result(old(self)@.tasks[old(self)@.current].areas, start, len, port),
            final(self)@ == old(self)@.mapped(start, len, port),
            len > 0 && result is Ok ==> map_result(
                final(self)@.tasks[final(self)@.current].areas,
                start,
                len,
                port,
            ) == Err::<(), KernelError>(KernelError::AddressAlreadyMapped),
            final(self)@.wf(),
    {
        proof {
            use_type_invariant(&*self);
        }
        let current: usize = self.current_task;
        let result = self.tasks[current].map_memory_area(start, len, port);
        assert(self@ =~~= old(self)@.mapped(start, len, port));
        result
    }

    /// Applies an unmap request to the current task's address space.
    pub fn unmap_memory_area(&mut self, start: usize, len: usize) -> (result: Result<
        (),
        KernelError,
    >)
        requires
            old(self)@.tasks.len() > 0,
        ensures
            result == unmap_result(old(self)@.tasks[old(self)@.current].areas, start, len),
            final(self)@ == old(self)@.unmapped(start, len),
            final(self)@.wf(),
    {
        proof {
            use_type_invariant(&*self);
        }
        let current: usize = self.current_task;
        let result = self.tasks[current].unmap_memory_area(start, len);
        assert(self@ =~~= old(self)@.unmapped(start, len));
        result
    }

    /// Hands the processor to the next ready task, if there is one: that
    /// task is marked running and becomes the current one, and the switch
    /// to perform is returned. With no ready task nothing changes and
    /// `NoRunnableTask` is returned; for the kernel this is the end.
    ///
    /// The task that was current must have left the running state before.
    pub fn run_next_task(&mut self) -> (result: Result<ContextSwitch, KernelError>)
        requires
            !old(self)@.current_running(),
        ensures
            result == old(self)@.switch_asked(),
            final(self)@ == old(self)@.rescheduled(),
            result is Err <==> no_ready(old(self)@.statuses()),
            all_exited(old(self)@.statuses()) ==> result == Err::<ContextSwitch, KernelError>(
                KernelError::NoRunnableTask,
            ),
            final(self)@.wf(),
    {
        proof {
            use_type_invariant(&*self);
            self.lemma_inv_gives_wf();
            lemma_next_ready_none_iff(self@);
        }
        match self.find_next_task() {
            Some(next) => {
                let current: usize = self.current_task;
                self.tasks[current].task_cx = TaskContext::Saved;
                self.current_task = next;
                self.tasks[next].task_status = TaskStatus::Running;
                assert(self@ =~~= old(self)@.switched(next as int));
                Ok(ContextSwitch { current: Some(current), next })
            },
            None => Err(KernelError::NoRunnableTask),
        }
    }
}

/// Starts the first task of `manager`.
pub fn run_first_task(manager: &mut TaskManager) -> (switch: ContextSwitch)
    requires
        old(manager)@.startable(),
    ensures
        final(manager)@ == old(manager)@.with_current(TaskStatus::Running),
        final(manager)@.wf(),
        switch == (ContextSwitch { current: None, next: 0 }),
{
    manager.run_first_task()
}

/// The running task yields: it becomes ready, and the processor goes to
/// the first ready task after it, which is the task itself when no other
/// is ready. A switch is always the outcome.
pub fn suspend_current_and_run_next(manager: &mut TaskManager) -> (switch: ContextSwitch)
    requires
        old(manager)@.current_running(),
    ensures
        Ok::<ContextSwitch, KernelError>(switch) == old(manager)@.with_current(
            TaskStatus::Ready,
        ).switch_asked(),
        final(manager)@ == old(manager)@.with_current(TaskStatus::Ready).rescheduled(),
        final(manager)@.wf(),
{
    manager.mark_current_suspended();
    proof {
        lemma_ready_current_is_found(manager@);
    }
    match manager.run_next_task() {
        Ok(switch) => switch,
        Err(_) => unreached(),
    }
}

/// The running task ends, and the processor goes to the first ready task
/// after it. When no task is ready the outcome is `NoRunnableTask`, with
/// the task marked as exited all the same.
pub fn exit_current_and_run_next(manager: &mut TaskManager) -> (result: Result<
    ContextSwitch,
    KernelError,
>)
    requires
        old(manager)@.current_running(),
    ensures
        result == old(manager)@.with_current(TaskStatus::Exited).switch_asked(),
        final(manager)@ == old(manager)@.with_current(TaskStatus::Exited).rescheduled(),
        result is Err <==> no_ready(old(manager)@.with_current(TaskStatus::Exited).statuses()),
        all_exited(old(manager)@.with_current(TaskStatus::Exited).statuses()) ==> result == Err::<
            ContextSwitch,
            KernelError,
        >(KernelError::NoRunnableTask),
        final(manager)@.wf(),
{
    manager.mark_current_exited();
    manager.run_next_task()
}

/// The token of the address space of the current task of `manager`.
pub fn current_user_token(manager: &TaskManager) -> (token: usize)
    requires
        manager@.tasks.len() > 0,
    ensures
        token == manager@.tasks[manager@.current].token,
{
    manager.get_current_token()
}

/// The frame where the trap context of the current task of `manager` is
/// kept.
pub fn current_trap_cx(manager: &TaskManager) -> (frame: PhysPageNum)
    requires
        manager@.tasks.len() > 0,
    ensures
        frame == manager@.tasks[manager@.current].trap_cx_ppn,
{
    manager.get_current_trap_cx()
}

/// The number by which user code is told how a request ended: 0 for
/// success, the error's code otherwise.
pub open spec fn result_code(result: Result<(), KernelError>) -> int {
    match result {
        Ok(()) => 0,
        Err(e) => e.spec_code(),
    }
}

/// Applies a mapping request to the current task of `manager` and reports
/// the outcome as a number: 0 for success, negative for a refusal.
pub fn map_new_memory(manager: &mut TaskManager, start: usize, len: usize, port: usize) -> (code:
    isize)
    requires
        old(manager)@.tasks.len() > 0,
    ensures
        code == result_code(
            map_result(old(manager)@.tasks[old(manager)@.current].areas, start, len, port),
        ),
        final(manager)@ == old(manager)@.mapped(start, len, port),
        len > 0 && code == 0 ==> map_result(
            final(manager)@.tasks[final(manager)@.current].areas,
            start,
            len,
            port,
        ) == Err::<(), KernelError>(KernelError::AddressAlreadyMapped),
        final(manager)@.wf(),
{
    match manager.map_memory_area(start, len, port) {
        Ok(()) => 0,
        Err(e) => e.code(),
    }
}

/// Applies an unmap request to the current task of `manager` and reports
/// the outcome as a number: 0 for success, negative for a refusal.
pub fn unmap_memory(manager: &mut TaskManager, start: usize, len: usize) -> (code: isize)
    requires
        old(manager)@.tasks.len() > 0,
    ensures
        code == result_code(
            unmap_result(old(manager)@.tasks[old(manager)@.current].areas, start, len),
        ),
        final(manager)@ == old(manager)@.unmapped(start, len),
        final(manager)@.wf(),
{
    match manager.unmap_memory_area(start, len) {
        Ok(()) => 0,
        Err(e) => e.code(),
    }
}

} // verus!
