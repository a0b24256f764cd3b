//! What a task's execution-context slot holds, as far as the scheduler
//! needs to know. The register values themselves stay with the switch
//! primitive of the embedding kernel.

use vstd::prelude::*;

verus! {

/// The state of one execution-context slot.
#[derive(Clone, Copy, Debug, PartialEq, Eq, Structural)]
pub enum TaskContext {
    /// Holds nothing. A slot to save into that is never resumed.
    Zero,
    /// Never run: resuming it enters the return-from-trap path on the
    /// kernel stack whose top is given.
    TrapReturn { kernel_stack_top: usize },
    /// Holds the registers of a computation that was switched out.
    Saved,
}

impl TaskContext {
    /// The placeholder slot.
    pub fn zero_init() -> (context: Self)
        ensures
            context == TaskContext::Zero,
    {
        TaskContext::Zero
    }

    /// The context of a task that has not run yet.
    pub fn goto_trap_return(kstack_ptr: usize) -> (context: Self)
        ensures
            context == (TaskContext::TrapReturn { kernel_stack_top: kstack_ptr }),
    {
        TaskContext::TrapReturn { kernel_stack_top: kstack_ptr }
    }
}

} // verus!
