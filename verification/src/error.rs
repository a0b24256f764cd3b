//! The closed set of failures the kernel core can report.

use vstd::prelude::*;

verus! {

/// Why a request was refused.
#[derive(Clone, Copy, Debug, PartialEq, Eq, Structural)]
pub enum KernelError {
    /// A misaligned address, request bits that name no right or an unknown
    /// right, or a length over the ceiling.
    InvalidArgument,
    /// The requested range shares a page with an existing mapping.
    AddressAlreadyMapped,
    /// No existing mapping covers exactly the range to unmap.
    NoSuchMapping,
    /// No task is ready to run. The kernel has nothing left to execute.
    NoRunnableTask,
}

impl KernelError {
    /// The negative number by which user code is told of the failure.
    pub open spec fn spec_code(self) -> int {
        match self {
            KernelError::InvalidArgument => -1,
            KernelError::AddressAlreadyMapped => -2,
            KernelError::NoSuchMapping => -3,
            KernelError::NoRunnableTask => -4,
        }
    }

    /// The negative number by which user code is told of the failure.
    pub fn code(&self) -> (code: isize)
        ensures
            code == self.spec_code(),
            code < 0,
    {
        match self {
            KernelError::InvalidArgument => -1,
            KernelError::AddressAlreadyMapped => -2,
            KernelError::NoSuchMapping => -3,
            KernelError::NoRunnableTask => -4,
        }
    }
}

} // verus!
