//! Failures of controller operations, reported at the command boundary.

use vstd::prelude::*;

verus! {

/// The OS error number for an address that cannot be read (EFAULT), used
/// when a frame-pointer chain leaves addressable memory.
pub const BAD_ADDRESS_ERRNO: i32 = 14;

/// What a controller operation can fail with.
#[derive(Debug)]
pub enum DebugError {
    /// A memory or register access failed; holds the OS error number.  The
    /// current command is aborted and the controller is otherwise unchanged.
    AccessFailed(i32),
    /// Waiting on the process reported a state transition the model does
    /// not recognize.  This is the one unrecoverable condition: it means
    /// the process-control primitive contract was violated.
    UnexpectedWaitStatus,
    /// The symbol resolver could not resolve the given address during a
    /// stack walk.
    UnresolvedAddress(u64),
}

} // verus!
