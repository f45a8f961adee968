//! The errors that the reactor reports.

use vstd::prelude::*;

verus! {

/// Why an operation of the reactor failed.
#[derive(Clone, Copy, Debug, PartialEq, Eq, Structural)]
pub enum Error {
    /// The descriptor is negative, too large for the readiness bitsets,
    /// already registered, or the notification channel's own.
    InvalidArgument,
    /// The descriptor is not registered.
    NotFound,
    /// The registration table is full.
    ResourceExhausted,
    /// The operating system would have had to block.
    WouldBlock,
    /// The operating system was interrupted before it could finish.
    Interrupted,
    /// Any other failure of the operating system, with its error number.
    Os(i32),
}

} // verus!
