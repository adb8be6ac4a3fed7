//! Non-blocking interfaces.
//!
//! A non-blocking operation returns a "would block" sentinel instead of
//! suspending when it cannot complete immediately; callers are expected to
//! poll.  [`NbError`] wraps an operation's own error type with that sentinel,
//! and [`NbResult`] is the result type of every non-blocking operation.

pub mod serial;
pub mod spi;

use vstd::prelude::*;

verus! {

/// A non-blocking error: either the operation is not finished yet, or it
/// failed for good.
#[derive(Debug, Copy, Clone, PartialEq, Eq)]
pub enum NbError<E> {
    /// A different kind of error.
    Other(E),
    /// The operation cannot complete now; poll again later.
    WouldBlock,
}

/// The result of a non-blocking operation.
pub type NbResult<T, E> = Result<T, NbError<E>>;

} // verus!
