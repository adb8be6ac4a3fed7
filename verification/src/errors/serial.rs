//! Serial error kinds.

use vstd::prelude::*;

verus! {

/// Serial error.
///
/// A driver's error type reports, through [`Error::kind`], which canonical
/// [`ErrorKind`] it maps to, so generic code can act on it.
pub trait Error {
    /// The canonical kind this error maps to, as a specification-level value.
    spec fn kind_spec(&self) -> ErrorKind;

    /// Convert the error to a generic serial error kind.
    fn kind(&self) -> (k: ErrorKind)
        ensures
            k == self.kind_spec(),
    ;
}

/// Serial error kind.
///
/// A common set of serial operation errors.  Implementations are free to
/// define more specific error types, as long as they map each of them to one
/// of these kinds.  The enumeration may gain further variants over time;
/// callers should handle unknown kinds through a default arm.
#[derive(Debug, Copy, Clone, Eq, PartialEq, Ord, PartialOrd, Hash, Structural)]
#[non_exhaustive]
pub enum ErrorKind {
    /// The peripheral receive buffer was overrun.
    Overrun,
    /// Received data does not conform to the peripheral configuration.
    /// Can be caused by a misconfigured device on either end of the serial line.
    FrameFormat,
    /// Parity check failed.
    Parity,
    /// Serial line is too noisy to read valid data.
    Noise,
    /// A different error occurred.  The original error may contain more information.
    Other,
}

impl Error for ErrorKind {
    /// A canonical kind maps to itself.
    open spec fn kind_spec(&self) -> ErrorKind {
        *self
    }

    fn kind(&self) -> (k: ErrorKind) {
        *self
    }
}

} // verus!
