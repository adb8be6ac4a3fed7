//! I2C error kinds.

use vstd::prelude::*;

verus! {

/// I2C error.
///
/// A driver's error type reports, through [`Error::kind`], which canonical
/// [`ErrorKind`] it maps to, so generic code can act on it.
pub trait Error {
    /// The canonical kind this error maps to, as a specification-level value.
    spec fn kind_spec(&self) -> ErrorKind;

    /// Convert the error to a generic I2C error kind.
    fn kind(&self) -> (k: ErrorKind)
        ensures
            k == self.kind_spec(),
    ;
}

/// I2C error kind.
///
/// A common set of I2C operation errors.  Implementations are free to define
/// more specific error types, as long as they map each of them to one of
/// these kinds.  The enumeration may gain further variants over time;
/// callers should handle unknown kinds through a default arm.
#[derive(Debug, Copy, Clone, Eq, PartialEq, Ord, PartialOrd, Hash, Structural)]
#[non_exhaustive]
pub enum ErrorKind {
    /// An unspecific bus error occurred.
    Bus,
    /// The arbitration was lost, e.g. electrical problems with the clock signal.
    ArbitrationLoss,
    /// A bus operation was not acknowledged, e.g. the addressed device was not
    /// available on the bus or was not ready to process requests.
    NoAcknowledge,
    /// The peripheral receive buffer was overrun.
    Overrun,
    /// The peripheral send buffer ran out of data.
    Underrun,
    /// A different error occurred.  The original error may contain more information.
    Other,
}

impl Error for ErrorKind {
    /// A canonical kind maps to itself.
    open spec fn kind_spec(&self) -> ErrorKind {
        *self
    }

    fn kind(&self) -> (k: ErrorKind) {
        *self
    }
}

} // verus!
