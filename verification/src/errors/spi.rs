//! SPI error kinds.

use vstd::prelude::*;

verus! {

/// SPI error.
///
/// A driver's error type reports, through [`Error::kind`], which canonical
/// [`ErrorKind`] it maps to, so generic code can act on it.
pub trait Error {
    /// The canonical kind this error maps to, as a specification-level value.
    spec fn kind_spec(&self) -> ErrorKind;

    /// Convert the error to a generic SPI error kind.
    fn kind(&self) -> (k: ErrorKind)
        ensures
            k == self.kind_spec(),
    ;
}

/// SPI error kind.
///
/// A common set of SPI operation errors.  Implementations are free to define
/// more specific error types, as long as they map each of them to one of
/// these kinds.  The enumeration may gain further variants over time;
/// callers should handle unknown kinds through a default arm.
#[derive(Debug, Copy, Clone, Eq, PartialEq, Ord, PartialOrd, Hash, Structural)]
#[non_exhaustive]
pub enum ErrorKind {
    /// An unspecific bus error occurred.
    Bus,
    /// The peripheral receive buffer was overrun.
    Overrun,
    /// Multiple devices on the SPI bus are trying to drive the line at the
    /// same time, e.g. in a multi-master setup.
    ModeFault,
    /// CRC does not match the received data.
    Crc,
    /// Received data does not conform to the peripheral configuration.
    FrameFormat,
    /// A different error occurred.  The original error may contain more information.
    Other,
}

impl Error for ErrorKind {
    /// A canonical kind maps to itself.
    open spec fn kind_spec(&self) -> ErrorKind {
        *self
    }

    fn kind(&self) -> (k: ErrorKind) {
        *self
    }
}

} // verus!
