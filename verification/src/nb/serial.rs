//! Non-blocking serial interface.

use vstd::prelude::*;

use crate::nb::NbError;
use crate::nb::NbResult;

pub use crate::errors::serial::Error;
pub use crate::errors::serial::ErrorKind;

verus! {

/// Read half of a serial interface.
///
/// Some serial interfaces support different data sizes (8 bits, 9 bits,
/// etc.); this can be encoded through the `Word` type parameter.
pub trait Read<Word>: Sized {
    /// Read error.
    type Error: Error;

    /// The words delivered to the caller so far, oldest first.
    spec fn delivered(&self) -> Seq<Word>;

    /// Whether this half can ever report a hard error.
    spec fn infallible(&self) -> bool;

    /// Reads a single word from the serial interface.
    fn read(&mut self) -> (r: NbResult<Word, Self::Error>)
        ensures
            final(self).infallible() == old(self).infallible(),
            match r {
                Result::Ok(w) => final(self).delivered() == old(self).delivered().push(w),
                Result::Err(NbError::WouldBlock) => final(self).delivered()
                    == old(self).delivered(),
                Result::Err(NbError::Other(_)) => final(self).delivered()
                    == old(self).delivered() && !old(self).infallible(),
            },
    ;
}

/// Write half of a serial interface.
pub trait Write<Word>: Sized {
    /// Write error.
    type Error: Error;

    /// The words accepted for transmission so far, oldest first.
    spec fn accepted(&self) -> Seq<Word>;

    /// How many accepted words are still buffered, not yet on the wire.
    spec fn buffered(&self) -> nat;

    /// Whether this half can ever report a hard error.
    spec fn infallible(&self) -> bool;

    /// Writes a single word to the serial interface.
    fn write(&mut self, word: Word) -> (r: NbResult<(), Self::Error>)
        ensures
            final(self).infallible() == old(self).infallible(),
            match r {
                Result::Ok(()) => final(self).accepted() == old(self).accepted().push(word),
                Result::Err(NbError::WouldBlock) => final(self).accepted()
                    == old(self).accepted() && final(self).buffered() == old(self).buffered(),
                Result::Err(NbError::Other(_)) => final(self).accepted()
                    == old(self).accepted() && !old(self).infallible(),
            },
    ;

    /// Ensures that none of the previously written words are still buffered.
    fn flush(&mut self) -> (r: NbResult<(), Self::Error>)
        ensures
            final(self).infallible() == old(self).infallible(),
            final(self).accepted() == old(self).accepted(),
            match r {
                Result::Ok(()) => final(self).buffered() == 0,
                Result::Err(NbError::WouldBlock) => true,
                Result::Err(NbError::Other(_)) => !old(self).infallible(),
            },
    ;
}

} // verus!
