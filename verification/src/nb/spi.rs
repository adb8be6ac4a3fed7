//! Non-blocking SPI primitive.

use vstd::prelude::*;

use crate::nb::NbError;
use crate::nb::NbResult;

verus! {

/// Full duplex (master mode) single-word SPI primitive.
///
/// An implementation exposes its history as two specification-level logs:
/// [`sent`](FullDuplex::sent), the words clocked out on the bus so far, and
/// [`received`](FullDuplex::received), the words clocked in.  On a
/// full-duplex bus each exchange clocks one word out and one word in, driven
/// by [`write`](FullDuplex::write); the response is then collected with
/// [`read`](FullDuplex::read).  Callers strictly alternate the two: a write
/// is allowed when the logs have equal length, a read when exactly one
/// response is outstanding.  The blocking bridge in
/// [`crate::blocking::spi`] maintains this discipline.
pub trait FullDuplex<W>: Sized {
    /// An enumeration of SPI errors.
    type Error;

    /// The words accepted for sending so far, oldest first.
    spec fn sent(&self) -> Seq<W>;

    /// The words clocked in so far, oldest first.  A response lost to a read
    /// error still occupies its position, with an arbitrary value.
    spec fn received(&self) -> Seq<W>;

    /// Whether this device can ever report a hard error.  When this is
    /// `false`, every exchange completes, and the blocking bridge owes its
    /// callers success.
    spec fn infallible(&self) -> bool;

    /// An upper bound on how many more times in a row the device may answer
    /// "would block" before making progress.  It bounds the polling loops of
    /// the blocking bridge.
    spec fn poll_budget(&self) -> nat;

    /// Sends a word to the slave, clocking one full-duplex exchange.
    fn write(&mut self, word: W) -> (r: NbResult<(), Self::Error>)
        requires
            old(self).sent().len() == old(self).received().len(),
        ensures
            final(self).infallible() == old(self).infallible(),
            match r {
                Result::Ok(()) => final(self).sent() == old(self).sent().push(word)
                    && final(self).received() == old(self).received(),
                Result::Err(NbError::WouldBlock) => final(self).sent() == old(self).sent()
                    && final(self).received() == old(self).received()
                    && final(self).poll_budget() < old(self).poll_budget(),
                Result::Err(NbError::Other(_)) => final(self).sent() == old(self).sent()
                    && final(self).received() == old(self).received()
                    && !old(self).infallible(),
            },
    ;

    /// Reads the word replied to the last sent word.
    fn read(&mut self) -> (r: NbResult<W, Self::Error>)
        requires
            old(self).received().len() < old(self).sent().len(),
        ensures
            final(self).infallible() == old(self).infallible(),
            final(self).sent() == old(self).sent(),
            match r {
                Result::Ok(w) => final(self).received() == old(self).received().push(w),
                Result::Err(NbError::WouldBlock) => final(self).received() == old(self).received()
                    && final(self).poll_budget() < old(self).poll_budget(),
                Result::Err(NbError::Other(_)) => final(self).received().len()
                    == old(self).received().len() + 1
                    && final(self).received().take(old(self).received().len() as int)
                        == old(self).received()
                    && !old(self).infallible(),
            },
    ;
}

} // verus!
