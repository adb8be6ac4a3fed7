//! Chip-select-managed SPI wrapper.

use vstd::prelude::*;

use crate::blocking::spi::transfer_abort;
use crate::blocking::spi::transfer_steps;
use crate::blocking::spi::write_abort;
use crate::blocking::spi::padded;
use crate::blocking::spi::BusLog;
use crate::blocking::spi::ManagedCs;
use crate::blocking::spi::Transfer;
use crate::blocking::spi::Write;
use crate::blocking::spi::WriteIter;
use crate::digital::OutputPin;

verus! {

/// Wraps a blocking SPI implementation with chip-select (CS) pin
/// management: every bus operation is preceded by asserting the pin (low)
/// and followed by deasserting it (high), whether or not the bus operation
/// itself succeeded.  A deassertion failure takes priority in the returned
/// result over a captured bus error: a pin left asserted is the worse
/// outcome.
pub struct SpiWithCs<Spi, Pin> {
    /// The wrapped bus.  Driving it directly bypasses select management.
    pub spi: Spi,
    /// The chip-select pin, active low.  Driving it directly breaks the
    /// bracketing guarantee.
    pub cs: Pin,
}

/// Underlying causes for errors: either SPI communication or CS pin state
/// setting failed.
#[derive(Debug, Copy, Clone, PartialEq)]
pub enum SpiWithCsError<SpiError, PinError> {
    /// Underlying SPI communication error.
    Spi(SpiError),
    /// Underlying chip-select pin state setting error.
    Pin(PinError),
}

/// Chip-select management is automatic here.
impl<Spi, Pin> ManagedCs for SpiWithCs<Spi, Pin> {

}

impl<Spi, Pin> SpiWithCs<Spi, Pin> {
    /// Creates a new wrapper around the provided bus and pin.
    pub fn new(spi: Spi, cs: Pin) -> (r: Self)
        ensures
            r.spi == spi,
            r.cs == cs,
    {
        SpiWithCs { spi, cs }
    }

    /// References to the inner bus and pin.  Using them directly violates
    /// the [`ManagedCs`] guarantee.
    pub fn inner(&mut self) -> ((bus, pin): (&mut Spi, &mut Pin))
        ensures
            *bus == old(self).spi,
            *pin == old(self).cs,
            *final(self) == (SpiWithCs { spi: *final(bus), cs: *final(pin) }),
    {
        (&mut self.spi, &mut self.cs)
    }

    /// Destroys the wrapper, returning the bus and pin objects.
    pub fn destroy(self) -> (r: (Spi, Pin))
        ensures
            r.0 == self.spi,
            r.1 == self.cs,
    {
        (self.spi, self.cs)
    }
}

impl<W, Spi: BusLog<W>, Pin: OutputPin> BusLog<W> for SpiWithCs<Spi, Pin> {
    open spec fn wf(&self) -> bool {
        self.spi.wf()
    }

    open spec fn written(&self) -> Seq<W> {
        self.spi.written()
    }

    open spec fn responses(&self) -> Seq<W> {
        self.spi.responses()
    }

    /// The wrapper is owed success only when both the bus and the pin are.
    open spec fn reliable(&self) -> bool {
        self.spi.reliable() && self.cs.reliable()
    }

    open spec fn fill_word(&self) -> W {
        self.spi.fill_word()
    }
}

impl<Spi: Write<u8>, Pin: OutputPin> Write<u8> for SpiWithCs<Spi, Pin> {
    type Error = SpiWithCsError<Spi::Error, Pin::Error>;

    /// Blocking write with automated CS assert/deassert.
    fn write(&mut self, words: &Vec<u8>) -> (r: Result<(), SpiWithCsError<Spi::Error, Pin::Error>>)
        ensures
            final(self).cs.reliable() == old(self).cs.reliable(),
            r is Ok ==> !final(self).cs.low(),
            (r matches Result::Err(SpiWithCsError::Spi(_))) ==> !final(self).cs.low(),
            (r matches Result::Err(SpiWithCsError::Pin(_))) ==> !old(self).cs.reliable(),
            final(self).cs.low() ==> (r matches Result::Err(SpiWithCsError::Pin(_))),
            ((r matches Result::Err(SpiWithCsError::Pin(_))) && !old(self).cs.low() && !final(self).cs.low())
                ==> final(self).written() == old(self).written() && final(self).responses() == old(self).responses(),
    {
        match self.cs.set_low() {
            Result::Err(pe) => {
                proof {
                    assert(old(self).responses().take(old(self).responses().len() as int)
                        =~= old(self).responses());
                    assert(old(self).written() + words@.take(0) =~= old(self).written());
                    assert(write_abort(0, words@, old(self).written(), self.written(),
                        old(self).responses().len() as int, self.responses().len() as int));
                }
                return Result::Err(SpiWithCsError::Pin(pe));
            },
            Result::Ok(()) => {},
        }
        let spi_result = self.spi.write(words);
        match self.cs.set_high() {
            Result::Err(pe) => {
                proof {
                    if spi_result is Ok {
                        assert(words@.take(words@.len() as int) =~= words@);
                        assert(write_abort(words@.len() as int, words@, old(self).written(),
                            self.written(), old(self).responses().len() as int,
                            self.responses().len() as int));
                    }
                }
                return Result::Err(SpiWithCsError::Pin(pe));
            },
            Result::Ok(()) => {},
        }
        match spi_result {
            Result::Ok(()) => Result::Ok(()),
            Result::Err(e) => Result::Err(SpiWithCsError::Spi(e)),
        }
    }
}

impl<Spi: WriteIter<u8>, Pin: OutputPin> WriteIter<u8> for SpiWithCs<Spi, Pin> {
    type Error = SpiWithCsError<Spi::Error, Pin::Error>;

    /// Blocking consuming write with automated CS assert/deassert.
    fn write_iter(&mut self, words: Vec<u8>) -> (r: Result<
        (),
        SpiWithCsError<Spi::Error, Pin::Error>,
    >)
        ensures
            final(self).cs.reliable() == old(self).cs.reliable(),
            r is Ok ==> !final(self).cs.low(),
            (r matches Result::Err(SpiWithCsError::Spi(_))) ==> !final(self).cs.low(),
            (r matches Result::Err(SpiWithCsError::Pin(_))) ==> !old(self).cs.reliable(),
            final(self).cs.low() ==> (r matches Result::Err(SpiWithCsError::Pin(_))),
            ((r matches Result::Err(SpiWithCsError::Pin(_))) && !old(self).cs.low() && !final(self).cs.low())
                ==> final(self).written() == old(self).written() && final(self).responses() == old(self).responses(),
    {
        let ghost ws = words@;
        match self.cs.set_low() {
            Result::Err(pe) => {
                proof {
                    assert(old(self).responses().take(old(self).responses().len() as int)
                        =~= old(self).responses());
                    assert(old(self).written() + ws.take(0) =~= old(self).written());
                    assert(write_abort(0, ws, old(self).written(), self.written(),
                        old(self).responses().len() as int, self.responses().len() as int));
                }
                return Result::Err(SpiWithCsError::Pin(pe));
            },
            Result::Ok(()) => {},
        }
        let spi_result = self.spi.write_iter(words);
        match self.cs.set_high() {
            Result::Err(pe) => {
                proof {
                    if spi_result is Ok {
                        assert(ws.take(ws.len() as int) =~= ws);
                        assert(write_abort(ws.len() as int, ws, old(self).written(),
                            self.written(), old(self).responses().len() as int,
                            self.responses().len() as int));
                    }
                }
                return Result::Err(SpiWithCsError::Pin(pe));
            },
            Result::Ok(()) => {},
        }
        match spi_result {
            Result::Ok(()) => Result::Ok(()),
            Result::Err(e) => Result::Err(SpiWithCsError::Spi(e)),
        }
    }
}

impl<Spi: Transfer<u8>, Pin: OutputPin> Transfer<u8> for SpiWithCs<Spi, Pin> {
    type Error = SpiWithCsError<Spi::Error, Pin::Error>;

    /// Blocking two-buffer transfer with automated CS assert/deassert.
    fn transfer(&mut self, read: &mut Vec<u8>, write: &Vec<u8>) -> (r: Result<
        (),
        SpiWithCsError<Spi::Error, Pin::Error>,
    >)
        ensures
            final(self).cs.reliable() == old(self).cs.reliable(),
            r is Ok ==> !final(self).cs.low(),
            (r matches Result::Err(SpiWithCsError::Spi(_))) ==> !final(self).cs.low(),
            (r matches Result::Err(SpiWithCsError::Pin(_))) ==> !old(self).cs.reliable(),
            final(self).cs.low() ==> (r matches Result::Err(SpiWithCsError::Pin(_))),
            ((r matches Result::Err(SpiWithCsError::Pin(_))) && !old(self).cs.low() && !final(self).cs.low())
                ==> final(self).written() == old(self).written() && final(self).responses() == old(self).responses()
                    && final(read)@ == old(read)@,
    {
        let ghost outgoing = padded(
            write@,
            self.fill_word(),
            transfer_steps(read@.len() as int, write@.len() as int),
        );
        match self.cs.set_low() {
            Result::Err(pe) => {
                proof {
                    assert(old(self).responses().take(old(self).responses().len() as int)
                        =~= old(self).responses());
                    assert(old(self).written() + outgoing.take(0) =~= old(self).written());
                    assert(transfer_abort(0, 0, outgoing, old(self).written(), self.written(),
                        old(self).responses().len() as int, self.responses(), read@, read@));
                }
                return Result::Err(SpiWithCsError::Pin(pe));
            },
            Result::Ok(()) => {},
        }
        let spi_result = self.spi.transfer(read, write);
        match self.cs.set_high() {
            Result::Err(pe) => {
                proof {
                    if spi_result is Ok {
                        assert(outgoing.take(outgoing.len() as int) =~= outgoing);
                        assert(transfer_abort(outgoing.len() as int, outgoing.len() as int,
                            outgoing, old(self).written(), self.written(),
                            old(self).responses().len() as int, self.responses(), old(read)@,
                            read@));
                    }
                }
                return Result::Err(SpiWithCsError::Pin(pe));
            },
            Result::Ok(()) => {},
        }
        match spi_result {
            Result::Ok(()) => Result::Ok(()),
            Result::Err(e) => Result::Err(SpiWithCsError::Spi(e)),
        }
    }

    /// Blocking in-place transfer with automated CS assert/deassert.
    fn transfer_inplace(&mut self, words: &mut Vec<u8>) -> (r: Result<
        (),
        SpiWithCsError<Spi::Error, Pin::Error>,
    >)
        ensures
            final(self).cs.reliable() == old(self).cs.reliable(),
            r is Ok ==> !final(self).cs.low(),
            (r matches Result::Err(SpiWithCsError::Spi(_))) ==> !final(self).cs.low(),
            (r matches Result::Err(SpiWithCsError::Pin(_))) ==> !old(self).cs.reliable(),
            final(self).cs.low() ==> (r matches Result::Err(SpiWithCsError::Pin(_))),
            ((r matches Result::Err(SpiWithCsError::Pin(_))) && !old(self).cs.low() && !final(self).cs.low())
                ==> final(self).written() == old(self).written() && final(self).responses() == old(self).responses()
                    && final(words)@ == old(words)@,
    {
        match self.cs.set_low() {
            Result::Err(pe) => {
                proof {
                    assert(old(self).responses().take(old(self).responses().len() as int)
                        =~= old(self).responses());
                    assert(old(self).written() + old(words)@.take(0) =~= old(self).written());
                    assert(transfer_abort(0, 0, old(words)@, old(self).written(), self.written(),
                        old(self).responses().len() as int, self.responses(), old(words)@,
                        words@));
                }
                return Result::Err(SpiWithCsError::Pin(pe));
            },
            Result::Ok(()) => {},
        }
        let ghost w_in = words@;
        let spi_result = self.spi.transfer_inplace(words);
        match self.cs.set_high() {
            Result::Err(pe) => {
                proof {
                    if spi_result is Ok {
                        assert(old(words)@.take(old(words)@.len() as int) =~= old(words)@);
                        assert(transfer_abort(old(words)@.len() as int, old(words)@.len() as int,
                            old(words)@, old(self).written(), self.written(),
                            old(self).responses().len() as int, self.responses(), old(words)@,
                            words@));
                    } else {
                        let (k, s) = choose|k: int, s: int|
                            transfer_abort(k, s, w_in, old(self).written(), self.written(),
                                old(self).responses().len() as int, self.responses(), w_in,
                                words@);
                        assert(transfer_abort(k, s, old(words)@, old(self).written(),
                            self.written(), old(self).responses().len() as int, self.responses(),
                            old(words)@, words@));
                    }
                }
                return Result::Err(SpiWithCsError::Pin(pe));
            },
            Result::Ok(()) => {},
        }
        match spi_result {
            Result::Ok(()) => Result::Ok(()),
            Result::Err(e) => {
                proof {
                    let (k, s) = choose|k: int, s: int|
                        transfer_abort(k, s, w_in, old(self).written(), self.written(),
                            old(self).responses().len() as int, self.responses(), w_in, words@);
                    assert(transfer_abort(k, s, old(words)@, old(self).written(), self.written(),
                        old(self).responses().len() as int, self.responses(), old(words)@,
                        words@));
                }
                Result::Err(SpiWithCsError::Spi(e))
            },
        }
    }
}

} // verus!
