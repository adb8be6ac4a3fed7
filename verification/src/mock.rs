//! Verified mock implementations of the capability traits.
//!
//! These devices exist so that the bridging layers can be exercised: an
//! echoing SPI device, a device that fails after a set number of words, a
//! scriptable output pin and a tick-driven countdown.  Each implements its
//! trait's full contract, which makes the contracts themselves
//! non-vacuous.

use vstd::prelude::*;

use crate::blocking::spi::BlockingSpi;
use crate::blocking::spi::BusLog;
use crate::blocking::spi::Transfer;
use crate::digital::OutputPin;
use crate::nb::serial::Read as SerialRead;
use crate::nb::serial::Write as SerialWrite;
use crate::nb::spi::FullDuplex;
use crate::nb::NbError;
use crate::nb::NbResult;
use crate::timer::Cancel;
use crate::timer::CountDown;
use crate::timer::TimerState;

verus! {

/// A full-duplex SPI device that echoes every word: the response to a word
/// is the word itself.  It never fails; it can be made to answer "would
/// block" a set number of times before accepting a word.
pub struct EchoSpi {
    log: Vec<u8>,
    pending: bool,
    stalls_left: u32,
}

impl EchoSpi {
    /// An echo device that is always ready.
    pub fn new() -> (r: Self)
        ensures
            r.sent() == Seq::<u8>::empty(),
            r.received() == Seq::<u8>::empty(),
    {
        EchoSpi { log: Vec::new(), pending: false, stalls_left: 0 }
    }

    /// An echo device that answers "would block" to the next `stalls`
    /// writes before accepting one.
    pub fn new_stalling(stalls: u32) -> (r: Self)
        ensures
            r.sent() == Seq::<u8>::empty(),
            r.received() == Seq::<u8>::empty(),
    {
        EchoSpi { log: Vec::new(), pending: false, stalls_left: stalls }
    }

    /// Every word the device has accepted, in order.
    pub fn words(&self) -> (r: &Vec<u8>)
        ensures
            r@ == self.sent(),
    {
        &self.log
    }
}

impl FullDuplex<u8> for EchoSpi {
    type Error = crate::errors::spi::ErrorKind;

    closed spec fn sent(&self) -> Seq<u8> {
        self.log@
    }

    closed spec fn received(&self) -> Seq<u8> {
        if self.pending && self.log@.len() > 0 {
            self.log@.take(self.log@.len() - 1)
        } else {
            self.log@
        }
    }

    open spec fn infallible(&self) -> bool {
        true
    }

    closed spec fn poll_budget(&self) -> nat {
        self.stalls_left as nat
    }

    fn write(&mut self, word: u8) -> (r: NbResult<(), Self::Error>) {
        if self.stalls_left > 0 {
            self.stalls_left = self.stalls_left - 1;
            return Result::Err(NbError::WouldBlock);
        }
        self.log.push(word);
        self.pending = true;
        proof {
            assert(self.log@.take(self.log@.len() - 1) =~= old(self).log@);
        }
        Result::Ok(())
    }

    fn read(&mut self) -> (r: NbResult<u8, Self::Error>) {
        proof {
            assert(self.pending && self.log@.len() > 0);
        }
        let w = self.log[self.log.len() - 1];
        self.pending = false;
        proof {
            assert(self.log@ =~= self.log@.take(self.log@.len() - 1).push(w));
        }
        Result::Ok(w)
    }
}

/// A full-duplex SPI device that accepts a set number of words and then
/// reports a bus error on every further write.  Accepted words are echoed
/// like [`EchoSpi`].
pub struct FlakySpi {
    log: Vec<u8>,
    pending: bool,
    accepts: usize,
}

impl FlakySpi {
    /// A device that accepts `accepts` words before failing.
    pub fn new(accepts: usize) -> (r: Self)
        ensures
            r.sent() == Seq::<u8>::empty(),
            r.received() == Seq::<u8>::empty(),
    {
        FlakySpi { log: Vec::new(), pending: false, accepts }
    }

    /// Every word the device has accepted, in order.
    pub fn words(&self) -> (r: &Vec<u8>)
        ensures
            r@ == self.sent(),
    {
        &self.log
    }
}

impl FullDuplex<u8> for FlakySpi {
    type Error = crate::errors::spi::ErrorKind;

    closed spec fn sent(&self) -> Seq<u8> {
        self.log@
    }

    closed spec fn received(&self) -> Seq<u8> {
        if self.pending && self.log@.len() > 0 {
            self.log@.take(self.log@.len() - 1)
        } else {
            self.log@
        }
    }

    open spec fn infallible(&self) -> bool {
        false
    }

    closed spec fn poll_budget(&self) -> nat {
        0
    }

    fn write(&mut self, word: u8) -> (r: NbResult<(), Self::Error>) {
        if self.log.len() >= self.accepts {
            return Result::Err(NbError::Other(crate::errors::spi::ErrorKind::Bus));
        }
        self.log.push(word);
        self.pending = true;
        proof {
            assert(self.log@.take(self.log@.len() - 1) =~= old(self).log@);
        }
        Result::Ok(())
    }

    fn read(&mut self) -> (r: NbResult<u8, Self::Error>) {
        proof {
            assert(self.pending && self.log@.len() > 0);
        }
        let w = self.log[self.log.len() - 1];
        self.pending = false;
        proof {
            assert(self.log@ =~= self.log@.take(self.log@.len() - 1).push(w));
        }
        Result::Ok(w)
    }
}

/// Error of [`MockPin`]: the scripted refusal to switch.
#[derive(Debug, Copy, Clone, PartialEq, Eq)]
pub struct PinFault;

/// An output pin that records every successful transition and can be
/// scripted to refuse asserting or deasserting.
pub struct MockPin {
    is_low: bool,
    fail_low: bool,
    fail_high: bool,
    events: Vec<bool>,
}

impl MockPin {
    /// A deasserted pin that always switches.
    pub fn new() -> (r: Self)
        ensures
            !r.low(),
            r.reliable(),
    {
        MockPin { is_low: false, fail_low: false, fail_high: false, events: Vec::new() }
    }

    /// A deasserted pin that refuses to drive low.
    pub fn failing_low() -> (r: Self)
        ensures
            !r.low(),
            !r.reliable(),
    {
        MockPin { is_low: false, fail_low: true, fail_high: false, events: Vec::new() }
    }

    /// A deasserted pin that refuses to drive high.
    pub fn failing_high() -> (r: Self)
        ensures
            !r.low(),
            !r.reliable(),
    {
        MockPin { is_low: false, fail_low: false, fail_high: true, events: Vec::new() }
    }

    /// The successful transitions so far: `true` for low, `false` for high.
    pub closed spec fn transitions(&self) -> Seq<bool> {
        self.events@
    }

    /// The successful transitions so far, `true` for low, `false` for high.
    pub fn events(&self) -> (r: &Vec<bool>)
        ensures
            r@ == self.transitions(),
    {
        &self.events
    }

    /// Whether the pin currently drives its line low.
    pub fn is_set_low(&self) -> (r: bool)
        ensures
            r == self.low(),
    {
        self.is_low
    }
}

impl OutputPin for MockPin {
    type Error = PinFault;

    closed spec fn low(&self) -> bool {
        self.is_low
    }

    closed spec fn reliable(&self) -> bool {
        !self.fail_low && !self.fail_high
    }

    fn set_low(&mut self) -> (r: Result<(), PinFault>)
        ensures
            r is Ok ==> final(self).transitions() == old(self).transitions().push(true),
            r is Err ==> *final(self) == *old(self),
    {
        if self.fail_low {
            return Result::Err(PinFault);
        }
        self.is_low = true;
        self.events.push(true);
        Result::Ok(())
    }

    fn set_high(&mut self) -> (r: Result<(), PinFault>)
        ensures
            r is Ok ==> final(self).transitions() == old(self).transitions().push(false),
            r is Err ==> *final(self) == *old(self),
    {
        if self.fail_high {
            return Result::Err(PinFault);
        }
        self.is_low = false;
        self.events.push(false);
        Result::Ok(())
    }
}

/// Error of [`MockTimer::cancel`]: the countdown was not running.
#[derive(Debug, Copy, Clone, PartialEq, Eq)]
pub struct CancelFault;

/// A countdown driven by its own `wait` calls: started with a tick count,
/// it answers "would block" once per remaining tick.  A periodic instance
/// rearms itself on completion.
pub struct MockTimer {
    state: TimerState,
    remaining: u32,
    period: u32,
    is_periodic: bool,
}

impl MockTimer {
    /// A timer in its idle state; a periodic one rearms on completion.
    pub fn new(is_periodic: bool) -> (r: Self)
        ensures
            r.timer_state() == TimerState::Idle,
            r.periodic() == is_periodic,
    {
        MockTimer { state: TimerState::Idle, remaining: 0, period: 0, is_periodic }
    }
}

impl CountDown for MockTimer {
    type Time = u32;

    closed spec fn timer_state(&self) -> TimerState {
        self.state
    }

    closed spec fn periodic(&self) -> bool {
        self.is_periodic
    }

    closed spec fn wait_budget(&self) -> nat {
        self.remaining as nat
    }

    fn start(&mut self, count: u32) {
        self.state = TimerState::Running;
        self.remaining = count;
        self.period = count;
    }

    fn wait(&mut self) -> (r: NbResult<(), core::convert::Infallible>) {
        if self.remaining > 0 {
            self.remaining = self.remaining - 1;
            Result::Err(NbError::WouldBlock)
        } else if self.is_periodic {
            self.remaining = self.period;
            Result::Ok(())
        } else {
            self.state = TimerState::Expired;
            Result::Ok(())
        }
    }
}

impl Cancel for MockTimer {
    type Error = CancelFault;

    fn cancel(&mut self) -> (r: Result<(), CancelFault>) {
        match self.state {
            TimerState::Running => {
                self.state = TimerState::Canceled;
                Result::Ok(())
            },
            _ => Result::Err(CancelFault),
        }
    }
}

/// A serial port that delivers a preloaded script of words and records
/// everything written to it.  It never reports a hard error; reading past
/// the script answers "would block".
pub struct MockSerial {
    incoming: Vec<u8>,
    log_delivered: Vec<u8>,
    outgoing: Vec<u8>,
    flushed: usize,
}

impl MockSerial {
    /// A port whose reads will deliver `incoming`, in order.
    pub fn new(incoming: Vec<u8>) -> (r: Self)
        ensures
            r.script() == incoming@,
            r.delivered() == Seq::<u8>::empty(),
            r.accepted() == Seq::<u8>::empty(),
    {
        MockSerial { incoming, log_delivered: Vec::new(), outgoing: Vec::new(), flushed: 0 }
    }

    /// The words the port still has to deliver, next first.
    pub closed spec fn script(&self) -> Seq<u8> {
        self.incoming@
    }

    /// Every word accepted for transmission so far, in order.
    pub fn written_words(&self) -> (r: &Vec<u8>)
        ensures
            r@ == self.accepted(),
    {
        &self.outgoing
    }
}

impl SerialRead<u8> for MockSerial {
    type Error = crate::errors::serial::ErrorKind;

    closed spec fn delivered(&self) -> Seq<u8> {
        self.log_delivered@
    }

    open spec fn infallible(&self) -> bool {
        true
    }

    fn read(&mut self) -> (r: NbResult<u8, Self::Error>)
        ensures
            match r {
                Result::Ok(w) => old(self).script().len() > 0 && w == old(self).script()[0]
                    && final(self).script() == old(self).script().skip(1),
                Result::Err(NbError::WouldBlock) => old(self).script().len() == 0
                    && final(self).script() == old(self).script(),
                Result::Err(NbError::Other(_)) => false,
            },
    {
        if self.incoming.len() == 0 {
            return Result::Err(NbError::WouldBlock);
        }
        let w = self.incoming.remove(0);
        self.log_delivered.push(w);
        proof {
            assert(self.incoming@ =~= old(self).incoming@.skip(1));
        }
        Result::Ok(w)
    }
}

impl SerialWrite<u8> for MockSerial {
    type Error = crate::errors::serial::ErrorKind;

    closed spec fn accepted(&self) -> Seq<u8> {
        self.outgoing@
    }

    closed spec fn buffered(&self) -> nat {
        if self.flushed >= self.outgoing@.len() {
            0
        } else {
            (self.outgoing@.len() - self.flushed) as nat
        }
    }

    open spec fn infallible(&self) -> bool {
        true
    }

    fn write(&mut self, word: u8) -> (r: NbResult<(), Self::Error>)
        ensures
            final(self).script() == old(self).script(),
    {
        self.outgoing.push(word);
        Result::Ok(())
    }

    fn flush(&mut self) -> (r: NbResult<(), Self::Error>)
        ensures
            final(self).script() == old(self).script(),
    {
        self.flushed = self.outgoing.len();
        Result::Ok(())
    }
}

/// Round trip through an echoing device: an in-place transfer over
/// [`EchoSpi`] succeeds and returns its buffer unchanged, because each slot
/// is overwritten with the response to the word it held, and an echo device
/// replies to every word with the word itself.
pub fn echo_round_trip(spi: &mut BlockingSpi<u8, EchoSpi>, words: &mut Vec<u8>) -> (r: Result<
    (),
    crate::errors::spi::ErrorKind,
>)
    requires
        old(spi).wf(),
    ensures
        final(spi).wf(),
        r is Ok,
        final(words)@ == old(words)@,
{
    let r = spi.transfer_inplace(words);
    proof {
        assert(spi.dev.received() == spi.dev.sent());
        assert(words@ =~= old(words)@);
    }
    r
}

} // verus!
