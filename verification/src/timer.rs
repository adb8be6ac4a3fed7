//! Timers.

use vstd::prelude::*;

use crate::nb::NbError;
use crate::nb::NbResult;

verus! {

/// The life cycle of a countdown, as the contracts see it.
#[derive(Debug, Copy, Clone, PartialEq, Eq, Structural)]
pub enum TimerState {
    /// No countdown was ever started.
    Idle,
    /// A countdown is running.  A periodic timer is always running once
    /// started: completing a wait rearms it.
    Running,
    /// A non-periodic countdown has signalled completion.
    Expired,
    /// The countdown was canceled.
    Canceled,
}

/// A count down timer.
///
/// [`start`](CountDown::start) begins a countdown; [`wait`](CountDown::wait)
/// answers "would block" until it has elapsed, then `Ok(())`.  For a
/// periodic timer a successful wait immediately rearms the same countdown;
/// otherwise the timer expires.  Calling `wait` on a timer that is not
/// running is excluded by contract: implementations need not support it.
pub trait CountDown: Sized {
    /// The unit of time used by this timer.
    type Time;

    /// The countdown's life-cycle state.
    spec fn timer_state(&self) -> TimerState;

    /// Whether a completed wait rearms the countdown.
    spec fn periodic(&self) -> bool;

    /// An upper bound on how many more times in a row `wait` may answer
    /// "would block"; it bounds a caller's polling loop.
    spec fn wait_budget(&self) -> nat;

    /// Starts a new countdown.
    fn start(&mut self, count: Self::Time)
        ensures
            final(self).timer_state() == TimerState::Running,
            final(self).periodic() == old(self).periodic(),
    ;

    /// Non-blockingly "waits" until the countdown finishes.
    fn wait(&mut self) -> (r: NbResult<(), core::convert::Infallible>)
        requires
            old(self).timer_state() == TimerState::Running,
        ensures
            final(self).periodic() == old(self).periodic(),
            match r {
                Result::Ok(()) => final(self).timer_state() == (if old(self).periodic() {
                    TimerState::Running
                } else {
                    TimerState::Expired
                }),
                Result::Err(NbError::WouldBlock) => final(self).timer_state()
                    == TimerState::Running && final(self).wait_budget() < old(self).wait_budget(),
                Result::Err(NbError::Other(_)) => false,
            },
    ;
}

/// Blocks until the running countdown finishes, by polling
/// [`CountDown::wait`] until it stops answering "would block".
#[verifier::loop_isolation(false)]
pub fn wait_blocking<T: CountDown>(t: &mut T)
    requires
        old(t).timer_state() == TimerState::Running,
    ensures
        final(t).periodic() == old(t).periodic(),
        final(t).timer_state() == (if old(t).periodic() {
            TimerState::Running
        } else {
            TimerState::Expired
        }),
{
    loop
        invariant
            t.timer_state() == TimerState::Running,
            t.periodic() == old(t).periodic(),
        decreases t.wait_budget(),
    {
        match t.wait() {
            Result::Ok(()) => {
                return ;
            },
            Result::Err(NbError::WouldBlock) => {},
            Result::Err(NbError::Other(_)) => {
                proof {
                    assert(false);
                }
            },
        }
    }
}

/// Marker trait that indicates that a timer is periodic.
pub trait Periodic {

}

/// Trait for cancelable countdowns.
pub trait Cancel: CountDown {
    /// Error returned when a countdown cannot be canceled.
    type Error;

    /// Tries to cancel this countdown.
    ///
    /// Cancellation succeeds exactly on a running countdown.  It fails if
    /// the countdown was never started, was already canceled, or — for a
    /// non-periodic timer — has already expired.
    fn cancel(&mut self) -> (r: Result<(), Self::Error>)
        ensures
            final(self).periodic() == old(self).periodic(),
            r is Ok <==> old(self).timer_state() == TimerState::Running,
            r is Ok ==> final(self).timer_state() == TimerState::Canceled,
            r is Err ==> final(self).timer_state() == old(self).timer_state(),
    ;
}

/// Law: cancellation succeeds exactly once.  On a running countdown the
/// first `cancel` succeeds and stops it; a second `cancel` without an
/// intervening `start` fails, the countdown being already canceled.  (On a
/// countdown that is not running — never started, expired, or already
/// canceled — `cancel` fails outright, which its own contract states.)
/// This holds for every implementation of [`Cancel`].
pub fn cancel_stops_the_countdown<T: Cancel>(t: &mut T) -> (r: (
    Result<(), T::Error>,
    Result<(), T::Error>,
))
    requires
        old(t).timer_state() == TimerState::Running,
    ensures
        r.0 is Ok,
        final(t).timer_state() == TimerState::Canceled,
        r.1 is Err,
{
    let first = t.cancel();
    let second = t.cancel();
    (first, second)
}

} // verus!
