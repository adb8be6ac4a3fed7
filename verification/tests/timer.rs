//! Countdown behaviour and cancellation.

use embedded_hal::mock::CancelFault;
use embedded_hal::mock::MockTimer;
use embedded_hal::nb::NbError;
use embedded_hal::timer::Cancel;
use embedded_hal::timer::CountDown;

#[test]
fn wait_blocks_once_per_tick_then_completes() {
    let mut t = MockTimer::new(false);
    t.start(2u32);
    assert_eq!(t.wait(), Err(NbError::WouldBlock));
    assert_eq!(t.wait(), Err(NbError::WouldBlock));
    assert_eq!(t.wait(), Ok(()));
}

#[test]
fn periodic_timer_rearms_after_completion() {
    let mut t = MockTimer::new(true);
    t.start(1u32);
    assert_eq!(t.wait(), Err(NbError::WouldBlock));
    assert_eq!(t.wait(), Ok(()));
    // the same countdown is running again
    assert_eq!(t.wait(), Err(NbError::WouldBlock));
    assert_eq!(t.wait(), Ok(()));
}

#[test]
fn cancel_of_a_never_started_countdown_fails() {
    let mut t = MockTimer::new(false);
    assert_eq!(t.cancel(), Err(CancelFault));
}

#[test]
fn cancel_of_a_running_countdown_succeeds_once() {
    let mut t = MockTimer::new(false);
    t.start(5u32);
    assert_eq!(t.cancel(), Ok(()));
    // already canceled: canceling again fails
    assert_eq!(t.cancel(), Err(CancelFault));
}

#[test]
fn cancel_of_an_expired_countdown_fails() {
    let mut t = MockTimer::new(false);
    t.start(0u32);
    assert_eq!(t.wait(), Ok(()));
    assert_eq!(t.cancel(), Err(CancelFault));
}

#[test]
fn cancel_of_a_running_periodic_countdown_succeeds() {
    let mut t = MockTimer::new(true);
    t.start(1u32);
    assert_eq!(t.wait(), Err(NbError::WouldBlock));
    assert_eq!(t.wait(), Ok(()));
    assert_eq!(t.cancel(), Ok(()));
}

#[test]
fn restarting_a_canceled_countdown_runs_it_again() {
    let mut t = MockTimer::new(false);
    t.start(3u32);
    assert_eq!(t.cancel(), Ok(()));
    t.start(1u32);
    assert_eq!(t.wait(), Err(NbError::WouldBlock));
    assert_eq!(t.wait(), Ok(()));
}
