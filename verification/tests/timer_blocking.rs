//! The blocking wait helper over the countdown contract.

use embedded_hal::mock::CancelFault;
use embedded_hal::mock::MockTimer;
use embedded_hal::timer::cancel_stops_the_countdown;
use embedded_hal::timer::wait_blocking;
use embedded_hal::timer::Cancel;
use embedded_hal::timer::CountDown;

#[test]
fn cancel_law_holds_on_a_sample() {
    let mut t = MockTimer::new(false);
    t.start(7u32);
    let (first, second) = cancel_stops_the_countdown(&mut t);
    assert_eq!(first, Ok(()));
    assert_eq!(second, Err(CancelFault));
}

#[test]
fn wait_blocking_returns_once_the_countdown_elapsed() {
    let mut t = MockTimer::new(false);
    t.start(4u32);
    wait_blocking(&mut t);
    // the countdown expired: cancellation now fails
    assert_eq!(t.cancel(), Err(CancelFault));
}

#[test]
fn wait_blocking_on_a_periodic_timer_leaves_it_running() {
    let mut t = MockTimer::new(true);
    t.start(2u32);
    wait_blocking(&mut t);
    // still running: it can be canceled
    assert_eq!(t.cancel(), Ok(()));
}
