//! Chip-select bracketing around bus operations.

use embedded_hal::blocking::spi::BlockingSpi;
use embedded_hal::blocking::spi::Transfer;
use embedded_hal::blocking::spi::Write;
use embedded_hal::blocking::spi::WriteIter;
use embedded_hal::blocking::spi_with_cs::SpiWithCs;
use embedded_hal::blocking::spi_with_cs::SpiWithCsError;
use embedded_hal::errors::spi::ErrorKind;
use embedded_hal::mock::EchoSpi;
use embedded_hal::mock::FlakySpi;
use embedded_hal::mock::MockPin;
use embedded_hal::mock::PinFault;

#[test]
fn write_brackets_the_operation_with_the_select_pin() {
    let mut s = SpiWithCs::new(BlockingSpi::new(EchoSpi::new(), 0u8), MockPin::new());
    assert_eq!(s.write(&vec![1u8, 2]), Ok(()));
    assert_eq!(*s.cs.events(), vec![true, false]);
    assert!(!s.cs.is_set_low());
    assert_eq!(*s.spi.dev.words(), vec![1u8, 2]);
}

#[test]
fn bus_error_is_reported_and_the_pin_still_deasserted() {
    let mut s = SpiWithCs::new(BlockingSpi::new(FlakySpi::new(1), 0u8), MockPin::new());
    assert_eq!(s.write(&vec![1u8, 2, 3]), Err(SpiWithCsError::Spi(ErrorKind::Bus)));
    // the deassert call happened even though the bus failed
    assert_eq!(*s.cs.events(), vec![true, false]);
    assert!(!s.cs.is_set_low());
}

#[test]
fn assert_failure_leaves_the_bus_untouched() {
    let mut s = SpiWithCs::new(BlockingSpi::new(EchoSpi::new(), 0u8), MockPin::failing_low());
    assert_eq!(s.write(&vec![1u8]), Err(SpiWithCsError::Pin(PinFault)));
    assert!(s.spi.dev.words().is_empty());
    assert!(s.cs.events().is_empty());
}

#[test]
fn deassert_failure_overrides_a_successful_bus_result() {
    let mut s = SpiWithCs::new(BlockingSpi::new(EchoSpi::new(), 0u8), MockPin::failing_high());
    assert_eq!(s.write(&vec![1u8, 2]), Err(SpiWithCsError::Pin(PinFault)));
    // the bus operation did run
    assert_eq!(*s.spi.dev.words(), vec![1u8, 2]);
    assert_eq!(*s.cs.events(), vec![true]);
}

#[test]
fn deassert_failure_overrides_a_bus_error_too() {
    let mut s = SpiWithCs::new(BlockingSpi::new(FlakySpi::new(0), 0u8), MockPin::failing_high());
    assert_eq!(s.write(&vec![1u8]), Err(SpiWithCsError::Pin(PinFault)));
}

#[test]
fn transfer_brackets_and_exchanges() {
    let mut s = SpiWithCs::new(BlockingSpi::new(EchoSpi::new(), 0u8), MockPin::new());
    let mut read = vec![0u8, 0];
    assert_eq!(s.transfer(&mut read, &vec![8u8, 9]), Ok(()));
    assert_eq!(read, vec![8u8, 9]);
    assert_eq!(*s.cs.events(), vec![true, false]);
}

#[test]
fn transfer_inplace_brackets_and_round_trips() {
    let mut s = SpiWithCs::new(BlockingSpi::new(EchoSpi::new(), 0u8), MockPin::new());
    let mut buf = vec![4u8, 5];
    assert_eq!(s.transfer_inplace(&mut buf), Ok(()));
    assert_eq!(buf, vec![4u8, 5]);
    assert_eq!(*s.cs.events(), vec![true, false]);
}

#[test]
fn write_iter_brackets_the_operation() {
    let mut s = SpiWithCs::new(BlockingSpi::new(EchoSpi::new(), 0u8), MockPin::new());
    assert_eq!(s.write_iter(vec![7u8]), Ok(()));
    assert_eq!(*s.cs.events(), vec![true, false]);
    assert_eq!(*s.spi.dev.words(), vec![7u8]);
}

#[test]
fn inner_exposes_the_parts_and_destroy_returns_them() {
    let mut s = SpiWithCs::new(BlockingSpi::new(EchoSpi::new(), 0u8), MockPin::new());
    {
        let (bus, pin) = s.inner();
        assert!(bus.dev.words().is_empty());
        assert!(!pin.is_set_low());
    }
    let (bus, pin) = s.destroy();
    assert!(bus.dev.words().is_empty());
    assert!(pin.events().is_empty());
}
