//! The blocking bridge over mock non-blocking devices.

use embedded_hal::blocking::spi::BlockingSpi;
use embedded_hal::blocking::spi::Transfer;
use embedded_hal::blocking::spi::Write;
use embedded_hal::blocking::spi::WriteIter;
use embedded_hal::errors::spi::ErrorKind;
use embedded_hal::mock::echo_round_trip;
use embedded_hal::mock::EchoSpi;
use embedded_hal::mock::FlakySpi;

#[test]
fn write_sends_every_word_in_order() {
    let mut spi = BlockingSpi::new(EchoSpi::new(), 0u8);
    assert_eq!(spi.write(&vec![1u8, 2, 3]), Ok(()));
    assert_eq!(*spi.dev.words(), vec![1u8, 2, 3]);
}

#[test]
fn write_of_nothing_sends_nothing() {
    let mut spi = BlockingSpi::new(EchoSpi::new(), 0u8);
    assert_eq!(spi.write(&Vec::new()), Ok(()));
    assert!(spi.dev.words().is_empty());
}

#[test]
fn write_polls_past_would_block() {
    let mut spi = BlockingSpi::new(EchoSpi::new_stalling(3), 0u8);
    assert_eq!(spi.write(&vec![9u8, 8]), Ok(()));
    assert_eq!(*spi.dev.words(), vec![9u8, 8]);
}

#[test]
fn write_aborts_at_first_error() {
    let mut spi = BlockingSpi::new(FlakySpi::new(2), 0u8);
    assert_eq!(spi.write(&vec![1u8, 2, 3, 4]), Err(ErrorKind::Bus));
    assert_eq!(*spi.dev.words(), vec![1u8, 2]);
}

#[test]
fn write_iter_drains_its_source() {
    let mut spi = BlockingSpi::new(EchoSpi::new(), 0u8);
    assert_eq!(spi.write_iter(vec![5u8, 6, 7]), Ok(()));
    assert_eq!(*spi.dev.words(), vec![5u8, 6, 7]);
}

#[test]
fn transfer_with_longer_write_discards_extra_responses() {
    let mut spi = BlockingSpi::new(EchoSpi::new(), 0u8);
    let mut read = vec![0u8, 0];
    assert_eq!(spi.transfer(&mut read, &vec![10u8, 20, 30]), Ok(()));
    assert_eq!(*spi.dev.words(), vec![10u8, 20, 30]);
    assert_eq!(read, vec![10u8, 20]);
}

#[test]
fn transfer_with_longer_read_sends_the_fill_word() {
    let mut spi = BlockingSpi::new(EchoSpi::new(), 0xFFu8);
    let mut read = vec![0u8, 0, 0, 0];
    assert_eq!(spi.transfer(&mut read, &vec![7u8, 8]), Ok(()));
    assert_eq!(*spi.dev.words(), vec![7u8, 8, 0xFF, 0xFF]);
    assert_eq!(read, vec![7u8, 8, 0xFF, 0xFF]);
}

#[test]
fn transfer_with_equal_lengths_exchanges_each_slot() {
    let mut spi = BlockingSpi::new(EchoSpi::new(), 0u8);
    let mut read = vec![0u8, 0];
    assert_eq!(spi.transfer(&mut read, &vec![3u8, 4]), Ok(()));
    assert_eq!(read, vec![3u8, 4]);
}

#[test]
fn transfer_failure_leaves_the_tail_untouched() {
    let mut spi = BlockingSpi::new(FlakySpi::new(1), 0u8);
    let mut read = vec![101u8, 102, 103];
    assert_eq!(spi.transfer(&mut read, &vec![1u8, 2, 3]), Err(ErrorKind::Bus));
    assert_eq!(read, vec![1u8, 102, 103]);
    assert_eq!(*spi.dev.words(), vec![1u8]);
}

#[test]
fn transfer_inplace_round_trips_through_an_echo() {
    let mut spi = BlockingSpi::new(EchoSpi::new(), 0u8);
    let mut buf = vec![11u8, 22, 33];
    assert_eq!(spi.transfer_inplace(&mut buf), Ok(()));
    assert_eq!(buf, vec![11u8, 22, 33]);
    assert_eq!(*spi.dev.words(), vec![11u8, 22, 33]);
}

#[test]
fn echo_round_trip_law_holds_on_a_sample() {
    let mut spi = BlockingSpi::new(EchoSpi::new(), 0u8);
    let mut buf = vec![250u8, 0, 17];
    assert_eq!(echo_round_trip(&mut spi, &mut buf), Ok(()));
    assert_eq!(buf, vec![250u8, 0, 17]);
}

#[test]
fn read_clocks_out_the_fill_word() {
    let mut spi = BlockingSpi::new(EchoSpi::new(), 0x55u8);
    let mut buf = vec![0u8, 0, 0];
    assert_eq!(spi.read(&mut buf), Ok(()));
    assert_eq!(buf, vec![0x55u8, 0x55, 0x55]);
    assert_eq!(*spi.dev.words(), vec![0x55u8, 0x55, 0x55]);
}
