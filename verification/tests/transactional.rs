//! Composed transactions over the blocking bridge.

use embedded_hal::blocking::spi::BlockingSpi;
use embedded_hal::blocking::spi::Operation;
use embedded_hal::blocking::spi::Transactional;
use embedded_hal::errors::spi::ErrorKind;
use embedded_hal::mock::EchoSpi;
use embedded_hal::mock::FlakySpi;

#[test]
fn exec_runs_operations_in_the_given_order() {
    let mut spi = BlockingSpi::new(EchoSpi::new(), 0u8);
    let mut ops = vec![
        Operation::Write(vec![1u8, 2]),
        Operation::Transfer(vec![3u8, 4]),
        Operation::Write(vec![5u8]),
    ];
    assert_eq!(spi.exec(&mut ops), Ok(()));
    assert_eq!(*spi.dev.words(), vec![1u8, 2, 3, 4, 5]);
    assert_eq!(ops.len(), 3);
    assert_eq!(ops[0], Operation::Write(vec![1u8, 2]));
    assert_eq!(ops[1], Operation::Transfer(vec![3u8, 4]));
    assert_eq!(ops[2], Operation::Write(vec![5u8]));
}

#[test]
fn exec_overwrites_transfer_buffers_with_responses() {
    let mut spi = BlockingSpi::new(EchoSpi::new(), 0u8);
    let mut ops = vec![Operation::Transfer(vec![40u8, 41])];
    assert_eq!(spi.exec(&mut ops), Ok(()));
    assert_eq!(ops[0], Operation::Transfer(vec![40u8, 41]));
}

#[test]
fn exec_of_nothing_is_a_no_op() {
    let mut spi = BlockingSpi::new(EchoSpi::new(), 0u8);
    let mut ops: Vec<Operation<u8>> = Vec::new();
    assert_eq!(spi.exec(&mut ops), Ok(()));
    assert!(spi.dev.words().is_empty());
}

#[test]
fn exec_stops_at_the_first_failing_operation() {
    let mut spi = BlockingSpi::new(FlakySpi::new(3), 0u8);
    let mut ops = vec![
        Operation::Write(vec![1u8, 2]),
        Operation::Transfer(vec![9u8, 9]),
        Operation::Write(vec![5u8, 6]),
    ];
    assert_eq!(spi.exec(&mut ops), Err(ErrorKind::Bus));
    // the first operation ran, the second failed on its second word, the
    // third was never started
    assert_eq!(*spi.dev.words(), vec![1u8, 2, 9]);
    assert_eq!(ops[0], Operation::Write(vec![1u8, 2]));
    assert_eq!(ops[2], Operation::Write(vec![5u8, 6]));
}

#[test]
fn exec_failing_on_the_first_operation_runs_nothing_else() {
    let mut spi = BlockingSpi::new(FlakySpi::new(0), 0u8);
    let mut ops = vec![Operation::Write(vec![1u8]), Operation::Write(vec![2u8])];
    assert_eq!(spi.exec(&mut ops), Err(ErrorKind::Bus));
    assert!(spi.dev.words().is_empty());
    assert_eq!(ops[1], Operation::Write(vec![2u8]));
}
