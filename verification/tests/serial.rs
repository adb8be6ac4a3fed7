//! Non-blocking serial word transfer over the mock port.

use embedded_hal::mock::MockSerial;
use embedded_hal::nb::serial::Read;
use embedded_hal::nb::serial::Write;
use embedded_hal::nb::NbError;

#[test]
fn read_delivers_the_script_in_order_then_blocks() {
    let mut port = MockSerial::new(vec![10u8, 20]);
    assert_eq!(port.read(), Ok(10));
    assert_eq!(port.read(), Ok(20));
    assert_eq!(port.read(), Err(NbError::WouldBlock));
}

#[test]
fn write_records_every_word_and_flush_succeeds() {
    let mut port = MockSerial::new(Vec::new());
    assert_eq!(port.write(7u8), Ok(()));
    assert_eq!(port.write(8u8), Ok(()));
    assert_eq!(port.flush(), Ok(()));
    assert_eq!(*port.written_words(), vec![7u8, 8]);
}
