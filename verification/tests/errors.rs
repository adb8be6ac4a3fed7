//! The error taxonomies and their reflexive kind mapping.

use embedded_hal::errors::i2c;
use embedded_hal::errors::serial;
use embedded_hal::errors::spi;
use embedded_hal::errors::i2c::Error as I2cError;
use embedded_hal::errors::serial::Error as SerialError;
use embedded_hal::errors::spi::Error as SpiError;

#[test]
fn i2c_kinds_report_themselves() {
    assert_eq!(i2c::ErrorKind::Bus.kind(), i2c::ErrorKind::Bus);
    assert_eq!(i2c::ErrorKind::ArbitrationLoss.kind(), i2c::ErrorKind::ArbitrationLoss);
    assert_eq!(i2c::ErrorKind::NoAcknowledge.kind(), i2c::ErrorKind::NoAcknowledge);
    assert_eq!(i2c::ErrorKind::Overrun.kind(), i2c::ErrorKind::Overrun);
    assert_eq!(i2c::ErrorKind::Underrun.kind(), i2c::ErrorKind::Underrun);
    assert_eq!(i2c::ErrorKind::Other.kind(), i2c::ErrorKind::Other);
}

#[test]
fn spi_kinds_report_themselves() {
    assert_eq!(spi::ErrorKind::Bus.kind(), spi::ErrorKind::Bus);
    assert_eq!(spi::ErrorKind::Overrun.kind(), spi::ErrorKind::Overrun);
    assert_eq!(spi::ErrorKind::ModeFault.kind(), spi::ErrorKind::ModeFault);
    assert_eq!(spi::ErrorKind::Crc.kind(), spi::ErrorKind::Crc);
    assert_eq!(spi::ErrorKind::FrameFormat.kind(), spi::ErrorKind::FrameFormat);
    assert_eq!(spi::ErrorKind::Other.kind(), spi::ErrorKind::Other);
}

#[test]
fn serial_kinds_report_themselves() {
    assert_eq!(serial::ErrorKind::Overrun.kind(), serial::ErrorKind::Overrun);
    assert_eq!(serial::ErrorKind::FrameFormat.kind(), serial::ErrorKind::FrameFormat);
    assert_eq!(serial::ErrorKind::Parity.kind(), serial::ErrorKind::Parity);
    assert_eq!(serial::ErrorKind::Noise.kind(), serial::ErrorKind::Noise);
    assert_eq!(serial::ErrorKind::Other.kind(), serial::ErrorKind::Other);
}
