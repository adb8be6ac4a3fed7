//! The prelude is a collection of all the traits in this crate.
//!
//! The traits are renamed to avoid collisions with other items when
//! performing a glob import.

pub use crate::blocking::spi::BusLog as _embedded_hal_blocking_spi_BusLog;
pub use crate::blocking::spi::ManagedCs as _embedded_hal_blocking_spi_ManagedCs;
pub use crate::blocking::spi::Transactional as _embedded_hal_blocking_spi_Transactional;
pub use crate::blocking::spi::Transfer as _embedded_hal_blocking_spi_Transfer;
pub use crate::blocking::spi::Write as _embedded_hal_blocking_spi_Write;
pub use crate::blocking::spi::WriteIter as _embedded_hal_blocking_spi_WriteIter;
pub use crate::digital::OutputPin as _embedded_hal_digital_OutputPin;
pub use crate::errors::i2c::Error as _embedded_hal_errors_i2c_Error;
pub use crate::errors::serial::Error as _embedded_hal_errors_serial_Error;
pub use crate::errors::spi::Error as _embedded_hal_errors_spi_Error;
pub use crate::nb::serial::Read as _embedded_hal_nb_serial_Read;
pub use crate::nb::serial::Write as _embedded_hal_nb_serial_Write;
pub use crate::nb::spi::FullDuplex as _embedded_hal_nb_spi_FullDuplex;
pub use crate::timer::Cancel as _embedded_hal_timer_Cancel;
pub use crate::timer::CountDown as _embedded_hal_timer_CountDown;
pub use crate::timer::Periodic as _embedded_hal_timer_Periodic;
