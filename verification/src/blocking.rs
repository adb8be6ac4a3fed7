//! Blocking interfaces, derived from the non-blocking primitives by polling.

pub mod spi;
pub mod spi_with_cs;
