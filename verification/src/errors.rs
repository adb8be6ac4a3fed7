//! Error definitions.
//!
//! Each bus domain defines an open enumeration of canonical error kinds and a
//! capability trait through which a driver's own error type reports the kind
//! it maps to.  Generic code can then react to heterogeneous driver errors in
//! a uniform way.

pub mod i2c;
pub mod serial;
pub mod spi;
