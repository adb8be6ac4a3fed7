//! A hardware-abstraction-layer interface contract for embedded systems.
//!
//! The crate defines capability traits that peripheral drivers implement and
//! that generic application code consumes: non-blocking single-word bus
//! primitives, blocking multi-word SPI operations derived from them, serial
//! word transfer, count-down timers, and digital output pins.  Each trait
//! carries a formal contract over a ghost history of the words exchanged, so
//! that the bridging layers in this crate are verified against it.

pub mod blocking;
pub mod digital;
pub mod errors;
pub mod mock;
pub mod nb;
pub mod prelude;
pub mod timer;
