//! Digital I/O.

use vstd::prelude::*;

verus! {

/// Single digital push-pull output pin.
///
/// The pin's electrical level is modelled by the [`low`](OutputPin::low)
/// state; a failed call leaves the level as it was.
pub trait OutputPin: Sized {
    /// Error type.
    type Error;

    /// Whether the pin drives its line low.
    spec fn low(&self) -> bool;

    /// Whether this pin always switches successfully.
    spec fn reliable(&self) -> bool;

    /// Drives the pin low.  A failed switch leaves the line where it was.
    fn set_low(&mut self) -> (r: Result<(), Self::Error>)
        ensures
            final(self).reliable() == old(self).reliable(),
            old(self).reliable() ==> r is Ok,
            r is Ok ==> final(self).low(),
            r is Err ==> final(self).low() == old(self).low(),
    ;

    /// Drives the pin high.  A failed switch leaves the line where it was.
    fn set_high(&mut self) -> (r: Result<(), Self::Error>)
        ensures
            final(self).reliable() == old(self).reliable(),
            old(self).reliable() ==> r is Ok,
            r is Ok ==> !final(self).low(),
            r is Err ==> final(self).low() == old(self).low(),
    ;
}

} // verus!
