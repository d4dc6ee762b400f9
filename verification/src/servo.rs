//! Capabilities of a position-controlled drive.  A servo wraps a wheel
//! with a position loop; the loop arithmetic runs on the hardware layer's
//! measured values, while these capabilities name what any such drive
//! offers: a position command and a target-reached test.

use vstd::prelude::*;

verus! {

/// A capability that takes a position command.
pub trait SetPosition {
    type Position;

    fn set_position(&mut self, position: Self::Position);
}

/// A capability that reports whether the commanded position has been
/// reached, within the drive's own tolerance.  The test compares the
/// magnitude of the remaining distance, whichever side of the target the
/// drive stands on.
pub trait CheckTargetReached {
    fn is_target_reached(&self) -> bool;
}

} // verus!
