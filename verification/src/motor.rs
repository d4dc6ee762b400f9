//! A DC motor seen as a pair of capabilities: something that fixes the
//! rotation direction and something that takes an unsigned speed.  The motor
//! itself accepts a signed percentage and splits it into the two.
//!
//! Each capability trait carries a specification obligation — a spec
//! function that every implementation fills in with its own effect — so
//! that the motor's contract can say what the capabilities received, and a
//! caller who knows the concrete capability gets its full contract through
//! the trait.

use vstd::prelude::*;

verus! {

#[derive(Debug, Clone, Copy, PartialEq, Eq, Structural)]
pub enum RotationDirection {
    Clockwise,
    Counterclockwise,
    Stopped,
}

/// A capability that fixes the rotation direction of a motor.
pub trait SetDirection: Sized {
    /// What one direction command does to the capability; each
    /// implementation states its own effect here.
    spec fn direction_set(self, post: Self, direction: RotationDirection) -> bool;

    fn set_direction(&mut self, direction: RotationDirection)
        ensures
            old(self).direction_set(*final(self), direction),
    ;
}

/// A capability that takes an unsigned speed command.
pub trait SetSpeed: Sized {
    type Speed;

    /// What one speed command does to the capability; each implementation
    /// states its own effect here.
    spec fn speed_set(self, post: Self, speed: Self::Speed) -> bool;

    fn set_speed(&mut self, speed: Self::Speed)
        ensures
            old(self).speed_set(*final(self), speed),
    ;
}

/// A capability that reports the last speed command.
pub trait GetSpeed: Sized {
    type Speed;

    /// The speed the capability currently reports.
    spec fn reported_speed(self) -> Self::Speed;

    fn get_speed(&mut self) -> (r: Self::Speed)
        ensures
            r == old(self).reported_speed(),
    ;
}

/// A signed-speed motor built from a direction capability and an
/// unsigned-speed capability.
pub struct Motor<D, S> where D: SetDirection, S: SetSpeed {
    pub dir: D,
    pub speed: S,

    pub current_direction: RotationDirection,
}

/// The direction that a signed speed percentage commands: negative turns
/// counterclockwise, zero commands no direction, positive turns clockwise.
pub open spec fn direction_of_sign(speed: i8) -> RotationDirection {
    if speed < 0 {
        RotationDirection::Counterclockwise
    } else if speed == 0 {
        RotationDirection::Stopped
    } else {
        RotationDirection::Clockwise
    }
}

/// The unsigned magnitude of a signed speed percentage.
pub open spec fn magnitude_of(speed: i8) -> u8 {
    if speed < 0 {
        (-(speed as int)) as u8
    } else {
        speed as u8
    }
}

/// The sign a direction puts on a speed magnitude.
pub open spec fn direction_sign(direction: RotationDirection) -> int {
    match direction {
        RotationDirection::Clockwise => 1,
        RotationDirection::Counterclockwise => -1,
        RotationDirection::Stopped => 0,
    }
}

impl<D, S> Motor<D, S> where D: SetDirection, S: SetSpeed {
    pub fn new(direction_controller: D, speed_controller: S) -> (r: Self)
        ensures
            r.dir == direction_controller,
            r.speed == speed_controller,
            r.current_direction == RotationDirection::Stopped,
    {
        Self {
            dir: direction_controller,
            speed: speed_controller,

            current_direction: RotationDirection::Stopped,
        }
    }
}

impl<D, S> Motor<D, S> where D: SetDirection, S: SetSpeed<Speed = u8> {
    /// Splits a signed percentage into a direction and a magnitude: the
    /// direction capability receives the sign's direction, the speed
    /// capability the magnitude, each undergoing its own stated effect.
    pub fn set_speed(&mut self, speed: i8)
        requires
            -100 <= speed <= 100,
        ensures
            final(self).current_direction == direction_of_sign(speed),
            old(self).dir.direction_set(final(self).dir, direction_of_sign(speed)),
            old(self).speed.speed_set(final(self).speed, magnitude_of(speed)),
    {
        let direction = if speed < 0 {
            RotationDirection::Counterclockwise
        } else if speed == 0 {
            RotationDirection::Stopped
        } else {
            RotationDirection::Clockwise
        };
        self.current_direction = direction;
        self.dir.set_direction(direction);

        let magnitude: u8 = if speed < 0 {
            (-(speed as i32)) as u8
        } else {
            speed as u8
        };
        self.speed.set_speed(magnitude);
    }
}

impl<D, S> Motor<D, S> where D: SetDirection, S: SetSpeed + GetSpeed<Speed = u8> {
    /// Reads the magnitude back from the speed capability and signs it with
    /// the current direction.  A magnitude above 100 is treated as 100, so
    /// the result always lies in the commanded percentage range.
    pub fn get_speed(&mut self) -> (r: i8)
        ensures
            r as int == direction_sign(old(self).current_direction)
                * (if old(self).speed.reported_speed() > 100 {
                    100int
                } else {
                    old(self).speed.reported_speed() as int
                }),
            -100 <= r <= 100,
            final(self).current_direction == old(self).current_direction,
            final(self).dir == old(self).dir,
    {
        let magnitude = self.speed.get_speed();
        let magnitude: u8 = if magnitude > 100 {
            100
        } else {
            magnitude
        };

        match self.current_direction {
            RotationDirection::Stopped => 0,
            RotationDirection::Clockwise => magnitude as i8,
            RotationDirection::Counterclockwise => -(magnitude as i8),
        }
    }
}

} // verus!
