//! The PWM-plus-direction H-bridge driver.  The driver turns an unsigned
//! speed percentage into a duty value inside the duty range it was built
//! with; for clockwise rotation the duty is inverted, because the H-bridge
//! expects coast-high polarity on that side.  The computed duty and the
//! level of the direction pin are held as plain values for the hardware
//! layer to apply.

use vstd::prelude::*;

use crate::motor::{GetSpeed, RotationDirection, SetDirection, SetSpeed};

verus! {

/// The affine map that carries `s` from `from_range` into `to_range`,
/// rounding the intermediate quotient toward zero.
pub open spec fn map_range_spec(from_range: (u32, u32), to_range: (u32, u32), s: u32) -> int {
    to_range.0 + (s - from_range.0) * (to_range.1 - to_range.0) / (from_range.1 - from_range.0)
}

/// Maps `s` linearly from `from_range` into `to_range`.
pub fn map_range(from_range: (u32, u32), to_range: (u32, u32), s: u32) -> (r: u32)
    requires
        from_range.0 < from_range.1,
        from_range.0 <= s <= from_range.1,
        to_range.0 <= to_range.1,
        (from_range.1 - from_range.0) * (to_range.1 - to_range.0) <= u32::MAX,
    ensures
        r == map_range_spec(from_range, to_range, s),
        to_range.0 <= r <= to_range.1,
{
    let span: u32 = to_range.1 - to_range.0;
    let offset: u32 = s - from_range.0;
    let width: u32 = from_range.1 - from_range.0;
    proof {
        assert(offset * span <= width * span) by (nonlinear_arith)
            requires offset <= width, 0 <= span;
        vstd::arithmetic::div_mod::lemma_div_is_ordered(
            offset as int * span as int, width as int * span as int, width as int);
        vstd::arithmetic::div_mod::lemma_div_multiples_vanish(span as int, width as int);
        assert(width as int * span as int / width as int == span as int);
    }
    let scaled: u32 = offset * span;
    to_range.0 + scaled / width
}

/// The duty value that a speed percentage commands, before any polarity
/// inversion: 1 maps to the low end of the duty range and 100 to the high
/// end.  A percentage of 0 is driven like 1, at the low end, so that a zero
/// speed never stops the PWM.
pub open spec fn base_duty_spec(min_speed: u8, max_duty: u16, speed: u8) -> int {
    map_range_spec((1u32, 100u32), (min_speed as u32, max_duty as u32),
        (if speed == 0 { 1u32 } else if speed > 100 { 100u32 } else { speed as u32 }))
}

/// The duty value written to the PWM: inverted against the top of the duty
/// range for clockwise rotation, plain otherwise.
pub open spec fn written_duty_spec(
    min_speed: u8,
    max_duty: u16,
    speed: u8,
    direction: RotationDirection,
) -> int {
    if direction == RotationDirection::Clockwise {
        max_duty - base_duty_spec(min_speed, max_duty, speed)
    } else {
        base_duty_spec(min_speed, max_duty, speed)
    }
}

/// A PWM-plus-direction driver over one PWM channel and one direction pin.
/// `duty` and `dir_high` hold what the hardware layer must apply after each
/// call.
pub struct TwoWirteDriver {
    pub current_speed: u8,
    pub current_direction: RotationDirection,

    pub min_speed: u8,
    pub max_duty: u16,

    pub duty: u16,
    pub dir_high: bool,
}

impl TwoWirteDriver {
    /// The duty floor never exceeds the duty ceiling, and the held speed is
    /// a percentage.
    pub open spec fn wf(self) -> bool {
        &&& self.min_speed as int <= self.max_duty as int
        &&& self.current_speed <= 100
    }

    pub fn new(max_duty: u16, min_speed: u8) -> (r: Self)
        requires
            min_speed as int <= max_duty as int,
        ensures
            r.wf(),
            r.current_speed == 0,
            r.current_direction == RotationDirection::Clockwise,
            r.max_duty == max_duty,
            r.min_speed == min_speed,
            r.duty == 0,
            r.dir_high,
    {
        Self {
            current_speed: 0,
            current_direction: RotationDirection::Clockwise,
            min_speed,
            max_duty,
            duty: 0,
            dir_high: true,
        }
    }

    /// Clamps the requested percentage to 100, maps it into the duty range
    /// and applies the polarity of the current direction.
    pub fn set_speed(&mut self, speed: u8)
        requires
            old(self).wf(),
        ensures
            final(self).wf(),
            final(self).current_speed == (if speed > 100 { 100u8 } else { speed }),
            final(self).duty == written_duty_spec(
                old(self).min_speed, old(self).max_duty,
                speed, old(self).current_direction),
            final(self).current_direction == old(self).current_direction,
            final(self).min_speed == old(self).min_speed,
            final(self).max_duty == old(self).max_duty,
            final(self).dir_high == old(self).dir_high,
    {
        self.current_speed = if speed > 100 { 100 } else { speed };
        let effective: u32 = if self.current_speed == 0 { 1 } else { self.current_speed as u32 };
        proof {
            assert((100u32 - 1u32) * (self.max_duty as u32 - self.min_speed as u32) <= u32::MAX)
                by (nonlinear_arith)
                requires self.min_speed as u32 <= self.max_duty as u32 <= 65535;
        }
        let base: u32 = map_range((1, 100), (self.min_speed as u32, self.max_duty as u32), effective);
        let base: u16 = base as u16;
        let duty: u16 = if self.current_direction == RotationDirection::Clockwise {
            self.max_duty - base
        } else {
            base
        };
        self.duty = duty;
    }

    pub fn get_speed(&self) -> (r: u8)
        ensures
            r == self.current_speed,
    {
        self.current_speed
    }

    /// Points the direction pin (high for clockwise, low for
    /// counterclockwise, untouched for none) and re-derives the duty, whose
    /// polarity depends on the direction.
    pub fn set_direction(&mut self, direction: RotationDirection)
        requires
            old(self).wf(),
        ensures
            final(self).wf(),
            final(self).current_direction == direction,
            final(self).current_speed == old(self).current_speed,
            final(self).duty == written_duty_spec(
                old(self).min_speed, old(self).max_duty,
                old(self).current_speed, direction),
            final(self).dir_high == match direction {
                RotationDirection::Clockwise => true,
                RotationDirection::Counterclockwise => false,
                RotationDirection::Stopped => old(self).dir_high,
            },
            final(self).min_speed == old(self).min_speed,
            final(self).max_duty == old(self).max_duty,
    {
        self.current_direction = direction;
        match direction {
            RotationDirection::Clockwise => {
                self.dir_high = true;
            },
            RotationDirection::Counterclockwise => {
                self.dir_high = false;
            },
            RotationDirection::Stopped => {},
        }
        let speed = self.current_speed;
        self.set_speed(speed);
    }
}

/// The driver as an unsigned-speed capability.  The trait carries no
/// precondition, so a driver whose duty floor exceeds its ceiling is left
/// untouched; on a well-formed driver a command through the trait is
/// exactly `set_speed`, as the stated effect says.
impl SetSpeed for TwoWirteDriver {
    type Speed = u8;

    open spec fn speed_set(self, post: Self, speed: u8) -> bool {
        if self.wf() {
            &&& post.wf()
            &&& post == (TwoWirteDriver {
                current_speed: if speed > 100 { 100u8 } else { speed },
                duty: post.duty,
                ..self
            })
            &&& post.duty == written_duty_spec(
                self.min_speed, self.max_duty, speed, self.current_direction)
        } else {
            post == self
        }
    }

    fn set_speed(&mut self, speed: u8) {
        if self.min_speed as u16 <= self.max_duty && self.current_speed <= 100 {
            TwoWirteDriver::set_speed(self, speed);
        }
    }
}

impl GetSpeed for TwoWirteDriver {
    type Speed = u8;

    open spec fn reported_speed(self) -> u8 {
        self.current_speed
    }

    fn get_speed(&mut self) -> (r: u8)
        ensures
            *final(self) == *old(self),
    {
        self.current_speed
    }
}

/// The driver as a direction capability; on a well-formed driver a
/// command through the trait is exactly `set_direction`, duty
/// re-derivation included.
impl SetDirection for TwoWirteDriver {
    open spec fn direction_set(self, post: Self, direction: RotationDirection) -> bool {
        if self.wf() {
            &&& post.wf()
            &&& post == (TwoWirteDriver {
                current_direction: direction,
                duty: post.duty,
                dir_high: match direction {
                    RotationDirection::Clockwise => true,
                    RotationDirection::Counterclockwise => false,
                    RotationDirection::Stopped => self.dir_high,
                },
                ..self
            })
            &&& post.duty == written_duty_spec(
                self.min_speed, self.max_duty, self.current_speed, direction)
        } else {
            post == self
        }
    }

    fn set_direction(&mut self, direction: RotationDirection) {
        if self.min_speed as u16 <= self.max_duty && self.current_speed <= 100 {
            TwoWirteDriver::set_direction(self, direction);
        }
    }
}

/// The alternative direction driver over two pins: forward high for
/// clockwise, backward high for counterclockwise, both low for no
/// direction.
pub struct TwoPinSetDirection {
    pub fwd_high: bool,
    pub back_high: bool,
}

impl TwoPinSetDirection {
    pub fn new() -> (r: Self)
        ensures
            !r.fwd_high,
            !r.back_high,
    {
        Self { fwd_high: false, back_high: false }
    }
}

impl SetDirection for TwoPinSetDirection {
    open spec fn direction_set(self, post: Self, direction: RotationDirection) -> bool {
        &&& post.fwd_high == (direction == RotationDirection::Clockwise)
        &&& post.back_high == (direction == RotationDirection::Counterclockwise)
    }

    fn set_direction(&mut self, direction: RotationDirection)
    {
        match direction {
            RotationDirection::Clockwise => {
                self.fwd_high = true;
                self.back_high = false;
            },
            RotationDirection::Counterclockwise => {
                self.fwd_high = false;
                self.back_high = true;
            },
            RotationDirection::Stopped => {
                self.fwd_high = false;
                self.back_high = false;
            },
        }
    }
}

} // verus!
