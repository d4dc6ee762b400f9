//! The stepper pulse engine: a pair of state machines that turn a requested
//! rotation frequency into precisely timed STEP edges.
//!
//! The engine owns no timer and touches no pin.  `update` performs at most
//! one STEP edge — recorded in `step_high`, for the hardware layer to apply
//! — and returns the delay until the scheduler must call it again, or
//! nothing when the chain is over.  `set_speed` reports whether the caller
//! must schedule the first `update` of a new chain.
//!
//! The outer machine tracks whether the engine is idle, starting, stepping
//! or stopping; the inner machine tracks the phase of the current pulse.  A
//! stop request is honoured only at a pulse boundary: a pulse that has
//! already driven STEP high is always completed with a full low phase, so
//! the driver is never abandoned in a high state.

use vstd::prelude::*;

use crate::motor::RotationDirection;

verus! {

/// The outer engine state.
#[derive(Debug, Clone, Copy, PartialEq, Eq, Structural)]
pub enum StepperState {
    Idle,
    StartStepping,
    Stepping,
    StopStepping,
}

/// The phase of one STEP pulse.  `StartHigh` and `StartLow` are the edges
/// about to be driven; `High` and `Low` are the phases being timed out.
#[derive(Debug, Clone, Copy, PartialEq, Eq, Structural)]
pub enum StepState {
    Idle,
    StartHigh,
    High,
    StartLow,
    Low,
}

/// Timing parameters of the engine, in microseconds.  The pulse width must
/// stay below the pulse period of any requested frequency.
pub struct StepperTimings {
    pub pulse_width: u32,
}

impl Default for StepperTimings {
    fn default() -> (r: Self)
        ensures
            r.pulse_width == 1,
    {
        Self { pulse_width: 1 }
    }
}

/// A stepper driver with one STEP and one DIR line.  `step_high` and
/// `dir_high` hold the commanded pin levels; `step_delay` is the pulse
/// period in microseconds, set once a speed has ever been requested.
pub struct A49xx {
    pub timings: StepperTimings,
    pub step_delay: Option<u32>,

    pub step_high: bool,
    pub dir_high: bool,

    pub state: StepperState,
    pub step_state: StepState,
}

impl A49xx {
    /// The engine's invariant: the two machines agree with each other and
    /// with the commanded STEP level.  In particular STEP is low whenever
    /// the pulse machine is idle.
    pub open spec fn wf(self) -> bool {
        &&& self.state == StepperState::Idle ==> self.step_state == StepState::Idle
        &&& self.state == StepperState::StartStepping ==> self.step_state == StepState::Idle
        &&& self.state == StepperState::Stepping ==> self.step_state != StepState::Idle
        &&& self.step_high <==> (self.step_state == StepState::High
            || self.step_state == StepState::StartLow)
        &&& self.step_delay is None ==> (self.state == StepperState::Idle
            && self.step_state == StepState::Idle)
    }

    pub open spec fn outer_rank(s: StepperState) -> nat {
        match s {
            StepperState::Idle => 0,
            StepperState::Stepping => 1,
            StepperState::StopStepping => 2,
            StepperState::StartStepping => 3,
        }
    }

    pub open spec fn inner_rank(s: StepState) -> nat {
        match s {
            StepState::Idle => 0,
            StepState::StartHigh => 1,
            StepState::StartLow => 1,
            StepState::High => 2,
            StepState::Low => 3,
        }
    }

    /// How many internal transitions one `update` call can still take from
    /// this state: each non-returning transition strictly lowers it.
    pub open spec fn tick_rank(self) -> nat {
        Self::outer_rank(self.state) * 10 + Self::inner_rank(self.step_state)
    }

    /// What one `update` call does: the state it leaves behind and the
    /// delay it returns.
    pub open spec fn tick_spec(s: A49xx) -> (A49xx, Option<u32>)
        decreases s.tick_rank(),
    {
        if s.step_delay is None {
            (s, None::<u32>)
        } else {
            match s.state {
                StepperState::Idle => (s, None::<u32>),
                StepperState::StartStepping => Self::tick_spec(
                    A49xx { state: StepperState::Stepping, step_state: StepState::StartHigh, ..s },
                ),
                StepperState::Stepping => match s.step_state {
                    // not reachable from a well-formed state
                    StepState::Idle => (s, None::<u32>),
                    StepState::StartHigh => (
                        A49xx { step_high: true, step_state: StepState::High, ..s },
                        Some(s.timings.pulse_width),
                    ),
                    StepState::High => Self::tick_spec(
                        A49xx { step_state: StepState::StartLow, ..s },
                    ),
                    StepState::StartLow => (
                        A49xx { step_high: false, step_state: StepState::Low, ..s },
                        Some(s.step_delay->0),
                    ),
                    StepState::Low => Self::tick_spec(
                        A49xx { step_state: StepState::StartHigh, ..s },
                    ),
                },
                StepperState::StopStepping => match s.step_state {
                    StepState::Idle => Self::tick_spec(
                        A49xx { state: StepperState::Idle, ..s },
                    ),
                    StepState::StartHigh => Self::tick_spec(
                        A49xx { step_state: StepState::Idle, ..s },
                    ),
                    StepState::High => Self::tick_spec(
                        A49xx { step_state: StepState::StartLow, ..s },
                    ),
                    StepState::StartLow => (
                        A49xx { step_high: false, step_state: StepState::Low, ..s },
                        Some(s.step_delay->0),
                    ),
                    StepState::Low => Self::tick_spec(
                        A49xx { step_state: StepState::Idle, ..s },
                    ),
                },
            }
        }
    }

    /// Every tick preserves the invariant and the configuration, every
    /// rising edge is followed by exactly the pulse width, every falling
    /// edge by exactly the pulse period, and a tick that asks for no
    /// further call leaves the engine idle with STEP low.
    pub proof fn lemma_tick_shape(s: A49xx)
        requires
            s.wf(),
        ensures
            ({
                let (post, r) = Self::tick_spec(s);
                &&& post.wf()
                &&& post.timings == s.timings
                &&& post.step_delay == s.step_delay
                &&& post.dir_high == s.dir_high
                &&& (!s.step_high && post.step_high) ==> r == Some(s.timings.pulse_width)
                &&& (s.step_high && !post.step_high) ==> r == Some(s.step_delay->0)
                &&& r is None ==> (post.state == StepperState::Idle
                    && post.step_state == StepState::Idle && !post.step_high)
            }),
        decreases s.tick_rank(),
    {
        if s.step_delay is None {
        } else {
            match s.state {
                StepperState::Idle => {},
                StepperState::StartStepping => {
                    Self::lemma_tick_shape(
                        A49xx { state: StepperState::Stepping, step_state: StepState::StartHigh, ..s },
                    );
                },
                StepperState::Stepping => match s.step_state {
                    StepState::Idle => {},
                    StepState::StartHigh => {},
                    StepState::High => {
                        Self::lemma_tick_shape(A49xx { step_state: StepState::StartLow, ..s });
                    },
                    StepState::StartLow => {},
                    StepState::Low => {
                        Self::lemma_tick_shape(A49xx { step_state: StepState::StartHigh, ..s });
                    },
                },
                StepperState::StopStepping => match s.step_state {
                    StepState::Idle => {
                        Self::lemma_tick_shape(A49xx { state: StepperState::Idle, ..s });
                    },
                    StepState::StartHigh => {
                        Self::lemma_tick_shape(A49xx { step_state: StepState::Idle, ..s });
                    },
                    StepState::High => {
                        Self::lemma_tick_shape(A49xx { step_state: StepState::StartLow, ..s });
                    },
                    StepState::StartLow => {},
                    StepState::Low => {
                        Self::lemma_tick_shape(A49xx { step_state: StepState::Idle, ..s });
                    },
                },
            }
        }
    }

    /// A well-formed engine whose pulse machine is idle commands STEP low:
    /// the line is never left high when the engine comes to rest.
    pub proof fn lemma_step_low_in_idle(s: A49xx)
        requires
            s.wf(),
            s.step_state == StepState::Idle,
        ensures
            !s.step_high,
    {
    }

    pub fn new() -> (r: Self)
        ensures
            r.wf(),
            r.timings.pulse_width == 1,
            r.step_delay is None,
            !r.step_high,
            !r.dir_high,
            r.state == StepperState::Idle,
            r.step_state == StepState::Idle,
    {
        Self {
            timings: Default::default(),
            step_delay: None,

            step_high: false,
            dir_high: false,

            state: StepperState::Idle,
            step_state: StepState::Idle,
        }
    }

    /// Requests the given pulse frequency.  The pulse period becomes
    /// `1_000_000 / speed_hz` microseconds.  From idle this starts a new
    /// pulse chain and returns true: the caller must then schedule the
    /// first `update` at once.  While already stepping (or stopping) only
    /// the period changes and false is returned.
    pub fn set_speed(&mut self, speed_hz: u32) -> (schedule: bool)
        requires
            old(self).wf(),
            speed_hz >= 1,
            old(self).timings.pulse_width < 1_000_000u32 / speed_hz,
        ensures
            final(self).wf(),
            final(self).step_delay == Some(1_000_000u32 / speed_hz),
            schedule == (old(self).state == StepperState::Idle),
            final(self).state == (if old(self).state == StepperState::Idle {
                StepperState::StartStepping
            } else {
                old(self).state
            }),
            final(self).step_state == old(self).step_state,
            final(self).step_high == old(self).step_high,
            final(self).dir_high == old(self).dir_high,
            final(self).timings == old(self).timings,
    {
        self.step_delay = Some(1_000_000 / speed_hz);

        if self.state == StepperState::Idle {
            self.state = StepperState::StartStepping;
            true
        } else {
            false
        }
    }

    /// Requests a stop.  From idle this is a no-op; while stepping the
    /// engine enters its stopping phase and halts at the next pulse
    /// boundary, never mid-pulse.
    pub fn stop(&mut self)
        requires
            old(self).wf(),
            old(self).state == StepperState::Idle || old(self).state == StepperState::Stepping,
        ensures
            final(self).wf(),
            final(self).state == (if old(self).state == StepperState::Stepping {
                StepperState::StopStepping
            } else {
                StepperState::Idle
            }),
            final(self).step_state == old(self).step_state,
            final(self).step_high == old(self).step_high,
            final(self).dir_high == old(self).dir_high,
            final(self).step_delay == old(self).step_delay,
            final(self).timings == old(self).timings,
    {
        if self.state == StepperState::Stepping {
            self.state = StepperState::StopStepping;
        }
    }

    /// Points the DIR line: high for clockwise, low for counterclockwise.
    pub fn set_direction(&mut self, direction: RotationDirection)
        requires
            direction != RotationDirection::Stopped,
        ensures
            final(self).dir_high == (direction == RotationDirection::Clockwise),
            *final(self) == (A49xx { dir_high: final(self).dir_high, ..*old(self) }),
    {
        self.dir_high = direction == RotationDirection::Clockwise;
    }

    /// One scheduled tick.  Performs at most one STEP edge and returns the
    /// delay until the next tick, or nothing when the chain is over.  The
    /// whole effect is pinned by `tick_spec`; on top of it: a tick that
    /// drives STEP high returns the pulse width, a tick that drives STEP
    /// low returns the pulse period, and a tick that ends the chain leaves
    /// the engine idle with STEP low.
    pub fn update(&mut self) -> (r: Option<u32>)
        requires
            old(self).wf(),
        ensures
            final(self).wf(),
            (*final(self), r) == Self::tick_spec(*old(self)),
            (!old(self).step_high && final(self).step_high)
                ==> r == Some(old(self).timings.pulse_width),
            (old(self).step_high && !final(self).step_high)
                ==> r == Some(old(self).step_delay->0),
            r is None ==> (final(self).state == StepperState::Idle && !final(self).step_high),
    {
        proof {
            Self::lemma_tick_shape(*old(self));
        }
        if self.step_delay.is_none() {
            return None;
        }

        loop
            invariant
                self.wf(),
                self.step_delay is Some,
                self.step_delay == old(self).step_delay,
                self.timings == old(self).timings,
                self.step_high == old(self).step_high,
                self.dir_high == old(self).dir_high,
                Self::tick_spec(*self) == Self::tick_spec(*old(self)),
            decreases
                self.tick_rank(),
        {
            proof {
                Self::lemma_tick_shape(*self);
            }
            match self.state {
                StepperState::Idle => {
                    return None;
                },
                StepperState::StartStepping => {
                    self.step_state = StepState::StartHigh;
                    self.state = StepperState::Stepping;
                },
                StepperState::Stepping => {
                    match self.step_state {
                        StepState::Idle => {
                            proof {
                                assert(false);
                            }
                            return None;
                        },
                        StepState::StartHigh => {
                            self.step_high = true;
                            self.step_state = StepState::High;
                            return Some(self.timings.pulse_width);
                        },
                        StepState::High => {
                            self.step_state = StepState::StartLow;
                        },
                        StepState::StartLow => {
                            self.step_high = false;
                            self.step_state = StepState::Low;
                            let delay = self.step_delay.unwrap();
                            return Some(delay);
                        },
                        StepState::Low => {
                            self.step_state = StepState::StartHigh;
                        },
                    }
                },
                StepperState::StopStepping => {
                    match self.step_state {
                        StepState::Idle => {
                            self.state = StepperState::Idle;
                        },
                        StepState::StartHigh => {
                            self.step_state = StepState::Idle;
                        },
                        StepState::High => {
                            self.step_state = StepState::StartLow;
                        },
                        StepState::StartLow => {
                            self.step_high = false;
                            self.step_state = StepState::Low;
                            let delay = self.step_delay.unwrap();
                            return Some(delay);
                        },
                        StepState::Low => {
                            self.step_state = StepState::Idle;
                        },
                    }
                },
            }
        }
    }
}

} // verus!
