//! The typed commands that the host sends to the robot.

use vstd::prelude::*;

verus! {

/// A command carried by the link: stop, drive the two wheels at signed
/// speeds, or move the gripper.
#[derive(Clone, Copy, PartialEq, Eq, Structural, Debug)]
pub enum Command {
    Stop,
    SetSpeed(SetSpeedParams),
    OpenGripper,
    CloseGripper,
    LiftGripper,
    LowerGripper,
}

/// The wheel speeds of a `SetSpeed` command.
#[derive(Clone, Copy, PartialEq, Eq, Structural, Debug)]
pub struct SetSpeedParams {
    pub left: i32,
    pub right: i32,
}

} // verus!
