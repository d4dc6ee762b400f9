//! Verified control core for a two-wheeled, line-following robot with a
//! stepper-driven lifting platform.
//!
//! The crate covers the logic of the robot: the stepper pulse engine, the
//! integer core of the quadrature encoder, the PWM-plus-direction motor
//! driver, the line-sensor computations, and the framed command link with
//! Reed-Solomon forward error correction.  Board bring-up, pin access and
//! every other kind of I/O stay outside: the library computes pin levels,
//! duty values, wire bytes and delays, and the surrounding program carries
//! them to the hardware.

pub mod commands;
pub mod driver;
pub mod ecc;
pub mod interfacing;
pub mod line_sensor;
pub mod message;
pub mod motor;
pub mod quadrature;
pub mod servo;
pub mod stepper;
