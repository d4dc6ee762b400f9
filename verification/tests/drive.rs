use robot_core::driver::{map_range, TwoPinSetDirection, TwoWirteDriver};
use robot_core::motor::{GetSpeed, Motor, RotationDirection, SetDirection, SetSpeed};
use robot_core::quadrature::{wrap_delta_u16, wrap_delta_u32};

#[test]
fn map_range_test() {
    assert_eq!(map_range((1, 100), (100, 1000), 1), 100);
    assert_eq!(map_range((1, 100), (100, 1000), 100), 1000);
    assert_eq!(map_range((1, 100), (100, 1000), 50), 545);
    assert_eq!(map_range((0, 10), (0, 100), 7), 70);
}

#[test]
fn driver_duty_test() {
    let mut driver = TwoWirteDriver::new(1000, 100);

    // coast-high polarity on the clockwise side
    assert_eq!(driver.current_direction, RotationDirection::Clockwise);
    driver.set_speed(50);
    assert_eq!(driver.duty, 1000 - 545);
    assert_eq!(driver.get_speed(), 50);

    driver.set_direction(RotationDirection::Counterclockwise);
    assert!(!driver.dir_high);
    // the duty is re-derived for the new polarity without a new speed
    // command
    assert_eq!(driver.duty, 545);
    assert_eq!(driver.get_speed(), 50);
}

#[test]
fn driver_clamps_and_zero_test() {
    let mut driver = TwoWirteDriver::new(1000, 100);
    driver.set_direction(RotationDirection::Counterclockwise);

    driver.set_speed(200);
    assert_eq!(driver.get_speed(), 100);
    assert_eq!(driver.duty, 1000);

    // zero speed keeps the PWM running at the low end of the range
    driver.set_speed(0);
    assert_eq!(driver.get_speed(), 0);
    assert_eq!(driver.duty, 100);
}

struct RecordingDir {
    last: Option<RotationDirection>,
}

impl SetDirection for RecordingDir {
    // the capability's stated effect: it remembers the command
    fn direction_set(self, post: Self, direction: RotationDirection) -> bool {
        post.last == Some(direction)
    }

    fn set_direction(&mut self, direction: RotationDirection) {
        self.last = Some(direction);
    }
}

struct RecordingSpeed {
    last: u8,
}

impl SetSpeed for RecordingSpeed {
    type Speed = u8;

    fn speed_set(self, post: Self, speed: u8) -> bool {
        post.last == speed
    }

    fn set_speed(&mut self, speed: u8) {
        self.last = speed;
    }
}

impl GetSpeed for RecordingSpeed {
    type Speed = u8;

    fn reported_speed(self) -> u8 {
        self.last
    }

    fn get_speed(&mut self) -> u8 {
        self.last
    }
}

#[test]
fn motor_splits_sign_test() {
    let dir = RecordingDir { last: None };
    let speed = RecordingSpeed { last: 0 };
    let mut motor = Motor::new(dir, speed);
    assert_eq!(motor.current_direction, RotationDirection::Stopped);
    assert_eq!(motor.dir.last, None);
    assert_eq!(motor.speed.last, 0);

    motor.set_speed(-75);
    assert_eq!(motor.current_direction, RotationDirection::Counterclockwise);
    assert_eq!(motor.dir.last, Some(RotationDirection::Counterclockwise));
    assert_eq!(motor.speed.last, 75);
    assert_eq!(motor.get_speed(), -75);

    motor.set_speed(40);
    assert_eq!(motor.current_direction, RotationDirection::Clockwise);
    assert_eq!(motor.speed.last, 40);
    assert_eq!(motor.get_speed(), 40);

    motor.set_speed(0);
    assert_eq!(motor.current_direction, RotationDirection::Stopped);
    assert_eq!(motor.get_speed(), 0);
}

#[test]
fn motor_drives_through_driver_test() {
    let motor_driver = TwoWirteDriver::new(1000, 100);
    let dir = RecordingDir { last: None };
    let mut motor = Motor::new(dir, motor_driver);
    motor.set_speed(-50);
    assert_eq!(motor.dir.last, Some(RotationDirection::Counterclockwise));
    assert_eq!(motor.speed.current_speed, 50);
    assert_eq!(motor.speed.duty, 1000 - 545);
    assert_eq!(motor.get_speed(), -50);
}

#[test]
fn driver_min_duty_edges_test() {
    let mut driver = TwoWirteDriver::new(2799, 100);
    driver.set_direction(RotationDirection::Counterclockwise);
    driver.set_speed(1);
    assert_eq!(driver.duty, 100);
    driver.set_speed(100);
    assert_eq!(driver.duty, 2799);
}

#[test]
fn two_pin_direction_test() {
    let mut pins = TwoPinSetDirection::new();
    pins.set_direction(RotationDirection::Clockwise);
    assert!(pins.fwd_high && !pins.back_high);
    pins.set_direction(RotationDirection::Counterclockwise);
    assert!(!pins.fwd_high && pins.back_high);
    pins.set_direction(RotationDirection::Stopped);
    assert!(!pins.fwd_high && !pins.back_high);
}

#[test]
fn wrap_delta_test() {
    assert_eq!(wrap_delta_u16(10, 3), 7);
    assert_eq!(wrap_delta_u16(3, 10), -7);
    // the counter wrapped between samples: the short way around wins
    assert_eq!(wrap_delta_u16(2, 65534), 4);
    assert_eq!(wrap_delta_u16(65534, 2), -4);
    assert_eq!(wrap_delta_u16(0, 32768), -32768);

    assert_eq!(wrap_delta_u32(5, u32::MAX), 6);
    assert_eq!(wrap_delta_u32(u32::MAX, 5), -6);
    assert_eq!(wrap_delta_u32(7, 7), 0);
}
