use robot_core::motor::RotationDirection;
use robot_core::stepper::{A49xx, StepState, StepperState};

#[test]
fn pulse_pattern_test() {
    // 1500 Hz with a 2 µs pulse: high for 2 µs, low for the 666 µs
    // period, repeating
    let mut stepper = A49xx::new();
    stepper.timings.pulse_width = 2;

    let schedule = stepper.set_speed(1500);
    assert!(schedule);

    for _ in 0..3 {
        let delay = stepper.update();
        assert!(stepper.step_high);
        assert_eq!(delay, Some(2));

        let delay = stepper.update();
        assert!(!stepper.step_high);
        assert_eq!(delay, Some(666));
    }
}

#[test]
fn set_speed_while_stepping_test() {
    // a speed change mid-run only changes the period and asks for no
    // second scheduling
    let mut stepper = A49xx::new();
    stepper.timings.pulse_width = 2;

    assert!(stepper.set_speed(1500));
    stepper.update();

    let schedule = stepper.set_speed(1000);
    assert!(!schedule);
    assert_eq!(stepper.step_delay, Some(1000));

    let delay = stepper.update();
    assert!(!stepper.step_high);
    assert_eq!(delay, Some(1000));
}

#[test]
fn stop_during_high_test() {
    // a stop while STEP is high finishes the pulse: the next tick drives
    // the line low, the one after that comes to rest
    let mut stepper = A49xx::new();
    stepper.timings.pulse_width = 2;

    stepper.set_speed(1500);
    stepper.update();
    assert!(stepper.step_high);

    stepper.stop();
    let delay = stepper.update();
    assert!(!stepper.step_high);
    assert_eq!(delay, Some(666));

    let delay = stepper.update();
    assert_eq!(delay, None);
    assert!(!stepper.step_high);
    assert!(matches!(stepper.state, StepperState::Idle));
    assert!(matches!(stepper.step_state, StepState::Idle));
}

#[test]
fn stop_during_low_test() {
    // a stop while STEP is already low comes to rest on the next tick
    let mut stepper = A49xx::new();
    stepper.timings.pulse_width = 2;

    stepper.set_speed(1500);
    stepper.update();
    stepper.update();
    assert!(!stepper.step_high);

    stepper.stop();
    assert_eq!(stepper.update(), None);
    assert!(!stepper.step_high);
    assert!(matches!(stepper.state, StepperState::Idle));
}

#[test]
fn idle_stepper_test() {
    // without a speed request nothing ever happens; a stop from idle is a
    // no-op
    let mut stepper = A49xx::new();
    assert_eq!(stepper.update(), None);
    stepper.stop();
    assert_eq!(stepper.update(), None);
    assert!(!stepper.step_high);
}

#[test]
fn restart_after_stop_test() {
    let mut stepper = A49xx::new();
    stepper.timings.pulse_width = 2;

    stepper.set_speed(1500);
    stepper.update();
    stepper.stop();
    while stepper.update().is_some() {}

    let schedule = stepper.set_speed(1000);
    assert!(schedule);
    let delay = stepper.update();
    assert!(stepper.step_high);
    assert_eq!(delay, Some(2));
}

#[test]
fn direction_pin_test() {
    let mut stepper = A49xx::new();
    stepper.set_direction(RotationDirection::Clockwise);
    assert!(stepper.dir_high);
    stepper.set_direction(RotationDirection::Counterclockwise);
    assert!(!stepper.dir_high);
}
