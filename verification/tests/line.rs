use robot_core::line_sensor::{find_line, std_dev, LineSensor, NUM_SAMPLES, NUM_SENSORS};

#[test]
fn map_pin_table_test() {
    let expected = [0u8, 4, 5, 6, 8, 7, 3, 2, 1, 9];
    for pin in 0..10u8 {
        assert_eq!(LineSensor::map_pin(pin), expected[pin as usize]);
    }
}

#[test]
fn pin_frames_test() {
    let sensor = LineSensor::new();

    // logical pin 1 is wire pin 4: mask 0x0010, big-endian on the bus
    assert_eq!(sensor.into_input(1), [0x04, 0x00, 0x10]);
    assert_eq!(sensor.into_output(1), [0x07, 0x00, 0x10]);
    // logical pin 4 is wire pin 8: mask 0x0100
    assert_eq!(sensor.into_input(4), [0x04, 0x01, 0x00]);

    // digital writes address the wire pin directly
    assert_eq!(sensor.digital_write(9, true), [0x09, 0x02, 0x00]);
    assert_eq!(sensor.digital_write(9, false), [0x0A, 0x02, 0x00]);

    assert_eq!(sensor.analog_write(3, 0x1234), [0x0B, 3, 0x12, 0x34]);
    assert_eq!(sensor.analog_read(2), [0x0C, 5]);
    assert_eq!(sensor.analog_read_value([0x03, 0xE8]), 1000);
}

#[test]
fn set_sens_test() {
    let mut sensor = LineSensor::new();
    let frame = sensor.set_sens(200);
    assert_eq!(sensor.get_sens(), 200);
    assert_eq!(frame, [0x0B, 0, 0x00, 200]);
}

#[test]
fn read_applies_correction_test() {
    let mut sensor = LineSensor::new();
    let raw = [100u16, 200, 300, 400, 500, 600];
    assert_eq!(sensor.read(&raw), raw);

    sensor.correction = [10, -10, 0, -400, 65536 - 300, 1];
    let corrected = sensor.read(&raw);
    assert_eq!(corrected[0], 110);
    assert_eq!(corrected[1], 190);
    assert_eq!(corrected[2], 300);
    // corrections wrap in the 16-bit range, as the raw bus values do
    assert_eq!(corrected[3], 0);
    assert_eq!(corrected[4], 200);
    assert_eq!(corrected[5], 601);
}

#[test]
fn calibrate_test() {
    let mut sensor = LineSensor::new();
    let mut samples = [[0u16; NUM_SAMPLES]; NUM_SENSORS];
    for (i, channel) in samples.iter_mut().enumerate() {
        for s in channel.iter_mut() {
            *s = 100 * (i as u16 + 1);
        }
    }
    sensor.calibrate(&samples);

    // channel means are 100..600, their mean is 350
    let expected = [250, 150, 50, -50, -150, -250];
    assert_eq!(sensor.correction, expected);

    // corrected readings now share one mean
    let raw = [100u16, 200, 300, 400, 500, 600];
    assert_eq!(sensor.read(&raw), [350u16; NUM_SENSORS]);
}

#[test]
fn std_dev_test() {
    let flat = vec![7u16, 7, 7, 7];
    assert_eq!(std_dev(&flat), 0);

    // mean 5, squared deviations 9, 1, 1, 9: variance 5
    let vals = vec![2u16, 4, 6, 8];
    assert_eq!(std_dev(&vals), 5);
}

#[test]
fn find_line_test() {
    // a bright band in the middle: a rising edge then a falling edge
    let vals: [u16; NUM_SENSORS] = [100, 100, 800, 800, 100, 100];
    let (first, second) = find_line(&vals, 110);
    assert_eq!(first, Some(1));
    assert_eq!(second, Some(3));

    // flat floor: no edges at all
    let flat: [u16; NUM_SENSORS] = [100, 105, 100, 95, 100, 100];
    assert_eq!(find_line(&flat, 110), (None, None));

    // one rising edge only: no opposite-sign counterpart
    let rise: [u16; NUM_SENSORS] = [100, 100, 800, 800, 800, 800];
    let (first, second) = find_line(&rise, 110);
    assert_eq!(first, Some(1));
    assert_eq!(second, None);

    // on a tie the greatest derivative takes the last position...
    let twin_rise: [u16; NUM_SENSORS] = [100, 800, 800, 100, 800, 800];
    let (first, _) = find_line(&twin_rise, 110);
    assert_eq!(first, Some(3));
    // ...and the least derivative the first
    let (_, second) = find_line(&twin_rise, 110);
    assert_eq!(second, Some(2));
}
