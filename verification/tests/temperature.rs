use blonkenrust::crc::crc8;
use blonkenrust::temperature::{parse_scratchpad, temperature_text, PollAction, TemperatureSensor};

fn scratchpad(lo: u8, hi: u8) -> [u8; 9] {
    let mut bytes = [lo, hi, 0x4b, 0x46, 0x7f, 0xff, 0x0c, 0x10, 0];
    bytes[8] = crc8(&bytes[..8]);
    bytes
}

#[test]
fn crc8_known_vector() {
    // Maxim application note example ROM code.
    assert_eq!(crc8(&[0x02, 0x1c, 0xb8, 0x01, 0x00, 0x00, 0x00]), 0xa2);
    assert_eq!(crc8(&[]), 0);
}

#[test]
fn crc8_of_block_with_its_crc_is_zero() {
    for seed in 0..=255u8 {
        let mut data: Vec<u8> = (0..8u8).map(|i| seed.wrapping_mul(31).wrapping_add(i * 17)).collect();
        let crc = crc8(&data);
        data.push(crc);
        assert_eq!(crc8(&data), 0);
    }
}

#[test]
fn parse_valid_scratchpads() {
    // 25.0625 C = 0x0191 sixteenths
    assert_eq!(parse_scratchpad(&scratchpad(0x91, 0x01)), Some(250));
    // -10.125 C = 0xff5e sixteenths
    assert_eq!(parse_scratchpad(&scratchpad(0x5e, 0xff)), Some(-101));
    // 85 C power-on value
    assert_eq!(parse_scratchpad(&scratchpad(0x50, 0x05)), Some(850));
    // extremes of the 16-bit reading
    assert_eq!(parse_scratchpad(&scratchpad(0x00, 0x80)), Some(-20480));
    assert_eq!(parse_scratchpad(&scratchpad(0xff, 0x7f)), Some(20479));
    assert_eq!(parse_scratchpad(&scratchpad(0xff, 0xff)), Some(0));
}

#[test]
fn parse_rejects_bad_crc() {
    let mut bytes = scratchpad(0x91, 0x01);
    bytes[3] ^= 0x01;
    assert_eq!(parse_scratchpad(&bytes), None);
    let mut bytes = scratchpad(0x91, 0x01);
    bytes[8] ^= 0x80;
    assert_eq!(parse_scratchpad(&bytes), None);
}

#[test]
fn text_for_temperatures() {
    assert_eq!(&temperature_text(250), b" 25 C ");
    assert_eq!(&temperature_text(-101), b"-10 C ");
    assert_eq!(&temperature_text(-45), b" -5 C ");
    assert_eq!(&temperature_text(-44), b" -4 C ");
    assert_eq!(&temperature_text(5), b"  1 C ");
    assert_eq!(&temperature_text(4), b"  0 C ");
    assert_eq!(&temperature_text(-4), b"  0 C ");
    assert_eq!(&temperature_text(1234), b"123 C ");
    assert_eq!(&temperature_text(9994), b"999 C ");
    assert_eq!(&temperature_text(-994), b"-99 C ");
}

#[test]
fn text_out_of_range() {
    assert_eq!(&temperature_text(9995), b" HOT  ");
    assert_eq!(&temperature_text(32762), b" HOT  ");
    assert_eq!(&temperature_text(-995), b"COLD  ");
    assert_eq!(&temperature_text(-32763), b"COLD  ");
}

#[test]
fn sensor_shows_no_reading_at_first() {
    let sensor = TemperatureSensor::new();
    assert_eq!(&sensor.display_text(), b"NO TMP");
}

#[test]
fn conversion_then_read_cycle() {
    let mut sensor = TemperatureSensor::new();
    assert_eq!(sensor.poll(), PollAction::Convert);
    assert!(sensor.conversion_reset(true));
    sensor.conversion_started();
    for _ in 0..80 {
        assert_eq!(sensor.poll(), PollAction::Wait);
    }
    assert_eq!(sensor.poll(), PollAction::ReadThenConvert);
    sensor.read_finished(Some(scratchpad(0x91, 0x01)));
    assert_eq!(&sensor.display_text(), b" 25 C ");
    // A failed read keeps the last reading and marks the sensor absent.
    sensor.read_finished(Some([0; 9].map(|b: u8| b.wrapping_add(1))));
    assert_eq!(&sensor.display_text(), b" 25 C ");
    assert_eq!(sensor.poll(), PollAction::Convert);
}

#[test]
fn missing_sensor_retries_after_a_second() {
    let mut sensor = TemperatureSensor::new();
    assert_eq!(sensor.poll(), PollAction::Convert);
    assert!(!sensor.conversion_reset(false));
    for _ in 0..100 {
        assert_eq!(sensor.poll(), PollAction::Wait);
    }
    assert_eq!(sensor.poll(), PollAction::Convert);
    assert_eq!(&sensor.display_text(), b"NO TMP");
}

#[test]
fn read_without_presence_marks_sensor_absent() {
    let mut sensor = TemperatureSensor::new();
    sensor.conversion_reset(true);
    sensor.read_finished(None);
    assert_eq!(sensor.poll(), PollAction::Convert);
}

#[test]
fn crc8_is_linear_and_detects_single_byte_errors() {
    let a = [0x91u8, 0x01, 0x4b, 0x46, 0x7f, 0xff, 0x0c, 0x10];
    let b = [0x12u8, 0x34, 0x56, 0x78, 0x9a, 0xbc, 0xde, 0xf0];
    let x: Vec<u8> = a.iter().zip(b.iter()).map(|(p, q)| p ^ q).collect();
    assert_eq!(crc8(&x), crc8(&a) ^ crc8(&b));
    assert_eq!(crc8(&[0u8; 9]), 0);
    for k in 0..8 {
        for bit in 0..8 {
            let mut c = a;
            c[k] ^= 1 << bit;
            assert_ne!(crc8(&c), crc8(&a));
        }
    }
}
