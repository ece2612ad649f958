use blonkenrust::light_sensor::{average_samples, intensity_from_light, smooth, LightSensor};

#[test]
fn average_of_four_samples() {
    assert_eq!(average_samples(&[1, 2, 3, 4]), 2);
    assert_eq!(average_samples(&[4095, 4095, 4095, 4095]), 4095);
    assert_eq!(average_samples(&[65535, 65535, 65535, 65535]), 65535);
    assert_eq!(average_samples(&[0, 0, 0, 3]), 0);
}

#[test]
fn smooth_moves_a_thirty_second_of_the_way() {
    assert_eq!(smooth(0, 3200), 100);
    assert_eq!(smooth(3200, 0), 3100);
    assert_eq!(smooth(500, 500), 500);
    // A step smaller than 32 does not move the filter.
    assert_eq!(smooth(10, 41), 10);
    assert_eq!(smooth(41, 10), 41);
}

#[test]
fn smooth_never_overshoots() {
    for (previous, sample) in [(0u32, 1u32), (100, 0), (u32::MAX, 0), (0, u32::MAX), (12345, 12377)] {
        let next = smooth(previous, sample);
        assert!(next >= previous.min(sample) && next <= previous.max(sample));
    }
}

#[test]
fn intensity_range() {
    assert_eq!(intensity_from_light(0), 17);
    assert_eq!(intensity_from_light(4095), 255);
    assert_eq!(intensity_from_light(5000), 255);
    assert_eq!(intensity_from_light(u16::MAX), 255);
    assert_eq!(intensity_from_light(2048), 136);
}

#[test]
fn intensity_is_monotonic() {
    let mut last = 0;
    for raw in 0..=5000u16 {
        let intensity = intensity_from_light(raw);
        assert!(intensity >= last);
        last = intensity;
    }
}

#[test]
fn steady_light_stays_put() {
    let mut sensor = LightSensor::new(1000);
    for _ in 0..10 {
        let reading = sensor.sample(1000);
        assert_eq!(reading.filtered_raw, 1000);
        assert_eq!(reading.intensity, 75);
    }
}

#[test]
fn filter_follows_a_step() {
    let mut sensor = LightSensor::new(1000);
    // 1000 * 256 = 256000 moves by (512000 - 256000) / 32 = 8000 to 264000,
    // which rounds to 1031.
    assert_eq!(sensor.sample(2000).filtered_raw, 1031);
    let mut last = 1031;
    for _ in 0..400 {
        let reading = sensor.sample(2000);
        assert!(reading.filtered_raw >= last && reading.filtered_raw <= 2000);
        last = reading.filtered_raw;
    }
    assert!(last >= 1990);
}

#[test]
fn filter_at_full_scale() {
    let mut sensor = LightSensor::new(u16::MAX);
    let reading = sensor.sample(u16::MAX);
    assert_eq!(reading.filtered_raw, u16::MAX);
    assert_eq!(reading.intensity, 255);
}
