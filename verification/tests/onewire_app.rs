use blonkenrust::app::{message_text, App, DisplayMode};
use blonkenrust::onewire::{byte_from_bits, byte_to_bits};

#[test]
fn bits_are_sent_least_significant_first() {
    assert_eq!(byte_to_bits(0x01), [true, false, false, false, false, false, false, false]);
    assert_eq!(byte_to_bits(0xcc), [false, false, true, true, false, false, true, true]);
    assert_eq!(byte_from_bits(&[false, false, true, false, false, false, true, false]), 0x44);
}

#[test]
fn bits_round_trip() {
    for byte in 0..=255u8 {
        assert_eq!(byte_from_bits(&byte_to_bits(byte)), byte);
    }
}

#[test]
fn mode_labels_and_toggle() {
    assert_eq!(DisplayMode::Message.label(), "message");
    assert_eq!(DisplayMode::Temperature.label(), "temperature");
    assert_eq!(DisplayMode::Message.toggled(), DisplayMode::Temperature);
    assert_eq!(DisplayMode::Message.toggled().toggled(), DisplayMode::Message);
}

#[test]
fn message_is_fckafd() {
    assert_eq!(&message_text(), b"FCKAFD");
}

#[test]
fn click_switches_text() {
    let mut app = App::new();
    let temperature = *b" 21 C ";
    let plan = app.tick(false, &temperature);
    assert_eq!(&plan.text, b"FCKAFD");
    assert!(!plan.mode_changed);
    app.frame_shown();
    let plan = app.tick(true, &temperature);
    assert_eq!(&plan.text, b" 21 C ");
    assert!(plan.mode_changed);
    assert_eq!(app.mode(), DisplayMode::Temperature);
    let plan = app.tick(true, &temperature);
    assert_eq!(&plan.text, b"FCKAFD");
    assert_eq!(app.mode(), DisplayMode::Message);
}

#[test]
fn status_every_hundred_ticks() {
    let mut app = App::new();
    let temperature = *b"NO TMP";
    let reports: Vec<usize> = (0..350)
        .filter(|_| {
            let plan = app.tick(false, &temperature);
            app.frame_shown();
            plan.report_status
        })
        .collect();
    assert_eq!(reports, vec![0, 100, 200, 300]);
}

#[test]
fn hue_turns_once_every_six_hundred_ticks() {
    let mut app = App::new();
    let temperature = *b"NO TMP";
    let hues: Vec<u16> = (0..1201)
        .map(|_| {
            let plan = app.tick(false, &temperature);
            app.frame_shown();
            plan.base_hue
        })
        .collect();
    assert_eq!(hues[0], 0);
    assert_eq!(hues[1], 0);
    assert_eq!(hues[2], 1);
    assert_eq!(hues[599], 359);
    assert_eq!(hues[600], 0);
    assert_eq!(hues[1200], 0);
    assert!(hues.iter().all(|&h| h < 360));
}

#[test]
fn unsent_frame_does_not_advance() {
    let mut app = App::new();
    let temperature = *b"NO TMP";
    for _ in 0..3 {
        let plan = app.tick(false, &temperature);
        assert_eq!(plan.base_hue, 0);
        assert!(plan.report_status);
    }
    app.frame_shown();
    let plan = app.tick(false, &temperature);
    assert!(!plan.report_status);
    for _ in 0..9 {
        app.frame_shown();
    }
    assert_eq!(app.tick(false, &temperature).base_hue, 6);
}
