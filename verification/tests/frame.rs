use blonkenrust::demo;
use blonkenrust::digitus16::{render_fits, render_text, FRAME_LEN};

#[test]
fn frame_length_and_framing() {
    let frame = render_text(b"FCKAFD", 0, 255);
    assert_eq!(frame.len(), 396);
    assert_eq!(FRAME_LEN, 396);
    assert_eq!(&frame[..4], &[0, 0, 0, 0]);
    assert!(frame[388..].iter().all(|&b| b == 0xff));
    for slot in 0..96 {
        assert_eq!(frame[4 + 4 * slot], 0xef);
    }
}

#[test]
fn blank_text_is_dark() {
    let frame = render_text(b"      ", 123, 255);
    for slot in 0..96 {
        assert_eq!(&frame[5 + 4 * slot..8 + 4 * slot], &[0, 0, 0]);
    }
}

#[test]
fn first_slot_is_rightmost_digit() {
    // The chain starts at the rightmost digit; its first LED drives segment E,
    // which '8' lights. Hue = 0 + 5 * 45 = 225 degrees.
    let frame = render_text(b"     8", 0, 255);
    assert_eq!(&frame[4..8], &[0xef, 255, 64, 0]);
    // The leftmost digit is blank.
    let last_led = 4 + 4 * 95;
    assert_eq!(&frame[last_led..last_led + 4], &[0xef, 0, 0, 0]);
}

#[test]
fn unlit_segment_is_off() {
    // '1' lights only segments C, D (bits 2, 3) and K? no: mask 0b0000010000001100
    // lights font bits 2, 3 and 10. LED 0 drives font bit 4: dark.
    let frame = render_text(b"     1", 0, 255);
    assert_eq!(&frame[4..8], &[0xef, 0, 0, 0]);
    // LED 2 drives font bit 3: lit, hue 225 + 6 = 231.
    let expected = blonkenrust::color::hsb_to_rgb(231, 255, 255);
    assert_eq!(&frame[12..16], &[0xef, expected.blue, expected.green, expected.red]);
}

#[test]
fn intensity_scales_colours() {
    let frame = render_text(b"     8", 0, 100);
    let expected = blonkenrust::color::hsb_to_rgb(225, 255, 100);
    assert_eq!(&frame[4..8], &[0xef, expected.blue, expected.green, expected.red]);
}

#[test]
fn frame_repeats_after_full_hue_turn() {
    assert_eq!(render_text(b"FCKAFD", 17, 200), render_text(b"FCKAFD", 377, 200));
    assert_eq!(render_text(b"12 C -", 0, 255), render_text(b"12 C -", 360, 255));
}

#[test]
fn lowercase_text_renders_like_uppercase() {
    assert_eq!(render_text(b"fckafd", 40, 255), render_text(b"FCKAFD", 40, 255));
}

#[test]
fn standalone_loop_frame() {
    let frame = demo::render_text(b"     8", 0);
    assert_eq!(&frame[4..8], &[0xe6, 255, 64, 0]);
    assert!(frame[388..].iter().all(|&b| b == 0xff));
}

#[test]
fn standalone_loop_hue() {
    assert_eq!(demo::next_hue(0), 3);
    assert_eq!(demo::next_hue(357), 0);
    assert_eq!(demo::next_hue(359), 2);
}

#[test]
fn render_fits_limits() {
    assert!(render_fits(b"FCKAFD", 0));
    assert!(render_fits(b"FCKAFD", u16::MAX - 270));
    // 'D' on the leftmost digit lights LED 15 (font bit 0): hue + 270 overflows.
    assert!(!render_fits(b"FCKAFD", u16::MAX - 269));
    // Blank text lights nothing, so any base hue fits.
    assert!(render_fits(b"      ", u16::MAX));
    // Only the leftmost digit lit: its LEDs add at most 45 degrees.
    assert!(render_fits(b"8     ", u16::MAX - 45));
    assert!(!render_fits(b"8     ", u16::MAX - 44));
}
