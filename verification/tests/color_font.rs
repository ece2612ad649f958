use blonkenrust::color::{hsb_to_rgb, Rgb};
use blonkenrust::font::glyph;

fn rgb(red: u8, green: u8, blue: u8) -> Rgb {
    Rgb { red, green, blue }
}

#[test]
fn hsb_primary_hues() {
    assert_eq!(hsb_to_rgb(0, 255, 255), rgb(255, 0, 0));
    assert_eq!(hsb_to_rgb(120, 255, 255), rgb(0, 255, 0));
    assert_eq!(hsb_to_rgb(240, 255, 255), rgb(0, 0, 255));
    assert_eq!(hsb_to_rgb(60, 255, 255), rgb(255, 255, 0));
    assert_eq!(hsb_to_rgb(180, 255, 255), rgb(0, 255, 255));
    assert_eq!(hsb_to_rgb(300, 255, 255), rgb(255, 0, 255));
}

#[test]
fn hsb_intermediate_hues() {
    // sector 0, remainder 127
    assert_eq!(hsb_to_rgb(30, 255, 255), rgb(255, 127, 0));
    // sector 3, remainder 191
    assert_eq!(hsb_to_rgb(225, 255, 255), rgb(0, 64, 255));
    // half saturation, half brightness at hue 0: p = 128 * 127 / 255 = 63
    assert_eq!(hsb_to_rgb(0, 128, 128), rgb(128, 63, 63));
}

#[test]
fn hsb_without_saturation_is_grey() {
    assert_eq!(hsb_to_rgb(77, 0, 200), rgb(200, 200, 200));
    assert_eq!(hsb_to_rgb(0, 0, 0), rgb(0, 0, 0));
}

#[test]
fn hsb_hue_wraps_every_full_turn() {
    for hue in 0..360u16 {
        assert_eq!(hsb_to_rgb(hue, 200, 180), hsb_to_rgb(hue + 360, 200, 180));
        assert_eq!(hsb_to_rgb(hue, 200, 180), hsb_to_rgb(hue + 720, 200, 180));
    }
}

#[test]
fn hsb_channels_never_exceed_brightness() {
    for hue in (0..720u16).step_by(7) {
        for saturation in [1u8, 50, 128, 255] {
            for brightness in [0u8, 17, 100, 255] {
                let c = hsb_to_rgb(hue, saturation, brightness);
                assert!(c.red <= brightness && c.green <= brightness && c.blue <= brightness);
                assert!(c.red == brightness || c.green == brightness || c.blue == brightness);
            }
        }
    }
}

#[test]
fn off_is_black() {
    assert_eq!(Rgb::off(), rgb(0, 0, 0));
}

#[test]
fn glyph_masks() {
    assert_eq!(glyph(b' '), 0);
    assert_eq!(glyph(b'-'), 0b1000100000000000);
    assert_eq!(glyph(b'0'), 0b0100010011111111);
    assert_eq!(glyph(b'8'), 0b1000100011111111);
    assert_eq!(glyph(b'A'), 0b1000100011001111);
    assert_eq!(glyph(b'Z'), 0b0100010000110011);
}

#[test]
fn glyph_ignores_case() {
    for c in b'a'..=b'z' {
        assert_eq!(glyph(c), glyph(c - 32));
    }
}

#[test]
fn glyph_fallback_for_unknown_characters() {
    assert_eq!(glyph(b'?'), 0b0010100000000111);
    assert_eq!(glyph(0), 0b0010100000000111);
    assert_eq!(glyph(255), 0b0010100000000111);
}
