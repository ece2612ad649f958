use vstd::prelude::*;

use crate::color::{hsb_to_rgb, spec_hsb_to_rgb, Rgb};
use crate::font::{glyph, glyph_mask};

verus! {

/// Number of 16-segment digits on the display.
pub const DIGITS: usize = 6;

/// GPIO of the display's SPI clock line.
pub const SPI_CLOCK_GPIO: u8 = 4;

/// GPIO of the display's SPI data line.
pub const SPI_DATA_GPIO: u8 = 6;

/// LEDs, one per segment, in each digit.
pub const LEDS_PER_DIGIT: usize = 16;

/// Bytes in one frame: a 4-byte start frame, 4 bytes per LED, an 8-byte end frame.
pub const FRAME_LEN: usize = 4 + DIGITS * LEDS_PER_DIGIT * 4 + 8;

/// Offset of the end frame within a frame.
pub const END_FRAME_START: usize = 4 + DIGITS * LEDS_PER_DIGIT * 4;

/// Per-LED current setting; the display documentation recommends no more than 15.
pub const GLOBAL_BRIGHTNESS: u8 = 15;

/// Font bit (in A-B-C-D-E-F-G-H-K-M-N-P-R-S-T-U order) driven by each LED of a
/// digit; the LEDs are chained in the order E-F-D-R-S-T-G-P-U-C-N-M-K-H-B-A.
pub open spec fn led_font_bit(led: int) -> u8 {
    if led == 0 { 4 }
    else if led == 1 { 5 }
    else if led == 2 { 3 }
    else if led == 3 { 12 }
    else if led == 4 { 13 }
    else if led == 5 { 14 }
    else if led == 6 { 6 }
    else if led == 7 { 11 }
    else if led == 8 { 15 }
    else if led == 9 { 2 }
    else if led == 10 { 10 }
    else if led == 11 { 9 }
    else if led == 12 { 8 }
    else if led == 13 { 7 }
    else if led == 14 { 1 }
    else { 0 }
}

/// The segment each LED of a digit is wired to, in chain order.
pub open spec fn led_segments() -> Seq<char> {
    seq!['E', 'F', 'D', 'R', 'S', 'T', 'G', 'P', 'U', 'C', 'N', 'M', 'K', 'H', 'B', 'A']
}

/// The segments in font-bit order: font bit `i` draws segment `font_segments()[i]`.
pub open spec fn font_segments() -> Seq<char> {
    seq!['A', 'B', 'C', 'D', 'E', 'F', 'G', 'H', 'K', 'M', 'N', 'P', 'R', 'S', 'T', 'U']
}

/// Each LED is driven by the font bit of the segment it is wired to, and the
/// sixteen LEDs cover the sixteen font bits once each.
pub proof fn lemma_led_drives_its_segment()
    ensures
        forall|led: int| 0 <= led < LEDS_PER_DIGIT ==>
            #[trigger] led_font_bit(led) < 16 && font_segments()[led_font_bit(led) as int] == led_segments()[led],
        forall|a: int, b: int| 0 <= a < b < LEDS_PER_DIGIT ==> led_font_bit(a) != led_font_bit(b),
{
    assert forall|led: int| 0 <= led < LEDS_PER_DIGIT implies
        #[trigger] led_font_bit(led) < 16 && font_segments()[led_font_bit(led) as int] == led_segments()[led] by {
        assert(0 <= led < 4 || 4 <= led < 8 || 8 <= led < 12 || 12 <= led < 16);
    }
}

fn font_bit_of_led(led: usize) -> (bit: u8)
    requires
        led < LEDS_PER_DIGIT,
    ensures
        bit == led_font_bit(led as int),
        bit < 16,
{
    match led {
        0 => 4,
        1 => 5,
        2 => 3,
        3 => 12,
        4 => 13,
        5 => 14,
        6 => 6,
        7 => 11,
        8 => 15,
        9 => 2,
        10 => 10,
        11 => 9,
        12 => 8,
        13 => 7,
        14 => 1,
        _ => 0,
    }
}

/// Whether LED `led` of a digit showing `character` is lit.
pub open spec fn segment_lit(character: u8, led: int) -> bool {
    glyph_mask(character) & (1u16 << led_font_bit(led)) != 0
}

/// Hue of LED `led` of visible digit `visible`: the base hue advanced by 45
/// degrees per digit and 3 degrees per LED, modulo 360.
pub open spec fn led_hue(base_hue: u16, visible: int, led: int) -> int {
    (base_hue + visible * 45 + led * 3) % 360
}

/// Colour of LED `led` of visible digit `visible` (0 is the leftmost digit).
pub open spec fn led_color(text: Seq<u8>, base_hue: u16, intensity: u8, visible: int, led: int) -> Rgb {
    if segment_lit(text[visible], led) {
        spec_hsb_to_rgb(led_hue(base_hue, visible, led) as u16, 255, intensity)
    } else {
        Rgb { red: 0, green: 0, blue: 0 }
    }
}

/// Byte `i` of a frame. The serial chain starts at the rightmost digit, so
/// LED slot `n` belongs to visible digit `DIGITS - 1 - n / 16`; each slot is
/// a header byte `0b111` + the global brightness, then blue, green, red.
pub open spec fn frame_byte(
    text: Seq<u8>,
    base_hue: u16,
    intensity: u8,
    global_brightness: u8,
    i: int,
) -> u8 {
    if i < 4 {
        0
    } else if i < END_FRAME_START {
        let slot = (i - 4) / 4;
        let part = (i - 4) % 4;
        let visible = DIGITS - 1 - slot / 16;
        let led = slot % 16;
        let c = led_color(text, base_hue, intensity, visible, led);
        if part == 0 {
            0b1110_0000u8 | global_brightness
        } else if part == 1 {
            c.blue
        } else if part == 2 {
            c.green
        } else {
            c.red
        }
    } else {
        0xff
    }
}

/// No lit LED's hue computation leaves the range of `u16`.
pub open spec fn hue_fits(text: Seq<u8>, base_hue: u16) -> bool {
    forall|visible: int, led: int|
        0 <= visible < DIGITS && 0 <= led < LEDS_PER_DIGIT && #[trigger] segment_lit(text[visible], led)
            ==> base_hue + visible * 45 + led * 3 <= u16::MAX
}

/// A base hue of at most `u16::MAX - 270` never overflows: the furthest LED
/// adds 5 * 45 + 15 * 3 = 270 degrees.
pub proof fn lemma_small_hue_fits(text: Seq<u8>, base_hue: u16)
    requires
        base_hue <= u16::MAX - 270,
    ensures
        hue_fits(text, base_hue),
{
}

/// The frame layout: a start frame of four zero bytes, then per LED a header
/// byte carrying the global brightness followed by blue, green and red, then
/// an end frame of 0xff bytes.
pub proof fn lemma_frame_layout(text: Seq<u8>, base_hue: u16, intensity: u8, global_brightness: u8, i: int)
    requires
        0 <= i < FRAME_LEN,
    ensures
        i < 4 ==> frame_byte(text, base_hue, intensity, global_brightness, i) == 0,
        END_FRAME_START <= i ==> frame_byte(text, base_hue, intensity, global_brightness, i) == 0xff,
        4 <= i < END_FRAME_START && (i - 4) % 4 == 0 ==>
            frame_byte(text, base_hue, intensity, global_brightness, i) == 0b1110_0000u8 | global_brightness,
{
}

/// Where each LED sits in the frame and what it shows: LED `led` of the digit
/// at visible position `visible` (0 is the leftmost) occupies the four bytes
/// from `4 + 64 * (5 - visible) + 4 * led`: the header with the global
/// brightness, then the blue, green and red of its colour. A lit LED (its
/// segment set in the character's glyph) has hue
/// `(base_hue + 45 * visible + 3 * led) % 360` at full saturation and
/// brightness `intensity`; an unlit one is black.
pub proof fn lemma_led_bytes(
    text: Seq<u8>,
    base_hue: u16,
    intensity: u8,
    global_brightness: u8,
    visible: int,
    led: int,
)
    requires
        0 <= visible < 6,
        0 <= led < 16,
    ensures
        ({
            let at = 4 + 64 * (5 - visible) + 4 * led;
            let lit = glyph_mask(text[visible]) & (1u16 << led_font_bit(led)) != 0;
            let c = if lit {
                spec_hsb_to_rgb(((base_hue + 45 * visible + 3 * led) % 360) as u16, 255, intensity)
            } else {
                Rgb { red: 0, green: 0, blue: 0 }
            };
            &&& frame_byte(text, base_hue, intensity, global_brightness, at) == 0b1110_0000u8 | global_brightness
            &&& frame_byte(text, base_hue, intensity, global_brightness, at + 1) == c.blue
            &&& frame_byte(text, base_hue, intensity, global_brightness, at + 2) == c.green
            &&& frame_byte(text, base_hue, intensity, global_brightness, at + 3) == c.red
        }),
{
    let at = 4 + 64 * (5 - visible) + 4 * led;
    let slot = 16 * (5 - visible) + led;
    assert((at - 4) / 4 == slot && (at - 4) % 4 == 0);
    assert((at + 1 - 4) / 4 == slot && (at + 1 - 4) % 4 == 1);
    assert((at + 2 - 4) / 4 == slot && (at + 2 - 4) % 4 == 2);
    assert((at + 3 - 4) / 4 == slot && (at + 3 - 4) % 4 == 3);
    assert(slot / 16 == 5 - visible && slot % 16 == led);
}

/// A blank digit leaves all of its LEDs dark.
pub proof fn lemma_blank_digit_is_dark(text: Seq<u8>, base_hue: u16, intensity: u8, visible: int, led: int)
    requires
        0 <= visible < text.len(),
        text[visible] == 32,
        0 <= led < LEDS_PER_DIGIT,
    ensures
        led_color(text, base_hue, intensity, visible, led) == (Rgb { red: 0, green: 0, blue: 0 }),
{
    let bit = led_font_bit(led);
    assert(0u16 & (1u16 << bit) == 0) by (bit_vector);
}

/// Turning the base hue by a full circle leaves the frame unchanged.
pub proof fn lemma_frame_hue_period(text: Seq<u8>, base_hue: u16, intensity: u8, global_brightness: u8, i: int)
    requires
        base_hue + 360 <= u16::MAX,
    ensures
        frame_byte(text, base_hue, intensity, global_brightness, i)
            == frame_byte(text, (base_hue + 360) as u16, intensity, global_brightness, i),
{
    let turned = (base_hue + 360) as u16;
    assert forall|visible: int, led: int| #[trigger] led_hue(base_hue, visible, led) == led_hue(turned, visible, led) by {
        vstd::arithmetic::div_mod::lemma_mod_add_multiples_vanish(base_hue + visible * 45 + led * 3, 360);
    }
}

/// Builds the SPI frame that shows `text` (leftmost character first) in
/// rainbow colours starting at `base_hue`, each lit LED at brightness
/// `intensity` and current setting `global_brightness`.
pub fn render_frame(text: &[u8; DIGITS], base_hue: u16, intensity: u8, global_brightness: u8) -> (frame: [u8; FRAME_LEN])
    requires
        hue_fits(text@, base_hue),
    ensures
        forall|i: int| 0 <= i < FRAME_LEN ==>
            frame[i] == #[trigger] frame_byte(text@, base_hue, intensity, global_brightness, i),
{
    let mut frame = [0u8; FRAME_LEN];
    let mut cursor: usize = 4;
    let header: u8 = 0b1110_0000 | global_brightness;

    // The serial chain runs opposite to the visible left-to-right digit order.
    let mut hardware_digit: usize = 0;
    while hardware_digit < DIGITS
        invariant
            hardware_digit <= DIGITS,
            cursor == 4 + 64 * hardware_digit,
            header == 0b1110_0000u8 | global_brightness,
            hue_fits(text@, base_hue),
            forall|i: int| 0 <= i < cursor ==>
                frame[i] == #[trigger] frame_byte(text@, base_hue, intensity, global_brightness, i),
            forall|i: int| cursor <= i < FRAME_LEN ==> frame[i] == 0,
        decreases DIGITS - hardware_digit,
    {
        let visible_digit = DIGITS - 1 - hardware_digit;
        let mask = glyph(text[visible_digit]);

        let mut led: usize = 0;
        while led < LEDS_PER_DIGIT
            invariant
                hardware_digit < DIGITS,
                visible_digit == DIGITS - 1 - hardware_digit,
                mask == glyph_mask(text@[visible_digit as int]),
                led <= LEDS_PER_DIGIT,
                cursor == 4 + 64 * hardware_digit + 4 * led,
                header == 0b1110_0000u8 | global_brightness,
                hue_fits(text@, base_hue),
                forall|i: int| 0 <= i < cursor ==>
                    frame[i] == #[trigger] frame_byte(text@, base_hue, intensity, global_brightness, i),
                forall|i: int| cursor <= i < FRAME_LEN ==> frame[i] == 0,
            decreases LEDS_PER_DIGIT - led,
        {
            let bit = font_bit_of_led(led);
            let lit = mask & (1u16 << bit) != 0;
            let color = if lit {
                assert(segment_lit(text@[visible_digit as int], led as int));
                let hue = (base_hue + visible_digit as u16 * 45 + led as u16 * 3) % 360;
                hsb_to_rgb(hue, 255, intensity)
            } else {
                Rgb::off()
            };
            assert(color == led_color(text@, base_hue, intensity, visible_digit as int, led as int));

            frame[cursor] = header;
            frame[cursor + 1] = color.blue;
            frame[cursor + 2] = color.green;
            frame[cursor + 3] = color.red;
            proof {
                let slot = 16 * hardware_digit + led;
                assert forall|i: int| cursor <= i < cursor + 4 implies
                    frame[i] == #[trigger] frame_byte(text@, base_hue, intensity, global_brightness, i)
                by {
                    assert((i - 4) / 4 == slot);
                    assert(slot / 16 == hardware_digit);
                    assert(slot % 16 == led);
                }
            }
            cursor += 4;
            led += 1;
        }
        hardware_digit += 1;
    }

    while cursor < FRAME_LEN
        invariant
            END_FRAME_START <= cursor <= FRAME_LEN,
            forall|i: int| 0 <= i < cursor ==>
                frame[i] == #[trigger] frame_byte(text@, base_hue, intensity, global_brightness, i),
        decreases FRAME_LEN - cursor,
    {
        frame[cursor] = 0xff;
        cursor += 1;
    }
    frame
}

/// Whether `text` can be rendered at `base_hue` without a lit LED's hue
/// leaving the range of `u16`.
pub fn render_fits(text: &[u8; DIGITS], base_hue: u16) -> (fits: bool)
    ensures
        fits == hue_fits(text@, base_hue),
{
    let mut visible: usize = 0;
    while visible < DIGITS
        invariant
            visible <= DIGITS,
            forall|v: int, l: int|
                0 <= v < visible && 0 <= l < LEDS_PER_DIGIT && #[trigger] segment_lit(text@[v], l)
                    ==> base_hue + v * 45 + l * 3 <= u16::MAX,
        decreases DIGITS - visible,
    {
        let mask = glyph(text[visible]);
        let mut led: usize = 0;
        while led < LEDS_PER_DIGIT
            invariant
                visible < DIGITS,
                mask == glyph_mask(text@[visible as int]),
                led <= LEDS_PER_DIGIT,
                forall|v: int, l: int|
                    0 <= v < visible && 0 <= l < LEDS_PER_DIGIT && #[trigger] segment_lit(text@[v], l)
                        ==> base_hue + v * 45 + l * 3 <= u16::MAX,
                forall|l: int|
                    0 <= l < led && #[trigger] segment_lit(text@[visible as int], l)
                        ==> base_hue + visible * 45 + l * 3 <= u16::MAX,
            decreases LEDS_PER_DIGIT - led,
        {
            let bit = font_bit_of_led(led);
            if mask & (1u16 << bit) != 0 && (base_hue as usize) + visible * 45 + led * 3 > 0xffff {
                assert(!hue_fits(text@, base_hue)) by {
                    assert(segment_lit(text@[visible as int], led as int));
                }
                return false;
            }
            led += 1;
        }
        visible += 1;
    }
    true
}

/// The frame that shows `text` at brightness `intensity` with the display's
/// recommended current setting.
pub fn render_text(text: &[u8; DIGITS], base_hue: u16, intensity: u8) -> (frame: [u8; FRAME_LEN])
    requires
        hue_fits(text@, base_hue),
    ensures
        forall|i: int| 0 <= i < FRAME_LEN ==>
            frame[i] == #[trigger] frame_byte(text@, base_hue, intensity, GLOBAL_BRIGHTNESS, i),
{
    render_frame(text, base_hue, intensity, GLOBAL_BRIGHTNESS)
}

} // verus!
