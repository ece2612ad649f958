//! The standalone display loop: the message in a slowly turning rainbow at
//! full colour brightness.

use vstd::prelude::*;

use crate::digitus16::{frame_byte, hue_fits, render_frame, DIGITS, FRAME_LEN};

verus! {

/// Per-LED current setting of the standalone loop.
pub const GLOBAL_BRIGHTNESS: u8 = 6;

/// Colour brightness of the standalone loop.
pub const COLOR_BRIGHTNESS: u8 = 255;

/// Hue advance per frame, in degrees.
pub const HUE_STEP: u16 = 3;

/// Milliseconds between two frames.
pub const FRAME_DELAY_MS: u32 = 50;

/// The frame that shows `text` at full colour brightness with the standalone
/// loop's current setting.
pub fn render_text(text: &[u8; DIGITS], base_hue: u16) -> (frame: [u8; FRAME_LEN])
    requires
        hue_fits(text@, base_hue),
    ensures
        forall|i: int| 0 <= i < FRAME_LEN ==>
            frame[i] == #[trigger] frame_byte(text@, base_hue, COLOR_BRIGHTNESS, GLOBAL_BRIGHTNESS, i),
{
    render_frame(text, base_hue, COLOR_BRIGHTNESS, GLOBAL_BRIGHTNESS)
}

/// The hue of the next frame.
pub fn next_hue(hue: u16) -> (next: u16)
    requires
        hue <= u16::MAX - HUE_STEP,
    ensures
        next == (hue + HUE_STEP) % 360,
        next < 360,
{
    (hue + HUE_STEP) % 360
}

} // verus!
