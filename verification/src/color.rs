use vstd::prelude::*;

verus! {

/// An 8-bit-per-channel colour as the LED drivers take it.
#[derive(Clone, Copy, Debug, PartialEq, Eq, Structural)]
pub struct Rgb {
    pub red: u8,
    pub green: u8,
    pub blue: u8,
}

impl Rgb {
    /// A dark LED.
    pub fn off() -> (rgb: Rgb)
        ensures
            rgb == (Rgb { red: 0, green: 0, blue: 0 }),
    {
        Rgb { red: 0, green: 0, blue: 0 }
    }
}

/// The three channels of the HSB colour `(hue, saturation, brightness)`, in the
/// order red, green, blue: the hue circle (taken modulo 360 degrees) is split
/// into six sectors of 60 degrees; within a sector the rising or falling
/// channel moves linearly in steps of 1/255.
pub open spec fn hsb_channels(hue: u16, saturation: u8, brightness: u8) -> (int, int, int) {
    let b = brightness as int;
    if saturation == 0 {
        (b, b, b)
    } else {
        let h = hue as int % 360;
        let sector = h / 60;
        let rem = (h % 60) * 255 / 60;
        let s = saturation as int;
        let p = b * (255 - s) / 255;
        let q = b * (255 - s * rem / 255) / 255;
        let t = b * (255 - s * (255 - rem) / 255) / 255;
        if sector == 0 {
            (b, t, p)
        } else if sector == 1 {
            (q, b, p)
        } else if sector == 2 {
            (p, b, t)
        } else if sector == 3 {
            (p, q, b)
        } else if sector == 4 {
            (t, p, b)
        } else {
            (b, p, q)
        }
    }
}

/// `hsb_channels` as a colour.
pub open spec fn spec_hsb_to_rgb(hue: u16, saturation: u8, brightness: u8) -> Rgb {
    let c = hsb_channels(hue, saturation, brightness);
    Rgb { red: c.0 as u8, green: c.1 as u8, blue: c.2 as u8 }
}

proof fn lemma_scale(b: int, x: int)
    by (nonlinear_arith)
    requires
        0 <= b <= 255,
        0 <= x <= 255,
    ensures
        0 <= b * x <= 65025,
        0 <= b * x / 255 <= b,
{
}

proof fn lemma_remainder(h: int)
    by (nonlinear_arith)
    requires
        0 <= h < 60,
    ensures
        0 <= h * 255 / 60 <= 250,
{
}

/// Every channel of a converted colour lies between 0 and `brightness`, and one
/// of them equals `brightness`.
pub proof fn lemma_hsb_channels_bounded(hue: u16, saturation: u8, brightness: u8)
    ensures
        ({
            let c = hsb_channels(hue, saturation, brightness);
            &&& 0 <= c.0 <= brightness
            &&& 0 <= c.1 <= brightness
            &&& 0 <= c.2 <= brightness
            &&& (c.0 == brightness || c.1 == brightness || c.2 == brightness)
        }),
{
    if saturation != 0 {
        let b = brightness as int;
        let h = hue as int % 360;
        let rem = (h % 60) * 255 / 60;
        let s = saturation as int;
        lemma_remainder(h % 60);
        lemma_scale(s, rem);
        lemma_scale(s, 255 - rem);
        lemma_scale(b, 255 - s);
        lemma_scale(b, 255 - s * rem / 255);
        lemma_scale(b, 255 - s * (255 - rem) / 255);
    }
}

/// Hues a full circle apart give the same colour, and without saturation
/// every channel equals the brightness.
pub proof fn lemma_hsb_hue_period(hue: u16, saturation: u8, brightness: u8)
    ensures
        spec_hsb_to_rgb(hue, saturation, brightness) == spec_hsb_to_rgb((hue % 360) as u16, saturation, brightness),
        saturation == 0 ==> spec_hsb_to_rgb(hue, saturation, brightness)
            == (Rgb { red: brightness, green: brightness, blue: brightness }),
{
}

/// The floor brightness `brightness * (255 - saturation) / 255`: the level of
/// the weakest channel of a saturated colour.
pub open spec fn floor_level(saturation: u8, brightness: u8) -> int {
    brightness * (255 - saturation) / 255
}

/// The roles of the channels around the hue circle: with saturation, the
/// strongest channel equals the brightness and the weakest the floor
/// brightness; red leads from 300 to 60 degrees, green from 60 to 180 and
/// blue from 180 to 300, while blue is weakest from 0 to 120 degrees, red
/// from 120 to 240 and green from 240 to 360.
pub proof fn lemma_hsb_channel_roles(hue: u16, saturation: u8, brightness: u8)
    requires
        saturation != 0,
    ensures
        ({
            let c = spec_hsb_to_rgb(hue, saturation, brightness);
            let h = hue % 360;
            let b = brightness as int;
            let p = floor_level(saturation, brightness);
            &&& (h < 60 || 300 <= h) ==> c.red == b
            &&& 60 <= h < 180 ==> c.green == b
            &&& 180 <= h < 300 ==> c.blue == b
            &&& h < 120 ==> c.blue == p
            &&& 120 <= h < 240 ==> c.red == p
            &&& 240 <= h ==> c.green == p
        }),
{
    lemma_hsb_channels_bounded(hue, saturation, brightness);
    let h = hue as int % 360;
    let s = saturation as int;
    lemma_scale(brightness as int, 255 - s);
    lemma_remainder(h % 60);
    lemma_scale(s, (h % 60) * 255 / 60);
    lemma_scale(s, 255 - (h % 60) * 255 / 60);
    assert(brightness as int * 255 / 255 == brightness as int);
}

/// `brightness * (255 - y) / 255`
spec fn dim(brightness: int, y: int) -> int {
    brightness * (255 - y) / 255
}

/// `saturation * x / 255`
spec fn sat(saturation: int, x: int) -> int {
    saturation * x / 255
}

proof fn lemma_div_255_step(lo: int, hi: int)
    requires
        0 <= lo <= hi <= lo + 1275,
    ensures
        0 <= hi / 255 - lo / 255 <= 5,
{
    vstd::arithmetic::div_mod::lemma_fundamental_div_mod(lo, 255);
    vstd::arithmetic::div_mod::lemma_fundamental_div_mod(hi, 255);
}

proof fn lemma_sat_step(s: int, x1: int, x2: int)
    requires
        0 <= s <= 255,
        0 <= x1 <= x2 <= 255,
        x2 - x1 <= 5,
    ensures
        0 <= sat(s, x2) - sat(s, x1) <= 5,
        0 <= sat(s, x1) <= 255,
        0 <= sat(s, x2) <= 255,
{
    assert(0 <= s * x1 <= s * x2 <= s * x1 + 1275 && s * x2 <= 65025) by (nonlinear_arith)
        requires
            0 <= s <= 255,
            0 <= x1 <= x2 <= 255,
            x2 - x1 <= 5,
    ;
    lemma_div_255_step(s * x1, s * x2);
    lemma_scale(s, x1);
    lemma_scale(s, x2);
}

proof fn lemma_dim_step(b: int, y1: int, y2: int)
    requires
        0 <= b <= 255,
        0 <= y1 <= y2 <= 255,
        y2 - y1 <= 5,
    ensures
        0 <= dim(b, y1) - dim(b, y2) <= 5,
{
    assert(0 <= b * (255 - y2) <= b * (255 - y1) <= b * (255 - y2) + 1275) by (nonlinear_arith)
        requires
            0 <= b <= 255,
            0 <= y1 <= y2 <= 255,
            y2 - y1 <= 5,
    ;
    lemma_div_255_step(b * (255 - y2), b * (255 - y1));
}

/// Channel levels change by at most 5 when what they are computed from
/// changes by at most 5.
proof fn lemma_level_step(s: int, b: int, x1: int, x2: int)
    requires
        0 <= s <= 255,
        0 <= b <= 255,
        0 <= x1 <= 255,
        0 <= x2 <= 255,
        -5 <= x2 - x1 <= 5,
    ensures
        -5 <= dim(b, sat(s, x2)) - dim(b, sat(s, x1)) <= 5,
{
    if x1 <= x2 {
        lemma_sat_step(s, x1, x2);
        lemma_dim_step(b, sat(s, x1), sat(s, x2));
    } else {
        lemma_sat_step(s, x2, x1);
        lemma_dim_step(b, sat(s, x2), sat(s, x1));
    }
}

/// For hue `h` in 0..360: what each channel's level is computed from (0 for
/// full brightness, 255 for the floor brightness).
spec fn hue_inputs(h: int) -> (int, int, int) {
    let sector = h / 60;
    let rem = (h % 60) * 255 / 60;
    if sector == 0 {
        (0, 255 - rem, 255)
    } else if sector == 1 {
        (rem, 0, 255)
    } else if sector == 2 {
        (255, 0, 255 - rem)
    } else if sector == 3 {
        (255, rem, 0)
    } else if sector == 4 {
        (255 - rem, 255, 0)
    } else {
        (0, 255, rem)
    }
}

proof fn lemma_channels_from_inputs(hue: u16, saturation: u8, brightness: u8)
    requires
        saturation != 0,
    ensures
        ({
            let x = hue_inputs(hue as int % 360);
            let c = hsb_channels(hue, saturation, brightness);
            let (s, b) = (saturation as int, brightness as int);
            &&& c.0 == dim(b, sat(s, x.0))
            &&& c.1 == dim(b, sat(s, x.1))
            &&& c.2 == dim(b, sat(s, x.2))
            &&& 0 <= x.0 <= 255 && 0 <= x.1 <= 255 && 0 <= x.2 <= 255
        }),
{
    let (s, b) = (saturation as int, brightness as int);
    let h = hue as int % 360;
    lemma_remainder(h % 60);
    assert(sat(s, 0) == 0);
    assert(sat(s, 255) == s);
    assert(dim(b, 0) == b);
}

proof fn lemma_inputs_step(h1: int, h2: int)
    requires
        0 <= h1 < 360,
        h2 == (h1 + 1) % 360,
    ensures
        ({
            let x1 = hue_inputs(h1);
            let x2 = hue_inputs(h2);
            &&& -5 <= x2.0 - x1.0 <= 5
            &&& -5 <= x2.1 - x1.1 <= 5
            &&& -5 <= x2.2 - x1.2 <= 5
        }),
{
    let r = h1 % 60;
    lemma_remainder(r);
    if r < 59 {
        assert(h2 / 60 == h1 / 60 && h2 % 60 == r + 1);
        assert(4 <= (r + 1) * 255 / 60 - r * 255 / 60 <= 5);
    } else {
        assert(h2 % 60 == 0);
        assert(r * 255 / 60 == 250);
    }
}

/// The colour changes smoothly around the hue circle: one degree more hue
/// changes no channel by more than 5, also across the sector boundaries and
/// from 359 back to 0 degrees.
pub proof fn lemma_hsb_continuous(hue: u16, saturation: u8, brightness: u8)
    requires
        hue < u16::MAX,
    ensures
        ({
            let c1 = spec_hsb_to_rgb(hue, saturation, brightness);
            let c2 = spec_hsb_to_rgb((hue + 1) as u16, saturation, brightness);
            &&& -5 <= c2.red - c1.red <= 5
            &&& -5 <= c2.green - c1.green <= 5
            &&& -5 <= c2.blue - c1.blue <= 5
        }),
{
    if saturation != 0 {
        let next = (hue + 1) as u16;
        let (s, b) = (saturation as int, brightness as int);
        lemma_hsb_channels_bounded(hue, saturation, brightness);
        lemma_hsb_channels_bounded(next, saturation, brightness);
        lemma_channels_from_inputs(hue, saturation, brightness);
        lemma_channels_from_inputs(next, saturation, brightness);
        lemma_inputs_step(hue as int % 360, next as int % 360);
        let x1 = hue_inputs(hue as int % 360);
        let x2 = hue_inputs(next as int % 360);
        lemma_level_step(s, b, x1.0, x2.0);
        lemma_level_step(s, b, x1.1, x2.1);
        lemma_level_step(s, b, x1.2, x2.2);
    }
}

/// Converts an HSB colour (hue in degrees, saturation and brightness in
/// 0..=255) to RGB.
pub fn hsb_to_rgb(hue: u16, saturation: u8, brightness: u8) -> (rgb: Rgb)
    ensures
        rgb == spec_hsb_to_rgb(hue, saturation, brightness),
        rgb.red as int == hsb_channels(hue, saturation, brightness).0,
        rgb.green as int == hsb_channels(hue, saturation, brightness).1,
        rgb.blue as int == hsb_channels(hue, saturation, brightness).2,
        rgb.red <= brightness && rgb.green <= brightness && rgb.blue <= brightness,
        rgb.red == brightness || rgb.green == brightness || rgb.blue == brightness,
{
    proof {
        lemma_hsb_channels_bounded(hue, saturation, brightness);
    }
    if saturation == 0 {
        return Rgb { red: brightness, green: brightness, blue: brightness };
    }
    let hue = hue % 360;
    let sector = hue / 60;
    proof {
        lemma_remainder((hue % 60) as int);
    }
    let remainder = (hue % 60) * 255 / 60;
    let saturation = saturation as u16;
    let brightness = brightness as u16;
    proof {
        lemma_scale(saturation as int, remainder as int);
        lemma_scale(saturation as int, 255 - remainder);
        lemma_scale(brightness as int, 255 - saturation);
        lemma_scale(brightness as int, 255 - saturation * remainder / 255);
        lemma_scale(brightness as int, 255 - saturation * (255 - remainder) / 255);
    }
    let p = brightness * (255 - saturation) / 255;
    let q = brightness * (255 - saturation * remainder / 255) / 255;
    let t = brightness * (255 - saturation * (255 - remainder) / 255) / 255;

    let (red, green, blue) = match sector {
        0 => (brightness, t, p),
        1 => (q, brightness, p),
        2 => (p, brightness, t),
        3 => (p, q, brightness),
        4 => (t, p, brightness),
        _ => (brightness, p, q),
    };

    Rgb { red: red as u8, green: green as u8, blue: blue as u8 }
}

} // verus!
