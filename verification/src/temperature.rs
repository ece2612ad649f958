use vstd::prelude::*;

use crate::crc::{crc8, lemma_crc8_of_checked_block, spec_crc8};
use crate::digitus16::DIGITS;

verus! {

/// GPIO of the DS18B20 1-Wire data line.
pub const TEMPERATURE_GPIO: u8 = 10;

/// 1-Wire command: start a temperature conversion.
pub const CONVERT_T: u8 = 0x44;

/// 1-Wire command: read the nine scratchpad bytes.
pub const READ_SCRATCHPAD: u8 = 0xbe;

/// 1-Wire command: address the only device on the bus.
pub const SKIP_ROM: u8 = 0xcc;

/// Bytes in the sensor's scratchpad, the last being its CRC.
pub const SCRATCHPAD_LEN: usize = 9;

/// Ticks to wait for a conversion: a 12-bit conversion takes up to 750 ms,
/// and at a 10 ms tick this leaves a little slack without stalling the display.
pub const CONVERSION_TICKS: u16 = 80;

/// Ticks to wait before trying again when no sensor answers.
pub const RETRY_TICKS: u16 = 100;

/// The signed 16-bit value of two little-endian bytes.
pub open spec fn le_i16(lo: u8, hi: u8) -> int {
    hi * 256 + lo - (if hi >= 128 { 65536int } else { 0 })
}

/// Integer division rounding towards zero.
pub open spec fn trunc_div(x: int, d: int) -> int {
    if x >= 0 {
        x / d
    } else {
        -((-x) / d)
    }
}

/// Tenths of a degree Celsius for a raw reading in sixteenths of a degree,
/// rounded towards zero.
pub open spec fn tenths_from_raw(raw: int) -> int {
    trunc_div(raw * 10, 16)
}

/// The temperature in a scratchpad, or `None` when its CRC does not check.
pub open spec fn scratchpad_tenths(scratchpad: Seq<u8>) -> Option<i16> {
    if spec_crc8(scratchpad) != 0 {
        None
    } else {
        Some(tenths_from_raw(le_i16(scratchpad[0], scratchpad[1])) as i16)
    }
}

/// Lowest and highest temperature, in tenths of a degree, that a scratchpad
/// can hold.
pub open spec fn tenths_in_range(tenths: int) -> bool {
    -20480 <= tenths <= 20479
}

/// Validates a scratchpad read from the sensor and returns its temperature in
/// tenths of a degree Celsius.
pub fn parse_scratchpad(scratchpad: &[u8; SCRATCHPAD_LEN]) -> (tenths: Option<i16>)
    ensures
        tenths == scratchpad_tenths(scratchpad@),
        tenths matches Some(t) ==> tenths_in_range(t as int),
{
    if crc8(scratchpad.as_slice()) != 0 {
        return None;
    }
    let lo = scratchpad[0];
    let hi = scratchpad[1];
    let raw: i32 = (hi as i32) * 256 + lo as i32 - if hi >= 128 { 65536i32 } else { 0i32 };
    let scaled: i32 = raw * 10;
    let tenths: i32 = if scaled >= 0 {
        scaled / 16
    } else {
        -((-scaled) / 16)
    };
    Some(tenths as i16)
}

/// A scratchpad whose last byte is the CRC of the eight before it is accepted,
/// with the temperature held in its first two bytes.
pub proof fn lemma_checked_scratchpad_accepted(data: Seq<u8>)
    requires
        data.len() == 8,
    ensures
        scratchpad_tenths(data.push(spec_crc8(data)))
            == Some(tenths_from_raw(le_i16(data[0], data[1])) as i16),
{
    lemma_crc8_of_checked_block(data);
}

/// Whole degrees for a temperature in tenths, rounded half away from zero.
pub open spec fn round_to_degrees(tenths: int) -> int {
    if tenths >= 0 {
        (tenths + 5) / 10
    } else {
        -((5 - tenths) / 10)
    }
}

/// The ASCII digit for `d` in 0..=9.
pub open spec fn digit_char(d: int) -> u8 {
    (48 + d) as u8
}

/// `"COLD  "`
pub open spec fn cold_text() -> Seq<u8> {
    seq![67u8, 79, 76, 68, 32, 32]
}

/// `" HOT  "`
pub open spec fn hot_text() -> Seq<u8> {
    seq![32u8, 72, 79, 84, 32, 32]
}

/// `"NO TMP"`
pub open spec fn no_sensor_text() -> Seq<u8> {
    seq![78u8, 79, 32, 84, 77, 80]
}

/// The display text for a temperature in tenths of a degree: the rounded
/// whole degrees right-aligned in the first three places (with a minus sign
/// before negative values), then `" C "`; `"COLD  "` below -99 degrees and
/// `" HOT  "` above 999 degrees.
pub open spec fn temperature_display(tenths: int) -> Seq<u8> {
    let r = round_to_degrees(tenths);
    let negative = r < 0;
    let a = if negative { -r } else { r };
    let sign: u8 = if negative { 45 } else { 32 };
    if a > 999 || (negative && a > 99) {
        if negative { cold_text() } else { hot_text() }
    } else if a < 10 {
        seq![32u8, sign, digit_char(a), 32, 67, 32]
    } else if a < 100 {
        seq![sign, digit_char(a / 10), digit_char(a % 10), 32, 67, 32]
    } else {
        seq![digit_char(a / 100), digit_char((a / 10) % 10), digit_char(a % 10), 32, 67, 32]
    }
}

/// The ASCII digit `'0' + value`, the value taken modulo 256 as a byte.
fn digit(value: i32) -> (c: u8)
    requires
        (value as u8) <= 207,
    ensures
        c == 48 + (value as u8),
{
    48u8 + value as u8
}

/// The rounding to whole degrees is to the nearest degree, halves away from
/// zero: `10 * degrees` is within 5 tenths of the temperature, and exactly 5
/// away only when it lies further from zero.
pub proof fn lemma_rounding(tenths: int)
    ensures
        ({
            let r = round_to_degrees(tenths);
            &&& -5 <= 10 * r - tenths <= 5
            &&& 10 * r - tenths == 5 ==> tenths >= 0
            &&& 10 * r - tenths == -5 ==> tenths < 0
        }),
{
}

/// The value of a character shown as a digit, 0 for anything else.
pub open spec fn digit_value(c: u8) -> int {
    if 48 <= c <= 57 {
        c - 48
    } else {
        0
    }
}

/// Whether `c` is an ASCII digit.
pub open spec fn is_digit(c: u8) -> bool {
    48 <= c <= 57
}

/// What the read-out shows, read back: the temperature text has a number of
/// up to three digits, right-aligned and without leading zeros, in the first
/// three places, a minus sign just before it when the rounded temperature is
/// below zero, then `" C "`; the number is the rounded temperature's
/// magnitude. Below -99 degrees it reads `"COLD  "`, above 999 degrees
/// `" HOT  "`.
pub proof fn lemma_display_reads_back(tenths: int)
    ensures
        ({
            let r = round_to_degrees(tenths);
            let a = if r < 0 { -r } else { r };
            let text = temperature_display(tenths);
            &&& text.len() == 6
            &&& -99 <= r <= 999 ==> {
                &&& text[3] == 32 && text[4] == 67 && text[5] == 32
                &&& is_digit(text[2])
                &&& 100 * digit_value(text[0]) + 10 * digit_value(text[1]) + digit_value(text[2]) == a
                &&& (is_digit(text[0]) ==> text[0] != 48 && is_digit(text[1]))
                &&& (is_digit(text[1]) && !is_digit(text[0]) ==> text[1] != 48)
                &&& (!is_digit(text[0]) ==> text[0] == 32 || text[0] == 45)
                &&& (!is_digit(text[1]) ==> text[1] == 32 || text[1] == 45)
                &&& ((text[0] == 45 || text[1] == 45) == (r < 0))
                &&& (text[1] == 45 ==> text[0] == 32)
                &&& (a >= 10 ==> is_digit(text[1]))
                &&& (a >= 100 ==> is_digit(text[0]))
            }
            &&& r > 999 ==> text == seq![32u8, 72, 79, 84, 32, 32]
            &&& r < -99 ==> text == seq![67u8, 79, 76, 68, 32, 32]
        }),
{
    let r = round_to_degrees(tenths);
    let a = if r < 0 { -r } else { r };
    if -99 <= r <= 999 {
        if a >= 100 {
            assert(a / 100 <= 9 && (a / 10) % 10 <= 9);
            assert(100 * (a / 100) + 10 * ((a / 10) % 10) + a % 10 == a);
        } else if a >= 10 {
            assert(10 * (a / 10) + a % 10 == a);
        }
    }
}

/// Formats a temperature in tenths of a degree Celsius for the six digits
/// (see `temperature_display`).
pub fn temperature_text(tenths_celsius: i16) -> (text: [u8; DIGITS])
    requires
        -32763 <= tenths_celsius <= 32762,
    ensures
        text@ == temperature_display(tenths_celsius as int),
{
    let t = tenths_celsius as i32;
    let rounded: i32 = if t >= 0 {
        (t + 5) / 10
    } else {
        -((5 - t) / 10)
    };
    let negative = rounded < 0;
    let abs_value: i32 = if negative { -rounded } else { rounded };

    if abs_value > 999 || (negative && abs_value > 99) {
        if negative {
            let text = [67u8, 79, 76, 68, 32, 32];
            assert(text@ =~= cold_text());
            return text;
        } else {
            let text = [32u8, 72, 79, 84, 32, 32];
            assert(text@ =~= hot_text());
            return text;
        }
    }

    let mut text = [32u8, 32, 32, 32, 67, 32];
    text[2] = digit(abs_value % 10);

    if abs_value >= 10 {
        text[1] = digit((abs_value / 10) % 10);
    }

    if abs_value >= 100 {
        text[0] = digit((abs_value / 100) % 10);
    } else if negative {
        text[if abs_value >= 10 { 0 } else { 1 }] = 45;
    }

    assert(text@ =~= temperature_display(tenths_celsius as int));
    text
}

/// What the bus driver has to do after a poll.
#[derive(Clone, Copy, Debug, PartialEq, Eq, Structural)]
pub enum PollAction {
    /// Nothing this tick: a conversion or a retry is pending.
    Wait,
    /// Read the scratchpad (report it with `read_finished`), then start a new
    /// conversion.
    ReadThenConvert,
    /// Start a conversion: reset the bus and report whether a sensor answered
    /// (`conversion_reset`).
    Convert,
}

/// The sensor's bookkeeping as plain values.
#[derive(Clone, Copy, Debug, PartialEq, Eq, Structural)]
pub struct TemperatureState {
    /// Polls left before the bus is used again.
    pub ticks_until_read: u16,
    /// The last temperature read, in tenths of a degree Celsius.
    pub last_tenths_celsius: Option<i16>,
    /// Whether a sensor answered the last reset.
    pub sensor_present: bool,
}

/// A poll: while time is left it counts down; then a present sensor is read
/// and a new conversion started, or, without a sensor, a conversion is tried.
pub open spec fn poll_step(s: TemperatureState) -> (TemperatureState, PollAction) {
    if s.ticks_until_read > 0 {
        (TemperatureState { ticks_until_read: (s.ticks_until_read - 1) as u16, ..s }, PollAction::Wait)
    } else if s.sensor_present {
        (s, PollAction::ReadThenConvert)
    } else {
        (s, PollAction::Convert)
    }
}

/// The state after a read attempt: `None` when no sensor answered the reset,
/// otherwise the scratchpad read. A reading whose CRC checks is kept; a
/// failed read marks the sensor absent and keeps the last good reading.
pub open spec fn read_step(s: TemperatureState, scratchpad: Option<Seq<u8>>) -> TemperatureState {
    let reading = match scratchpad {
        None => None,
        Some(bytes) => scratchpad_tenths(bytes),
    };
    match reading {
        Some(t) => TemperatureState { last_tenths_celsius: Some(t), ..s },
        None => TemperatureState { sensor_present: false, ..s },
    }
}

/// A read whose scratchpad passes the CRC replaces the kept reading with that
/// scratchpad's temperature, whatever was kept before, and leaves the rest of
/// the state alone; any other read keeps the last reading and marks the
/// sensor absent.
pub proof fn lemma_read_keeps_latest(s: TemperatureState, scratchpad: Option<Seq<u8>>)
    ensures
        scratchpad is Some && scratchpad_tenths(scratchpad.unwrap()) is Some ==>
            read_step(s, scratchpad) == (TemperatureState {
                last_tenths_celsius: scratchpad_tenths(scratchpad.unwrap()),
                ..s
            }),
        !(scratchpad is Some && scratchpad_tenths(scratchpad.unwrap()) is Some) ==>
            read_step(s, scratchpad) == (TemperatureState { sensor_present: false, ..s }),
{
}

/// The display text for a state: the last reading, or `"NO TMP"` before the
/// first one.
pub open spec fn state_display(s: TemperatureState) -> Seq<u8> {
    match s.last_tenths_celsius {
        Some(t) => temperature_display(t as int),
        None => no_sensor_text(),
    }
}

/// The state and the actions after `n` polls with no bus work in between.
pub open spec fn polls(s: TemperatureState, n: nat) -> (TemperatureState, Seq<PollAction>)
    decreases n,
{
    if n == 0 {
        (s, seq![])
    } else {
        let (next, action) = poll_step(s);
        let (last, actions) = polls(next, (n - 1) as nat);
        (last, seq![action] + actions)
    }
}

/// A sensor waiting `k` ticks answers `k` polls with `Wait`, counting down
/// to zero, and the next poll asks for bus work.
pub proof fn lemma_wait_then_act(s: TemperatureState)
    ensures
        polls(s, s.ticks_until_read as nat).0 == (TemperatureState { ticks_until_read: 0, ..s }),
        forall|i: int| 0 <= i < s.ticks_until_read ==> #[trigger] polls(s, s.ticks_until_read as nat).1[i] == PollAction::Wait,
        polls(s, s.ticks_until_read as nat).1.len() == s.ticks_until_read,
        poll_step(polls(s, s.ticks_until_read as nat).0).1 != PollAction::Wait,
    decreases s.ticks_until_read,
{
    if s.ticks_until_read > 0 {
        let next = poll_step(s).0;
        lemma_wait_then_act(next);
        let rest = polls(next, next.ticks_until_read as nat).1;
        assert forall|i: int| 0 <= i < s.ticks_until_read implies #[trigger] polls(s, s.ticks_until_read as nat).1[i] == PollAction::Wait by {
            if i > 0 {
                assert(polls(s, s.ticks_until_read as nat).1[i] == rest[i - 1]);
            }
        }
    }
}

/// The bookkeeping of the DS18B20 temperature sensor: when to read it, and
/// the last good reading. The bus itself is driven by the caller, which
/// reports what happened.
pub struct TemperatureSensor {
    ticks_until_read: u16,
    last_tenths_celsius: Option<i16>,
    sensor_present: bool,
}

impl View for TemperatureSensor {
    type V = TemperatureState;

    closed spec fn view(&self) -> TemperatureState {
        TemperatureState {
            ticks_until_read: self.ticks_until_read,
            last_tenths_celsius: self.last_tenths_celsius,
            sensor_present: self.sensor_present,
        }
    }
}

/// The states the sensor's bookkeeping can reach: waits are never longer than
/// RETRY_TICKS, and a kept reading came from a scratchpad.
pub open spec fn state_wf(s: TemperatureState) -> bool {
    &&& s.ticks_until_read <= RETRY_TICKS
    &&& s.last_tenths_celsius matches Some(t) ==> tenths_in_range(t as int)
}

impl TemperatureSensor {
    #[verifier::type_invariant]
    spec fn reachable(self) -> bool {
        state_wf(self@)
    }

    /// A sensor with no reading yet and no sensor seen; the caller starts the
    /// first conversion right away.
    pub fn new() -> (sensor: Self)
        ensures
            sensor@ == (TemperatureState { ticks_until_read: 0, last_tenths_celsius: None, sensor_present: false }),
    {
        TemperatureSensor { ticks_until_read: 0, last_tenths_celsius: None, sensor_present: false }
    }

    /// Called once per tick: says what the bus driver has to do.
    pub fn poll(&mut self) -> (action: PollAction)
        ensures
            (final(self)@, action) == poll_step(old(self)@),
            state_wf(final(self)@),
    {
        proof {
            use_type_invariant(&*self);
        }
        if self.ticks_until_read > 0 {
            self.ticks_until_read -= 1;
            return PollAction::Wait;
        }
        if self.sensor_present {
            PollAction::ReadThenConvert
        } else {
            PollAction::Convert
        }
    }

    /// Reports a read attempt: `None` when no sensor answered the reset,
    /// otherwise the nine scratchpad bytes read.
    pub fn read_finished(&mut self, scratchpad: Option<[u8; SCRATCHPAD_LEN]>)
        ensures
            final(self)@ == read_step(old(self)@, match scratchpad {
                None => None,
                Some(bytes) => Some(bytes@),
            }),
            state_wf(final(self)@),
            final(self)@.ticks_until_read == old(self)@.ticks_until_read,
            scratchpad is Some && scratchpad_tenths(scratchpad.unwrap()@) is Some ==> {
                &&& final(self)@.last_tenths_celsius == scratchpad_tenths(scratchpad.unwrap()@)
                &&& final(self)@.sensor_present == old(self)@.sensor_present
            },
            !(scratchpad is Some && scratchpad_tenths(scratchpad.unwrap()@) is Some) ==> {
                &&& final(self)@.last_tenths_celsius == old(self)@.last_tenths_celsius
                &&& !final(self)@.sensor_present
            },
    {
        proof {
            use_type_invariant(&*self);
        }
        let reading = match scratchpad {
            None => None,
            Some(bytes) => parse_scratchpad(&bytes),
        };
        match reading {
            Some(tenths_celsius) => {
                self.last_tenths_celsius = Some(tenths_celsius);
            },
            None => {
                self.sensor_present = false;
            },
        }
    }

    /// Reports the bus reset that starts a conversion, and returns whether
    /// the conversion commands are to be sent. Without an answer the next
    /// attempt waits RETRY_TICKS.
    pub fn conversion_reset(&mut self, present: bool) -> (send_commands: bool)
        ensures
            send_commands == present,
            final(self)@ == (if present {
                TemperatureState { sensor_present: true, ..old(self)@ }
            } else {
                TemperatureState { ticks_until_read: RETRY_TICKS, ..old(self)@ }
            }),
            state_wf(final(self)@),
    {
        proof {
            use_type_invariant(&*self);
        }
        if !present {
            self.ticks_until_read = RETRY_TICKS;
            return false;
        }
        self.sensor_present = true;
        true
    }

    /// Reports that the conversion commands were sent: the reading is due
    /// after CONVERSION_TICKS.
    pub fn conversion_started(&mut self)
        ensures
            final(self)@ == (TemperatureState { ticks_until_read: CONVERSION_TICKS, ..old(self)@ }),
            state_wf(final(self)@),
    {
        proof {
            use_type_invariant(&*self);
        }
        self.ticks_until_read = CONVERSION_TICKS;
    }

    /// The text to show in temperature mode.
    pub fn display_text(&self) -> (text: [u8; DIGITS])
        ensures
            text@ == state_display(self@),
            state_wf(self@),
    {
        proof {
            use_type_invariant(self);
        }
        match self.last_tenths_celsius {
            Some(tenths_celsius) => temperature_text(tenths_celsius),
            None => {
                let text = [78u8, 79, 32, 84, 77, 80];
                assert(text@ =~= no_sensor_text());
                text
            },
        }
    }
}

} // verus!
