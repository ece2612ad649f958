use vstd::prelude::*;

verus! {

/// GPIO of the light-dependent resistor.
pub const LIGHT_SENSOR_GPIO: u8 = 0;

/// Largest reading of the 12-bit ADC.
pub const ADC_MAX: u32 = 4095;

/// ADC conversions averaged per tick.
pub const SAMPLES_PER_TICK: u32 = 4;

/// Fractional bits kept by the low-pass filter.
pub const FILTER_FRACTION_BITS: u32 = 8;

/// The filter moves 1/2^FILTER_SHIFT of the way to each new sample; at a 10 ms
/// tick, 1/32 settles smoothly over roughly 0.3 seconds.
pub const FILTER_SHIFT: u32 = 5;

/// Display intensity in the dark; with the global LED current fixed at 15 this is
/// close to the old level-1 minimum.
pub const MIN_INTENSITY: u8 = 17;

/// Display intensity in bright light.
pub const MAX_INTENSITY: u8 = 255;

/// One filtered light measurement and the display intensity derived from it.
#[derive(Clone, Copy, Debug, PartialEq, Eq, Structural)]
pub struct LightReading {
    pub filtered_raw: u16,
    pub intensity: u8,
}

/// The mean of one tick's ADC samples, rounded down.
pub fn average_samples(samples: &[u16; 4]) -> (average: u16)
    ensures
        average as int == (samples[0] + samples[1] + samples[2] + samples[3]) / 4,
{
    let mut sum: u32 = 0;
    let mut i: usize = 0;
    while i < 4
        invariant
            i <= 4,
            sum as int == (if i > 0 { samples[0] as int } else { 0 })
                + (if i > 1 { samples[1] as int } else { 0 })
                + (if i > 2 { samples[2] as int } else { 0 })
                + (if i > 3 { samples[3] as int } else { 0 }),
        decreases 4 - i,
    {
        sum += samples[i] as u32;
        i += 1;
    }
    (sum / SAMPLES_PER_TICK) as u16
}

/// One step of the first-order low-pass filter: the value moves towards the
/// sample by the distance divided by 2^FILTER_SHIFT, rounded towards the old value.
pub open spec fn filter_step(previous: int, sample: int) -> int {
    if sample >= previous {
        previous + (sample - previous) / 32
    } else {
        previous - (previous - sample) / 32
    }
}

/// Moves the filtered value `previous` towards `sample` (see `filter_step`).
/// The result never passes the sample.
pub fn smooth(previous: u32, sample: u32) -> (next: u32)
    ensures
        next == filter_step(previous as int, sample as int),
        previous <= sample ==> previous <= next <= sample,
        sample <= previous ==> sample <= next <= previous,
        previous <= sample ==> 32 * (next - previous) <= sample - previous < 32 * (next - previous + 1),
        sample <= previous ==> 32 * (previous - next) <= previous - sample < 32 * (previous - next + 1),
{
    if sample >= previous {
        let d = sample - previous;
        assert(d >> 5u32 == d / 32) by (bit_vector);
        previous + (d >> FILTER_SHIFT)
    } else {
        let d = previous - sample;
        assert(d >> 5u32 == d / 32) by (bit_vector);
        previous - (d >> FILTER_SHIFT)
    }
}

/// Display intensity for a filtered light reading: linear from MIN_INTENSITY
/// in the dark to MAX_INTENSITY at full scale (readings above ADC_MAX count as
/// full scale), rounded down.
pub open spec fn intensity_for(raw: u16) -> int {
    let r = if raw > ADC_MAX { ADC_MAX as int } else { raw as int };
    MIN_INTENSITY + r * (MAX_INTENSITY - MIN_INTENSITY) / (ADC_MAX as int)
}

proof fn lemma_intensity_bounds(raw: u16)
    ensures
        MIN_INTENSITY <= intensity_for(raw) <= MAX_INTENSITY,
{
    let r = if raw > ADC_MAX { ADC_MAX as int } else { raw as int };
    assert(0 <= r * 238 / 4095 <= 238) by (nonlinear_arith)
        requires
            0 <= r <= 4095,
    ;
}

/// More light never gives a dimmer display.
pub proof fn lemma_intensity_monotonic(darker: u16, brighter: u16)
    requires
        darker <= brighter,
    ensures
        intensity_for(darker) <= intensity_for(brighter),
{
    let a = if darker > ADC_MAX { ADC_MAX as int } else { darker as int };
    let b = if brighter > ADC_MAX { ADC_MAX as int } else { brighter as int };
    assert(a * 238 <= b * 238) by (nonlinear_arith)
        requires
            a <= b,
    ;
    vstd::arithmetic::div_mod::lemma_div_is_ordered(a * 238, b * 238, 4095);
}

/// Maps a filtered light reading to a display intensity (see `intensity_for`).
pub fn intensity_from_light(raw: u16) -> (intensity: u8)
    ensures
        intensity as int == intensity_for(raw),
        MIN_INTENSITY <= intensity <= MAX_INTENSITY,
        ({
            let r = if raw > 4095 { 4095int } else { raw as int };
            4095 * (intensity - 17) <= r * 238 < 4095 * (intensity - 16)
        }),
{
    proof {
        lemma_intensity_bounds(raw);
    }
    let raw = if (raw as u32) > ADC_MAX { ADC_MAX } else { raw as u32 };
    let range = (MAX_INTENSITY - MIN_INTENSITY) as u32;
    assert(raw * range <= 4095 * 238) by (nonlinear_arith)
        requires
            raw <= 4095,
            range == 238,
    ;
    MIN_INTENSITY + (raw * range / ADC_MAX) as u8
}

/// The rounded reading that a filter state stands for: the state with its
/// FILTER_FRACTION_BITS fractional bits rounded to the nearest integer.
pub open spec fn rounded_reading(filtered_scaled: u32) -> int {
    (filtered_scaled + 128) / 256
}

/// The ambient-light filter: a running low-pass filter over the per-tick
/// averages, kept with FILTER_FRACTION_BITS fractional bits.
pub struct LightSensor {
    filtered_raw_scaled: u32,
}

impl View for LightSensor {
    type V = u32;

    /// The filter state, the filtered reading times 2^FILTER_FRACTION_BITS.
    closed spec fn view(&self) -> u32 {
        self.filtered_raw_scaled
    }
}

impl LightSensor {
    #[verifier::type_invariant]
    spec fn within_reading_range(self) -> bool {
        self.filtered_raw_scaled <= 0xffff * 256
    }

    /// A filter that starts at the first average reading.
    pub fn new(initial_average: u16) -> (sensor: Self)
        ensures
            sensor@ == initial_average * 256,
    {
        let scaled = (initial_average as u32) << FILTER_FRACTION_BITS;
        assert(scaled == initial_average * 256) by (bit_vector)
            requires
                scaled == (initial_average as u32) << 8u32,
        ;
        LightSensor { filtered_raw_scaled: scaled }
    }

    /// Feeds one tick's average into the filter and returns the rounded
    /// filtered reading with its display intensity.
    pub fn sample(&mut self, average: u16) -> (reading: LightReading)
        ensures
            final(self)@ == filter_step(old(self)@ as int, average * 256),
            old(self)@ <= average * 256 ==> old(self)@ <= final(self)@ <= average * 256,
            average * 256 <= old(self)@ ==> average * 256 <= final(self)@ <= old(self)@,
            reading.filtered_raw == rounded_reading(final(self)@),
            reading.intensity == intensity_for(reading.filtered_raw),
    {
        proof {
            use_type_invariant(&*self);
        }
        let sample_scaled = (average as u32) << FILTER_FRACTION_BITS;
        assert(sample_scaled == average * 256) by (bit_vector)
            requires
                sample_scaled == (average as u32) << 8u32,
        ;
        let next = smooth(self.filtered_raw_scaled, sample_scaled);
        self.filtered_raw_scaled = next;
        let half: u32 = 1 << (FILTER_FRACTION_BITS - 1);
        assert(half == 128) by (bit_vector)
            requires
                half == 1u32 << 7u32,
        ;
        let shifted_up = next + half;
        let rounded = shifted_up >> FILTER_FRACTION_BITS;
        assert(rounded == (next + 128) / 256 && rounded <= 0xffff) by (bit_vector)
            requires
                rounded == shifted_up >> 8u32,
                shifted_up == next + 128,
                next <= 0xffff * 256,
        ;
        let filtered_raw = rounded as u16;
        LightReading { filtered_raw, intensity: intensity_from_light(filtered_raw) }
    }
}

} // verus!
