use vstd::prelude::*;
use vstd::arithmetic::power2::{pow2, lemma2_to64, lemma2_to64_rest, lemma_pow2_pos};
use vstd::bits::{low_bits_mask, lemma_u32_shl_is_mul, lemma_low_bits_mask_values};

verus! {

/// The LED count a mask can address: the request, capped at the width of a `u32`.
pub open spec fn capped_led_count(led_count: nat) -> nat {
    if led_count < 32 { led_count } else { 32 }
}

/// Whether LED `i` (bit `i`) of `mask` is lit.
pub open spec fn led_lit(mask: u32, i: u32) -> bool {
    (mask >> i) & 1u32 == 1u32
}

/// The mask that lights LEDs `0 .. k` and no other, for `k <= 32`.
pub open spec fn first_leds(k: nat) -> u32 {
    low_bits_mask(k) as u32
}

/// `(1 << c) - 1` is the mask of the first `c` LEDs, for `0 < c < 32`.
proof fn lemma_shifted_mask(c: u32)
    requires
        0 < c < 32,
    ensures
        (1u32 << c) >= 1,
        ((1u32 << c) - 1) as u32 == first_leds(c as nat),
{
    lemma2_to64();
    lemma2_to64_rest();
    lemma_pow2_pos(c as nat);
    lemma_u32_shl_is_mul(1, c);
}

/// The mask that lights the first `led_count` LEDs, all 32 when more are asked for.
pub fn full_mask(led_count: usize) -> (mask: u32)
    ensures
        mask == first_leds(capped_led_count(led_count as nat)),
{
    let count: usize = if led_count < 32 { led_count } else { 32 };
    if count == 0 {
        proof { lemma_low_bits_mask_values(); }
        0
    } else if count == 32 {
        proof { lemma_low_bits_mask_values(); }
        u32::MAX
    } else {
        let c: u32 = count as u32;
        proof { lemma_shifted_mask(c); }
        (1u32 << c) - 1
    }
}

/// LED `i` of the mask for the first `k` LEDs is lit exactly when `i < k`.
pub proof fn lemma_first_leds_lit(k: nat, i: u32)
    requires
        k <= 32,
        i < 32,
    ensures
        led_lit(first_leds(k), i) <==> (i as nat) < k,
{
    lemma_low_bits_mask_values();
    if k == 0 {
        assert((0u32 >> i) & 1u32 == 0u32) by (bit_vector);
    } else if k == 32 {
        assert((0xffff_ffffu32 >> i) & 1u32 == 1u32) by (bit_vector)
            requires
                i < 32,
        ;
    } else {
        let c = k as u32;
        lemma_shifted_mask(c);
        assert(((((1u32 << c) - 1) as u32 >> i) & 1u32 == 1u32) <==> i < c) by (bit_vector)
            requires
                0 < c < 32,
                i < 32,
        ;
    }
}


/// The smaller of two naturals.
pub open spec fn min_nat(a: nat, b: nat) -> nat {
    if a <= b { a } else { b }
}

/// The progressive bar: the first `lit` LEDs, never more than the (capped) LED count.
///
/// `lit` is how many LEDs the current rev ratio reaches on the bar, `0` below the
/// start threshold; a bar of no LEDs stays dark.
pub fn progressive_mask(lit: usize, led_count: usize) -> (mask: u32)
    ensures
        mask == first_leds(min_nat(lit as nat, capped_led_count(led_count as nat))),
{
    let count: usize = if led_count < 32 { led_count } else { 32 };
    if count == 0 {
        proof { lemma_low_bits_mask_values(); }
        return 0;
    }
    let shown: usize = if lit < count { lit } else { count };
    full_mask(shown)
}

/// The progressive bar only grows as the ratio climbs: every LED lit for `lit_a`
/// is still lit for any `lit_b >= lit_a`.
pub proof fn law_progressive_bar_grows(lit_a: nat, lit_b: nat, led_count: nat, i: u32)
    requires
        lit_a <= lit_b,
        i < 32,
        led_lit(first_leds(min_nat(lit_a, capped_led_count(led_count))), i),
    ensures
        led_lit(first_leds(min_nat(lit_b, capped_led_count(led_count))), i),
{
    lemma_first_leds_lit(min_nat(lit_a, capped_led_count(led_count)), i);
    lemma_first_leds_lit(min_nat(lit_b, capped_led_count(led_count)), i);
}

/// One frame of LED state produced by the mapper.
#[derive(Debug, Clone, Copy, PartialEq, Eq, Structural)]
pub struct LedOutput {
    pub mask: u32,
    pub flash_mode: bool,
    pub flash_changed: bool,
}

/// What one rev-ratio sample says, measured against the mapper's thresholds.
#[derive(Debug, Clone, Copy, PartialEq, Eq, Structural)]
pub struct RatioReading {
    /// A sample is present.
    pub active: bool,
    /// The ratio has reached the flash threshold.
    pub reaches_flash: bool,
    /// The ratio is at or above the release threshold (flash threshold minus hysteresis).
    pub holds_flash: bool,
    /// LEDs the progressive bar reaches at this ratio before capping at the LED count
    /// (`0` below the start threshold).
    pub lit: usize,
}

/// The state of a mapper, as contracts see it.
pub struct MapperView {
    pub led_count: nat,
    pub flash_period_ms: nat,
    pub flash_mode: bool,
    pub flash_started_ms: nat,
}

/// Maps rev-ratio readings to an LED mask, with a hysteresis band around the flash
/// threshold and an on/off blink of the whole bar while flashing.
#[derive(Debug)]
pub struct BlueShiftMapper {
    led_count: usize,
    flash_period_ms: u64,
    flash_mode: bool,
    flash_started_ms: u64,
}

/// Flash mode after a reading: entered at the flash threshold, kept down to the
/// release threshold, left at once when the input goes inactive.
pub open spec fn next_flash_mode(flash_mode: bool, r: RatioReading) -> bool {
    r.active && (if flash_mode { r.holds_flash } else { r.reaches_flash })
}

/// Milliseconds from `start` to `now`, zero when `now` is earlier.
pub open spec fn elapsed_ms(now_ms: nat, start_ms: nat) -> nat {
    if now_ms >= start_ms { (now_ms - start_ms) as nat } else { 0 }
}

/// The blink half-period; a zero period counts as one millisecond.
pub open spec fn effective_period(period_ms: nat) -> nat {
    if period_ms == 0 { 1 } else { period_ms }
}

/// Whether the bar is on at `elapsed` milliseconds into a flash: on for the
/// first period, off for the next, and so on.
pub open spec fn blink_on(elapsed: nat, period_ms: nat) -> bool {
    (elapsed / effective_period(period_ms)) % 2 == 0
}

/// The mask shown for a reading, given the state after the reading was taken in.
pub open spec fn shown_mask(m: MapperView, r: RatioReading, now_ms: nat) -> u32 {
    if !r.active {
        0
    } else if m.flash_mode {
        if blink_on(elapsed_ms(now_ms, m.flash_started_ms), m.flash_period_ms) {
            first_leds(m.led_count)
        } else {
            0
        }
    } else {
        first_leds(min_nat(r.lit as nat, m.led_count))
    }
}

/// The state and output of one update.
pub open spec fn mapper_step(m: MapperView, r: RatioReading, now_ms: nat) -> (MapperView, LedOutput) {
    let flash = next_flash_mode(m.flash_mode, r);
    let after = MapperView {
        led_count: m.led_count,
        flash_period_ms: m.flash_period_ms,
        flash_mode: flash,
        flash_started_ms: if flash && !m.flash_mode { now_ms } else { m.flash_started_ms },
    };
    (after, LedOutput {
        mask: shown_mask(after, r, now_ms),
        flash_mode: flash,
        flash_changed: flash != m.flash_mode,
    })
}

impl View for BlueShiftMapper {
    type V = MapperView;

    closed spec fn view(&self) -> MapperView {
        MapperView {
            led_count: self.led_count as nat,
            flash_period_ms: self.flash_period_ms as nat,
            flash_mode: self.flash_mode,
            flash_started_ms: self.flash_started_ms as nat,
        }
    }
}

impl BlueShiftMapper {
    #[verifier::type_invariant]
    spec fn led_count_fits(self) -> bool {
        self.led_count <= 32
    }

    /// A mapper out of flash mode, for `led_count` LEDs (capped at 32), blinking
    /// with half-period `flash_period_ms` once it flashes.
    pub fn new(led_count: usize, flash_period_ms: u64, now_ms: u64) -> (mapper: Self)
        ensures
            mapper@ == (MapperView {
                led_count: capped_led_count(led_count as nat),
                flash_period_ms: flash_period_ms as nat,
                flash_mode: false,
                flash_started_ms: now_ms as nat,
            }),
    {
        let count: usize = if led_count < 32 { led_count } else { 32 };
        BlueShiftMapper {
            led_count: count,
            flash_period_ms,
            flash_mode: false,
            flash_started_ms: now_ms,
        }
    }

    /// The blink half-period in milliseconds.
    pub fn flash_period_ms(&self) -> (period: u64)
        ensures
            period == self@.flash_period_ms,
    {
        self.flash_period_ms
    }

    /// Take in one reading at time `now_ms` and return the LEDs to show.
    pub fn update(&mut self, reading: RatioReading, now_ms: u64) -> (out: LedOutput)
        ensures
            (final(self)@, out) == mapper_step(old(self)@, reading, now_ms as nat),
            final(self)@.led_count <= 32,
    {
        proof { use_type_invariant(&*self); }
        let should_flash = if self.flash_mode {
            reading.active && reading.holds_flash
        } else {
            reading.active && reading.reaches_flash
        };
        let flash_changed = should_flash != self.flash_mode;
        if flash_changed && should_flash {
            self.flash_started_ms = now_ms;
        }
        self.flash_mode = should_flash;

        let mask = if !reading.active {
            0
        } else if self.flash_mode {
            let period: u64 = if self.flash_period_ms == 0 { 1 } else { self.flash_period_ms };
            let elapsed: u64 = if now_ms >= self.flash_started_ms {
                now_ms - self.flash_started_ms
            } else {
                0
            };
            let phase = (elapsed / period) % 2;
            if phase == 0 {
                full_mask(self.led_count)
            } else {
                0
            }
        } else {
            progressive_mask(reading.lit, self.led_count)
        };

        LedOutput { mask, flash_mode: self.flash_mode, flash_changed }
    }
}

/// Flash mode after taking in each reading of `readings` in turn.
pub open spec fn flash_mode_after(flash_mode: bool, readings: Seq<RatioReading>) -> bool
    decreases readings.len(),
{
    if readings.len() == 0 {
        flash_mode
    } else {
        flash_mode_after(next_flash_mode(flash_mode, readings[0]), readings.drop_first())
    }
}

/// A mask for a requested LED count lights LED `i` exactly when `i` is below the
/// request (so requests beyond 32 light all 32).
pub proof fn law_led_count_is_capped_at_32(led_count: nat, i: u32)
    requires
        i < 32,
    ensures
        led_lit(first_leds(capped_led_count(led_count)), i) <==> (i as nat) < led_count,
{
    lemma_first_leds_lit(capped_led_count(led_count), i);
}

/// The progressive bar for `lit` of `led_count` LEDs lights LED `i` exactly when
/// `i` is below both.
pub proof fn law_progressive_bar_lights(lit: nat, led_count: nat, i: u32)
    requires
        i < 32,
    ensures
        led_lit(first_leds(min_nat(lit, capped_led_count(led_count))), i) <==> (i as nat) < lit
            && (i as nat) < led_count,
{
    lemma_first_leds_lit(min_nat(lit, capped_led_count(led_count)), i);
}

/// Flash mode follows the reading: without a live sample it is off; out of flash
/// it turns on exactly when the flash threshold is reached; in flash it stays on
/// exactly while the release threshold is held. The change flag reports exactly
/// whether the mode changed, and entering flash restarts the blink at `now_ms`.
pub proof fn law_flash_mode_follows_reading(m: MapperView, r: RatioReading, now_ms: nat)
    ensures
        !r.active ==> !mapper_step(m, r, now_ms).1.flash_mode,
        r.active && !m.flash_mode ==> (mapper_step(m, r, now_ms).1.flash_mode <==> r.reaches_flash),
        r.active && m.flash_mode ==> (mapper_step(m, r, now_ms).1.flash_mode <==> r.holds_flash),
        mapper_step(m, r, now_ms).1.flash_changed <==> (mapper_step(m, r, now_ms).1.flash_mode
            != m.flash_mode),
        mapper_step(m, r, now_ms).0.flash_mode == mapper_step(m, r, now_ms).1.flash_mode,
        !m.flash_mode && mapper_step(m, r, now_ms).1.flash_mode ==> mapper_step(
            m,
            r,
            now_ms,
        ).0.flash_started_ms == now_ms,
        m.flash_mode ==> mapper_step(m, r, now_ms).0.flash_started_ms == m.flash_started_ms,
        mapper_step(m, r, now_ms).0.led_count == m.led_count,
        mapper_step(m, r, now_ms).0.flash_period_ms == m.flash_period_ms,
{
}

/// While flashing, the bar is all on or all off: every LED, or none.
pub proof fn law_flash_shows_all_or_nothing(m: MapperView, r: RatioReading, now_ms: nat)
    requires
        mapper_step(m, r, now_ms).1.flash_mode,
    ensures
        mapper_step(m, r, now_ms).1.mask == 0 || mapper_step(m, r, now_ms).1.mask == first_leds(
            m.led_count,
        ),
{
}

/// While flashing, the bar is on for the first blink period after flash was
/// entered.
pub proof fn law_flash_on_for_first_period(m: MapperView, r: RatioReading, now_ms: nat)
    requires
        m.flash_mode,
        r.active,
        r.holds_flash,
        m.flash_started_ms <= now_ms < m.flash_started_ms + effective_period(m.flash_period_ms),
    ensures
        mapper_step(m, r, now_ms).1.mask == first_leds(m.led_count),
{
    let e = (now_ms - m.flash_started_ms) as nat;
    let p = effective_period(m.flash_period_ms);
    assert(e / p == 0) by (nonlinear_arith)
        requires
            e < p,
            p > 0,
    ;
}

/// Out of flash mode, a live reading shows the progressive bar: exactly the first
/// `lit` LEDs (at most the LED count), so a reading below the start threshold
/// (`lit == 0`) lights nothing.
pub proof fn law_progressive_frame_shows_lit_leds(m: MapperView, r: RatioReading, now_ms: nat)
    requires
        m.led_count <= 32,
        r.active,
        !(if m.flash_mode { r.holds_flash } else { r.reaches_flash }),
    ensures
        !mapper_step(m, r, now_ms).1.flash_mode,
        mapper_step(m, r, now_ms).1.flash_changed == m.flash_mode,
        mapper_step(m, r, now_ms).1.mask == first_leds(
            if (r.lit as nat) < m.led_count { r.lit as nat } else { m.led_count },
        ),
        forall|i: u32|
            i < 32 ==> (led_lit(#[trigger] mapper_step(m, r, now_ms).1.mask, i) <==> (i as nat) < r.lit
                && (i as nat) < m.led_count),
        r.lit == 0 ==> mapper_step(m, r, now_ms).1.mask == 0,
{
    let mask = mapper_step(m, r, now_ms).1.mask;
    let k = if (r.lit as nat) < m.led_count { r.lit as nat } else { m.led_count };
    assert(mask == first_leds(k));
    assert forall|i: u32| i < 32 implies (led_lit(mask, i) <==> (i as nat) < r.lit && (i as nat)
        < m.led_count) by {
        lemma_first_leds_lit(k, i);
    }
    lemma_low_bits_mask_values();
}

/// Inactive input turns every LED off and leaves flash mode.
pub proof fn law_inactive_input_turns_leds_off(m: MapperView, r: RatioReading, now_ms: nat)
    requires
        !r.active,
    ensures
        mapper_step(m, r, now_ms).1.mask == 0,
        !mapper_step(m, r, now_ms).1.flash_mode,
        mapper_step(m, r, now_ms).1.flash_changed == m.flash_mode,
{
}

/// The frame that enters flash mode lights every LED.
pub proof fn law_flash_entry_lights_all_leds(m: MapperView, r: RatioReading, now_ms: nat)
    requires
        !m.flash_mode,
        r.active,
        r.reaches_flash,
    ensures
        mapper_step(m, r, now_ms).1.mask == first_leds(m.led_count),
        mapper_step(m, r, now_ms).1.flash_mode,
        mapper_step(m, r, now_ms).1.flash_changed,
{
}

/// No mask lights an LED beyond the mapper's LED count.
pub proof fn law_mask_within_led_count(m: MapperView, r: RatioReading, now_ms: nat, i: u32)
    requires
        m.led_count <= 32,
        i < 32,
        led_lit(mapper_step(m, r, now_ms).1.mask, i),
    ensures
        (i as nat) < m.led_count,
{
    let mask = mapper_step(m, r, now_ms).1.mask;
    assert((0u32 >> i) & 1u32 == 0u32) by (bit_vector);
    if r.active {
        if mapper_step(m, r, now_ms).0.flash_mode {
            if mask != 0 {
                lemma_first_leds_lit(m.led_count, i);
            }
        } else {
            lemma_first_leds_lit(min_nat(r.lit as nat, m.led_count), i);
        }
    }
}

/// Inside the hysteresis band (at or above the release threshold, below the flash
/// threshold) the flash mode does not change, whichever it is.
pub proof fn law_band_keeps_mode(m: MapperView, r: RatioReading, now_ms: nat)
    requires
        r.active,
        r.holds_flash,
        !r.reaches_flash,
    ensures
        mapper_step(m, r, now_ms).1.flash_mode == m.flash_mode,
        !mapper_step(m, r, now_ms).1.flash_changed,
{
}

/// Once flashing, the mapper keeps flashing through any run of readings that stay
/// at or above the release threshold.
pub proof fn law_flash_held_above_release(readings: Seq<RatioReading>)
    requires
        forall|j: int| 0 <= j < readings.len() ==> #[trigger] readings[j].active && readings[j].holds_flash,
    ensures
        flash_mode_after(true, readings),
    decreases readings.len(),
{
    if readings.len() > 0 {
        law_flash_held_above_release(readings.drop_first());
    }
}

/// Out of flash mode, the mapper stays out through any run of readings that do not
/// reach the flash threshold.
pub proof fn law_no_flash_below_threshold(readings: Seq<RatioReading>)
    requires
        forall|j: int| 0 <= j < readings.len() ==> !(#[trigger] readings[j].reaches_flash),
    ensures
        !flash_mode_after(false, readings),
    decreases readings.len(),
{
    if readings.len() > 0 {
        law_no_flash_below_threshold(readings.drop_first());
    }
}

/// While flashing, the bar blinks: one blink half-period later it shows the
/// opposite of what it shows now.
pub proof fn law_flash_blinks_each_period(m: MapperView, r: RatioReading, now_ms: nat)
    requires
        m.flash_mode,
        r.active,
        r.holds_flash,
        0 < m.led_count <= 32,
        now_ms >= m.flash_started_ms,
    ensures
        (mapper_step(m, r, now_ms).1.mask == 0) != (mapper_step(
            m,
            r,
            now_ms + effective_period(m.flash_period_ms),
        ).1.mask == 0),
{
    let p = effective_period(m.flash_period_ms);
    let e = (now_ms - m.flash_started_ms) as nat;
    assert(elapsed_ms(now_ms + p, m.flash_started_ms) == e + p);
    assert((e + p) / p == e / p + 1) by (nonlinear_arith)
        requires
            p > 0,
    ;
    lemma_first_leds_lit(m.led_count, 0);
    assert((0u32 >> 0u32) & 1u32 == 0u32) by (bit_vector);
}

} // verus!
