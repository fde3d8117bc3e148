use moza_rev::led::blue_shift::{full_mask, progressive_mask, BlueShiftMapper, RatioReading};

const LED_COUNT: usize = 10;
const START: f32 = 0.70;
const FLASH_AT: f32 = 0.95;
const HYSTERESIS: f32 = 0.02;
const FLASH_PERIOD_MS: u64 = 100;

/// LEDs the progressive bar reaches at `ratio` (the float side of the mapping).
fn lit(ratio: f32, start: f32, full: f32, led_count: usize) -> usize {
    let led_count = led_count.min(32);
    if led_count == 0 || ratio < start {
        return 0;
    }
    let fraction = ((ratio - start) / (full - start)).clamp(0.0, 1.0);
    1 + (fraction * led_count as f32).floor() as usize
}

fn float_progressive_mask(ratio: f32, start: f32, full: f32, led_count: usize) -> u32 {
    progressive_mask(lit(ratio, start, full, led_count), led_count)
}

fn reading(ratio: Option<f32>) -> RatioReading {
    let active = ratio.is_some();
    let ratio = ratio.unwrap_or(0.0);
    RatioReading {
        active,
        reaches_flash: ratio >= FLASH_AT,
        holds_flash: ratio >= FLASH_AT - HYSTERESIS,
        lit: lit(ratio, START, FLASH_AT, LED_COUNT),
    }
}

fn mapper(now_ms: u64) -> BlueShiftMapper {
    BlueShiftMapper::new(LED_COUNT, FLASH_PERIOD_MS, now_ms)
}

#[test]
fn progressive_mapping_starts_at_first_led_and_reaches_all_leds() {
    assert_eq!(
        float_progressive_mask(START - 0.001, START, FLASH_AT, LED_COUNT),
        0
    );
    assert_eq!(float_progressive_mask(START, START, FLASH_AT, LED_COUNT), 0b1);
    assert_eq!(
        float_progressive_mask(0.825, START, FLASH_AT, LED_COUNT),
        0b11_1111
    );
    assert_eq!(
        float_progressive_mask(FLASH_AT, START, FLASH_AT, LED_COUNT),
        full_mask(LED_COUNT)
    );
}

#[test]
fn progressive_mapping_honors_configured_led_count() {
    assert_eq!(float_progressive_mask(FLASH_AT, START, FLASH_AT, 18), 0x3_FFFF);
    assert_eq!(float_progressive_mask(FLASH_AT, START, FLASH_AT, 0), 0);
}

#[test]
fn full_mask_caps_at_u32_width() {
    assert_eq!(full_mask(32), u32::MAX);
    assert_eq!(full_mask(64), u32::MAX);
}

#[test]
fn full_mask_lights_first_leds() {
    assert_eq!(full_mask(0), 0);
    assert_eq!(full_mask(1), 0b1);
    assert_eq!(full_mask(10), 0x3FF);
    assert_eq!(full_mask(31), 0x7FFF_FFFF);
    assert_eq!(full_mask(usize::MAX), u32::MAX);
}

#[test]
fn progressive_mask_caps_at_led_count_and_width() {
    assert_eq!(progressive_mask(0, 10), 0);
    assert_eq!(progressive_mask(3, 10), 0b111);
    assert_eq!(progressive_mask(11, 10), 0x3FF);
    assert_eq!(progressive_mask(usize::MAX, 10), 0x3FF);
    assert_eq!(progressive_mask(40, 40), u32::MAX);
    assert_eq!(progressive_mask(5, 0), 0);
}

#[test]
fn flash_mode_uses_hysteresis() {
    let now = 1_000;
    let mut mapper = mapper(now);

    let entered = mapper.update(reading(Some(FLASH_AT)), now);
    assert!(entered.flash_mode);
    assert!(entered.flash_changed);

    let held = mapper.update(reading(Some(0.94)), now + 10);
    assert!(held.flash_mode);
    assert!(!held.flash_changed);

    let released = mapper.update(reading(Some(0.929)), now + 20);
    assert!(!released.flash_mode);
    assert!(released.flash_changed);
}

#[test]
fn flash_mode_toggles_all_leds_on_and_off() {
    let now = 1_000;
    let mut mapper = mapper(now);

    assert_eq!(mapper.update(reading(Some(FLASH_AT)), now).mask, full_mask(LED_COUNT));
    assert_eq!(
        mapper.update(reading(Some(FLASH_AT)), now + 99).mask,
        full_mask(LED_COUNT)
    );
    assert_eq!(mapper.update(reading(Some(FLASH_AT)), now + 100).mask, 0);
    assert_eq!(
        mapper.update(reading(Some(FLASH_AT)), now + 200).mask,
        full_mask(LED_COUNT)
    );
}

#[test]
fn inactive_input_turns_leds_off_and_leaves_flash_mode() {
    let now = 1_000;
    let mut mapper = mapper(now);

    mapper.update(reading(Some(FLASH_AT)), now);
    let idle = mapper.update(reading(None), now + 10);

    assert_eq!(idle.mask, 0);
    assert!(!idle.flash_mode);
    assert!(idle.flash_changed);
}

#[test]
fn band_below_flash_threshold_does_not_enter_flash() {
    let mut mapper = mapper(0);
    let out = mapper.update(reading(Some(0.94)), 5);
    assert!(!out.flash_mode);
    assert!(!out.flash_changed);
    assert_eq!(out.mask, progressive_mask(lit(0.94, START, FLASH_AT, LED_COUNT), LED_COUNT));
    assert_eq!(out.mask, 0x3FF);
}

#[test]
fn flash_blink_restarts_when_flash_is_entered_again() {
    let mut mapper = mapper(0);
    mapper.update(reading(Some(0.99)), 0);
    assert_eq!(mapper.update(reading(Some(0.99)), 150).mask, 0);
    mapper.update(reading(Some(0.5)), 160);
    let again = mapper.update(reading(Some(0.99)), 170);
    assert!(again.flash_changed);
    assert_eq!(again.mask, 0x3FF);
    assert_eq!(mapper.update(reading(Some(0.99)), 269).mask, 0x3FF);
    assert_eq!(mapper.update(reading(Some(0.99)), 270).mask, 0);
}

#[test]
fn zero_flash_period_blinks_every_millisecond() {
    let mut mapper = BlueShiftMapper::new(4, 0, 0);
    assert_eq!(mapper.update(reading(Some(1.0)), 0).mask, 0b1111);
    assert_eq!(mapper.update(reading(Some(1.0)), 1).mask, 0);
    assert_eq!(mapper.update(reading(Some(1.0)), 2).mask, 0b1111);
}

#[test]
fn clock_running_backwards_counts_as_no_time() {
    let mut mapper = mapper(500);
    mapper.update(reading(Some(1.0)), 500);
    assert_eq!(mapper.update(reading(Some(1.0)), 100).mask, 0x3FF);
}

#[test]
fn mapper_caps_led_count_at_32() {
    let mut mapper = BlueShiftMapper::new(40, 100, 0);
    assert_eq!(mapper.update(reading(Some(1.0)), 0).mask, u32::MAX);
}

#[test]
fn progressive_bar_only_grows_with_lit_count() {
    for led_count in [0usize, 1, 10, 31, 32, 40] {
        let mut previous = 0u32;
        for lit in 0..45usize {
            let mask = progressive_mask(lit, led_count);
            assert_eq!(mask & previous, previous, "lit {lit} of {led_count}");
            assert_eq!(mask & !full_mask(led_count), 0);
            previous = mask;
        }
    }
}
