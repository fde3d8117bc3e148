use moza_rev::device::moza_led::LedCommand;
use moza_rev::led::blue_shift::RatioReading;
use moza_rev::madness::{HEADER_BYTES, PACKET_TYPE_TELEMETRY, TELEMETRY_PACKET_BYTES};
use moza_rev::shift_light::{default_flash_color, default_normal_colors, ShiftLight, LED_COUNT};
use moza_rev::telemetry::engine::EngineSample;

fn datagram(rpm: u16, redline: u16) -> Vec<u8> {
    let mut data = vec![0; TELEMETRY_PACKET_BYTES];
    data[10] = PACKET_TYPE_TELEMETRY;
    data[HEADER_BYTES + 28..HEADER_BYTES + 30].copy_from_slice(&rpm.to_le_bytes());
    data[HEADER_BYTES + 30..HEADER_BYTES + 32].copy_from_slice(&redline.to_le_bytes());
    data
}

fn progressive(lit: usize) -> RatioReading {
    RatioReading { active: true, reaches_flash: false, holds_flash: false, lit }
}

fn flashing() -> RatioReading {
    RatioReading { active: true, reaches_flash: true, holds_flash: true, lit: 10 }
}

fn idle() -> RatioReading {
    RatioReading { active: false, reaches_flash: false, holds_flash: false, lit: 0 }
}

fn light() -> ShiftLight {
    ShiftLight::new(default_normal_colors(), default_flash_color(), 100, 0)
}

#[test]
fn startup_takes_over_the_wheel_with_normal_colours() {
    let light = light();
    assert_eq!(
        light.startup_commands(),
        vec![
            LedCommand::EnableRpmTelemetry,
            LedCommand::UploadColors(default_normal_colors()),
            LedCommand::SetMask { mask: 0, led_count: LED_COUNT },
        ]
    );
}

#[test]
fn samples_drive_the_leds_until_they_go_stale() {
    let mut light = light();
    assert_eq!(light.active_sample(0), None);
    light.on_datagram(&datagram(7_000, 9_000), 100);
    let sample = EngineSample { rpm: 7_000, redline_rpm: 9_000 };
    assert_eq!(light.active_sample(100), Some(sample));
    assert_eq!(light.active_sample(2_099), Some(sample));
    assert_eq!(light.active_sample(2_100), None);
    light.on_datagram(&datagram(7_000, 0), 2_000);
    assert_eq!(light.active_sample(2_099), Some(sample));
    light.on_datagram(&[1, 2, 3], 2_050);
    assert_eq!(light.active_sample(2_099), Some(sample));
}

#[test]
fn mask_is_sent_on_change_and_on_heartbeat_only() {
    let mut light = light();
    let first = light.tick(progressive(3), 10);
    assert_eq!(first.commands, vec![LedCommand::SetMask { mask: 0b111, led_count: 10 }]);
    assert_eq!(first.output.mask, 0b111);
    let same = light.tick(progressive(3), 20);
    assert!(same.commands.is_empty());
    let changed = light.tick(progressive(4), 30);
    assert_eq!(changed.commands, vec![LedCommand::SetMask { mask: 0b1111, led_count: 10 }]);
    assert!(light.tick(progressive(4), 279).commands.is_empty());
    let heartbeat = light.tick(progressive(4), 280);
    assert_eq!(heartbeat.commands, vec![LedCommand::SetMask { mask: 0b1111, led_count: 10 }]);
}

#[test]
fn flash_swaps_colour_tables_with_leds_dark() {
    let mut light = light();
    light.tick(progressive(9), 10);
    let enter = light.tick(flashing(), 20);
    assert!(enter.output.flash_changed && enter.output.flash_mode);
    assert_eq!(
        enter.commands,
        vec![
            LedCommand::SetMask { mask: 0, led_count: 10 },
            LedCommand::UploadColors(vec![[0, 0, 255]; 10]),
            LedCommand::SetMask { mask: 0x3FF, led_count: 10 },
        ]
    );
    let off_phase = light.tick(flashing(), 120);
    assert_eq!(off_phase.commands, vec![LedCommand::SetMask { mask: 0, led_count: 10 }]);
    let leave = light.tick(idle(), 130);
    assert_eq!(
        leave.commands,
        vec![
            LedCommand::SetMask { mask: 0, led_count: 10 },
            LedCommand::UploadColors(default_normal_colors()),
            LedCommand::SetMask { mask: 0, led_count: 10 },
        ]
    );
}

#[test]
fn blink_period_has_a_floor() {
    let mut light = ShiftLight::new(default_normal_colors(), [1, 2, 3], 5, 0);
    assert_eq!(light.tick(flashing(), 0).output.mask, 0x3FF);
    assert_eq!(light.tick(flashing(), 39).output.mask, 0x3FF);
    assert_eq!(light.tick(flashing(), 40).output.mask, 0);
}

#[test]
fn status_is_due_once_a_second() {
    let mut light = light();
    assert!(!light.tick(idle(), 999).report_status);
    assert!(light.tick(idle(), 1_000).report_status);
    assert!(!light.tick(idle(), 1_500).report_status);
    assert!(light.tick(idle(), 2_000).report_status);
}
