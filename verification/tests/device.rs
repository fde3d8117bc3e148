use moza_rev::device::moza_led::{LedCommand, MozaLedDevice};

#[test]
fn initialize_enables_telemetry_uploads_colours_and_darkens() {
    let device = MozaLedDevice::open(10);
    let colors = [[0, 255, 0], [255, 0, 0]];
    assert_eq!(
        device.initialize(&colors),
        vec![
            LedCommand::EnableRpmTelemetry,
            LedCommand::UploadColors(vec![[0, 255, 0], [255, 0, 0]]),
            LedCommand::SetMask { mask: 0, led_count: 10 },
        ]
    );
}

#[test]
fn masks_use_the_configured_led_count() {
    let device = MozaLedDevice::open(7);
    assert_eq!(device.set_mask(0b101), LedCommand::SetMask { mask: 0b101, led_count: 7 });
    assert_eq!(device.set_colors(&[]), LedCommand::UploadColors(vec![]));
}
