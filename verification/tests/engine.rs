use moza_rev::telemetry::engine::EngineSample;

fn rpm_ratio(sample: &EngineSample) -> Option<f32> {
    sample.rpm_ratio_terms().map(|(rpm, redline)| rpm as f32 / redline as f32)
}

#[test]
fn rpm_ratio_normalizes_against_redline() {
    let sample = EngineSample {
        rpm: 7_500,
        redline_rpm: 10_000,
    };

    assert_eq!(rpm_ratio(&sample), Some(0.75));
    assert_eq!(sample.rpm_ratio_terms(), Some((7_500, 10_000)));
}

#[test]
fn rpm_ratio_clamps_negative_rpm_to_zero() {
    let sample = EngineSample {
        rpm: -1,
        redline_rpm: 10_000,
    };

    assert_eq!(rpm_ratio(&sample), Some(0.0));
    assert_eq!(sample.rpm_ratio_terms(), Some((0, 10_000)));
}

#[test]
fn rpm_ratio_rejects_missing_redline() {
    let sample = EngineSample {
        rpm: 5_000,
        redline_rpm: 0,
    };

    assert_eq!(rpm_ratio(&sample), None);
    assert_eq!(sample.rpm_ratio_terms(), None);
}

#[test]
fn rpm_ratio_rejects_negative_redline() {
    let sample = EngineSample { rpm: 5_000, redline_rpm: -3 };
    assert_eq!(sample.rpm_ratio_terms(), None);
}
