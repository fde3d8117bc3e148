use moza_rev::madness::{self, PACKET_TYPE_RACE, PACKET_TYPE_TELEMETRY, TELEMETRY_PACKET_BYTES};
use moza_rev::telemetry::engine::EngineSample;
use moza_rev::telemetry::pc2::sample_from_datagram;
use moza_rev::listeners::madness::{parse, ASSUMED_IDLE};
use moza_rev::listeners::EngineState;

const RPM_OFFSET: usize = madness::HEADER_BYTES + 28;
const REDLINE_OFFSET: usize = madness::HEADER_BYTES + 30;

fn telemetry_datagram(rpm: u16, redline_rpm: u16) -> Vec<u8> {
    let mut data = vec![0; TELEMETRY_PACKET_BYTES];
    data[10] = PACKET_TYPE_TELEMETRY;
    data[RPM_OFFSET..RPM_OFFSET + 2].copy_from_slice(&rpm.to_le_bytes());
    data[REDLINE_OFFSET..REDLINE_OFFSET + 2].copy_from_slice(&redline_rpm.to_le_bytes());
    data
}

#[test]
fn converts_pc2_telemetry_to_engine_sample() {
    let data = telemetry_datagram(7_500, 10_000);

    assert_eq!(
        sample_from_datagram(&data),
        Some(EngineSample {
            rpm: 7_500,
            redline_rpm: 10_000,
        })
    );
}

#[test]
fn ignores_non_telemetry_packets() {
    let mut data = telemetry_datagram(7_500, 10_000);
    data[10] = PACKET_TYPE_RACE;

    assert_eq!(sample_from_datagram(&data), None);
}

#[test]
fn ignores_short_datagrams() {
    assert_eq!(sample_from_datagram(&[0; 32]), None);
}

#[test]
fn ignores_samples_without_redline() {
    let data = telemetry_datagram(7_500, 0);

    assert_eq!(sample_from_datagram(&data), None);
}

#[test]
fn decodes_full_range_engine_speeds() {
    let data = telemetry_datagram(u16::MAX, 0x1234);
    assert_eq!(
        sample_from_datagram(&data),
        Some(EngineSample {
            rpm: 65_535,
            redline_rpm: 0x1234,
        })
    );
}

#[test]
fn accepts_longer_datagrams_and_rejects_one_byte_short() {
    let mut data = telemetry_datagram(3_000, 8_000);
    data.push(0xAA);
    assert_eq!(
        sample_from_datagram(&data),
        Some(EngineSample { rpm: 3_000, redline_rpm: 8_000 })
    );
    let data = telemetry_datagram(3_000, 8_000);
    assert_eq!(sample_from_datagram(&data[..TELEMETRY_PACKET_BYTES - 1]), None);
}

#[test]
fn packet_decoder_reads_little_endian_fields() {
    let data = telemetry_datagram(0x0102, 0x0304);
    let packet = madness::TelemetryPacket::from_bytes(&data).unwrap();
    assert_eq!(packet.data.rpm(), 0x0102);
    assert_eq!(packet.data.redline_rpm(), 0x0304);
    let packet = madness::TelemetryPacket::from_bytes(&telemetry_datagram(5_000, 0)).unwrap();
    assert_eq!(packet.data.redline_rpm(), 0);
}

#[test]
fn listener_parse_adds_assumed_idle() {
    let data = telemetry_datagram(6_200, 9_000);
    assert_eq!(
        parse(&data),
        Some(EngineState { rpm: 6_200, rpm_redline: 9_000, rpm_idle: 800 })
    );
    assert_eq!(ASSUMED_IDLE, 800);
    assert_eq!(parse(&telemetry_datagram(6_200, 0)), None);
    assert_eq!(parse(&[0u8; 12]), None);
}
