use vstd::prelude::*;
use crate::madness::{
    self, TelemetryPacket, spec_telemetry, u16_le_bytes, law_u16_le_roundtrip, RPM_OFFSET,
    MAX_RPM_OFFSET, PACKET_TYPE_OFFSET, PACKET_TYPE_TELEMETRY, TELEMETRY_PACKET_BYTES,
};
use super::engine::EngineSample;

verus! {

/// The UDP port Project CARS 2 / Automobilista 2 telemetry arrives on.
pub const DEFAULT_PORT: u16 = madness::DEFAULT_PORT;

/// The engine sample a datagram carries: a telemetry packet with a positive rev limit.
pub open spec fn spec_sample_from_datagram(data: Seq<u8>) -> Option<EngineSample> {
    match spec_telemetry(data) {
        Some(t) => if t.max_rpm > 0 {
            Some(EngineSample { rpm: t.rpm as i32, redline_rpm: t.max_rpm as i32 })
        } else {
            None
        },
        None => None,
    }
}

/// Decode a datagram into an engine sample; `None` for other packets, short
/// datagrams and samples without a rev limit.
pub fn sample_from_datagram(data: &[u8]) -> (sample: Option<EngineSample>)
    ensures
        sample == spec_sample_from_datagram(data@),
{
    let packet = match TelemetryPacket::from_bytes(data) {
        Some(p) => p,
        None => return None,
    };
    let redline_rpm = packet.data.redline_rpm();

    if redline_rpm <= 0 {
        return None;
    }

    Some(EngineSample { rpm: packet.data.rpm(), redline_rpm })
}

/// A telemetry datagram that carries engine speed `rpm` and rev limit `redline`
/// decodes to exactly that sample when the rev limit is positive, and to nothing
/// otherwise.
pub proof fn law_telemetry_datagram_decodes(data: Seq<u8>, rpm: u16, redline: u16)
    requires
        data.len() >= TELEMETRY_PACKET_BYTES,
        data[PACKET_TYPE_OFFSET as int] == PACKET_TYPE_TELEMETRY,
        data.subrange(RPM_OFFSET as int, RPM_OFFSET + 2) == u16_le_bytes(rpm),
        data.subrange(MAX_RPM_OFFSET as int, MAX_RPM_OFFSET + 2) == u16_le_bytes(redline),
    ensures
        spec_sample_from_datagram(data) == (if redline > 0 {
            Some(EngineSample { rpm: rpm as i32, redline_rpm: redline as i32 })
        } else {
            None
        }),
{
    law_u16_le_roundtrip(data, RPM_OFFSET as int, rpm);
    law_u16_le_roundtrip(data, MAX_RPM_OFFSET as int, redline);
}

/// A packet of any other type never yields a sample.
pub proof fn law_other_packet_types_yield_nothing(data: Seq<u8>)
    requires
        data.len() > PACKET_TYPE_OFFSET,
        data[PACKET_TYPE_OFFSET as int] != PACKET_TYPE_TELEMETRY,
    ensures
        spec_sample_from_datagram(data) is None,
{
}

/// A datagram shorter than a telemetry packet never yields a sample.
pub proof fn law_short_datagram_yields_nothing(data: Seq<u8>)
    requires
        data.len() < TELEMETRY_PACKET_BYTES,
    ensures
        spec_sample_from_datagram(data) is None,
{
}

} // verus!
