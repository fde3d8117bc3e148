//! Automobilista 2 / Project CARS 2 (Madness-engine PC2 UDP) datagrams.
//!
//! AMS2 doesn't transmit an idle RPM, so a typical petrol idle stands in for it
//! so the LED math has a sensible floor.
use vstd::prelude::*;
use super::EngineState;
use crate::telemetry::pc2::{sample_from_datagram, spec_sample_from_datagram, law_telemetry_datagram_decodes};
use crate::telemetry::engine::EngineSample;
use crate::madness::{
    u16_le_bytes, MAX_RPM_OFFSET, PACKET_TYPE_OFFSET, PACKET_TYPE_TELEMETRY, RPM_OFFSET,
    TELEMETRY_PACKET_BYTES,
};

verus! {

/// AMS2 / PC2 don't transmit an idle RPM; a typical petrol-car value stands in.
/// The bar starts lighting slightly above it.
pub const ASSUMED_IDLE: i32 = 800;

/// The engine state a datagram carries, with the assumed idle speed.
pub open spec fn spec_parse(buf: Seq<u8>) -> Option<EngineState> {
    match spec_sample_from_datagram(buf) {
        Some(s) => Some(EngineState { rpm: s.rpm, rpm_redline: s.redline_rpm, rpm_idle: ASSUMED_IDLE }),
        None => None,
    }
}

/// Decode a datagram into an engine state; `None` when it carries no engine sample.
pub fn parse(buf: &[u8]) -> (state: Option<EngineState>)
    ensures
        state == spec_parse(buf@),
{
    let sample = match sample_from_datagram(buf) {
        Some(s) => s,
        None => return None,
    };
    Some(EngineState { rpm: sample.rpm, rpm_redline: sample.redline_rpm, rpm_idle: ASSUMED_IDLE })
}

/// A telemetry datagram carrying engine speed `rpm` and a positive rev limit
/// `redline` is reported with exactly that engine speed and rev limit, and the
/// assumed idle speed; without a rev limit it is not reported.
pub proof fn law_parse_reports_datagram_values(data: Seq<u8>, rpm: u16, redline: u16)
    requires
        data.len() >= TELEMETRY_PACKET_BYTES,
        data[PACKET_TYPE_OFFSET as int] == PACKET_TYPE_TELEMETRY,
        data.subrange(RPM_OFFSET as int, RPM_OFFSET + 2) == u16_le_bytes(rpm),
        data.subrange(MAX_RPM_OFFSET as int, MAX_RPM_OFFSET + 2) == u16_le_bytes(redline),
    ensures
        redline > 0 ==> spec_parse(data) == Some(
            EngineState { rpm: rpm as i32, rpm_redline: redline as i32, rpm_idle: 800 },
        ),
        redline == 0 ==> spec_parse(data) is None,
{
    law_telemetry_datagram_decodes(data, rpm, redline);
}

/// Whatever a datagram is reported as carries the decoded sample unchanged.
pub proof fn law_parse_passes_sample_through(data: Seq<u8>)
    ensures
        match spec_parse(data) {
            Some(e) => spec_sample_from_datagram(data) == Some(
                EngineSample { rpm: e.rpm, redline_rpm: e.rpm_redline },
            ) && e.rpm_idle == 800,
            None => spec_sample_from_datagram(data) is None,
        },
{
}

} // verus!
