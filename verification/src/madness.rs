//! The Madness-engine (Project CARS 2 / Automobilista 2) UDP telemetry format,
//! as far as the shift light reads it.
use vstd::prelude::*;

verus! {

/// The UDP port the game broadcasts telemetry to.
pub const DEFAULT_PORT: u16 = 5606;

/// Bytes of the header every packet starts with.
pub const HEADER_BYTES: usize = 12;

/// Offset of the packet-type byte in the header.
pub const PACKET_TYPE_OFFSET: usize = 10;

/// Packet type of the car-physics (telemetry) packet.
pub const PACKET_TYPE_TELEMETRY: u8 = 0;

/// Packet type of the race-definition packet.
pub const PACKET_TYPE_RACE: u8 = 1;

/// Size of a telemetry packet.
pub const TELEMETRY_PACKET_BYTES: usize = 559;

/// Offset of the engine speed (little-endian `u16`, rpm).
pub const RPM_OFFSET: usize = HEADER_BYTES + 28;

/// Offset of the maximum engine speed (little-endian `u16`, rpm).
pub const MAX_RPM_OFFSET: usize = HEADER_BYTES + 30;

/// The little-endian `u16` stored at `at` and `at + 1`.
pub open spec fn u16_le_at(bytes: Seq<u8>, at: int) -> u16 {
    (bytes[at] + 256 * bytes[at + 1]) as u16
}

/// The two little-endian bytes of `v`.
pub open spec fn u16_le_bytes(v: u16) -> Seq<u8> {
    seq![(v % 256) as u8, (v / 256) as u8]
}

/// Whether a datagram is a complete telemetry packet.
pub open spec fn is_telemetry_datagram(bytes: Seq<u8>) -> bool {
    bytes.len() >= TELEMETRY_PACKET_BYTES && bytes[PACKET_TYPE_OFFSET as int] == PACKET_TYPE_TELEMETRY
}

/// The fields of a telemetry packet that the shift light uses.
#[derive(Debug, Clone, Copy, PartialEq, Eq, Structural)]
pub struct TelemetryData {
    pub rpm: u16,
    pub max_rpm: u16,
}

impl TelemetryData {
    /// Engine speed in rpm.
    pub fn rpm(&self) -> (r: i32)
        ensures
            r == self.rpm as int,
    {
        self.rpm as i32
    }

    /// The rev limit in rpm, as the game reports it.
    pub fn redline_rpm(&self) -> (r: i32)
        ensures
            r == self.max_rpm as int,
    {
        self.max_rpm as i32
    }
}

/// A decoded telemetry packet.
#[derive(Debug, Clone, Copy, PartialEq, Eq, Structural)]
pub struct TelemetryPacket {
    pub data: TelemetryData,
}

/// The telemetry a datagram carries, if it is a telemetry packet.
pub open spec fn spec_telemetry(bytes: Seq<u8>) -> Option<TelemetryData> {
    if is_telemetry_datagram(bytes) {
        Some(
            TelemetryData {
                rpm: u16_le_at(bytes, RPM_OFFSET as int),
                max_rpm: u16_le_at(bytes, MAX_RPM_OFFSET as int),
            },
        )
    } else {
        None
    }
}

fn read_u16_le(bytes: &[u8], at: usize) -> (v: u16)
    requires
        at + 1 < bytes@.len(),
    ensures
        v == u16_le_at(bytes@, at as int),
{
    let lo: u16 = bytes[at] as u16;
    let hi: u16 = bytes[at + 1] as u16;
    hi * 256 + lo
}

impl TelemetryPacket {
    /// Decode a datagram; `None` unless it is a complete telemetry packet.
    pub fn from_bytes(bytes: &[u8]) -> (packet: Option<TelemetryPacket>)
        ensures
            packet matches Some(p) ==> spec_telemetry(bytes@) == Some(p.data),
            packet is None <==> spec_telemetry(bytes@) is None,
    {
        if bytes.len() < TELEMETRY_PACKET_BYTES {
            return None;
        }
        if bytes[PACKET_TYPE_OFFSET] != PACKET_TYPE_TELEMETRY {
            return None;
        }
        let rpm = read_u16_le(bytes, RPM_OFFSET);
        let max_rpm = read_u16_le(bytes, MAX_RPM_OFFSET);
        Some(TelemetryPacket { data: TelemetryData { rpm, max_rpm } })
    }
}

/// Reading back the little-endian bytes of a value gives the value.
pub proof fn law_u16_le_roundtrip(bytes: Seq<u8>, at: int, v: u16)
    requires
        0 <= at,
        at + 1 < bytes.len(),
        bytes.subrange(at, at + 2) == u16_le_bytes(v),
    ensures
        u16_le_at(bytes, at) == v,
{
    assert(bytes[at] == bytes.subrange(at, at + 2)[0]);
    assert(bytes[at + 1] == bytes.subrange(at, at + 2)[1]);
}

} // verus!
