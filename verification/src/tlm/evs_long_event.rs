//! EVS long event telemetry parsing (cFE EVS LONG_EVENT_MSG).
//!
//! Layout is derived from `cfe_evs.xml` EDS and sample mission config:
//! - ApiName length: 20 (`CFE_MISSION_MAX_API_LEN`)
//! - Event message length: 122 (`CFE_MISSION_EVS_MAX_MESSAGE_LENGTH`)
//! - Telemetry prefix: 6-byte CCSDS primary + 2-byte MsgId + 8-byte time = 16 bytes

use vstd::prelude::*;

use crate::packet::slice_range;
use crate::text::{
    c_str_len, first_nul, lossy_text, string_from_utf8_lossy, trim_end_whitespace, trim_end_ws,
};
use crate::tlm::cfe_primary::{spec_primary_of, CcsdsPrimaryHeader};
use crate::ai_app::table_image::le32_bytes;
use crate::tlm::es_hk::{
    le16_bytes, le_u16, le_u32, lemma_le_u16_at, lemma_le_u16_bits, lemma_le_u32_at, read_u32_le,
};

verus! {

pub const EVS_LONG_EVENT_APID_LEGACY: u16 = 0x009;
pub const EVS_LONG_EVENT_MSGID_LE_LEGACY: u16 = 0x0809;

pub const API_NAME_BYTES: usize = 20;
pub const EVENT_MESSAGE_BYTES: usize = 122;
pub const CFE_TLM_HEADER_PREFIX_BYTES: usize = 16;

#[derive(Debug, Clone, PartialEq, Eq)]
pub struct EvsPacketIdV1 {
    pub app_name: String,
    pub event_id: u16,
    pub event_type: u16,
    pub spacecraft_id: u32,
    pub processor_id: u32,
}

#[derive(Debug, Clone, PartialEq, Eq)]
pub struct EvsLongEventV1 {
    pub packet_id: EvsPacketIdV1,
    pub message: String,
}

/// Text of a fixed C string field: bytes up to the first NUL, decoded lossily as UTF-8,
/// trailing whitespace removed.
pub open spec fn c_string_text(b: Seq<u8>) -> Seq<char> {
    trim_end_ws(lossy_text(b.take(first_nul(b) as int)))
}

/// The bytes before the first NUL are non-empty printable ASCII (0x20..=0x7E).
pub open spec fn printable_c_string(b: Seq<u8>) -> bool {
    &&& first_nul(b) > 0
    &&& forall|i: int| 0 <= i < first_nul(b) ==> 0x20 <= #[trigger] b[i] <= 0x7E
}

/// Decodes a fixed C string field (see [`c_string_text`]).
pub fn decode_c_string(bytes: &[u8]) -> (s: String)
    ensures
        s@ == c_string_text(bytes@),
{
    let end = c_str_len(bytes);
    let text = string_from_utf8_lossy(slice_range(bytes, 0, end));
    assert(bytes@.subrange(0, end as int) =~= bytes@.take(end as int));
    trim_end_whitespace(text.as_str())
}

/// Whether the C string field is non-empty printable ASCII.
pub fn looks_like_printable_ascii(bytes: &[u8]) -> (b: bool)
    ensures
        b == printable_c_string(bytes@),
{
    let end = c_str_len(bytes);
    if end == 0 {
        return false;
    }
    let mut i: usize = 0;
    while i < end
        invariant
            end == first_nul(bytes@),
            end <= bytes@.len(),
            i <= end,
            forall|j: int| 0 <= j < i ==> 0x20 <= #[trigger] bytes@[j] <= 0x7E,
        decreases end - i,
    {
        if !(0x20 <= bytes[i] && bytes[i] <= 0x7E) {
            return false;
        }
        i = i + 1;
    }
    true
}

/// Total bytes of a long event datagram: prefix, ApiName, ids and message.
pub open spec fn evs_needed_bytes() -> nat {
    (CFE_TLM_HEADER_PREFIX_BYTES + API_NAME_BYTES + 2 + 2 + 4 + 4 + EVENT_MESSAGE_BYTES) as nat
}

/// APID 9 with the legacy LE MsgId 0x0809.
pub open spec fn evs_legacy_match(d: Seq<u8>) -> bool {
    spec_primary_of(d).apid == EVS_LONG_EVENT_APID_LEGACY && le_u16(d, 6)
        == EVS_LONG_EVENT_MSGID_LE_LEGACY
}

/// `d` is accepted as an EVS long event: secondary header, the announced length, at least
/// 170 bytes, and either the legacy APID/MsgId or printable ApiName and message fields.
pub open spec fn evs_accepts(d: Seq<u8>) -> bool {
    let ph = spec_primary_of(d);
    &&& d.len() >= 6
    &&& ph.secondary_header_flag
    &&& d.len() == ph.spec_total_bytes()
    &&& d.len() >= evs_needed_bytes()
    &&& (evs_legacy_match(d) || (printable_c_string(d.subrange(16, 36)) && printable_c_string(
        d.subrange(48, 170),
    )))
}

/// `ev` holds the long event fields of `d`.
pub open spec fn evs_matches(ev: EvsLongEventV1, d: Seq<u8>) -> bool {
    &&& ev.packet_id.app_name@ == c_string_text(d.subrange(16, 36))
    &&& ev.packet_id.event_id == le_u16(d, 36)
    &&& ev.packet_id.event_type == le_u16(d, 38)
    &&& ev.packet_id.spacecraft_id == le_u32(d, 40)
    &&& ev.packet_id.processor_id == le_u32(d, 44)
    &&& ev.message@ == c_string_text(d.subrange(48, 170))
}

/// Parses a full UDP datagram when it carries an EVS LONG_EVENT_MSG payload.
pub fn parse_evs_long_event_datagram(data: &[u8]) -> (r: Option<EvsLongEventV1>)
    ensures
        evs_accepts(data@) ==> (r matches Some(ev) && evs_matches(ev, data@)),
        !evs_accepts(data@) ==> r is None,
{
    let ph = match CcsdsPrimaryHeader::parse(data) {
        Some(h) => h,
        None => {
            return None;
        },
    };
    if !ph.secondary_header_flag {
        return None;
    }
    if data.len() != ph.total_bytes_including_primary() {
        return None;
    }
    if data.len() < 8 {
        return None;
    }
    proof {
        lemma_le_u16_bits(data[6], data[7]);
    }
    let msg_id: u16 = (data[6] as u16) | ((data[7] as u16) << 8u16);
    let legacy_match = ph.apid == EVS_LONG_EVENT_APID_LEGACY && msg_id == EVS_LONG_EVENT_MSGID_LE_LEGACY;

    let need = CFE_TLM_HEADER_PREFIX_BYTES + API_NAME_BYTES + 2 + 2 + 4 + 4 + EVENT_MESSAGE_BYTES;
    if data.len() < need {
        return None;
    }
    let off = CFE_TLM_HEADER_PREFIX_BYTES;
    let app_name_raw = slice_range(data, off, off + API_NAME_BYTES);
    if !legacy_match && !looks_like_printable_ascii(app_name_raw) {
        return None;
    }
    let app_name = decode_c_string(app_name_raw);

    let mut i = off + API_NAME_BYTES;
    proof {
        lemma_le_u16_bits(data[36], data[37]);
        lemma_le_u16_bits(data[38], data[39]);
    }
    let event_id: u16 = (data[i] as u16) | ((data[i + 1] as u16) << 8u16);
    i = i + 2;
    let event_type: u16 = (data[i] as u16) | ((data[i + 1] as u16) << 8u16);
    i = i + 2;
    let spacecraft_id = read_u32_le(data, i).unwrap();
    i = i + 4;
    let processor_id = read_u32_le(data, i).unwrap();
    i = i + 4;

    let msg_raw = slice_range(data, i, i + EVENT_MESSAGE_BYTES);
    if !legacy_match && !looks_like_printable_ascii(msg_raw) {
        return None;
    }
    let message = decode_c_string(msg_raw);

    Some(
        EvsLongEventV1 {
            packet_id: EvsPacketIdV1 { app_name, event_id, event_type, spacecraft_id, processor_id },
            message,
        },
    )
}

/// The `CFE_EVS_LongEventTlm_Payload_t` bytes: the 20-byte ApiName field, EventID, EventType
/// (u16 LE), SpacecraftID, ProcessorID (u32 LE), then the 122-byte message field.
pub open spec fn evs_payload_bytes(
    app_name: Seq<u8>,
    event_id: u16,
    event_type: u16,
    spacecraft_id: u32,
    processor_id: u32,
    message: Seq<u8>,
) -> Seq<u8> {
    app_name + le16_bytes(event_id) + le16_bytes(event_type) + le32_bytes(spacecraft_id)
        + le32_bytes(processor_id) + message
}

/// Round trip against the C struct: decoding a long event datagram whose payload (after the
/// 16-byte telemetry prefix) is the `CFE_EVS_LongEventTlm_Payload_t` of some event gives that
/// event's ids back, and its app name and message are the texts of their fields.
#[verifier::rlimit(40)]
pub proof fn lemma_evs_round_trip(
    d: Seq<u8>,
    app_name: Seq<u8>,
    event_id: u16,
    event_type: u16,
    spacecraft_id: u32,
    processor_id: u32,
    message: Seq<u8>,
    ev: EvsLongEventV1,
)
    requires
        app_name.len() == API_NAME_BYTES,
        message.len() == EVENT_MESSAGE_BYTES,
        d.len() >= 170,
        d.subrange(16, 170) == evs_payload_bytes(
            app_name,
            event_id,
            event_type,
            spacecraft_id,
            processor_id,
            message,
        ),
        evs_matches(ev, d),
    ensures
        ev.packet_id.event_id == event_id,
        ev.packet_id.event_type == event_type,
        ev.packet_id.spacecraft_id == spacecraft_id,
        ev.packet_id.processor_id == processor_id,
        ev.packet_id.app_name@ == c_string_text(app_name),
        ev.message@ == c_string_text(message),
{
    let p = d.subrange(16, 170);
    assert(d.subrange(16, 36) =~= p.subrange(0, 20));
    assert(d.subrange(36, 38) =~= p.subrange(20, 22));
    assert(d.subrange(38, 40) =~= p.subrange(22, 24));
    assert(d.subrange(40, 44) =~= p.subrange(24, 28));
    assert(d.subrange(44, 48) =~= p.subrange(28, 32));
    assert(d.subrange(48, 170) =~= p.subrange(32, 154));
    assert(p.subrange(0, 20) =~= app_name);
    assert(p.subrange(20, 22) =~= le16_bytes(event_id));
    assert(p.subrange(22, 24) =~= le16_bytes(event_type));
    assert(p.subrange(24, 28) =~= le32_bytes(spacecraft_id));
    assert(p.subrange(28, 32) =~= le32_bytes(processor_id));
    assert(p.subrange(32, 154) =~= message);
    lemma_le_u16_at(d, 36, event_id);
    lemma_le_u16_at(d, 38, event_type);
    lemma_le_u32_at(d, 40, spacecraft_id);
    lemma_le_u32_at(d, 44, processor_id);
}

} // verus!
