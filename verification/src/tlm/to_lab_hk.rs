//! TO_LAB housekeeping telemetry — small payload after the standard cFE TLM prefix.
//!
//! Classification uses the on-wire MsgId in the cFE telemetry secondary header at bytes 6–7
//! (after the 6-byte CCSDS primary header). In EDS deployments, the topic→MsgId mapping is runtime
//! (`CFE_SB_LocalTlmTopicIdToMsgId`), so the MsgId may differ from the simple `0x0800 | topic` mapping.

use vstd::prelude::*;

use crate::tlm::cfe_primary::{spec_primary_of, CcsdsPrimaryHeader};
use crate::tlm::es_hk::{lemma_le_u16_bits, le_u16, CFE_TLM_HEADER_PREFIX_BYTES};

verus! {

/// Verified on-wire `TO_LAB_HK_TLM` MsgId (little-endian u16 at bytes 6–7) for the sample mission E2E capture.
pub const TO_LAB_HK_TLM_MSGID_LE_EDS: u16 = 0x0F00;

/// Legacy/non-EDS `TO_LAB_HK_TLM` MsgId value for the default cpu1 mission (`0x0800 | 0x80`).
pub const TO_LAB_HK_TLM_MSGID_LE_LEGACY: u16 = 0x0880;

/// Verified CCSDS APID for the 20-byte TO_LAB HK datagram capture.
pub const TO_LAB_HK_APID: u16 = 0x080;

/// Housekeeping payload only (after the 12-byte CCSDS + cFE telemetry secondary header).
pub const TO_LAB_HK_PAYLOAD_BYTES: usize = 4;

/// Bytes before the HK payload in the verified 20-byte capture:
/// 6-byte CCSDS primary + 2-byte MsgId + 8-byte cFE time.
pub const TO_LAB_HK_HEADER_PREFIX_BYTES_CAPTURE_V1: usize = 16;

/// Parsed TO_LAB HK fields used in the UI.
#[derive(Debug, Clone, PartialEq, Eq)]
pub struct ToLabHkV1 {
    pub command_counter: u8,
    pub command_error_counter: u8,
}

/// `d` passes every TO_LAB HK check: secondary header, at least 16 bytes, the announced
/// length, APID 0x080 and one of the two TO_LAB HK MsgIds.
pub open spec fn to_lab_hk_checks_pass(d: Seq<u8>) -> bool {
    let ph = spec_primary_of(d);
    &&& d.len() >= 6
    &&& ph.secondary_header_flag
    &&& d.len() >= CFE_TLM_HEADER_PREFIX_BYTES + TO_LAB_HK_PAYLOAD_BYTES
    &&& d.len() == ph.spec_total_bytes()
    &&& ph.apid == TO_LAB_HK_APID
    &&& (le_u16(d, 6) == TO_LAB_HK_TLM_MSGID_LE_EDS || le_u16(d, 6) == TO_LAB_HK_TLM_MSGID_LE_LEGACY)
}

/// A datagram that passes the checks but is too short (16 or 17 bytes) to hold the two
/// counters at bytes 16 and 17: reading them would run past its end.
pub open spec fn to_lab_hk_overruns(d: Seq<u8>) -> bool {
    to_lab_hk_checks_pass(d) && d.len() < 18
}

/// TO_LAB HK decoding of `d`.
pub open spec fn spec_to_lab_hk(d: Seq<u8>) -> Option<ToLabHkV1> {
    if to_lab_hk_checks_pass(d) {
        Some(ToLabHkV1 { command_counter: d[16], command_error_counter: d[17] })
    } else {
        None
    }
}

/// Parses a full UDP datagram when it is **not** ES HK and carries `TO_LAB_HK_TLM` MsgId.
pub fn parse_to_lab_hk_datagram(data: &[u8]) -> (r: Option<ToLabHkV1>)
    requires
        !to_lab_hk_overruns(data@),
    ensures
        r == spec_to_lab_hk(data@),
{
    let ph = match CcsdsPrimaryHeader::parse(data) {
        Some(h) => h,
        None => {
            return None;
        },
    };
    if !ph.secondary_header_flag {
        return None;
    }
    if data.len() < CFE_TLM_HEADER_PREFIX_BYTES + TO_LAB_HK_PAYLOAD_BYTES {
        return None;
    }
    if data.len() != ph.total_bytes_including_primary() {
        return None;
    }
    if ph.apid != TO_LAB_HK_APID {
        return None;
    }
    proof {
        lemma_le_u16_bits(data[6], data[7]);
    }
    let msg_id: u16 = (data[6] as u16) | ((data[7] as u16) << 8u16);
    if msg_id != TO_LAB_HK_TLM_MSGID_LE_EDS && msg_id != TO_LAB_HK_TLM_MSGID_LE_LEGACY {
        return None;
    }
    let off = TO_LAB_HK_HEADER_PREFIX_BYTES_CAPTURE_V1;
    Some(ToLabHkV1 { command_counter: data[off], command_error_counter: data[off + 1] })
}

/// Whether `data` would make [`parse_to_lab_hk_datagram`] read past its end.
pub fn to_lab_hk_datagram_overruns(data: &[u8]) -> (b: bool)
    ensures
        b == to_lab_hk_overruns(data@),
{
    if data.len() < 6 || data.len() >= 18 {
        return false;
    }
    let ph = CcsdsPrimaryHeader::parse(data).unwrap();
    proof {
        lemma_le_u16_bits(data[6], data[7]);
    }
    if data.len() < CFE_TLM_HEADER_PREFIX_BYTES + TO_LAB_HK_PAYLOAD_BYTES {
        return false;
    }
    let msg_id: u16 = (data[6] as u16) | ((data[7] as u16) << 8u16);
    ph.secondary_header_flag && data.len() == ph.total_bytes_including_primary() && ph.apid
        == TO_LAB_HK_APID && (msg_id == TO_LAB_HK_TLM_MSGID_LE_EDS || msg_id
        == TO_LAB_HK_TLM_MSGID_LE_LEGACY)
}

/// The TO_LAB HK payload is read right after the 16-byte prefix (primary header, MsgId, time):
/// its first byte is the command counter and its second the command error counter.
pub proof fn lemma_to_lab_hk_counters(prefix: Seq<u8>, cmd: u8, err: u8, rest: Seq<u8>)
    requires
        prefix.len() == TO_LAB_HK_HEADER_PREFIX_BYTES_CAPTURE_V1,
        to_lab_hk_checks_pass(prefix + seq![cmd, err] + rest),
    ensures
        spec_to_lab_hk(prefix + seq![cmd, err] + rest) == Some(
            ToLabHkV1 { command_counter: cmd, command_error_counter: err },
        ),
{
    let d = prefix + seq![cmd, err] + rest;
    assert(d[16] == cmd && d[17] == err);
}

} // verus!
