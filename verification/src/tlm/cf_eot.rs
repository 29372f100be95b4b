//! CF end-of-transaction telemetry (`CF_EotPacket_Payload_t`) for lab gating (Linux LE).

use vstd::prelude::*;

use crate::packet::slice_range;
use crate::text::{c_str_len, first_nul, lossy_text, string_from_utf8_lossy};
use crate::ai_app::table_image::le32_bytes;
use crate::tlm::es_hk::{le_u32, lemma_le_u32_at, read_u32_le};

verus! {

/// Bytes before payload: 6-byte CCSDS primary + 2-byte MsgId + 8-byte time.
pub const CFE_TLM_HEADER_PREFIX_BYTES: usize = 16;

/// CF filename max length in this mission (CF_FILENAME_MAX_LEN == CFE_MISSION_MAX_PATH_LEN == 64).
pub const CF_FILENAME_MAX_LEN: usize = 64;

/// Size of `CF_EotPacket_Payload_t` in this mission build.
pub const CF_EOT_PAYLOAD_BYTES: usize = 164;

#[derive(Debug, Clone, PartialEq, Eq)]
pub struct CfEotV1 {
    pub seq_num: u32,
    pub channel: u32,
    pub direction: u32,
    pub state: u32,
    pub txn_stat: u32,
    pub src_eid: u32,
    pub peer_eid: u32,
    pub fsize: u32,
    pub crc_result: u32,
    pub src_filename: String,
    pub dst_filename: String,
}

/// Text of a NUL-terminated field: bytes before the first NUL, decoded lossily as UTF-8.
pub open spec fn c_field_text(b: Seq<u8>) -> Seq<char> {
    lossy_text(b.take(first_nul(b) as int))
}

/// Reads a NUL-terminated field (see [`c_field_text`]).
pub fn read_cstr(b: &[u8]) -> (s: String)
    ensures
        s@ == c_field_text(b@),
{
    let end = c_str_len(b);
    assert(b@.subrange(0, end as int) =~= b@.take(end as int));
    string_from_utf8_lossy(slice_range(b, 0, end))
}

/// `e` holds the EOT payload fields of `b`.
pub open spec fn cf_eot_matches(e: CfEotV1, b: Seq<u8>) -> bool {
    &&& e.seq_num == le_u32(b, 0)
    &&& e.channel == le_u32(b, 4)
    &&& e.direction == le_u32(b, 8)
    &&& e.state == le_u32(b, 12)
    &&& e.txn_stat == le_u32(b, 16)
    &&& e.src_eid == le_u32(b, 20)
    &&& e.peer_eid == le_u32(b, 24)
    &&& e.fsize == le_u32(b, 28)
    &&& e.crc_result == le_u32(b, 32)
    &&& e.src_filename@ == c_field_text(b.subrange(36, 100))
    &&& e.dst_filename@ == c_field_text(b.subrange(100, 164))
}

/// Parses a `CF_EotPacket_Payload_t`.
pub fn parse_cf_eot_payload(b: &[u8]) -> (r: Option<CfEotV1>)
    ensures
        b@.len() < CF_EOT_PAYLOAD_BYTES ==> r is None,
        b@.len() >= CF_EOT_PAYLOAD_BYTES ==> (r matches Some(e) && cf_eot_matches(e, b@)),
{
    if b.len() < CF_EOT_PAYLOAD_BYTES {
        return None;
    }
    let seq_num = read_u32_le(b, 0).unwrap();
    let channel = read_u32_le(b, 4).unwrap();
    let direction = read_u32_le(b, 8).unwrap();
    let state = read_u32_le(b, 12).unwrap();
    let txn_stat = read_u32_le(b, 16).unwrap();
    let src_eid = read_u32_le(b, 20).unwrap();
    let peer_eid = read_u32_le(b, 24).unwrap();
    let fsize = read_u32_le(b, 28).unwrap();
    let crc_result = read_u32_le(b, 32).unwrap();
    let src_filename = read_cstr(slice_range(b, 36, 36 + CF_FILENAME_MAX_LEN));
    let dst_filename = read_cstr(slice_range(b, 36 + CF_FILENAME_MAX_LEN, 36 + 2 * CF_FILENAME_MAX_LEN));
    Some(
        CfEotV1 {
            seq_num,
            channel,
            direction,
            state,
            txn_stat,
            src_eid,
            peer_eid,
            fsize,
            crc_result,
            src_filename,
            dst_filename,
        },
    )
}

/// Full UDP datagram: 16-byte headers + [`CF_EOT_PAYLOAD_BYTES`] payload.
pub fn parse_cf_eot_datagram(data: &[u8]) -> (r: Option<CfEotV1>)
    ensures
        data@.len() < CFE_TLM_HEADER_PREFIX_BYTES + CF_EOT_PAYLOAD_BYTES ==> r is None,
        data@.len() >= CFE_TLM_HEADER_PREFIX_BYTES + CF_EOT_PAYLOAD_BYTES ==> (r matches Some(e)
            && cf_eot_matches(e, data@.skip(CFE_TLM_HEADER_PREFIX_BYTES as int))),
{
    if data.len() < CFE_TLM_HEADER_PREFIX_BYTES + CF_EOT_PAYLOAD_BYTES {
        return None;
    }
    let payload = slice_range(data, CFE_TLM_HEADER_PREFIX_BYTES, data.len());
    assert(payload@ =~= data@.skip(CFE_TLM_HEADER_PREFIX_BYTES as int));
    parse_cf_eot_payload(payload)
}

/// `CF_EotPacket_Payload_t` holding the numeric fields of `e` in struct order (seq_num,
/// channel, direction, state, txn_stat, src_eid, peer_eid, fsize, crc_result), followed by the
/// two 64-byte file name fields `src` and `dst`.
pub open spec fn cf_eot_payload_bytes(e: CfEotV1, src: Seq<u8>, dst: Seq<u8>) -> Seq<u8> {
    le32_bytes(e.seq_num) + le32_bytes(e.channel) + le32_bytes(e.direction) + le32_bytes(e.state)
        + le32_bytes(e.txn_stat) + le32_bytes(e.src_eid) + le32_bytes(e.peer_eid) + le32_bytes(
        e.fsize,
    ) + le32_bytes(e.crc_result) + src + dst
}

/// Round trip against the C struct: decoding the `CF_EotPacket_Payload_t` bytes of any EOT
/// record gives its numeric fields back, and each file name is the text of its field.
#[verifier::rlimit(40)]
pub proof fn lemma_cf_eot_round_trip(e: CfEotV1, src: Seq<u8>, dst: Seq<u8>, decoded: CfEotV1)
    requires
        src.len() == CF_FILENAME_MAX_LEN,
        dst.len() == CF_FILENAME_MAX_LEN,
        cf_eot_matches(decoded, cf_eot_payload_bytes(e, src, dst)),
    ensures
        decoded.seq_num == e.seq_num,
        decoded.channel == e.channel,
        decoded.direction == e.direction,
        decoded.state == e.state,
        decoded.txn_stat == e.txn_stat,
        decoded.src_eid == e.src_eid,
        decoded.peer_eid == e.peer_eid,
        decoded.fsize == e.fsize,
        decoded.crc_result == e.crc_result,
        decoded.src_filename@ == c_field_text(src),
        decoded.dst_filename@ == c_field_text(dst),
{
    let b = cf_eot_payload_bytes(e, src, dst);
    assert(b.len() == 164);
    assert(b.subrange(0, 4) =~= le32_bytes(e.seq_num));
    assert(b.subrange(4, 8) =~= le32_bytes(e.channel));
    assert(b.subrange(8, 12) =~= le32_bytes(e.direction));
    assert(b.subrange(12, 16) =~= le32_bytes(e.state));
    assert(b.subrange(16, 20) =~= le32_bytes(e.txn_stat));
    assert(b.subrange(20, 24) =~= le32_bytes(e.src_eid));
    assert(b.subrange(24, 28) =~= le32_bytes(e.peer_eid));
    assert(b.subrange(28, 32) =~= le32_bytes(e.fsize));
    assert(b.subrange(32, 36) =~= le32_bytes(e.crc_result));
    assert(b.subrange(36, 100) =~= src);
    assert(b.subrange(100, 164) =~= dst);
    lemma_le_u32_at(b, 0, e.seq_num);
    lemma_le_u32_at(b, 4, e.channel);
    lemma_le_u32_at(b, 8, e.direction);
    lemma_le_u32_at(b, 12, e.state);
    lemma_le_u32_at(b, 16, e.txn_stat);
    lemma_le_u32_at(b, 20, e.src_eid);
    lemma_le_u32_at(b, 24, e.peer_eid);
    lemma_le_u32_at(b, 28, e.fsize);
    lemma_le_u32_at(b, 32, e.crc_result);
}

} // verus!
