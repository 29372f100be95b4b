//! `CFE_ES_HousekeepingTlm_Payload` for mission `CFE_MISSION_ES_PERF_MAX_IDS == 128` (Linux LE).

use vstd::prelude::*;

use crate::ai_app::table_image::{
    le32_bytes, le64_bytes, lemma_le32_read, lemma_le64_read, read_le32, read_le64, zeros,
};
use crate::packet::slice_range;

verus! {

/// Must match the sample mission default.
pub const CFE_MISSION_ES_PERF_MAX_IDS: usize = 128;

/// Size of the HK payload only (after telemetry secondary header).
pub const ES_HK_PAYLOAD_BYTES: usize = 168;

/// Bytes before HK payload: 6-byte CCSDS primary + 6-byte cFE telemetry secondary.
pub const CFE_TLM_HEADER_PREFIX_BYTES: usize = 12;

/// Little-endian 16-bit value at byte `o` of `b`.
pub open spec fn le_u16(b: Seq<u8>, o: int) -> u16 {
    (b[o] as int + b[o + 1] as int * 256) as u16
}

/// Little-endian 32-bit value at byte `o` of `b`.
pub open spec fn le_u32(b: Seq<u8>, o: int) -> u32 {
    (b[o] as int + b[o + 1] as int * 0x100 + b[o + 2] as int * 0x10000 + b[o + 3] as int
        * 0x1000000) as u32
}

/// Little-endian 64-bit value at byte `o` of `b`.
pub open spec fn le_u64(b: Seq<u8>, o: int) -> u64 {
    (le_u32(b, o) as int + le_u32(b, o + 4) as int * 0x1_0000_0000) as u64
}

/// Little-endian `u32` at `o`, if four bytes are there.
pub fn read_u32_le(b: &[u8], o: usize) -> (r: Option<u32>)
    ensures
        o + 4 <= b@.len() ==> r == Some(le_u32(b@, o as int)),
        o + 4 > b@.len() ==> r is None,
{
    if o > b.len() || b.len() - o < 4 {
        return None;
    }
    let (b0, b1, b2, b3) = (b[o], b[o + 1], b[o + 2], b[o + 3]);
    proof {
        assert((b0 as u32) | ((b1 as u32) << 8u32) | ((b2 as u32) << 16u32) | ((b3 as u32) << 24u32)
            == b0 as u32 + (b1 as u32) * 0x100 + (b2 as u32) * 0x10000 + (b3 as u32) * 0x1000000)
            by (bit_vector);
    }
    Some((b0 as u32) | ((b1 as u32) << 8u32) | ((b2 as u32) << 16u32) | ((b3 as u32) << 24u32))
}

/// Little-endian `u64` at `o`, if eight bytes are there.
pub fn read_u64_le(b: &[u8], o: usize) -> (r: Option<u64>)
    ensures
        o + 8 <= b@.len() ==> r == Some(le_u64(b@, o as int)),
        o + 8 > b@.len() ==> r is None,
{
    if o > b.len() || b.len() - o < 8 {
        return None;
    }
    let lo = read_u32_le(b, o).unwrap();
    let hi = read_u32_le(b, o + 4).unwrap();
    proof {
        assert((lo as u64) | ((hi as u64) << 32u64) == lo as u64 + (hi as u64) * 0x1_0000_0000)
            by (bit_vector);
    }
    Some((lo as u64) | ((hi as u64) << 32u64))
}

/// Executive Services HK fields used by the dashboard (native-endian on Linux sim).
#[derive(Debug, Clone, PartialEq, Eq)]
pub struct EsHkV1 {
    pub command_counter: u8,
    pub command_error_counter: u8,
    pub cfe_core_checksum: u16,
    pub cfe_version: [u8; 4],
    pub osal_version: [u8; 4],
    pub psp_version: [u8; 4],
    pub syslog_bytes_used: u64,
    pub syslog_size: u64,
    pub syslog_entries: u32,
    pub syslog_mode: u32,
    pub registered_core_apps: u32,
    pub registered_external_apps: u32,
    pub registered_tasks: u32,
    pub registered_libs: u32,
    pub reset_type: u32,
    pub reset_subtype: u32,
    pub processor_resets: u32,
    pub max_processor_resets: u32,
    pub boot_source: u32,
    pub perf_state: u32,
    pub perf_mode: u32,
    pub perf_trigger_count: u32,
    pub heap_bytes_free: u64,
    pub heap_blocks_free: u64,
    pub heap_max_block_size: u64,
}

/// `h` holds the ES HK fields at their payload offsets in `b`.
pub open spec fn es_hk_matches(h: EsHkV1, b: Seq<u8>) -> bool {
    &&& h.command_counter == b[0]
    &&& h.command_error_counter == b[1]
    &&& h.cfe_core_checksum == le_u16(b, 2)
    &&& h.cfe_version@ == b.subrange(4, 8)
    &&& h.osal_version@ == b.subrange(8, 12)
    &&& h.psp_version@ == b.subrange(12, 16)
    &&& h.syslog_bytes_used == le_u64(b, 16)
    &&& h.syslog_size == le_u64(b, 24)
    &&& h.syslog_entries == le_u32(b, 32)
    &&& h.syslog_mode == le_u32(b, 36)
    &&& h.registered_core_apps == le_u32(b, 48)
    &&& h.registered_external_apps == le_u32(b, 52)
    &&& h.registered_tasks == le_u32(b, 56)
    &&& h.registered_libs == le_u32(b, 60)
    &&& h.reset_type == le_u32(b, 64)
    &&& h.reset_subtype == le_u32(b, 68)
    &&& h.processor_resets == le_u32(b, 72)
    &&& h.max_processor_resets == le_u32(b, 76)
    &&& h.boot_source == le_u32(b, 80)
    &&& h.perf_state == le_u32(b, 84)
    &&& h.perf_mode == le_u32(b, 88)
    &&& h.perf_trigger_count == le_u32(b, 92)
    &&& h.heap_bytes_free == le_u64(b, 144)
    &&& h.heap_blocks_free == le_u64(b, 152)
    &&& h.heap_max_block_size == le_u64(b, 160)
}

/// Parses ES HK payload bytes (starts at Command Counter). `b` must be at least [`ES_HK_PAYLOAD_BYTES`] for a parse.
pub fn parse_es_hk_payload(b: &[u8]) -> (r: Option<EsHkV1>)
    ensures
        b@.len() < ES_HK_PAYLOAD_BYTES ==> r is None,
        b@.len() >= ES_HK_PAYLOAD_BYTES ==> (r matches Some(h) && es_hk_matches(h, b@)),
{
    if b.len() < ES_HK_PAYLOAD_BYTES {
        return None;
    }
    let cfe_version = [b[4], b[5], b[6], b[7]];
    let osal_version = [b[8], b[9], b[10], b[11]];
    let psp_version = [b[12], b[13], b[14], b[15]];
    proof {
        lemma_le_u16_bits(b[2], b[3]);
    }
    let h = EsHkV1 {
        command_counter: b[0],
        command_error_counter: b[1],
        cfe_core_checksum: (b[2] as u16) | ((b[3] as u16) << 8u16),
        cfe_version,
        osal_version,
        psp_version,
        syslog_bytes_used: read_u64_le(b, 16).unwrap(),
        syslog_size: read_u64_le(b, 24).unwrap(),
        syslog_entries: read_u32_le(b, 32).unwrap(),
        syslog_mode: read_u32_le(b, 36).unwrap(),
        registered_core_apps: read_u32_le(b, 48).unwrap(),
        registered_external_apps: read_u32_le(b, 52).unwrap(),
        registered_tasks: read_u32_le(b, 56).unwrap(),
        registered_libs: read_u32_le(b, 60).unwrap(),
        reset_type: read_u32_le(b, 64).unwrap(),
        reset_subtype: read_u32_le(b, 68).unwrap(),
        processor_resets: read_u32_le(b, 72).unwrap(),
        max_processor_resets: read_u32_le(b, 76).unwrap(),
        boot_source: read_u32_le(b, 80).unwrap(),
        perf_state: read_u32_le(b, 84).unwrap(),
        perf_mode: read_u32_le(b, 88).unwrap(),
        perf_trigger_count: read_u32_le(b, 92).unwrap(),
        heap_bytes_free: read_u64_le(b, 144).unwrap(),
        heap_blocks_free: read_u64_le(b, 152).unwrap(),
        heap_max_block_size: read_u64_le(b, 160).unwrap(),
    };
    assert(h.cfe_version@ =~= b@.subrange(4, 8));
    assert(h.osal_version@ =~= b@.subrange(8, 12));
    assert(h.psp_version@ =~= b@.subrange(12, 16));
    Some(h)
}

/// Two bytes combined little-endian with shifts are `le_u16`.
pub proof fn lemma_le_u16_bits(lo: u8, hi: u8)
    ensures
        (lo as u16) | ((hi as u16) << 8u16) == le_u16(seq![lo, hi], 0),
{
    assert((lo as u16) | ((hi as u16) << 8u16) == lo as u16 + (hi as u16) * 256) by (bit_vector);
}

/// Full UDP datagram: 12-byte headers + [`ES_HK_PAYLOAD_BYTES`] HK payload.
pub fn parse_es_hk_datagram(data: &[u8]) -> (r: Option<EsHkV1>)
    ensures
        data@.len() < CFE_TLM_HEADER_PREFIX_BYTES + ES_HK_PAYLOAD_BYTES ==> r is None,
        data@.len() >= CFE_TLM_HEADER_PREFIX_BYTES + ES_HK_PAYLOAD_BYTES ==> (r matches Some(h)
            && es_hk_matches(h, data@.skip(CFE_TLM_HEADER_PREFIX_BYTES as int))),
{
    if data.len() < CFE_TLM_HEADER_PREFIX_BYTES + ES_HK_PAYLOAD_BYTES {
        return None;
    }
    let payload = slice_range(data, CFE_TLM_HEADER_PREFIX_BYTES, data.len());
    assert(payload@ =~= data@.skip(CFE_TLM_HEADER_PREFIX_BYTES as int));
    parse_es_hk_payload(payload)
}

/// Little-endian bytes of a `u16`.
pub open spec fn le16_bytes(v: u16) -> Seq<u8> {
    seq![(v % 256) as u8, (v / 256) as u8]
}

/// `le_u32` at `o` reads back the value whose bytes sit there.
pub proof fn lemma_le_u32_at(b: Seq<u8>, o: int, x: u32)
    requires
        0 <= o,
        o + 4 <= b.len(),
        b.subrange(o, o + 4) == le32_bytes(x),
    ensures
        le_u32(b, o) == x,
{
    lemma_le32_read(x);
    assert(read_le32(b, o) == read_le32(b.subrange(o, o + 4), 0));
}

/// `le_u64` at `o` reads back the value whose bytes sit there.
pub proof fn lemma_le_u64_at(b: Seq<u8>, o: int, x: u64)
    requires
        0 <= o,
        o + 8 <= b.len(),
        b.subrange(o, o + 8) == le64_bytes(x),
    ensures
        le_u64(b, o) == x,
{
    lemma_le64_read(x);
    let m = b.subrange(o, o + 8);
    assert(read_le32(b, o) == read_le32(m, 0));
    assert(read_le32(b, o + 4) == read_le32(m, 4));
    assert(le_u32(b, o) as int == read_le32(b, o));
    assert(le_u32(b, o + 4) as int == read_le32(b, o + 4));
}

/// Bytes 0..16: counters, core checksum, cFE / OSAL / PSP versions.
pub open spec fn es_hk_head_bytes(h: EsHkV1) -> Seq<u8> {
    seq![h.command_counter, h.command_error_counter] + le16_bytes(h.cfe_core_checksum)
        + h.cfe_version@ + h.osal_version@ + h.psp_version@
}

/// Bytes 16..48: system log usage and mode, then the two ER log words (not decoded).
pub open spec fn es_hk_syslog_bytes(h: EsHkV1) -> Seq<u8> {
    le64_bytes(h.syslog_bytes_used) + le64_bytes(h.syslog_size) + le32_bytes(h.syslog_entries)
        + le32_bytes(h.syslog_mode) + zeros(8)
}

/// Bytes 48..96: registration counts, reset information, boot source, performance state.
pub open spec fn es_hk_counts_bytes(h: EsHkV1) -> Seq<u8> {
    le32_bytes(h.registered_core_apps) + le32_bytes(h.registered_external_apps) + le32_bytes(
        h.registered_tasks,
    ) + le32_bytes(h.registered_libs) + le32_bytes(h.reset_type) + le32_bytes(h.reset_subtype)
        + le32_bytes(h.processor_resets) + le32_bytes(h.max_processor_resets) + le32_bytes(
        h.boot_source,
    ) + le32_bytes(h.perf_state) + le32_bytes(h.perf_mode) + le32_bytes(h.perf_trigger_count)
}

/// Bytes 144..168: heap statistics.
pub open spec fn es_hk_heap_bytes(h: EsHkV1) -> Seq<u8> {
    le64_bytes(h.heap_bytes_free) + le64_bytes(h.heap_blocks_free) + le64_bytes(
        h.heap_max_block_size,
    )
}

/// `CFE_ES_HousekeepingTlm_Payload_t` holding `h`, in struct order (Linux LE, 128 perf IDs):
/// the perf filter / trigger masks at 96..144 are not decoded and are zero here.
pub open spec fn es_hk_payload_bytes(h: EsHkV1) -> Seq<u8> {
    es_hk_head_bytes(h) + es_hk_syslog_bytes(h) + es_hk_counts_bytes(h) + zeros(48)
        + es_hk_heap_bytes(h)
}

proof fn lemma_es_hk_counts(h: EsHkV1, b: Seq<u8>)
    requires
        b.len() == 168,
        b.subrange(48, 96) == es_hk_counts_bytes(h),
    ensures
        le_u32(b, 48) == h.registered_core_apps,
        le_u32(b, 52) == h.registered_external_apps,
        le_u32(b, 56) == h.registered_tasks,
        le_u32(b, 60) == h.registered_libs,
        le_u32(b, 64) == h.reset_type,
        le_u32(b, 68) == h.reset_subtype,
        le_u32(b, 72) == h.processor_resets,
        le_u32(b, 76) == h.max_processor_resets,
        le_u32(b, 80) == h.boot_source,
        le_u32(b, 84) == h.perf_state,
        le_u32(b, 88) == h.perf_mode,
        le_u32(b, 92) == h.perf_trigger_count,
{
    let c = es_hk_counts_bytes(h);
    assert(b.subrange(48, 52) =~= c.subrange(0, 4));
    assert(b.subrange(52, 56) =~= c.subrange(4, 8));
    assert(b.subrange(56, 60) =~= c.subrange(8, 12));
    assert(b.subrange(60, 64) =~= c.subrange(12, 16));
    assert(b.subrange(64, 68) =~= c.subrange(16, 20));
    assert(b.subrange(68, 72) =~= c.subrange(20, 24));
    assert(b.subrange(72, 76) =~= c.subrange(24, 28));
    assert(b.subrange(76, 80) =~= c.subrange(28, 32));
    assert(b.subrange(80, 84) =~= c.subrange(32, 36));
    assert(b.subrange(84, 88) =~= c.subrange(36, 40));
    assert(b.subrange(88, 92) =~= c.subrange(40, 44));
    assert(b.subrange(92, 96) =~= c.subrange(44, 48));
    assert(c.subrange(0, 4) =~= le32_bytes(h.registered_core_apps));
    assert(c.subrange(4, 8) =~= le32_bytes(h.registered_external_apps));
    assert(c.subrange(8, 12) =~= le32_bytes(h.registered_tasks));
    assert(c.subrange(12, 16) =~= le32_bytes(h.registered_libs));
    assert(c.subrange(16, 20) =~= le32_bytes(h.reset_type));
    assert(c.subrange(20, 24) =~= le32_bytes(h.reset_subtype));
    assert(c.subrange(24, 28) =~= le32_bytes(h.processor_resets));
    assert(c.subrange(28, 32) =~= le32_bytes(h.max_processor_resets));
    assert(c.subrange(32, 36) =~= le32_bytes(h.boot_source));
    assert(c.subrange(36, 40) =~= le32_bytes(h.perf_state));
    assert(c.subrange(40, 44) =~= le32_bytes(h.perf_mode));
    assert(c.subrange(44, 48) =~= le32_bytes(h.perf_trigger_count));
    lemma_le_u32_at(b, 48, h.registered_core_apps);
    lemma_le_u32_at(b, 52, h.registered_external_apps);
    lemma_le_u32_at(b, 56, h.registered_tasks);
    lemma_le_u32_at(b, 60, h.registered_libs);
    lemma_le_u32_at(b, 64, h.reset_type);
    lemma_le_u32_at(b, 68, h.reset_subtype);
    lemma_le_u32_at(b, 72, h.processor_resets);
    lemma_le_u32_at(b, 76, h.max_processor_resets);
    lemma_le_u32_at(b, 80, h.boot_source);
    lemma_le_u32_at(b, 84, h.perf_state);
    lemma_le_u32_at(b, 88, h.perf_mode);
    lemma_le_u32_at(b, 92, h.perf_trigger_count);
}

proof fn lemma_es_hk_ends(h: EsHkV1, b: Seq<u8>)
    requires
        b.len() == 168,
        b.subrange(0, 16) == es_hk_head_bytes(h),
        b.subrange(16, 48) == es_hk_syslog_bytes(h),
        b.subrange(144, 168) == es_hk_heap_bytes(h),
    ensures
        b[0] == h.command_counter,
        b[1] == h.command_error_counter,
        le_u16(b, 2) == h.cfe_core_checksum,
        b.subrange(4, 8) == h.cfe_version@,
        b.subrange(8, 12) == h.osal_version@,
        b.subrange(12, 16) == h.psp_version@,
        le_u64(b, 16) == h.syslog_bytes_used,
        le_u64(b, 24) == h.syslog_size,
        le_u32(b, 32) == h.syslog_entries,
        le_u32(b, 36) == h.syslog_mode,
        le_u64(b, 144) == h.heap_bytes_free,
        le_u64(b, 152) == h.heap_blocks_free,
        le_u64(b, 160) == h.heap_max_block_size,
{
    let a = es_hk_head_bytes(h);
    let s = es_hk_syslog_bytes(h);
    let e = es_hk_heap_bytes(h);
    assert(b[0] == a[0] && b[1] == a[1] && b[2] == a[2] && b[3] == a[3]);
    let c = h.cfe_core_checksum;
    assert((c % 256) as u8 as int + ((c / 256) as u8) as int * 256 == c);
    assert(b.subrange(4, 8) =~= a.subrange(4, 8));
    assert(b.subrange(8, 12) =~= a.subrange(8, 12));
    assert(b.subrange(12, 16) =~= a.subrange(12, 16));
    assert(a.subrange(4, 8) =~= h.cfe_version@);
    assert(a.subrange(8, 12) =~= h.osal_version@);
    assert(a.subrange(12, 16) =~= h.psp_version@);
    assert(b.subrange(16, 24) =~= s.subrange(0, 8));
    assert(b.subrange(24, 32) =~= s.subrange(8, 16));
    assert(b.subrange(32, 36) =~= s.subrange(16, 20));
    assert(b.subrange(36, 40) =~= s.subrange(20, 24));
    assert(s.subrange(0, 8) =~= le64_bytes(h.syslog_bytes_used));
    assert(s.subrange(8, 16) =~= le64_bytes(h.syslog_size));
    assert(s.subrange(16, 20) =~= le32_bytes(h.syslog_entries));
    assert(s.subrange(20, 24) =~= le32_bytes(h.syslog_mode));
    assert(b.subrange(144, 152) =~= e.subrange(0, 8));
    assert(b.subrange(152, 160) =~= e.subrange(8, 16));
    assert(b.subrange(160, 168) =~= e.subrange(16, 24));
    assert(e.subrange(0, 8) =~= le64_bytes(h.heap_bytes_free));
    assert(e.subrange(8, 16) =~= le64_bytes(h.heap_blocks_free));
    assert(e.subrange(16, 24) =~= le64_bytes(h.heap_max_block_size));
    lemma_le_u64_at(b, 16, h.syslog_bytes_used);
    lemma_le_u64_at(b, 24, h.syslog_size);
    lemma_le_u32_at(b, 32, h.syslog_entries);
    lemma_le_u32_at(b, 36, h.syslog_mode);
    lemma_le_u64_at(b, 144, h.heap_bytes_free);
    lemma_le_u64_at(b, 152, h.heap_blocks_free);
    lemma_le_u64_at(b, 160, h.heap_max_block_size);
}

/// Round trip against the C struct: decoding the `CFE_ES_HousekeepingTlm_Payload_t` bytes
/// of any HK record gives that record back, field for field.
#[verifier::rlimit(40)]
pub proof fn lemma_es_hk_round_trip(h: EsHkV1, decoded: EsHkV1)
    requires
        es_hk_matches(decoded, es_hk_payload_bytes(h)),
    ensures
        decoded.command_counter == h.command_counter,
        decoded.command_error_counter == h.command_error_counter,
        decoded.cfe_core_checksum == h.cfe_core_checksum,
        decoded.cfe_version@ == h.cfe_version@,
        decoded.osal_version@ == h.osal_version@,
        decoded.psp_version@ == h.psp_version@,
        decoded.syslog_bytes_used == h.syslog_bytes_used,
        decoded.syslog_size == h.syslog_size,
        decoded.syslog_entries == h.syslog_entries,
        decoded.syslog_mode == h.syslog_mode,
        decoded.registered_core_apps == h.registered_core_apps,
        decoded.registered_external_apps == h.registered_external_apps,
        decoded.registered_tasks == h.registered_tasks,
        decoded.registered_libs == h.registered_libs,
        decoded.reset_type == h.reset_type,
        decoded.reset_subtype == h.reset_subtype,
        decoded.processor_resets == h.processor_resets,
        decoded.max_processor_resets == h.max_processor_resets,
        decoded.boot_source == h.boot_source,
        decoded.perf_state == h.perf_state,
        decoded.perf_mode == h.perf_mode,
        decoded.perf_trigger_count == h.perf_trigger_count,
        decoded.heap_bytes_free == h.heap_bytes_free,
        decoded.heap_blocks_free == h.heap_blocks_free,
        decoded.heap_max_block_size == h.heap_max_block_size,
{
    let b = es_hk_payload_bytes(h);
    lemma_es_hk_layout(h);
    lemma_es_hk_ends(h, b);
    lemma_es_hk_counts(h, b);
}

proof fn lemma_es_hk_layout(h: EsHkV1)
    ensures
        es_hk_payload_bytes(h).len() == 168,
        es_hk_payload_bytes(h).subrange(0, 16) == es_hk_head_bytes(h),
        es_hk_payload_bytes(h).subrange(16, 48) == es_hk_syslog_bytes(h),
        es_hk_payload_bytes(h).subrange(48, 96) == es_hk_counts_bytes(h),
        es_hk_payload_bytes(h).subrange(144, 168) == es_hk_heap_bytes(h),
{
    let b = es_hk_payload_bytes(h);
    assert(es_hk_head_bytes(h).len() == 16);
    assert(b.subrange(0, 16) =~= es_hk_head_bytes(h));
    assert(b.subrange(16, 48) =~= es_hk_syslog_bytes(h));
    assert(b.subrange(48, 96) =~= es_hk_counts_bytes(h));
    assert(b.subrange(144, 168) =~= es_hk_heap_bytes(h));
}

/// `le_u16` at `o` reads back the value whose bytes sit there.
pub proof fn lemma_le_u16_at(b: Seq<u8>, o: int, x: u16)
    requires
        0 <= o,
        o + 2 <= b.len(),
        b.subrange(o, o + 2) == le16_bytes(x),
    ensures
        le_u16(b, o) == x,
{
    assert(b[o] == b.subrange(o, o + 2)[0] && b[o + 1] == b.subrange(o, o + 2)[1]);
    assert((x % 256) as u8 as int + ((x / 256) as u8) as int * 256 == x);
}

} // verus!
