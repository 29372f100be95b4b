//! Telemetry decoding and classification tests.

use rust_bridge::text::str_trim;
use rust_bridge::tlm::cf_eot::{parse_cf_eot_datagram, parse_cf_eot_payload, CF_EOT_PAYLOAD_BYTES, CF_FILENAME_MAX_LEN};
use rust_bridge::tlm::cfe_primary::CcsdsPrimaryHeader;
use rust_bridge::tlm::es_hk::{
    parse_es_hk_datagram, parse_es_hk_payload, CFE_TLM_HEADER_PREFIX_BYTES, ES_HK_PAYLOAD_BYTES,
};
use rust_bridge::tlm::evs_long_event::{
    parse_evs_long_event_datagram, API_NAME_BYTES, EVENT_MESSAGE_BYTES, EVS_LONG_EVENT_APID_LEGACY,
    EVS_LONG_EVENT_MSGID_LE_LEGACY,
};
use rust_bridge::tlm::to_lab_hk::{
    parse_to_lab_hk_datagram, to_lab_hk_datagram_overruns, TO_LAB_HK_APID,
    TO_LAB_HK_TLM_MSGID_LE_EDS, TO_LAB_HK_TLM_MSGID_LE_LEGACY,
};
use rust_bridge::tlm::{classify_datagram, hex_preview, next_rebind_backoff_ms, TlmEvent};

const EVS_PREFIX: usize = rust_bridge::tlm::evs_long_event::CFE_TLM_HEADER_PREFIX_BYTES;

#[test]
fn parse_matches_uplink_style_header() {
    let h = [0x18, 0x06, 0xc0, 0x00, 0x00, 0x02];
    let p = CcsdsPrimaryHeader::parse(&h).expect("parse");
    assert_eq!(p.apid, 0x006);
    assert_eq!(p.packet_type, 1);
}

#[test]
fn primary_header_fields_and_total_length() {
    let h = [0x18, 0x06, 0xc0, 0x05, 0x00, 0x02];
    let p = CcsdsPrimaryHeader::parse(&h).expect("parse");
    assert_eq!(p.version, 0);
    assert!(p.secondary_header_flag);
    assert_eq!(p.sequence_flags, 3);
    assert_eq!(p.sequence_count, 5);
    assert_eq!(p.data_length_field, 2);
    assert_eq!(p.total_bytes_including_primary(), 9);
    assert!(CcsdsPrimaryHeader::parse(&h[..5]).is_none());
}

fn golden_payload() -> Vec<u8> {
    let mut v = vec![0u8; ES_HK_PAYLOAD_BYTES];
    v[0] = 1;
    v[1] = 2;
    v[2] = 0x34;
    v[3] = 0x12;
    v[48] = 3;
    v[49] = 0;
    v[50] = 0;
    v[51] = 0;
    v[144] = 0x40;
    v[145] = 0x42;
    v[146] = 0;
    v[147] = 0;
    v[148] = 0;
    v[149] = 0;
    v[150] = 0;
    v[151] = 0;
    v
}

#[test]
fn parse_round_trip_golden() {
    let p = golden_payload();
    let h = parse_es_hk_payload(&p).expect("parse");
    assert_eq!(h.command_counter, 1);
    assert_eq!(h.command_error_counter, 2);
    assert_eq!(h.cfe_core_checksum, 0x1234);
    assert_eq!(h.registered_core_apps, 3);
    assert_eq!(h.heap_bytes_free, 0x4240);
}

#[test]
fn parse_datagram_with_prefix() {
    let mut d = vec![0xFFu8; CFE_TLM_HEADER_PREFIX_BYTES];
    d.extend_from_slice(&golden_payload());
    let h = parse_es_hk_datagram(&d).expect("datagram");
    assert_eq!(h.command_counter, 1);
}

#[test]
fn short_buffer_returns_none() {
    assert!(parse_es_hk_payload(&[0u8; 10]).is_none());
}

#[test]
fn es_hk_datagram_shorter_than_prefix_is_none() {
    assert!(parse_es_hk_datagram(&[0u8; CFE_TLM_HEADER_PREFIX_BYTES - 1]).is_none());
}

fn evs_legacy_packet(app: &[u8], ids: (u16, u16, u32, u32), msg: &[u8]) -> Vec<u8> {
    let total = EVS_PREFIX + API_NAME_BYTES + 2 + 2 + 4 + 4 + EVENT_MESSAGE_BYTES;
    let user = (total - 6) as u16;
    let w2 = user - 1;
    let mut d = vec![0u8; total];
    d[0..2].copy_from_slice(&(0x0800u16 | EVS_LONG_EVENT_APID_LEGACY).to_be_bytes());
    d[2..4].copy_from_slice(&0xC000u16.to_be_bytes());
    d[4..6].copy_from_slice(&w2.to_be_bytes());
    d[6..8].copy_from_slice(&EVS_LONG_EVENT_MSGID_LE_LEGACY.to_le_bytes());
    let off = EVS_PREFIX;
    d[off..off + app.len()].copy_from_slice(app);
    let mut i = off + API_NAME_BYTES;
    d[i..i + 2].copy_from_slice(&ids.0.to_le_bytes());
    i += 2;
    d[i..i + 2].copy_from_slice(&ids.1.to_le_bytes());
    i += 2;
    d[i..i + 4].copy_from_slice(&ids.2.to_le_bytes());
    i += 4;
    d[i..i + 4].copy_from_slice(&ids.3.to_le_bytes());
    i += 4;
    d[i..i + msg.len()].copy_from_slice(msg);
    d
}

#[test]
fn parse_synthetic_legacy_packet() {
    let d = evs_legacy_packet(b"CFE_EVS\0", (123, 2, 66, 1), b"hello world\0");
    let ev = parse_evs_long_event_datagram(&d).expect("parse");
    assert_eq!(ev.packet_id.app_name, "CFE_EVS");
    assert_eq!(ev.packet_id.event_id, 123);
    assert_eq!(ev.packet_id.event_type, 2);
    assert_eq!(ev.packet_id.spacecraft_id, 66);
    assert_eq!(ev.packet_id.processor_id, 1);
    assert_eq!(ev.message, "hello world");
}

#[test]
fn evs_message_trailing_whitespace_is_trimmed() {
    let d = evs_legacy_packet(b"CF\0", (1, 2, 3, 4), b"retained  \0");
    let ev = parse_evs_long_event_datagram(&d).expect("parse");
    assert_eq!(ev.message, "retained");
}

#[test]
fn evs_short_datagram_is_none() {
    let d = evs_legacy_packet(b"CFE_EVS\0", (1, 2, 3, 4), b"x\0");
    assert!(parse_evs_long_event_datagram(&d[..40]).is_none());
}

fn build_min_to_lab_hk_packet() -> Vec<u8> {
    let user = 14u16;
    let w2 = user - 1;
    let mut d = vec![0u8; 6 + user as usize];
    d[0..2].copy_from_slice(&(0x0800u16 | TO_LAB_HK_APID).to_be_bytes());
    d[2..4].copy_from_slice(&0xC000u16.to_be_bytes());
    d[4..6].copy_from_slice(&w2.to_be_bytes());
    d[6..8].copy_from_slice(&TO_LAB_HK_TLM_MSGID_LE_EDS.to_le_bytes());
    d[8..16].copy_from_slice(&[0u8; 8]);
    d[16] = 7;
    d[17] = 2;
    d
}

fn build_min_to_lab_hk_packet_legacy_msgid() -> Vec<u8> {
    let mut d = build_min_to_lab_hk_packet();
    d[6..8].copy_from_slice(&TO_LAB_HK_TLM_MSGID_LE_LEGACY.to_le_bytes());
    d
}

#[test]
fn parse_round_trip_legacy_synthetic() {
    let d = build_min_to_lab_hk_packet_legacy_msgid();
    let hk = parse_to_lab_hk_datagram(&d).expect("parse");
    assert_eq!(hk.command_counter, 7);
    assert_eq!(hk.command_error_counter, 2);
}

#[test]
fn parse_round_trip_synthetic() {
    let d = build_min_to_lab_hk_packet();
    let hk = parse_to_lab_hk_datagram(&d).expect("parse");
    assert_eq!(hk.command_counter, 7);
    assert_eq!(hk.command_error_counter, 2);
}

#[test]
fn parse_verified_20_byte_capture() {
    let d: [u8; 20] = [
        0x08, 0x80, 0xc0, 0xa5, 0x00, 0x0d, 0x00, 0x0f, 0x46, 0xcd, 0xb1, 0x16, 0x00, 0x00, 0x00,
        0x00, 0x01, 0x00, 0x00, 0x00,
    ];
    let hk = parse_to_lab_hk_datagram(&d).expect("parse");
    assert_eq!(hk.command_counter, 0x01);
    assert_eq!(hk.command_error_counter, 0x00);
}

#[test]
fn to_lab_hk_wrong_msgid_is_none() {
    let mut d = build_min_to_lab_hk_packet();
    d[6..8].copy_from_slice(&0x1234u16.to_le_bytes());
    assert!(parse_to_lab_hk_datagram(&d).is_none());
    assert!(!to_lab_hk_datagram_overruns(&d));
}

#[test]
fn parse_minimal_eot_payload() {
    let mut b = vec![0u8; CF_EOT_PAYLOAD_BYTES];
    b[0..4].copy_from_slice(&123u32.to_le_bytes());
    b[4..8].copy_from_slice(&0u32.to_le_bytes());
    b[16..20].copy_from_slice(&0u32.to_le_bytes());
    b[36..36 + 4].copy_from_slice(b"src\0");
    b[36 + CF_FILENAME_MAX_LEN..36 + CF_FILENAME_MAX_LEN + 5].copy_from_slice(b"/dst\0");

    let e = parse_cf_eot_payload(&b).expect("parse");
    assert_eq!(e.seq_num, 123);
    assert_eq!(e.src_filename, "src");
    assert_eq!(e.dst_filename, "/dst");
}

#[test]
fn eot_short_payload_and_datagram_are_none() {
    assert!(parse_cf_eot_payload(&[0u8; CF_EOT_PAYLOAD_BYTES - 1]).is_none());
    assert!(parse_cf_eot_datagram(&[0u8; 8]).is_none());
}

fn es_hk_datagram(counter: u8) -> Vec<u8> {
    let total = CFE_TLM_HEADER_PREFIX_BYTES + ES_HK_PAYLOAD_BYTES;
    let mut d = vec![0u8; total];
    let user_len = total - 6;
    let w2 = (user_len - 1) as u16;
    d[0..2].copy_from_slice(&0x0800u16.to_be_bytes());
    d[2..4].copy_from_slice(&0xc000u16.to_be_bytes());
    d[4..6].copy_from_slice(&w2.to_be_bytes());
    d[CFE_TLM_HEADER_PREFIX_BYTES] = counter;
    d
}

#[test]
fn classify_es_hk_round_trip() {
    let d = es_hk_datagram(0xAB);
    let ev = classify_datagram(&d, "test".into());
    match ev {
        TlmEvent::EsHkV1 { es_hk, .. } => assert_eq!(es_hk.command_counter, 0xAB),
        TlmEvent::ToLabHkV1 { .. } => panic!("unexpected TO_LAB HK"),
        TlmEvent::EvsLongEventV1 { .. } => panic!("unexpected EVS long event"),
        TlmEvent::ParseError { message, .. } => panic!("unexpected error: {message}"),
        _ => panic!("unexpected event"),
    }
}

#[test]
fn classify_length_mismatch_is_parse_error() {
    let mut d = vec![0u8; 32];
    d[0..2].copy_from_slice(&0x0800u16.to_be_bytes());
    d[2..4].copy_from_slice(&0xc000u16.to_be_bytes());
    d[4..6].copy_from_slice(&0x001Au16.to_be_bytes());
    let ev = classify_datagram(&d, "t".into());
    match ev {
        TlmEvent::ParseError { message, .. } => assert!(message.contains("length mismatch")),
        _ => panic!("expected parse_error"),
    }
}

#[test]
fn classify_garbage_short_buffer_is_parse_error() {
    let d = vec![0x01u8, 0x02, 0x03];
    let ev = classify_datagram(&d, "t".into());
    assert!(matches!(ev, TlmEvent::ParseError { .. }));
}

#[test]
fn classify_evs_long_event_round_trip() {
    let d = evs_legacy_packet(b"CFE_EVS\0", (1, 2, 3, 4), b"hi\0\0\0");
    let ev = classify_datagram(&d, "test".into());
    match ev {
        TlmEvent::EvsLongEventV1 { evs_long_event, .. } => {
            assert_eq!(evs_long_event.packet_id.app_name, "CFE_EVS");
            assert_eq!(evs_long_event.message, "hi");
        }
        _ => panic!("expected EVS long event"),
    }
}

#[test]
fn classify_parse_error_hex_preview_truncates_long_buffer() {
    let mut d = vec![0xAAu8; 100];
    d[0..2].copy_from_slice(&0x0800u16.to_be_bytes());
    d[2..4].copy_from_slice(&0xc000u16.to_be_bytes());
    d[4..6].copy_from_slice(&0x005Du16.to_be_bytes());
    let ev = classify_datagram(&d, "t".into());
    match ev {
        TlmEvent::ParseError { hex_preview, .. } => {
            assert!(hex_preview.contains(" …"));
        }
        _ => panic!("expected parse_error"),
    }
}

#[test]
fn classify_to_lab_hk_capture() {
    let d = build_min_to_lab_hk_packet();
    match classify_datagram(&d, "t".into()) {
        TlmEvent::ToLabHkV1 { to_lab_hk, raw_len, primary, .. } => {
            assert_eq!(to_lab_hk.command_counter, 7);
            assert_eq!(raw_len, 20);
            assert_eq!(primary.apid, TO_LAB_HK_APID);
        }
        _ => panic!("expected TO_LAB HK"),
    }
}

#[test]
fn classify_keeps_received_at() {
    match classify_datagram(&es_hk_datagram(1), "2026-01-01T00:00:00.000Z".into()) {
        TlmEvent::EsHkV1 { received_at, raw_len, .. } => {
            assert_eq!(received_at, "2026-01-01T00:00:00.000Z");
            assert_eq!(raw_len, CFE_TLM_HEADER_PREFIX_BYTES + ES_HK_PAYLOAD_BYTES);
        }
        _ => panic!("expected ES HK"),
    }
}

#[test]
fn hex_preview_of_short_buffer_is_space_separated() {
    assert_eq!(hex_preview(&[0x01, 0xab, 0xff]), "01 ab ff");
    assert_eq!(hex_preview(&[]), "");
}

#[test]
fn rebind_backoff_doubles_up_to_ten_seconds() {
    assert_eq!(next_rebind_backoff_ms(200), 400);
    assert_eq!(next_rebind_backoff_ms(4_000), 8_000);
    assert_eq!(next_rebind_backoff_ms(8_000), 10_000);
    assert_eq!(next_rebind_backoff_ms(10_000), 10_000);
    assert_eq!(next_rebind_backoff_ms(u64::MAX), 10_000);
}

#[test]
fn eot_filename_invalid_utf8_is_replaced() {
    let mut b = vec![0u8; CF_EOT_PAYLOAD_BYTES];
    b[36..36 + 4].copy_from_slice(b"s\xFFc\0");
    b[36 + CF_FILENAME_MAX_LEN..36 + CF_FILENAME_MAX_LEN + 3].copy_from_slice(b"/d\0");
    let e = parse_cf_eot_payload(&b).expect("parse");
    assert_eq!(e.src_filename, "s\u{FFFD}c");
    assert_eq!(e.dst_filename, "/d");
}

#[test]
fn str_trim_strips_unicode_whitespace() {
    assert_eq!(str_trim("  a b \t\n"), "a b");
    assert_eq!(str_trim("\u{3000}x\u{a0}"), "x");
    assert_eq!(str_trim(" \t "), "");
    assert_eq!(str_trim(""), "");
}
