//! Wire framing, CRC, dictionary and JSON command tests.

use rust_bridge::{
    command_dictionary_entries, command_dictionary_resolve, compute_crc16_ccitt, decode_hex,
    BridgeCommandSpec, BridgeError, CcsdsPacket, CommandJson, PayloadConstraintJson,
    SpaceCommand, BRIDGE_SB_MSGID_HEARTBEAT, BRIDGE_WIRE_APID_HEARTBEAT, BRIDGE_WIRE_APID_PING,
    BRIDGE_WIRE_APID_TO_LAB_ENABLE_OUTPUT,
};

/// Parses command JSON the way the server does: a named command (`command`, optional
/// `sequence_count` and hex `payload`) or a legacy `apid` + `sequence_count` + hex `payload`.
fn parse_command_json(s: &str) -> Result<CommandJson, BridgeError> {
    let v: serde_json::Value =
        serde_json::from_str(s).map_err(|e| BridgeError::Json(e.to_string()))?;
    let obj = v
        .as_object()
        .ok_or_else(|| BridgeError::Json("expected an object".into()))?;
    let u16_field = |k: &str| -> Option<Option<u16>> {
        match obj.get(k) {
            None => Some(None),
            Some(x) => x.as_u64().and_then(|n| u16::try_from(n).ok()).map(Some),
        }
    };
    if let Some(serde_json::Value::String(command)) = obj.get("command") {
        if let Some(seq) = u16_field("sequence_count") {
            let payload = match obj.get("payload") {
                None | Some(serde_json::Value::Null) => Some(None),
                Some(serde_json::Value::String(p)) => Some(Some(p.clone())),
                _ => None,
            };
            if let Some(payload) = payload {
                return Ok(CommandJson::Named {
                    command: command.clone(),
                    sequence_count: seq.unwrap_or(0),
                    payload,
                });
            }
        }
    }
    let no_match = || BridgeError::Json("data did not match any variant".into());
    let apid = u16_field("apid").flatten().ok_or_else(no_match)?;
    let seq = u16_field("sequence_count").flatten().ok_or_else(no_match)?;
    let hex = obj.get("payload").and_then(|p| p.as_str()).ok_or_else(no_match)?;
    let payload = decode_hex(hex).map_err(BridgeError::Json)?;
    Ok(CommandJson::Legacy { apid, sequence_count: seq, payload })
}

fn from_json(s: &str) -> Result<SpaceCommand, BridgeError> {
    SpaceCommand::from_command_json(parse_command_json(s)?)
}

#[test]
fn header_construction_exact_six_bytes() {
    let cmd = SpaceCommand { apid: 0x100, sequence_count: 0x123, payload: vec![1, 2, 3, 4] };
    let pkt = CcsdsPacket::from_command(&cmd).unwrap();
    let h = pkt.primary_header_bytes();
    assert_eq!(h, [0x11, 0x00, 0xC1, 0x23, 0x00, 0x03]);
}

#[test]
fn packet_data_length_n_minus_one() {
    let cases = [
        (vec![0u8; 0], 0xFFFFu16),
        (vec![0u8; 1], 0u16),
        (vec![0u8; 255], 254u16),
        (vec![0u8; 256], 255u16),
    ];
    for (payload, want_field) in cases {
        let mut pkt = CcsdsPacket::from_command(&SpaceCommand {
            apid: 1,
            sequence_count: 0,
            payload: payload.clone(),
        })
        .unwrap();
        pkt.packet_type = 1;
        let w2 = u16::from_be_bytes([pkt.primary_header_bytes()[4], pkt.primary_header_bytes()[5]]);
        assert_eq!(w2, want_field, "payload len {}", payload.len());
    }
}

#[test]
fn packet_assembly_header_payload_crc() {
    let cmd = SpaceCommand { apid: 0x42, sequence_count: 7, payload: vec![0xAA, 0xBB] };
    let pkt = CcsdsPacket::from_command(&cmd).unwrap();
    let wire = pkt.to_bytes();
    let header = pkt.primary_header_bytes();
    assert_eq!(&wire[..6], header.as_slice());
    assert_eq!(&wire[6..8], cmd.payload.as_slice());
    let crc = compute_crc16_ccitt(&wire[..8]);
    assert_eq!(wire[8..10], crc.to_be_bytes());
    assert_eq!(wire.len(), 6 + cmd.payload.len() + 2);
}

#[test]
fn validate_checksum_rejects_wrong_crc_field() {
    let cmd = SpaceCommand { apid: 1, sequence_count: 0, payload: vec![0x01] };
    let mut pkt = CcsdsPacket::from_command(&cmd).unwrap();
    pkt.crc16_ccitt = 0xBAD0;
    let err = pkt.validate_checksum().unwrap_err();
    assert!(matches!(err, BridgeError::ChecksumMismatch { .. }), "{err:?}");
}

#[test]
fn test_radiation_bit_flip() {
    let cmd = SpaceCommand { apid: 0x7FF, sequence_count: 0x3FFF, payload: vec![0xDE, 0xAD, 0xBE, 0xEF] };
    let pkt = CcsdsPacket::from_command(&cmd).unwrap();
    let mut wire = pkt.to_bytes();
    assert!(CcsdsPacket::from_bytes(&wire).is_ok());
    wire[3] ^= 1;
    let err = CcsdsPacket::from_bytes(&wire).unwrap_err();
    assert!(
        matches!(err, BridgeError::ChecksumMismatch { .. }),
        "expected checksum failure, got {err:?}"
    );
}

#[test]
fn json_malformed_returns_error() {
    let err = from_json("not json").unwrap_err();
    assert!(matches!(err, BridgeError::Json(_)));
}

#[test]
fn json_valid_maps_to_space_command() {
    let j = r#"{"apid":100,"sequence_count":5,"payload":"DEADbeef"}"#;
    let cmd = from_json(j).unwrap();
    assert_eq!(cmd.apid, 100);
    assert_eq!(cmd.sequence_count, 5);
    assert_eq!(cmd.payload, vec![0xDE, 0xAD, 0xBE, 0xEF]);
}

#[test]
fn json_invalid_hex_errors() {
    let j = r#"{"apid":1,"sequence_count":0,"payload":"GG"}"#;
    let err = from_json(j).unwrap_err();
    assert!(matches!(err, BridgeError::Json(_)));
}

#[test]
fn from_bytes_round_trip() {
    let cmd = SpaceCommand { apid: 0x55, sequence_count: 0x100, payload: (0u8..=20).collect() };
    let pkt = CcsdsPacket::from_command(&cmd).unwrap();
    let wire = pkt.to_bytes();
    let back = CcsdsPacket::from_bytes(&wire).unwrap();
    assert_eq!(back.apid, pkt.apid);
    assert_eq!(back.sequence_count, pkt.sequence_count);
    assert_eq!(back.payload, pkt.payload);
    assert_eq!(back.version, pkt.version);
    assert_eq!(back.packet_type, pkt.packet_type);
    assert_eq!(back.secondary_header_flag, pkt.secondary_header_flag);
    assert_eq!(back.sequence_flags, pkt.sequence_flags);
    let crc = compute_crc16_ccitt(&wire[..wire.len() - 2]);
    assert_eq!(back.crc16_ccitt, crc);
}

#[test]
fn from_command_rejects_apid_out_of_range() {
    let cmd = SpaceCommand { apid: 0x800, sequence_count: 0, payload: vec![] };
    let err = CcsdsPacket::from_command(&cmd).unwrap_err();
    assert!(matches!(err, BridgeError::ApidOutOfRange(0x800)));
}

#[test]
fn from_command_rejects_sequence_out_of_range() {
    let cmd = SpaceCommand { apid: 0, sequence_count: 0x4000, payload: vec![] };
    let err = CcsdsPacket::from_command(&cmd).unwrap_err();
    assert!(matches!(err, BridgeError::SequenceCountOutOfRange(0x4000)));
}

#[test]
fn from_bytes_truncated_when_too_short() {
    assert!(matches!(CcsdsPacket::from_bytes(&[]).unwrap_err(), BridgeError::Truncated));
    assert!(matches!(CcsdsPacket::from_bytes(&[0u8; 7]).unwrap_err(), BridgeError::Truncated));
}

#[test]
fn from_bytes_length_mismatch() {
    let cmd = SpaceCommand { apid: 1, sequence_count: 0, payload: vec![0xAB, 0xCD] };
    let pkt = CcsdsPacket::from_command(&cmd).unwrap();
    let mut wire = pkt.to_bytes();
    wire.pop();
    let err = CcsdsPacket::from_bytes(&wire).unwrap_err();
    match err {
        BridgeError::LengthMismatch { expected, got } => {
            assert_eq!(expected, 10);
            assert_eq!(got, 9);
        }
        e => panic!("expected LengthMismatch, got {e:?}"),
    }
    wire = pkt.to_bytes();
    wire.push(0);
    let err = CcsdsPacket::from_bytes(&wire).unwrap_err();
    match err {
        BridgeError::LengthMismatch { expected, got } => {
            assert_eq!(expected, 10);
            assert_eq!(got, 11);
        }
        e => panic!("expected LengthMismatch, got {e:?}"),
    }
}

#[test]
fn validate_checksum_ok_when_crc_matches() {
    let cmd = SpaceCommand { apid: 2, sequence_count: 1, payload: vec![0x00] };
    let pkt = CcsdsPacket::from_command(&cmd).unwrap();
    let wire = pkt.to_bytes();
    let parsed = CcsdsPacket::from_bytes(&wire).unwrap();
    parsed.validate_checksum().expect("checksum should match");
}

#[test]
fn json_empty_hex_payload() {
    let j = r#"{"apid":0,"sequence_count":0,"payload":""}"#;
    let cmd = from_json(j).unwrap();
    assert!(cmd.payload.is_empty());
}

#[test]
fn json_odd_length_hex_errors() {
    let j = r#"{"apid":0,"sequence_count":0,"payload":"ABC"}"#;
    let err = from_json(j).unwrap_err();
    assert!(matches!(err, BridgeError::Json(_)));
}

#[test]
fn empty_payload_round_trip_from_bytes() {
    let cmd = SpaceCommand { apid: 0, sequence_count: 0, payload: vec![] };
    let pkt = CcsdsPacket::from_command(&cmd).unwrap();
    let wire = pkt.to_bytes();
    assert_eq!(wire.len(), 8);
    let back = CcsdsPacket::from_bytes(&wire).unwrap();
    assert!(back.payload.is_empty());
    assert_eq!(back.apid, 0);
}

#[test]
fn dictionary_specs_match_bridge_reader_mission_ids_h() {
    assert_eq!(BridgeCommandSpec::CMD_HEARTBEAT().wire_apid, 0x006);
    assert_eq!(BridgeCommandSpec::CMD_HEARTBEAT().software_bus_msg_id, 0x18F0);
    assert_eq!(BridgeCommandSpec::CMD_PING().wire_apid, 0x007);
    assert_eq!(BridgeCommandSpec::CMD_PING().software_bus_msg_id, 0x18F1);
    assert_eq!(BridgeCommandSpec::CMD_TO_LAB_ENABLE_OUTPUT().wire_apid, 0x008);
    assert_eq!(BridgeCommandSpec::CMD_TO_LAB_ENABLE_OUTPUT().software_bus_msg_id, 0x1880);
    assert_eq!(BridgeCommandSpec::CMD_TO_LAB_DISABLE_OUTPUT().wire_apid, 0x009);
    assert_eq!(BridgeCommandSpec::CMD_CFE_TBL_LOAD_FILE().wire_apid, 0x00A);
    assert_eq!(BridgeCommandSpec::CMD_CFE_TBL_LOAD_FILE().software_bus_msg_id, 0x1804);
    assert_eq!(BridgeCommandSpec::CMD_CFE_TBL_ACTIVATE().wire_apid, 0x00B);
    assert_eq!(BridgeCommandSpec::CMD_CFE_TBL_ACTIVATE().software_bus_msg_id, 0x1804);
}

#[test]
fn command_metadata_matches_dictionary_resolve() {
    for meta in command_dictionary_entries() {
        let cmd = command_dictionary_resolve(meta.name, 0, None).unwrap();
        assert_eq!(cmd.apid, meta.wire_apid);
        let spec = match meta.name {
            "CMD_HEARTBEAT" => BridgeCommandSpec::CMD_HEARTBEAT(),
            "CMD_PING" => BridgeCommandSpec::CMD_PING(),
            "CMD_TO_LAB_ENABLE_OUTPUT" => BridgeCommandSpec::CMD_TO_LAB_ENABLE_OUTPUT(),
            "CMD_TO_LAB_DISABLE_OUTPUT" => BridgeCommandSpec::CMD_TO_LAB_DISABLE_OUTPUT(),
            "CMD_CFE_TBL_LOAD_FILE" => BridgeCommandSpec::CMD_CFE_TBL_LOAD_FILE(),
            "CMD_CFE_TBL_ACTIVATE" => BridgeCommandSpec::CMD_CFE_TBL_ACTIVATE(),
            _ => panic!("unexpected dictionary name {}", meta.name),
        };
        assert_eq!(meta.software_bus_msg_id, spec.software_bus_msg_id);
    }
}

#[test]
fn dictionary_cmd_heartbeat_maps_to_wire_apid_and_crc() {
    let cmd = command_dictionary_resolve("CMD_HEARTBEAT", 0, None).unwrap();
    assert_eq!(cmd.apid, BRIDGE_WIRE_APID_HEARTBEAT);
    assert_eq!(cmd.payload, vec![0xC0, 0xFF, 0xEE]);
    let pkt = CcsdsPacket::from_command(&cmd).unwrap();
    let wire = pkt.to_bytes();
    assert_eq!(wire.len(), 11);
    let crc = compute_crc16_ccitt(&wire[..9]);
    assert_eq!(wire[9..11], crc.to_be_bytes());
}

#[test]
fn sb_msgid_constant_is_not_ccsds_apid_on_wire() {
    let cmd = command_dictionary_resolve("CMD_HEARTBEAT", 0, None).unwrap();
    let pkt = CcsdsPacket::from_command(&cmd).unwrap();
    let w0 = u16::from_be_bytes([pkt.primary_header_bytes()[0], pkt.primary_header_bytes()[1]]);
    let apid_on_wire = w0 & 0x7FF;
    assert_eq!(apid_on_wire, 0x006);
    assert_ne!(apid_on_wire as u32, BRIDGE_SB_MSGID_HEARTBEAT as u32);
}

#[test]
fn dictionary_cmd_ping_maps_to_distinct_apid() {
    let cmd = command_dictionary_resolve("CMD_PING", 0, None).unwrap();
    assert_eq!(cmd.apid, BRIDGE_WIRE_APID_PING);
    assert_eq!(cmd.payload, vec![0x50, 0x49, 0x4E]);
    let pkt = CcsdsPacket::from_command(&cmd).unwrap();
    let w0 = u16::from_be_bytes([pkt.primary_header_bytes()[0], pkt.primary_header_bytes()[1]]);
    assert_eq!(w0 & 0x7FF, BRIDGE_WIRE_APID_PING);
}

#[test]
fn dictionary_unknown_command_errors() {
    let err = command_dictionary_resolve("CMD_UNKNOWN", 0, None).unwrap_err();
    assert!(matches!(err, BridgeError::UnknownCommand(_)));
}

#[test]
fn dictionary_payload_wrong_length_errors() {
    let err = command_dictionary_resolve("CMD_HEARTBEAT", 0, Some(vec![0x01])).unwrap_err();
    assert!(matches!(err, BridgeError::PayloadConstraint { .. }));
}

#[test]
fn json_named_command_parses() {
    let j = r#"{"command":"CMD_HEARTBEAT","sequence_count":0}"#;
    let cmd = from_json(j).unwrap();
    assert_eq!(cmd.apid, BRIDGE_WIRE_APID_HEARTBEAT);
    assert_eq!(cmd.payload, vec![0xC0, 0xFF, 0xEE]);
}

#[test]
fn json_named_command_parses_ping() {
    let j = r#"{"command":"CMD_PING","sequence_count":0}"#;
    let cmd = from_json(j).unwrap();
    assert_eq!(cmd.apid, BRIDGE_WIRE_APID_PING);
    assert_eq!(cmd.payload, vec![0x50, 0x49, 0x4E]);
}

#[test]
fn json_named_command_with_hex_payload_override() {
    let j = r#"{"command":"CMD_HEARTBEAT","sequence_count":1,"payload":"010203"}"#;
    let cmd = from_json(j).unwrap();
    assert_eq!(cmd.sequence_count, 1);
    assert_eq!(cmd.payload, vec![1, 2, 3]);
}

#[test]
fn command_dictionary_entries_includes_heartbeat_and_ping() {
    let e = command_dictionary_entries();
    assert_eq!(e.len(), 6);
    assert!(e.iter().any(|c| c.name == "CMD_HEARTBEAT"));
    assert!(e.iter().any(|c| c.name == "CMD_PING"));
    assert!(e.iter().any(|c| c.name == "CMD_TO_LAB_ENABLE_OUTPUT"));
    assert!(e.iter().any(|c| c.name == "CMD_CFE_TBL_LOAD_FILE"));
}

#[test]
fn dictionary_cmd_to_lab_enable_output_wire_length() {
    let cmd = command_dictionary_resolve("CMD_TO_LAB_ENABLE_OUTPUT", 0, None).unwrap();
    assert_eq!(cmd.apid, BRIDGE_WIRE_APID_TO_LAB_ENABLE_OUTPUT);
    assert_eq!(cmd.payload.len(), 16);
    let pkt = CcsdsPacket::from_command(&cmd).unwrap();
    let wire = pkt.to_bytes();
    assert_eq!(wire.len(), 24);
}

// ---- further cases ----

#[test]
fn crc16_ccitt_false_check_value() {
    assert_eq!(compute_crc16_ccitt(b"123456789"), 0x29B1);
    assert_eq!(compute_crc16_ccitt(&[]), 0xFFFF);
}

#[test]
fn single_byte_corruption_anywhere_is_rejected() {
    let cmd = SpaceCommand { apid: 0x123, sequence_count: 77, payload: vec![9, 8, 7, 6, 5] };
    let wire = CcsdsPacket::from_command(&cmd).unwrap().to_bytes();
    for k in 0..wire.len() {
        for x in [0x01u8, 0x80, 0xFF, 0x5A] {
            let mut bad = wire.clone();
            bad[k] ^= x;
            assert!(CcsdsPacket::from_bytes(&bad).is_err(), "byte {k} xor {x:#x} accepted");
        }
    }
}

#[test]
fn reencode_of_parsed_frame_is_identical() {
    let cmd = SpaceCommand { apid: 0x7FF, sequence_count: 0x3FFF, payload: vec![1; 40] };
    let wire = CcsdsPacket::from_command(&cmd).unwrap().to_bytes();
    let parsed = CcsdsPacket::from_bytes(&wire).unwrap();
    assert_eq!(parsed.to_bytes(), wire);
}

#[test]
fn from_bytes_reports_expected_and_stored_crc() {
    let cmd = SpaceCommand { apid: 3, sequence_count: 4, payload: vec![0x10, 0x20] };
    let mut wire = CcsdsPacket::from_command(&cmd).unwrap().to_bytes();
    let good = u16::from_be_bytes([wire[8], wire[9]]);
    wire[9] ^= 0xFF;
    match CcsdsPacket::from_bytes(&wire).unwrap_err() {
        BridgeError::ChecksumMismatch { expected, got } => {
            assert_eq!(expected, good);
            assert_eq!(got, good ^ 0x00FF);
        }
        e => panic!("unexpected {e:?}"),
    }
}

#[test]
fn resolve_rejects_sequence_count_above_14_bits() {
    let err = command_dictionary_resolve("CMD_PING", 0x4000, None).unwrap_err();
    assert!(matches!(err, BridgeError::SequenceCountOutOfRange(0x4000)));
}

#[test]
fn disable_output_has_empty_payload() {
    let cmd = command_dictionary_resolve("CMD_TO_LAB_DISABLE_OUTPUT", 5, None).unwrap();
    assert!(cmd.payload.is_empty());
    assert_eq!(cmd.sequence_count, 5);
    let wire = CcsdsPacket::from_command(&cmd).unwrap().to_bytes();
    assert_eq!(wire.len(), 8);
    assert_eq!(&wire[4..6], &[0xFF, 0xFF]);
}

#[test]
fn decode_hex_trims_and_reports_digits() {
    assert_eq!(decode_hex("  0a0B \n").unwrap(), vec![0x0A, 0x0B]);
    assert_eq!(decode_hex("").unwrap(), Vec::<u8>::new());
    assert_eq!(
        decode_hex("abc").unwrap_err(),
        "hex payload must have an even number of digits"
    );
    assert_eq!(decode_hex("0g").unwrap_err(), "invalid hex digit: 'g'");
    assert_eq!(decode_hex("x0").unwrap_err(), "invalid hex digit: 'x'");
}

#[test]
fn named_json_with_bad_hex_is_hex_payload_error() {
    let err = from_json(r#"{"command":"CMD_HEARTBEAT","payload":"zz"}"#).unwrap_err();
    assert!(matches!(err, BridgeError::HexPayload(_)));
}

#[test]
fn metadata_payload_constraints_follow_rules() {
    let e = command_dictionary_entries();
    assert_eq!(e[0].payload, PayloadConstraintJson::Exact { bytes: 3 });
    assert_eq!(e[2].payload, PayloadConstraintJson::Exact { bytes: 16 });
    assert_eq!(e[3].payload, PayloadConstraintJson::Exact { bytes: 0 });
    assert_eq!(e[4].payload, PayloadConstraintJson::Exact { bytes: 64 });
    assert_eq!(e[5].payload, PayloadConstraintJson::Exact { bytes: 40 });
    assert_eq!(e[1].title, "Ping");
}

#[test]
fn crc16_of_message_with_its_crc_appended_is_zero() {
    for data in [&b""[..], b"123456789", &[0xC0, 0xFF, 0xEE], &[0x00; 7]] {
        let mut framed = data.to_vec();
        framed.extend_from_slice(&compute_crc16_ccitt(data).to_be_bytes());
        assert_eq!(compute_crc16_ccitt(&framed), 0);
    }
}
