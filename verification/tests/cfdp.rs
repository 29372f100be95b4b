//! CFDP PDU encoding, checksum and Class 1 slicing tests.

use rust_bridge::cfdp::pdu::{
    encode_eof_pdu, encode_file_data_pdu, encode_metadata_pdu, CommonHeader, Direction, Mib,
    PduError, PduType, TransmissionMode,
};
use rust_bridge::cfdp::sender::{build_class1_pdus, cf_modular_checksum_u32, CfdpFileTransferConfig, SendStep};

#[test]
fn header_bitfields_match_cf_codec_layout() {
    let mib = Mib::default();
    let h = CommonHeader {
        version: 1,
        pdu_type: PduType::FileDirective,
        direction: Direction::TowardReceiver,
        tx_mode: TransmissionMode::Unacknowledged,
        crc_flag: 0,
        large_file_flag: 0,
        segmentation_control: 0,
        segment_metadata_flag: 0,
        entity_id_len: 2,
        txn_seq_len: 4,
        source_eid: 0x0019,
        transaction_seq: 0xAABBCCDD,
        destination_eid: 0x0017,
    };
    let enc = h.encode_without_length().unwrap();
    assert_eq!(enc[0], 0x20);
    assert_eq!(&enc[1..3], &[0, 0]);
    assert_eq!(enc[3], 0x13);
    assert_eq!(&enc[4..6], &0x0019u16.to_be_bytes());
    assert_eq!(&enc[6..10], &0xAABBCCDDu32.to_be_bytes());
    assert_eq!(&enc[10..12], &0x0017u16.to_be_bytes());

    let p = encode_metadata_pdu(&mib, 0x0019, 0x0017, 0xAABBCCDD, 123, 0, false, "a", "b").unwrap();
    let header_len = 4 + mib.entity_id_len + mib.txn_seq_len + mib.entity_id_len;
    let want = (p.len() - header_len) as u16;
    assert_eq!(&p[1..3], &want.to_be_bytes());
}

#[test]
fn modular_checksum_matches_cf_algorithm_examples() {
    assert_eq!(cf_modular_checksum_u32(&[]), 0);
    assert_eq!(cf_modular_checksum_u32(&[0x01]), 0x0100_0000);
    assert_eq!(cf_modular_checksum_u32(&[0x01, 0x02]), 0x0102_0000);
    assert_eq!(cf_modular_checksum_u32(&[0x01, 0x02, 0x03]), 0x0102_0300);
    assert_eq!(cf_modular_checksum_u32(&[0x01, 0x02, 0x03, 0x04]), 0x0102_0304);
    assert_eq!(
        cf_modular_checksum_u32(&[0x01, 0x02, 0x03, 0x04, 0x05]),
        0x0102_0304u32.wrapping_add(0x0500_0000)
    );
}

fn slicer_cfg(max_segment_data: usize) -> CfdpFileTransferConfig {
    CfdpFileTransferConfig {
        source_eid: 25,
        destination_eid: 23,
        transaction_seq: 0x01020304,
        src_filename: "weights.tbl".into(),
        dst_filename: "/cf/ai_app_weights.tbl".into(),
        checksum_type: 0,
        closure_requested: false,
        max_segment_data,
    }
}

#[test]
fn slicer_covers_entire_buffer_with_monotonic_offsets() {
    let mib = Mib::default();
    let cfg = slicer_cfg(7);
    let image: Vec<u8> = (0u8..=31).collect();
    let pdus = build_class1_pdus(&mib, &cfg, &image, 0).unwrap();
    assert!(matches!(pdus[0].0, SendStep::Metadata));
    assert!(matches!(pdus.last().unwrap().0, SendStep::Eof));

    let mut saw = vec![false; image.len()];
    let mut last_off = 0usize;
    for (step, pdu) in pdus.iter().skip(1).take(pdus.len() - 2) {
        let SendStep::FileData { offset, len } = step else {
            panic!("expected file data step");
        };
        assert_eq!(*offset, last_off);
        assert!(*len > 0);
        for s in saw.iter_mut().skip(*offset).take(*len) {
            *s = true;
        }
        last_off += *len;
        assert!(!pdu.is_empty());
    }
    assert!(saw.iter().all(|x| *x));
}

#[test]
fn slicer_segment_lengths_are_full_then_remainder() {
    let mib = Mib::default();
    let image: Vec<u8> = (0u8..=31).collect();
    let pdus = build_class1_pdus(&mib, &slicer_cfg(7), &image, 0).unwrap();
    // 32 bytes in 7-byte pieces: 7, 7, 7, 7, 4 between Metadata and EOF.
    assert_eq!(pdus.len(), 7);
    let lens: Vec<usize> = pdus
        .iter()
        .filter_map(|(s, _)| match s {
            SendStep::FileData { len, .. } => Some(*len),
            _ => None,
        })
        .collect();
    assert_eq!(lens, vec![7, 7, 7, 7, 4]);
}

#[test]
fn slicer_empty_image_is_metadata_then_eof() {
    let mib = Mib::default();
    let pdus = build_class1_pdus(&mib, &slicer_cfg(7), &[], 0).unwrap();
    assert_eq!(pdus.len(), 2);
    assert_eq!(pdus[0].0, SendStep::Metadata);
    assert_eq!(pdus[1].0, SendStep::Eof);
}

#[test]
fn file_data_pdu_carries_offset_and_bytes() {
    let mib = Mib::default();
    let p = encode_file_data_pdu(&mib, 25, 23, 7, 0x0102_0304, &[0xAA, 0xBB]).unwrap();
    // Header (4 + 2 + 4 + 2 = 12 bytes), then 4-byte big-endian offset, then data.
    assert_eq!(p.len(), 12 + 4 + 2);
    assert_eq!(p[0] & 0x10, 0x10, "file data PDUs set the type bit");
    assert_eq!(&p[1..3], &6u16.to_be_bytes());
    assert_eq!(&p[12..16], &[0x01, 0x02, 0x03, 0x04]);
    assert_eq!(&p[16..18], &[0xAA, 0xBB]);
}

#[test]
fn eof_pdu_holds_checksum_and_size() {
    let mib = Mib::default();
    let p = encode_eof_pdu(&mib, 25, 23, 7, 0, 0xDEADBEEF, 32).unwrap();
    // Header, directive code 0x04, condition/spare byte, checksum, file size.
    assert_eq!(p.len(), 12 + 1 + 1 + 4 + 4);
    assert_eq!(p[12], 0x04);
    assert_eq!(&p[14..18], &0xDEADBEEFu32.to_be_bytes());
    assert_eq!(&p[18..22], &32u32.to_be_bytes());
}

#[test]
fn header_rejects_zero_entity_length() {
    let h = CommonHeader {
        version: 1,
        pdu_type: PduType::FileDirective,
        direction: Direction::TowardReceiver,
        tx_mode: TransmissionMode::Unacknowledged,
        crc_flag: 0,
        large_file_flag: 0,
        segmentation_control: 0,
        segment_metadata_flag: 0,
        entity_id_len: 0,
        txn_seq_len: 4,
        source_eid: 1,
        transaction_seq: 1,
        destination_eid: 1,
    };
    assert!(matches!(h.encode_without_length(), Err(PduError::BadLen(_))));
}

#[test]
fn modular_checksum_adds_over_word_aligned_prefix() {
    let a = [0x01, 0x02, 0x03, 0x04, 0xF0, 0x00, 0x00, 0x01];
    let b = [0x10, 0x20, 0x30, 0x40, 0x50];
    let ab: Vec<u8> = a.iter().chain(b.iter()).copied().collect();
    assert_eq!(
        cf_modular_checksum_u32(&ab),
        cf_modular_checksum_u32(&a).wrapping_add(cf_modular_checksum_u32(&b))
    );
}
