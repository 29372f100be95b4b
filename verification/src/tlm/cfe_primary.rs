//! CCSDS Space Packet primary header (6 bytes), no CRC (telemetry downlink from cFS).

use vstd::prelude::*;

use crate::packet::{
    be_bytes, be_u16, data_length_field, header_word0, header_word1, lemma_be_bytes_read,
    lemma_be_join, lemma_header_words_decode, lemma_word_fields, spec_primary_header, wire_word,
};

verus! {

/// Parsed CCSDS primary header fields (telecommand or telemetry).
#[derive(Debug, Clone, PartialEq, Eq)]
pub struct CcsdsPrimaryHeader {
    pub version: u8,
    pub packet_type: u8,
    pub secondary_header_flag: bool,
    pub apid: u16,
    pub sequence_flags: u8,
    pub sequence_count: u16,
    /// CCSDS packet data length field (last 16 bits of primary header).
    pub data_length_field: u16,
}

/// The primary header carried by the first six bytes of `d`.
pub open spec fn spec_primary_of(d: Seq<u8>) -> CcsdsPrimaryHeader {
    let w0 = wire_word(d, 0);
    let w1 = wire_word(d, 2);
    CcsdsPrimaryHeader {
        version: (w0 / 8192) as u8,
        packet_type: ((w0 / 4096) % 2) as u8,
        secondary_header_flag: (w0 / 2048) % 2 == 1,
        apid: w0 % 2048,
        sequence_flags: (w1 / 16384) as u8,
        sequence_count: w1 % 16384,
        data_length_field: wire_word(d, 4),
    }
}

/// Header parse of `d`: `None` below six bytes.
pub open spec fn spec_parse_primary(d: Seq<u8>) -> Option<CcsdsPrimaryHeader> {
    if d.len() < 6 {
        None
    } else {
        Some(spec_primary_of(d))
    }
}

impl CcsdsPrimaryHeader {
    /// Total bytes the header announces: 6 + `data_length_field` + 1.
    pub open spec fn spec_total_bytes(&self) -> nat {
        (6 + self.data_length_field + 1) as nat
    }

    /// Parses the first 6 bytes as a CCSDS primary header (big-endian 16-bit words).
    pub fn parse(data: &[u8]) -> (r: Option<Self>)
        ensures
            r == spec_parse_primary(data@),
    {
        if data.len() < 6 {
            return None;
        }
        let w0: u16 = ((data[0] as u16) << 8u16) | (data[1] as u16);
        let w1: u16 = ((data[2] as u16) << 8u16) | (data[3] as u16);
        let w2: u16 = ((data[4] as u16) << 8u16) | (data[5] as u16);
        proof {
            lemma_be_join(data[0], data[1]);
            lemma_be_join(data[2], data[3]);
            lemma_be_join(data[4], data[5]);
            lemma_word_fields(w0, w1);
        }
        Some(
            CcsdsPrimaryHeader {
                version: ((w0 >> 13u16) & 0x7) as u8,
                packet_type: ((w0 >> 12u16) & 1) as u8,
                secondary_header_flag: ((w0 >> 11u16) & 1) != 0,
                apid: w0 & 0x7FF,
                sequence_flags: ((w1 >> 14u16) & 0x3) as u8,
                sequence_count: w1 & 0x3FFF,
                data_length_field: w2,
            },
        )
    }

    /// Total packet length in bytes from primary header through user data field (inclusive), excluding CRC if present.
    /// `total_user_data = data_length_field + 1` per CCSDS; primary is 6 bytes.
    pub fn total_bytes_including_primary(&self) -> (n: usize)
        ensures
            n == self.spec_total_bytes(),
    {
        let user_data_len = (self.data_length_field as usize) + 1;
        6 + user_data_len
    }
}

/// Round trip against the telecommand encoder: parsing a primary header built by the bridge's
/// framing (version, type, secondary-header flag, APID, sequence flags, sequence count, data
/// length) gives each field back, whatever follows the header.
pub proof fn lemma_primary_header_round_trip(
    version: u8,
    packet_type: u8,
    sec: bool,
    apid: u16,
    flags: u8,
    sequence_count: u16,
    payload_len: nat,
    rest: Seq<u8>,
)
    requires
        version < 8,
        packet_type < 2,
        apid < 2048,
        flags < 4,
        sequence_count < 16384,
    ensures
        spec_parse_primary(
            spec_primary_header(version, packet_type, sec, apid, flags, sequence_count, payload_len)
                + rest,
        ) == Some(
            CcsdsPrimaryHeader {
                version,
                packet_type,
                secondary_header_flag: sec,
                apid,
                sequence_flags: flags,
                sequence_count,
                data_length_field: data_length_field(payload_len),
            },
        ),
{
    let w0 = header_word0(version, packet_type, sec, apid);
    let w1 = header_word1(flags, sequence_count);
    let w2 = data_length_field(payload_len);
    let d = spec_primary_header(version, packet_type, sec, apid, flags, sequence_count, payload_len)
        + rest;
    lemma_header_bytes_read(w0, w1, w2, rest);
    let sb: int = if sec {
        1
    } else {
        0
    };
    lemma_header_words_decode(
        version as int,
        packet_type as int,
        sb,
        apid as int,
        flags as int,
        sequence_count as int,
    );
    assert(w0 as int == version as int * 8192 + packet_type as int * 4096 + sb * 2048 + apid as int);
    assert(w1 as int == flags as int * 16384 + sequence_count as int);
}

/// The three header words read back from their big-endian bytes.
proof fn lemma_header_bytes_read(w0: u16, w1: u16, w2: u16, rest: Seq<u8>)
    ensures
        ({
            let d = be_bytes(w0) + be_bytes(w1) + be_bytes(w2) + rest;
            &&& d.len() >= 6
            &&& wire_word(d, 0) == w0
            &&& wire_word(d, 2) == w1
            &&& wire_word(d, 4) == w2
        }),
{
    let d = be_bytes(w0) + be_bytes(w1) + be_bytes(w2) + rest;
    lemma_be_bytes_read(w0);
    lemma_be_bytes_read(w1);
    lemma_be_bytes_read(w2);
    assert(d[0] == be_bytes(w0)[0] && d[1] == be_bytes(w0)[1]);
    assert(d[2] == be_bytes(w1)[0] && d[3] == be_bytes(w1)[1]);
    assert(d[4] == be_bytes(w2)[0] && d[5] == be_bytes(w2)[1]);
}

} // verus!
