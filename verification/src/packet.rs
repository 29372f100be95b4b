//! Telecommand wire format: `[ 6-byte CCSDS primary header ][ N-byte payload ][ CRC-16 BE ]`.
//!
//! The CRC is CRC-16/CCITT-FALSE (poly `0x1021`, init `0xFFFF`) over the first `6 + N` bytes.

use vstd::prelude::*;

use crate::crc::{compute_crc16_ccitt, spec_crc16_ccitt, lemma_crc16_detects_single_byte_error};

verus! {

/// Errors of command resolution, JSON conversion and wire parsing.
#[derive(Debug, Clone, PartialEq, Eq)]
pub enum BridgeError {
    UnknownCommand(String),
    PayloadConstraint { command: String, expected: usize, got: usize },
    PayloadConstraintRange { min: usize, max: usize, got: usize },
    ApidOutOfRange(u16),
    SequenceCountOutOfRange(u16),
    Truncated,
    LengthMismatch { expected: usize, got: usize },
    ChecksumMismatch { expected: u16, got: u16 },
    /// The JSON text did not parse into a command (the parser's message).
    Json(String),
    HexPayload(String),
}

/// A command ready to be framed: wire APID, sequence count and payload bytes.
#[derive(Debug, Clone, PartialEq, Eq)]
pub struct SpaceCommand {
    pub apid: u16,
    pub sequence_count: u16,
    pub payload: Vec<u8>,
}

/// Big-endian 16-bit word from two bytes.
pub open spec fn be_u16(hi: u8, lo: u8) -> u16 {
    (hi as int * 256 + lo as int) as u16
}

/// The two big-endian bytes of `w`.
pub open spec fn be_bytes(w: u16) -> Seq<u8> {
    seq![(w / 256) as u8, (w % 256) as u8]
}

/// First header word: version (3 bits), type (1), secondary-header flag (1), APID (11).
pub open spec fn header_word0(version: u8, packet_type: u8, sec: bool, apid: u16) -> u16 {
    ((version % 8) as int * 8192 + (packet_type % 2) as int * 4096 + (if sec {
        2048int
    } else {
        0int
    }) + (apid % 2048) as int) as u16
}

/// Second header word: sequence flags (2 bits), sequence count (14).
pub open spec fn header_word1(flags: u8, sequence_count: u16) -> u16 {
    ((flags % 4) as int * 16384 + (sequence_count % 16384) as int) as u16
}

/// CCSDS Packet Data Length field for an `n`-byte data field: `n - 1` (truncated to 16 bits),
/// and `0xFFFF` for an empty data field.
pub open spec fn data_length_field(n: nat) -> u16 {
    if n == 0 {
        0xFFFFu16
    } else {
        ((n - 1) % 65536) as u16
    }
}

/// Payload length that a Packet Data Length field announces.
pub open spec fn payload_len_of_field(field: u16) -> nat {
    if field == 0xFFFF {
        0
    } else {
        (field + 1) as nat
    }
}

/// The 6-byte primary header for the given field values.
pub open spec fn spec_primary_header(
    version: u8,
    packet_type: u8,
    sec: bool,
    apid: u16,
    flags: u8,
    sequence_count: u16,
    payload_len: nat,
) -> Seq<u8> {
    be_bytes(header_word0(version, packet_type, sec, apid)) + be_bytes(
        header_word1(flags, sequence_count),
    ) + be_bytes(data_length_field(payload_len))
}

/// `header || payload || CRC-16 BE`.
pub open spec fn spec_frame(header: Seq<u8>, payload: Seq<u8>) -> Seq<u8> {
    (header + payload) + be_bytes(spec_crc16_ccitt(header + payload))
}

/// 16-bit big-endian word at byte `i` of `d`.
pub open spec fn wire_word(d: Seq<u8>, i: int) -> u16 {
    be_u16(d[i], d[i + 1])
}

/// Payload length announced by the header of `d`.
pub open spec fn wire_payload_len(d: Seq<u8>) -> nat {
    payload_len_of_field(wire_word(d, 4))
}

/// Frame length (header, payload and CRC) announced by the header of `d`.
pub open spec fn wire_total_len(d: Seq<u8>) -> nat {
    6 + wire_payload_len(d) + 2
}

/// CRC trailer stored in the last two bytes of `d`.
pub open spec fn wire_stored_crc(d: Seq<u8>) -> u16 {
    wire_word(d, d.len() - 2)
}

/// CRC computed over everything but the last two bytes of `d`.
pub open spec fn wire_computed_crc(d: Seq<u8>) -> u16 {
    spec_crc16_ccitt(d.take(d.len() - 2))
}

/// `d` is a complete frame: at least 8 bytes, the announced length, and a matching CRC.
pub open spec fn wire_is_valid(d: Seq<u8>) -> bool {
    &&& d.len() >= 8
    &&& d.len() == wire_total_len(d)
    &&& wire_stored_crc(d) == wire_computed_crc(d)
}

/// CCSDS space packet primary header fields, payload, and expected CRC (from wire or validation).
#[derive(Debug, Clone, PartialEq, Eq)]
pub struct CcsdsPacket {
    pub version: u8,
    /// 0 = telemetry, 1 = telecommand (CCSDS type bit).
    pub packet_type: u8,
    pub secondary_header_flag: bool,
    pub apid: u16,
    pub sequence_flags: u8,
    pub sequence_count: u16,
    pub payload: Vec<u8>,
    /// CRC-16/CCITT-FALSE over `primary_header_bytes() || payload`; trailing two bytes on the wire.
    pub crc16_ccitt: u16,
}

impl CcsdsPacket {
    /// The header this packet serializes to.
    pub open spec fn spec_header(&self) -> Seq<u8> {
        spec_primary_header(
            self.version,
            self.packet_type,
            self.secondary_header_flag,
            self.apid,
            self.sequence_flags,
            self.sequence_count,
            self.payload@.len(),
        )
    }

    /// The bytes the CRC covers: header and payload.
    pub open spec fn spec_covered(&self) -> Seq<u8> {
        self.spec_header() + self.payload@
    }

    /// The full frame this packet serializes to (the CRC is always recomputed).
    pub open spec fn spec_wire(&self) -> Seq<u8> {
        spec_frame(self.spec_header(), self.payload@)
    }

    /// Every field fits its bit width and the payload length fits the 16-bit length field.
    pub open spec fn fields_in_range(&self) -> bool {
        &&& self.version < 8
        &&& self.packet_type < 2
        &&& self.sequence_flags < 4
        &&& self.apid <= 0x7FF
        &&& self.sequence_count <= 0x3FFF
        &&& self.payload@.len() <= 0xFFFF
    }

    /// Header fields and payload are those that the frame `d` carries.
    pub open spec fn fields_match_wire(&self, d: Seq<u8>) -> bool {
        let w0 = wire_word(d, 0);
        let w1 = wire_word(d, 2);
        &&& self.version == (w0 / 8192) as u8
        &&& self.packet_type == ((w0 / 4096) % 2) as u8
        &&& self.secondary_header_flag == ((w0 / 2048) % 2 == 1)
        &&& self.apid == w0 % 2048
        &&& self.sequence_flags == (w1 / 16384) as u8
        &&& self.sequence_count == w1 % 16384
        &&& self.payload@ == d.subrange(6, 6 + wire_payload_len(d) as int)
    }

    /// Header fields, payload and stored CRC are those of the frame `d`.
    pub open spec fn matches_wire(&self, d: Seq<u8>) -> bool {
        &&& self.fields_match_wire(d)
        &&& self.crc16_ccitt == wire_stored_crc(d)
    }

    /// Default bridge packet: TC, no secondary header, unsegmented sequence flags.
    pub fn from_command(cmd: &SpaceCommand) -> (r: Result<Self, BridgeError>)
        ensures
            cmd.apid > 0x7FF ==> r == Err::<Self, BridgeError>(BridgeError::ApidOutOfRange(cmd.apid)),
            cmd.apid <= 0x7FF && cmd.sequence_count > 0x3FFF ==> r == Err::<Self, BridgeError>(
                BridgeError::SequenceCountOutOfRange(cmd.sequence_count),
            ),
            cmd.apid <= 0x7FF && cmd.sequence_count <= 0x3FFF ==> (r matches Ok(p) && {
                &&& p.version == 0
                &&& p.packet_type == 1
                &&& !p.secondary_header_flag
                &&& p.apid == cmd.apid
                &&& p.sequence_flags == 3
                &&& p.sequence_count == cmd.sequence_count
                &&& p.payload@ == cmd.payload@
                &&& p.crc16_ccitt == 0
            }),
    {
        if cmd.apid > 0x7FF {
            return Err(BridgeError::ApidOutOfRange(cmd.apid));
        }
        if cmd.sequence_count > 0x3FFF {
            return Err(BridgeError::SequenceCountOutOfRange(cmd.sequence_count));
        }
        Ok(CcsdsPacket {
            version: 0,
            packet_type: 1,
            secondary_header_flag: false,
            apid: cmd.apid,
            sequence_flags: 0b11,
            sequence_count: cmd.sequence_count,
            payload: vstd::slice::slice_to_vec(cmd.payload.as_slice()),
            crc16_ccitt: 0,
        })
    }

    /// Builds the 6-byte primary header (big-endian 16-bit words per CCSDS).
    pub fn primary_header_bytes(&self) -> (h: [u8; 6])
        ensures
            h@ == self.spec_header(),
    {
        let v: u16 = self.version as u16;
        let t: u16 = self.packet_type as u16;
        let s: u16 = if self.secondary_header_flag {
            1
        } else {
            0
        };
        let w0: u16 = ((v & 0x7) << 13u16) | ((t & 1) << 12u16) | (s << 11u16) | (self.apid & 0x7FF);
        let f: u16 = self.sequence_flags as u16;
        let w1: u16 = ((f & 0x3) << 14u16) | (self.sequence_count & 0x3FFF);
        let w2: u16 = packet_data_length_field(self.payload.len());
        proof {
            lemma_word0_bits(v, t, s, self.apid);
            lemma_word1_bits(f, self.sequence_count);
            lemma_be_split(w0);
            lemma_be_split(w1);
            lemma_be_split(w2);
        }
        let out: [u8; 6] = [
            (w0 >> 8u16) as u8,
            (w0 & 0xFF) as u8,
            (w1 >> 8u16) as u8,
            (w1 & 0xFF) as u8,
            (w2 >> 8u16) as u8,
            (w2 & 0xFF) as u8,
        ];
        assert(out@ =~= self.spec_header());
        out
    }

    /// Serializes `primary_header || payload || CRC-16 BE`. CRC is always computed from header+payload.
    pub fn to_bytes(&self) -> (w: Vec<u8>)
        ensures
            w@ == self.spec_wire(),
            w@.len() == 6 + self.payload@.len() + 2,
    {
        let header = self.primary_header_bytes();
        let mut buf: Vec<u8> = Vec::new();
        push_all(&mut buf, &header);
        push_all(&mut buf, self.payload.as_slice());
        let crc = compute_crc16_ccitt(buf.as_slice());
        proof {
            lemma_be_split(crc);
        }
        buf.push((crc >> 8u16) as u8);
        buf.push((crc & 0xFF) as u8);
        assert(buf@ =~= self.spec_wire());
        buf
    }

    /// Parses a wire buffer and verifies its checksum.
    pub fn from_bytes(data: &[u8]) -> (r: Result<Self, BridgeError>)
        ensures
            data@.len() < 8 ==> r == Err::<Self, BridgeError>(BridgeError::Truncated),
            data@.len() >= 8 && data@.len() != wire_total_len(data@) ==> r == Err::<
                Self,
                BridgeError,
            >(
                BridgeError::LengthMismatch {
                    expected: wire_total_len(data@) as usize,
                    got: data@.len() as usize,
                },
            ),
            data@.len() >= 8 && data@.len() == wire_total_len(data@) && wire_stored_crc(data@)
                != wire_computed_crc(data@) ==> r == Err::<Self, BridgeError>(
                BridgeError::ChecksumMismatch {
                    expected: wire_computed_crc(data@),
                    got: wire_stored_crc(data@),
                },
            ),
            wire_is_valid(data@) ==> (r matches Ok(p) && p.matches_wire(data@)),
            r is Ok <==> wire_is_valid(data@),
    {
        if data.len() < 8 {
            return Err(BridgeError::Truncated);
        }
        let w0: u16 = ((data[0] as u16) << 8u16) | (data[1] as u16);
        let w1: u16 = ((data[2] as u16) << 8u16) | (data[3] as u16);
        let w2: u16 = ((data[4] as u16) << 8u16) | (data[5] as u16);
        proof {
            lemma_be_join(data[0], data[1]);
            lemma_be_join(data[2], data[3]);
            lemma_be_join(data[4], data[5]);
            lemma_word_fields(w0, w1);
        }
        let version = ((w0 >> 13u16) & 0x7) as u8;
        let packet_type = ((w0 >> 12u16) & 1) as u8;
        let secondary_header_flag = ((w0 >> 11u16) & 1) != 0;
        let apid = w0 & 0x7FF;
        let sequence_flags = ((w1 >> 14u16) & 0x3) as u8;
        let sequence_count = w1 & 0x3FFF;

        let payload_len = payload_len_from_data_length_field(w2);
        let total = 6 + payload_len + 2;
        if data.len() != total {
            return Err(BridgeError::LengthMismatch { expected: total, got: data.len() });
        }
        let payload = vstd::slice::slice_to_vec(slice_range(data, 6, 6 + payload_len));
        let c0 = data[6 + payload_len];
        let c1 = data[6 + payload_len + 1];
        let crc16_ccitt: u16 = ((c0 as u16) << 8u16) | (c1 as u16);
        proof {
            lemma_be_join(c0, c1);
        }
        let pkt = CcsdsPacket {
            version,
            packet_type,
            secondary_header_flag,
            apid,
            sequence_flags,
            sequence_count,
            payload,
            crc16_ccitt,
        };
        proof {
            lemma_header_rebuild(data@, pkt);
            assert(pkt.spec_covered() =~= data@.take(data@.len() - 2));
        }
        match pkt.validate_checksum() {
            Ok(()) => Ok(pkt),
            Err(e) => Err(e),
        }
    }

    /// Recomputes CRC over `primary_header_bytes() || payload` and compares to `crc16_ccitt`.
    pub fn validate_checksum(&self) -> (r: Result<(), BridgeError>)
        ensures
            self.crc16_ccitt == spec_crc16_ccitt(self.spec_covered()) ==> r is Ok,
            self.crc16_ccitt != spec_crc16_ccitt(self.spec_covered()) ==> r == Err::<
                (),
                BridgeError,
            >(
                BridgeError::ChecksumMismatch {
                    expected: spec_crc16_ccitt(self.spec_covered()),
                    got: self.crc16_ccitt,
                },
            ),
    {
        let header = self.primary_header_bytes();
        let mut covered: Vec<u8> = Vec::new();
        push_all(&mut covered, &header);
        push_all(&mut covered, self.payload.as_slice());
        assert(covered@ =~= self.spec_covered());
        let expected = compute_crc16_ccitt(covered.as_slice());
        if expected == self.crc16_ccitt {
            Ok(())
        } else {
            Err(BridgeError::ChecksumMismatch { expected, got: self.crc16_ccitt })
        }
    }

    /// Length of the frame this packet serializes to.
    pub fn wire_length(&self) -> (n: usize)
        requires
            self.payload@.len() + 8 <= usize::MAX,
        ensures
            n == self.spec_wire().len(),
    {
        6 + self.payload.len() + 2
    }
}

/// CCSDS Packet Data Length field: `N - 1` for `N > 0`; `0xFFFF` means zero-byte data field.
pub fn packet_data_length_field(payload_len: usize) -> (f: u16)
    ensures
        f == data_length_field(payload_len as nat),
{
    if payload_len == 0 {
        0xFFFF
    } else {
        ((payload_len - 1) % 65536) as u16
    }
}

/// Payload length announced by a Packet Data Length field.
pub fn payload_len_from_data_length_field(field: u16) -> (n: usize)
    ensures
        n as nat == payload_len_of_field(field),
        n <= 0x10000,
{
    if field == 0xFFFF {
        0
    } else {
        field as usize + 1
    }
}

/// Appends every byte of `src` to `dst`.
pub fn push_all(dst: &mut Vec<u8>, src: &[u8])
    ensures
        final(dst)@ == old(dst)@ + src@,
{
    let ghost start = dst@;
    let mut i: usize = 0;
    while i < src.len()
        invariant
            i <= src@.len(),
            dst@ == start + src@.take(i as int),
        decreases src@.len() - i,
    {
        dst.push(src[i]);
        proof {
            assert(src@.take(i + 1) =~= src@.take(i as int).push(src@[i as int]));
        }
        i = i + 1;
    }
    proof {
        assert(src@.take(src@.len() as int) =~= src@);
    }
}

/// The sub-slice `s[lo..hi]`.
pub fn slice_range(s: &[u8], lo: usize, hi: usize) -> (r: &[u8])
    requires
        lo <= hi <= s@.len(),
    ensures
        r@ == s@.subrange(lo as int, hi as int),
{
    &s[lo..hi]
}

/// Packing the first header word with shifts and masks is the arithmetic `header_word0`.
pub proof fn lemma_word0_bits(v: u16, t: u16, s: u16, apid: u16)
    requires
        v < 256,
        t < 256,
        s <= 1,
    ensures
        ((v & 0x7) << 13u16) | ((t & 1) << 12u16) | (s << 11u16) | (apid & 0x7FF) == header_word0(
            v as u8,
            t as u8,
            s == 1,
            apid,
        ),
{
    assert(((v & 0x7) << 13u16) | ((t & 1) << 12u16) | (s << 11u16) | (apid & 0x7FF) == ((v % 8) * 8192 + (t % 2) * 4096 + s * 2048 + apid % 2048) as u16) by (bit_vector)
        requires
            s <= 1,
    ;
    assert((v as u8) % 8 == v % 8);
    assert((t as u8) % 2 == t % 2);
}

/// Packing the second header word with shifts and masks is the arithmetic `header_word1`.
pub proof fn lemma_word1_bits(f: u16, sequence_count: u16)
    requires
        f < 256,
    ensures
        ((f & 0x3) << 14u16) | (sequence_count & 0x3FFF) == header_word1(f as u8, sequence_count),
{
    assert(((f & 0x3) << 14u16) | (sequence_count & 0x3FFF) == ((f % 4) * 16384 + sequence_count % 16384) as u16) by (bit_vector);
    assert((f as u8) % 4 == f % 4);
}

/// Splitting a word into bytes with shifts and masks gives `be_bytes`.
pub proof fn lemma_be_split(w: u16)
    ensures
        (w >> 8u16) as u8 == (w / 256) as u8,
        (w & 0xFF) as u8 == (w % 256) as u8,
{
    assert(((w >> 8u16) == w / 256) && ((w & 0xFF) == w % 256)) by (bit_vector);
}

/// Joining two bytes with shifts and masks gives `be_u16`.
pub proof fn lemma_be_join(hi: u8, lo: u8)
    ensures
        ((hi as u16) << 8u16) | (lo as u16) == be_u16(hi, lo),
{
    assert(((hi as u16) << 8u16) | (lo as u16) == (hi as u16) * 256 + (lo as u16)) by (bit_vector);
}

/// Extracting header fields with shifts and masks gives the arithmetic field values.
pub proof fn lemma_word_fields(w0: u16, w1: u16)
    ensures
        ((w0 >> 13u16) & 0x7) as u8 == (w0 / 8192) as u8,
        ((w0 >> 12u16) & 1) as u8 == ((w0 / 4096) % 2) as u8,
        (((w0 >> 11u16) & 1) != 0) == ((w0 / 2048) % 2 == 1),
        w0 & 0x7FF == w0 % 2048,
        ((w1 >> 14u16) & 0x3) as u8 == (w1 / 16384) as u8,
        w1 & 0x3FFF == w1 % 16384,
{
    assert((((w0 >> 13u16) & 0x7) == w0 / 8192) && (((w0 >> 12u16) & 1) == (w0 / 4096) % 2) && (((w0 >> 11u16) & 1) == (w0 / 2048) % 2) && (w0 & 0x7FF == w0 % 2048) && (((w1 >> 14u16) & 0x3) == w1 / 16384) && (w1 & 0x3FFF == w1 % 16384)) by (bit_vector);
}

/// A header rebuilt from the fields decoded out of `d` is the first six bytes of `d`.
pub proof fn lemma_header_rebuild(d: Seq<u8>, p: CcsdsPacket)
    requires
        d.len() >= 8,
        d.len() == wire_total_len(d),
        p.fields_match_wire(d),
    ensures
        p.spec_header() == d.take(6),
{
    let w0 = wire_word(d, 0);
    let w1 = wire_word(d, 2);
    let w2 = wire_word(d, 4);
    assert(header_word0(p.version, p.packet_type, p.secondary_header_flag, p.apid) == w0);
    assert(header_word1(p.sequence_flags, p.sequence_count) == w1);
    assert(data_length_field(p.payload@.len()) == w2);
    lemma_be_roundtrip(d[0], d[1]);
    lemma_be_roundtrip(d[2], d[3]);
    lemma_be_roundtrip(d[4], d[5]);
    assert(p.spec_header() =~= d.take(6));
}

/// The bytes of a big-endian word are the bytes it was read from.
pub proof fn lemma_be_roundtrip(hi: u8, lo: u8)
    ensures
        be_bytes(be_u16(hi, lo)) == seq![hi, lo],
{
    assert(be_bytes(be_u16(hi, lo)) =~= seq![hi, lo]);
}

/// Reading back the words of `be_bytes(w)` gives `w`.
pub proof fn lemma_be_bytes_read(w: u16)
    ensures
        be_u16(be_bytes(w)[0], be_bytes(w)[1]) == w,
{
}

/// Where the header words, payload and trailer sit in a serialized packet.
pub proof fn lemma_frame_layout(p: CcsdsPacket)
    ensures
        p.spec_wire().len() == 6 + p.payload@.len() + 2,
        wire_word(p.spec_wire(), 0) == header_word0(
            p.version,
            p.packet_type,
            p.secondary_header_flag,
            p.apid,
        ),
        wire_word(p.spec_wire(), 2) == header_word1(p.sequence_flags, p.sequence_count),
        wire_word(p.spec_wire(), 4) == data_length_field(p.payload@.len()),
        wire_stored_crc(p.spec_wire()) == spec_crc16_ccitt(p.spec_covered()),
        p.spec_wire().take(p.spec_wire().len() - 2) == p.spec_covered(),
        p.spec_wire().subrange(6, 6 + p.payload@.len() as int) == p.payload@,
{
    let d = p.spec_wire();
    let c = p.spec_covered();
    let n = p.payload@.len();
    let w0 = header_word0(p.version, p.packet_type, p.secondary_header_flag, p.apid);
    let w1 = header_word1(p.sequence_flags, p.sequence_count);
    let w2 = data_length_field(n);
    let crc = spec_crc16_ccitt(c);
    assert(d[0] == be_bytes(w0)[0] && d[1] == be_bytes(w0)[1]);
    assert(d[2] == be_bytes(w1)[0] && d[3] == be_bytes(w1)[1]);
    assert(d[4] == be_bytes(w2)[0] && d[5] == be_bytes(w2)[1]);
    lemma_be_bytes_read(w0);
    lemma_be_bytes_read(w1);
    lemma_be_bytes_read(w2);
    lemma_be_bytes_read(crc);
    assert(d[d.len() - 2] == be_bytes(crc)[0] && d[d.len() - 1] == be_bytes(crc)[1]);
    assert(d.take(d.len() - 2) =~= c);
    assert(d.subrange(6, 6 + n as int) =~= p.payload@);
}

/// Decoding the arithmetic header words gives back in-range field values.
pub proof fn lemma_header_words_decode(v: int, t: int, sb: int, a: int, f: int, q: int)
    requires
        0 <= v < 8,
        0 <= t < 2,
        0 <= sb < 2,
        0 <= a < 2048,
        0 <= f < 4,
        0 <= q < 16384,
    ensures
        (v * 8192 + t * 4096 + sb * 2048 + a) / 8192 == v,
        ((v * 8192 + t * 4096 + sb * 2048 + a) / 4096) % 2 == t,
        ((v * 8192 + t * 4096 + sb * 2048 + a) / 2048) % 2 == sb,
        (v * 8192 + t * 4096 + sb * 2048 + a) % 2048 == a,
        (f * 16384 + q) / 16384 == f,
        (f * 16384 + q) % 16384 == q,
        v * 8192 + t * 4096 + sb * 2048 + a < 65536,
        f * 16384 + q < 65536,
{
    assert((v * 8192 + t * 4096 + sb * 2048 + a) / 8192 == v) by (nonlinear_arith)
        requires 0 <= v < 8, 0 <= t < 2, 0 <= sb < 2, 0 <= a < 2048;
    assert(((v * 8192 + t * 4096 + sb * 2048 + a) / 4096) % 2 == t) by (nonlinear_arith)
        requires 0 <= v < 8, 0 <= t < 2, 0 <= sb < 2, 0 <= a < 2048;
    assert(((v * 8192 + t * 4096 + sb * 2048 + a) / 2048) % 2 == sb) by (nonlinear_arith)
        requires 0 <= v < 8, 0 <= t < 2, 0 <= sb < 2, 0 <= a < 2048;
    assert((v * 8192 + t * 4096 + sb * 2048 + a) % 2048 == a) by (nonlinear_arith)
        requires 0 <= v < 8, 0 <= t < 2, 0 <= sb < 2, 0 <= a < 2048;
    assert((f * 16384 + q) / 16384 == f && (f * 16384 + q) % 16384 == q) by (nonlinear_arith)
        requires 0 <= f < 4, 0 <= q < 16384;
}

/// Round trip: the frame a packet serializes to is valid, carries exactly the packet's header
/// fields and payload, and its trailer is the CRC of header and payload. (The payload must fit
/// the 16-bit length field: a 65536-byte payload would announce an empty one.)
pub proof fn lemma_wire_roundtrip(p: CcsdsPacket)
    requires
        p.fields_in_range(),
    ensures
        wire_is_valid(p.spec_wire()),
        p.fields_match_wire(p.spec_wire()),
        wire_stored_crc(p.spec_wire()) == spec_crc16_ccitt(p.spec_covered()),
{
    lemma_frame_layout(p);
    let sb: int = if p.secondary_header_flag {
        1
    } else {
        0
    };
    lemma_header_words_decode(
        p.version as int,
        p.packet_type as int,
        sb,
        p.apid as int,
        p.sequence_flags as int,
        p.sequence_count as int,
    );
    let d = p.spec_wire();
    assert(wire_payload_len(d) == p.payload@.len());
}

/// Re-encoding: a packet that carries the header fields and payload of a valid frame
/// serializes back to exactly that frame.
pub proof fn lemma_wire_reencode(d: Seq<u8>, p: CcsdsPacket)
    requires
        wire_is_valid(d),
        p.fields_match_wire(d),
    ensures
        p.spec_wire() == d,
{
    lemma_header_rebuild(d, p);
    let c = p.spec_covered();
    assert(c =~= d.take(d.len() - 2));
    let crc = wire_stored_crc(d);
    lemma_be_roundtrip(d[d.len() - 2], d[d.len() - 1]);
    assert(p.spec_wire() =~= d);
}

/// A frame corrupted in any single byte is rejected: if `good` is a valid frame and `bad`
/// differs from it in exactly one byte (header, payload or CRC trailer), `bad` is not valid.
pub proof fn lemma_single_byte_corruption_rejected(good: Seq<u8>, bad: Seq<u8>, k: int)
    requires
        wire_is_valid(good),
        bad.len() == good.len(),
        0 <= k < good.len(),
        bad[k] != good[k],
        forall|j: int| 0 <= j < good.len() && j != k ==> bad[j] == good[j],
    ensures
        !wire_is_valid(bad),
{
    let n = good.len();
    if 4 <= k < 6 {
        assert(wire_word(bad, 4) != wire_word(good, 4)) by {
            lemma_be_roundtrip(good[4], good[5]);
            lemma_be_roundtrip(bad[4], bad[5]);
        }
        assert(wire_payload_len(bad) != wire_payload_len(good));
    } else if k < n - 2 {
        assert(wire_word(bad, 4) == wire_word(good, 4));
        let gc = good.take(n - 2);
        let bc = bad.take(n - 2);
        lemma_crc16_detects_single_byte_error(gc, bc, k);
        assert(wire_stored_crc(bad) == wire_stored_crc(good));
    } else {
        assert(wire_word(bad, 4) == wire_word(good, 4));
        assert(good.take(n - 2) =~= bad.take(n - 2));
        assert(wire_stored_crc(bad) != wire_stored_crc(good)) by {
            lemma_be_roundtrip(good[n - 2], good[n - 1]);
            lemma_be_roundtrip(bad[n - 2], bad[n - 1]);
        }
    }
}

} // verus!
