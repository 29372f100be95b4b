//! CFDP PDU encoding for compatibility with NASA CF (cFS CFDP app).
//!
//! This module encodes **raw CFDP PDUs** (no CCSDS primary header) suitable for sending
//! over a transport which then encapsulates into CF's SB message (e.g. `CF_PduCmdMsg_t`).
//!
//! Encoding is aligned with the CF codec implementation in `apps/cf/fsw/src/cf_codec.c`:
//! - Header fields order: source_eid, transaction_seq, destination_eid
//! - Length field is the **PDU data field length** (bytes after the common header)
//! - Bitfields in the flags and eid/tsn lengths bytes match CF's `FSV()` usage.

use vstd::prelude::*;

use vstd::utf8::encode_utf8;

use crate::packet::push_all;

verus! {

#[derive(Debug, Clone, Copy, PartialEq, Eq)]
pub enum PduType {
    FileDirective,
    FileData,
}

#[derive(Debug, Clone, Copy, PartialEq, Eq)]
pub enum Direction {
    TowardReceiver,
    TowardSender,
}

#[derive(Debug, Clone, Copy, PartialEq, Eq)]
pub enum TransmissionMode {
    /// Class 1
    Unacknowledged,
    /// Class 2
    Acknowledged,
}

#[derive(Debug, Clone, Copy, PartialEq, Eq)]
pub enum DirectiveCode {
    Eof,
    Metadata,
}

impl PduType {
    /// Wire bit: file directive 0, file data 1.
    pub open spec fn spec_code(self) -> u8 {
        match self {
            PduType::FileDirective => 0,
            PduType::FileData => 1,
        }
    }

    /// Wire bit of this PDU type.
    pub fn code(&self) -> (c: u8)
        ensures
            c == self.spec_code(),
    {
        match self {
            PduType::FileDirective => 0,
            PduType::FileData => 1,
        }
    }
}

impl Direction {
    /// Wire bit: toward receiver 0, toward sender 1.
    pub open spec fn spec_code(self) -> u8 {
        match self {
            Direction::TowardReceiver => 0,
            Direction::TowardSender => 1,
        }
    }

    /// Wire bit of this direction.
    pub fn code(&self) -> (c: u8)
        ensures
            c == self.spec_code(),
    {
        match self {
            Direction::TowardReceiver => 0,
            Direction::TowardSender => 1,
        }
    }
}

impl TransmissionMode {
    /// Wire bit: unacknowledged (class 1) 0, acknowledged (class 2) 1.
    pub open spec fn spec_code(self) -> u8 {
        match self {
            TransmissionMode::Unacknowledged => 0,
            TransmissionMode::Acknowledged => 1,
        }
    }

    /// Wire bit of this transmission mode.
    pub fn code(&self) -> (c: u8)
        ensures
            c == self.spec_code(),
    {
        match self {
            TransmissionMode::Unacknowledged => 0,
            TransmissionMode::Acknowledged => 1,
        }
    }
}

impl DirectiveCode {
    /// Directive code byte: EOF 0x04, Metadata 0x07.
    pub open spec fn spec_code(self) -> u8 {
        match self {
            DirectiveCode::Eof => 0x04,
            DirectiveCode::Metadata => 0x07,
        }
    }

    /// Directive code byte.
    pub fn code(&self) -> (c: u8)
        ensures
            c == self.spec_code(),
    {
        match self {
            DirectiveCode::Eof => 0x04,
            DirectiveCode::Metadata => 0x07,
        }
    }
}

/// Managed information base: field widths and flags shared by every PDU of a transfer.
#[derive(Debug, Clone, PartialEq, Eq)]
pub struct Mib {
    pub entity_id_len: usize,
    pub txn_seq_len: usize,
    pub segmentation_control: u8,
    pub segment_metadata_flag: u8,
    pub crc_flag: u8,
    pub large_file_flag: u8,
}

impl Default for Mib {
    fn default() -> (m: Self)
        ensures
            m.entity_id_len == 2,
            m.txn_seq_len == 4,
            m.segmentation_control == 0,
            m.segment_metadata_flag == 0,
            m.crc_flag == 0,
            m.large_file_flag == 0,
    {
        Mib {
            entity_id_len: 2,
            txn_seq_len: 4,
            segmentation_control: 0,
            segment_metadata_flag: 0,
            crc_flag: 0,
            large_file_flag: 0,
        }
    }
}

#[derive(Debug, Clone, PartialEq, Eq)]
pub enum PduError {
    BadLen(&'static str),
    Truncated,
}

/// The low `len` bytes of `v`, most significant first.
pub open spec fn be_n(v: u64, len: nat) -> Seq<u8> {
    Seq::new(len, |j: int| ((v >> ((8 * (len - 1 - j)) as u64)) & 0xFFu64) as u8)
}

/// Appends `v` as a `len`-byte big-endian integer (`len` in 1..=8).
pub fn enc_uint_be(v: u64, len: usize, out: &mut Vec<u8>) -> (r: Result<(), PduError>)
    ensures
        1 <= len <= 8 ==> r is Ok && final(out)@ == old(out)@ + be_n(v, len as nat),
        !(1 <= len <= 8) ==> (r matches Err(PduError::BadLen(m)) && m@ == "len must be 1..=8"@)
            && final(out)@ == old(out)@,
{
    if !(1 <= len && len <= 8) {
        return Err(PduError::BadLen("len must be 1..=8"));
    }
    let ghost start = out@;
    let mut i: usize = len;
    while i > 0
        invariant
            1 <= len <= 8,
            i <= len,
            out@ == start + be_n(v, len as nat).take((len - i) as int),
        decreases i,
    {
        i = i - 1;
        let b = ((v >> ((i * 8) as u64)) & 0xFF) as u8;
        out.push(b);
        proof {
            let full = be_n(v, len as nat);
            assert(full[(len - 1 - i) as int] == b);
            assert(full.take((len - i) as int) =~= full.take((len - 1 - i) as int).push(b));
        }
    }
    proof {
        assert(be_n(v, len as nat).take(len as int) =~= be_n(v, len as nat));
    }
    Ok(())
}

#[derive(Debug, Clone, PartialEq, Eq)]
pub struct CommonHeader {
    pub version: u8,
    pub pdu_type: PduType,
    pub direction: Direction,
    pub tx_mode: TransmissionMode,
    pub crc_flag: u8,
    pub large_file_flag: u8,
    pub segmentation_control: u8,
    pub segment_metadata_flag: u8,
    pub entity_id_len: usize,
    pub txn_seq_len: usize,
    pub source_eid: u64,
    pub transaction_seq: u64,
    pub destination_eid: u64,
}

impl CommonHeader {
    /// Flags byte: `version(3) | type | direction | mode | crc | large-file`.
    pub open spec fn spec_flags_byte(&self) -> u8 {
        ((self.version & 0x07) << 5u8) | ((self.pdu_type.spec_code() & 0x01) << 4u8) | ((
        self.direction.spec_code() & 0x01) << 3u8) | ((self.tx_mode.spec_code() & 0x01) << 2u8) | ((
        self.crc_flag & 0x01) << 1u8) | (self.large_file_flag & 0x01)
    }

    /// Lengths byte: `seg_ctrl | entity_id_len - 1 (3 bits) | seg_meta | txn_seq_len - 1 (3 bits)`.
    pub open spec fn spec_lens_byte(&self) -> u8 {
        ((self.segmentation_control & 0x01) << 7u8) | ((((self.entity_id_len - 1) as u8) & 0x07)
            << 4u8) | ((self.segment_metadata_flag & 0x01) << 3u8) | (((self.txn_seq_len
            - 1) as u8) & 0x07)
    }

    /// Both variable field widths are in 1..=8.
    pub open spec fn lens_ok(&self) -> bool {
        &&& 1 <= self.entity_id_len <= 8
        &&& 1 <= self.txn_seq_len <= 8
    }

    /// The encoded common header with a zero length placeholder.
    pub open spec fn spec_encoded(&self) -> Seq<u8> {
        seq![self.spec_flags_byte(), 0u8, 0u8, self.spec_lens_byte()] + be_n(
            self.source_eid,
            self.entity_id_len as nat,
        ) + be_n(self.transaction_seq, self.txn_seq_len as nat) + be_n(
            self.destination_eid,
            self.entity_id_len as nat,
        )
    }

    /// The error that encoding reports for out-of-range widths.
    pub open spec fn lens_error(&self, r: Result<Vec<u8>, PduError>) -> bool {
        if !(1 <= self.entity_id_len <= 8) {
            r matches Err(PduError::BadLen(m)) && m@ == "entity_id_len"@
        } else {
            r matches Err(PduError::BadLen(m)) && m@ == "txn_seq_len"@
        }
    }

    /// Encodes the common header; the 16-bit length field is left as 0.
    pub fn encode_without_length(&self) -> (r: Result<Vec<u8>, PduError>)
        ensures
            self.lens_ok() ==> (r matches Ok(v) && v@ == self.spec_encoded()),
            !self.lens_ok() ==> self.lens_error(r),
    {
        if !(1 <= self.entity_id_len && self.entity_id_len <= 8) {
            return Err(PduError::BadLen("entity_id_len"));
        }
        if !(1 <= self.txn_seq_len && self.txn_seq_len <= 8) {
            return Err(PduError::BadLen("txn_seq_len"));
        }
        let mut out: Vec<u8> = Vec::new();
        let flags: u8 = ((self.version & 0x07) << 5u8) | ((self.pdu_type.code() & 0x01) << 4u8) | ((
        self.direction.code() & 0x01) << 3u8) | ((self.tx_mode.code() & 0x01) << 2u8) | ((
        self.crc_flag & 0x01) << 1u8) | (self.large_file_flag & 0x01);
        out.push(flags);
        out.push(0);
        out.push(0);
        let lens: u8 = ((self.segmentation_control & 0x01) << 7u8) | ((((self.entity_id_len - 1) as u8)
            & 0x07) << 4u8) | ((self.segment_metadata_flag & 0x01) << 3u8) | (((self.txn_seq_len
            - 1) as u8) & 0x07);
        out.push(lens);
        let _ = enc_uint_be(self.source_eid, self.entity_id_len, &mut out);
        let _ = enc_uint_be(self.transaction_seq, self.txn_seq_len, &mut out);
        let _ = enc_uint_be(self.destination_eid, self.entity_id_len, &mut out);
        assert(out@ =~= self.spec_encoded());
        Ok(out)
    }
}

/// `pdu` with bytes 1..3 set to the big-endian data field length `len(pdu) - header_len`
/// (truncated to 16 bits).
pub open spec fn with_length_field(pdu: Seq<u8>, header_len: nat) -> Seq<u8> {
    let data_len = ((pdu.len() - header_len) % 65536) as u16;
    pdu.update(1, (data_len / 256) as u8).update(2, (data_len % 256) as u8)
}

/// Writes the data field length (bytes after the `header_len`-byte header) into bytes 1..3.
pub fn fill_length_field(pdu: &mut Vec<u8>, header_len: usize) -> (r: Result<(), PduError>)
    ensures
        old(pdu)@.len() < 4 || header_len < 4 || old(pdu)@.len() < header_len ==> r == Err::<
            (),
            PduError,
        >(PduError::Truncated) && final(pdu)@ == old(pdu)@,
        !(old(pdu)@.len() < 4 || header_len < 4 || old(pdu)@.len() < header_len) ==> r is Ok
            && final(pdu)@ == with_length_field(old(pdu)@, header_len as nat),
{
    if pdu.len() < 4 || header_len < 4 || pdu.len() < header_len {
        return Err(PduError::Truncated);
    }
    let data_len = ((pdu.len() - header_len) % 65536) as u16;
    pdu.set(1, (data_len >> 8u16) as u8);
    pdu.set(2, (data_len & 0xFF) as u8);
    proof {
        assert(((data_len >> 8u16) == data_len / 256) && ((data_len & 0xFF) == data_len % 256)) by (bit_vector);
        assert(pdu@ =~= with_length_field(old(pdu)@, header_len as nat));
    }
    Ok(())
}

/// Header of an outgoing Class 1 PDU of the given type under `mib`.
pub open spec fn spec_class1_header(
    mib: Mib,
    pdu_type: PduType,
    source_eid: u64,
    destination_eid: u64,
    transaction_seq: u64,
) -> CommonHeader {
    CommonHeader {
        version: 1,
        pdu_type,
        direction: Direction::TowardReceiver,
        tx_mode: TransmissionMode::Unacknowledged,
        crc_flag: mib.crc_flag,
        large_file_flag: mib.large_file_flag,
        segmentation_control: mib.segmentation_control,
        segment_metadata_flag: mib.segment_metadata_flag,
        entity_id_len: mib.entity_id_len,
        txn_seq_len: mib.txn_seq_len,
        source_eid,
        transaction_seq,
        destination_eid,
    }
}

/// Builds the header of an outgoing Class 1 PDU.
fn class1_header(
    mib: &Mib,
    pdu_type: PduType,
    source_eid: u64,
    destination_eid: u64,
    transaction_seq: u64,
) -> (h: CommonHeader)
    ensures
        h == spec_class1_header(*mib, pdu_type, source_eid, destination_eid, transaction_seq),
{
    CommonHeader {
        version: 1,
        pdu_type,
        direction: Direction::TowardReceiver,
        tx_mode: TransmissionMode::Unacknowledged,
        crc_flag: mib.crc_flag,
        large_file_flag: mib.large_file_flag,
        segmentation_control: mib.segmentation_control,
        segment_metadata_flag: mib.segment_metadata_flag,
        entity_id_len: mib.entity_id_len,
        txn_seq_len: mib.txn_seq_len,
        source_eid,
        transaction_seq,
        destination_eid,
    }
}

/// The widths of `mib` are encodable.
pub open spec fn mib_lens_ok(mib: Mib) -> bool {
    &&& 1 <= mib.entity_id_len <= 8
    &&& 1 <= mib.txn_seq_len <= 8
}

/// The error any encoder reports for a `mib` with out-of-range widths.
pub open spec fn mib_lens_error<T>(mib: Mib, r: Result<T, PduError>) -> bool {
    if !(1 <= mib.entity_id_len <= 8) {
        r matches Err(PduError::BadLen(m)) && m@ == "entity_id_len"@
    } else {
        r matches Err(PduError::BadLen(m)) && m@ == "txn_seq_len"@
    }
}

/// File size or offset field: 8 bytes for large files, else the low 4 bytes.
pub open spec fn size_field(mib: Mib, v: u64) -> Seq<u8> {
    if mib.large_file_flag != 0 {
        be_n(v, 8)
    } else {
        be_n(v, 4)
    }
}

/// A PDU: the common header followed by `body`, with the length field set to `len(body)`.
pub open spec fn spec_pdu(h: CommonHeader, body: Seq<u8>) -> Seq<u8> {
    with_length_field(h.spec_encoded() + body, h.spec_encoded().len())
}

/// Length-value encoding of a file name: one length byte (truncated to 8 bits), then the bytes.
pub open spec fn lv(bytes: Seq<u8>) -> Seq<u8> {
    seq![(bytes.len() % 256) as u8] + bytes
}

/// Metadata directive body.
pub open spec fn spec_metadata_body(
    mib: Mib,
    file_size: u64,
    checksum_type: u8,
    closure_requested: bool,
    src_filename: Seq<u8>,
    dst_filename: Seq<u8>,
) -> Seq<u8> {
    seq![
        DirectiveCode::Metadata.spec_code(),
        if closure_requested {
            (checksum_type & 0x0F) | 0x80
        } else {
            checksum_type & 0x0F
        },
    ] + size_field(mib, file_size) + lv(src_filename) + lv(dst_filename)
}

/// File data body: segment offset then the data.
pub open spec fn spec_file_data_body(mib: Mib, segment_offset: u64, data: Seq<u8>) -> Seq<u8> {
    size_field(mib, segment_offset) + data
}

/// EOF directive body: condition code (upper nibble), checksum, file size.
pub open spec fn spec_eof_body(mib: Mib, condition_code: u8, file_checksum: u32, file_size: u64) -> Seq<u8> {
    seq![DirectiveCode::Eof.spec_code(), ((condition_code & 0x0F) << 4u8) as u8] + be_n(
        file_checksum as u64,
        4,
    ) + size_field(mib, file_size)
}

/// Appends the file size / offset field.
fn push_size_field(mib: &Mib, v: u64, out: &mut Vec<u8>)
    ensures
        final(out)@ == old(out)@ + size_field(*mib, v),
{
    if mib.large_file_flag != 0 {
        let _ = enc_uint_be(v, 8, out);
    } else {
        let _ = enc_uint_be(v, 4, out);
    }
}

/// Appends a length-value file name.
fn push_lv(bytes: &[u8], out: &mut Vec<u8>)
    ensures
        final(out)@ == old(out)@ + lv(bytes@),
{
    out.push((bytes.len() % 256) as u8);
    push_all(out, bytes);
    assert(final(out)@ =~= old(out)@ + lv(bytes@));
}

#[allow(clippy::too_many_arguments)]
/// Encodes a Metadata PDU (file size, checksum type, closure flag, source and destination names).
pub fn encode_metadata_pdu(
    mib: &Mib,
    source_eid: u64,
    destination_eid: u64,
    transaction_seq: u64,
    file_size: u64,
    checksum_type: u8,
    closure_requested: bool,
    src_filename: &str,
    dst_filename: &str,
) -> (r: Result<Vec<u8>, PduError>)
    ensures
        mib_lens_ok(*mib) ==> (r matches Ok(v) && v@ == spec_pdu(
            spec_class1_header(
                *mib,
                PduType::FileDirective,
                source_eid,
                destination_eid,
                transaction_seq,
            ),
            spec_metadata_body(
                *mib,
                file_size,
                checksum_type,
                closure_requested,
                encode_utf8(src_filename@),
                encode_utf8(dst_filename@),
            ),
        )),
        !mib_lens_ok(*mib) ==> mib_lens_error(*mib, r),
{
    let hdr = class1_header(mib, PduType::FileDirective, source_eid, destination_eid, transaction_seq);
    let mut out = match hdr.encode_without_length() {
        Ok(v) => v,
        Err(e) => {
            return Err(e);
        },
    };
    let header_len = out.len();
    let ghost h = out@;
    out.push(DirectiveCode::Metadata.code());
    let mut b = checksum_type & 0x0F;
    if closure_requested {
        b = b | 0x80;
    }
    out.push(b);
    push_size_field(mib, file_size, &mut out);
    push_lv(src_filename.as_bytes(), &mut out);
    push_lv(dst_filename.as_bytes(), &mut out);
    let ghost body = spec_metadata_body(
        *mib,
        file_size,
        checksum_type,
        closure_requested,
        encode_utf8(src_filename@),
        encode_utf8(dst_filename@),
    );
    assert(out@ =~= h + body);
    let _ = fill_length_field(&mut out, header_len);
    Ok(out)
}

/// Encodes a File Data PDU carrying `data` at `segment_offset`.
pub fn encode_file_data_pdu(
    mib: &Mib,
    source_eid: u64,
    destination_eid: u64,
    transaction_seq: u64,
    segment_offset: u64,
    data: &[u8],
) -> (r: Result<Vec<u8>, PduError>)
    ensures
        mib_lens_ok(*mib) ==> (r matches Ok(v) && v@ == spec_pdu(
            spec_class1_header(*mib, PduType::FileData, source_eid, destination_eid, transaction_seq),
            spec_file_data_body(*mib, segment_offset, data@),
        )),
        !mib_lens_ok(*mib) ==> mib_lens_error(*mib, r),
{
    let hdr = class1_header(mib, PduType::FileData, source_eid, destination_eid, transaction_seq);
    let mut out = match hdr.encode_without_length() {
        Ok(v) => v,
        Err(e) => {
            return Err(e);
        },
    };
    let header_len = out.len();
    let ghost h = out@;
    push_size_field(mib, segment_offset, &mut out);
    push_all(&mut out, data);
    assert(out@ =~= h + spec_file_data_body(*mib, segment_offset, data@));
    let _ = fill_length_field(&mut out, header_len);
    Ok(out)
}

/// Encodes an EOF PDU (condition code, file checksum, file size).
pub fn encode_eof_pdu(
    mib: &Mib,
    source_eid: u64,
    destination_eid: u64,
    transaction_seq: u64,
    condition_code: u8,
    file_checksum: u32,
    file_size: u64,
) -> (r: Result<Vec<u8>, PduError>)
    ensures
        mib_lens_ok(*mib) ==> (r matches Ok(v) && v@ == spec_pdu(
            spec_class1_header(
                *mib,
                PduType::FileDirective,
                source_eid,
                destination_eid,
                transaction_seq,
            ),
            spec_eof_body(*mib, condition_code, file_checksum, file_size),
        )),
        !mib_lens_ok(*mib) ==> mib_lens_error(*mib, r),
{
    let hdr = class1_header(mib, PduType::FileDirective, source_eid, destination_eid, transaction_seq);
    let mut out = match hdr.encode_without_length() {
        Ok(v) => v,
        Err(e) => {
            return Err(e);
        },
    };
    let header_len = out.len();
    let ghost h = out@;
    out.push(DirectiveCode::Eof.code());
    out.push((condition_code & 0x0F) << 4u8);
    let _ = enc_uint_be(file_checksum as u64, 4, &mut out);
    push_size_field(mib, file_size, &mut out);
    assert(out@ =~= h + spec_eof_body(*mib, condition_code, file_checksum, file_size));
    let _ = fill_length_field(&mut out, header_len);
    Ok(out)
}

/// The upper six bits of a Class 1 header's flags byte: version 1 (`0b001`), the type bit,
/// toward receiver, unacknowledged.
proof fn lemma_class1_flags(mib: Mib, t: PduType, se: u64, de: u64, tsn: u64)
    ensures
        t == PduType::FileDirective ==> spec_class1_header(mib, t, se, de, tsn).spec_flags_byte()
            & 0xFCu8 == 0x20u8,
        t == PduType::FileData ==> spec_class1_header(mib, t, se, de, tsn).spec_flags_byte()
            & 0xFCu8 == 0x30u8,
{
    let c = mib.crc_flag;
    let l = mib.large_file_flag;
    let f = spec_class1_header(mib, t, se, de, tsn).spec_flags_byte();
    if t == PduType::FileDirective {
        assert(f == ((1u8 & 0x07u8) << 5u8) | ((0u8 & 0x01u8) << 4u8) | ((0u8 & 0x01u8) << 3u8) | ((
        0u8 & 0x01u8) << 2u8) | ((c & 0x01u8) << 1u8) | (l & 0x01u8));
        assert((((1u8 & 0x07u8) << 5u8) | ((0u8 & 0x01u8) << 4u8) | ((0u8 & 0x01u8) << 3u8) | ((0u8
            & 0x01u8) << 2u8) | ((c & 0x01u8) << 1u8) | (l & 0x01u8)) & 0xFCu8 == 0x20u8)
            by (bit_vector);
    } else {
        assert(f == ((1u8 & 0x07u8) << 5u8) | ((1u8 & 0x01u8) << 4u8) | ((0u8 & 0x01u8) << 3u8) | ((
        0u8 & 0x01u8) << 2u8) | ((c & 0x01u8) << 1u8) | (l & 0x01u8));
        assert((((1u8 & 0x07u8) << 5u8) | ((1u8 & 0x01u8) << 4u8) | ((0u8 & 0x01u8) << 3u8) | ((0u8
            & 0x01u8) << 2u8) | ((c & 0x01u8) << 1u8) | (l & 0x01u8)) & 0xFCu8 == 0x30u8)
            by (bit_vector);
    }
}

/// CFDP directive PDUs as CF reads them. A Metadata PDU is a file directive (flags byte
/// `0b001000xx`: version 1, directive, toward receiver, unacknowledged) whose data field starts,
/// right after the `4 + 2 * entity_id_len + txn_seq_len`-byte header, with the Metadata
/// directive code 0x07; an EOF PDU likewise starts its data field with 0x04; a File Data PDU
/// has the type bit set (`0b001100xx`). Bytes 1..3 hold the data field length.
pub proof fn lemma_class1_pdu_codes(
    mib: Mib,
    source_eid: u64,
    destination_eid: u64,
    transaction_seq: u64,
    file_size: u64,
    checksum_type: u8,
    closure_requested: bool,
    src_filename: Seq<u8>,
    dst_filename: Seq<u8>,
    condition_code: u8,
    file_checksum: u32,
    segment_offset: u64,
    data: Seq<u8>,
)
    ensures
        ({
            let hl = 4 + 2 * mib.entity_id_len + mib.txn_seq_len;
            let md = spec_pdu(
                spec_class1_header(mib, PduType::FileDirective, source_eid, destination_eid, transaction_seq),
                spec_metadata_body(mib, file_size, checksum_type, closure_requested, src_filename, dst_filename),
            );
            let eof = spec_pdu(
                spec_class1_header(mib, PduType::FileDirective, source_eid, destination_eid, transaction_seq),
                spec_eof_body(mib, condition_code, file_checksum, file_size),
            );
            let fd = spec_pdu(
                spec_class1_header(mib, PduType::FileData, source_eid, destination_eid, transaction_seq),
                spec_file_data_body(mib, segment_offset, data),
            );
            &&& md[hl] == 0x07u8
            &&& md[0] & 0xFCu8 == 0x20u8
            &&& md[1] as int * 256 + md[2] as int == (md.len() - hl) % 65536
            &&& eof[hl] == 0x04u8
            &&& eof[0] & 0xFCu8 == 0x20u8
            &&& eof[1] as int * 256 + eof[2] as int == (eof.len() - hl) % 65536
            &&& fd[0] & 0xFCu8 == 0x30u8
            &&& fd[1] as int * 256 + fd[2] as int == (fd.len() - hl) % 65536
        }),
{
    let hd = spec_class1_header(mib, PduType::FileDirective, source_eid, destination_eid, transaction_seq);
    let hf = spec_class1_header(mib, PduType::FileData, source_eid, destination_eid, transaction_seq);
    lemma_class1_flags(mib, PduType::FileDirective, source_eid, destination_eid, transaction_seq);
    lemma_class1_flags(mib, PduType::FileData, source_eid, destination_eid, transaction_seq);
    let hl = 4 + 2 * mib.entity_id_len + mib.txn_seq_len;
    assert(hd.spec_encoded().len() == hl);
    assert(hf.spec_encoded().len() == hl);
    let mb = spec_metadata_body(mib, file_size, checksum_type, closure_requested, src_filename, dst_filename);
    let eb = spec_eof_body(mib, condition_code, file_checksum, file_size);
    let fb = spec_file_data_body(mib, segment_offset, data);
    assert((hd.spec_encoded() + mb)[hl as int] == mb[0]);
    assert((hd.spec_encoded() + eb)[hl as int] == eb[0]);
    assert((hd.spec_encoded() + mb)[0] == hd.spec_flags_byte());
    assert((hd.spec_encoded() + eb)[0] == hd.spec_flags_byte());
    assert((hf.spec_encoded() + fb)[0] == hf.spec_flags_byte());
    let dm = (((hd.spec_encoded() + mb).len() - hl) % 65536) as u16;
    let de = (((hd.spec_encoded() + eb).len() - hl) % 65536) as u16;
    let df = (((hf.spec_encoded() + fb).len() - hl) % 65536) as u16;
    assert(((dm / 256) as u8) as int * 256 + ((dm % 256) as u8) as int == dm);
    assert(((de / 256) as u8) as int * 256 + ((de % 256) as u8) as int == de);
    assert(((df / 256) as u8) as int * 256 + ((df % 256) as u8) as int == df);
}

/// The big-endian 32-bit value stored at `off .. off + 4` of `s`.
pub open spec fn read_be32(s: Seq<u8>, off: int) -> int {
    s[off] as int * 16777216 + s[off + 1] as int * 65536 + s[off + 2] as int * 256 + s[off + 3] as int
}

/// Reading back the four big-endian bytes of `v` gives its low 32 bits.
pub proof fn lemma_be_n4_read(v: u64)
    ensures
        read_be32(be_n(v, 4), 0) == v % 0x1_0000_0000,
{
    let b = be_n(v, 4);
    assert(b[0] == ((v >> 24u64) & 0xFFu64) as u8);
    assert(b[1] == ((v >> 16u64) & 0xFFu64) as u8);
    assert(b[2] == ((v >> 8u64) & 0xFFu64) as u8);
    assert(b[3] == ((v >> 0u64) & 0xFFu64) as u8);
    assert(((v >> 24u64) & 0xFFu64) * 16777216 + ((v >> 16u64) & 0xFFu64) * 65536 + ((v >> 8u64)
        & 0xFFu64) * 256 + ((v >> 0u64) & 0xFFu64) == v % 0x1_0000_0000 && ((v >> 24u64)
        & 0xFFu64) < 256 && ((v >> 16u64) & 0xFFu64) < 256 && ((v >> 8u64) & 0xFFu64) < 256 && ((v
        >> 0u64) & 0xFFu64) < 256) by (bit_vector);
}

/// The data fields of Class 1 PDUs with 4-byte sizes (`large_file_flag == 0`), after the
/// `4 + 2 * entity_id_len + txn_seq_len`-byte header:
/// - Metadata: code 0x07; closure flag (bit 7) with the checksum type (low nibble); the file
///   size (u32 BE); the source name as length byte + bytes; the destination name likewise.
/// - EOF: code 0x04; condition code in the upper nibble; the file checksum (u32 BE); the
///   file size (u32 BE).
/// - File Data: the segment offset (u32 BE), then the segment bytes.
pub proof fn lemma_class1_pdu_fields(
    mib: Mib,
    source_eid: u64,
    destination_eid: u64,
    transaction_seq: u64,
    file_size: u64,
    checksum_type: u8,
    closure_requested: bool,
    src_filename: Seq<u8>,
    dst_filename: Seq<u8>,
    condition_code: u8,
    file_checksum: u32,
    segment_offset: u64,
    data: Seq<u8>,
)
    requires
        mib.large_file_flag == 0,
    ensures
        ({
            let hl = 4 + 2 * mib.entity_id_len + mib.txn_seq_len;
            let md = spec_pdu(
                spec_class1_header(mib, PduType::FileDirective, source_eid, destination_eid, transaction_seq),
                spec_metadata_body(mib, file_size, checksum_type, closure_requested, src_filename, dst_filename),
            );
            let eof = spec_pdu(
                spec_class1_header(mib, PduType::FileDirective, source_eid, destination_eid, transaction_seq),
                spec_eof_body(mib, condition_code, file_checksum, file_size),
            );
            let fd = spec_pdu(
                spec_class1_header(mib, PduType::FileData, source_eid, destination_eid, transaction_seq),
                spec_file_data_body(mib, segment_offset, data),
            );
            let ls = src_filename.len();
            &&& md.len() == hl + 8 + src_filename.len() + dst_filename.len()
            &&& md[hl + 1] == (if closure_requested {
                (checksum_type & 0x0F) | 0x80
            } else {
                checksum_type & 0x0F
            })
            &&& read_be32(md, hl + 2) == file_size % 0x1_0000_0000
            &&& md[hl + 6] as int == ls % 256
            &&& md.subrange(hl + 7, hl + 7 + ls) == src_filename
            &&& md[hl + 7 + ls] as int == dst_filename.len() % 256
            &&& md.subrange(hl + 8 + ls, md.len() as int) == dst_filename
            &&& eof.len() == hl + 10
            &&& eof[hl + 1] == ((condition_code & 0x0F) << 4u8) as u8
            &&& read_be32(eof, hl + 2) == file_checksum
            &&& read_be32(eof, hl + 6) == file_size % 0x1_0000_0000
            &&& fd.len() == hl + 4 + data.len()
            &&& read_be32(fd, hl) == segment_offset % 0x1_0000_0000
            &&& fd.subrange(hl + 4, fd.len() as int) == data
        }),
{
    let hd = spec_class1_header(mib, PduType::FileDirective, source_eid, destination_eid, transaction_seq);
    let hf = spec_class1_header(mib, PduType::FileData, source_eid, destination_eid, transaction_seq);
    let hl = 4 + 2 * mib.entity_id_len + mib.txn_seq_len;
    let ls = src_filename.len();
    assert(hd.spec_encoded().len() == hl);
    assert(hf.spec_encoded().len() == hl);
    let mb = spec_metadata_body(mib, file_size, checksum_type, closure_requested, src_filename, dst_filename);
    let eb = spec_eof_body(mib, condition_code, file_checksum, file_size);
    let fb = spec_file_data_body(mib, segment_offset, data);
    let md = spec_pdu(hd, mb);
    let eof = spec_pdu(hd, eb);
    let fd = spec_pdu(hf, fb);
    assert(forall|i: int| hl <= i < md.len() ==> md[i] == mb[i - hl]);
    assert(forall|i: int| hl <= i < eof.len() ==> eof[i] == eb[i - hl]);
    assert(forall|i: int| hl <= i < fd.len() ==> fd[i] == fb[i - hl]);
    lemma_be_n4_read(file_size);
    lemma_be_n4_read(file_checksum as u64);
    lemma_be_n4_read(segment_offset);
    let sz = be_n(file_size, 4);
    assert(mb.subrange(2, 6) =~= sz);
    assert(read_be32(md, hl + 2) == read_be32(sz, 0));
    assert(md.subrange(hl + 7, hl + 7 + ls) =~= src_filename);
    assert(md.subrange(hl + 8 + ls, md.len() as int) =~= dst_filename);
    assert(eb.subrange(2, 6) =~= be_n(file_checksum as u64, 4));
    assert(eb.subrange(6, 10) =~= sz);
    assert(read_be32(eof, hl + 2) == read_be32(be_n(file_checksum as u64, 4), 0));
    assert(read_be32(eof, hl + 6) == read_be32(sz, 0));
    assert(fb.subrange(0, 4) =~= be_n(segment_offset, 4));
    assert(read_be32(fd, hl) == read_be32(be_n(segment_offset, 4), 0));
    assert(fd.subrange(hl + 4, fd.len() as int) =~= data);
}

} // verus!
