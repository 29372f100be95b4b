//! cFE Table Services on-disk layout: `CFE_FS_Header_t` + `CFE_TBL_File_Hdr_t` + raw table image.
//!
//! Matches NASA cFE Draco definitions in `modules/fs/config/default_cfe_fs_filedef.h` and
//! `modules/tbl/config/default_cfe_tbl_extern_typedefs.h` (see `CFE_TBL_ReadHeaders` in
//! `cfe_tbl_load.c`). Table image bytes must begin where CFE_TBL expects the in-memory struct
//! (`AI_APP_WeightsTable_t`), not at file offset 0.
//!
//! **Endianness:** On disk, `CFE_FS_Header_t` and `CFE_TBL_File_Hdr_t` multi-byte fields use the
//! cFE **file** convention (big-endian / network order). `CFE_FS_ReadHeader` byte-swaps into the
//! native CPU layout on little-endian targets (`cfe_fs_api.c`). Compare a mission-built
//! `*.tbl` (e.g. `sch_lab_table.tbl`): the first four bytes are `63 46 45 31`, not LE `31 45 46 63`.

use vstd::prelude::*;
use vstd::utf8::encode_utf8;

use super::table_image::zeros;
use crate::cfdp::pdu::read_be32;

verus! {

/// Magic in `CFE_FS_Header_t::ContentType` (= `'cFE1'`).
pub const CFE_FS_FILE_CONTENT_ID: u32 = 0x6346_4531;
/// `CFE_FS_SubType_TBL_IMG` — table image file.
pub const CFE_FS_SUBTYPE_TBL_IMG: u32 = 8;

/// Default `CFE_FS_HDR_DESC_MAX_LEN` in mission sample configs.
pub const CFE_FS_HDR_DESC_MAX_LEN: usize = 32;
/// `CFE_MISSION_TBL_MAX_FULL_NAME_LEN` (matches `CMD_CFE_TBL_ACTIVATE_DEFAULT_PAYLOAD` in `lib.rs`).
pub const CFE_MISSION_TBL_MAX_FULL_NAME_LEN: usize = 40;

/// `sizeof(CFE_FS_Header_t)` with 32-byte description field.
pub const CFE_FS_HEADER_BYTES: usize = 8 * 4 + CFE_FS_HDR_DESC_MAX_LEN;
/// `sizeof(CFE_TBL_File_Hdr_t)` with 40-byte `TableName`.
pub const CFE_TBL_FILE_HDR_BYTES: usize = 4 + 4 + 4 + CFE_MISSION_TBL_MAX_FULL_NAME_LEN;

/// Bytes before the raw application table image (`AI_APP_WeightsTable_t` layout).
pub const CFE_TBL_COMBINED_HDR_BYTES: usize = CFE_FS_HEADER_BYTES + CFE_TBL_FILE_HDR_BYTES;

#[derive(Debug, Clone, PartialEq, Eq)]
pub enum CfeTblFileError {
    TableNameTooLong { max: usize, got: usize },
    DescriptionTooLong { max: usize, got: usize },
    NumBytesOverflow,
}

/// Big-endian bytes of a `u32`.
pub open spec fn be32_bytes(v: u32) -> Seq<u8> {
    seq![(v / 16777216) as u8, ((v / 65536) % 256) as u8, ((v / 256) % 256) as u8, (v % 256) as u8]
}

/// `b` followed by zeros up to `n` bytes (for `b` no longer than `n`).
pub open spec fn padded_field(b: Seq<u8>, n: nat) -> Seq<u8> {
    b + zeros((n - b.len()) as nat)
}

/// `CFE_FS_Header_t` of a table image file with description bytes `desc`.
pub open spec fn fs_header(desc: Seq<u8>) -> Seq<u8> {
    be32_bytes(CFE_FS_FILE_CONTENT_ID) + be32_bytes(CFE_FS_SUBTYPE_TBL_IMG) + be32_bytes(
        CFE_FS_HEADER_BYTES as u32,
    ) + be32_bytes(0) + be32_bytes(0) + be32_bytes(0) + be32_bytes(0) + be32_bytes(0)
        + padded_field(desc, CFE_FS_HDR_DESC_MAX_LEN as nat)
}

/// `CFE_TBL_File_Hdr_t` for a table of `num_bytes` bytes named by `name`, loaded from offset 0.
pub open spec fn tbl_file_header(num_bytes: u32, name: Seq<u8>) -> Seq<u8> {
    be32_bytes(0) + be32_bytes(0) + be32_bytes(num_bytes) + padded_field(
        name,
        CFE_MISSION_TBL_MAX_FULL_NAME_LEN as nat,
    )
}

/// What wrapping `raw` into a table file yields: the size check first, then the description,
/// then the table name.
pub open spec fn cfe_table_file_outcome(
    raw: Seq<u8>,
    name: Seq<char>,
    desc: Seq<char>,
    r: Result<Vec<u8>, CfeTblFileError>,
) -> bool {
    let nb = encode_utf8(name);
    let db = encode_utf8(desc);
    if raw.len() > u32::MAX {
        r == Err::<Vec<u8>, CfeTblFileError>(CfeTblFileError::NumBytesOverflow)
    } else if db.len() > CFE_FS_HDR_DESC_MAX_LEN {
        r == Err::<Vec<u8>, CfeTblFileError>(
            CfeTblFileError::DescriptionTooLong { max: CFE_FS_HDR_DESC_MAX_LEN, got: db.len() as usize },
        )
    } else if nb.len() > CFE_MISSION_TBL_MAX_FULL_NAME_LEN {
        r == Err::<Vec<u8>, CfeTblFileError>(
            CfeTblFileError::TableNameTooLong {
                max: CFE_MISSION_TBL_MAX_FULL_NAME_LEN,
                got: nb.len() as usize,
            },
        )
    } else {
        r matches Ok(v) && v@ == fs_header(db) + tbl_file_header(raw.len() as u32, nb) + raw
    }
}

/// Appends the big-endian bytes of `v`.
fn push_u32_be(buf: &mut Vec<u8>, v: u32)
    ensures
        final(buf)@ == old(buf)@ + be32_bytes(v),
{
    proof {
        assert(((v & 0xFF) == v % 256) && (((v >> 8u32) & 0xFF) == (v / 256) % 256) && (((v >> 16u32) & 0xFF) == (v / 65536) % 256) && ((v >> 24u32) == v / 16777216)) by (bit_vector);
    }
    buf.push((v >> 24u32) as u8);
    buf.push(((v >> 16u32) & 0xFF) as u8);
    buf.push(((v >> 8u32) & 0xFF) as u8);
    buf.push((v & 0xFF) as u8);
    assert(final(buf)@ =~= old(buf)@ + be32_bytes(v));
}

/// Appends `b` and then zeros up to `n` bytes.
fn push_padded(buf: &mut Vec<u8>, b: &[u8], n: usize)
    requires
        b@.len() <= n,
    ensures
        final(buf)@ == old(buf)@ + padded_field(b@, n as nat),
{
    let ghost start = buf@;
    let mut i: usize = 0;
    while i < b.len()
        invariant
            i <= b@.len(),
            buf@ == start + b@.take(i as int),
        decreases b@.len() - i,
    {
        buf.push(b[i]);
        proof {
            assert(b@.take(i + 1) =~= b@.take(i as int).push(b@[i as int]));
        }
        i = i + 1;
    }
    assert(b@.take(b@.len() as int) =~= b@);
    let mut k: usize = 0;
    while k < n - b.len()
        invariant
            b@.len() <= n,
            k <= n - b@.len(),
            buf@ == start + b@ + zeros(k as nat),
        decreases n - b@.len() - k,
    {
        buf.push(0);
        proof {
            assert(zeros((k + 1) as nat) =~= zeros(k as nat).push(0u8));
            assert(buf@ =~= start + b@ + zeros((k + 1) as nat));
        }
        k = k + 1;
    }
    assert(buf@ =~= start + padded_field(b@, n as nat));
}

/// Appends the 32-byte `CFE_FS_Header_t::Description` field, or fails when `s` is longer.
fn push_cfe_fs_description(buf: &mut Vec<u8>, s: &str) -> (r: Result<(), CfeTblFileError>)
    ensures
        encode_utf8(s@).len() > CFE_FS_HDR_DESC_MAX_LEN ==> r == Err::<(), CfeTblFileError>(
            CfeTblFileError::DescriptionTooLong {
                max: CFE_FS_HDR_DESC_MAX_LEN,
                got: encode_utf8(s@).len() as usize,
            },
        ) && final(buf)@ == old(buf)@,
        encode_utf8(s@).len() <= CFE_FS_HDR_DESC_MAX_LEN ==> r is Ok && final(buf)@ == old(buf)@
            + padded_field(encode_utf8(s@), CFE_FS_HDR_DESC_MAX_LEN as nat),
{
    let b = s.as_bytes();
    if b.len() > CFE_FS_HDR_DESC_MAX_LEN {
        return Err(CfeTblFileError::DescriptionTooLong { max: CFE_FS_HDR_DESC_MAX_LEN, got: b.len() });
    }
    push_padded(buf, b, CFE_FS_HDR_DESC_MAX_LEN);
    Ok(())
}

/// Appends the 40-byte `CFE_TBL_File_Hdr_t::TableName` field, or fails when `s` is longer.
fn push_tbl_table_name(buf: &mut Vec<u8>, s: &str) -> (r: Result<(), CfeTblFileError>)
    ensures
        encode_utf8(s@).len() > CFE_MISSION_TBL_MAX_FULL_NAME_LEN ==> r == Err::<
            (),
            CfeTblFileError,
        >(
            CfeTblFileError::TableNameTooLong {
                max: CFE_MISSION_TBL_MAX_FULL_NAME_LEN,
                got: encode_utf8(s@).len() as usize,
            },
        ) && final(buf)@ == old(buf)@,
        encode_utf8(s@).len() <= CFE_MISSION_TBL_MAX_FULL_NAME_LEN ==> r is Ok && final(buf)@
            == old(buf)@ + padded_field(encode_utf8(s@), CFE_MISSION_TBL_MAX_FULL_NAME_LEN as nat),
{
    let b = s.as_bytes();
    if b.len() > CFE_MISSION_TBL_MAX_FULL_NAME_LEN {
        return Err(
            CfeTblFileError::TableNameTooLong {
                max: CFE_MISSION_TBL_MAX_FULL_NAME_LEN,
                got: b.len(),
            },
        );
    }
    push_padded(buf, b, CFE_MISSION_TBL_MAX_FULL_NAME_LEN);
    Ok(())
}

/// Builds a complete cFE table file: FS header + TBL file header + `raw_table_image`.
///
/// - `qualified_table_name` must match `CFE_TBL_Register` (e.g. `AI_APP.WEIGHTS`).
/// - `raw_table_image` is the in-memory table blob (e.g. from
///   [`super::table_image::build_ai_app_weights_table_image`]).
/// - Spacecraft / processor IDs are zero; mission optional validation lists usually accept any
///   ID when empty.
pub fn build_cfe_table_file(
    raw_table_image: &[u8],
    qualified_table_name: &str,
    fs_description: &str,
) -> (r: Result<Vec<u8>, CfeTblFileError>)
    ensures
        cfe_table_file_outcome(raw_table_image@, qualified_table_name@, fs_description@, r),
{
    if raw_table_image.len() > 0xFFFF_FFFF {
        return Err(CfeTblFileError::NumBytesOverflow);
    }
    let num_bytes = raw_table_image.len() as u32;
    let mut out: Vec<u8> = Vec::new();
    push_u32_be(&mut out, CFE_FS_FILE_CONTENT_ID);
    push_u32_be(&mut out, CFE_FS_SUBTYPE_TBL_IMG);
    push_u32_be(&mut out, CFE_FS_HEADER_BYTES as u32);
    push_u32_be(&mut out, 0);
    push_u32_be(&mut out, 0);
    push_u32_be(&mut out, 0);
    push_u32_be(&mut out, 0);
    push_u32_be(&mut out, 0);
    if let Err(e) = push_cfe_fs_description(&mut out, fs_description) {
        return Err(e);
    }
    let ghost fs = out@;
    push_u32_be(&mut out, 0);
    push_u32_be(&mut out, 0);
    push_u32_be(&mut out, num_bytes);
    if let Err(e) = push_tbl_table_name(&mut out, qualified_table_name) {
        return Err(e);
    }
    let ghost hdrs = out@;
    let mut i: usize = 0;
    while i < raw_table_image.len()
        invariant
            i <= raw_table_image@.len(),
            out@ == hdrs + raw_table_image@.take(i as int),
        decreases raw_table_image@.len() - i,
    {
        out.push(raw_table_image[i]);
        proof {
            assert(raw_table_image@.take(i + 1) =~= raw_table_image@.take(i as int).push(
                raw_table_image@[i as int],
            ));
        }
        i = i + 1;
    }
    proof {
        assert(raw_table_image@.take(raw_table_image@.len() as int) =~= raw_table_image@);
        assert(out@ =~= fs_header(encode_utf8(fs_description@)) + tbl_file_header(
            num_bytes,
            encode_utf8(qualified_table_name@),
        ) + raw_table_image@);
    }
    Ok(out)
}

/// A wrapped table file is the 116-byte combined header followed by the raw image unchanged,
/// and its `NumBytes` field holds the image length.
pub proof fn lemma_table_file_layout(
    raw: Seq<u8>,
    name: Seq<char>,
    desc: Seq<char>,
    r: Result<Vec<u8>, CfeTblFileError>,
)
    requires
        cfe_table_file_outcome(raw, name, desc, r),
        r is Ok,
    ensures
        r->Ok_0@.len() == CFE_TBL_COMBINED_HDR_BYTES + raw.len(),
        r->Ok_0@.subrange(CFE_TBL_COMBINED_HDR_BYTES as int, r->Ok_0@.len() as int) == raw,
        r->Ok_0@.subrange(0, 4) == be32_bytes(CFE_FS_FILE_CONTENT_ID),
        r->Ok_0@.subrange(
            CFE_FS_HEADER_BYTES as int + 8,
            CFE_FS_HEADER_BYTES as int + 12,
        ) == be32_bytes(raw.len() as u32),
{
    let v = r->Ok_0@;
    let db = encode_utf8(desc);
    let nb = encode_utf8(name);
    let f = fs_header(db);
    let t = tbl_file_header(raw.len() as u32, nb);
    assert(f.len() == 64);
    assert(t.len() == 52);
    assert(v.subrange(116, v.len() as int) =~= raw);
    assert(v.subrange(0, 4) =~= be32_bytes(CFE_FS_FILE_CONTENT_ID));
    assert(v.subrange(72, 76) =~= be32_bytes(raw.len() as u32));
}

/// Reading back the big-endian bytes of `v` gives `v`.
pub proof fn lemma_be32_read(v: u32)
    ensures
        read_be32(be32_bytes(v), 0) == v,
{
    let b = be32_bytes(v);
    assert((v / 16777216) * 16777216 + ((v / 65536) % 256) * 65536 + ((v / 256) % 256) * 256 + v
        % 256 == v) by (nonlinear_arith);
    assert(b[0] as int == v / 16777216) by (nonlinear_arith)
        requires
            b[0] == (v / 16777216) as u8,
    ;
}

/// Every field of a wrapped table file, as cFE reads it: `CFE_FS_Header_t` with ContentType
/// 'cFE1', SubType 8 (table image), Length 64 and zero SpacecraftID, ProcessorID,
/// ApplicationID, TimeSeconds, TimeSubSeconds (u32 BE at 0, 4, ..., 28), the 32-byte
/// description at 32; then `CFE_TBL_File_Hdr_t` with Reserved 0, Offset 0 and NumBytes the
/// image length (u32 BE at 64, 68, 72) and the 40-byte table name at 76; then the image.
#[verifier::rlimit(40)]
pub proof fn lemma_table_file_fields(
    raw: Seq<u8>,
    name: Seq<char>,
    desc: Seq<char>,
    r: Result<Vec<u8>, CfeTblFileError>,
)
    requires
        cfe_table_file_outcome(raw, name, desc, r),
        r is Ok,
    ensures
        read_be32(r->Ok_0@, 0) == 0x6346_4531,
        read_be32(r->Ok_0@, 4) == 8,
        read_be32(r->Ok_0@, 8) == 64,
        read_be32(r->Ok_0@, 12) == 0,
        read_be32(r->Ok_0@, 16) == 0,
        read_be32(r->Ok_0@, 20) == 0,
        read_be32(r->Ok_0@, 24) == 0,
        read_be32(r->Ok_0@, 28) == 0,
        r->Ok_0@.subrange(32, 64) == padded_field(encode_utf8(desc), 32),
        read_be32(r->Ok_0@, 64) == 0,
        read_be32(r->Ok_0@, 68) == 0,
        read_be32(r->Ok_0@, 72) == raw.len(),
        r->Ok_0@.subrange(76, 116) == padded_field(encode_utf8(name), 40),
        r->Ok_0@.subrange(116, r->Ok_0@.len() as int) == raw,
{
    let v = r->Ok_0@;
    let db = encode_utf8(desc);
    let nb = encode_utf8(name);
    let f = fs_header(db);
    let t = tbl_file_header(raw.len() as u32, nb);
    assert(f.len() == 64);
    assert(t.len() == 52);
    assert(v.subrange(0, 4) =~= be32_bytes(CFE_FS_FILE_CONTENT_ID));
    assert(v.subrange(4, 8) =~= be32_bytes(CFE_FS_SUBTYPE_TBL_IMG));
    assert(v.subrange(8, 12) =~= be32_bytes(CFE_FS_HEADER_BYTES as u32));
    assert(v.subrange(12, 16) =~= be32_bytes(0));
    assert(v.subrange(16, 20) =~= be32_bytes(0));
    assert(v.subrange(20, 24) =~= be32_bytes(0));
    assert(v.subrange(24, 28) =~= be32_bytes(0));
    assert(v.subrange(28, 32) =~= be32_bytes(0));
    assert(v.subrange(32, 64) =~= padded_field(db, 32));
    assert(v.subrange(64, 68) =~= be32_bytes(0));
    assert(v.subrange(68, 72) =~= be32_bytes(0));
    assert(v.subrange(72, 76) =~= be32_bytes(raw.len() as u32));
    assert(v.subrange(76, 116) =~= padded_field(nb, 40));
    assert(v.subrange(116, v.len() as int) =~= raw);
    lemma_be32_read(CFE_FS_FILE_CONTENT_ID);
    lemma_be32_read(CFE_FS_SUBTYPE_TBL_IMG);
    lemma_be32_read(CFE_FS_HEADER_BYTES as u32);
    lemma_be32_read(0);
    lemma_be32_read(raw.len() as u32);
    assert(forall|o: int| 0 <= o && o + 4 <= v.len() ==> read_be32(v, o) == read_be32(
        #[trigger] v.subrange(o, o + 4),
        0,
    ));
}

} // verus!
