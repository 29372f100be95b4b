//! CFDP Class 1 sender ("slicer") for a single file/image.

use vstd::prelude::*;
use vstd::utf8::encode_utf8;

use crate::cfdp::pdu::{
    encode_eof_pdu, encode_file_data_pdu, encode_metadata_pdu, mib_lens_error, mib_lens_ok,
    spec_class1_header, spec_eof_body, spec_file_data_body, spec_metadata_body, spec_pdu, Mib,
    PduError, PduType,
};
use crate::packet::slice_range;

verus! {

/// Byte `i` of `d`, or 0 past either end.
pub open spec fn byte_or_zero(d: Seq<u8>, i: int) -> int {
    if 0 <= i < d.len() {
        d[i] as int
    } else {
        0
    }
}

/// The `k`-th big-endian 32-bit word of `d`, a short last word padded with zero bytes.
pub open spec fn word_at(d: Seq<u8>, k: int) -> int {
    byte_or_zero(d, 4 * k) * 16777216 + byte_or_zero(d, 4 * k + 1) * 65536 + byte_or_zero(
        d,
        4 * k + 2,
    ) * 256 + byte_or_zero(d, 4 * k + 3)
}

/// Sum of the first `n` words of `d`.
pub open spec fn word_sum(d: Seq<u8>, n: nat) -> int
    decreases n,
{
    if n == 0 {
        0
    } else {
        word_sum(d, (n - 1) as nat) + word_at(d, n - 1)
    }
}

/// CF's modular checksum: the sum, modulo 2^32, of the big-endian 32-bit words of `d`, the
/// last partial word left-aligned and zero-padded.
pub open spec fn spec_modular_checksum(d: Seq<u8>) -> u32 {
    (word_sum(d, ((d.len() + 3) / 4) as nat) % 0x1_0000_0000) as u32
}

/// Words of `a + b` past a word-aligned `a` are the words of `b`; earlier ones are `a`'s.
proof fn lemma_word_at_concat(a: Seq<u8>, b: Seq<u8>, k: int)
    requires
        a.len() % 4 == 0,
        k >= 0,
    ensures
        k < a.len() / 4 ==> word_at(a + b, k) == word_at(a, k),
        k >= a.len() / 4 ==> word_at(a + b, k) == word_at(b, k - a.len() / 4),
{
    let m = a.len() / 4;
    assert(a.len() == 4 * m);
    if k < m {
        lemma_byte_concat_front(a, b, 4 * k);
        lemma_byte_concat_front(a, b, 4 * k + 1);
        lemma_byte_concat_front(a, b, 4 * k + 2);
        lemma_byte_concat_front(a, b, 4 * k + 3);
    } else {
        lemma_byte_concat_back(a, b, 4 * k);
        lemma_byte_concat_back(a, b, 4 * k + 1);
        lemma_byte_concat_back(a, b, 4 * k + 2);
        lemma_byte_concat_back(a, b, 4 * k + 3);
    }
}

proof fn lemma_byte_concat_front(a: Seq<u8>, b: Seq<u8>, i: int)
    requires
        0 <= i < a.len(),
    ensures
        byte_or_zero(a + b, i) == byte_or_zero(a, i),
{
}

proof fn lemma_byte_concat_back(a: Seq<u8>, b: Seq<u8>, i: int)
    requires
        a.len() <= i,
    ensures
        byte_or_zero(a + b, i) == byte_or_zero(b, i - a.len()),
{
}

/// The first `m + n` words of `a + b`, `a` of `m` whole words, sum to those of `a` and the
/// first `n` of `b`.
proof fn lemma_word_sum_concat(a: Seq<u8>, b: Seq<u8>, n: nat, t: nat)
    requires
        a.len() % 4 == 0,
        t <= a.len() / 4 + n,
    ensures
        t <= a.len() / 4 ==> word_sum(a + b, t) == word_sum(a, t),
        t > a.len() / 4 ==> word_sum(a + b, t) == word_sum(a, (a.len() / 4) as nat) + word_sum(
            b,
            (t - a.len() / 4) as nat,
        ),
    decreases t,
{
    if t > 0 {
        lemma_word_sum_concat(a, b, n, (t - 1) as nat);
        lemma_word_at_concat(a, b, t - 1);
        let m = a.len() / 4;
        if t > m {
            assert(word_sum(b, (t - m) as nat) == word_sum(b, (t - 1 - m) as nat) + word_at(
                b,
                t - 1 - m,
            ));
            assert(word_sum(b, 0) == 0);
        }
    }
}

/// Appending to a word-aligned prefix adds checksums: for `a` a whole number of 32-bit words,
/// the checksum of `a + b` is the wrapping sum of the checksums of `a` and of `b`.
pub proof fn lemma_modular_checksum_concat(a: Seq<u8>, b: Seq<u8>)
    requires
        a.len() % 4 == 0,
    ensures
        spec_modular_checksum(a + b) == ((spec_modular_checksum(a) as int + spec_modular_checksum(
            b,
        ) as int) % 0x1_0000_0000) as u32,
{
    let m = a.len() / 4;
    let nb = (b.len() + 3) / 4;
    assert((a.len() + b.len() + 3) / 4 == m + nb);
    assert((a + b).len() == a.len() + b.len());
    assert((a.len() + 3) / 4 == m);
    lemma_word_sum_concat(a, b, nb as nat, (m + nb) as nat);
    if nb == 0 {
        assert(word_sum(b, 0) == 0);
    }
    let x = word_sum(a, m as nat);
    let y = word_sum(b, nb as nat);
    vstd::arithmetic::div_mod::lemma_add_mod_noop(x, y, 0x1_0000_0000);
}

/// Value of the `c < 4` bytes of `d` starting at `s`, big-endian.
pub open spec fn partial_word(d: Seq<u8>, s: int, c: int) -> int {
    if c <= 0 {
        0
    } else if c == 1 {
        d[s] as int
    } else if c == 2 {
        d[s] as int * 256 + d[s + 1] as int
    } else {
        d[s] as int * 65536 + d[s + 1] as int * 256 + d[s + 2] as int
    }
}

/// CF "CRC" (actually a modular checksum) as implemented by CF's `CF_CRC_*` routines.
///
/// This is a streaming sum of 32-bit big-endian words, with the final partial word
/// left-aligned and zero-padded.
pub fn cf_modular_checksum_u32(image: &[u8]) -> (c: u32)
    ensures
        c == spec_modular_checksum(image@),
{
    let mut result: u32 = 0;
    let mut working: u32 = 0;
    let mut index: u8 = 0;
    let ghost mut q: int = 0;
    let n = image.len();
    let mut i: usize = 0;
    while i < n
        invariant
            n == image@.len(),
            i <= n,
            0 <= q,
            index < 4,
            i == 4 * q + index,
            result as int == word_sum(image@, q as nat) % 0x1_0000_0000,
            working as int == partial_word(image@, 4 * q, index as int),
        decreases n - i,
    {
        let b = image[i];
        proof {
            assert(working < 0x1000000);
            assert((working << 8u32) | (b as u32) == working * 256 + b as u32) by (bit_vector)
                requires
                    working < 0x1000000,
            ;
        }
        working = (working << 8u32) | (b as u32);
        index = index + 1;
        if index == 4 {
            proof {
                assert(working as int == word_at(image@, q));
                vstd::arithmetic::div_mod::lemma_add_mod_noop(
                    word_sum(image@, q as nat),
                    word_at(image@, q),
                    0x1_0000_0000,
                );
                assert(word_sum(image@, (q + 1) as nat) == word_sum(image@, q as nat) + word_at(image@, q));
            }
            result = result.wrapping_add(working);
            working = 0;
            index = 0;
            proof {
                q = q + 1;
            }
        }
        i = i + 1;
    }
    if index != 0 {
        let shift: u32 = 8 * (4 - index as u32);
        proof {
            if index == 1 {
                assert(working < 256);
                assert(working << 24u32 == working * 16777216) by (bit_vector)
                    requires
                        working < 256,
                ;
            } else if index == 2 {
                assert(working < 65536);
                assert(working << 16u32 == working * 65536) by (bit_vector)
                    requires
                        working < 65536,
                ;
            } else {
                assert(working < 0x1000000);
                assert(working << 8u32 == working * 256) by (bit_vector)
                    requires
                        working < 0x1000000,
                ;
            }
            assert((working << shift) as int == word_at(image@, q));
            vstd::arithmetic::div_mod::lemma_add_mod_noop(
                word_sum(image@, q as nat),
                word_at(image@, q),
                0x1_0000_0000,
            );
            assert(((n + 3) / 4) as nat == (q + 1) as nat);
            assert(word_sum(image@, (q + 1) as nat) == word_sum(image@, q as nat) + word_at(image@, q));
        }
        result = result.wrapping_add(working << shift);
    } else {
        assert(((n + 3) / 4) as nat == q as nat);
    }
    result
}

#[derive(Debug, Clone, PartialEq, Eq)]
pub struct CfdpFileTransferConfig {
    pub source_eid: u64,
    pub destination_eid: u64,
    pub transaction_seq: u64,
    pub src_filename: String,
    pub dst_filename: String,
    /// Checksum type (low nibble in Metadata); start with 0 (null) for lab.
    pub checksum_type: u8,
    pub closure_requested: bool,
    /// Max bytes of file data per File Data PDU (excluding PDU header + offset).
    pub max_segment_data: usize,
}

#[derive(Debug, Clone, PartialEq, Eq)]
pub enum SendStep {
    Metadata,
    FileData { offset: usize, len: usize },
    Eof,
}

/// Length of the segment starting at `off` of an `n`-byte image cut into `m`-byte pieces.
pub open spec fn seg_len(n: nat, m: nat, off: nat) -> nat {
    if n - off < m {
        (n - off) as nat
    } else {
        m
    }
}

/// The `(offset, length)` segments covering bytes `off..n` in pieces of at most `m` bytes.
pub open spec fn segments(n: nat, m: nat, off: nat) -> Seq<(nat, nat)>
    decreases n - off,
{
    if off >= n || m == 0 {
        Seq::empty()
    } else {
        seq![(off, seg_len(n, m, off))] + segments(n, m, off + seg_len(n, m, off))
    }
}

/// `v` is the Class 1 PDU sequence for `image`: Metadata, one File Data PDU per segment, EOF.
pub open spec fn is_class1_plan(
    v: Seq<(SendStep, Vec<u8>)>,
    mib: Mib,
    cfg: CfdpFileTransferConfig,
    image: Seq<u8>,
    eof_checksum: u32,
) -> bool {
    let segs = segments(image.len(), cfg.max_segment_data as nat, 0);
    let dir = spec_class1_header(
        mib,
        PduType::FileDirective,
        cfg.source_eid,
        cfg.destination_eid,
        cfg.transaction_seq,
    );
    let data_hdr = spec_class1_header(
        mib,
        PduType::FileData,
        cfg.source_eid,
        cfg.destination_eid,
        cfg.transaction_seq,
    );
    &&& v.len() == segs.len() + 2
    &&& v[0].0 == SendStep::Metadata
    &&& v[0].1@ == spec_pdu(
        dir,
        spec_metadata_body(
            mib,
            image.len() as u64,
            cfg.checksum_type,
            cfg.closure_requested,
            encode_utf8(cfg.src_filename@),
            encode_utf8(cfg.dst_filename@),
        ),
    )
    &&& forall|k: int|
        0 <= k < segs.len() ==> {
            let (off, len) = segs[k];
            &&& #[trigger] v[k + 1].0 == SendStep::FileData { offset: off as usize, len: len as usize }
            &&& v[k + 1].1@ == spec_pdu(
                data_hdr,
                spec_file_data_body(mib, off as u64, image.subrange(off as int, (off + len) as int)),
            )
        }
    &&& v[v.len() - 1].0 == SendStep::Eof
    &&& v[v.len() - 1].1@ == spec_pdu(dir, spec_eof_body(mib, 0, eof_checksum, image.len() as u64))
}

/// Produces an ordered set of PDUs to transmit a single image using Class 1.
pub fn build_class1_pdus(
    mib: &Mib,
    cfg: &CfdpFileTransferConfig,
    image: &[u8],
    eof_checksum: u32,
) -> (r: Result<Vec<(SendStep, Vec<u8>)>, PduError>)
    requires
        image@.len() == 0 || cfg.max_segment_data > 0,
    ensures
        mib_lens_ok(*mib) ==> (r matches Ok(v) && is_class1_plan(v@, *mib, *cfg, image@, eof_checksum)),
        !mib_lens_ok(*mib) ==> mib_lens_error(*mib, r),
{
    let mut out: Vec<(SendStep, Vec<u8>)> = Vec::new();
    let md = match encode_metadata_pdu(
        mib,
        cfg.source_eid,
        cfg.destination_eid,
        cfg.transaction_seq,
        image.len() as u64,
        cfg.checksum_type,
        cfg.closure_requested,
        cfg.src_filename.as_str(),
        cfg.dst_filename.as_str(),
    ) {
        Ok(v) => v,
        Err(e) => {
            return Err(e);
        },
    };
    out.push((SendStep::Metadata, md));

    let n = image.len();
    let m = cfg.max_segment_data;
    let ghost segs = segments(n as nat, m as nat, 0);
    let mut off: usize = 0;
    while off < n
        invariant
            n == image@.len(),
            m == cfg.max_segment_data,
            n == 0 || m > 0,
            mib_lens_ok(*mib),
            off <= n,
            segs == segments(n as nat, m as nat, 0),
            out@.len() >= 1,
            segs == segs.take(out@.len() - 1) + segments(n as nat, m as nat, off as nat),
            out@.len() - 1 <= segs.len(),
            out@[0].0 == SendStep::Metadata,
            out@[0].1@ == spec_pdu(
                spec_class1_header(
                    *mib,
                    PduType::FileDirective,
                    cfg.source_eid,
                    cfg.destination_eid,
                    cfg.transaction_seq,
                ),
                spec_metadata_body(
                    *mib,
                    n as u64,
                    cfg.checksum_type,
                    cfg.closure_requested,
                    encode_utf8(cfg.src_filename@),
                    encode_utf8(cfg.dst_filename@),
                ),
            ),
            forall|k: int|
                0 <= k < out@.len() - 1 ==> {
                    let (o, l) = segs[k];
                    &&& #[trigger] out@[k + 1].0 == SendStep::FileData { offset: o as usize, len: l as usize }
                    &&& out@[k + 1].1@ == spec_pdu(
                        spec_class1_header(
                            *mib,
                            PduType::FileData,
                            cfg.source_eid,
                            cfg.destination_eid,
                            cfg.transaction_seq,
                        ),
                        spec_file_data_body(*mib, o as u64, image@.subrange(o as int, (o + l) as int)),
                    )
                },
        decreases n - off,
    {
        let take = if n - off < m {
            n - off
        } else {
            m
        };
        let ghost k = out@.len() - 1;
        proof {
            assert(segments(n as nat, m as nat, off as nat) == seq![(off as nat, take as nat)]
                + segments(n as nat, m as nat, (off + take) as nat));
            assert(segs[k] == (off as nat, take as nat)) by {
                assert(segs[k] == segments(n as nat, m as nat, off as nat)[0]);
            }
        }
        let seg = match encode_file_data_pdu(
            mib,
            cfg.source_eid,
            cfg.destination_eid,
            cfg.transaction_seq,
            off as u64,
            slice_range(image, off, off + take),
        ) {
            Ok(v) => v,
            Err(e) => {
                return Err(e);
            },
        };
        out.push((SendStep::FileData { offset: off, len: take }, seg));
        proof {
            assert(segs.take(k + 1) =~= segs.take(k).push((off as nat, take as nat)));
            assert(segs == segs.take(out@.len() - 1) + segments(n as nat, m as nat, (off + take) as nat));
        }
        off = off + take;
    }
    proof {
        assert(segments(n as nat, m as nat, off as nat) =~= Seq::<(nat, nat)>::empty());
        assert(segs.take(out@.len() - 1) =~= segs);
    }
    let eof = match encode_eof_pdu(
        mib,
        cfg.source_eid,
        cfg.destination_eid,
        cfg.transaction_seq,
        0,
        eof_checksum,
        image.len() as u64,
    ) {
        Ok(v) => v,
        Err(e) => {
            return Err(e);
        },
    };
    out.push((SendStep::Eof, eof));
    Ok(out)
}

/// The segments tile `off..n`: each is non-empty and at most `m` bytes, the first starts at
/// `off`, each starts where the previous one ends, and the last ends at `n`.
pub proof fn lemma_segments_tile(n: nat, m: nat, off: nat)
    requires
        m > 0,
        off <= n,
    ensures
        segments(n, m, off).len() == 0 <==> off == n,
        segments(n, m, off).len() > 0 ==> segments(n, m, off)[0].0 == off,
        segments(n, m, off).len() > 0 ==> segments(n, m, off).last().0 + segments(n, m, off).last().1 == n,
        forall|k: int|
            0 <= k < segments(n, m, off).len() ==> 0 < (#[trigger] segments(n, m, off)[k]).1 <= m,
        forall|k: int|
            0 <= k < segments(n, m, off).len() - 1 ==> #[trigger] segments(n, m, off)[k].0 + segments(
                n,
                m,
                off,
            )[k].1 == segments(n, m, off)[k + 1].0,
    decreases n - off,
{
    if off < n {
        let l = seg_len(n, m, off);
        lemma_segments_tile(n, m, off + l);
        let rest = segments(n, m, off + l);
        let s = segments(n, m, off);
        assert(s == seq![(off, l)] + rest);
        assert forall|k: int| 0 <= k < s.len() implies 0 < (#[trigger] s[k]).1 <= m by {
            if k > 0 {
                assert(s[k] == rest[k - 1]);
            }
        }
        assert forall|k: int| 0 <= k < s.len() - 1 implies #[trigger] s[k].0 + s[k].1 == s[k + 1].0 by {
            if k > 0 {
                assert(s[k] == rest[k - 1]);
                assert(s[k + 1] == rest[k]);
            } else {
                if rest.len() > 0 {
                    assert(s[1] == rest[0]);
                }
            }
        }
        if rest.len() > 0 {
            assert(s.last() == rest.last());
        }
    }
}

} // verus!
