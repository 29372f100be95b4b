//! Build a byte-perfect `AI_APP_WeightsTable_t` table image for cFE Table Services.
//!
//! This matches the layout in `cfs/apps/ai_app/fsw/inc/ai_app_tbl.h` and the CRC rules in
//! `cfs/apps/ai_app/fsw/src/ai_app_tbl_mgr.c`:
//! - CRC32 is IEEE reflected (init 0xFFFFFFFF, xorout 0xFFFFFFFF)
//! - computed over the entire table image bytes while skipping the 4 bytes of `Hdr.Crc32`.
//!
//! Weights are `f64` values; the image stores their IEEE-754 binary64 bit patterns
//! little-endian, so this module takes each weight as its bit pattern (`f64::to_bits`).

use vstd::prelude::*;
use vstd::utf8::encode_utf8;

use crate::crc::{
    crc32_byte, crc32_shifts, crc32_skip_from, in_crc_field, lemma_crc32_skip_ignores_field,
    spec_crc32_skip_field,
};
use crate::text::str_starts_with;

verus! {

pub const AI_APP_WEIGHTS_TBL_MAGIC: u64 = 0x4149_5F41_5050_5F57u64;
pub const AI_APP_WEIGHTS_TBL_VERSION: u32 = 1;
pub const AI_APP_WEIGHTS_TBL_MISSION_VER_LEN: usize = 64;

/// Bytes occupied by `AI_APP_WeightsTblHdr_t` in the C layout (gcc/clang, typical embedded ABI).
///
/// Logical header fields are 100 bytes; the compiler inserts **4 bytes** tail padding so `double`
/// table data matches `offsetof(AI_APP_WeightsTable_t, wte) == 104`.
pub const AI_APP_WEIGHTS_TBL_HDR_LAYOUT_BYTES: usize = 104;

/// Byte offset of `Hdr.Crc32` within the table image for the lab target layout.
///
/// Per the C header order: Magic(u64) at 0..8, Version(u32) at 8..12, then Crc32(u32) at 12..16.
pub const AI_APP_WEIGHTS_TBL_CRC32_OFF: usize = 12;
pub const AI_APP_WEIGHTS_TBL_CRC32_LEN: usize = 4;

#[derive(Clone, Debug, PartialEq, Eq)]
pub struct AiAppDims {
    pub vocab_size: u32,
    pub n_embd: u32,
    pub block_size: u32,
    pub n_head: u32,
    /// Number of layers to use (must be 1..=max_layer).
    pub n_layer: u32,
    /// Upper bound for static arrays (matches `AI_APP_GPT_MAX_LAYER` on flight).
    pub max_layer: u32,
    /// MLP factor (hidden = n_embd * mlp_factor).
    pub mlp_factor: u32,
}

impl AiAppDims {
    /// MLP hidden width `n_embd * mlp_factor`.
    pub fn mlp_hidden(&self) -> (h: u32)
        requires
            self.n_embd * self.mlp_factor <= u32::MAX,
        ensures
            h == self.n_embd * self.mlp_factor,
    {
        self.n_embd * self.mlp_factor
    }

    /// Every array size of the table fits in `usize`, and the MLP width fits in `u32`.
    pub open spec fn sizes_fit(&self) -> bool {
        &&& self.n_embd * self.mlp_factor <= u32::MAX
        &&& self.vocab_size * self.n_embd <= usize::MAX
        &&& self.block_size * self.n_embd <= usize::MAX
        &&& self.n_embd * self.n_embd <= usize::MAX
        &&& self.n_embd * self.mlp_factor * self.n_embd <= usize::MAX
    }
}

/// Table weights as IEEE-754 binary64 bit patterns; per-layer arrays have `max_layer` entries.
#[derive(Clone, Debug, PartialEq, Eq)]
pub struct AiAppWeights<'a> {
    pub wte: &'a [u64],
    pub wpe: &'a [u64],
    pub lm_head: &'a [u64],
    /// Per-layer weights; each inner slice must be length n_embd*n_embd (or derived).
    pub attn_wq: &'a [&'a [u64]],
    pub attn_wk: &'a [&'a [u64]],
    pub attn_wv: &'a [&'a [u64]],
    pub attn_wo: &'a [&'a [u64]],
    pub mlp_fc1: &'a [&'a [u64]],
    pub mlp_fc2: &'a [&'a [u64]],
}

#[derive(Debug, Clone, PartialEq, Eq)]
pub enum TableImageError {
    BadLen { field: &'static str, expected: usize, got: usize },
    BadLayerCount { n_layer: u32, max_layer: u32 },
}

/// Little-endian bytes of a `u32`.
pub open spec fn le32_bytes(v: u32) -> Seq<u8> {
    seq![(v % 256) as u8, ((v / 256) % 256) as u8, ((v / 65536) % 256) as u8, (v / 16777216) as u8]
}

/// Little-endian bytes of a `u64`.
pub open spec fn le64_bytes(v: u64) -> Seq<u8> {
    le32_bytes((v % 0x1_0000_0000) as u32) + le32_bytes((v / 0x1_0000_0000) as u32)
}

/// Little-endian bytes of each value of `s`, in order.
pub open spec fn u64s_le(s: Seq<u64>) -> Seq<u8>
    decreases s.len(),
{
    if s.len() == 0 {
        Seq::empty()
    } else {
        u64s_le(s.drop_last()) + le64_bytes(s.last())
    }
}

/// The values of all layers, layer after layer, little-endian.
pub open spec fn layers_le(ls: Seq<Seq<u64>>) -> Seq<u8>
    decreases ls.len(),
{
    if ls.len() == 0 {
        Seq::empty()
    } else {
        layers_le(ls.drop_last()) + u64s_le(ls.last())
    }
}

/// `n` zero bytes.
pub open spec fn zeros(n: nat) -> Seq<u8> {
    Seq::new(n, |i: int| 0u8)
}

/// A fixed `n`-byte C string field: the first `n` bytes of `b`, zero-padded.
pub open spec fn fixed_cstr(b: Seq<u8>, n: nat) -> Seq<u8> {
    if b.len() >= n {
        b.take(n as int)
    } else {
        b + zeros((n - b.len()) as nat)
    }
}

/// The views of a slice of slices.
pub open spec fn layer_views(ls: Seq<&[u64]>) -> Seq<Seq<u64>> {
    ls.map_values(|s: &[u64]| s@)
}

/// The 104-byte table header with a zero CRC field.
pub open spec fn image_header(d: AiAppDims, mission_version: Seq<u8>) -> Seq<u8> {
    le64_bytes(AI_APP_WEIGHTS_TBL_MAGIC) + le32_bytes(AI_APP_WEIGHTS_TBL_VERSION) + le32_bytes(0)
        + le32_bytes(d.vocab_size) + le32_bytes(d.n_embd) + le32_bytes(d.block_size) + le32_bytes(
        d.n_head,
    ) + le32_bytes(d.n_layer) + fixed_cstr(mission_version, 64) + zeros(4)
}

/// The weight arrays in C struct order.
pub open spec fn image_body(w: AiAppWeights) -> Seq<u8> {
    u64s_le(w.wte@) + u64s_le(w.wpe@) + u64s_le(w.lm_head@) + layers_le(layer_views(w.attn_wq@))
        + layers_le(layer_views(w.attn_wk@)) + layers_le(layer_views(w.attn_wv@)) + layers_le(
        layer_views(w.attn_wo@),
    ) + layers_le(layer_views(w.mlp_fc1@)) + layers_le(layer_views(w.mlp_fc2@))
}

/// The table image before its CRC field is filled.
pub open spec fn image_unsealed(d: AiAppDims, mission_version: Seq<u8>, w: AiAppWeights) -> Seq<u8> {
    image_header(d, mission_version) + image_body(w)
}

/// `img` with the little-endian `crc` written at bytes 12..16.
pub open spec fn seal(img: Seq<u8>, crc: u32) -> Seq<u8> {
    let b = le32_bytes(crc);
    img.update(12, b[0]).update(13, b[1]).update(14, b[2]).update(15, b[3])
}

/// One expected-length check: the field name, the expected and the actual length.
pub struct LenCheck {
    pub field: Seq<char>,
    pub expected: nat,
    pub got: nat,
}

/// The whole-table checks, in order: flat arrays, then per-layer array counts.
pub open spec fn top_checks(d: AiAppDims, w: AiAppWeights) -> Seq<LenCheck> {
    seq![
        LenCheck { field: "wte"@, expected: (d.vocab_size * d.n_embd) as nat, got: w.wte@.len() },
        LenCheck { field: "wpe"@, expected: (d.block_size * d.n_embd) as nat, got: w.wpe@.len() },
        LenCheck { field: "lm_head"@, expected: (d.vocab_size * d.n_embd) as nat, got: w.lm_head@.len() },
        LenCheck { field: "attn_wq[layer_count]"@, expected: d.max_layer as nat, got: w.attn_wq@.len() },
        LenCheck { field: "attn_wk[layer_count]"@, expected: d.max_layer as nat, got: w.attn_wk@.len() },
        LenCheck { field: "attn_wv[layer_count]"@, expected: d.max_layer as nat, got: w.attn_wv@.len() },
        LenCheck { field: "attn_wo[layer_count]"@, expected: d.max_layer as nat, got: w.attn_wo@.len() },
        LenCheck { field: "mlp_fc1[layer_count]"@, expected: d.max_layer as nat, got: w.mlp_fc1@.len() },
        LenCheck { field: "mlp_fc2[layer_count]"@, expected: d.max_layer as nat, got: w.mlp_fc2@.len() },
    ]
}

/// The six checks of layer `li`.
pub open spec fn layer_checks_at(d: AiAppDims, w: AiAppWeights, li: int) -> Seq<LenCheck> {
    let attn = (d.n_embd * d.n_embd) as nat;
    let mlp = (d.n_embd * d.mlp_factor * d.n_embd) as nat;
    seq![
        LenCheck { field: "attn_wq[layer]"@, expected: attn, got: w.attn_wq@[li]@.len() },
        LenCheck { field: "attn_wk[layer]"@, expected: attn, got: w.attn_wk@[li]@.len() },
        LenCheck { field: "attn_wv[layer]"@, expected: attn, got: w.attn_wv@[li]@.len() },
        LenCheck { field: "attn_wo[layer]"@, expected: attn, got: w.attn_wo@[li]@.len() },
        LenCheck { field: "mlp_fc1[layer]"@, expected: mlp, got: w.mlp_fc1@[li]@.len() },
        LenCheck { field: "mlp_fc2[layer]"@, expected: mlp, got: w.mlp_fc2@[li]@.len() },
    ]
}

/// The checks of layers `0..n`, layer after layer.
pub open spec fn layer_checks(d: AiAppDims, w: AiAppWeights, n: nat) -> Seq<LenCheck>
    decreases n,
{
    if n == 0 {
        Seq::empty()
    } else {
        layer_checks(d, w, (n - 1) as nat) + layer_checks_at(d, w, n - 1)
    }
}

/// All length checks, in the order they are made.
pub open spec fn all_checks(d: AiAppDims, w: AiAppWeights) -> Seq<LenCheck> {
    top_checks(d, w) + layer_checks(d, w, d.max_layer as nat)
}

/// The first check whose expected and actual lengths differ.
pub open spec fn first_failing(cs: Seq<LenCheck>) -> Option<LenCheck>
    decreases cs.len(),
{
    if cs.len() == 0 {
        None
    } else if cs[0].expected != cs[0].got {
        Some(cs[0])
    } else {
        first_failing(cs.drop_first())
    }
}

/// The mission version string begins with `DEFAULT_`.
pub open spec fn is_default_version(mv: Seq<char>) -> bool {
    mv.len() >= "DEFAULT_"@.len() && mv.take("DEFAULT_"@.len() as int) == "DEFAULT_"@
}

/// What building the table image yields.
pub open spec fn image_outcome(
    d: AiAppDims,
    mission_version: Seq<char>,
    w: AiAppWeights,
    r: Result<Vec<u8>, TableImageError>,
) -> bool {
    if d.n_layer == 0 || d.n_layer > d.max_layer {
        r == Err::<Vec<u8>, TableImageError>(
            TableImageError::BadLayerCount { n_layer: d.n_layer, max_layer: d.max_layer },
        )
    } else {
        match first_failing(all_checks(d, w)) {
            Some(c) => r matches Err(TableImageError::BadLen { field, expected, got })
                && field@ == c.field && expected == c.expected && got == c.got,
            None => {
                let img = image_unsealed(d, encode_utf8(mission_version), w);
                let crc = spec_crc32_skip_field(img, 12);
                if crc == 0 && !is_default_version(mission_version) {
                    r matches Err(TableImageError::BadLen { field, expected, got }) && field@
                        == "Hdr.Crc32"@ && expected == 1 && got == 0
                } else {
                    r matches Ok(v) && v@ == seal(img, crc)
                }
            },
        }
    }
}

/// Appends the little-endian bytes of `v`.
pub fn push_u32_le(buf: &mut Vec<u8>, v: u32)
    ensures
        final(buf)@ == old(buf)@ + le32_bytes(v),
{
    proof {
        assert(((v & 0xFF) == v % 256) && (((v >> 8u32) & 0xFF) == (v / 256) % 256) && (((v >> 16u32) & 0xFF) == (v / 65536) % 256) && ((v >> 24u32) == v / 16777216)) by (bit_vector);
    }
    buf.push((v & 0xFF) as u8);
    buf.push(((v >> 8u32) & 0xFF) as u8);
    buf.push(((v >> 16u32) & 0xFF) as u8);
    buf.push((v >> 24u32) as u8);
    assert(final(buf)@ =~= old(buf)@ + le32_bytes(v));
}

/// Appends the little-endian bytes of `v`.
pub fn push_u64_le(buf: &mut Vec<u8>, v: u64)
    ensures
        final(buf)@ == old(buf)@ + le64_bytes(v),
{
    proof {
        assert(((v & 0xFFFF_FFFF) == v % 0x1_0000_0000) && ((v >> 32u64) == v / 0x1_0000_0000)) by (bit_vector);
    }
    push_u32_le(buf, (v & 0xFFFF_FFFF) as u32);
    push_u32_le(buf, (v >> 32u64) as u32);
    assert(final(buf)@ =~= old(buf)@ + le64_bytes(v));
}

/// Appends the little-endian bytes of each value of `s`.
pub fn push_u64s_le(buf: &mut Vec<u8>, s: &[u64])
    ensures
        final(buf)@ == old(buf)@ + u64s_le(s@),
{
    let ghost start = buf@;
    let mut i: usize = 0;
    while i < s.len()
        invariant
            i <= s@.len(),
            buf@ == start + u64s_le(s@.take(i as int)),
        decreases s@.len() - i,
    {
        push_u64_le(buf, s[i]);
        proof {
            let t = s@.take(i + 1);
            assert(t.drop_last() =~= s@.take(i as int));
            assert(buf@ =~= start + u64s_le(t));
        }
        i = i + 1;
    }
    assert(s@.take(s@.len() as int) =~= s@);
}

/// Appends the little-endian bytes of every layer of `ls`, layer after layer.
pub fn push_layers_le(buf: &mut Vec<u8>, ls: &[&[u64]])
    ensures
        final(buf)@ == old(buf)@ + layers_le(layer_views(ls@)),
{
    let ghost start = buf@;
    let mut i: usize = 0;
    while i < ls.len()
        invariant
            i <= ls@.len(),
            buf@ == start + layers_le(layer_views(ls@.take(i as int))),
        decreases ls@.len() - i,
    {
        push_u64s_le(buf, ls[i]);
        proof {
            let t = ls@.take(i + 1);
            assert(layer_views(t).drop_last() =~= layer_views(ls@.take(i as int)));
            assert(layer_views(t).last() == ls@[i as int]@);
            assert(buf@ =~= start + layers_le(layer_views(t)));
        }
        i = i + 1;
    }
    assert(ls@.take(ls@.len() as int) =~= ls@);
}

/// Appends an `n`-byte C string field holding the first `n` bytes of `s`, zero-padded.
pub fn push_fixed_cstr(buf: &mut Vec<u8>, s: &str, n: usize)
    ensures
        final(buf)@ == old(buf)@ + fixed_cstr(encode_utf8(s@), n as nat),
{
    let b = s.as_bytes();
    let take = if b.len() < n {
        b.len()
    } else {
        n
    };
    let ghost start = buf@;
    let mut i: usize = 0;
    while i < take
        invariant
            take <= b@.len(),
            take <= n,
            i <= take,
            buf@ == start + b@.take(i as int),
        decreases take - i,
    {
        buf.push(b[i]);
        proof {
            assert(b@.take(i + 1) =~= b@.take(i as int).push(b@[i as int]));
        }
        i = i + 1;
    }
    let mut k: usize = 0;
    while k < n - take
        invariant
            take <= n,
            k <= n - take,
            buf@ == start + b@.take(take as int) + zeros(k as nat),
        decreases n - take - k,
    {
        buf.push(0);
        proof {
            assert(zeros((k + 1) as nat) =~= zeros(k as nat).push(0u8));
            assert(buf@ =~= start + b@.take(take as int) + zeros((k + 1) as nat));
        }
        k = k + 1;
    }
    proof {
        if b@.len() >= n {
            assert(zeros(0) =~= Seq::<u8>::empty());
            assert(buf@ =~= start + fixed_cstr(b@, n as nat));
        } else {
            assert(b@.take(take as int) =~= b@);
            assert(buf@ =~= start + fixed_cstr(b@, n as nat));
        }
    }
}

/// `Ok` when `got == expected`, else the `BadLen` error for `field`.
pub fn expect_len(field: &'static str, got: usize, expected: usize) -> (r: Result<(), TableImageError>)
    ensures
        got == expected ==> r is Ok,
        got != expected ==> r == Err::<(), TableImageError>(
            TableImageError::BadLen { field, expected, got },
        ),
{
    if got == expected {
        Ok(())
    } else {
        Err(TableImageError::BadLen { field, expected, got })
    }
}

/// Compute CRC32 update step (reflected) identical to `ai_app_tbl_mgr.c`.
pub fn crc32_update(crc: u32, byte: u8) -> (r: u32)
    ensures
        r == crc32_byte(crc, byte),
{
    let start = crc ^ (byte as u32);
    let mut c = start;
    let mut k: u32 = 0;
    while k < 8
        invariant
            k <= 8,
            c == crc32_shifts(start, k as nat),
        decreases 8 - k,
    {
        if (c & 1) != 0 {
            c = (c >> 1u32) ^ 0xEDB8_8320;
        } else {
            c = c >> 1u32;
        }
        k = k + 1;
    }
    c
}

/// Computes the `ai_app` CRC32 over `data` skipping the CRC32 field bytes.
pub fn ai_app_crc32_skip_field(data: &[u8], crc_off: usize) -> (c: u32)
    ensures
        c == spec_crc32_skip_field(data@, crc_off as int),
{
    let mut crc: u32 = 0xFFFF_FFFF;
    let mut i: usize = 0;
    while i < data.len()
        invariant
            i <= data@.len(),
            crc == crc32_skip_from(0xFFFF_FFFFu32, data@.take(i as int), crc_off as int),
        decreases data@.len() - i,
    {
        proof {
            assert(data@.take(i + 1).drop_last() =~= data@.take(i as int));
        }
        if i >= crc_off && i - crc_off < AI_APP_WEIGHTS_TBL_CRC32_LEN {
            i = i + 1;
            continue;
        }
        crc = crc32_update(crc, data[i]);
        i = i + 1;
    }
    assert(data@.take(data@.len() as int) =~= data@);
    crc ^ 0xFFFF_FFFF
}

/// The first failing check of `a + b` is that of `a`, or else that of `b`.
pub proof fn lemma_first_failing_concat(a: Seq<LenCheck>, b: Seq<LenCheck>)
    ensures
        first_failing(a + b) == (if first_failing(a) is Some {
            first_failing(a)
        } else {
            first_failing(b)
        }),
    decreases a.len(),
{
    if a.len() > 0 {
        assert((a + b).drop_first() =~= a.drop_first() + b);
        lemma_first_failing_concat(a.drop_first(), b);
    } else {
        assert(a + b =~= b);
    }
}

/// When checks `0..k` pass and check `k` fails, `k` is the first failing check.
pub proof fn lemma_first_failing_at(cs: Seq<LenCheck>, k: int)
    requires
        0 <= k < cs.len(),
        cs[k].expected != cs[k].got,
        forall|j: int| 0 <= j < k ==> cs[j].expected == cs[j].got,
    ensures
        first_failing(cs) == Some(cs[k]),
    decreases k,
{
    if k > 0 {
        lemma_first_failing_at(cs.drop_first(), k - 1);
    }
}

/// When every check passes there is no failing check.
pub proof fn lemma_first_failing_none(cs: Seq<LenCheck>)
    requires
        forall|j: int| 0 <= j < cs.len() ==> cs[j].expected == cs[j].got,
    ensures
        first_failing(cs) is None,
    decreases cs.len(),
{
    if cs.len() > 0 {
        lemma_first_failing_none(cs.drop_first());
    }
}

/// Layer `li`'s checks sit at `6 * li .. 6 * li + 6` of the per-layer checks.
pub proof fn lemma_layer_checks_index(d: AiAppDims, w: AiAppWeights, n: nat, li: int, t: int)
    requires
        0 <= li < n,
        0 <= t < 6,
    ensures
        layer_checks(d, w, n).len() == 6 * n,
        layer_checks(d, w, n)[6 * li + t] == layer_checks_at(d, w, li)[t],
    decreases n,
{
    lemma_layer_checks_len(d, w, (n - 1) as nat);
    if li < n - 1 {
        lemma_layer_checks_index(d, w, (n - 1) as nat, li, t);
    }
}

/// There are six checks per layer.
pub proof fn lemma_layer_checks_len(d: AiAppDims, w: AiAppWeights, n: nat)
    ensures
        layer_checks(d, w, n).len() == 6 * n,
    decreases n,
{
    if n > 0 {
        lemma_layer_checks_len(d, w, (n - 1) as nat);
    }
}

/// Runs check `k` of `cs`, all earlier ones having passed.
fn check_at(
    field: &'static str,
    got: usize,
    expected: usize,
    Ghost(cs): Ghost<Seq<LenCheck>>,
    Ghost(k): Ghost<int>,
) -> (r: Result<(), TableImageError>)
    requires
        0 <= k < cs.len(),
        cs[k].field == field@,
        cs[k].expected == expected,
        cs[k].got == got,
        forall|j: int| 0 <= j < k ==> cs[j].expected == cs[j].got,
    ensures
        r is Ok ==> forall|j: int| 0 <= j <= k ==> cs[j].expected == cs[j].got,
        r is Err ==> r == Err::<(), TableImageError>(TableImageError::BadLen { field, expected, got })
            && first_failing(cs) == Some(cs[k]),
{
    let r = expect_len(field, got, expected);
    proof {
        if got != expected {
            lemma_first_failing_at(cs, k);
        }
    }
    r
}

/// Runs every length check in order and reports the first failing one.
fn check_lengths(dims: &AiAppDims, w: &AiAppWeights) -> (r: Result<(), TableImageError>)
    requires
        dims.sizes_fit(),
    ensures
        match first_failing(all_checks(*dims, *w)) {
            Some(c) => r matches Err(TableImageError::BadLen { field, expected, got }) && field@
                == c.field && expected == c.expected && got == c.got,
            None => r is Ok,
        },
{
    let ghost cs = all_checks(*dims, *w);
    let ghost top = top_checks(*dims, *w);
    proof {
        lemma_layer_checks_len(*dims, *w, dims.max_layer as nat);
        assert(cs.subrange(0, 9) =~= top);
        assert(cs.subrange(9, cs.len() as int) =~= layer_checks(*dims, *w, dims.max_layer as nat));
    }
    let vocab = dims.vocab_size as usize;
    let n_embd = dims.n_embd as usize;
    let block = dims.block_size as usize;
    let max_layer = dims.max_layer as usize;
    let mlp_hidden = dims.mlp_hidden() as usize;
    let attn_len = n_embd * n_embd;
    let mlp_len = mlp_hidden * n_embd;
    let r = check_at("wte", w.wte.len(), vocab * n_embd, Ghost(cs), Ghost(0));
    if r.is_err() {
        return r;
    }
    let r = check_at("wpe", w.wpe.len(), block * n_embd, Ghost(cs), Ghost(1));
    if r.is_err() {
        return r;
    }
    let r = check_at("lm_head", w.lm_head.len(), vocab * n_embd, Ghost(cs), Ghost(2));
    if r.is_err() {
        return r;
    }
    let r = check_at("attn_wq[layer_count]", w.attn_wq.len(), max_layer, Ghost(cs), Ghost(3));
    if r.is_err() {
        return r;
    }
    let r = check_at("attn_wk[layer_count]", w.attn_wk.len(), max_layer, Ghost(cs), Ghost(4));
    if r.is_err() {
        return r;
    }
    let r = check_at("attn_wv[layer_count]", w.attn_wv.len(), max_layer, Ghost(cs), Ghost(5));
    if r.is_err() {
        return r;
    }
    let r = check_at("attn_wo[layer_count]", w.attn_wo.len(), max_layer, Ghost(cs), Ghost(6));
    if r.is_err() {
        return r;
    }
    let r = check_at("mlp_fc1[layer_count]", w.mlp_fc1.len(), max_layer, Ghost(cs), Ghost(7));
    if r.is_err() {
        return r;
    }
    let r = check_at("mlp_fc2[layer_count]", w.mlp_fc2.len(), max_layer, Ghost(cs), Ghost(8));
    if r.is_err() {
        return r;
    }
    let mut li: usize = 0;
    while li < max_layer
        invariant
            cs == all_checks(*dims, *w),
            cs.len() == 9 + 6 * max_layer,
            cs.subrange(0, 9) == top_checks(*dims, *w),
            cs.subrange(9, cs.len() as int) == layer_checks(*dims, *w, dims.max_layer as nat),
            max_layer == dims.max_layer,
            attn_len == dims.n_embd * dims.n_embd,
            mlp_len == dims.n_embd * dims.mlp_factor * dims.n_embd,
            w.attn_wq@.len() == max_layer,
            w.attn_wk@.len() == max_layer,
            w.attn_wv@.len() == max_layer,
            w.attn_wo@.len() == max_layer,
            w.mlp_fc1@.len() == max_layer,
            w.mlp_fc2@.len() == max_layer,
            li <= max_layer,
            forall|j: int| 0 <= j < 9 + 6 * li ==> cs[j].expected == cs[j].got,
        decreases max_layer - li,
    {
        let ghost base: int = 9 + 6 * li;
        let ghost lc = layer_checks_at(*dims, *w, li as int);
        proof {
            let per = layer_checks(*dims, *w, dims.max_layer as nat);
            lemma_layer_checks_index(*dims, *w, dims.max_layer as nat, li as int, 0);
            lemma_layer_checks_index(*dims, *w, dims.max_layer as nat, li as int, 1);
            lemma_layer_checks_index(*dims, *w, dims.max_layer as nat, li as int, 2);
            lemma_layer_checks_index(*dims, *w, dims.max_layer as nat, li as int, 3);
            lemma_layer_checks_index(*dims, *w, dims.max_layer as nat, li as int, 4);
            lemma_layer_checks_index(*dims, *w, dims.max_layer as nat, li as int, 5);
            assert(cs[base] == per[6 * li + 0]);
            assert(cs[base + 1] == per[6 * li + 1]);
            assert(cs[base + 2] == per[6 * li + 2]);
            assert(cs[base + 3] == per[6 * li + 3]);
            assert(cs[base + 4] == per[6 * li + 4]);
            assert(cs[base + 5] == per[6 * li + 5]);
            assert(cs[base].field == "attn_wq[layer]"@);
            assert(cs[base + 1].field == "attn_wk[layer]"@);
            assert(cs[base + 2].field == "attn_wv[layer]"@);
            assert(cs[base + 3].field == "attn_wo[layer]"@);
            assert(cs[base + 4].field == "mlp_fc1[layer]"@);
            assert(cs[base + 5].field == "mlp_fc2[layer]"@);
        }
        let r = check_at("attn_wq[layer]", w.attn_wq[li].len(), attn_len, Ghost(cs), Ghost(base));
        if r.is_err() {
            return r;
        }
        let r = check_at("attn_wk[layer]", w.attn_wk[li].len(), attn_len, Ghost(cs), Ghost(base + 1));
        if r.is_err() {
            return r;
        }
        let r = check_at("attn_wv[layer]", w.attn_wv[li].len(), attn_len, Ghost(cs), Ghost(base + 2));
        if r.is_err() {
            return r;
        }
        let r = check_at("attn_wo[layer]", w.attn_wo[li].len(), attn_len, Ghost(cs), Ghost(base + 3));
        if r.is_err() {
            return r;
        }
        let r = check_at("mlp_fc1[layer]", w.mlp_fc1[li].len(), mlp_len, Ghost(cs), Ghost(base + 4));
        if r.is_err() {
            return r;
        }
        let r = check_at("mlp_fc2[layer]", w.mlp_fc2[li].len(), mlp_len, Ghost(cs), Ghost(base + 5));
        if r.is_err() {
            return r;
        }
        li = li + 1;
    }
    proof {
        lemma_first_failing_none(cs);
    }
    Ok(())
}

/// `fixed_cstr` always yields exactly `n` bytes.
pub proof fn lemma_fixed_cstr_len(b: Seq<u8>, n: nat)
    ensures
        fixed_cstr(b, n).len() == n,
{
}

/// Writes the little-endian `crc` over bytes 12..16 of `buf`.
fn write_crc_field(buf: &mut Vec<u8>, crc: u32)
    requires
        old(buf)@.len() >= 16,
    ensures
        final(buf)@ == seal(old(buf)@, crc),
{
    proof {
        assert(((crc & 0xFF) == crc % 256) && (((crc >> 8u32) & 0xFF) == (crc / 256) % 256) && (((crc >> 16u32) & 0xFF) == (crc / 65536) % 256) && ((crc >> 24u32) == crc / 16777216)) by (bit_vector);
    }
    buf.set(12, (crc & 0xFF) as u8);
    buf.set(13, ((crc >> 8u32) & 0xFF) as u8);
    buf.set(14, ((crc >> 16u32) & 0xFF) as u8);
    buf.set(15, (crc >> 24u32) as u8);
    assert(final(buf)@ =~= seal(old(buf)@, crc));
}

/// Serializes the 104-byte header (CRC field zero) and all weight arrays in C struct order.
fn serialize_unsealed(dims: &AiAppDims, mission_version: &str, weights: &AiAppWeights) -> (buf: Vec<
    u8,
>)
    ensures
        buf@ == image_unsealed(*dims, encode_utf8(mission_version@), *weights),
{
    let mut buf: Vec<u8> = Vec::new();
    push_u64_le(&mut buf, AI_APP_WEIGHTS_TBL_MAGIC);
    push_u32_le(&mut buf, AI_APP_WEIGHTS_TBL_VERSION);
    push_u32_le(&mut buf, 0);
    push_u32_le(&mut buf, dims.vocab_size);
    push_u32_le(&mut buf, dims.n_embd);
    push_u32_le(&mut buf, dims.block_size);
    push_u32_le(&mut buf, dims.n_head);
    push_u32_le(&mut buf, dims.n_layer);
    push_fixed_cstr(&mut buf, mission_version, AI_APP_WEIGHTS_TBL_MISSION_VER_LEN);
    let ghost fields = buf@;
    proof {
        lemma_fixed_cstr_len(encode_utf8(mission_version@), 64);
        assert(fields.len() == 100);
    }
    while buf.len() < AI_APP_WEIGHTS_TBL_HDR_LAYOUT_BYTES
        invariant
            100 <= buf@.len() <= 104,
            buf@ == fields + zeros((buf@.len() - 100) as nat),
        decreases 104 - buf@.len(),
    {
        let ghost n = buf@.len();
        buf.push(0);
        assert(zeros((n + 1 - 100) as nat) =~= zeros((n - 100) as nat).push(0u8));
    }
    assert(buf@ =~= image_header(*dims, encode_utf8(mission_version@)));
    let ghost hdr = buf@;
    push_u64s_le(&mut buf, weights.wte);
    push_u64s_le(&mut buf, weights.wpe);
    push_u64s_le(&mut buf, weights.lm_head);
    push_layers_le(&mut buf, weights.attn_wq);
    push_layers_le(&mut buf, weights.attn_wk);
    push_layers_le(&mut buf, weights.attn_wv);
    push_layers_le(&mut buf, weights.attn_wo);
    push_layers_le(&mut buf, weights.mlp_fc1);
    push_layers_le(&mut buf, weights.mlp_fc2);
    assert(buf@ =~= hdr + image_body(*weights));
    buf
}

/// Builds the `AI_APP_WeightsTable_t` image: header, weight arrays, then the CRC32 (computed
/// with the CRC field skipped) written into `Hdr.Crc32`.
///
/// Fails with `BadLayerCount` unless `1 <= n_layer <= max_layer`, with `BadLen` for the first
/// array whose length disagrees with `dims`, and with `BadLen { field: "Hdr.Crc32", .. }` when the
/// CRC comes out zero for a mission version that does not start with `DEFAULT_`.
pub fn build_ai_app_weights_table_image(
    dims: &AiAppDims,
    mission_version: &str,
    weights: &AiAppWeights,
) -> (r: Result<Vec<u8>, TableImageError>)
    requires
        1 <= dims.n_layer <= dims.max_layer ==> dims.sizes_fit(),
    ensures
        image_outcome(*dims, mission_version@, *weights, r),
{
    if dims.n_layer == 0 || dims.n_layer > dims.max_layer {
        return Err(
            TableImageError::BadLayerCount { n_layer: dims.n_layer, max_layer: dims.max_layer },
        );
    }
    if let Err(e) = check_lengths(dims, weights) {
        return Err(e);
    }
    let mut buf = serialize_unsealed(dims, mission_version, weights);
    let crc = ai_app_crc32_skip_field(buf.as_slice(), AI_APP_WEIGHTS_TBL_CRC32_OFF);
    let ghost img = buf@;
    proof {
        lemma_fixed_cstr_len(encode_utf8(mission_version@), 64);
        assert(img.len() >= 104);
    }
    write_crc_field(&mut buf, crc);
    if crc == 0 && !str_starts_with(mission_version, "DEFAULT_") {
        return Err(TableImageError::BadLen { field: "Hdr.Crc32", expected: 1, got: 0 });
    }
    Ok(buf)
}

/// Each value takes eight bytes.
pub proof fn lemma_u64s_le_len(s: Seq<u64>)
    ensures
        u64s_le(s).len() == 8 * s.len(),
    decreases s.len(),
{
    if s.len() > 0 {
        lemma_u64s_le_len(s.drop_last());
    }
}

/// Layers of `k` values each take `8 * k` bytes per layer.
pub proof fn lemma_layers_le_len(ls: Seq<Seq<u64>>, k: nat)
    requires
        forall|i: int| 0 <= i < ls.len() ==> #[trigger] ls[i].len() == k,
    ensures
        layers_le(ls).len() == 8 * k * ls.len(),
    decreases ls.len(),
{
    if ls.len() > 0 {
        lemma_layers_le_len(ls.drop_last(), k);
        lemma_u64s_le_len(ls.last());
        assert(8 * k * ls.len() == 8 * k * (ls.len() - 1) + 8 * k) by (nonlinear_arith);
    }
}

/// The number of bytes of a complete table image for `d`.
pub open spec fn image_len(d: AiAppDims) -> int {
    104 + 8 * (2 * (d.vocab_size * d.n_embd) + d.block_size * d.n_embd + d.max_layer * (4 * (d.n_embd
        * d.n_embd) + 2 * (d.n_embd * d.mlp_factor * d.n_embd)))
}

/// When no check fails, every array has the length the dimensions give it.
pub proof fn lemma_checks_pass(d: AiAppDims, w: AiAppWeights)
    requires
        first_failing(all_checks(d, w)) is None,
    ensures
        w.wte@.len() == d.vocab_size * d.n_embd,
        w.wpe@.len() == d.block_size * d.n_embd,
        w.lm_head@.len() == d.vocab_size * d.n_embd,
        w.attn_wq@.len() == d.max_layer,
        w.attn_wk@.len() == d.max_layer,
        w.attn_wv@.len() == d.max_layer,
        w.attn_wo@.len() == d.max_layer,
        w.mlp_fc1@.len() == d.max_layer,
        w.mlp_fc2@.len() == d.max_layer,
        forall|li: int| 0 <= li < d.max_layer ==> (#[trigger] w.attn_wq@[li])@.len() == d.n_embd * d.n_embd,
        forall|li: int| 0 <= li < d.max_layer ==> (#[trigger] w.attn_wk@[li])@.len() == d.n_embd * d.n_embd,
        forall|li: int| 0 <= li < d.max_layer ==> (#[trigger] w.attn_wv@[li])@.len() == d.n_embd * d.n_embd,
        forall|li: int| 0 <= li < d.max_layer ==> (#[trigger] w.attn_wo@[li])@.len() == d.n_embd * d.n_embd,
        forall|li: int|
            0 <= li < d.max_layer ==> (#[trigger] w.mlp_fc1@[li])@.len() == d.n_embd * d.mlp_factor
                * d.n_embd,
        forall|li: int|
            0 <= li < d.max_layer ==> (#[trigger] w.mlp_fc2@[li])@.len() == d.n_embd * d.mlp_factor
                * d.n_embd,
{
    let cs = all_checks(d, w);
    lemma_layer_checks_len(d, w, d.max_layer as nat);
    assert forall|j: int| 0 <= j < cs.len() implies cs[j].expected == cs[j].got by {
        if cs[j].expected != cs[j].got {
            lemma_first_failing_some(cs, j);
        }
    }
    assert(cs[0] == top_checks(d, w)[0]);
    assert(cs[1] == top_checks(d, w)[1]);
    assert(cs[2] == top_checks(d, w)[2]);
    assert(cs[3] == top_checks(d, w)[3]);
    assert(cs[4] == top_checks(d, w)[4]);
    assert(cs[5] == top_checks(d, w)[5]);
    assert(cs[6] == top_checks(d, w)[6]);
    assert(cs[7] == top_checks(d, w)[7]);
    assert(cs[8] == top_checks(d, w)[8]);
    assert forall|li: int, t: int| 0 <= li < d.max_layer && 0 <= t < 6 implies (#[trigger] layer_checks_at(
        d,
        w,
        li,
    )[t]).expected == layer_checks_at(d, w, li)[t].got by {
        lemma_layer_checks_index(d, w, d.max_layer as nat, li, t);
        assert(cs[9 + 6 * li + t] == layer_checks(d, w, d.max_layer as nat)[6 * li + t]);
    }
    assert forall|li: int| 0 <= li < d.max_layer implies (#[trigger] w.attn_wq@[li])@.len() == d.n_embd
        * d.n_embd by {
        assert(layer_checks_at(d, w, li)[0].expected == layer_checks_at(d, w, li)[0].got);
    }
    assert forall|li: int| 0 <= li < d.max_layer implies (#[trigger] w.attn_wk@[li])@.len() == d.n_embd
        * d.n_embd by {
        assert(layer_checks_at(d, w, li)[1].expected == layer_checks_at(d, w, li)[1].got);
    }
    assert forall|li: int| 0 <= li < d.max_layer implies (#[trigger] w.attn_wv@[li])@.len() == d.n_embd
        * d.n_embd by {
        assert(layer_checks_at(d, w, li)[2].expected == layer_checks_at(d, w, li)[2].got);
    }
    assert forall|li: int| 0 <= li < d.max_layer implies (#[trigger] w.attn_wo@[li])@.len() == d.n_embd
        * d.n_embd by {
        assert(layer_checks_at(d, w, li)[3].expected == layer_checks_at(d, w, li)[3].got);
    }
    assert forall|li: int| 0 <= li < d.max_layer implies (#[trigger] w.mlp_fc1@[li])@.len() == d.n_embd
        * d.mlp_factor * d.n_embd by {
        assert(layer_checks_at(d, w, li)[4].expected == layer_checks_at(d, w, li)[4].got);
    }
    assert forall|li: int| 0 <= li < d.max_layer implies (#[trigger] w.mlp_fc2@[li])@.len() == d.n_embd
        * d.mlp_factor * d.n_embd by {
        assert(layer_checks_at(d, w, li)[5].expected == layer_checks_at(d, w, li)[5].got);
    }
}

/// Layers of `k` values each take `8 * k` bytes per layer.
pub proof fn lemma_layer_slices_len(ls: Seq<&[u64]>, k: nat)
    requires
        forall|i: int| 0 <= i < ls.len() ==> (#[trigger] ls[i])@.len() == k,
    ensures
        layers_le(layer_views(ls)).len() == 8 * k * ls.len(),
{
    assert forall|i: int| 0 <= i < ls.len() implies #[trigger] layer_views(ls)[i].len() == k by {
        assert(layer_views(ls)[i] == ls[i]@);
    }
    lemma_layers_le_len(layer_views(ls), k);
}

/// The byte count of the header and of all arrays adds up to `image_len(d)`.
proof fn lemma_image_len_sum(d: AiAppDims, attn: int, mlp: int)
    requires
        attn == d.n_embd * d.n_embd,
        mlp == d.n_embd * d.mlp_factor * d.n_embd,
    ensures
        104 + 8 * (d.vocab_size * d.n_embd) + 8 * (d.block_size * d.n_embd) + 8 * (d.vocab_size
            * d.n_embd) + 4 * (8 * attn * d.max_layer) + 2 * (8 * mlp * d.max_layer) == image_len(d),
{
    let ml = d.max_layer as int;
    assert(4 * (8 * attn * ml) + 2 * (8 * mlp * ml) == 8 * (ml * (4 * attn + 2 * mlp)))
        by (nonlinear_arith);
    assert(image_len(d) == 104 + 8 * (2 * (d.vocab_size * d.n_embd) + d.block_size * d.n_embd + ml
        * (4 * attn + 2 * mlp)));
}

/// When no check fails, the unsealed image has `image_len(d)` bytes.
pub proof fn lemma_image_len(d: AiAppDims, mission_version: Seq<u8>, w: AiAppWeights)
    requires
        first_failing(all_checks(d, w)) is None,
    ensures
        image_unsealed(d, mission_version, w).len() == image_len(d),
{
    lemma_checks_pass(d, w);
    let attn = (d.n_embd * d.n_embd) as nat;
    let mlp = (d.n_embd * d.mlp_factor * d.n_embd) as nat;
    lemma_u64s_le_len(w.wte@);
    lemma_u64s_le_len(w.wpe@);
    lemma_u64s_le_len(w.lm_head@);
    lemma_layer_slices_len(w.attn_wq@, attn);
    lemma_layer_slices_len(w.attn_wk@, attn);
    lemma_layer_slices_len(w.attn_wv@, attn);
    lemma_layer_slices_len(w.attn_wo@, attn);
    lemma_layer_slices_len(w.mlp_fc1@, mlp);
    lemma_layer_slices_len(w.mlp_fc2@, mlp);
    lemma_fixed_cstr_len(mission_version, 64);
    lemma_image_len_sum(d, attn as int, mlp as int);
}

/// The CRC32 stored in `Hdr.Crc32` of a built image is the CRC32 of that very image with the
/// field skipped, so the image passes the flight-side check; and its length is fixed by the
/// dimensions alone (the C `sizeof(AI_APP_WeightsTable_t)`).
pub proof fn lemma_built_image_is_consistent(
    d: AiAppDims,
    mission_version: Seq<char>,
    w: AiAppWeights,
    r: Result<Vec<u8>, TableImageError>,
)
    requires
        image_outcome(d, mission_version, w, r),
        r is Ok,
    ensures
        r->Ok_0@.len() == image_len(d),
        r->Ok_0@.subrange(12, 16) == le32_bytes(spec_crc32_skip_field(r->Ok_0@, 12)),
{
    let img = image_unsealed(d, encode_utf8(mission_version), w);
    let crc = spec_crc32_skip_field(img, 12);
    let v = r->Ok_0@;
    lemma_image_len(d, encode_utf8(mission_version), w);
    assert(v =~= seal(img, crc));
    assert(v.subrange(12, 16) =~= le32_bytes(crc));
    lemma_crc32_skip_ignores_field(0xFFFF_FFFFu32, v, img, 12);
}

/// When some check fails, `first_failing` is `Some`.
pub proof fn lemma_first_failing_some(cs: Seq<LenCheck>, k: int)
    requires
        0 <= k < cs.len(),
        cs[k].expected != cs[k].got,
    ensures
        first_failing(cs) is Some,
    decreases k,
{
    if k > 0 && cs[0].expected == cs[0].got {
        lemma_first_failing_some(cs.drop_first(), k - 1);
    }
}

/// The little-endian 32-bit value stored at `off .. off + 4` of `s`.
pub open spec fn read_le32(s: Seq<u8>, off: int) -> int {
    s[off] as int + s[off + 1] as int * 256 + s[off + 2] as int * 65536 + s[off + 3] as int
        * 16777216
}

/// The little-endian 64-bit value stored at `off .. off + 8` of `s`.
pub open spec fn read_le64(s: Seq<u8>, off: int) -> int {
    read_le32(s, off) + read_le32(s, off + 4) * 0x1_0000_0000
}

/// Reading back the little-endian bytes of `v` gives `v`.
pub proof fn lemma_le32_read(v: u32)
    ensures
        read_le32(le32_bytes(v), 0) == v,
{
    let b = le32_bytes(v);
    assert((v % 256) + ((v / 256) % 256) * 256 + ((v / 65536) % 256) * 65536 + (v / 16777216)
        * 16777216 == v) by (nonlinear_arith);
    assert(b[0] as int == v % 256);
    assert(b[1] as int == (v / 256) % 256);
    assert(b[2] as int == (v / 65536) % 256);
    assert(b[3] as int == v / 16777216) by (nonlinear_arith)
        requires
            b[3] == (v / 16777216) as u8,
    ;
}

/// Reading back the little-endian bytes of `v` gives `v`.
pub proof fn lemma_le64_read(v: u64)
    ensures
        read_le64(le64_bytes(v), 0) == v,
{
    let lo = (v % 0x1_0000_0000) as u32;
    let hi = (v / 0x1_0000_0000) as u32;
    lemma_le32_read(lo);
    lemma_le32_read(hi);
    let b = le64_bytes(v);
    assert(b.subrange(0, 4) =~= le32_bytes(lo));
    assert(b.subrange(4, 8) =~= le32_bytes(hi));
    assert(read_le32(b, 0) == read_le32(le32_bytes(lo), 0));
    assert(read_le32(b, 4) == read_le32(le32_bytes(hi), 0));
}

/// Where each field sits in the 104-byte header.
proof fn lemma_header_layout(d: AiAppDims, mv: Seq<u8>)
    ensures
        image_header(d, mv).len() == 104,
        image_header(d, mv).subrange(0, 8) == le64_bytes(AI_APP_WEIGHTS_TBL_MAGIC),
        image_header(d, mv).subrange(8, 12) == le32_bytes(AI_APP_WEIGHTS_TBL_VERSION),
        image_header(d, mv).subrange(16, 20) == le32_bytes(d.vocab_size),
        image_header(d, mv).subrange(20, 24) == le32_bytes(d.n_embd),
        image_header(d, mv).subrange(24, 28) == le32_bytes(d.block_size),
        image_header(d, mv).subrange(28, 32) == le32_bytes(d.n_head),
        image_header(d, mv).subrange(32, 36) == le32_bytes(d.n_layer),
        image_header(d, mv).subrange(36, 100) == fixed_cstr(mv, 64),
        image_header(d, mv).subrange(100, 104) == seq![0u8, 0u8, 0u8, 0u8],
{
    let h = image_header(d, mv);
    lemma_fixed_cstr_len(mv, 64);
    assert(h.subrange(0, 8) =~= le64_bytes(AI_APP_WEIGHTS_TBL_MAGIC));
    assert(h.subrange(8, 12) =~= le32_bytes(AI_APP_WEIGHTS_TBL_VERSION));
    assert(h.subrange(16, 20) =~= le32_bytes(d.vocab_size));
    assert(h.subrange(20, 24) =~= le32_bytes(d.n_embd));
    assert(h.subrange(24, 28) =~= le32_bytes(d.block_size));
    assert(h.subrange(28, 32) =~= le32_bytes(d.n_head));
    assert(h.subrange(32, 36) =~= le32_bytes(d.n_layer));
    assert(h.subrange(36, 100) =~= fixed_cstr(mv, 64));
    assert(h.subrange(100, 104) =~= seq![0u8, 0u8, 0u8, 0u8]);
}

/// Sealing changes only bytes 12..16.
proof fn lemma_seal_keeps(img: Seq<u8>, crc: u32, a: int, b: int)
    requires
        img.len() >= 16,
        0 <= a <= b <= 12 || 16 <= a <= b <= img.len(),
    ensures
        seal(img, crc).subrange(a, b) == img.subrange(a, b),
{
    assert(seal(img, crc).subrange(a, b) =~= img.subrange(a, b));
}

/// The value at `off` is the value at the start of the four bytes there.
proof fn lemma_read_le32_sub(v: Seq<u8>, off: int)
    requires
        0 <= off,
        off + 4 <= v.len(),
    ensures
        read_le32(v, off) == read_le32(v.subrange(off, off + 4), 0),
{
}

/// The header of every built image follows `AI_APP_WeightsTblHdr_t`: Magic (u64 LE) at 0,
/// Version 1 at 8, Crc32 at 12, then VocabSize, NEmbd, BlockSize, NHead, NLayer (u32 LE) at
/// 16, 20, 24, 28, 32, the mission version string at 36..100, padding to 104, and the weight
/// data from offset 104 on.
#[verifier::rlimit(40)]
pub proof fn lemma_built_image_header(
    d: AiAppDims,
    mission_version: Seq<char>,
    w: AiAppWeights,
    r: Result<Vec<u8>, TableImageError>,
)
    requires
        image_outcome(d, mission_version, w, r),
        r is Ok,
    ensures
        read_le64(r->Ok_0@, 0) == AI_APP_WEIGHTS_TBL_MAGIC,
        read_le32(r->Ok_0@, 8) == 1,
        read_le32(r->Ok_0@, 16) == d.vocab_size,
        read_le32(r->Ok_0@, 20) == d.n_embd,
        read_le32(r->Ok_0@, 24) == d.block_size,
        read_le32(r->Ok_0@, 28) == d.n_head,
        read_le32(r->Ok_0@, 32) == d.n_layer,
        r->Ok_0@.subrange(36, 100) == fixed_cstr(encode_utf8(mission_version), 64),
        r->Ok_0@.subrange(100, 104) == seq![0u8, 0u8, 0u8, 0u8],
        r->Ok_0@.subrange(104, r->Ok_0@.len() as int) == image_body(w),
{
    let mv = encode_utf8(mission_version);
    let img = image_unsealed(d, mv, w);
    let crc = spec_crc32_skip_field(img, 12);
    let v = r->Ok_0@;
    let h = image_header(d, mv);
    lemma_header_layout(d, mv);
    assert(v == seal(img, crc));
    assert(img.subrange(0, 104) =~= h);
    assert(img.subrange(104, img.len() as int) =~= image_body(w));
    lemma_seal_keeps(img, crc, 0, 8);
    lemma_seal_keeps(img, crc, 8, 12);
    lemma_seal_keeps(img, crc, 16, 20);
    lemma_seal_keeps(img, crc, 20, 24);
    lemma_seal_keeps(img, crc, 24, 28);
    lemma_seal_keeps(img, crc, 28, 32);
    lemma_seal_keeps(img, crc, 32, 36);
    lemma_seal_keeps(img, crc, 36, 100);
    lemma_seal_keeps(img, crc, 100, 104);
    lemma_seal_keeps(img, crc, 104, img.len() as int);
    assert(img.subrange(0, 8) =~= h.subrange(0, 8));
    assert(img.subrange(8, 12) =~= h.subrange(8, 12));
    assert(img.subrange(16, 20) =~= h.subrange(16, 20));
    assert(img.subrange(20, 24) =~= h.subrange(20, 24));
    assert(img.subrange(24, 28) =~= h.subrange(24, 28));
    assert(img.subrange(28, 32) =~= h.subrange(28, 32));
    assert(img.subrange(32, 36) =~= h.subrange(32, 36));
    assert(img.subrange(36, 100) =~= h.subrange(36, 100));
    assert(img.subrange(100, 104) =~= h.subrange(100, 104));
    lemma_le64_read(AI_APP_WEIGHTS_TBL_MAGIC);
    lemma_le32_read(AI_APP_WEIGHTS_TBL_VERSION);
    lemma_le32_read(d.vocab_size);
    lemma_le32_read(d.n_embd);
    lemma_le32_read(d.block_size);
    lemma_le32_read(d.n_head);
    lemma_le32_read(d.n_layer);
    lemma_read_le32_sub(v, 8);
    lemma_read_le32_sub(v, 16);
    lemma_read_le32_sub(v, 20);
    lemma_read_le32_sub(v, 24);
    lemma_read_le32_sub(v, 28);
    lemma_read_le32_sub(v, 32);
    lemma_read_le32_sub(v, 0);
    lemma_read_le32_sub(v, 4);
    let m = v.subrange(0, 8);
    assert(m.subrange(0, 4) =~= v.subrange(0, 4));
    assert(m.subrange(4, 8) =~= v.subrange(4, 8));
    lemma_read_le32_sub(m, 0);
    lemma_read_le32_sub(m, 4);
}

} // verus!
