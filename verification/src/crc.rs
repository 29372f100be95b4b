use vstd::prelude::*;

verus! {

/// One shift step of CRC-16/CCITT-FALSE (poly 0x1021, MSB first).
pub open spec fn crc16_shift(crc: u16) -> u16 {
    if crc & 0x8000u16 != 0 {
        ((crc << 1u16) ^ 0x1021u16) as u16
    } else {
        (crc << 1u16) as u16
    }
}

/// `n` shift steps applied to `crc`.
pub open spec fn crc16_shifts(crc: u16, n: nat) -> u16
    decreases n,
{
    if n == 0 {
        crc
    } else {
        crc16_shift(crc16_shifts(crc, (n - 1) as nat))
    }
}

/// Folds one byte into the CRC register.
pub open spec fn crc16_byte(crc: u16, b: u8) -> u16 {
    crc16_shifts(crc ^ ((b as u16) << 8u16), 8)
}

/// CRC register after folding all of `data` starting from `init`.
pub open spec fn crc16_from(init: u16, data: Seq<u8>) -> u16
    decreases data.len(),
{
    if data.len() == 0 {
        init
    } else {
        crc16_byte(crc16_from(init, data.drop_last()), data.last())
    }
}

/// CRC-16/CCITT-FALSE of `data`: init 0xFFFF, no reflection, xorout 0.
pub open spec fn spec_crc16_ccitt(data: Seq<u8>) -> u16 {
    crc16_from(0xFFFFu16, data)
}

/// CRC-16/CCITT-FALSE over `data`.
pub fn compute_crc16_ccitt(data: &[u8]) -> (crc: u16)
    ensures
        crc == spec_crc16_ccitt(data@),
{
    let mut crc: u16 = 0xFFFF;
    let n = data.len();
    let mut i: usize = 0;
    while i < n
        invariant
            n == data@.len(),
            i <= n,
            crc == crc16_from(0xFFFFu16, data@.take(i as int)),
        decreases n - i,
    {
        let b = data[i];
        let start: u16 = crc ^ ((b as u16) << 8u16);
        crc = start;
        let mut k: u32 = 0;
        while k < 8
            invariant
                k <= 8,
                crc == crc16_shifts(start, k as nat),
            decreases 8 - k,
        {
            if (crc & 0x8000) != 0 {
                crc = (crc << 1u16) ^ 0x1021;
            } else {
                crc = crc << 1u16;
            }
            k = k + 1;
        }
        proof {
            assert(data@.take(i + 1).drop_last() =~= data@.take(i as int));
        }
        i = i + 1;
    }
    proof {
        assert(data@.take(n as int) =~= data@);
    }
    crc
}

/// One CRC shift step is injective.
pub proof fn lemma_crc16_shift_injective(a: u16, b: u16)
    ensures
        crc16_shift(a) == crc16_shift(b) ==> a == b,
{
    assert((if a & 0x8000u16 != 0 { ((a << 1u16) ^ 0x1021u16) as u16 } else { (a << 1u16) as u16 })
        == (if b & 0x8000u16 != 0 { ((b << 1u16) ^ 0x1021u16) as u16 } else { (b << 1u16) as u16 })
        ==> a == b) by (bit_vector);
}

/// Any number of CRC shift steps is injective.
pub proof fn lemma_crc16_shifts_injective(a: u16, b: u16, n: nat)
    ensures
        crc16_shifts(a, n) == crc16_shifts(b, n) ==> a == b,
    decreases n,
{
    if n > 0 {
        lemma_crc16_shift_injective(crc16_shifts(a, (n - 1) as nat), crc16_shifts(b, (n - 1) as nat));
        lemma_crc16_shifts_injective(a, b, (n - 1) as nat);
    }
}

/// Folding a byte is injective in the byte (for a fixed register) and in the register
/// (for a fixed byte).
pub proof fn lemma_crc16_byte_injective(c1: u16, c2: u16, x: u8, y: u8)
    ensures
        crc16_byte(c1, x) == crc16_byte(c2, y) ==> (c1 == c2 <==> x == y),
{
    lemma_crc16_shifts_injective(c1 ^ ((x as u16) << 8u16), c2 ^ ((y as u16) << 8u16), 8);
    assert((c1 ^ ((x as u16) << 8u16)) == (c2 ^ ((y as u16) << 8u16)) ==> (c1 == c2 <==> x == y))
        by (bit_vector);
}

/// Sequences equal up to index `k` and different at `k` have different CRC registers after
/// any prefix longer than `k`.
pub proof fn lemma_crc16_prefix_differs(init: u16, a: Seq<u8>, b: Seq<u8>, k: int, m: int)
    requires
        a.len() == b.len(),
        0 <= k < m <= a.len(),
        a[k] != b[k],
        forall|j: int| 0 <= j < a.len() && j != k ==> a[j] == b[j],
    ensures
        crc16_from(init, a.take(m)) != crc16_from(init, b.take(m)),
    decreases m,
{
    let am = a.take(m);
    let bm = b.take(m);
    assert(am.drop_last() =~= a.take(m - 1));
    assert(bm.drop_last() =~= b.take(m - 1));
    if m == k + 1 {
        assert(a.take(k) =~= b.take(k));
        lemma_crc16_byte_injective(crc16_from(init, a.take(k)), crc16_from(init, b.take(k)), a[k], b[k]);
    } else {
        lemma_crc16_prefix_differs(init, a, b, k, m - 1);
        lemma_crc16_byte_injective(crc16_from(init, a.take(m - 1)), crc16_from(init, b.take(m - 1)), a[m - 1], b[m - 1]);
    }
}

/// CRC-16/CCITT-FALSE detects every error confined to a single byte: two equally long
/// messages that differ in exactly one byte have different CRCs.
pub proof fn lemma_crc16_detects_single_byte_error(a: Seq<u8>, b: Seq<u8>, k: int)
    requires
        a.len() == b.len(),
        0 <= k < a.len(),
        a[k] != b[k],
        forall|j: int| 0 <= j < a.len() && j != k ==> a[j] == b[j],
    ensures
        spec_crc16_ccitt(a) != spec_crc16_ccitt(b),
{
    lemma_crc16_prefix_differs(0xFFFFu16, a, b, k, a.len() as int);
    assert(a.take(a.len() as int) =~= a);
    assert(b.take(b.len() as int) =~= b);
}

/// One shift step of the reflected CRC-32 (poly 0xEDB88320, LSB first).
pub open spec fn crc32_shift(crc: u32) -> u32 {
    if crc & 1u32 != 0 {
        ((crc >> 1u32) ^ 0xEDB8_8320u32) as u32
    } else {
        (crc >> 1u32) as u32
    }
}

/// `n` CRC-32 shift steps applied to `crc`.
pub open spec fn crc32_shifts(crc: u32, n: nat) -> u32
    decreases n,
{
    if n == 0 {
        crc
    } else {
        crc32_shift(crc32_shifts(crc, (n - 1) as nat))
    }
}

/// Folds one byte into the reflected CRC-32 register.
pub open spec fn crc32_byte(crc: u32, b: u8) -> u32 {
    crc32_shifts(crc ^ (b as u32), 8)
}

/// Index `i` lies in the 4-byte field starting at `off`.
pub open spec fn in_crc_field(i: int, off: int) -> bool {
    off <= i < off + 4
}

/// CRC-32 register after folding the bytes of `data` that lie outside the 4-byte field at
/// `off`, starting from `init`.
pub open spec fn crc32_skip_from(init: u32, data: Seq<u8>, off: int) -> u32
    decreases data.len(),
{
    if data.len() == 0 {
        init
    } else {
        let prev = crc32_skip_from(init, data.drop_last(), off);
        if in_crc_field(data.len() - 1, off) {
            prev
        } else {
            crc32_byte(prev, data.last())
        }
    }
}

/// IEEE CRC-32 (reflected, init and xorout 0xFFFFFFFF) of `data` without the 4 bytes at `off`.
pub open spec fn spec_crc32_skip_field(data: Seq<u8>, off: int) -> u32 {
    crc32_skip_from(0xFFFF_FFFFu32, data, off) ^ 0xFFFF_FFFFu32
}

/// One reflected CRC-32 shift step is injective.
pub proof fn lemma_crc32_shift_injective(a: u32, b: u32)
    ensures
        crc32_shift(a) == crc32_shift(b) ==> a == b,
{
    assert((if a & 1u32 != 0 { ((a >> 1u32) ^ 0xEDB8_8320u32) as u32 } else { (a >> 1u32) as u32 })
        == (if b & 1u32 != 0 { ((b >> 1u32) ^ 0xEDB8_8320u32) as u32 } else { (b >> 1u32) as u32 })
        ==> a == b) by (bit_vector);
}

/// Any number of CRC-32 shift steps is injective.
pub proof fn lemma_crc32_shifts_injective(a: u32, b: u32, n: nat)
    ensures
        crc32_shifts(a, n) == crc32_shifts(b, n) ==> a == b,
    decreases n,
{
    if n > 0 {
        lemma_crc32_shift_injective(crc32_shifts(a, (n - 1) as nat), crc32_shifts(b, (n - 1) as nat));
        lemma_crc32_shifts_injective(a, b, (n - 1) as nat);
    }
}

/// Folding a byte into the CRC-32 register is injective in the byte and in the register.
pub proof fn lemma_crc32_byte_injective(c1: u32, c2: u32, x: u8, y: u8)
    ensures
        crc32_byte(c1, x) == crc32_byte(c2, y) ==> (c1 == c2 <==> x == y),
{
    lemma_crc32_shifts_injective(c1 ^ (x as u32), c2 ^ (y as u32), 8);
    assert((c1 ^ (x as u32)) == (c2 ^ (y as u32)) ==> (c1 == c2 <==> x == y)) by (bit_vector);
}

/// The skipped field does not influence the register: sequences equal outside the field
/// give the same register.
pub proof fn lemma_crc32_skip_ignores_field(init: u32, a: Seq<u8>, b: Seq<u8>, off: int)
    requires
        a.len() == b.len(),
        forall|j: int| 0 <= j < a.len() && !in_crc_field(j, off) ==> a[j] == b[j],
    ensures
        crc32_skip_from(init, a, off) == crc32_skip_from(init, b, off),
    decreases a.len(),
{
    if a.len() > 0 {
        lemma_crc32_skip_ignores_field(init, a.drop_last(), b.drop_last(), off);
    }
}

/// Registers differ after every prefix longer than `k` when the inputs differ exactly at a
/// non-skipped index `k`.
pub proof fn lemma_crc32_prefix_differs(init: u32, a: Seq<u8>, b: Seq<u8>, off: int, k: int, m: int)
    requires
        a.len() == b.len(),
        0 <= k < m <= a.len(),
        !in_crc_field(k, off),
        a[k] != b[k],
        forall|j: int| 0 <= j < a.len() && j != k ==> a[j] == b[j],
    ensures
        crc32_skip_from(init, a.take(m), off) != crc32_skip_from(init, b.take(m), off),
    decreases m,
{
    let am = a.take(m);
    let bm = b.take(m);
    assert(am.drop_last() =~= a.take(m - 1));
    assert(bm.drop_last() =~= b.take(m - 1));
    if m == k + 1 {
        assert(a.take(k) =~= b.take(k));
        lemma_crc32_byte_injective(
            crc32_skip_from(init, a.take(k), off),
            crc32_skip_from(init, b.take(k), off),
            a[k],
            b[k],
        );
    } else {
        lemma_crc32_prefix_differs(init, a, b, off, k, m - 1);
        if !in_crc_field(m - 1, off) {
            lemma_crc32_byte_injective(
                crc32_skip_from(init, a.take(m - 1), off),
                crc32_skip_from(init, b.take(m - 1), off),
                a[m - 1],
                b[m - 1],
            );
        }
    }
}

/// The table CRC-32 detects every error confined to one byte outside the skipped field, and
/// ignores every change inside it.
pub proof fn lemma_crc32_skip_field_single_byte(a: Seq<u8>, b: Seq<u8>, off: int, k: int)
    requires
        a.len() == b.len(),
        0 <= k < a.len(),
        forall|j: int| 0 <= j < a.len() && j != k ==> a[j] == b[j],
    ensures
        in_crc_field(k, off) ==> spec_crc32_skip_field(a, off) == spec_crc32_skip_field(b, off),
        !in_crc_field(k, off) && a[k] != b[k] ==> spec_crc32_skip_field(a, off)
            != spec_crc32_skip_field(b, off),
{
    if in_crc_field(k, off) {
        lemma_crc32_skip_ignores_field(0xFFFF_FFFFu32, a, b, off);
    } else if a[k] != b[k] {
        lemma_crc32_prefix_differs(0xFFFF_FFFFu32, a, b, off, k, a.len() as int);
        assert(a.take(a.len() as int) =~= a);
        assert(b.take(b.len() as int) =~= b);
        let x = crc32_skip_from(0xFFFF_FFFFu32, a, off);
        let y = crc32_skip_from(0xFFFF_FFFFu32, b, off);
        assert(x != y ==> (x ^ 0xFFFF_FFFFu32) != (y ^ 0xFFFF_FFFFu32)) by (bit_vector);
    }
}

/// `n` shift steps of a value below 256 only shift it: no set bit reaches bit 15 in time.
pub proof fn lemma_crc16_shifts_small(x: u16, n: nat)
    requires
        x < 256,
        n <= 8,
    ensures
        crc16_shifts(x, n) == x << (n as u16),
    decreases n,
{
    if n > 0 {
        lemma_crc16_shifts_small(x, (n - 1) as nat);
        let k = (n - 1) as u16;
        assert(((x << k) & 0x8000u16) == 0 && ((x << k) << 1u16) == x << ((k + 1) as u16))
            by (bit_vector)
            requires
                x < 256,
                k < 8,
        ;
        assert(((k + 1) as u16) == n as u16);
    } else {
        assert(x << 0u16 == x) by (bit_vector);
    }
}

/// Shifting a zero register leaves it zero.
pub proof fn lemma_crc16_shifts_zero(n: nat)
    ensures
        crc16_shifts(0, n) == 0,
    decreases n,
{
    if n > 0 {
        lemma_crc16_shifts_zero((n - 1) as nat);
        assert((0u16 & 0x8000u16) == 0 && (0u16 << 1u16) == 0) by (bit_vector);
    }
}

/// The CRC-16 as its two trailer bytes, high byte first.
pub open spec fn crc16_trailer(c: u16) -> Seq<u8> {
    seq![(c / 256) as u8, (c % 256) as u8]
}

/// Zero residue: running the CRC over a message followed by its own CRC (big-endian) gives 0,
/// which is how a receiver can check a frame in one pass.
pub proof fn lemma_crc16_residue_zero(data: Seq<u8>)
    ensures
        spec_crc16_ccitt(data + crc16_trailer(spec_crc16_ccitt(data))) == 0,
{
    let c = spec_crc16_ccitt(data);
    let hi = (c / 256) as u8;
    let lo = (c % 256) as u8;
    let full = data + crc16_trailer(c);
    assert(full.drop_last() =~= data.push(hi));
    assert(full.drop_last().drop_last() =~= data);
    assert(full.last() == lo);
    assert(full.drop_last().last() == hi);
    assert((c ^ ((hi as u16) << 8u16)) == (lo as u16)) by (bit_vector)
        requires
            hi == (c / 256) as u8,
            lo == (c % 256) as u8,
    ;
    lemma_crc16_shifts_small(lo as u16, 8);
    let c1 = crc16_byte(c, hi);
    let y = (lo as u16) << 8u16;
    assert(c1 == y);
    assert(y ^ y == 0u16) by (bit_vector);
    lemma_crc16_shifts_zero(8);
    assert(crc16_byte(c1, lo) == 0);
    assert(crc16_from(0xFFFFu16, full.drop_last()) == c1);
    assert(crc16_from(0xFFFFu16, full) == crc16_byte(c1, lo));
}

/// CRC-32 register after folding all of `data` starting from `init`.
pub open spec fn crc32_from(init: u32, data: Seq<u8>) -> u32
    decreases data.len(),
{
    if data.len() == 0 {
        init
    } else {
        crc32_byte(crc32_from(init, data.drop_last()), data.last())
    }
}

/// IEEE CRC-32 (reflected, poly 0xEDB88320, init and xorout 0xFFFFFFFF) of `data`.
pub open spec fn crc32_ieee(data: Seq<u8>) -> u32 {
    crc32_from(0xFFFF_FFFFu32, data) ^ 0xFFFF_FFFFu32
}

/// `data` with the bytes at `off .. off + 4` (those that exist) removed.
pub open spec fn without_field(data: Seq<u8>, off: int) -> Seq<u8> {
    if data.len() <= off {
        data
    } else if data.len() <= off + 4 {
        data.take(off)
    } else {
        data.take(off) + data.skip(off + 4)
    }
}

/// Skipping the field while folding is folding the data with the field removed.
pub proof fn lemma_crc32_skip_is_removal(init: u32, data: Seq<u8>, off: int)
    requires
        off >= 0,
    ensures
        crc32_skip_from(init, data, off) == crc32_from(init, without_field(data, off)),
    decreases data.len(),
{
    if data.len() > 0 {
        let d = data.drop_last();
        let n = d.len() as int;
        lemma_crc32_skip_is_removal(init, d, off);
        if in_crc_field(n, off) {
            if n == off {
                assert(without_field(d, off) =~= data.take(off));
            } else {
                assert(without_field(d, off) =~= data.take(off));
            }
        } else if n < off {
            assert(without_field(data, off).drop_last() =~= d);
        } else {
            let w = without_field(data, off);
            assert(w.drop_last() =~= without_field(d, off));
            assert(w.last() == data.last());
        }
    }
}

/// The table CRC-32 is the IEEE CRC-32 of the data with the 4-byte field at `off` removed.
pub proof fn lemma_crc32_skip_field_is_crc_without_field(data: Seq<u8>, off: int)
    requires
        off >= 0,
    ensures
        spec_crc32_skip_field(data, off) == crc32_ieee(without_field(data, off)),
{
    lemma_crc32_skip_is_removal(0xFFFF_FFFFu32, data, off);
}

/// Flipping any single bit of a message changes its CRC-16.
pub proof fn lemma_crc16_detects_single_bit_flip(a: Seq<u8>, k: int, bit: u8)
    requires
        0 <= k < a.len(),
        bit < 8,
    ensures
        spec_crc16_ccitt(a) != spec_crc16_ccitt(a.update(k, a[k] ^ (1u8 << bit))),
{
    let x = a[k];
    assert(x ^ (1u8 << bit) != x) by (bit_vector)
        requires
            bit < 8,
    ;
    lemma_crc16_detects_single_byte_error(a, a.update(k, a[k] ^ (1u8 << bit)), k);
}

/// Flipping any single bit outside the skipped field changes the table CRC-32; flipping one
/// inside it does not.
pub proof fn lemma_crc32_skip_field_single_bit_flip(a: Seq<u8>, off: int, k: int, bit: u8)
    requires
        0 <= k < a.len(),
        bit < 8,
    ensures
        in_crc_field(k, off) ==> spec_crc32_skip_field(a, off) == spec_crc32_skip_field(
            a.update(k, a[k] ^ (1u8 << bit)),
            off,
        ),
        !in_crc_field(k, off) ==> spec_crc32_skip_field(a, off) != spec_crc32_skip_field(
            a.update(k, a[k] ^ (1u8 << bit)),
            off,
        ),
{
    let x = a[k];
    assert(x ^ (1u8 << bit) != x) by (bit_vector)
        requires
            bit < 8,
    ;
    lemma_crc32_skip_field_single_byte(a, a.update(k, a[k] ^ (1u8 << bit)), off, k);
}

} // verus!
