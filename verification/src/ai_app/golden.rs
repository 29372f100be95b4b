//! Deterministic "golden" weight stream for the microgpt toy model.
//!
//! This is for end-to-end plumbing tests: stable bytes, stable CRC32, stable table load/activate.
//! The generator is xorshift64*; each weight is drawn from one 64-bit output. The library
//! produces those outputs in the exact order and shape of the table arrays; turning an output
//! into a signed weight (`((u >> 11) * 2^-53 * 2 - 1) * scale`) is floating-point arithmetic and
//! is done by the caller.

use vstd::prelude::*;

use super::table_image::AiAppDims;

verus! {

/// Multiplier of the xorshift64* output scrambler.
pub const XORSHIFT64_STAR_MUL: u64 = 0x2545_F491_4F6C_DD1D;

/// Seed of the golden weight stream.
pub const GOLDEN_SEED: u64 = 0x00C0_FFEE_1234_5678;

/// One xorshift64 state transition: `x ^= x >> 12; x ^= x << 25; x ^= x >> 27`.
pub open spec fn xorshift_step(x: u64) -> u64 {
    let a = x ^ (x >> 12u64);
    let b = a ^ (a << 25u64);
    b ^ (b >> 27u64)
}

/// The state after `k` transitions from `s`.
pub open spec fn xorshift_state(s: u64, k: nat) -> u64
    decreases k,
{
    if k == 0 {
        s
    } else {
        xorshift_step(xorshift_state(s, (k - 1) as nat))
    }
}

/// The scrambled output for state `x`: `x * XORSHIFT64_STAR_MUL` modulo 2^64.
pub open spec fn xorshift_scramble(x: u64) -> u64 {
    ((x as nat * XORSHIFT64_STAR_MUL as nat) % 0x1_0000_0000_0000_0000) as u64
}

/// The `k`-th output (counting from 0) of a generator whose state is `s`.
pub open spec fn xorshift_output(s: u64, k: nat) -> u64 {
    xorshift_scramble(xorshift_state(s, k + 1))
}

/// The first `n` outputs of a generator whose state is `s`.
pub open spec fn xorshift_outputs(s: u64, n: nat) -> Seq<u64> {
    Seq::new(n, |k: int| xorshift_output(s, k as nat))
}

/// A xorshift64* pseudo-random generator; its state is never zero.
#[derive(Debug)]
pub struct XorShift64 {
    x: u64,
}

impl XorShift64 {
    /// The current state.
    pub closed spec fn state(&self) -> u64 {
        self.x
    }

    #[verifier::type_invariant]
    spec fn state_nonzero(&self) -> bool {
        self.x != 0
    }

    /// A generator seeded with `seed`, or with 1 when `seed` is 0.
    pub fn new(seed: u64) -> (g: Self)
        ensures
            g.state() == if seed == 0 {
                1
            } else {
                seed
            },
    {
        let x = if seed < 1 {
            1
        } else {
            seed
        };
        XorShift64 { x }
    }

    /// Advances the state one step and returns the scrambled new state.
    pub fn next_u64(&mut self) -> (r: u64)
        ensures
            final(self).state() == xorshift_step(old(self).state()),
            r == xorshift_scramble(final(self).state()),
    {
        proof {
            use_type_invariant(&*self);
            lemma_xorshift_step_nonzero(self.x);
        }
        let mut x = self.x;
        x = x ^ (x >> 12u64);
        x = x ^ (x << 25u64);
        x = x ^ (x >> 27u64);
        self.x = x;
        proof {
            assert((x as nat * XORSHIFT64_STAR_MUL as nat) % 0x1_0000_0000_0000_0000 < 0x1_0000_0000_0000_0000)
                by (nonlinear_arith);
        }
        x.wrapping_mul(XORSHIFT64_STAR_MUL)
    }
}

/// A nonzero state stays nonzero: each xorshift is invertible and fixes only zero.
pub proof fn lemma_xorshift_step_nonzero(x: u64)
    requires
        x != 0,
    ensures
        xorshift_step(x) != 0,
{
    let a = x ^ (x >> 12u64);
    let b = a ^ (a << 25u64);
    assert(x != 0 ==> x ^ (x >> 12u64) != 0) by (bit_vector);
    assert(a != 0 ==> a ^ (a << 25u64) != 0) by (bit_vector);
    assert(b != 0 ==> b ^ (b >> 27u64) != 0) by (bit_vector);
}

/// Stepping `a` then `b` times is stepping `a + b` times.
pub proof fn lemma_xorshift_state_add(s: u64, a: nat, b: nat)
    ensures
        xorshift_state(xorshift_state(s, a), b) == xorshift_state(s, a + b),
    decreases b,
{
    if b > 0 {
        lemma_xorshift_state_add(s, a, (b - 1) as nat);
    }
}

/// Raw generator outputs for every golden weight, in the shape of the table arrays.
#[derive(Clone, Debug)]
pub struct GoldenDraws {
    pub wte: Vec<u64>,
    pub wpe: Vec<u64>,
    pub lm_head: Vec<u64>,
    pub attn_wq: Vec<Vec<u64>>,
    pub attn_wk: Vec<Vec<u64>>,
    pub attn_wv: Vec<Vec<u64>>,
    pub attn_wo: Vec<Vec<u64>>,
    pub mlp_fc1: Vec<Vec<u64>>,
    pub mlp_fc2: Vec<Vec<u64>>,
}

/// The views of a vector of vectors.
pub open spec fn vec_views(ls: Seq<Vec<u64>>) -> Seq<Seq<u64>> {
    ls.map_values(|v: Vec<u64>| v@)
}

/// The values of all layers, layer after layer.
pub open spec fn flatten(ls: Seq<Seq<u64>>) -> Seq<u64>
    decreases ls.len(),
{
    if ls.len() == 0 {
        Seq::empty()
    } else {
        flatten(ls.drop_last()) + ls.last()
    }
}

/// `max_layer` layers of `len` values each.
pub open spec fn layers_shaped(ls: Seq<Seq<u64>>, max_layer: nat, len: nat) -> bool {
    ls.len() == max_layer && forall|i: int| 0 <= i < ls.len() ==> (#[trigger] ls[i]).len() == len
}

impl GoldenDraws {
    /// All outputs in the order they were drawn.
    pub open spec fn drawn(&self) -> Seq<u64> {
        self.wte@ + self.wpe@ + self.lm_head@ + flatten(vec_views(self.attn_wq@)) + flatten(
            vec_views(self.attn_wk@),
        ) + flatten(vec_views(self.attn_wv@)) + flatten(vec_views(self.attn_wo@)) + flatten(
            vec_views(self.mlp_fc1@),
        ) + flatten(vec_views(self.mlp_fc2@))
    }

    /// Every array has the length the table gives it for `d`.
    pub open spec fn shaped_for(&self, d: AiAppDims) -> bool {
        let attn = (d.n_embd * d.n_embd) as nat;
        let mlp = (d.n_embd * d.mlp_factor * d.n_embd) as nat;
        &&& self.wte@.len() == d.vocab_size * d.n_embd
        &&& self.wpe@.len() == d.block_size * d.n_embd
        &&& self.lm_head@.len() == d.vocab_size * d.n_embd
        &&& layers_shaped(vec_views(self.attn_wq@), d.max_layer as nat, attn)
        &&& layers_shaped(vec_views(self.attn_wk@), d.max_layer as nat, attn)
        &&& layers_shaped(vec_views(self.attn_wv@), d.max_layer as nat, attn)
        &&& layers_shaped(vec_views(self.attn_wo@), d.max_layer as nat, attn)
        &&& layers_shaped(vec_views(self.mlp_fc1@), d.max_layer as nat, mlp)
        &&& layers_shaped(vec_views(self.mlp_fc2@), d.max_layer as nat, mlp)
    }
}

/// Draws `n` outputs.
fn draw_n(rng: &mut XorShift64, n: usize) -> (v: Vec<u64>)
    ensures
        v@ == xorshift_outputs(old(rng).state(), n as nat),
        final(rng).state() == xorshift_state(old(rng).state(), n as nat),
{
    let ghost s0 = rng.state();
    let mut v: Vec<u64> = Vec::new();
    let mut i: usize = 0;
    while i < n
        invariant
            i <= n,
            rng.state() == xorshift_state(s0, i as nat),
            v@ == xorshift_outputs(s0, i as nat),
        decreases n - i,
    {
        let r = rng.next_u64();
        v.push(r);
        i = i + 1;
        assert(v@ =~= xorshift_outputs(s0, i as nat));
    }
    v
}

/// Draws `layers` layers of `len` outputs each.
fn draw_layers(rng: &mut XorShift64, layers: usize, len: usize) -> (out: Vec<Vec<u64>>)
    ensures
        layers_shaped(vec_views(out@), layers as nat, len as nat),
        flatten(vec_views(out@)) == xorshift_outputs(old(rng).state(), (layers * len) as nat),
        final(rng).state() == xorshift_state(old(rng).state(), (layers * len) as nat),
{
    let ghost s0 = rng.state();
    let mut out: Vec<Vec<u64>> = Vec::new();
    let mut li: usize = 0;
    while li < layers
        invariant
            li <= layers,
            layers_shaped(vec_views(out@), li as nat, len as nat),
            rng.state() == xorshift_state(s0, (li * len) as nat),
            flatten(vec_views(out@)) == xorshift_outputs(s0, (li * len) as nat),
        decreases layers - li,
    {
        proof {
            assert((li + 1) * len == li * len + len) by (nonlinear_arith);
        }
        let ghost before = out@;
        let ghost s1 = rng.state();
        let v = draw_n(rng, len);
        out.push(v);
        proof {
            lemma_xorshift_state_add(s0, (li * len) as nat, len as nat);
            assert(vec_views(out@).drop_last() =~= vec_views(before));
            assert(vec_views(out@).last() == v@);
            assert forall|i: int| 0 <= i < vec_views(out@).len() implies (#[trigger] vec_views(
                out@,
            )[i]).len() == len by {
                if i < li {
                    assert(vec_views(out@)[i] == vec_views(before)[i]);
                }
            }
            lemma_outputs_concat(s0, (li * len) as nat, len as nat);
            assert(flatten(vec_views(out@)) =~= xorshift_outputs(s0, ((li + 1) * len) as nat));
        }
        li = li + 1;
    }
    out
}

/// The number of weights of a table for `d`.
pub open spec fn golden_count(d: AiAppDims) -> nat {
    (2 * (d.vocab_size * d.n_embd) + d.block_size * d.n_embd + d.max_layer * (4 * (d.n_embd
        * d.n_embd) + 2 * (d.n_embd * d.mlp_factor * d.n_embd))) as nat
}

/// The golden outputs for `dims`: generator seeded with `GOLDEN_SEED`, drawn for `wte`, `wpe`,
/// `lm_head`, then all layers of each per-layer array in table order.
pub fn generate_microgpt_golden_draws(dims: &AiAppDims) -> (g: GoldenDraws)
    requires
        dims.sizes_fit(),
    ensures
        g.shaped_for(*dims),
        g.drawn() == xorshift_outputs(GOLDEN_SEED, golden_count(*dims)),
{
    let vocab = dims.vocab_size as usize;
    let n_embd = dims.n_embd as usize;
    let block = dims.block_size as usize;
    let max_layer = dims.max_layer as usize;
    let mlp_hidden = dims.mlp_hidden() as usize;
    let mut rng = XorShift64::new(GOLDEN_SEED);
    let wte = draw_n(&mut rng, vocab * n_embd);
    proof {
        lemma_outputs_concat(GOLDEN_SEED, 0, (vocab * n_embd) as nat);
        assert(xorshift_outputs(GOLDEN_SEED, 0) + wte@ =~= wte@);
    }
    let wpe = draw_n(&mut rng, block * n_embd);
    proof {
        lemma_outputs_concat(GOLDEN_SEED, wte@.len(), wpe@.len());
        lemma_xorshift_state_add(GOLDEN_SEED, wte@.len(), wpe@.len());
    }
    let lm_head = draw_n(&mut rng, vocab * n_embd);
    let ghost n3 = wte@.len() + wpe@.len();
    proof {
        lemma_outputs_concat(GOLDEN_SEED, n3, lm_head@.len());
        lemma_xorshift_state_add(GOLDEN_SEED, n3, lm_head@.len());
    }
    let attn_len = n_embd * n_embd;
    let mlp_len = mlp_hidden * n_embd;
    let ghost n4 = n3 + lm_head@.len();
    let ghost al = (max_layer * attn_len) as nat;
    let ghost ml = (max_layer * mlp_len) as nat;
    let attn_wq = draw_layers(&mut rng, max_layer, attn_len);
    proof {
        lemma_outputs_concat(GOLDEN_SEED, n4, al);
        lemma_xorshift_state_add(GOLDEN_SEED, n4, al);
    }
    let attn_wk = draw_layers(&mut rng, max_layer, attn_len);
    proof {
        lemma_outputs_concat(GOLDEN_SEED, n4 + al, al);
        lemma_xorshift_state_add(GOLDEN_SEED, n4 + al, al);
    }
    let attn_wv = draw_layers(&mut rng, max_layer, attn_len);
    proof {
        lemma_outputs_concat(GOLDEN_SEED, n4 + 2 * al, al);
        lemma_xorshift_state_add(GOLDEN_SEED, n4 + 2 * al, al);
    }
    let attn_wo = draw_layers(&mut rng, max_layer, attn_len);
    proof {
        lemma_outputs_concat(GOLDEN_SEED, n4 + 3 * al, al);
        lemma_xorshift_state_add(GOLDEN_SEED, n4 + 3 * al, al);
    }
    let mlp_fc1 = draw_layers(&mut rng, max_layer, mlp_len);
    proof {
        lemma_outputs_concat(GOLDEN_SEED, n4 + 4 * al, ml);
        lemma_xorshift_state_add(GOLDEN_SEED, n4 + 4 * al, ml);
    }
    let mlp_fc2 = draw_layers(&mut rng, max_layer, mlp_len);
    proof {
        lemma_outputs_concat(GOLDEN_SEED, n4 + 4 * al + ml, ml);
    }
    let g = GoldenDraws { wte, wpe, lm_head, attn_wq, attn_wk, attn_wv, attn_wo, mlp_fc1, mlp_fc2 };
    proof {
        assert(mlp_len == dims.n_embd * dims.mlp_factor * dims.n_embd);
        let m = dims.max_layer as int;
        let a = (dims.n_embd * dims.n_embd) as int;
        let b = (dims.n_embd * dims.mlp_factor * dims.n_embd) as int;
        assert(m * (4 * a + 2 * b) == 4 * (m * a) + 2 * (m * b)) by (nonlinear_arith);
        assert(n4 + 4 * al + 2 * ml == golden_count(*dims));
        assert(g.drawn() =~= xorshift_outputs(GOLDEN_SEED, golden_count(*dims)));
    }
    g
}

/// The first `a` outputs followed by the first `b` outputs after `a` steps are the first
/// `a + b` outputs.
pub proof fn lemma_outputs_concat(s: u64, a: nat, b: nat)
    ensures
        xorshift_outputs(s, a) + xorshift_outputs(xorshift_state(s, a), b) == xorshift_outputs(
            s,
            a + b,
        ),
{
    assert forall|k: int| 0 <= k < b implies #[trigger] xorshift_output(xorshift_state(s, a), k as nat)
        == xorshift_output(s, (a + k) as nat) by {
        lemma_xorshift_state_add(s, a, (k + 1) as nat);
    }
    assert(xorshift_outputs(s, a) + xorshift_outputs(xorshift_state(s, a), b) =~= xorshift_outputs(
        s,
        a + b,
    ));
}

/// The generator is the standard xorshift64* of Marsaglia / Vigna: state update
/// `x ^= x >> 12; x ^= x << 25; x ^= x >> 27` (the (12, 25, 27) triple), output the new state
/// times 2685821657736338717 (0x2545F4914F6CDD1D) modulo 2^64.
pub proof fn lemma_xorshift64_star(x: u64)
    ensures
        xorshift_step(x) == ({
            let x1 = x ^ (x >> 12u64);
            let x2 = x1 ^ (x1 << 25u64);
            x2 ^ (x2 >> 27u64)
        }),
        xorshift_scramble(x) as int == (x as int * 2685821657736338717int) % 18446744073709551616int,
{
}

/// The golden stream from `GOLDEN_SEED` (0x00C0FFEE12345678) begins 0x9ACEA2AE5EEBBFF3,
/// 0xFE5A1BF1BDD400DC, the reference values of xorshift64* for that seed.
pub proof fn lemma_golden_stream_start()
    ensures
        xorshift_output(GOLDEN_SEED, 0) == 0x9ACE_A2AE_5EEB_BFF3u64,
        xorshift_output(GOLDEN_SEED, 1) == 0xFE5A_1BF1_BDD4_00DCu64,
{
    let s1 = 0xC319_5913_F5FE_544Fu64;
    let s2 = 0xCFDC_EA88_CB5C_598Cu64;
    assert(xorshift_step(0x00C0_FFEE_1234_5678u64) == 0xC319_5913_F5FE_544Fu64) by (bit_vector);
    assert(xorshift_step(0xC319_5913_F5FE_544Fu64) == 0xCFDC_EA88_CB5C_598Cu64) by (bit_vector);
    assert(xorshift_state(GOLDEN_SEED, 0) == GOLDEN_SEED);
    assert(xorshift_state(GOLDEN_SEED, 1) == s1);
    assert(xorshift_state(GOLDEN_SEED, 2) == s2);
    assert((s1 as nat * 0x2545_F491_4F6C_DD1Dnat) % 0x1_0000_0000_0000_0000nat == 0x9ACE_A2AE_5EEB_BFF3nat);
    assert((s2 as nat * 0x2545_F491_4F6C_DD1Dnat) % 0x1_0000_0000_0000_0000nat == 0xFE5A_1BF1_BDD4_00DCnat);
}

} // verus!
