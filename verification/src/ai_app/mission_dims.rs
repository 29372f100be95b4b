//! Default lab GPT dimensions — **must match**
//! `cfs/apps/ai_app/config/default_ai_app_mission_cfg.h` (`AI_APP_GPT_*` macros).
//!
//! If the C header changes, update these constants and golden generators together.

use vstd::prelude::*;

use super::table_image::AiAppDims;

verus! {

pub const AI_APP_GPT_VOCAB_SIZE: u32 = 17;
pub const AI_APP_GPT_N_EMBD: u32 = 16;
pub const AI_APP_GPT_BLOCK_SIZE: u32 = 16;
pub const AI_APP_GPT_N_HEAD: u32 = 4;
pub const AI_APP_GPT_N_LAYER: u32 = 1;
pub const AI_APP_GPT_MAX_LAYER: u32 = 4;
pub const AI_APP_GPT_MLP_FACTOR: u32 = 4;

/// [`AiAppDims`] matching the mission default table size (`sizeof(AI_APP_WeightsTable_t)` on flight).
pub fn default_lab_ai_app_dims() -> (d: AiAppDims)
    ensures
        d == (AiAppDims {
            vocab_size: AI_APP_GPT_VOCAB_SIZE,
            n_embd: AI_APP_GPT_N_EMBD,
            block_size: AI_APP_GPT_BLOCK_SIZE,
            n_head: AI_APP_GPT_N_HEAD,
            n_layer: AI_APP_GPT_N_LAYER,
            max_layer: AI_APP_GPT_MAX_LAYER,
            mlp_factor: AI_APP_GPT_MLP_FACTOR,
        }),
        d.sizes_fit(),
{
    let d = AiAppDims {
        vocab_size: AI_APP_GPT_VOCAB_SIZE,
        n_embd: AI_APP_GPT_N_EMBD,
        block_size: AI_APP_GPT_BLOCK_SIZE,
        n_head: AI_APP_GPT_N_HEAD,
        n_layer: AI_APP_GPT_N_LAYER,
        max_layer: AI_APP_GPT_MAX_LAYER,
        mlp_factor: AI_APP_GPT_MLP_FACTOR,
    };
    assert(d.vocab_size == 17 && d.n_embd == 16 && d.block_size == 16 && d.mlp_factor == 4);
    assert(d.vocab_size * d.n_embd == 272) by (nonlinear_arith)
        requires
            d.vocab_size == 17 && d.n_embd == 16,
    ;
    assert(d.block_size * d.n_embd == 256) by (nonlinear_arith)
        requires
            d.block_size == 16 && d.n_embd == 16,
    ;
    assert(d.n_embd * d.n_embd == 256) by (nonlinear_arith)
        requires
            d.n_embd == 16,
    ;
    assert(d.n_embd * d.mlp_factor * d.n_embd == 1024) by (nonlinear_arith)
        requires
            d.mlp_factor == 4 && d.n_embd == 16,
    ;
    d
}

} // verus!
