//! AI_APP weights table image, cFE table file and golden stream tests.

use rust_bridge::ai_app::cfe_tbl_file::{
    build_cfe_table_file, CfeTblFileError, CFE_FS_FILE_CONTENT_ID, CFE_FS_HEADER_BYTES,
    CFE_FS_SUBTYPE_TBL_IMG, CFE_TBL_COMBINED_HDR_BYTES, CFE_TBL_FILE_HDR_BYTES,
};
use rust_bridge::ai_app::golden::{generate_microgpt_golden_draws, GoldenDraws, XorShift64};
use rust_bridge::ai_app::mission_dims::default_lab_ai_app_dims;
use rust_bridge::ai_app::table_image::{
    ai_app_crc32_skip_field, build_ai_app_weights_table_image, AiAppDims, AiAppWeights,
    TableImageError, AI_APP_WEIGHTS_TBL_CRC32_OFF, AI_APP_WEIGHTS_TBL_MAGIC,
};

fn dims_default() -> AiAppDims {
    AiAppDims { vocab_size: 17, n_embd: 16, block_size: 16, n_head: 4, n_layer: 1, max_layer: 4, mlp_factor: 4 }
}

/// Zero weights (the bit pattern of `0.0_f64` is 0) sized for `d`.
struct Owned {
    wte: Vec<u64>,
    wpe: Vec<u64>,
    lm: Vec<u64>,
    attn: Vec<Vec<u64>>,
    mlp1: Vec<Vec<u64>>,
    mlp2: Vec<Vec<u64>>,
}

fn zero_weights(d: &AiAppDims) -> Owned {
    let vocab = d.vocab_size as usize;
    let n_embd = d.n_embd as usize;
    let block = d.block_size as usize;
    let max_layer = d.max_layer as usize;
    let mlp_hidden = d.mlp_hidden() as usize;
    let zero = 0.0f64.to_bits();
    Owned {
        wte: vec![zero; vocab * n_embd],
        wpe: vec![zero; block * n_embd],
        lm: vec![zero; vocab * n_embd],
        attn: vec![vec![zero; n_embd * n_embd]; max_layer],
        mlp1: vec![vec![zero; mlp_hidden * n_embd]; max_layer],
        mlp2: vec![vec![zero; n_embd * mlp_hidden]; max_layer],
    }
}

fn layer_slices(v: &[Vec<u64>]) -> Vec<&[u64]> {
    v.iter().map(|x| x.as_slice()).collect()
}

fn build_zero_image(d: &AiAppDims, mission_version: &str) -> Result<Vec<u8>, TableImageError> {
    let o = zero_weights(d);
    let attn = layer_slices(&o.attn);
    let mlp1 = layer_slices(&o.mlp1);
    let mlp2 = layer_slices(&o.mlp2);
    let w = AiAppWeights {
        wte: &o.wte,
        wpe: &o.wpe,
        lm_head: &o.lm,
        attn_wq: &attn,
        attn_wk: &attn,
        attn_wv: &attn,
        attn_wo: &attn,
        mlp_fc1: &mlp1,
        mlp_fc2: &mlp2,
    };
    build_ai_app_weights_table_image(d, mission_version, &w)
}

#[test]
fn combined_header_size_is_116_bytes() {
    assert_eq!(CFE_FS_HEADER_BYTES, 64);
    assert_eq!(CFE_TBL_FILE_HDR_BYTES, 52);
    assert_eq!(CFE_TBL_COMBINED_HDR_BYTES, 116);
}

#[test]
fn dims_match_c_header_comment_values() {
    let d = default_lab_ai_app_dims();
    assert_eq!(d.vocab_size, 17);
    assert_eq!(d.n_embd, 16);
    assert_eq!(d.block_size, 16);
    assert_eq!(d.n_head, 4);
    assert_eq!(d.n_layer, 1);
    assert_eq!(d.max_layer, 4);
    assert_eq!(d.mlp_factor, 4);
}

#[test]
fn crc32_field_offset_is_12_bytes() {
    let d = dims_default();
    let img = build_zero_image(&d, "MISSION_X").unwrap();
    assert!(img.len() > AI_APP_WEIGHTS_TBL_CRC32_OFF + 4);
    assert_eq!(AI_APP_WEIGHTS_TBL_CRC32_OFF, 12);
    assert_eq!(img.len(), 104808);
}

#[test]
fn crc32_skip_field_detects_bitflip_outside_crc_field() {
    let d = dims_default();
    let mut img = build_zero_image(&d, "MISSION_X").unwrap();
    let orig_crc = u32::from_le_bytes(
        img[AI_APP_WEIGHTS_TBL_CRC32_OFF..AI_APP_WEIGHTS_TBL_CRC32_OFF + 4].try_into().unwrap(),
    );
    img[AI_APP_WEIGHTS_TBL_CRC32_OFF + 4] ^= 0x01;
    let calc = ai_app_crc32_skip_field(&img, AI_APP_WEIGHTS_TBL_CRC32_OFF);
    assert_ne!(calc, orig_crc);
}

#[test]
fn crc32_skip_field_ignores_bitflip_inside_crc_field() {
    let d = dims_default();
    let mut img = build_zero_image(&d, "MISSION_X").unwrap();
    let calc_before = ai_app_crc32_skip_field(&img, AI_APP_WEIGHTS_TBL_CRC32_OFF);
    img[AI_APP_WEIGHTS_TBL_CRC32_OFF] ^= 0x80;
    let calc_after = ai_app_crc32_skip_field(&img, AI_APP_WEIGHTS_TBL_CRC32_OFF);
    assert_eq!(calc_after, calc_before);
}

#[test]
fn stored_crc_matches_recomputed_crc() {
    let img = build_zero_image(&dims_default(), "MISSION_X").unwrap();
    let stored = u32::from_le_bytes(img[12..16].try_into().unwrap());
    assert_eq!(ai_app_crc32_skip_field(&img, 12), stored);
}

#[test]
fn crc32_of_standard_check_string() {
    // With the CRC field placed past the end nothing is skipped: IEEE CRC-32("123456789").
    assert_eq!(ai_app_crc32_skip_field(b"123456789", 100), 0xCBF4_3926);
}

#[test]
fn image_header_layout() {
    let img = build_zero_image(&dims_default(), "MISSION_X").unwrap();
    assert_eq!(u64::from_le_bytes(img[0..8].try_into().unwrap()), AI_APP_WEIGHTS_TBL_MAGIC);
    assert_eq!(u32::from_le_bytes(img[8..12].try_into().unwrap()), 1);
    assert_eq!(u32::from_le_bytes(img[16..20].try_into().unwrap()), 17);
    assert_eq!(u32::from_le_bytes(img[32..36].try_into().unwrap()), 1);
    assert_eq!(&img[36..45], b"MISSION_X");
    assert!(img[45..104].iter().all(|b| *b == 0));
}

#[test]
fn bad_layer_count_is_rejected() {
    let mut d = dims_default();
    d.n_layer = 0;
    assert_eq!(
        build_zero_image(&d, "MISSION_X"),
        Err(TableImageError::BadLayerCount { n_layer: 0, max_layer: 4 })
    );
    d.n_layer = 5;
    assert_eq!(
        build_zero_image(&d, "MISSION_X"),
        Err(TableImageError::BadLayerCount { n_layer: 5, max_layer: 4 })
    );
}

#[test]
fn wrong_array_length_names_the_first_bad_field() {
    let d = dims_default();
    let o = zero_weights(&d);
    let attn = layer_slices(&o.attn);
    let mlp1 = layer_slices(&o.mlp1);
    let mut short = o.mlp2.clone();
    short[2].pop();
    let mlp2 = layer_slices(&short);
    let w = AiAppWeights {
        wte: &o.wte,
        wpe: &o.wpe,
        lm_head: &o.lm,
        attn_wq: &attn,
        attn_wk: &attn,
        attn_wv: &attn,
        attn_wo: &attn,
        mlp_fc1: &mlp1,
        mlp_fc2: &mlp2,
    };
    assert_eq!(
        build_ai_app_weights_table_image(&d, "X", &w),
        Err(TableImageError::BadLen { field: "mlp_fc2[layer]", expected: 1024, got: 1023 })
    );
    let w2 = AiAppWeights { wte: &o.wte[1..], ..w };
    assert_eq!(
        build_ai_app_weights_table_image(&d, "X", &w2),
        Err(TableImageError::BadLen { field: "wte", expected: 272, got: 271 })
    );
}

#[test]
fn wrapped_file_starts_with_cfe_content_type_and_preserves_table_magic() {
    let raw = build_zero_image(&dims_default(), "MISSION_X").unwrap();
    let file = build_cfe_table_file(&raw, "AI_APP.WEIGHTS", "AI_APP weights").unwrap();

    assert_eq!(file[0..4], [0x63, 0x46, 0x45, 0x31]);
    assert_eq!(u32::from_be_bytes(file[0..4].try_into().unwrap()), CFE_FS_FILE_CONTENT_ID);
    assert_eq!(u32::from_be_bytes(file[4..8].try_into().unwrap()), CFE_FS_SUBTYPE_TBL_IMG);
    assert_eq!(u32::from_be_bytes(file[8..12].try_into().unwrap()), CFE_FS_HEADER_BYTES as u32);

    let tbl_off = CFE_FS_HEADER_BYTES;
    assert_eq!(u32::from_be_bytes(file[tbl_off + 4..tbl_off + 8].try_into().unwrap()), 0);
    assert_eq!(
        u32::from_be_bytes(file[tbl_off + 8..tbl_off + 12].try_into().unwrap()),
        raw.len() as u32
    );

    let image_off = CFE_TBL_COMBINED_HDR_BYTES;
    assert_eq!(
        u64::from_le_bytes(file[image_off..image_off + 8].try_into().unwrap()),
        AI_APP_WEIGHTS_TBL_MAGIC
    );
    assert_eq!(&file[image_off..], raw.as_slice());
}

#[test]
fn table_file_name_and_description_fields() {
    let file = build_cfe_table_file(&[1, 2, 3], "AI_APP.WEIGHTS", "desc").unwrap();
    assert_eq!(file.len(), 116 + 3);
    assert_eq!(&file[32..36], b"desc");
    assert!(file[36..64].iter().all(|b| *b == 0));
    assert_eq!(&file[76..90], b"AI_APP.WEIGHTS");
    assert!(file[90..116].iter().all(|b| *b == 0));
    assert_eq!(&file[116..], &[1, 2, 3]);
}

#[test]
fn table_file_rejects_long_names() {
    let long_desc = "d".repeat(33);
    assert_eq!(
        build_cfe_table_file(&[], "T", &long_desc),
        Err(CfeTblFileError::DescriptionTooLong { max: 32, got: 33 })
    );
    let long_name = "n".repeat(41);
    assert_eq!(
        build_cfe_table_file(&[], &long_name, "ok"),
        Err(CfeTblFileError::TableNameTooLong { max: 40, got: 41 })
    );
    // The description is checked before the name.
    assert_eq!(
        build_cfe_table_file(&[], &long_name, &long_desc),
        Err(CfeTblFileError::DescriptionTooLong { max: 32, got: 33 })
    );
    // Exactly at the limits is fine.
    assert!(build_cfe_table_file(&[], &"n".repeat(40), &"d".repeat(32)).is_ok());
}

/// Uniform in [-scale, scale] from one raw generator output, as the golden weights are drawn.
fn signed_weight(raw: u64, scale: f64) -> f64 {
    let u = raw >> 11;
    let unit = (u as f64) * (1.0 / ((1u64 << 53) as f64));
    (unit * 2.0 - 1.0) * scale
}

fn to_bits(v: &[u64]) -> Vec<u64> {
    v.iter().map(|r| signed_weight(*r, 0.02).to_bits()).collect()
}

fn to_bits_layers(v: &[Vec<u64>]) -> Vec<Vec<u64>> {
    v.iter().map(|l| to_bits(l)).collect()
}

#[test]
fn golden_is_deterministic_and_builds_image() {
    let dims = dims_default();
    let g1: GoldenDraws = generate_microgpt_golden_draws(&dims);
    let g2 = generate_microgpt_golden_draws(&dims);
    assert_eq!(g1.wte, g2.wte);
    let wte = to_bits(&g1.wte);
    let wpe = to_bits(&g1.wpe);
    let lm = to_bits(&g1.lm_head);
    let wq = to_bits_layers(&g1.attn_wq);
    let wk = to_bits_layers(&g1.attn_wk);
    let wv = to_bits_layers(&g1.attn_wv);
    let wo = to_bits_layers(&g1.attn_wo);
    let f1 = to_bits_layers(&g1.mlp_fc1);
    let f2 = to_bits_layers(&g1.mlp_fc2);
    let (q, k, v, o, a, b) = (
        layer_slices(&wq),
        layer_slices(&wk),
        layer_slices(&wv),
        layer_slices(&wo),
        layer_slices(&f1),
        layer_slices(&f2),
    );
    let w = AiAppWeights {
        wte: &wte,
        wpe: &wpe,
        lm_head: &lm,
        attn_wq: &q,
        attn_wk: &k,
        attn_wv: &v,
        attn_wo: &o,
        mlp_fc1: &a,
        mlp_fc2: &b,
    };
    let img = build_ai_app_weights_table_image(&dims, "LAB_GOLDEN", &w).unwrap();
    assert!(!img.is_empty());
    assert!(wte.iter().all(|bits| f64::from_bits(*bits).abs() <= 0.02));
}

#[test]
fn xorshift_first_outputs() {
    // xorshift64* from state 1: x = 1 ^ (1 << 25) = 0x2000001, then ^ (x >> 27) leaves it.
    let mut g = XorShift64::new(1);
    assert_eq!(g.next_u64(), 0x0200_0001u64.wrapping_mul(0x2545_F491_4F6C_DD1D));
    // Seed 0 behaves as seed 1.
    let mut z = XorShift64::new(0);
    let mut one = XorShift64::new(1);
    assert_eq!(z.next_u64(), one.next_u64());
}

#[test]
fn golden_draws_follow_the_generator_in_table_order() {
    let dims = dims_default();
    let g = generate_microgpt_golden_draws(&dims);
    let mut rng = XorShift64::new(0x00C0_FFEE_1234_5678);
    for x in &g.wte {
        assert_eq!(*x, rng.next_u64());
    }
    for x in &g.wpe {
        assert_eq!(*x, rng.next_u64());
    }
    assert_eq!(g.lm_head.len(), 272);
    assert_eq!(g.attn_wq.len(), 4);
    assert_eq!(g.mlp_fc2[3].len(), 1024);
}

#[test]
fn skip_field_crc_is_crc_of_data_without_field() {
    let data: Vec<u8> = (0u8..40).collect();
    let mut removed = data[..12].to_vec();
    removed.extend_from_slice(&data[16..]);
    // A field offset past the end skips nothing.
    assert_eq!(ai_app_crc32_skip_field(&data, 12), ai_app_crc32_skip_field(&removed, 1000));
}

#[test]
fn bad_layer_count_is_reported_before_size_arithmetic() {
    let d = AiAppDims {
        vocab_size: 1,
        n_embd: u32::MAX,
        block_size: 1,
        n_head: 1,
        n_layer: 0,
        max_layer: 1,
        mlp_factor: 2,
    };
    let w = AiAppWeights {
        wte: &[],
        wpe: &[],
        lm_head: &[],
        attn_wq: &[],
        attn_wk: &[],
        attn_wv: &[],
        attn_wo: &[],
        mlp_fc1: &[],
        mlp_fc2: &[],
    };
    assert_eq!(
        build_ai_app_weights_table_image(&d, "X", &w),
        Err(TableImageError::BadLayerCount { n_layer: 0, max_layer: 1 })
    );
}
