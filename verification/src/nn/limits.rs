//! Tests of the conditions under which plans can be built: whether every size
//! of a configuration can be counted in 32 bits, and whether its heads have the
//! width that the fused attention kernels are written for.
use vstd::prelude::*;
use crate::config::{ModelConfig, FLASH_HEAD_DIM};
use crate::device::Tensor;
use super::akasha_model;
use super::arch;
use super::blocks;
use super::full_seq;
use super::inference::InferenceSession;
use super::inference_graphs;
use super::kernels::emit;
use super::kernels::meta::MatMulMeta;
use super::serving;
use super::tape;
use super::training;
use super::weights::{self, BlockWeights, ModelWeights};

verus! {

const LIMIT: u128 = 0xffff_ffff;

fn product(a: u32, b: u32) -> (r: u128)
    ensures
        r == a * b,
        r <= 0xffff_ffff_ffff_ffff,
{
    assert(0 <= a * b <= 0xffff_ffff_ffff_ffff) by (nonlinear_arith)
        requires
            a <= 0xffff_ffff,
            b <= 0xffff_ffff,
    ;
    a as u128 * b as u128
}

fn counted(t: Tensor) -> (r: bool)
    ensures
        r == (tape::elems(t) <= u32::MAX),
{
    t.size / 4 <= 0xffff_ffff
}

fn small(t: Tensor) -> (r: bool)
    ensures
        r == tape::small(t),
{
    t.size / 4 + 255 <= 0xffff_ffff
}

fn linear_ok(shape: MatMulMeta) -> (r: bool)
    ensures
        r == full_seq::linear_ok(shape),
{
    let mn: u128 = product(shape.m, shape.n);
    let mk: u128 = product(shape.m, shape.k);
    shape.n as u128 + 255 <= LIMIT && shape.m as u128 + 15 <= LIMIT && shape.k as u128 + 15 <= LIMIT
        && mn + 255 <= LIMIT && mk + 255 <= LIMIT
}

/// Whether `AkashaModel` can be built over the configuration.
pub fn model_fits(cfg: &ModelConfig) -> (r: bool)
    ensures
        r == akasha_model::model_fits(*cfg),
{
    if cfg.num_heads == 0 {
        return false;
    }
    let rows: u32 = cfg.seq_len;
    let dim: u32 = cfg.dim;
    let hidden: u32 = cfg.ffn_hidden;
    let score: u128 = product(rows, rows);
    let wide: u128 = product(rows, dim);
    let inner: u128 = product(rows, hidden);
    let square: u128 = product(dim, dim);
    let up: u128 = product(dim, hidden);
    let logits: u128 = product(rows, cfg.vocab_size);
    let table: u128 = product(cfg.vocab_size, dim);
    proof {
        assert(rows * (3 * dim) == 3 * (rows * dim)) by (nonlinear_arith);
        assert(dim * (3 * dim) == 3 * (dim * dim)) by (nonlinear_arith);
    }
    dim % cfg.num_heads == 0 && dim as u128 + 255 <= LIMIT && rows as u128 + 255 <= LIMIT && score
        <= LIMIT && wide + 255 <= LIMIT && dim > 0 && 3 * dim as u128 + 15 <= LIMIT
        && hidden as u128 + 15 <= LIMIT && 3 * wide <= LIMIT && inner + 255 <= LIMIT && square
        <= LIMIT && 3 * square <= LIMIT && up <= LIMIT && cfg.num_layers >= 1 && cfg.num_layers
        < usize::MAX && cfg.vocab_size as u128 + 15 <= LIMIT && logits <= LIMIT && table <= LIMIT
}

fn sizes_ok(rows: u32, dim: u32, hidden: u32) -> (r: bool)
    ensures
        r == arch::sizes_ok(rows, dim, hidden),
{
    let wide: u128 = product(rows, dim);
    let inner: u128 = product(rows, hidden);
    rows as u128 + 15 <= LIMIT && 3 * dim as u128 + 255 <= LIMIT && hidden as u128 + 255 <= LIMIT
        && 3 * wide + 255 <= LIMIT && inner + 255 <= LIMIT
}

fn weights_ok(bw: &BlockWeights) -> (r: bool)
    ensures
        r == arch::weights_ok(*bw),
{
    counted(bw.norm_1) && counted(bw.qkv_proj) && counted(bw.out_proj) && counted(bw.norm_2)
        && counted(bw.ffn_up) && counted(bw.ffn_down)
}

/// Whether `seq_len` rows can go through the fused attention kernels.
fn flash_ok(cfg: &ModelConfig, seq_len: u32) -> (r: bool)
    requires
        cfg.num_heads > 0,
    ensures
        r == emit::flash_fits(blocks::flash_shape(seq_len, cfg.dim, cfg.spec_head_dim())),
{
    if cfg.head_dim() != FLASH_HEAD_DIM {
        return false;
    }
    let scores: u128 = product(seq_len, cfg.dim / 64);
    cfg.dim % 64 == 0 && seq_len as u128 + 63 <= LIMIT && scores <= LIMIT
}

fn full_fits(cfg: &ModelConfig, bw: &BlockWeights, seq_len: u32, batch: u32) -> (r: bool)
    ensures
        r == blocks::full_fits(*cfg, *bw, seq_len, batch),
{
    let rows: u128 = product(batch, seq_len);
    if cfg.num_heads == 0 || rows > LIMIT {
        return false;
    }
    sizes_ok(rows as u32, cfg.dim, cfg.ffn_hidden) && weights_ok(bw) && flash_ok(cfg, seq_len)
}

fn decode_fits(cfg: &ModelConfig, bw: &BlockWeights, max_context_len: u32) -> (r: bool)
    ensures
        r == blocks::decode_fits(*cfg, *bw, max_context_len),
{
    if cfg.num_heads == 0 {
        return false;
    }
    let scores: u128 = product(cfg.num_heads, max_context_len);
    cfg.head_dim() > 0 && sizes_ok(1, cfg.dim, cfg.ffn_hidden) && weights_ok(bw)
        && cfg.num_heads as u128 + 255 <= LIMIT && max_context_len as u128 + 255 <= LIMIT && scores
        <= LIMIT
}

fn block_small(bw: &BlockWeights) -> (r: bool)
    ensures
        r == tape::all_small(weights::block_order(*bw)),
{
    let ghost order = weights::block_order(*bw);
    proof {
        assert(order[0] == bw.norm_1 && order[1] == bw.qkv_proj && order[2] == bw.out_proj
            && order[3] == bw.norm_2 && order[4] == bw.ffn_up && order[5] == bw.ffn_down);
    }
    small(bw.norm_1) && small(bw.qkv_proj) && small(bw.out_proj) && small(bw.norm_2) && small(
        bw.ffn_up,
    ) && small(bw.ffn_down)
}

/// Whether the weights can be trained under the configuration, `accumulation_steps`
/// batches to a step.
pub fn can_train(w: &ModelWeights, cfg: &ModelConfig, accumulation_steps: u32) -> (r: bool)
    ensures
        r == (training::trainable(w@, *cfg) && training::rows_of(*cfg) * accumulation_steps
            <= u32::MAX && 256 * (6 * w@.blocks.len() + 3) <= u32::MAX),
{
    let rows: u128 = product(cfg.batch_size, cfg.seq_len);
    if rows > LIMIT {
        return false;
    }
    let rows: u32 = rows as u32;
    let wide: u128 = product(rows, cfg.dim);
    let steps: u128 = product(rows, accumulation_steps);
    if wide + 255 > LIMIT || cfg.dim as u128 + 255 > LIMIT || cfg.vocab_size as u128 + 255 > LIMIT
        || steps > LIMIT || 256 * (6 * w.blocks.len() as u128 + 3) > LIMIT {
        return false;
    }
    if !linear_ok(MatMulMeta { m: rows, n: cfg.vocab_size, k: cfg.dim }) || !small(w.embedding)
        || !small(w.final_norm) || !small(w.lm_head) {
        return false;
    }
    let mut i: usize = 0;
    while i < w.blocks.len()
        invariant
            i <= w.blocks@.len(),
            forall|j: int|
                0 <= j < i ==> {
                    &&& blocks::full_fits(*cfg, #[trigger] w.blocks@[j], cfg.seq_len, cfg.batch_size)
                    &&& tape::all_small(weights::block_order(w.blocks@[j]))
                },
        decreases w.blocks@.len() - i,
    {
        if !full_fits(cfg, &w.blocks[i], cfg.seq_len, cfg.batch_size) || !block_small(&w.blocks[i]) {
            assert(w@.blocks[i as int] == w.blocks@[i as int]);
            return false;
        }
        i += 1;
    }
    true
}

/// Whether a prompt of `prompt_len` tokens can be run in one pass.
pub fn can_prefill(w: &ModelWeights, cfg: &ModelConfig, prompt_len: u32) -> (r: bool)
    ensures
        r == serving::prefill_servable(w@, *cfg, prompt_len),
{
    let wide: u128 = product(prompt_len, cfg.dim);
    if w.blocks.len() as u128 * 14 + 3 > usize::MAX as u128 || cfg.dim as u128 + 255 > LIMIT || wide
        + 255 > LIMIT {
        return false;
    }
    if !linear_ok(MatMulMeta { m: prompt_len, n: cfg.vocab_size, k: cfg.dim }) || !counted(
        w.embedding,
    ) || !counted(w.final_norm) || !counted(w.lm_head) {
        return false;
    }
    let mut i: usize = 0;
    while i < w.blocks.len()
        invariant
            i <= w.blocks@.len(),
            forall|j: int|
                0 <= j < i ==> blocks::full_fits(*cfg, #[trigger] w.blocks@[j], prompt_len, 1),
        decreases w.blocks@.len() - i,
    {
        if !full_fits(cfg, &w.blocks[i], prompt_len, 1) {
            assert(w@.blocks[i as int] == w.blocks@[i as int]);
            return false;
        }
        i += 1;
    }
    true
}

/// Whether the weights can serve a chat of `max_context_len` tokens.
pub fn can_decode(w: &ModelWeights, cfg: &ModelConfig, max_context_len: u32) -> (r: bool)
    ensures
        r == (serving::decode_servable(w@, *cfg, max_context_len) && max_context_len * cfg.dim
            <= u32::MAX),
{
    let cache: u128 = product(max_context_len, cfg.dim);
    if w.blocks.len() as u128 * 17 + 3 > usize::MAX as u128 || cfg.dim as u128 + 255 > LIMIT || cache
        > LIMIT {
        return false;
    }
    if !linear_ok(MatMulMeta { m: 1, n: cfg.vocab_size, k: cfg.dim }) || !counted(w.embedding)
        || !counted(w.final_norm) || !counted(w.lm_head) {
        return false;
    }
    let mut i: usize = 0;
    while i < w.blocks.len()
        invariant
            i <= w.blocks@.len(),
            forall|j: int|
                0 <= j < i ==> blocks::decode_fits(*cfg, #[trigger] w.blocks@[j], max_context_len),
        decreases w.blocks@.len() - i,
    {
        if !decode_fits(cfg, &w.blocks[i], max_context_len) {
            assert(w@.blocks[i as int] == w.blocks@[i as int]);
            return false;
        }
        i += 1;
    }
    true
}

fn layer_fits(cfg: &ModelConfig, rows: u32) -> (r: bool)
    ensures
        r == inference_graphs::layer_fits(*cfg, rows),
{
    if cfg.num_heads == 0 {
        return false;
    }
    let wide: u128 = product(rows, cfg.dim);
    let inner: u128 = product(rows, cfg.ffn_hidden);
    cfg.head_dim() > 0 && rows as u128 + 15 <= LIMIT && 3 * cfg.dim as u128 + 255 <= LIMIT
        && cfg.ffn_hidden as u128 + 255 <= LIMIT && 3 * wide <= LIMIT && inner + 255 <= LIMIT
        && cfg.num_heads as u128 + 255 <= LIMIT
}

/// Whether a session over the weights can be opened, with room for
/// `max_context_len` tokens.
pub fn can_open(w: &ModelWeights, max_context_len: u32) -> (r: bool)
    ensures
        r == (w@.cfg.num_heads > 0 && w@.blocks.len() == w@.cfg.num_layers && 3 * w@.cfg.dim
            <= u32::MAX && w@.cfg.num_heads * max_context_len <= u32::MAX && max_context_len
            * w@.cfg.dim <= u32::MAX),
{
    let scores: u128 = product(w.cfg.num_heads, max_context_len);
    let cache: u128 = product(max_context_len, w.cfg.dim);
    w.cfg.num_heads > 0 && w.blocks.len() == w.cfg.num_layers && 3 * w.cfg.dim as u128 <= LIMIT
        && scores <= LIMIT && cache <= LIMIT
}

/// Whether the session can run a prompt of `prompt_len` tokens now: it has an
/// empty cache, and the prompt fits.
pub fn can_run_prompt(s: &InferenceSession, prompt_len: usize) -> (r: bool)
    ensures
        r == (1 <= prompt_len <= s.max_context_len && (s.cache matches Some(c) && c@.cur_len == 0)
            && inference_graphs::layer_fits(s.cfg, prompt_len as u32) && emit::flash_fits(
            inference_graphs::flash_over(s.cfg, prompt_len as u32),
        ) && emit::matmul_fits(
            (MatMulMeta { m: prompt_len as u32, n: s.cfg.vocab_size, k: s.cfg.dim }),
        ) && prompt_len * s.cfg.vocab_size <= u32::MAX),
{
    let empty = match &s.cache {
        Some(c) => c.cur_len == 0,
        None => false,
    };
    if prompt_len == 0 || prompt_len > s.max_context_len as usize || !empty {
        return false;
    }
    let rows: u32 = prompt_len as u32;
    if !layer_fits(&s.cfg, rows) {
        return false;
    }
    let logits: u128 = product(rows, s.cfg.vocab_size);
    flash_ok(&s.cfg, rows) && s.cfg.vocab_size as u128 + 255 <= LIMIT && rows as u128 + 15 <= LIMIT
        && logits <= LIMIT
}

/// Whether the session can take one more token: it has a cache with a free row.
pub fn can_step(s: &InferenceSession) -> (r: bool)
    ensures
        r == ((s.cache matches Some(c) && c@.cur_len < s.max_context_len)
            && inference_graphs::layer_fits(s.cfg, 1) && s.max_context_len + 255 <= u32::MAX
            && emit::matmul_fits((MatMulMeta { m: 1, n: s.cfg.vocab_size, k: s.cfg.dim }))),
{
    let room = match &s.cache {
        Some(c) => c.cur_len < s.max_context_len,
        None => false,
    };
    room && layer_fits(&s.cfg, 1) && s.max_context_len as u128 + 255 <= LIMIT
        && s.cfg.vocab_size as u128 + 255 <= LIMIT
}

} // verus!
