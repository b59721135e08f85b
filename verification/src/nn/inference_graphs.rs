//! The graphs of one transformer layer on a key/value cache, for a whole prompt
//! and for a single new row.
use super::kernels::emit;
use super::kernels::meta::{
    AttnCachedMeta, CacheWriteMeta, EmbeddingMeta, FlashAttnMeta, HeadMoveMeta, KernelMeta,
    MatMulMeta, Meta, NormMeta, RopeMeta, RopeOffsetMeta, SoftmaxRectMeta,
};
use super::kernels::{CachedPhase, Decode, GraphBuilder, Prefill};
use super::weights::BlockWeights;
use crate::config::ModelConfig;
use crate::device;
use crate::device::{Context, Init, NodeView, Scalar, Tensor};
use vstd::prelude::*;

verus! {

/// The buffers that every decode step reuses.
#[derive(Clone, Copy, Debug)]
pub struct DecodeScratch {
    pub hidden: Tensor,
    pub norm_out: Tensor,
    pub qkv_out: Tensor,
    pub q_buf: Tensor,
    pub k_buf: Tensor,
    pub v_buf: Tensor,
    /// Packed `[num_heads, attn_len]`.
    pub scores: Tensor,
    pub attn_out: Tensor,
    pub ffn_up_out: Tensor,
    pub final_norm_out: Tensor,
    pub logits: Tensor,
    /// Constant: norm_1, norm_2, final_norm.
    pub norm_meta: Tensor,
    /// Constant: out_proj.
    pub qkv_meta: Tensor,
    pub qkv_proj_meta: Tensor,
    pub q_split_meta: Tensor,
    pub k_split_meta: Tensor,
    pub v_split_meta: Tensor,
    pub ffnup_meta: Tensor,
    pub ffndown_meta: Tensor,
    pub emb_meta: Tensor,
    pub lm_meta: Tensor,
    /// Follows the position.
    pub rope_meta: Tensor,
    /// Follows the position.
    pub cache_write_meta: Tensor,
    /// Follows the position.
    pub attn_meta: Tensor,
    /// Follows the position.
    pub softmax_meta: Tensor,
}

/// The norm over `rows` rows of the model's width.
pub open spec fn norm_shape(rows: u32, cfg: ModelConfig) -> NormMeta {
    NormMeta { seq_len: rows, size: cfg.dim, eps: cfg.norm_eps }
}

/// The rotation of one row at position `pos`.
pub open spec fn rope_at(cfg: ModelConfig, pos: u32) -> RopeOffsetMeta {
    RopeOffsetMeta { seq_len: 1, dim: cfg.dim, head_dim: cfg.spec_head_dim(), pos }
}

/// One cache row, written at `pos`.
pub open spec fn cache_row(cfg: ModelConfig, pos: u32) -> CacheWriteMeta {
    CacheWriteMeta { row_count: 1, width: cfg.dim, dst_row_offset: pos }
}

/// The attention over the first `len` cache rows.
pub open spec fn attn_over(cfg: ModelConfig, len: u32) -> AttnCachedMeta {
    AttnCachedMeta { attn_len: len, dim: cfg.dim, head_dim: cfg.spec_head_dim() }
}

/// The softmax over `len` scores of every head.
pub open spec fn softmax_over(cfg: ModelConfig, len: u32) -> SoftmaxRectMeta {
    SoftmaxRectMeta {
        num_rows: cfg.num_heads,
        width: len,
        scale: Scalar::RecipSqrt(cfg.spec_head_dim()),
    }
}

/// The configurations on which a cached layer of `rows` rows works.
pub open spec fn layer_fits(cfg: ModelConfig, rows: u32) -> bool {
    &&& cfg.num_heads > 0
    &&& cfg.spec_head_dim() > 0
    &&& rows + 15 <= u32::MAX
    &&& 3 * cfg.dim + 255 <= u32::MAX
    &&& cfg.ffn_hidden + 255 <= u32::MAX
    &&& 3 * (rows * cfg.dim) <= u32::MAX
    &&& rows * cfg.ffn_hidden + 255 <= u32::MAX
    &&& cfg.num_heads + 255 <= u32::MAX
}

/// The context and the scratch that `new` leaves when it starts in `c`: the
/// metas first, then the buffers.
#[verifier::opaque]
pub open spec fn scratch_build(c: Seq<Init>, cfg: ModelConfig, max_context_len: u32) -> (
    Seq<Init>,
    DecodeScratch,
) {
    let m0 = norm_shape(1, cfg).spec_meta();
    let norm_meta = device::next_meta(c, m0);
    let c0 = device::push_meta(c, m0);
    let m1 = (MatMulMeta { m: 1, n: cfg.dim, k: cfg.dim }).spec_meta();
    let qkv_meta = device::next_meta(c0, m1);
    let c1 = device::push_meta(c0, m1);
    let m2 = (MatMulMeta { m: 1, n: (cfg.dim * 3) as u32, k: cfg.dim }).spec_meta();
    let qkv_proj_meta = device::next_meta(c1, m2);
    let c2 = device::push_meta(c1, m2);
    let m3 = HeadMoveMeta::spec_qkv_slice(1, cfg.dim, 0).spec_meta();
    let q_split_meta = device::next_meta(c2, m3);
    let c3 = device::push_meta(c2, m3);
    let m4 = HeadMoveMeta::spec_qkv_slice(1, cfg.dim, cfg.dim).spec_meta();
    let k_split_meta = device::next_meta(c3, m4);
    let c4 = device::push_meta(c3, m4);
    let m5 = HeadMoveMeta::spec_qkv_slice(1, cfg.dim, (2 * cfg.dim) as u32).spec_meta();
    let v_split_meta = device::next_meta(c4, m5);
    let c5 = device::push_meta(c4, m5);
    let m6 = (MatMulMeta { m: 1, n: cfg.ffn_hidden, k: cfg.dim }).spec_meta();
    let ffnup_meta = device::next_meta(c5, m6);
    let c6 = device::push_meta(c5, m6);
    let m7 = (MatMulMeta { m: 1, n: cfg.dim, k: cfg.ffn_hidden }).spec_meta();
    let ffndown_meta = device::next_meta(c6, m7);
    let c7 = device::push_meta(c6, m7);
    let m8 = (EmbeddingMeta { vocab_size: cfg.vocab_size, dim: cfg.dim, seq_len: 1 }).spec_meta();
    let emb_meta = device::next_meta(c7, m8);
    let c8 = device::push_meta(c7, m8);
    let m9 = (MatMulMeta { m: 1, n: cfg.vocab_size, k: cfg.dim }).spec_meta();
    let lm_meta = device::next_meta(c8, m9);
    let c9 = device::push_meta(c8, m9);
    let m10 = rope_at(cfg, 0).spec_meta();
    let rope_meta = device::next_meta(c9, m10);
    let c10 = device::push_meta(c9, m10);
    let m11 = cache_row(cfg, 0).spec_meta();
    let cache_write_meta = device::next_meta(c10, m11);
    let c11 = device::push_meta(c10, m11);
    let m12 = attn_over(cfg, 1).spec_meta();
    let attn_meta = device::next_meta(c11, m12);
    let c12 = device::push_meta(c11, m12);
    let m13 = (SoftmaxRectMeta {
        num_rows: cfg.num_heads,
        width: 1,
        scale: Scalar::Dec { digits: 1, places: 0 },
    }).spec_meta();
    let softmax_meta = device::next_meta(c12, m13);
    let c13 = device::push_meta(c12, m13);
    let hidden = device::next_zeros(c13, cfg.dim as int);
    let c14 = device::push_zeros(c13, cfg.dim as int);
    let norm_out = device::next_zeros(c14, cfg.dim as int);
    let c15 = device::push_zeros(c14, cfg.dim as int);
    let qkv_out = device::next_zeros(c15, (cfg.dim * 3) as int);
    let c16 = device::push_zeros(c15, (cfg.dim * 3) as int);
    let q_buf = device::next_zeros(c16, cfg.dim as int);
    let c17 = device::push_zeros(c16, cfg.dim as int);
    let k_buf = device::next_zeros(c17, cfg.dim as int);
    let c18 = device::push_zeros(c17, cfg.dim as int);
    let v_buf = device::next_zeros(c18, cfg.dim as int);
    let c19 = device::push_zeros(c18, cfg.dim as int);
    let scores = device::next_zeros(c19, (cfg.num_heads * max_context_len) as int);
    let c20 = device::push_zeros(c19, (cfg.num_heads * max_context_len) as int);
    let attn_out = device::next_zeros(c20, cfg.dim as int);
    let c21 = device::push_zeros(c20, cfg.dim as int);
    let ffn_up_out = device::next_zeros(c21, cfg.ffn_hidden as int);
    let c22 = device::push_zeros(c21, cfg.ffn_hidden as int);
    let final_norm_out = device::next_zeros(c22, cfg.dim as int);
    let c23 = device::push_zeros(c22, cfg.dim as int);
    let logits = device::next_zeros(c23, cfg.vocab_size as int);
    let c24 = device::push_zeros(c23, cfg.vocab_size as int);
    (
        c24,
        DecodeScratch {
            hidden,
            norm_out,
            qkv_out,
            q_buf,
            k_buf,
            v_buf,
            scores,
            attn_out,
            ffn_up_out,
            final_norm_out,
            logits,
            norm_meta,
            qkv_meta,
            qkv_proj_meta,
            q_split_meta,
            k_split_meta,
            v_split_meta,
            ffnup_meta,
            ffndown_meta,
            emb_meta,
            lm_meta,
            rope_meta,
            cache_write_meta,
            attn_meta,
            softmax_meta,
        },
    )
}

impl DecodeScratch {
    pub fn new(ctx: &mut Context, cfg: &ModelConfig, max_context_len: u32) -> (r: Self)
        requires
            cfg.num_heads > 0,
            3 * cfg.dim <= u32::MAX,
            cfg.num_heads * max_context_len <= u32::MAX,
        ensures
            (final(ctx)@, r) == scratch_build(old(ctx)@, *cfg, max_context_len),
    {
        proof {
            reveal(scratch_build);
            assert(0 <= cfg.num_heads * max_context_len) by (nonlinear_arith);
        }
        let dim: u32 = cfg.dim;
        let head_dim: u32 = cfg.head_dim();
        let ffn_hidden: u32 = cfg.ffn_hidden;
        let vocab_size: u32 = cfg.vocab_size;
        let norm_meta = (NormMeta { seq_len: 1, size: dim, eps: cfg.norm_eps }).upload(ctx);
        let qkv_meta = (MatMulMeta { m: 1, n: dim, k: dim }).upload(ctx);
        let qkv_proj_meta = (MatMulMeta { m: 1, n: dim * 3, k: dim }).upload(ctx);
        let q_split_meta = HeadMoveMeta::qkv_slice(1, dim, 0).upload(ctx);
        let k_split_meta = HeadMoveMeta::qkv_slice(1, dim, dim).upload(ctx);
        let v_split_meta = HeadMoveMeta::qkv_slice(1, dim, 2 * dim).upload(ctx);
        let ffnup_meta = (MatMulMeta { m: 1, n: ffn_hidden, k: dim }).upload(ctx);
        let ffndown_meta = (MatMulMeta { m: 1, n: dim, k: ffn_hidden }).upload(ctx);
        let emb_meta = (EmbeddingMeta { vocab_size, dim, seq_len: 1 }).upload(ctx);
        let lm_meta = (MatMulMeta { m: 1, n: vocab_size, k: dim }).upload(ctx);
        let rope_meta = (RopeOffsetMeta { seq_len: 1, dim, head_dim, pos: 0 }).upload(ctx);
        let cache_write_meta = (CacheWriteMeta { row_count: 1, width: dim, dst_row_offset: 0 }).upload(ctx);
        let attn_meta = (AttnCachedMeta { attn_len: 1, dim, head_dim }).upload(ctx);
        let softmax_meta = (SoftmaxRectMeta {
            num_rows: cfg.num_heads,
            width: 1,
            scale: Scalar::Dec { digits: 1, places: 0 },
        }).upload(ctx);
        let hidden = ctx.zeros(dim);
        let norm_out = ctx.zeros(dim);
        let qkv_out = ctx.zeros(dim * 3);
        let q_buf = ctx.zeros(dim);
        let k_buf = ctx.zeros(dim);
        let v_buf = ctx.zeros(dim);
        let scores = ctx.zeros(cfg.num_heads * max_context_len);
        let attn_out = ctx.zeros(dim);
        let ffn_up_out = ctx.zeros(ffn_hidden);
        let final_norm_out = ctx.zeros(dim);
        let logits = ctx.zeros(vocab_size);
        DecodeScratch {
            hidden,
            norm_out,
            qkv_out,
            q_buf,
            k_buf,
            v_buf,
            scores,
            attn_out,
            ffn_up_out,
            final_norm_out,
            logits,
            norm_meta,
            qkv_meta,
            qkv_proj_meta,
            q_split_meta,
            k_split_meta,
            v_split_meta,
            ffnup_meta,
            ffndown_meta,
            emb_meta,
            lm_meta,
            rope_meta,
            cache_write_meta,
            attn_meta,
            softmax_meta,
        }
    }

    /// What position `pos` writes to the metas that follow it.
    pub open spec fn step_writes(self, pos: u32, cfg: ModelConfig) -> Seq<(Tensor, Meta)> {
        seq![
            (self.rope_meta, rope_at(cfg, pos).spec_meta()),
            (self.cache_write_meta, cache_row(cfg, pos).spec_meta()),
            (self.attn_meta, attn_over(cfg, (pos + 1) as u32).spec_meta()),
            (self.softmax_meta, softmax_over(cfg, (pos + 1) as u32).spec_meta()),
        ]
    }

    /// Moves the scratch to position `pos`: the meta buffers to overwrite.
    pub fn update_for_step(&self, pos: u32, cfg: &ModelConfig) -> (r: Vec<(Tensor, Meta)>)
        requires
            cfg.num_heads > 0,
            pos < u32::MAX,
        ensures
            r@ == self.step_writes(pos, *cfg),
    {
        let dim: u32 = cfg.dim;
        let head_dim: u32 = cfg.head_dim();
        let attn_len: u32 = pos + 1;
        let scale = Scalar::RecipSqrt(head_dim);
        let r = vec![
            (self.rope_meta, (RopeOffsetMeta { seq_len: 1, dim, head_dim, pos }).meta()),
            (
                self.cache_write_meta,
                (CacheWriteMeta { row_count: 1, width: dim, dst_row_offset: pos }).meta(),
            ),
            (self.attn_meta, (AttnCachedMeta { attn_len, dim, head_dim }).meta()),
            (
                self.softmax_meta,
                (SoftmaxRectMeta { num_rows: cfg.num_heads, width: attn_len, scale }).meta(),
            ),
        ];
        assert(r@ =~= self.step_writes(pos, *cfg));
        r
    }
}

// ---- the parts that both phases share ----

/// The buffers and metas of the part before the attention.
#[derive(Clone, Copy, Debug)]
pub struct PreAttn {
    pub hidden: Tensor,
    pub norm_out: Tensor,
    pub qkv_out: Tensor,
    pub q_buf: Tensor,
    pub k_buf: Tensor,
    pub v_buf: Tensor,
    pub norm_meta: Tensor,
    pub qkv_proj_meta: Tensor,
    pub q_split_meta: Tensor,
    pub k_split_meta: Tensor,
    pub v_split_meta: Tensor,
}

/// Norm, fused projection, and the three slices.
pub open spec fn pre_attn_nodes(bw: BlockWeights, b: PreAttn, rows: u32, cfg: ModelConfig) -> Seq<
    NodeView,
> {
    let dim = cfg.dim;
    seq![
        emit::rmsnorm_node(b.hidden, bw.norm_1, b.norm_out, norm_shape(rows, cfg), b.norm_meta),
        emit::matmul_node(
            b.norm_out,
            bw.qkv_proj,
            b.qkv_out,
            MatMulMeta { m: rows, n: (dim * 3) as u32, k: dim },
            b.qkv_proj_meta,
        ),
        emit::head_gather_node(
            b.qkv_out,
            b.q_buf,
            HeadMoveMeta::spec_qkv_slice(rows, dim, 0),
            b.q_split_meta,
        ),
        emit::head_gather_node(
            b.qkv_out,
            b.k_buf,
            HeadMoveMeta::spec_qkv_slice(rows, dim, dim),
            b.k_split_meta,
        ),
        emit::head_gather_node(
            b.qkv_out,
            b.v_buf,
            HeadMoveMeta::spec_qkv_slice(rows, dim, (2 * dim) as u32),
            b.v_split_meta,
        ),
    ]
}

/// Shared prefix of a transformer block: norm, fused projection, split into
/// queries, keys and values. The caller goes on with rotation, cache write and
/// attention, which differ by phase, and then calls `block_post_attn`.
pub fn block_pre_attn<P: CachedPhase>(
    gb: &mut GraphBuilder<P>,
    bw: &BlockWeights,
    b: &PreAttn,
    rows: u32,
    cfg: &ModelConfig,
)
    requires
        layer_fits(*cfg, rows),
    ensures
        final(gb).graph@ == old(gb).graph@ + pre_attn_nodes(*bw, *b, rows, *cfg),
{
    let ghost g = gb.graph@;
    let dim: u32 = cfg.dim;
    let norm = NormMeta { seq_len: rows, size: dim, eps: cfg.norm_eps };
    emit::rmsnorm_with(gb, b.hidden, bw.norm_1, b.norm_out, norm, b.norm_meta);
    let qkv = MatMulMeta { m: rows, n: dim * 3, k: dim };
    emit::matmul_with(gb, b.norm_out, bw.qkv_proj, b.qkv_out, qkv, b.qkv_proj_meta);
    let q = HeadMoveMeta::qkv_slice(rows, dim, 0);
    emit::head_gather_with(gb, b.qkv_out, b.q_buf, q, b.q_split_meta);
    let k = HeadMoveMeta::qkv_slice(rows, dim, dim);
    emit::head_gather_with(gb, b.qkv_out, b.k_buf, k, b.k_split_meta);
    let v = HeadMoveMeta::qkv_slice(rows, dim, 2 * dim);
    emit::head_gather_with(gb, b.qkv_out, b.v_buf, v, b.v_split_meta);
    assert(gb.graph@ =~= g + pre_attn_nodes(*bw, *b, rows, *cfg));
}

/// The buffers and metas of the part after the attention.
#[derive(Clone, Copy, Debug)]
pub struct PostAttn {
    pub hidden: Tensor,
    pub attn_out: Tensor,
    pub norm_out: Tensor,
    pub ffn_up_out: Tensor,
    pub out_proj_meta: Tensor,
    pub norm_meta: Tensor,
    pub ffnup_meta: Tensor,
    pub ffndown_meta: Tensor,
}

/// Projection, norm, up, SiLU, down; both residual additions are fused.
pub open spec fn post_attn_nodes(bw: BlockWeights, b: PostAttn, rows: u32, cfg: ModelConfig) -> Seq<
    NodeView,
> {
    let dim = cfg.dim;
    let hidden = cfg.ffn_hidden;
    seq![
        emit::matmul_add_node(
            b.attn_out,
            bw.out_proj,
            b.hidden,
            MatMulMeta { m: rows, n: dim, k: dim },
            b.out_proj_meta,
        ),
        emit::rmsnorm_node(b.hidden, bw.norm_2, b.norm_out, norm_shape(rows, cfg), b.norm_meta),
        emit::matmul_node(
            b.norm_out,
            bw.ffn_up,
            b.ffn_up_out,
            MatMulMeta { m: rows, n: hidden, k: dim },
            b.ffnup_meta,
        ),
        emit::silu_node(b.ffn_up_out, (rows * hidden) as u32),
        emit::matmul_add_node(
            b.ffn_up_out,
            bw.ffn_down,
            b.hidden,
            MatMulMeta { m: rows, n: dim, k: hidden },
            b.ffndown_meta,
        ),
    ]
}

/// Shared suffix of a transformer block. `hidden` is read and written in place:
/// both projections add to it.
pub fn block_post_attn<P: CachedPhase>(
    gb: &mut GraphBuilder<P>,
    bw: &BlockWeights,
    b: &PostAttn,
    rows: u32,
    cfg: &ModelConfig,
)
    requires
        layer_fits(*cfg, rows),
    ensures
        final(gb).graph@ == old(gb).graph@ + post_attn_nodes(*bw, *b, rows, *cfg),
{
    let ghost g = gb.graph@;
    let dim: u32 = cfg.dim;
    let hidden: u32 = cfg.ffn_hidden;
    assert(0 <= rows * hidden) by (nonlinear_arith);
    let out_proj = MatMulMeta { m: rows, n: dim, k: dim };
    emit::matmul_add_with(gb, b.attn_out, bw.out_proj, b.hidden, out_proj, b.out_proj_meta);
    let norm = NormMeta { seq_len: rows, size: dim, eps: cfg.norm_eps };
    emit::rmsnorm_with(gb, b.hidden, bw.norm_2, b.norm_out, norm, b.norm_meta);
    let up = MatMulMeta { m: rows, n: hidden, k: dim };
    emit::matmul_with(gb, b.norm_out, bw.ffn_up, b.ffn_up_out, up, b.ffnup_meta);
    emit::silu(gb, b.ffn_up_out, rows * hidden);
    let down = MatMulMeta { m: rows, n: dim, k: hidden };
    emit::matmul_add_with(gb, b.ffn_up_out, bw.ffn_down, b.hidden, down, b.ffndown_meta);
    assert(gb.graph@ =~= g + post_attn_nodes(*bw, *b, rows, *cfg));
}

// ---- prefill ----

/// The context and the dispatches that a prompt layer of `rows` rows leaves when
/// it starts in `c`. The result replaces `hidden` in place.
#[verifier::opaque]
pub open spec fn prefill_layer(
    c: Seq<Init>,
    bw: BlockWeights,
    hidden_in: Tensor,
    cache_k: Tensor,
    cache_v: Tensor,
    rows: u32,
    cfg: ModelConfig,
) -> (Seq<Init>, Seq<NodeView>) {
    let dim = cfg.dim;
    let hidden = cfg.ffn_hidden;
    let n = rows * dim;
    let rope = RopeMeta { seq_len: rows, dim, head_dim: cfg.spec_head_dim(), row_offset: 0 };
    let write = CacheWriteMeta { row_count: rows, width: dim, dst_row_offset: 0 };
    let flash = flash_over(cfg, rows);
    let norm1_out = device::next_zeros(c, n);
    let c0 = device::push_zeros(c, n);
    let qkv_out = device::next_zeros(c0, 3 * n);
    let c1 = device::push_zeros(c0, 3 * n);
    let q_buf = device::next_zeros(c1, n);
    let c2 = device::push_zeros(c1, n);
    let k_buf = device::next_zeros(c2, n);
    let c3 = device::push_zeros(c2, n);
    let v_buf = device::next_zeros(c3, n);
    let c4 = device::push_zeros(c3, n);
    let q_split_meta = device::next_meta(c4, HeadMoveMeta::spec_qkv_slice(rows, dim, 0).spec_meta());
    let c5 = device::push_meta(c4, HeadMoveMeta::spec_qkv_slice(rows, dim, 0).spec_meta());
    let k_split_meta = device::next_meta(c5, HeadMoveMeta::spec_qkv_slice(rows, dim, dim).spec_meta());
    let c6 = device::push_meta(c5, HeadMoveMeta::spec_qkv_slice(rows, dim, dim).spec_meta());
    let v_split_meta = device::next_meta(c6, HeadMoveMeta::spec_qkv_slice(rows, dim, (2 * dim) as u32).spec_meta());
    let c7 = device::push_meta(c6, HeadMoveMeta::spec_qkv_slice(rows, dim, (2 * dim) as u32).spec_meta());
    let norm1_meta = device::next_meta(c7, norm_shape(rows, cfg).spec_meta());
    let c8 = device::push_meta(c7, norm_shape(rows, cfg).spec_meta());
    let qkv_proj_meta = device::next_meta(c8, (MatMulMeta { m: rows, n: (dim * 3) as u32, k: dim }).spec_meta());
    let c9 = device::push_meta(c8, (MatMulMeta { m: rows, n: (dim * 3) as u32, k: dim }).spec_meta());
    let q_rope_meta = device::next_meta(c9, rope.spec_meta());
    let c10 = device::push_meta(c9, rope.spec_meta());
    let k_rope_meta = device::next_meta(c10, rope.spec_meta());
    let c11 = device::push_meta(c10, rope.spec_meta());
    let k_write_meta = device::next_meta(c11, write.spec_meta());
    let c12 = device::push_meta(c11, write.spec_meta());
    let v_write_meta = device::next_meta(c12, write.spec_meta());
    let c13 = device::push_meta(c12, write.spec_meta());
    let attn_out = device::next_zeros(c13, n);
    let c14 = device::push_zeros(c13, n);
    let l_cache = emit::flash_l_cache(c14, flash);
    let flash_meta = emit::flash_meta(c14, flash);
    let c15 = emit::flash_ctx(c14, flash);
    let norm2_out = device::next_zeros(c15, n);
    let c16 = device::push_zeros(c15, n);
    let ffn_up_out = device::next_zeros(c16, rows * hidden);
    let c17 = device::push_zeros(c16, rows * hidden);
    let out_proj_meta = device::next_meta(c17, (MatMulMeta { m: rows, n: dim, k: dim }).spec_meta());
    let c18 = device::push_meta(c17, (MatMulMeta { m: rows, n: dim, k: dim }).spec_meta());
    let norm2_meta = device::next_meta(c18, norm_shape(rows, cfg).spec_meta());
    let c19 = device::push_meta(c18, norm_shape(rows, cfg).spec_meta());
    let ffnup_meta = device::next_meta(c19, (MatMulMeta { m: rows, n: hidden, k: dim }).spec_meta());
    let c20 = device::push_meta(c19, (MatMulMeta { m: rows, n: hidden, k: dim }).spec_meta());
    let ffndown_meta = device::next_meta(c20, (MatMulMeta { m: rows, n: dim, k: hidden }).spec_meta());
    let c21 = device::push_meta(c20, (MatMulMeta { m: rows, n: dim, k: hidden }).spec_meta());
    let pre = PreAttn {
        hidden: hidden_in,
        norm_out: norm1_out,
        qkv_out,
        q_buf,
        k_buf,
        v_buf,
        norm_meta: norm1_meta,
        qkv_proj_meta,
        q_split_meta,
        k_split_meta,
        v_split_meta,
    };
    let post = PostAttn {
        hidden: hidden_in,
        attn_out,
        norm_out: norm2_out,
        ffn_up_out,
        out_proj_meta,
        norm_meta: norm2_meta,
        ffnup_meta,
        ffndown_meta,
    };
    (
        c21,
        pre_attn_nodes(bw, pre, rows, cfg) + seq![
            emit::rope_node(q_buf, rope, q_rope_meta),
            emit::rope_node(k_buf, rope, k_rope_meta),
            emit::cache_write_node(k_buf, cache_k, write, k_write_meta),
            emit::cache_write_node(v_buf, cache_v, write, v_write_meta),
            emit::flash_attention_node(q_buf, k_buf, v_buf, attn_out, l_cache, flash, flash_meta),
        ] + post_attn_nodes(bw, post, rows, cfg),
    )
}

/// Causal attention over `rows` rows.
pub open spec fn flash_over(cfg: ModelConfig, rows: u32) -> FlashAttnMeta {
    FlashAttnMeta {
        seq_len: rows,
        dim: cfg.dim,
        head_dim: cfg.spec_head_dim(),
        scale: Scalar::RecipSqrt(cfg.spec_head_dim()),
        row_offset: 0,
    }
}

/// Emits one layer over a whole prompt; keys and values go to the cache.
pub fn build_prefill_layer(
    ctx: &mut Context,
    gb: &mut GraphBuilder<Prefill>,
    bw: &BlockWeights,
    hidden_in: Tensor,
    cache_k: Tensor,
    cache_v: Tensor,
    prompt_len: u32,
    cfg: &ModelConfig,
) -> (r: Tensor)
    requires
        layer_fits(*cfg, prompt_len),
        emit::flash_fits(flash_over(*cfg, prompt_len)),
    ensures
        ({
            let p = prefill_layer(
                old(ctx)@,
                *bw,
                hidden_in,
                cache_k,
                cache_v,
                prompt_len,
                *cfg,
            );
            &&& final(ctx)@ == p.0
            &&& final(gb).graph@ == old(gb).graph@ + p.1
        }),
        r == hidden_in,
{
    let ghost c = ctx@;
    let ghost g = gb.graph@;
    let rows: u32 = prompt_len;
    let dim: u32 = cfg.dim;
    let hidden: u32 = cfg.ffn_hidden;
    let head_dim: u32 = cfg.head_dim();
    proof {
        assert(0 <= rows * dim && 0 <= rows * hidden && rows * dim * 3 == 3 * (rows * dim))
            by (nonlinear_arith);
    }
    let n: u32 = rows * dim;
    let norm = NormMeta { seq_len: rows, size: dim, eps: cfg.norm_eps };
    let rope = RopeMeta { seq_len: rows, dim, head_dim, row_offset: 0 };
    let write = CacheWriteMeta { row_count: rows, width: dim, dst_row_offset: 0 };
    let norm1_out = ctx.zeros(n);
    let qkv_out = ctx.zeros(n * 3);
    let q_buf = ctx.zeros(n);
    let k_buf = ctx.zeros(n);
    let v_buf = ctx.zeros(n);
    let q_split_meta = HeadMoveMeta::qkv_slice(rows, dim, 0).upload(ctx);
    let k_split_meta = HeadMoveMeta::qkv_slice(rows, dim, dim).upload(ctx);
    let v_split_meta = HeadMoveMeta::qkv_slice(rows, dim, 2 * dim).upload(ctx);
    let norm1_meta = norm.upload(ctx);
    let qkv_proj_meta = (MatMulMeta { m: rows, n: dim * 3, k: dim }).upload(ctx);
    let pre = PreAttn {
        hidden: hidden_in,
        norm_out: norm1_out,
        qkv_out,
        q_buf,
        k_buf,
        v_buf,
        norm_meta: norm1_meta,
        qkv_proj_meta,
        q_split_meta,
        k_split_meta,
        v_split_meta,
    };
    block_pre_attn(gb, bw, &pre, rows, cfg);
    emit::rope(ctx, gb, q_buf, rope);
    emit::rope(ctx, gb, k_buf, rope);
    emit::cache_write(ctx, gb, k_buf, cache_k, write);
    emit::cache_write(ctx, gb, v_buf, cache_v, write);
    let attn_out = ctx.zeros(n);
    let flash = FlashAttnMeta {
        seq_len: rows,
        dim,
        head_dim,
        scale: Scalar::RecipSqrt(head_dim),
        row_offset: 0,
    };
    let saved = emit::flash_attention(ctx, gb, q_buf, k_buf, v_buf, attn_out, flash);
    let norm2_out = ctx.zeros(n);
    let ffn_up_out = ctx.zeros(rows * hidden);
    let out_proj_meta = (MatMulMeta { m: rows, n: dim, k: dim }).upload(ctx);
    let norm2_meta = norm.upload(ctx);
    let ffnup_meta = (MatMulMeta { m: rows, n: hidden, k: dim }).upload(ctx);
    let ffndown_meta = (MatMulMeta { m: rows, n: dim, k: hidden }).upload(ctx);
    let post = PostAttn {
        hidden: hidden_in,
        attn_out,
        norm_out: norm2_out,
        ffn_up_out,
        out_proj_meta,
        norm_meta: norm2_meta,
        ffnup_meta,
        ffndown_meta,
    };
    block_post_attn(gb, bw, &post, rows, cfg);
    proof {
        reveal(prefill_layer);
        let p = prefill_layer(c, *bw, hidden_in, cache_k, cache_v, rows, *cfg);
        assert(gb.graph@ =~= g + p.1);
    }
    hidden_in
}

// ---- decode ----

/// The buffers of a decode layer's first part.
pub open spec fn scratch_pre(s: DecodeScratch) -> PreAttn {
    PreAttn {
        hidden: s.hidden,
        norm_out: s.norm_out,
        qkv_out: s.qkv_out,
        q_buf: s.q_buf,
        k_buf: s.k_buf,
        v_buf: s.v_buf,
        norm_meta: s.norm_meta,
        qkv_proj_meta: s.qkv_proj_meta,
        q_split_meta: s.q_split_meta,
        k_split_meta: s.k_split_meta,
        v_split_meta: s.v_split_meta,
    }
}

/// The buffers of a decode layer's last part.
pub open spec fn scratch_post(s: DecodeScratch) -> PostAttn {
    PostAttn {
        hidden: s.hidden,
        attn_out: s.attn_out,
        norm_out: s.norm_out,
        ffn_up_out: s.ffn_up_out,
        out_proj_meta: s.qkv_meta,
        norm_meta: s.norm_meta,
        ffnup_meta: s.ffnup_meta,
        ffndown_meta: s.ffndown_meta,
    }
}

/// The dispatches of a decode layer whose score grid spans `max_attn_len` rows.
pub open spec fn decode_layer(
    bw: BlockWeights,
    s: DecodeScratch,
    cache_k: Tensor,
    cache_v: Tensor,
    max_attn_len: u32,
    cfg: ModelConfig,
) -> Seq<NodeView> {
    pre_attn_nodes(bw, scratch_pre(s), 1, cfg) + seq![
        emit::rope_offset_node(s.q_buf, rope_at(cfg, 0), s.rope_meta),
        emit::rope_offset_node(s.k_buf, rope_at(cfg, 0), s.rope_meta),
        emit::cache_write_node(s.k_buf, cache_k, cache_row(cfg, 0), s.cache_write_meta),
        emit::cache_write_node(s.v_buf, cache_v, cache_row(cfg, 0), s.cache_write_meta),
        emit::attn_qk_cached_node(
            s.q_buf,
            cache_k,
            s.scores,
            cfg.num_heads,
            max_attn_len,
            s.attn_meta,
        ),
        emit::softmax_rect_node(s.scores, softmax_over(cfg, max_attn_len), s.softmax_meta),
        emit::attn_av_cached_node(s.scores, cache_v, s.attn_out, cfg.dim, s.attn_meta),
    ] + post_attn_nodes(bw, scratch_post(s), 1, cfg)
}

/// Emits one layer over a single new row: the row's key and value are written to
/// the cache before the attention reads it.
pub fn build_decode_layer(
    gb: &mut GraphBuilder<Decode>,
    bw: &BlockWeights,
    scratch: &DecodeScratch,
    cache_k: Tensor,
    cache_v: Tensor,
    max_attn_len: u32,
    cfg: &ModelConfig,
)
    requires
        layer_fits(*cfg, 1),
        max_attn_len + 255 <= u32::MAX,
    ensures
        final(gb).graph@ == old(gb).graph@ + decode_layer(
            *bw,
            *scratch,
            cache_k,
            cache_v,
            max_attn_len,
            *cfg,
        ),
{
    let ghost g = gb.graph@;
    let dim: u32 = cfg.dim;
    let head_dim: u32 = cfg.head_dim();
    let pre = PreAttn {
        hidden: scratch.hidden,
        norm_out: scratch.norm_out,
        qkv_out: scratch.qkv_out,
        q_buf: scratch.q_buf,
        k_buf: scratch.k_buf,
        v_buf: scratch.v_buf,
        norm_meta: scratch.norm_meta,
        qkv_proj_meta: scratch.qkv_proj_meta,
        q_split_meta: scratch.q_split_meta,
        k_split_meta: scratch.k_split_meta,
        v_split_meta: scratch.v_split_meta,
    };
    block_pre_attn(gb, bw, &pre, 1, cfg);
    let rope = RopeOffsetMeta { seq_len: 1, dim, head_dim, pos: 0 };
    emit::rope_offset_with(gb, scratch.q_buf, rope, scratch.rope_meta);
    emit::rope_offset_with(gb, scratch.k_buf, rope, scratch.rope_meta);
    let write = CacheWriteMeta { row_count: 1, width: dim, dst_row_offset: 0 };
    emit::cache_write_with(gb, scratch.k_buf, cache_k, write, scratch.cache_write_meta);
    emit::cache_write_with(gb, scratch.v_buf, cache_v, write, scratch.cache_write_meta);
    let scale = Scalar::RecipSqrt(head_dim);
    emit::attn_qk_cached_with(
        gb,
        scratch.q_buf,
        cache_k,
        scratch.scores,
        cfg.num_heads,
        max_attn_len,
        scratch.attn_meta,
    );
    let softmax = SoftmaxRectMeta { num_rows: cfg.num_heads, width: max_attn_len, scale };
    emit::softmax_rect_with(gb, scratch.scores, softmax, scratch.softmax_meta);
    emit::attn_av_cached_with(
        gb,
        scratch.scores,
        cache_v,
        scratch.attn_out,
        dim,
        scratch.attn_meta,
    );
    let post = PostAttn {
        hidden: scratch.hidden,
        attn_out: scratch.attn_out,
        norm_out: scratch.norm_out,
        ffn_up_out: scratch.ffn_up_out,
        out_proj_meta: scratch.qkv_meta,
        norm_meta: scratch.norm_meta,
        ffnup_meta: scratch.ffnup_meta,
        ffndown_meta: scratch.ffndown_meta,
    };
    block_post_attn(gb, bw, &post, 1, cfg);
    assert(gb.graph@ =~= g + decode_layer(*bw, *scratch, cache_k, cache_v, max_attn_len, *cfg));
}

/// A score grid over `max_attn_len` rows covers the `pos + 1` rows that the
/// cache holds at position `pos`, wherever `pos < max_attn_len`.
pub proof fn score_grid_covers_cache(pos: u32, max_attn_len: u32)
    requires
        pos < max_attn_len,
        max_attn_len + 255 <= u32::MAX,
    ensures
        emit::tiles(max_attn_len as int, 256) * 256 >= pos + 1,
{
}

} // verus!
