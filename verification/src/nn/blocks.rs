//! The transformer block in each of its three phases.
use super::arch;
use super::arch::{
    block_epilogue_specs, block_prologue_specs, one_input, Name, NodeSpec, NodeSpecView,
};
use super::cached::{
    CacheWriteOp, CachedAttentionOp, DecodeOp, DecodeOpView, HeadGatherOp, PrefillOp, PrefillOpView,
    RopeOffsetOp,
};
use super::full_seq::{AttentionOp, AttentionOpView, QkvSplitOp, RopeQkOp, TrainOp, TrainOpView};
use super::kernels::emit;
use super::kernels::meta::FlashAttnMeta;
use super::kernels::{Decode, Prefill, Train};
use super::weights::BlockWeights;
use crate::config::ModelConfig;
use crate::device::{Context, Init, Scalar, Tensor};
use vstd::prelude::*;

verus! {

/// The attention shape of one sequence of `seq_len` rows.
pub open spec fn flash_shape(seq_len: u32, dim: u32, head_dim: u32) -> FlashAttnMeta {
    FlashAttnMeta {
        seq_len,
        dim,
        head_dim,
        scale: Scalar::RecipSqrt(head_dim),
        row_offset: 0,
    }
}

/// The configurations on which a full-sequence block works: `batch` sequences
/// of `seq_len` rows.
pub open spec fn full_fits(cfg: ModelConfig, bw: BlockWeights, seq_len: u32, batch: u32) -> bool {
    &&& cfg.num_heads > 0
    &&& batch * seq_len <= u32::MAX
    &&& arch::sizes_ok((batch * seq_len) as u32, cfg.dim, cfg.ffn_hidden)
    &&& arch::weights_ok(bw)
    &&& emit::flash_fits(flash_shape(seq_len, cfg.dim, cfg.spec_head_dim()))
}

// ---- train ----

/// The specs of a training block, started in `c`.
#[verifier::opaque]
pub open spec fn train_build(c: Seq<Init>, bw: BlockWeights, cfg: ModelConfig) -> (
    Seq<Init>,
    Seq<NodeSpecView<TrainOpView>>,
) {
    let rows = (cfg.batch_size * cfg.seq_len) as u32;
    let hd = cfg.spec_head_dim();
    let (c1, pro) = arch::prologue::<TrainOp>(c, bw, rows, cfg.dim, cfg.norm_eps);
    let (c2, split) = QkvSplitOp::build(c1, rows, cfg.dim);
    let rope = RopeQkOp::build(cfg.seq_len, cfg.dim, hd, cfg.batch_size);
    let (c3, attn) = AttentionOpView::build(c2, cfg.seq_len, cfg.dim, hd, cfg.batch_size);
    let (c4, epi) = arch::epilogue::<TrainOp>(c3, bw, rows, cfg.dim, cfg.ffn_hidden, cfg.norm_eps);
    (
        c4,
        pro + seq![
            NodeSpecView {
                name: Name::Split,
                inputs: seq![(Name::Qkv, 0usize)],
                op: TrainOpView::QkvSplit(split),
            },
            NodeSpecView {
                name: Name::Rope,
                inputs: seq![(Name::Split, 0usize), (Name::Split, 1usize)],
                op: TrainOpView::RopeQk(rope),
            },
            NodeSpecView {
                name: Name::Attn,
                inputs: seq![(Name::Rope, 0usize), (Name::Rope, 1usize), (Name::Split, 2usize)],
                op: TrainOpView::Attention(attn),
            },
        ] + epi,
    )
}

/// Number of nodes of a training block.
pub const TRAIN_NODES: usize = 12;

pub proof fn lemma_train_wired(c: Seq<Init>, bw: BlockWeights, cfg: ModelConfig)
    requires
        full_fits(cfg, bw, cfg.seq_len, cfg.batch_size),
    ensures
        ({
            let s = train_build(c, bw, cfg).1;
            &&& s.len() == TRAIN_NODES
            &&& arch::wired::<Train, TrainOp>(s)
            &&& s[6].name == Name::Add1
            &&& s[6].inputs == seq![(Name::Input, 0usize), (Name::Proj, 0usize)]
            &&& s[6].op is Add
            &&& s[11].name == Name::Add2
            &&& s[11].inputs == seq![(Name::Add1, 0usize), (Name::Down, 0usize)]
            &&& s[11].op is Add
        }),
{
    reveal(train_build);
    let s = train_build(c, bw, cfg).1;
    let rows = (cfg.batch_size * cfg.seq_len) as u32;
    arch::lemma_sizes(rows, cfg.dim, cfg.ffn_hidden);
    assert(cfg.seq_len * cfg.batch_size == cfg.batch_size * cfg.seq_len) by (nonlinear_arith);
    assert(arch::provides::<Train, TrainOp>(s, 1, 0, (Name::N1, 0usize)));
    assert(arch::provides::<Train, TrainOp>(s, 2, 1, (Name::Qkv, 0usize)));
    assert(arch::provides::<Train, TrainOp>(s, 3, 2, (Name::Split, 0usize)));
    assert(arch::provides::<Train, TrainOp>(s, 3, 2, (Name::Split, 1usize)));
    assert(arch::provides::<Train, TrainOp>(s, 4, 3, (Name::Rope, 0usize)));
    assert(arch::provides::<Train, TrainOp>(s, 4, 3, (Name::Rope, 1usize)));
    assert(arch::provides::<Train, TrainOp>(s, 4, 2, (Name::Split, 2usize)));
    assert(arch::provides::<Train, TrainOp>(s, 5, 4, (Name::Attn, 0usize)));
    assert(arch::provides::<Train, TrainOp>(s, 6, 5, (Name::Proj, 0usize)));
    assert(arch::provides::<Train, TrainOp>(s, 7, 6, (Name::Add1, 0usize)));
    assert(arch::provides::<Train, TrainOp>(s, 8, 7, (Name::N2, 0usize)));
    assert(arch::provides::<Train, TrainOp>(s, 9, 8, (Name::Up, 0usize)));
    assert(arch::provides::<Train, TrainOp>(s, 10, 9, (Name::Silu, 0usize)));
    assert(arch::provides::<Train, TrainOp>(s, 11, 6, (Name::Add1, 0usize)));
    assert(arch::provides::<Train, TrainOp>(s, 11, 10, (Name::Down, 0usize)));
}

/// The names of a training block's nodes, in order.
pub open spec fn train_name(k: int) -> Name {
    if k == 0 {
        Name::N1
    } else if k == 1 {
        Name::Qkv
    } else if k == 2 {
        Name::Split
    } else if k == 3 {
        Name::Rope
    } else if k == 4 {
        Name::Attn
    } else if k == 5 {
        Name::Proj
    } else if k == 6 {
        Name::Add1
    } else if k == 7 {
        Name::N2
    } else if k == 8 {
        Name::Up
    } else if k == 9 {
        Name::Silu
    } else if k == 10 {
        Name::Down
    } else {
        Name::Add2
    }
}

/// What each node of a training block takes in.
pub open spec fn train_inputs(k: int) -> Seq<(Name, usize)> {
    if k == 0 {
        seq![(Name::Input, 0usize)]
    } else if k == 3 {
        seq![(Name::Split, 0usize), (Name::Split, 1usize)]
    } else if k == 4 {
        seq![(Name::Rope, 0usize), (Name::Rope, 1usize), (Name::Split, 2usize)]
    } else if k == 6 {
        seq![(Name::Input, 0usize), (Name::Proj, 0usize)]
    } else if k == 11 {
        seq![(Name::Add1, 0usize), (Name::Down, 0usize)]
    } else {
        seq![(train_name(k - 1), 0usize)]
    }
}

pub proof fn lemma_train_inputs(c: Seq<Init>, bw: BlockWeights, cfg: ModelConfig)
    ensures
        ({
            let s = train_build(c, bw, cfg).1;
            &&& s.len() == TRAIN_NODES
            &&& forall|k: int|
                0 <= k < TRAIN_NODES ==> (#[trigger] s[k]).name == train_name(k) && s[k].inputs
                    == train_inputs(k)
        }),
{
    reveal(train_build);
    let s = train_build(c, bw, cfg).1;
    assert forall|k: int| 0 <= k < TRAIN_NODES implies (#[trigger] s[k]).name == train_name(k)
        && s[k].inputs == train_inputs(k) by {
        assert(s[k].inputs =~= train_inputs(k));
    }
}

/// The node specs of a training block.
pub fn transformer_block_specs(ctx: &mut Context, bw: &BlockWeights, cfg: &ModelConfig) -> (r: Vec<
    NodeSpec<TrainOp>,
>)
    requires
        full_fits(*cfg, *bw, cfg.seq_len, cfg.batch_size),
    ensures
        (final(ctx)@, arch::spec_views(r@)) == train_build(old(ctx)@, *bw, *cfg),
{
    let ghost c = ctx@;
    let dim: u32 = cfg.dim;
    let head_dim: u32 = cfg.head_dim();
    let rows: u32 = cfg.batch_size * cfg.seq_len;
    proof {
        arch::lemma_sizes(rows, dim, cfg.ffn_hidden);
        assert(cfg.seq_len * cfg.batch_size == cfg.batch_size * cfg.seq_len) by (nonlinear_arith);
    }
    let mut specs = block_prologue_specs(ctx, bw, rows, dim, cfg.norm_eps);
    let ghost pro = arch::spec_views(specs@);
    let split = QkvSplitOp::new(ctx, rows, dim);
    let rope = RopeQkOp::new(cfg.seq_len, dim, head_dim, cfg.batch_size);
    let attn = AttentionOp::new(ctx, cfg.seq_len, dim, head_dim, cfg.batch_size);
    let ghost attn_view = attn@;
    specs.push(
        NodeSpec {
            name: Name::Split,
            inputs: one_input((Name::Qkv, 0)),
            op: TrainOp::QkvSplit(split),
        },
    );
    specs.push(
        NodeSpec {
            name: Name::Rope,
            inputs: vec![(Name::Split, 0), (Name::Split, 1)],
            op: TrainOp::RopeQk(rope),
        },
    );
    specs.push(
        NodeSpec {
            name: Name::Attn,
            inputs: vec![(Name::Rope, 0), (Name::Rope, 1), (Name::Split, 2)],
            op: TrainOp::Attention(attn),
        },
    );
    let ghost mid = specs@;
    let mut tail = block_epilogue_specs(ctx, bw, rows, dim, cfg.ffn_hidden, cfg.norm_eps);
    let ghost epi = arch::spec_views(tail@);
    specs.append(&mut tail);
    proof {
        reveal(train_build);
        let want = pro + seq![
            NodeSpecView {
                name: Name::Split,
                inputs: seq![(Name::Qkv, 0usize)],
                op: TrainOpView::QkvSplit(split),
            },
            NodeSpecView {
                name: Name::Rope,
                inputs: seq![(Name::Split, 0usize), (Name::Split, 1usize)],
                op: TrainOpView::RopeQk(rope),
            },
            NodeSpecView {
                name: Name::Attn,
                inputs: seq![(Name::Rope, 0usize), (Name::Rope, 1usize), (Name::Split, 2usize)],
                op: TrainOpView::Attention(attn_view),
            },
        ] + epi;
        assert(arch::spec_views(specs@) =~= want);
    }
    specs
}

// ---- prefill ----

/// The specs of a prefill block over `prompt_len` rows, started in `c`. Keys and
/// values go through the cache on their way to the attention.
#[verifier::opaque]
pub open spec fn prefill_build(
    c: Seq<Init>,
    bw: BlockWeights,
    cache_k: Tensor,
    cache_v: Tensor,
    cfg: ModelConfig,
    prompt_len: u32,
) -> (Seq<Init>, Seq<NodeSpecView<PrefillOpView>>) {
    let hd = cfg.spec_head_dim();
    let (c1, pro) = arch::prologue::<PrefillOp>(c, bw, prompt_len, cfg.dim, cfg.norm_eps);
    let (c2, split) = QkvSplitOp::build(c1, prompt_len, cfg.dim);
    let rope = RopeQkOp::build(prompt_len, cfg.dim, hd, 1);
    let (c3, k_written) = CacheWriteOp::build(c2, cache_k, prompt_len, cfg.dim);
    let (c4, v_written) = CacheWriteOp::build(c3, cache_v, prompt_len, cfg.dim);
    let (c5, attn) = AttentionOpView::build(c4, prompt_len, cfg.dim, hd, 1);
    let (c6, epi) = arch::epilogue::<PrefillOp>(
        c5,
        bw,
        prompt_len,
        cfg.dim,
        cfg.ffn_hidden,
        cfg.norm_eps,
    );
    (
        c6,
        pro + seq![
            NodeSpecView {
                name: Name::Split,
                inputs: seq![(Name::Qkv, 0usize)],
                op: PrefillOpView::QkvSplit(split),
            },
            NodeSpecView {
                name: Name::Rope,
                inputs: seq![(Name::Split, 0usize), (Name::Split, 1usize)],
                op: PrefillOpView::RopeQk(rope),
            },
            NodeSpecView {
                name: Name::KWritten,
                inputs: seq![(Name::Rope, 1usize)],
                op: PrefillOpView::CacheWrite(k_written),
            },
            NodeSpecView {
                name: Name::VWritten,
                inputs: seq![(Name::Split, 2usize)],
                op: PrefillOpView::CacheWrite(v_written),
            },
            NodeSpecView {
                name: Name::Attn,
                inputs: seq![
                    (Name::Rope, 0usize),
                    (Name::KWritten, 0usize),
                    (Name::VWritten, 0usize),
                ],
                op: PrefillOpView::Attention(attn),
            },
        ] + epi,
    )
}

/// Number of nodes of a prefill block.
pub const PREFILL_NODES: usize = 14;

pub proof fn lemma_prefill_wired(
    c: Seq<Init>,
    bw: BlockWeights,
    cache_k: Tensor,
    cache_v: Tensor,
    cfg: ModelConfig,
    prompt_len: u32,
)
    requires
        full_fits(cfg, bw, prompt_len, 1),
    ensures
        ({
            let s = prefill_build(c, bw, cache_k, cache_v, cfg, prompt_len).1;
            &&& s.len() == PREFILL_NODES
            &&& arch::wired::<Prefill, PrefillOp>(s)
            &&& s[13].name == Name::Add2
            &&& s[13].op is Add
        }),
{
    reveal(prefill_build);
    let s = prefill_build(c, bw, cache_k, cache_v, cfg, prompt_len).1;
    arch::lemma_sizes(prompt_len, cfg.dim, cfg.ffn_hidden);
    assert(arch::provides::<Prefill, PrefillOp>(s, 1, 0, (Name::N1, 0usize)));
    assert(arch::provides::<Prefill, PrefillOp>(s, 2, 1, (Name::Qkv, 0usize)));
    assert(arch::provides::<Prefill, PrefillOp>(s, 3, 2, (Name::Split, 0usize)));
    assert(arch::provides::<Prefill, PrefillOp>(s, 3, 2, (Name::Split, 1usize)));
    assert(arch::provides::<Prefill, PrefillOp>(s, 4, 3, (Name::Rope, 1usize)));
    assert(arch::provides::<Prefill, PrefillOp>(s, 5, 2, (Name::Split, 2usize)));
    assert(arch::provides::<Prefill, PrefillOp>(s, 6, 3, (Name::Rope, 0usize)));
    assert(arch::provides::<Prefill, PrefillOp>(s, 6, 4, (Name::KWritten, 0usize)));
    assert(arch::provides::<Prefill, PrefillOp>(s, 6, 5, (Name::VWritten, 0usize)));
    assert(arch::provides::<Prefill, PrefillOp>(s, 7, 6, (Name::Attn, 0usize)));
    assert(arch::provides::<Prefill, PrefillOp>(s, 8, 7, (Name::Proj, 0usize)));
    assert(arch::provides::<Prefill, PrefillOp>(s, 9, 8, (Name::Add1, 0usize)));
    assert(arch::provides::<Prefill, PrefillOp>(s, 10, 9, (Name::N2, 0usize)));
    assert(arch::provides::<Prefill, PrefillOp>(s, 11, 10, (Name::Up, 0usize)));
    assert(arch::provides::<Prefill, PrefillOp>(s, 12, 11, (Name::Silu, 0usize)));
    assert(arch::provides::<Prefill, PrefillOp>(s, 13, 8, (Name::Add1, 0usize)));
    assert(arch::provides::<Prefill, PrefillOp>(s, 13, 12, (Name::Down, 0usize)));
}

/// The node specs of a prefill block.
pub fn prefill_block_specs(
    ctx: &mut Context,
    bw: &BlockWeights,
    cache_k: Tensor,
    cache_v: Tensor,
    cfg: &ModelConfig,
    prompt_len: u32,
) -> (r: Vec<NodeSpec<PrefillOp>>)
    requires
        full_fits(*cfg, *bw, prompt_len, 1),
    ensures
        (final(ctx)@, arch::spec_views(r@)) == prefill_build(
            old(ctx)@,
            *bw,
            cache_k,
            cache_v,
            *cfg,
            prompt_len,
        ),
{
    let ghost c = ctx@;
    let dim: u32 = cfg.dim;
    let head_dim: u32 = cfg.head_dim();
    proof {
        arch::lemma_sizes(prompt_len, dim, cfg.ffn_hidden);
    }
    let mut specs = block_prologue_specs(ctx, bw, prompt_len, dim, cfg.norm_eps);
    let ghost pro = arch::spec_views(specs@);
    let split = QkvSplitOp::new(ctx, prompt_len, dim);
    let rope = RopeQkOp::new(prompt_len, dim, head_dim, 1);
    let k_written = CacheWriteOp::new(ctx, cache_k, prompt_len, dim);
    let v_written = CacheWriteOp::new(ctx, cache_v, prompt_len, dim);
    let attn = AttentionOp::new(ctx, prompt_len, dim, head_dim, 1);
    let ghost attn_view = attn@;
    specs.push(
        NodeSpec {
            name: Name::Split,
            inputs: one_input((Name::Qkv, 0)),
            op: PrefillOp::QkvSplit(split),
        },
    );
    specs.push(
        NodeSpec {
            name: Name::Rope,
            inputs: vec![(Name::Split, 0), (Name::Split, 1)],
            op: PrefillOp::RopeQk(rope),
        },
    );
    specs.push(
        NodeSpec {
            name: Name::KWritten,
            inputs: one_input((Name::Rope, 1)),
            op: PrefillOp::CacheWrite(k_written),
        },
    );
    specs.push(
        NodeSpec {
            name: Name::VWritten,
            inputs: one_input((Name::Split, 2)),
            op: PrefillOp::CacheWrite(v_written),
        },
    );
    specs.push(
        NodeSpec {
            name: Name::Attn,
            inputs: vec![(Name::Rope, 0), (Name::KWritten, 0), (Name::VWritten, 0)],
            op: PrefillOp::Attention(attn),
        },
    );
    let mut tail = block_epilogue_specs(ctx, bw, prompt_len, dim, cfg.ffn_hidden, cfg.norm_eps);
    let ghost epi = arch::spec_views(tail@);
    specs.append(&mut tail);
    proof {
        reveal(prefill_build);
        let want = pro + seq![
            NodeSpecView {
                name: Name::Split,
                inputs: seq![(Name::Qkv, 0usize)],
                op: PrefillOpView::QkvSplit(split),
            },
            NodeSpecView {
                name: Name::Rope,
                inputs: seq![(Name::Split, 0usize), (Name::Split, 1usize)],
                op: PrefillOpView::RopeQk(rope),
            },
            NodeSpecView {
                name: Name::KWritten,
                inputs: seq![(Name::Rope, 1usize)],
                op: PrefillOpView::CacheWrite(k_written),
            },
            NodeSpecView {
                name: Name::VWritten,
                inputs: seq![(Name::Split, 2usize)],
                op: PrefillOpView::CacheWrite(v_written),
            },
            NodeSpecView {
                name: Name::Attn,
                inputs: seq![
                    (Name::Rope, 0usize),
                    (Name::KWritten, 0usize),
                    (Name::VWritten, 0usize),
                ],
                op: PrefillOpView::Attention(attn_view),
            },
        ] + epi;
        assert(arch::spec_views(specs@) =~= want);
    }
    specs
}

// ---- decode ----

/// The configurations on which a one-row decode block works.
pub open spec fn decode_fits(cfg: ModelConfig, bw: BlockWeights, max_context_len: u32) -> bool {
    &&& cfg.num_heads > 0
    &&& cfg.spec_head_dim() > 0
    &&& arch::sizes_ok(1, cfg.dim, cfg.ffn_hidden)
    &&& arch::weights_ok(bw)
    &&& cfg.num_heads + 255 <= u32::MAX
    &&& max_context_len + 255 <= u32::MAX
    &&& cfg.num_heads * max_context_len <= u32::MAX
}

/// The specs of a decode block, started in `c`. The new key and value are
/// written to the cache before the attention reads it.
#[verifier::opaque]
pub open spec fn decode_build(
    c: Seq<Init>,
    bw: BlockWeights,
    cache_k: Tensor,
    cache_v: Tensor,
    cfg: ModelConfig,
    max_context_len: u32,
) -> (Seq<Init>, Seq<NodeSpecView<DecodeOpView>>) {
    let dim = cfg.dim;
    let hd = cfg.spec_head_dim();
    let (c1, pro) = arch::prologue::<DecodeOp>(c, bw, 1, dim, cfg.norm_eps);
    let (c2, q) = HeadGatherOp::build(c1, dim, 0);
    let (c3, k) = HeadGatherOp::build(c2, dim, dim);
    let (c4, v) = HeadGatherOp::build(c3, dim, (2 * dim) as u32);
    let (c5, rope_q) = RopeOffsetOp::build(c4, dim, hd);
    let (c6, rope_k) = RopeOffsetOp::build(c5, dim, hd);
    let (c7, k_written) = CacheWriteOp::build(c6, cache_k, 1, dim);
    let (c8, v_written) = CacheWriteOp::build(c7, cache_v, 1, dim);
    let (c9, attn) = CachedAttentionOp::build(
        c8,
        cache_k,
        cache_v,
        cfg.num_heads,
        dim,
        hd,
        max_context_len,
    );
    let (c10, epi) = arch::epilogue::<DecodeOp>(c9, bw, 1, dim, cfg.ffn_hidden, cfg.norm_eps);
    (
        c10,
        pro + seq![
            NodeSpecView {
                name: Name::Q,
                inputs: seq![(Name::Qkv, 0usize)],
                op: DecodeOpView::HeadGather(q),
            },
            NodeSpecView {
                name: Name::K,
                inputs: seq![(Name::Qkv, 0usize)],
                op: DecodeOpView::HeadGather(k),
            },
            NodeSpecView {
                name: Name::V,
                inputs: seq![(Name::Qkv, 0usize)],
                op: DecodeOpView::HeadGather(v),
            },
            NodeSpecView {
                name: Name::RopeQ,
                inputs: seq![(Name::Q, 0usize)],
                op: DecodeOpView::RopeOffset(rope_q),
            },
            NodeSpecView {
                name: Name::RopeK,
                inputs: seq![(Name::K, 0usize)],
                op: DecodeOpView::RopeOffset(rope_k),
            },
            NodeSpecView {
                name: Name::KWritten,
                inputs: seq![(Name::RopeK, 0usize)],
                op: DecodeOpView::CacheWrite(k_written),
            },
            NodeSpecView {
                name: Name::VWritten,
                inputs: seq![(Name::V, 0usize)],
                op: DecodeOpView::CacheWrite(v_written),
            },
            NodeSpecView {
                name: Name::Attn,
                inputs: seq![(Name::RopeQ, 0usize)],
                op: DecodeOpView::CachedAttention(attn),
            },
        ] + epi,
    )
}

/// Number of nodes of a decode block.
pub const DECODE_NODES: usize = 17;

pub proof fn lemma_decode_wired(
    c: Seq<Init>,
    bw: BlockWeights,
    cache_k: Tensor,
    cache_v: Tensor,
    cfg: ModelConfig,
    max_context_len: u32,
)
    requires
        decode_fits(cfg, bw, max_context_len),
    ensures
        ({
            let s = decode_build(c, bw, cache_k, cache_v, cfg, max_context_len).1;
            &&& s.len() == DECODE_NODES
            &&& arch::wired::<Decode, DecodeOp>(s)
            &&& s[16].name == Name::Add2
            &&& s[16].op is Add
        }),
{
    reveal(decode_build);
    let s = decode_build(c, bw, cache_k, cache_v, cfg, max_context_len).1;
    arch::lemma_sizes(1, cfg.dim, cfg.ffn_hidden);
    assert(arch::provides::<Decode, DecodeOp>(s, 1, 0, (Name::N1, 0usize)));
    assert(arch::provides::<Decode, DecodeOp>(s, 2, 1, (Name::Qkv, 0usize)));
    assert(arch::provides::<Decode, DecodeOp>(s, 3, 1, (Name::Qkv, 0usize)));
    assert(arch::provides::<Decode, DecodeOp>(s, 4, 1, (Name::Qkv, 0usize)));
    assert(arch::provides::<Decode, DecodeOp>(s, 5, 2, (Name::Q, 0usize)));
    assert(arch::provides::<Decode, DecodeOp>(s, 6, 3, (Name::K, 0usize)));
    assert(arch::provides::<Decode, DecodeOp>(s, 7, 6, (Name::RopeK, 0usize)));
    assert(arch::provides::<Decode, DecodeOp>(s, 8, 4, (Name::V, 0usize)));
    assert(arch::provides::<Decode, DecodeOp>(s, 9, 5, (Name::RopeQ, 0usize)));
    assert(arch::provides::<Decode, DecodeOp>(s, 10, 9, (Name::Attn, 0usize)));
    assert(arch::provides::<Decode, DecodeOp>(s, 11, 10, (Name::Proj, 0usize)));
    assert(arch::provides::<Decode, DecodeOp>(s, 12, 11, (Name::Add1, 0usize)));
    assert(arch::provides::<Decode, DecodeOp>(s, 13, 12, (Name::N2, 0usize)));
    assert(arch::provides::<Decode, DecodeOp>(s, 14, 13, (Name::Up, 0usize)));
    assert(arch::provides::<Decode, DecodeOp>(s, 15, 14, (Name::Silu, 0usize)));
    assert(arch::provides::<Decode, DecodeOp>(s, 16, 11, (Name::Add1, 0usize)));
    assert(arch::provides::<Decode, DecodeOp>(s, 16, 15, (Name::Down, 0usize)));
}

/// The node specs of a decode block.
pub fn decode_block_specs(
    ctx: &mut Context,
    bw: &BlockWeights,
    cache_k: Tensor,
    cache_v: Tensor,
    cfg: &ModelConfig,
    max_context_len: u32,
) -> (r: Vec<NodeSpec<DecodeOp>>)
    requires
        decode_fits(*cfg, *bw, max_context_len),
    ensures
        (final(ctx)@, arch::spec_views(r@)) == decode_build(
            old(ctx)@,
            *bw,
            cache_k,
            cache_v,
            *cfg,
            max_context_len,
        ),
{
    let ghost c = ctx@;
    let dim: u32 = cfg.dim;
    let head_dim: u32 = cfg.head_dim();
    let mut specs = block_prologue_specs(ctx, bw, 1, dim, cfg.norm_eps);
    let ghost pro = arch::spec_views(specs@);
    let q = HeadGatherOp::new(ctx, dim, 0);
    let k = HeadGatherOp::new(ctx, dim, dim);
    let v = HeadGatherOp::new(ctx, dim, 2 * dim);
    let rope_q = RopeOffsetOp::new(ctx, dim, head_dim);
    let rope_k = RopeOffsetOp::new(ctx, dim, head_dim);
    let k_written = CacheWriteOp::new(ctx, cache_k, 1, dim);
    let v_written = CacheWriteOp::new(ctx, cache_v, 1, dim);
    let attn = CachedAttentionOp::new(
        ctx,
        cache_k,
        cache_v,
        cfg.num_heads,
        dim,
        head_dim,
        max_context_len,
    );
    specs.push(
        NodeSpec { name: Name::Q, inputs: one_input((Name::Qkv, 0)), op: DecodeOp::HeadGather(q) },
    );
    specs.push(
        NodeSpec { name: Name::K, inputs: one_input((Name::Qkv, 0)), op: DecodeOp::HeadGather(k) },
    );
    specs.push(
        NodeSpec { name: Name::V, inputs: one_input((Name::Qkv, 0)), op: DecodeOp::HeadGather(v) },
    );
    specs.push(
        NodeSpec {
            name: Name::RopeQ,
            inputs: one_input((Name::Q, 0)),
            op: DecodeOp::RopeOffset(rope_q),
        },
    );
    specs.push(
        NodeSpec {
            name: Name::RopeK,
            inputs: one_input((Name::K, 0)),
            op: DecodeOp::RopeOffset(rope_k),
        },
    );
    specs.push(
        NodeSpec {
            name: Name::KWritten,
            inputs: one_input((Name::RopeK, 0)),
            op: DecodeOp::CacheWrite(k_written),
        },
    );
    specs.push(
        NodeSpec {
            name: Name::VWritten,
            inputs: one_input((Name::V, 0)),
            op: DecodeOp::CacheWrite(v_written),
        },
    );
    specs.push(
        NodeSpec {
            name: Name::Attn,
            inputs: one_input((Name::RopeQ, 0)),
            op: DecodeOp::CachedAttention(attn),
        },
    );
    let mut tail = block_epilogue_specs(ctx, bw, 1, dim, cfg.ffn_hidden, cfg.norm_eps);
    let ghost epi = arch::spec_views(tail@);
    specs.append(&mut tail);
    proof {
        reveal(decode_build);
        let want = pro + seq![
            NodeSpecView {
                name: Name::Q,
                inputs: seq![(Name::Qkv, 0usize)],
                op: DecodeOpView::HeadGather(q),
            },
            NodeSpecView {
                name: Name::K,
                inputs: seq![(Name::Qkv, 0usize)],
                op: DecodeOpView::HeadGather(k),
            },
            NodeSpecView {
                name: Name::V,
                inputs: seq![(Name::Qkv, 0usize)],
                op: DecodeOpView::HeadGather(v),
            },
            NodeSpecView {
                name: Name::RopeQ,
                inputs: seq![(Name::Q, 0usize)],
                op: DecodeOpView::RopeOffset(rope_q),
            },
            NodeSpecView {
                name: Name::RopeK,
                inputs: seq![(Name::K, 0usize)],
                op: DecodeOpView::RopeOffset(rope_k),
            },
            NodeSpecView {
                name: Name::KWritten,
                inputs: seq![(Name::RopeK, 0usize)],
                op: DecodeOpView::CacheWrite(k_written),
            },
            NodeSpecView {
                name: Name::VWritten,
                inputs: seq![(Name::V, 0usize)],
                op: DecodeOpView::CacheWrite(v_written),
            },
            NodeSpecView {
                name: Name::Attn,
                inputs: seq![(Name::RopeQ, 0usize)],
                op: DecodeOpView::CachedAttention(attn),
            },
        ] + epi;
        assert(arch::spec_views(specs@) =~= want);
    }
    specs
}

// ---- laws ----

/// The weight that an op of a training block applies.
pub open spec fn train_weight(v: TrainOpView) -> Option<Tensor> {
    match v {
        TrainOpView::Linear(op) => Some(op.weight),
        TrainOpView::RmsNorm(op) => Some(op.weight),
        TrainOpView::Embedding(op) => Some(op.table),
        _ => None,
    }
}

/// The weight that an op of a prefill block applies.
pub open spec fn prefill_weight(v: PrefillOpView) -> Option<Tensor> {
    match v {
        PrefillOpView::Linear(op) => Some(op.weight),
        PrefillOpView::RmsNorm(op) => Some(op.weight),
        PrefillOpView::Embedding(op) => Some(op.table),
        _ => None,
    }
}

/// The weight that an op of a decode block applies.
pub open spec fn decode_weight(v: DecodeOpView) -> Option<Tensor> {
    match v {
        DecodeOpView::Linear(op) => Some(op.weight),
        DecodeOpView::RmsNorm(op) => Some(op.weight),
        DecodeOpView::Embedding(op) => Some(op.table),
        _ => None,
    }
}

/// The weight that node `k` of a block applies, where the output projection is
/// node `proj`.
pub open spec fn weight_at(bw: BlockWeights, proj: int, k: int) -> Option<Tensor> {
    if k == 0 {
        Some(bw.norm_1)
    } else if k == 1 {
        Some(bw.qkv_proj)
    } else if k == proj {
        Some(bw.out_proj)
    } else if k == proj + 2 {
        Some(bw.norm_2)
    } else if k == proj + 3 {
        Some(bw.ffn_up)
    } else if k == proj + 5 {
        Some(bw.ffn_down)
    } else {
        None
    }
}

/// Training, prefill and decode apply the same weights in the same order; they
/// differ only in how queries, keys and values reach attention.
pub proof fn phases_share_weights(
    c: Seq<Init>,
    bw: BlockWeights,
    cfg: ModelConfig,
    cache_k: Tensor,
    cache_v: Tensor,
    prompt_len: u32,
    max_context_len: u32,
)
    ensures
        ({
            let train = train_build(c, bw, cfg).1;
            let prefill = prefill_build(c, bw, cache_k, cache_v, cfg, prompt_len).1;
            let decode = decode_build(c, bw, cache_k, cache_v, cfg, max_context_len).1;
            &&& train.len() == TRAIN_NODES
            &&& prefill.len() == PREFILL_NODES
            &&& decode.len() == DECODE_NODES
            &&& forall|k: int|
                0 <= k < train.len() ==> train_weight((#[trigger] train[k]).op) == weight_at(bw, 5, k)
            &&& forall|k: int|
                0 <= k < prefill.len() ==> prefill_weight((#[trigger] prefill[k]).op) == weight_at(
                    bw,
                    7,
                    k,
                )
            &&& forall|k: int|
                0 <= k < decode.len() ==> decode_weight((#[trigger] decode[k]).op) == weight_at(
                    bw,
                    10,
                    k,
                )
        }),
{
    reveal(train_build);
    reveal(prefill_build);
    reveal(decode_build);
}

} // verus!
