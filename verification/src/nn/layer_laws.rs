//! What a layer with a key-value cache computes. Prefill and decode leave the same
//! transformer block behind: attention behind the first norm and the feed-forward
//! layers behind the second, each added to the residual stream.
use super::cache::CacheView;
use super::inference;
use super::inference_graphs::{self, DecodeScratch};
use super::kernels::emit;
use super::kernels::meta::{
    AttnCachedMeta, CacheWriteMeta, EmbeddingMeta, FlashAttnMeta, HeadMoveMeta, MatMulMeta, Meta,
    NormMeta, SoftmaxRectMeta,
};
use super::meaning::{self, Memory, Term, Turn};
use super::weights::{BlockWeights, ModelWeightsView};
use crate::config::ModelConfig;
use crate::device::{Init, Kernel, NodeView, Scalar, Tensor};
use vstd::prelude::*;

verus! {

/// The norm of `rows` rows of the model's width.
pub open spec fn row_norm(cfg: ModelConfig, rows: int, x: Term, gain: Term) -> Term {
    meaning::norm(NormMeta { seq_len: rows as u32, size: cfg.dim, eps: cfg.norm_eps }, x, gain)
}

/// Queries, keys and values side by side, of the normed stream.
pub open spec fn fused_qkv(cfg: ModelConfig, bw: BlockWeights, rows: int, mem: Memory, h: Term) -> Term {
    meaning::product(
        rows,
        cfg.dim as int,
        3 * cfg.dim,
        row_norm(cfg, rows, h, mem[bw.norm_1]),
        mem[bw.qkv_proj],
    )
}

/// The columns of queries (0), keys (1) or values (2) side by side.
pub open spec fn part(cfg: ModelConfig, rows: int, i: int) -> HeadMoveMeta {
    HeadMoveMeta {
        seq_len: rows as u32,
        full_dim: (3 * cfg.dim) as u32,
        head_dim: cfg.dim,
        head_offset: (i * cfg.dim) as u32,
    }
}

/// The queries (0), keys (1) or values (2) of the stream.
pub open spec fn role(
    cfg: ModelConfig,
    bw: BlockWeights,
    rows: int,
    mem: Memory,
    h: Term,
    i: int,
) -> Term {
    meaning::columns(part(cfg, rows, i), fused_qkv(cfg, bw, rows, mem, h))
}

/// `rows` rows, the first of them at position `pos`.
pub open spec fn positions(cfg: ModelConfig, rows: int, pos: int) -> Turn {
    Turn {
        first: 0,
        rows,
        dim: cfg.dim as int,
        head_dim: cfg.spec_head_dim() as int,
        pos,
    }
}

/// The stream behind attention: what attention gave, projected, is added to it.
pub open spec fn behind_attention(
    cfg: ModelConfig,
    bw: BlockWeights,
    rows: int,
    mem: Memory,
    h: Term,
    attended: Term,
) -> Term {
    meaning::sum(
        h,
        meaning::product(rows, cfg.dim as int, cfg.dim as int, attended, mem[bw.out_proj]),
    )
}

/// The activated result of the first feed-forward layer.
pub open spec fn activated(
    cfg: ModelConfig,
    bw: BlockWeights,
    rows: int,
    mem: Memory,
    h: Term,
) -> Term {
    meaning::silu(
        meaning::product(
            rows,
            cfg.dim as int,
            cfg.ffn_hidden as int,
            row_norm(cfg, rows, h, mem[bw.norm_2]),
            mem[bw.ffn_up],
        ),
    )
}

/// The stream behind a block whose attention gave `attended`.
pub open spec fn behind_block(
    cfg: ModelConfig,
    bw: BlockWeights,
    rows: int,
    mem: Memory,
    h: Term,
    attended: Term,
) -> Term {
    let mid = behind_attention(cfg, bw, rows, mem, h, attended);
    meaning::sum(
        mid,
        meaning::product(
            rows,
            cfg.ffn_hidden as int,
            cfg.dim as int,
            activated(cfg, bw, rows, mem, mid),
            mem[bw.ffn_down],
        ),
    )
}

/// The weights of a block are none of these buffers.
pub open spec fn apart(bw: BlockWeights, bufs: Seq<Tensor>) -> bool {
    &&& !bufs.contains(bw.norm_1)
    &&& !bufs.contains(bw.qkv_proj)
    &&& !bufs.contains(bw.out_proj)
    &&& !bufs.contains(bw.norm_2)
    &&& !bufs.contains(bw.ffn_up)
    &&& !bufs.contains(bw.ffn_down)
}

/// `t` is none of the buffers that a scratch made in `c` takes.
pub open spec fn outside(c: Seq<Init>, t: Tensor) -> bool {
    t.id < c.len() || t.id >= c.len() + 25
}

/// All weights of a block are.
pub open spec fn weights_outside(c: Seq<Init>, bw: BlockWeights) -> bool {
    &&& outside(c, bw.norm_1) && outside(c, bw.qkv_proj) && outside(c, bw.out_proj)
    &&& outside(c, bw.norm_2) && outside(c, bw.ffn_up) && outside(c, bw.ffn_down)
}

/// `c` after records have been written over.
pub open spec fn overwritten(c: Seq<Init>, writes: Seq<(Tensor, Meta)>) -> Seq<Init>
    decreases writes.len(),
{
    if writes.len() == 0 {
        c
    } else {
        let (t, m) = writes.last();
        overwritten(c, writes.drop_last()).update(t.id as int, Init::Meta(m))
    }
}

proof fn lemma_four_writes(c: Seq<Init>, w: Seq<(Tensor, Meta)>)
    requires
        w.len() == 4,
    ensures
        overwritten(c, w) == c.update(w[0].0.id as int, Init::Meta(w[0].1)).update(
            w[1].0.id as int,
            Init::Meta(w[1].1),
        ).update(w[2].0.id as int, Init::Meta(w[2].1)).update(
            w[3].0.id as int,
            Init::Meta(w[3].1),
        ),
{
    reveal_with_fuel(overwritten, 5);
    assert(w.drop_last()[2] == w[2]);
    assert(w.drop_last().drop_last()[1] == w[1]);
    assert(w.drop_last().drop_last().drop_last()[0] == w[0]);
}

// ---- the two halves ----

/// The first half of a layer leaves queries, keys and values of the stream.
proof fn lemma_first_half(
    c: Seq<Init>,
    bw: BlockWeights,
    b: inference_graphs::PreAttn,
    rows: u32,
    cfg: ModelConfig,
    mem: Memory,
)
    requires
        3 * cfg.dim <= u32::MAX,
        seq![b.hidden, b.norm_out, b.qkv_out, b.q_buf, b.k_buf, b.v_buf].no_duplicates(),
        apart(bw, seq![b.norm_out, b.qkv_out, b.q_buf, b.k_buf, b.v_buf]),
        meaning::holds(c, b.norm_meta, Meta::Norm(inference_graphs::norm_shape(rows, cfg))),
        meaning::record(c, b.qkv_proj_meta) is MatMul,
        (meaning::record(c, b.qkv_proj_meta)->MatMul_0).m == rows,
        (meaning::record(c, b.qkv_proj_meta)->MatMul_0).n == 3 * cfg.dim,
        (meaning::record(c, b.qkv_proj_meta)->MatMul_0).k == cfg.dim,
        meaning::record(c, b.q_split_meta) == Meta::HeadMove(part(cfg, rows as int, 0)),
        meaning::record(c, b.k_split_meta) == Meta::HeadMove(part(cfg, rows as int, 1)),
        meaning::record(c, b.v_split_meta) == Meta::HeadMove(part(cfg, rows as int, 2)),
    ensures
        ({
            let after = meaning::run(
                c,
                inference_graphs::pre_attn_nodes(bw, b, rows, cfg),
                mem,
            );
            &&& after[b.q_buf] == role(cfg, bw, rows as int, mem, mem[b.hidden], 0)
            &&& after[b.k_buf] == role(cfg, bw, rows as int, mem, mem[b.hidden], 1)
            &&& after[b.v_buf] == role(cfg, bw, rows as int, mem, mem[b.hidden], 2)
            &&& forall|t: Tensor|
                !seq![b.norm_out, b.qkv_out, b.q_buf, b.k_buf, b.v_buf].contains(t)
                    ==> #[trigger] after[t] == mem[t]
        }),
{
    let g = inference_graphs::pre_attn_nodes(bw, b, rows, cfg);
    meaning::lemma_run_five(c, g, mem);
    let all = seq![b.hidden, b.norm_out, b.qkv_out, b.q_buf, b.k_buf, b.v_buf];
    assert(all[0] == b.hidden && all[1] == b.norm_out && all[2] == b.qkv_out);
    assert(all[3] == b.q_buf && all[4] == b.k_buf && all[5] == b.v_buf);
    let bufs = seq![b.norm_out, b.qkv_out, b.q_buf, b.k_buf, b.v_buf];
    assert(bufs[0] == b.norm_out && bufs[1] == b.qkv_out && bufs[2] == b.q_buf);
    assert(bufs[3] == b.k_buf && bufs[4] == b.v_buf);
    let m1 = meaning::exec(c, g[0], mem);
    let m2 = meaning::exec(c, g[1], m1);
    let m3 = meaning::exec(c, g[2], m2);
    let m4 = meaning::exec(c, g[3], m3);
    assert(m1[b.norm_out] == row_norm(cfg, rows as int, mem[b.hidden], mem[bw.norm_1]));
    assert(m2[b.qkv_out] == fused_qkv(cfg, bw, rows as int, mem, mem[b.hidden]));
    assert(m3[b.qkv_out] == m2[b.qkv_out]);
    assert(m4[b.qkv_out] == m2[b.qkv_out]);
}

/// The second half of a layer adds what attention gave, and then the feed-forward
/// layers' result, to the stream.
proof fn lemma_second_half(
    c: Seq<Init>,
    bw: BlockWeights,
    b: inference_graphs::PostAttn,
    rows: u32,
    cfg: ModelConfig,
    mem: Memory,
)
    requires
        seq![b.hidden, b.attn_out, b.norm_out, b.ffn_up_out].no_duplicates(),
        apart(bw, seq![b.hidden, b.norm_out, b.ffn_up_out]),
        meaning::holds(c, b.norm_meta, Meta::Norm(inference_graphs::norm_shape(rows, cfg))),
        meaning::record(c, b.out_proj_meta) is MatMul,
        (meaning::record(c, b.out_proj_meta)->MatMul_0).m == rows,
        (meaning::record(c, b.out_proj_meta)->MatMul_0).n == cfg.dim,
        (meaning::record(c, b.out_proj_meta)->MatMul_0).k == cfg.dim,
        meaning::record(c, b.ffnup_meta) is MatMul,
        (meaning::record(c, b.ffnup_meta)->MatMul_0).m == rows,
        (meaning::record(c, b.ffnup_meta)->MatMul_0).n == cfg.ffn_hidden,
        (meaning::record(c, b.ffnup_meta)->MatMul_0).k == cfg.dim,
        meaning::record(c, b.ffndown_meta) is MatMul,
        (meaning::record(c, b.ffndown_meta)->MatMul_0).m == rows,
        (meaning::record(c, b.ffndown_meta)->MatMul_0).n == cfg.dim,
        (meaning::record(c, b.ffndown_meta)->MatMul_0).k == cfg.ffn_hidden,
    ensures
        ({
            let after = meaning::run(
                c,
                inference_graphs::post_attn_nodes(bw, b, rows, cfg),
                mem,
            );
            &&& after[b.hidden] == behind_block(
                cfg,
                bw,
                rows as int,
                mem,
                mem[b.hidden],
                mem[b.attn_out],
            )
            &&& forall|t: Tensor|
                !seq![b.hidden, b.norm_out, b.ffn_up_out].contains(t) ==> #[trigger] after[t]
                    == mem[t]
        }),
{
    let g = inference_graphs::post_attn_nodes(bw, b, rows, cfg);
    meaning::lemma_run_five(c, g, mem);
    let all = seq![b.hidden, b.attn_out, b.norm_out, b.ffn_up_out];
    assert(all[0] == b.hidden && all[1] == b.attn_out && all[2] == b.norm_out);
    assert(all[3] == b.ffn_up_out);
    let bufs = seq![b.hidden, b.norm_out, b.ffn_up_out];
    assert(bufs[0] == b.hidden && bufs[1] == b.norm_out && bufs[2] == b.ffn_up_out);
    let mid = behind_attention(cfg, bw, rows as int, mem, mem[b.hidden], mem[b.attn_out]);
    let m1 = meaning::exec(c, g[0], mem);
    let m2 = meaning::exec(c, g[1], m1);
    let m3 = meaning::exec(c, g[2], m2);
    let m4 = meaning::exec(c, g[3], m3);
    assert(m1[b.hidden] == mid);
    assert(m2[b.norm_out] == row_norm(cfg, rows as int, mid, mem[bw.norm_2]));
    assert(m4[b.ffn_up_out] == activated(cfg, bw, rows as int, mem, mid));
    assert(m4[b.hidden] == mid);
}

// ---- decode ----

/// What the attention of a decode step at `pos` gives, over caches with the step's
/// own row in them.
pub open spec fn attended_at(
    cfg: ModelConfig,
    pos: int,
    q: Term,
    keys: Term,
    values: Term,
) -> Term {
    let s = AttnCachedMeta {
        attn_len: (pos + 1) as u32,
        dim: cfg.dim,
        head_dim: cfg.spec_head_dim(),
    };
    let p = SoftmaxRectMeta {
        num_rows: cfg.num_heads,
        width: (pos + 1) as u32,
        scale: Scalar::RecipSqrt(cfg.spec_head_dim()),
    };
    meaning::weighed(s, meaning::softmax(p, meaning::scores(s, q, keys)), values)
}

/// Row `pos` of a cache.
pub open spec fn row_at(cfg: ModelConfig, pos: int) -> CacheWriteMeta {
    CacheWriteMeta { row_count: 1, width: cfg.dim, dst_row_offset: pos as u32 }
}

/// A decode layer at position `pos` is a transformer block: the step's rotated keys
/// go to row `pos` of the key cache and its values to that of the value cache, the
/// rotated queries are scored against the key cache, and the scores weigh the value
/// cache.
pub proof fn decode_layer_is_a_block(
    c: Seq<Init>,
    cfg: ModelConfig,
    max_context_len: u32,
    e: Seq<Init>,
    bw: BlockWeights,
    cache_k: Tensor,
    cache_v: Tensor,
    pos: u32,
    mem: Memory,
)
    requires
        pos < u32::MAX,
        3 * cfg.dim <= u32::MAX,
        c.len() + 25 <= usize::MAX,
        inference_graphs::scratch_build(c, cfg, max_context_len).0.is_prefix_of(e),
        outside(c, cache_k) && outside(c, cache_v),
        cache_k != cache_v,
        apart(bw, seq![cache_k, cache_v]),
        weights_outside(c, bw),
    ensures
        ({
            let s = inference_graphs::scratch_build(c, cfg, max_context_len).1;
            let ctx = overwritten(e, s.step_writes(pos, cfg));
            let after = meaning::run(
                ctx,
                inference_graphs::decode_layer(bw, s, cache_k, cache_v, (pos + 1) as u32, cfg),
                mem,
            );
            let h = mem[s.hidden];
            let turn = positions(cfg, 1, pos as int);
            let keys = meaning::with_rows(
                row_at(cfg, pos as int),
                mem[cache_k],
                meaning::rotated(turn, role(cfg, bw, 1, mem, h, 1)),
            );
            let values = meaning::with_rows(
                row_at(cfg, pos as int),
                mem[cache_v],
                role(cfg, bw, 1, mem, h, 2),
            );
            let q = meaning::rotated(turn, role(cfg, bw, 1, mem, h, 0));
            &&& after[cache_k] == keys
            &&& after[cache_v] == values
            &&& after[s.hidden] == behind_block(
                cfg,
                bw,
                1,
                mem,
                h,
                attended_at(cfg, pos as int, q, keys, values),
            )
            &&& forall|t: Tensor|
                outside(c, t) && t != cache_k && t != cache_v ==> #[trigger] after[t] == mem[t]
        }),
{
    let s = inference_graphs::scratch_build(c, cfg, max_context_len).1;
    let ctx = overwritten(e, s.step_writes(pos, cfg));
    let rows = (pos + 1) as u32;
    let pre = inference_graphs::scratch_pre(s);
    let post = inference_graphs::scratch_post(s);
    let first = inference_graphs::pre_attn_nodes(bw, pre, 1, cfg);
    let mid = middle_nodes(s, cache_k, cache_v, rows, cfg);
    let last = inference_graphs::post_attn_nodes(bw, post, 1, cfg);
    let whole = inference_graphs::decode_layer(bw, s, cache_k, cache_v, rows, cfg);
    assert(whole =~= first + mid + last);
    meaning::run_is_sequential(ctx, first + mid, last, mem);
    meaning::run_is_sequential(ctx, first, mid, mem);
    let m0 = meaning::run(ctx, first, mem);
    let m7 = meaning::run(ctx, mid, m0);
    lemma_decode_records(c, cfg, max_context_len, e, pos);
    lemma_decode_apart(c, cfg, max_context_len, bw, cache_k, cache_v);
    lemma_first_half(ctx, bw, pre, 1, cfg, mem);
    lemma_middle(ctx, s, cache_k, cache_v, pos, cfg, m0);
    lemma_second_half(ctx, bw, post, 1, cfg, m7);
    let bufs = seq![pre.norm_out, pre.qkv_out, pre.q_buf, pre.k_buf, pre.v_buf];
    let ends = seq![post.hidden, post.norm_out, post.ffn_up_out];
    let pair = seq![cache_k, cache_v];
    assert(pair[0] == cache_k && pair[1] == cache_v);
    assert(bufs[0] == s.norm_out && bufs[1] == s.qkv_out && bufs[2] == s.q_buf);
    assert(bufs[3] == s.k_buf && bufs[4] == s.v_buf);
    assert(ends[0] == s.hidden && ends[1] == s.norm_out && ends[2] == s.ffn_up_out);
    assert(!bufs.contains(cache_k) && !bufs.contains(cache_v) && !bufs.contains(s.hidden));
    assert(!ends.contains(cache_k) && !ends.contains(cache_v));
    assert(m0[cache_k] == mem[cache_k] && m0[cache_v] == mem[cache_v]);
    assert(m0[s.hidden] == mem[s.hidden]);
    let after = meaning::run(ctx, whole, mem);
    assert forall|t: Tensor| outside(c, t) && t != cache_k && t != cache_v implies m7[t] == mem[t]
        && #[trigger] after[t] == mem[t] by {
        assert(!bufs.contains(t) && !ends.contains(t));
        assert(m0[t] == mem[t]);
        assert(m7[t] == m0[t]);
    }
    assert(pair.contains(cache_k) && pair.contains(cache_v));
    assert(after[cache_k] == m7[cache_k] && after[cache_v] == m7[cache_v]);
    assert(m7[bw.norm_2] == mem[bw.norm_2] && after[bw.norm_2] == mem[bw.norm_2]);
    assert(m7[bw.out_proj] == mem[bw.out_proj] && after[bw.out_proj] == mem[bw.out_proj]);
    assert(m7[bw.ffn_up] == mem[bw.ffn_up] && after[bw.ffn_up] == mem[bw.ffn_up]);
    assert(m7[bw.ffn_down] == mem[bw.ffn_down] && after[bw.ffn_down] == mem[bw.ffn_down]);
}

/// The buffers that a step works in between the halves of a layer.
spec fn step_buffers(s: DecodeScratch) -> Seq<Tensor> {
    seq![s.hidden, s.q_buf, s.k_buf, s.v_buf, s.scores, s.attn_out]
}

/// The dispatches between the halves of a decode layer.
spec fn middle_nodes(
    s: DecodeScratch,
    cache_k: Tensor,
    cache_v: Tensor,
    rows: u32,
    cfg: ModelConfig,
) -> Seq<NodeView> {
    seq![
        emit::rope_offset_node(s.q_buf, inference_graphs::rope_at(cfg, 0), s.rope_meta),
        emit::rope_offset_node(s.k_buf, inference_graphs::rope_at(cfg, 0), s.rope_meta),
        emit::cache_write_node(
            s.k_buf,
            cache_k,
            inference_graphs::cache_row(cfg, 0),
            s.cache_write_meta,
        ),
        emit::cache_write_node(
            s.v_buf,
            cache_v,
            inference_graphs::cache_row(cfg, 0),
            s.cache_write_meta,
        ),
        emit::attn_qk_cached_node(s.q_buf, cache_k, s.scores, cfg.num_heads, rows, s.attn_meta),
        emit::softmax_rect_node(
            s.scores,
            inference_graphs::softmax_over(cfg, rows),
            s.softmax_meta,
        ),
        emit::attn_av_cached_node(s.scores, cache_v, s.attn_out, cfg.dim, s.attn_meta),
    ]
}

proof fn lemma_middle(
    ctx: Seq<Init>,
    s: DecodeScratch,
    cache_k: Tensor,
    cache_v: Tensor,
    pos: u32,
    cfg: ModelConfig,
    m0: Memory,
)
    requires
        pos < u32::MAX,
        cache_k != cache_v,
        step_buffers(s).no_duplicates(),
        !step_buffers(s).contains(cache_k),
        !step_buffers(s).contains(cache_v),
        meaning::record(ctx, s.rope_meta) == Meta::RopeOffset(inference_graphs::rope_at(cfg, pos)),
        meaning::record(ctx, s.cache_write_meta) == Meta::CacheWrite(
            inference_graphs::cache_row(cfg, pos),
        ),
        meaning::record(ctx, s.attn_meta) == Meta::AttnCached(
            inference_graphs::attn_over(cfg, (pos + 1) as u32),
        ),
        meaning::record(ctx, s.softmax_meta) == Meta::SoftmaxRect(
            inference_graphs::softmax_over(cfg, (pos + 1) as u32),
        ),
    ensures
        ({
            let after = meaning::run(
                ctx,
                middle_nodes(s, cache_k, cache_v, (pos + 1) as u32, cfg),
                m0,
            );
            let turn = positions(cfg, 1, pos as int);
            let keys = meaning::with_rows(
                row_at(cfg, pos as int),
                m0[cache_k],
                meaning::rotated(turn, m0[s.k_buf]),
            );
            let values = meaning::with_rows(row_at(cfg, pos as int), m0[cache_v], m0[s.v_buf]);
            &&& after[cache_k] == keys
            &&& after[cache_v] == values
            &&& after[s.attn_out] == attended_at(
                cfg,
                pos as int,
                meaning::rotated(turn, m0[s.q_buf]),
                keys,
                values,
            )
            &&& after[s.hidden] == m0[s.hidden]
            &&& forall|t: Tensor|
                t != cache_k && t != cache_v && !step_buffers(s).contains(t) ==> #[trigger] after[t] == m0[t]
        }),
{
    let mid = middle_nodes(s, cache_k, cache_v, (pos + 1) as u32, cfg);
    let own = step_buffers(s);
    assert(own[0] == s.hidden && own[1] == s.q_buf && own[2] == s.k_buf);
    assert(own[3] == s.v_buf && own[4] == s.scores && own[5] == s.attn_out);
    let five = seq![mid[0], mid[1], mid[2], mid[3], mid[4]];
    meaning::lemma_run_five(ctx, five, m0);
    assert(mid =~= five.push(mid[5]).push(mid[6]));
    meaning::lemma_run_push(ctx, five, mid[5], m0);
    meaning::lemma_run_push(ctx, five.push(mid[5]), mid[6], m0);
    let m1 = meaning::exec(ctx, mid[0], m0);
    let m2 = meaning::exec(ctx, mid[1], m1);
    let m3 = meaning::exec(ctx, mid[2], m2);
    let m4 = meaning::exec(ctx, mid[3], m3);
    let m5 = meaning::exec(ctx, mid[4], m4);
    let turn = positions(cfg, 1, pos as int);
    assert(meaning::turn_of(meaning::record(ctx, s.rope_meta)) == turn);
    assert(m2[s.q_buf] == meaning::rotated(turn, m0[s.q_buf]));
    assert(m2[s.k_buf] == meaning::rotated(turn, m0[s.k_buf]));
    assert(m2[s.v_buf] == m0[s.v_buf] && m2[cache_k] == m0[cache_k] && m2[cache_v] == m0[cache_v]);
    assert(m4[cache_k] == meaning::with_rows(row_at(cfg, pos as int), m0[cache_k], m2[s.k_buf]));
    assert(m4[cache_v] == meaning::with_rows(row_at(cfg, pos as int), m0[cache_v], m0[s.v_buf]));
    assert(m4[s.q_buf] == m2[s.q_buf]);
    assert(m5[cache_v] == m4[cache_v]);
}

/// The records of a scratch at position `pos`.
proof fn lemma_decode_records(
    c: Seq<Init>,
    cfg: ModelConfig,
    max_context_len: u32,
    e: Seq<Init>,
    pos: u32,
)
    requires
        inference_graphs::scratch_build(c, cfg, max_context_len).0.is_prefix_of(e),
        c.len() + 25 <= usize::MAX,
        3 * cfg.dim <= u32::MAX,
    ensures
        ({
            let s = inference_graphs::scratch_build(c, cfg, max_context_len).1;
            let ctx = overwritten(e, s.step_writes(pos, cfg));
            let mm = |t: Tensor| meaning::record(ctx, t)->MatMul_0;
            &&& meaning::holds(ctx, s.norm_meta, Meta::Norm(inference_graphs::norm_shape(1, cfg)))
            &&& meaning::record(ctx, s.qkv_meta) is MatMul
            &&& mm(s.qkv_meta).m == 1 && mm(s.qkv_meta).n == cfg.dim && mm(s.qkv_meta).k == cfg.dim
            &&& meaning::record(ctx, s.qkv_proj_meta) is MatMul
            &&& mm(s.qkv_proj_meta).m == 1
            &&& mm(s.qkv_proj_meta).n == 3 * cfg.dim
            &&& mm(s.qkv_proj_meta).k == cfg.dim
            &&& meaning::record(ctx, s.ffnup_meta) is MatMul
            &&& mm(s.ffnup_meta).m == 1
            &&& mm(s.ffnup_meta).n == cfg.ffn_hidden
            &&& mm(s.ffnup_meta).k == cfg.dim
            &&& meaning::record(ctx, s.ffndown_meta) is MatMul
            &&& mm(s.ffndown_meta).m == 1
            &&& mm(s.ffndown_meta).n == cfg.dim
            &&& mm(s.ffndown_meta).k == cfg.ffn_hidden
            &&& meaning::record(ctx, s.q_split_meta) == Meta::HeadMove(part(cfg, 1, 0))
            &&& meaning::record(ctx, s.k_split_meta) == Meta::HeadMove(part(cfg, 1, 1))
            &&& meaning::record(ctx, s.v_split_meta) == Meta::HeadMove(part(cfg, 1, 2))
            &&& meaning::record(ctx, s.rope_meta) == Meta::RopeOffset(
                inference_graphs::rope_at(cfg, pos),
            )
            &&& meaning::record(ctx, s.cache_write_meta) == Meta::CacheWrite(
                inference_graphs::cache_row(cfg, pos),
            )
            &&& meaning::record(ctx, s.attn_meta) == Meta::AttnCached(
                inference_graphs::attn_over(cfg, (pos + 1) as u32),
            )
            &&& meaning::record(ctx, s.softmax_meta) == Meta::SoftmaxRect(
                inference_graphs::softmax_over(cfg, (pos + 1) as u32),
            )
            &&& meaning::record(ctx, s.emb_meta) is Embedding
            &&& (meaning::record(ctx, s.emb_meta)->Embedding_0).vocab_size == cfg.vocab_size
            &&& (meaning::record(ctx, s.emb_meta)->Embedding_0).dim == cfg.dim
            &&& (meaning::record(ctx, s.emb_meta)->Embedding_0).seq_len == 1
            &&& meaning::record(ctx, s.lm_meta) is MatMul
            &&& mm(s.lm_meta).m == 1
            &&& mm(s.lm_meta).n == cfg.vocab_size
            &&& mm(s.lm_meta).k == cfg.dim
        }),
{
    reveal(inference_graphs::scratch_build);
    let (c1, s) = inference_graphs::scratch_build(c, cfg, max_context_len);
    lemma_four_writes(e, s.step_writes(pos, cfg));
    assert(forall|i: int| 0 <= i < c1.len() ==> #[trigger] e[i] == c1[i]);
    let n = c.len() as int;
    assert(e[n] == c1[n] && e[n + 1] == c1[n + 1] && e[n + 2] == c1[n + 2]);
    assert(e[n + 3] == c1[n + 3] && e[n + 4] == c1[n + 4] && e[n + 5] == c1[n + 5]);
    assert(e[n + 6] == c1[n + 6] && e[n + 7] == c1[n + 7] && e[n + 8] == c1[n + 8]);
    assert(e[n + 9] == c1[n + 9]);
}

/// The buffers of a scratch are its own.
proof fn lemma_decode_apart(
    c: Seq<Init>,
    cfg: ModelConfig,
    max_context_len: u32,
    bw: BlockWeights,
    cache_k: Tensor,
    cache_v: Tensor,
)
    requires
        c.len() + 25 <= usize::MAX,
        weights_outside(c, bw),
    ensures
        ({
            let s = inference_graphs::scratch_build(c, cfg, max_context_len).1;
            let b = inference_graphs::scratch_pre(s);
            let p = inference_graphs::scratch_post(s);
            &&& seq![b.hidden, b.norm_out, b.qkv_out, b.q_buf, b.k_buf, b.v_buf].no_duplicates()
            &&& apart(bw, seq![b.norm_out, b.qkv_out, b.q_buf, b.k_buf, b.v_buf])
            &&& seq![p.hidden, p.attn_out, p.norm_out, p.ffn_up_out].no_duplicates()
            &&& apart(bw, seq![p.hidden, p.norm_out, p.ffn_up_out])
            &&& step_buffers(s).no_duplicates()
            &&& forall|t: Tensor|
                outside(c, t) ==> !(#[trigger] step_buffers(s).contains(t))
            &&& !outside(c, s.hidden) && !outside(c, s.norm_out) && !outside(c, s.q_buf)
            &&& !outside(c, s.k_buf) && !outside(c, s.v_buf) && !outside(c, s.scores)
            &&& !outside(c, s.attn_out) && !outside(c, s.ffn_up_out)
            &&& !outside(c, s.qkv_out)
            &&& s.hidden != s.norm_out && s.hidden != s.qkv_out && s.attn_out != s.hidden
        }),
{
    reveal(inference_graphs::scratch_build);
    let s = inference_graphs::scratch_build(c, cfg, max_context_len).1;
    let n = c.len();
    assert(s.hidden.id == n + 14 && s.norm_out.id == n + 15 && s.qkv_out.id == n + 16);
    assert(s.q_buf.id == n + 17 && s.k_buf.id == n + 18 && s.v_buf.id == n + 19);
    assert(s.scores.id == n + 20 && s.attn_out.id == n + 21 && s.ffn_up_out.id == n + 22);
}

// ---- the whole step ----

/// What a decode step at `pos` attends to in one layer, when `h` comes in: the rotated
/// queries of the step's row, the key cache with its rotated keys, and the value cache
/// with its values.
pub open spec fn step_attention(
    cfg: ModelConfig,
    bw: BlockWeights,
    pos: int,
    mem: Memory,
    h: Term,
    cache_k: Tensor,
    cache_v: Tensor,
) -> Term {
    attended_at(
        cfg,
        pos,
        meaning::rotated(positions(cfg, 1, pos), role(cfg, bw, 1, mem, h, 0)),
        step_keys(cfg, bw, pos, mem, h, cache_k),
        step_values(cfg, bw, pos, mem, h, cache_v),
    )
}

/// The key cache of a layer once the step's row is in it.
pub open spec fn step_keys(
    cfg: ModelConfig,
    bw: BlockWeights,
    pos: int,
    mem: Memory,
    h: Term,
    cache_k: Tensor,
) -> Term {
    meaning::with_rows(
        row_at(cfg, pos),
        mem[cache_k],
        meaning::rotated(positions(cfg, 1, pos), role(cfg, bw, 1, mem, h, 1)),
    )
}

/// The value cache of a layer once the step's row is in it.
pub open spec fn step_values(
    cfg: ModelConfig,
    bw: BlockWeights,
    pos: int,
    mem: Memory,
    h: Term,
    cache_v: Tensor,
) -> Term {
    meaning::with_rows(row_at(cfg, pos), mem[cache_v], role(cfg, bw, 1, mem, h, 2))
}

/// The stream behind the first `n` layers of a decode step.
pub open spec fn step_stream(
    cfg: ModelConfig,
    bws: Seq<BlockWeights>,
    k: Seq<Tensor>,
    v: Seq<Tensor>,
    pos: int,
    mem: Memory,
    h: Term,
    n: nat,
) -> Term
    decreases n,
{
    if n == 0 {
        h
    } else {
        let x = step_stream(cfg, bws, k, v, pos, mem, h, (n - 1) as nat);
        behind_block(
            cfg,
            bws[n - 1],
            1,
            mem,
            x,
            step_attention(cfg, bws[n - 1], pos, mem, x, k[n - 1], v[n - 1]),
        )
    }
}

/// The caches are buffers of their own, one pair for each layer.
pub open spec fn caches_apart(
    c: Seq<Init>,
    bws: Seq<BlockWeights>,
    k: Seq<Tensor>,
    v: Seq<Tensor>,
) -> bool {
    &&& k.len() == bws.len()
    &&& v.len() == bws.len()
    &&& (k + v).no_duplicates()
    &&& forall|i: int| 0 <= i < k.len() ==> outside(c, #[trigger] k[i])
    &&& forall|i: int| 0 <= i < v.len() ==> outside(c, #[trigger] v[i])
    &&& forall|i: int| 0 <= i < bws.len() ==> weights_outside(c, #[trigger] bws[i]) && apart(bws[i], k + v)
}

/// `after` is what one layer of a decode step leaves of `m`.
#[verifier::opaque]
spec fn layer_ran(
    c: Seq<Init>,
    cfg: ModelConfig,
    bw: BlockWeights,
    k: Tensor,
    v: Tensor,
    pos: int,
    hidden: Tensor,
    m: Memory,
    after: Memory,
) -> bool {
    &&& after[k] == step_keys(cfg, bw, pos, m, m[hidden], k)
    &&& after[v] == step_values(cfg, bw, pos, m, m[hidden], v)
    &&& after[hidden] == behind_block(
        cfg,
        bw,
        1,
        m,
        m[hidden],
        step_attention(cfg, bw, pos, m, m[hidden], k, v),
    )
    &&& forall|t: Tensor| outside(c, t) && t != k && t != v ==> #[trigger] after[t] == m[t]
}

/// Layer `l` of a decode step runs on what the layers before it left.
proof fn lemma_layer_runs(
    c: Seq<Init>,
    cfg: ModelConfig,
    max_context_len: u32,
    e: Seq<Init>,
    g: Seq<NodeView>,
    bws: Seq<BlockWeights>,
    k: Seq<Tensor>,
    v: Seq<Tensor>,
    pos: u32,
    mem: Memory,
    l: nat,
)
    requires
        pos < u32::MAX,
        3 * cfg.dim <= u32::MAX,
        c.len() + 25 <= usize::MAX,
        inference_graphs::scratch_build(c, cfg, max_context_len).0.is_prefix_of(e),
        l < bws.len(),
        outside(c, k[l as int]) && outside(c, v[l as int]),
        k[l as int] != v[l as int],
        apart(bws[l as int], seq![k[l as int], v[l as int]]),
        weights_outside(c, bws[l as int]),
    ensures
        ({
            let s = inference_graphs::scratch_build(c, cfg, max_context_len).1;
            let ctx = overwritten(e, s.step_writes(pos, cfg));
            let rows = (pos + 1) as u32;
            layer_ran(
                c,
                cfg,
                bws[l as int],
                k[l as int],
                v[l as int],
                pos as int,
                s.hidden,
                meaning::run(ctx, inference::decode_layers(g, bws, s, k, v, rows, cfg, l), mem),
                meaning::run(
                    ctx,
                    inference::decode_layers(g, bws, s, k, v, rows, cfg, l + 1),
                    mem,
                ),
            )
        }),
{
    reveal(layer_ran);
    let s = inference_graphs::scratch_build(c, cfg, max_context_len).1;
    let ctx = overwritten(e, s.step_writes(pos, cfg));
    let rows = (pos + 1) as u32;
    let i = l as int;
    let before = inference::decode_layers(g, bws, s, k, v, rows, cfg, l);
    let layer = inference_graphs::decode_layer(bws[i], s, k[i], v[i], rows, cfg);
    meaning::run_is_sequential(ctx, before, layer, mem);
    let m = meaning::run(ctx, before, mem);
    decode_layer_is_a_block(c, cfg, max_context_len, e, bws[i], k[i], v[i], pos, m);
}

/// What the first `n` layers leave, from what each of them does.
proof fn lemma_layers_ran(
    c: Seq<Init>,
    cfg: ModelConfig,
    bws: Seq<BlockWeights>,
    k: Seq<Tensor>,
    v: Seq<Tensor>,
    pos: int,
    hidden: Tensor,
    mem: Memory,
    mems: Seq<Memory>,
    n: nat,
)
    requires
        caches_apart(c, bws, k, v),
        n <= bws.len(),
        mems.len() == bws.len() + 1,
        forall|t: Tensor| outside(c, t) ==> #[trigger] mems[0][t] == mem[t],
        forall|l: int|
            0 <= l < bws.len() ==> #[trigger] layer_ran(
                c,
                cfg,
                bws[l],
                k[l],
                v[l],
                pos,
                hidden,
                mems[l],
                mems[l + 1],
            ),
    ensures
        mems[n as int][hidden] == step_stream(cfg, bws, k, v, pos, mem, mems[0][hidden], n),
        forall|l: int|
            0 <= l < n ==> {
                let x = step_stream(cfg, bws, k, v, pos, mem, mems[0][hidden], l as nat);
                &&& mems[n as int][#[trigger] k[l]] == step_keys(cfg, bws[l], pos, mem, x, k[l])
                &&& mems[n as int][v[l]] == step_values(cfg, bws[l], pos, mem, x, v[l])
            },
        forall|l: int|
            n <= l < bws.len() ==> mems[n as int][#[trigger] k[l]] == mem[k[l]]
                && mems[n as int][v[l]] == mem[v[l]],
        forall|t: Tensor|
            outside(c, t) && !(k + v).contains(t) ==> #[trigger] mems[n as int][t] == mem[t],
    decreases n,
{
    let both = k + v;
    assert forall|i: int| 0 <= i < k.len() implies both.contains(#[trigger] k[i]) && both.contains(
        v[i],
    ) && k[i] != v[i] by {
        assert(both[i] == k[i] && both[k.len() + i] == v[i]);
    }
    if n > 0 {
        let p = n - 1;
        lemma_layers_ran(c, cfg, bws, k, v, pos, hidden, mem, mems, p as nat);
        let m = mems[p];
        let after = mems[n as int];
        assert(layer_ran(c, cfg, bws[p], k[p], v[p], pos, hidden, mems[p], mems[p + 1]));
        reveal(layer_ran);
        let x = step_stream(cfg, bws, k, v, pos, mem, mems[0][hidden], p as nat);
        let bw = bws[p];
        assert(weights_outside(c, bw) && apart(bw, both));
        assert(m[bw.norm_1] == mem[bw.norm_1] && m[bw.qkv_proj] == mem[bw.qkv_proj]);
        assert(m[bw.out_proj] == mem[bw.out_proj] && m[bw.norm_2] == mem[bw.norm_2]);
        assert(m[bw.ffn_up] == mem[bw.ffn_up] && m[bw.ffn_down] == mem[bw.ffn_down]);
        assert(m[k[p]] == mem[k[p]] && m[v[p]] == mem[v[p]]);
        lemma_same_weights(cfg, bw, m, mem, x, pos, k[p], v[p]);
        assert forall|l: int| 0 <= l < bws.len() && l != p implies after[#[trigger] k[l]] == m[k[l]]
            && after[v[l]] == m[v[l]] by {
            assert(both[l] == k[l] && both[k.len() + l] == v[l]);
            assert(both[p] == k[p] && both[k.len() + p] == v[p]);
        }
    }
}

/// A layer's formulas depend on memory only through its weights and caches.
proof fn lemma_same_weights(
    cfg: ModelConfig,
    bw: BlockWeights,
    a: Memory,
    b: Memory,
    h: Term,
    pos: int,
    k: Tensor,
    v: Tensor,
)
    requires
        a[bw.norm_1] == b[bw.norm_1],
        a[bw.qkv_proj] == b[bw.qkv_proj],
        a[bw.out_proj] == b[bw.out_proj],
        a[bw.norm_2] == b[bw.norm_2],
        a[bw.ffn_up] == b[bw.ffn_up],
        a[bw.ffn_down] == b[bw.ffn_down],
        a[k] == b[k],
        a[v] == b[v],
    ensures
        step_attention(cfg, bw, pos, a, h, k, v) == step_attention(cfg, bw, pos, b, h, k, v),
        step_keys(cfg, bw, pos, a, h, k) == step_keys(cfg, bw, pos, b, h, k),
        step_values(cfg, bw, pos, a, h, v) == step_values(cfg, bw, pos, b, h, v),
        forall|o: Term| #[trigger]
            behind_block(cfg, bw, 1, a, h, o) == behind_block(cfg, bw, 1, b, h, o),
{
}

/// A decode step at `pos` looks its token up, sends it through every layer, each with
/// its own pair of caches, and leaves the logits of the normed stream. Every layer's
/// key cache gets the step's keys and its value cache the step's values, in row `pos`.
pub proof fn decode_step_computes_logits(
    c: Seq<Init>,
    max_context_len: u32,
    e: Seq<Init>,
    w: ModelWeightsView,
    token: Tensor,
    cache: CacheView,
    pos: u32,
    mem: Memory,
)
    requires
        pos < u32::MAX,
        3 * w.cfg.dim <= u32::MAX,
        c.len() + 25 <= usize::MAX,
        inference_graphs::scratch_build(c, w.cfg, max_context_len).0.is_prefix_of(e),
        caches_apart(c, w.blocks, cache.k, cache.v),
        outside(c, token) && outside(c, w.embedding) && outside(c, w.final_norm) && outside(
            c,
            w.lm_head,
        ),
        !(cache.k + cache.v).contains(w.final_norm),
        !(cache.k + cache.v).contains(w.lm_head),
    ensures
        ({
            let cfg = w.cfg;
            let s = inference_graphs::scratch_build(c, cfg, max_context_len).1;
            let ctx = overwritten(e, s.step_writes(pos, cfg));
            let after = meaning::run(ctx, inference::step_graph(w, s, token, cache, pos), mem);
            let start = meaning::lookup(
                EmbeddingMeta { vocab_size: cfg.vocab_size, dim: cfg.dim, seq_len: 1 },
                mem[token],
                mem[w.embedding],
            );
            let stream = |n: nat|
                step_stream(cfg, w.blocks, cache.k, cache.v, pos as int, mem, start, n);
            &&& after[s.logits] == meaning::product(
                1,
                cfg.dim as int,
                cfg.vocab_size as int,
                row_norm(cfg, 1, stream(w.blocks.len()), mem[w.final_norm]),
                mem[w.lm_head],
            )
            &&& forall|l: int|
                0 <= l < w.blocks.len() ==> {
                    &&& after[#[trigger] cache.k[l]] == step_keys(
                        cfg,
                        w.blocks[l],
                        pos as int,
                        mem,
                        stream(l as nat),
                        cache.k[l],
                    )
                    &&& after[cache.v[l]] == step_values(
                        cfg,
                        w.blocks[l],
                        pos as int,
                        mem,
                        stream(l as nat),
                        cache.v[l],
                    )
                }
        }),
{
    let cfg = w.cfg;
    let s = inference_graphs::scratch_build(c, cfg, max_context_len).1;
    let n = w.blocks.len();
    let (k, v) = (cache.k, cache.v);
    let mems = Seq::new(
        n + 1,
        |l: int| step_mem(c, max_context_len, e, w, token, cache, pos, mem, l as nat),
    );
    assert forall|l: int| 0 <= l < n implies #[trigger] layer_ran(
        c,
        cfg,
        w.blocks[l],
        k[l],
        v[l],
        pos as int,
        s.hidden,
        mems[l],
        mems[l + 1],
    ) by {
        lemma_step_ran(c, max_context_len, e, w, token, cache, pos, mem, l as nat);
    }
    lemma_step_starts(c, max_context_len, e, w, token, cache, pos, mem);
    lemma_layers_ran(c, cfg, w.blocks, k, v, pos as int, s.hidden, mem, mems, n);
    lemma_step_ends(c, max_context_len, e, w, token, cache, pos, mem);
    let m = mems[n as int];
    assert(m[w.final_norm] == mem[w.final_norm] && m[w.lm_head] == mem[w.lm_head]);
}

/// What is in memory once the first `n` layers of a decode step have run.
#[verifier::opaque]
spec fn step_mem(
    c: Seq<Init>,
    max_context_len: u32,
    e: Seq<Init>,
    w: ModelWeightsView,
    token: Tensor,
    cache: CacheView,
    pos: u32,
    mem: Memory,
    n: nat,
) -> Memory {
    let cfg = w.cfg;
    let s = inference_graphs::scratch_build(c, cfg, max_context_len).1;
    let emb = EmbeddingMeta { vocab_size: cfg.vocab_size, dim: cfg.dim, seq_len: 1 };
    meaning::run(
        overwritten(e, s.step_writes(pos, cfg)),
        inference::decode_layers(
            seq![emit::embedding_node(token, w.embedding, s.hidden, emb, s.emb_meta)],
            w.blocks,
            s,
            cache.k,
            cache.v,
            (pos + 1) as u32,
            cfg,
            n,
        ),
        mem,
    )
}

proof fn lemma_step_ran(
    c: Seq<Init>,
    max_context_len: u32,
    e: Seq<Init>,
    w: ModelWeightsView,
    token: Tensor,
    cache: CacheView,
    pos: u32,
    mem: Memory,
    l: nat,
)
    requires
        pos < u32::MAX,
        3 * w.cfg.dim <= u32::MAX,
        c.len() + 25 <= usize::MAX,
        inference_graphs::scratch_build(c, w.cfg, max_context_len).0.is_prefix_of(e),
        caches_apart(c, w.blocks, cache.k, cache.v),
        l < w.blocks.len(),
    ensures
        layer_ran(
            c,
            w.cfg,
            w.blocks[l as int],
            cache.k[l as int],
            cache.v[l as int],
            pos as int,
            inference_graphs::scratch_build(c, w.cfg, max_context_len).1.hidden,
            step_mem(c, max_context_len, e, w, token, cache, pos, mem, l),
            step_mem(c, max_context_len, e, w, token, cache, pos, mem, l + 1),
        ),
{
    reveal(step_mem);
    let cfg = w.cfg;
    let i = l as int;
    let (k, v) = (cache.k, cache.v);
    let s = inference_graphs::scratch_build(c, cfg, max_context_len).1;
    let emb = EmbeddingMeta { vocab_size: cfg.vocab_size, dim: cfg.dim, seq_len: 1 };
    let g = seq![emit::embedding_node(token, w.embedding, s.hidden, emb, s.emb_meta)];
    let both = k + v;
    assert(both[i] == k[i] && both[k.len() + i] == v[i]);
    let pair = seq![k[i], v[i]];
    assert(apart(w.blocks[i], both) && weights_outside(c, w.blocks[i]));
    assert forall|t: Tensor| !both.contains(t) implies !#[trigger] pair.contains(t) by {
        assert(both.contains(k[i]) && both.contains(v[i]));
    }
    lemma_layer_runs(c, cfg, max_context_len, e, g, w.blocks, k, v, pos, mem, l);
}

proof fn lemma_step_starts(
    c: Seq<Init>,
    max_context_len: u32,
    e: Seq<Init>,
    w: ModelWeightsView,
    token: Tensor,
    cache: CacheView,
    pos: u32,
    mem: Memory,
)
    requires
        3 * w.cfg.dim <= u32::MAX,
        c.len() + 25 <= usize::MAX,
        inference_graphs::scratch_build(c, w.cfg, max_context_len).0.is_prefix_of(e),
    ensures
        ({
            let cfg = w.cfg;
            let s = inference_graphs::scratch_build(c, cfg, max_context_len).1;
            let m = step_mem(c, max_context_len, e, w, token, cache, pos, mem, 0);
            &&& m[s.hidden] == meaning::lookup(
                EmbeddingMeta { vocab_size: cfg.vocab_size, dim: cfg.dim, seq_len: 1 },
                mem[token],
                mem[w.embedding],
            )
            &&& forall|t: Tensor| outside(c, t) ==> #[trigger] m[t] == mem[t]
        }),
{
    reveal(step_mem);
    let cfg = w.cfg;
    let s = inference_graphs::scratch_build(c, cfg, max_context_len).1;
    let ctx = overwritten(e, s.step_writes(pos, cfg));
    let emb = EmbeddingMeta { vocab_size: cfg.vocab_size, dim: cfg.dim, seq_len: 1 };
    let look = emit::embedding_node(token, w.embedding, s.hidden, emb, s.emb_meta);
    lemma_decode_records(c, cfg, max_context_len, e, pos);
    lemma_ends_inside(c, cfg, max_context_len);
    meaning::lemma_run_one(ctx, look, mem);
    lemma_looked_up(ctx, look, s.hidden, mem);
}

proof fn lemma_step_ends(
    c: Seq<Init>,
    max_context_len: u32,
    e: Seq<Init>,
    w: ModelWeightsView,
    token: Tensor,
    cache: CacheView,
    pos: u32,
    mem: Memory,
)
    requires
        3 * w.cfg.dim <= u32::MAX,
        c.len() + 25 <= usize::MAX,
        inference_graphs::scratch_build(c, w.cfg, max_context_len).0.is_prefix_of(e),
        outside(c, w.lm_head),
    ensures
        ({
            let cfg = w.cfg;
            let s = inference_graphs::scratch_build(c, cfg, max_context_len).1;
            let ctx = overwritten(e, s.step_writes(pos, cfg));
            let after = meaning::run(ctx, inference::step_graph(w, s, token, cache, pos), mem);
            let m = step_mem(c, max_context_len, e, w, token, cache, pos, mem, w.blocks.len());
            &&& after[s.logits] == meaning::product(
                1,
                cfg.dim as int,
                cfg.vocab_size as int,
                row_norm(cfg, 1, m[s.hidden], m[w.final_norm]),
                m[w.lm_head],
            )
            &&& forall|t: Tensor| outside(c, t) ==> #[trigger] after[t] == m[t]
        }),
{
    reveal(step_mem);
    let cfg = w.cfg;
    let s = inference_graphs::scratch_build(c, cfg, max_context_len).1;
    let ctx = overwritten(e, s.step_writes(pos, cfg));
    let emb = EmbeddingMeta { vocab_size: cfg.vocab_size, dim: cfg.dim, seq_len: 1 };
    let layers = inference::decode_layers(
        seq![emit::embedding_node(token, w.embedding, s.hidden, emb, s.emb_meta)],
        w.blocks,
        s,
        cache.k,
        cache.v,
        (pos + 1) as u32,
        cfg,
        w.blocks.len(),
    );
    let whole = inference::step_graph(w, s, token, cache, pos);
    let norm = whole[layers.len() as int];
    let head = whole[layers.len() as int + 1];
    assert(whole =~= layers.push(norm).push(head));
    meaning::lemma_run_push(ctx, layers, norm, mem);
    meaning::lemma_run_push(ctx, layers.push(norm), head, mem);
    lemma_decode_records(c, cfg, max_context_len, e, pos);
    lemma_ends_inside(c, cfg, max_context_len);
    lemma_last_two(ctx, w, s, meaning::run(ctx, layers, mem));
}

/// A lookup changes the buffer that it writes and no other.
proof fn lemma_looked_up(ctx: Seq<Init>, look: NodeView, out: Tensor, mem: Memory)
    requires
        look.kernel == Kernel::Embedding,
        look.buffers.len() == 4,
        look.buffers[2] == out,
    ensures
        ({
            let after = meaning::exec(ctx, look, mem);
            &&& after[out] == meaning::lookup(
                meaning::record(ctx, look.buffers[3])->Embedding_0,
                mem[look.buffers[0]],
                mem[look.buffers[1]],
            )
            &&& forall|t: Tensor| t != out ==> #[trigger] after[t] == mem[t]
        }),
{
}

/// The final norm and the head.
proof fn lemma_last_two(ctx: Seq<Init>, w: ModelWeightsView, s: DecodeScratch, m: Memory)
    requires
        meaning::holds(
            ctx,
            s.norm_meta,
            Meta::Norm(NormMeta { seq_len: 1, size: w.cfg.dim, eps: w.cfg.norm_eps }),
        ),
        meaning::record(ctx, s.lm_meta) == Meta::MatMul(
            MatMulMeta { m: 1, n: w.cfg.vocab_size, k: w.cfg.dim },
        ),
        s.final_norm_out != w.lm_head,
        s.final_norm_out != s.logits,
    ensures
        ({
            let norm = emit::rmsnorm_node(
                s.hidden,
                w.final_norm,
                s.final_norm_out,
                NormMeta { seq_len: 1, size: w.cfg.dim, eps: w.cfg.norm_eps },
                s.norm_meta,
            );
            let head = emit::matmul_node(
                s.final_norm_out,
                w.lm_head,
                s.logits,
                MatMulMeta { m: 1, n: w.cfg.vocab_size, k: w.cfg.dim },
                s.lm_meta,
            );
            let after = meaning::exec(ctx, head, meaning::exec(ctx, norm, m));
            &&& after[s.logits] == meaning::product(
                1,
                w.cfg.dim as int,
                w.cfg.vocab_size as int,
                row_norm(w.cfg, 1, m[s.hidden], m[w.final_norm]),
                m[w.lm_head],
            )
            &&& forall|t: Tensor|
                t != s.logits && t != s.final_norm_out ==> #[trigger] after[t] == m[t]
        }),
{
}

proof fn lemma_ends_inside(c: Seq<Init>, cfg: ModelConfig, max_context_len: u32)
    requires
        c.len() + 25 <= usize::MAX,
    ensures
        ({
            let s = inference_graphs::scratch_build(c, cfg, max_context_len).1;
            &&& !outside(c, s.hidden) && !outside(c, s.final_norm_out) && !outside(c, s.logits)
            &&& s.final_norm_out != s.logits
        }),
{
    reveal(inference_graphs::scratch_build);
}

// ---- prefill ----

/// Causal attention over the first `rows` rows.
pub open spec fn whole_prompt(cfg: ModelConfig, rows: int) -> FlashAttnMeta {
    FlashAttnMeta {
        seq_len: rows as u32,
        dim: cfg.dim,
        head_dim: cfg.spec_head_dim(),
        scale: Scalar::RecipSqrt(cfg.spec_head_dim()),
        row_offset: 0,
    }
}

/// The first rows of a cache.
pub open spec fn first_rows(cfg: ModelConfig, rows: int) -> CacheWriteMeta {
    CacheWriteMeta { row_count: rows as u32, width: cfg.dim, dst_row_offset: 0 }
}

/// `out` is what a prompt layer makes of the stream `h`: a transformer block whose
/// rotated queries attend to the rotated keys and the values of the prompt itself.
/// The attention covers the whole buffer that it goes to, whatever was there.
pub open spec fn is_prompt_block(
    cfg: ModelConfig,
    bw: BlockWeights,
    rows: int,
    mem: Memory,
    h: Term,
    out: Term,
) -> bool {
    let turn = positions(cfg, rows, 0);
    exists|into: Term|
        out == #[trigger] behind_block(
            cfg,
            bw,
            rows,
            mem,
            h,
            meaning::attention(
                whole_prompt(cfg, rows),
                into,
                meaning::rotated(turn, role(cfg, bw, rows, mem, h, 0)),
                meaning::rotated(turn, role(cfg, bw, rows, mem, h, 1)),
                role(cfg, bw, rows, mem, h, 2),
            ),
        )
}

/// The key cache of a layer once the prompt's rows are in it.
pub open spec fn prompt_keys(
    cfg: ModelConfig,
    bw: BlockWeights,
    rows: int,
    mem: Memory,
    h: Term,
    cache_k: Tensor,
) -> Term {
    meaning::with_rows(
        first_rows(cfg, rows),
        mem[cache_k],
        meaning::rotated(positions(cfg, rows, 0), role(cfg, bw, rows, mem, h, 1)),
    )
}

/// The value cache of a layer once the prompt's rows are in it.
pub open spec fn prompt_values(
    cfg: ModelConfig,
    bw: BlockWeights,
    rows: int,
    mem: Memory,
    h: Term,
    cache_v: Tensor,
) -> Term {
    meaning::with_rows(first_rows(cfg, rows), mem[cache_v], role(cfg, bw, rows, mem, h, 2))
}

/// `after` is what a prompt layer on `hidden`, built in `c`, leaves of `m`.
#[verifier::opaque]
pub open spec fn prompt_layer_ran(
    c: Seq<Init>,
    cfg: ModelConfig,
    bw: BlockWeights,
    k: Tensor,
    v: Tensor,
    rows: int,
    hidden: Tensor,
    m: Memory,
    after: Memory,
) -> bool {
    &&& after[k] == prompt_keys(cfg, bw, rows, m, m[hidden], k)
    &&& after[v] == prompt_values(cfg, bw, rows, m, m[hidden], v)
    &&& is_prompt_block(cfg, bw, rows, m, m[hidden], after[hidden])
    &&& forall|t: Tensor|
        t.id < c.len() && t != k && t != v && t != hidden ==> #[trigger] after[t] == m[t]
}

/// The buffers of a prompt layer, as its dispatches bind them.
spec fn prompt_pre(g: Seq<NodeView>) -> inference_graphs::PreAttn {
    inference_graphs::PreAttn {
        hidden: g[0].buffers[0],
        norm_out: g[0].buffers[2],
        qkv_out: g[1].buffers[2],
        q_buf: g[2].buffers[1],
        k_buf: g[3].buffers[1],
        v_buf: g[4].buffers[1],
        norm_meta: g[0].buffers[3],
        qkv_proj_meta: g[1].buffers[3],
        q_split_meta: g[2].buffers[2],
        k_split_meta: g[3].buffers[2],
        v_split_meta: g[4].buffers[2],
    }
}

spec fn prompt_post(g: Seq<NodeView>) -> inference_graphs::PostAttn {
    inference_graphs::PostAttn {
        hidden: g[10].buffers[2],
        attn_out: g[10].buffers[0],
        norm_out: g[11].buffers[2],
        ffn_up_out: g[12].buffers[2],
        out_proj_meta: g[10].buffers[3],
        norm_meta: g[11].buffers[3],
        ffnup_meta: g[12].buffers[3],
        ffndown_meta: g[14].buffers[3],
    }
}

/// How a prompt layer is put together.
proof fn lemma_prompt_shape(
    c: Seq<Init>,
    bw: BlockWeights,
    hidden: Tensor,
    cache_k: Tensor,
    cache_v: Tensor,
    rows: u32,
    cfg: ModelConfig,
)
    requires
        c.len() + 23 <= usize::MAX,
        3 * cfg.dim <= u32::MAX,
    ensures
        ({
            let (d, g) = inference_graphs::prefill_layer(
                c,
                bw,
                hidden,
                cache_k,
                cache_v,
                rows,
                cfg,
            );
            let pre = prompt_pre(g);
            let post = prompt_post(g);
            let mm = |t: Tensor| meaning::record(d, t)->MatMul_0;
            let n = c.len();
            &&& d.len() == n + 23
            &&& c.is_prefix_of(d)
            &&& g =~= inference_graphs::pre_attn_nodes(bw, pre, rows, cfg) + seq![
                g[5],
                g[6],
                g[7],
                g[8],
                g[9],
            ] + inference_graphs::post_attn_nodes(bw, post, rows, cfg)
            &&& pre.hidden == hidden && post.hidden == hidden
            &&& pre.norm_out.id == n && pre.qkv_out.id == n + 1 && pre.q_buf.id == n + 2
            &&& pre.k_buf.id == n + 3 && pre.v_buf.id == n + 4
            &&& post.attn_out.id == n + 14 && post.norm_out.id == n + 17
            &&& post.ffn_up_out.id == n + 18
            &&& meaning::holds(d, pre.norm_meta, Meta::Norm(inference_graphs::norm_shape(rows, cfg)))
            &&& meaning::holds(d, post.norm_meta, Meta::Norm(inference_graphs::norm_shape(rows, cfg)))
            &&& pre.qkv_proj_meta.id < d.len() && meaning::record(d, pre.qkv_proj_meta) is MatMul
            &&& mm(pre.qkv_proj_meta).m == rows && mm(pre.qkv_proj_meta).n == 3 * cfg.dim
            &&& mm(pre.qkv_proj_meta).k == cfg.dim
            &&& post.out_proj_meta.id < d.len() && meaning::record(d, post.out_proj_meta) is MatMul
            &&& mm(post.out_proj_meta).m == rows && mm(post.out_proj_meta).n == cfg.dim
            &&& mm(post.out_proj_meta).k == cfg.dim
            &&& post.ffnup_meta.id < d.len() && meaning::record(d, post.ffnup_meta) is MatMul
            &&& mm(post.ffnup_meta).m == rows && mm(post.ffnup_meta).n == cfg.ffn_hidden
            &&& mm(post.ffnup_meta).k == cfg.dim
            &&& post.ffndown_meta.id < d.len() && meaning::record(d, post.ffndown_meta) is MatMul
            &&& mm(post.ffndown_meta).m == rows && mm(post.ffndown_meta).n == cfg.dim
            &&& mm(post.ffndown_meta).k == cfg.ffn_hidden
            &&& meaning::holds(d, pre.q_split_meta, Meta::HeadMove(part(cfg, rows as int, 0)))
            &&& meaning::holds(d, pre.k_split_meta, Meta::HeadMove(part(cfg, rows as int, 1)))
            &&& meaning::holds(d, pre.v_split_meta, Meta::HeadMove(part(cfg, rows as int, 2)))
            &&& g[5].kernel == Kernel::Rope && g[5].buffers.len() == 2
            &&& g[5].buffers[0] == pre.q_buf
            &&& g[6].kernel == Kernel::Rope && g[6].buffers.len() == 2
            &&& g[6].buffers[0] == pre.k_buf
            &&& g[7].kernel == Kernel::CacheWrite && g[7].buffers.len() == 3
            &&& g[7].buffers[0] == pre.k_buf && g[7].buffers[1] == cache_k
            &&& g[8].kernel == Kernel::CacheWrite && g[8].buffers.len() == 3
            &&& g[8].buffers[0] == pre.v_buf && g[8].buffers[1] == cache_v
            &&& g[9].kernel == Kernel::FlashAttention && g[9].buffers.len() == 6
            &&& g[9].buffers[0] == pre.q_buf && g[9].buffers[1] == pre.k_buf
            &&& g[9].buffers[2] == pre.v_buf && g[9].buffers[3] == post.attn_out
            &&& g[9].buffers[4].id == n + 15
            &&& g[5].buffers[1].id < d.len() && g[6].buffers[1].id < d.len()
            &&& g[7].buffers[2].id < d.len() && g[8].buffers[2].id < d.len()
            &&& g[9].buffers[5].id < d.len()
            &&& meaning::turn_of(meaning::record(d, g[5].buffers[1])) == positions(
                cfg,
                rows as int,
                0,
            )
            &&& meaning::turn_of(meaning::record(d, g[6].buffers[1])) == positions(
                cfg,
                rows as int,
                0,
            )
            &&& meaning::record(d, g[7].buffers[2]) == Meta::CacheWrite(first_rows(cfg, rows as int))
            &&& meaning::record(d, g[8].buffers[2]) == Meta::CacheWrite(first_rows(cfg, rows as int))
            &&& meaning::record(d, g[9].buffers[5]) == Meta::FlashAttn(
                whole_prompt(cfg, rows as int),
            )
        }),
{
    reveal(inference_graphs::prefill_layer);
    assert(cfg.dim * 3 == 3 * cfg.dim);
}

/// A prompt layer adds to the context that it starts in.
pub(crate) proof fn lemma_prompt_extends(
    c: Seq<Init>,
    bw: BlockWeights,
    hidden: Tensor,
    cache_k: Tensor,
    cache_v: Tensor,
    rows: u32,
    cfg: ModelConfig,
)
    requires
        c.len() + 23 <= usize::MAX,
        3 * cfg.dim <= u32::MAX,
    ensures
        ({
            let d = inference_graphs::prefill_layer(c, bw, hidden, cache_k, cache_v, rows, cfg).0;
            d.len() == c.len() + 23 && c.is_prefix_of(d)
        }),
{
    lemma_prompt_shape(c, bw, hidden, cache_k, cache_v, rows, cfg);
}

/// A prompt layer is a transformer block, the same as a decode layer's: the prompt's
/// rotated keys go to the first rows of the key cache and its values to those of the
/// value cache. `e` is any context that the layer's own is the start of.
pub proof fn prefill_layer_is_a_block(
    c: Seq<Init>,
    bw: BlockWeights,
    hidden: Tensor,
    cache_k: Tensor,
    cache_v: Tensor,
    rows: u32,
    cfg: ModelConfig,
    e: Seq<Init>,
    mem: Memory,
)
    requires
        c.len() + 23 <= usize::MAX,
        3 * cfg.dim <= u32::MAX,
        inference_graphs::prefill_layer(c, bw, hidden, cache_k, cache_v, rows, cfg).0.is_prefix_of(
            e,
        ),
        hidden.id < c.len() && cache_k.id < c.len() && cache_v.id < c.len(),
        seq![hidden, cache_k, cache_v].no_duplicates(),
        apart(bw, seq![hidden, cache_k, cache_v]),
        bw.norm_1.id < c.len() && bw.qkv_proj.id < c.len() && bw.out_proj.id < c.len(),
        bw.norm_2.id < c.len() && bw.ffn_up.id < c.len() && bw.ffn_down.id < c.len(),
    ensures
        prompt_layer_ran(
            c,
            cfg,
            bw,
            cache_k,
            cache_v,
            rows as int,
            hidden,
            mem,
            meaning::run(
                e,
                inference_graphs::prefill_layer(c, bw, hidden, cache_k, cache_v, rows, cfg).1,
                mem,
            ),
        ),
{
    reveal(prompt_layer_ran);
    let (d, g) = inference_graphs::prefill_layer(c, bw, hidden, cache_k, cache_v, rows, cfg);
    lemma_prompt_shape(c, bw, hidden, cache_k, cache_v, rows, cfg);
    let pre = prompt_pre(g);
    let post = prompt_post(g);
    let first = inference_graphs::pre_attn_nodes(bw, pre, rows, cfg);
    let mid = seq![g[5], g[6], g[7], g[8], g[9]];
    let last = inference_graphs::post_attn_nodes(bw, post, rows, cfg);
    meaning::run_is_sequential(e, first + mid, last, mem);
    meaning::run_is_sequential(e, first, mid, mem);
    let m0 = meaning::run(e, first, mem);
    let m5 = meaning::run(e, mid, m0);
    let after = meaning::run(e, g, mem);
    lemma_same_records(d, e);
    let three = seq![hidden, cache_k, cache_v];
    assert(three[0] == hidden && three[1] == cache_k && three[2] == cache_v);
    lemma_first_half(e, bw, pre, rows, cfg, mem);
    lemma_prompt_middle(e, g, cache_k, cache_v, rows, cfg, m0);
    lemma_second_half(e, bw, post, rows, cfg, m5);
    let bufs = seq![pre.norm_out, pre.qkv_out, pre.q_buf, pre.k_buf, pre.v_buf];
    let ends = seq![post.hidden, post.norm_out, post.ffn_up_out];
    assert(bufs[0] == pre.norm_out && bufs[1] == pre.qkv_out && bufs[2] == pre.q_buf);
    assert(bufs[3] == pre.k_buf && bufs[4] == pre.v_buf);
    assert(ends[0] == hidden && ends[1] == post.norm_out && ends[2] == post.ffn_up_out);
    assert forall|t: Tensor| t.id < c.len() implies #[trigger] m0[t] == mem[t] by {
        assert(!bufs.contains(t));
    }
    assert forall|t: Tensor| t.id < c.len() && t != hidden implies #[trigger] after[t] == m5[t] by {
        assert(!ends.contains(t));
    }
    assert(m5[hidden] == mem[hidden]);
    let h = mem[hidden];
    let turn = positions(cfg, rows as int, 0);
    let attended = meaning::attention(
        whole_prompt(cfg, rows as int),
        m0[post.attn_out],
        meaning::rotated(turn, role(cfg, bw, rows as int, mem, h, 0)),
        meaning::rotated(turn, role(cfg, bw, rows as int, mem, h, 1)),
        role(cfg, bw, rows as int, mem, h, 2),
    );
    assert(m5[post.attn_out] == attended);
    assert(m5[bw.norm_2] == mem[bw.norm_2] && m5[bw.out_proj] == mem[bw.out_proj]);
    assert(m5[bw.ffn_up] == mem[bw.ffn_up] && m5[bw.ffn_down] == mem[bw.ffn_down]);
    assert(after[hidden] == behind_block(cfg, bw, rows as int, mem, h, attended));
}

/// A longer context holds the same records.
proof fn lemma_same_records(d: Seq<Init>, e: Seq<Init>)
    requires
        d.is_prefix_of(e),
    ensures
        forall|t: Tensor| t.id < d.len() ==> #[trigger] meaning::record(e, t) == meaning::record(d, t),
        forall|t: Tensor, m: Meta| #[trigger]
            meaning::holds(d, t, m) ==> meaning::holds(e, t, m),
{
    assert forall|i: int| 0 <= i < d.len() implies #[trigger] e[i] == d[i] by {
    }
}

proof fn lemma_prompt_middle(
    e: Seq<Init>,
    g: Seq<NodeView>,
    cache_k: Tensor,
    cache_v: Tensor,
    rows: u32,
    cfg: ModelConfig,
    m0: Memory,
)
    requires
        g.len() >= 10,
        ({
            let pre = prompt_pre(g);
            let post = prompt_post(g);
            &&& g[5].kernel == Kernel::Rope && g[5].buffers.len() == 2
            &&& g[5].buffers[0] == pre.q_buf
            &&& g[6].kernel == Kernel::Rope && g[6].buffers.len() == 2
            &&& g[6].buffers[0] == pre.k_buf
            &&& g[7].kernel == Kernel::CacheWrite && g[7].buffers.len() == 3
            &&& g[7].buffers[0] == pre.k_buf && g[7].buffers[1] == cache_k
            &&& g[8].kernel == Kernel::CacheWrite && g[8].buffers.len() == 3
            &&& g[8].buffers[0] == pre.v_buf && g[8].buffers[1] == cache_v
            &&& g[9].kernel == Kernel::FlashAttention && g[9].buffers.len() == 6
            &&& g[9].buffers[0] == pre.q_buf && g[9].buffers[1] == pre.k_buf
            &&& g[9].buffers[2] == pre.v_buf && g[9].buffers[3] == post.attn_out
            &&& pre.q_buf != pre.k_buf && pre.q_buf != pre.v_buf && pre.k_buf != pre.v_buf
            &&& cache_k != cache_v
            &&& cache_k != pre.q_buf && cache_k != pre.k_buf && cache_k != pre.v_buf
            &&& cache_v != pre.q_buf && cache_v != pre.k_buf && cache_v != pre.v_buf
            &&& post.attn_out != pre.q_buf && post.attn_out != pre.k_buf
            &&& post.attn_out != pre.v_buf && post.attn_out != cache_k && post.attn_out != cache_v
            &&& g[9].buffers[4] != cache_k && g[9].buffers[4] != cache_v
            &&& g[9].buffers[4] != post.attn_out
        }),
        meaning::turn_of(meaning::record(e, g[5].buffers[1])) == positions(cfg, rows as int, 0),
        meaning::turn_of(meaning::record(e, g[6].buffers[1])) == positions(cfg, rows as int, 0),
        meaning::record(e, g[7].buffers[2]) == Meta::CacheWrite(first_rows(cfg, rows as int)),
        meaning::record(e, g[8].buffers[2]) == Meta::CacheWrite(first_rows(cfg, rows as int)),
        meaning::record(e, g[9].buffers[5]) == Meta::FlashAttn(whole_prompt(cfg, rows as int)),
    ensures
        ({
            let pre = prompt_pre(g);
            let post = prompt_post(g);
            let after = meaning::run(e, seq![g[5], g[6], g[7], g[8], g[9]], m0);
            let turn = positions(cfg, rows as int, 0);
            let keys = meaning::rotated(turn, m0[pre.k_buf]);
            &&& after[cache_k] == meaning::with_rows(
                first_rows(cfg, rows as int),
                m0[cache_k],
                keys,
            )
            &&& after[cache_v] == meaning::with_rows(
                first_rows(cfg, rows as int),
                m0[cache_v],
                m0[pre.v_buf],
            )
            &&& after[post.attn_out] == meaning::attention(
                whole_prompt(cfg, rows as int),
                m0[post.attn_out],
                meaning::rotated(turn, m0[pre.q_buf]),
                keys,
                m0[pre.v_buf],
            )
            &&& forall|t: Tensor|
                t != cache_k && t != cache_v && t != post.attn_out && t != pre.q_buf && t
                    != pre.k_buf && t != g[9].buffers[4] ==> #[trigger] after[t] == m0[t]
        }),
{
    let mid = seq![g[5], g[6], g[7], g[8], g[9]];
    meaning::lemma_run_five(e, mid, m0);
    let pre = prompt_pre(g);
    let m1 = meaning::exec(e, g[5], m0);
    let m2 = meaning::exec(e, g[6], m1);
    let m3 = meaning::exec(e, g[7], m2);
    let m4 = meaning::exec(e, g[8], m3);
    assert(m4[pre.q_buf] == meaning::rotated(positions(cfg, rows as int, 0), m0[pre.q_buf]));
    assert(m4[pre.k_buf] == meaning::rotated(positions(cfg, rows as int, 0), m0[pre.k_buf]));
    assert(m4[pre.v_buf] == m0[pre.v_buf]);
}

} // verus!
