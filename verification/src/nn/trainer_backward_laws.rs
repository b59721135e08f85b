//! What the backward pass of the trainer's batched block hands back: the derivative of
//! each part, from the last to the first, with the two branches of each residual sum
//! added up.
use super::kernels::emit;
use super::kernels::meta::{HeadMoveMeta, KernelMeta};
use super::layer_laws::part;
use super::layers;
use super::meaning::{self, Memory, Term};
use super::ops;
use super::trainer_block_laws::{self, stages, trainer_norm, weights_before, Bufs};
use super::trainer_laws;
use super::transformer::{self, TransformerBlockView};
use super::weights::BlockWeights;
use crate::config::ModelConfig;
use crate::device::{self, Init, NodeView, Tensor};
use vstd::prelude::*;

verus! {

// ---- formulas ----

/// What reaches the second half of a block: the weights' gradients grow by `down`,
/// `up` and `norm`, and `mid` reaches the stream between the halves.
pub struct RearGrads {
    pub down: Term,
    pub up: Term,
    pub norm: Term,
    pub mid: Term,
}

/// The derivative of the second half of a block at what `m` holds, when `g` reaches
/// its feed-forward layers and `rest` the stream beside them.
pub open spec fn rear_grads(
    cfg: ModelConfig,
    rows: u32,
    bw: BlockWeights,
    z: Bufs,
    m: Memory,
    rest: Term,
    g: Term,
) -> RearGrads {
    let (r, d, h) = (rows as int, cfg.dim as int, cfg.ffn_hidden as int);
    let down = meaning::product(r, h, d, m[z.up], m[bw.ffn_down]);
    let up = meaning::product(r, d, h, m[z.norm_2], m[bw.ffn_up]);
    let norm = trainer_norm(cfg, rows, m[z.input], m[bw.norm_2]);
    let g_up = meaning::back(meaning::silu(m[z.up]), 0, meaning::back(down, 0, g));
    let g_norm = meaning::back(up, 0, g_up);
    RearGrads {
        down: meaning::back(down, 1, g),
        up: meaning::back(up, 1, g_up),
        norm: meaning::back(norm, 1, g_norm),
        mid: meaning::sum(rest, meaning::back(norm, 0, g_norm)),
    }
}

/// The derivative of queries, keys, values and their norm, when `g` reaches the three
/// side by side.
pub open spec fn front_grads(
    cfg: ModelConfig,
    rows: u32,
    bw: BlockWeights,
    z: Bufs,
    m: Memory,
    g: Term,
) -> (Term, Term, Term) {
    let qkv = meaning::product(
        rows as int,
        cfg.dim as int,
        3 * cfg.dim,
        m[z.norm_1],
        m[bw.qkv_proj],
    );
    let norm = trainer_norm(cfg, rows, m[z.input], m[bw.norm_1]);
    let g_norm = meaning::back(qkv, 0, g);
    (meaning::back(qkv, 1, g), meaning::back(norm, 1, g_norm), meaning::back(norm, 0, g_norm))
}

// ---- steps ----

/// `m2` is `m` with the derivative of a product in `dx` and added up in `gw`.
pub open spec fn product_back(
    m: Memory,
    m2: Memory,
    r: int,
    i: int,
    o: int,
    x: Tensor,
    w: Tensor,
    dy: Tensor,
    dx: Tensor,
    gw: Tensor,
) -> bool {
    let y = meaning::product(r, i, o, m[x], m[w]);
    &&& m2[dx] == meaning::back(y, 0, m[dy])
    &&& m2[gw] == meaning::sum(m[gw], meaning::back(y, 1, m[dy]))
    &&& forall|t: Tensor| t != dx && t != gw ==> #[trigger] m2[t] == m[t]
}

/// `m2` is `m` with the derivative of a norm in `dx` and added up in `gw`.
pub open spec fn norm_back(
    cfg: ModelConfig,
    rows: u32,
    m: Memory,
    m2: Memory,
    x: Tensor,
    w: Tensor,
    dy: Tensor,
    dx: Tensor,
    gw: Tensor,
    rs: Tensor,
) -> bool {
    let y = trainer_norm(cfg, rows, m[x], m[w]);
    &&& m2[dx] == meaning::back(y, 0, m[dy])
    &&& m2[gw] == meaning::sum(m[gw], meaning::back(y, 1, m[dy]))
    &&& forall|t: Tensor| t != dx && t != gw && t != rs ==> #[trigger] m2[t] == m[t]
}

/// `m2` is `m` with what reaches a sum added to both gradients.
pub open spec fn sum_back(m: Memory, m2: Memory, dy: Tensor, da: Tensor, db: Tensor) -> bool {
    &&& m2[da] == meaning::sum(m[da], m[dy])
    &&& m2[db] == meaning::sum(m[db], m[dy])
    &&& forall|t: Tensor| t != da && t != db ==> #[trigger] m2[t] == m[t]
}

/// The gradient buffers of a block, by number of making, and those of its weights.
pub struct Grads {
    pub dy: Tensor,
    pub dx: Tensor,
    pub g0: Tensor,
    pub g1: Tensor,
    pub g2: Tensor,
    pub g3: Tensor,
    pub g4: Tensor,
    pub g5: Tensor,
    pub g6: Tensor,
    pub g7: Tensor,
    pub g8: Tensor,
    pub g9: Tensor,
    pub g10: Tensor,
    pub g11: Tensor,
    pub g12: Tensor,
    pub g13: Tensor,
    pub norm_1: Tensor,
    pub scale_1: Tensor,
    pub qkv: Tensor,
    pub proj: Tensor,
    pub norm_2: Tensor,
    pub scale_2: Tensor,
    pub up: Tensor,
    pub down: Tensor,
}

pub open spec fn grads_of(
    c: Seq<Init>,
    cfg: ModelConfig,
    b: TransformerBlockView,
    dy: Tensor,
    dx: Tensor,
) -> Grads {
    let rows = transformer::batch_rows(cfg);
    let d = rows * cfg.dim;
    let h = rows * cfg.ffn_hidden;
    Grads {
        dy,
        dx,
        g0: transformer::grad_buf(c, 0, d),
        g1: transformer::grad_buf(c, 1, d),
        g2: transformer::grad_buf(c, 2, h),
        g3: transformer::grad_buf(c, 3, h),
        g4: transformer::grad_buf(c, 4, d),
        g5: transformer::grad_buf(c, 5, d),
        g6: transformer::grad_buf(c, 6, d),
        g7: transformer::grad_buf(c, 7, d),
        g8: transformer::grad_buf(c, 8, d),
        g9: transformer::grad_buf(c, 9, d),
        g10: transformer::grad_buf(c, 10, d),
        g11: transformer::grad_buf(c, 11, 3 * d),
        g12: transformer::grad_buf(c, 12, d),
        g13: transformer::grad_buf(c, 13, d),
        norm_1: b.norm_1.grad_weight,
        scale_1: b.norm_1.rsqrt_cache,
        qkv: b.qkv_proj.grad_weight,
        proj: b.out_proj.grad_weight,
        norm_2: b.norm_2.grad_weight,
        scale_2: b.norm_2.rsqrt_cache,
        up: b.ffn_up.grad_weight,
        down: b.ffn_down.grad_weight,
    }
}

/// Where the buffers of a block lie: gradients first, from `n` on, then the rest in the
/// order of making.
pub open spec fn laid_out(g: Grads, z: Bufs, n: nat) -> bool {
    &&& g.dy.id < n && g.dx.id < n && g.dx != g.dy && z.input.id < n && z.input != g.dx
    &&& g.g0.id == n && g.g1.id == n + 1 && g.g2.id == n + 2 && g.g3.id == n + 3
    &&& g.g4.id == n + 4 && g.g5.id == n + 5 && g.g6.id == n + 6 && g.g7.id == n + 7
    &&& g.g8.id == n + 8 && g.g9.id == n + 9 && g.g10.id == n + 10 && g.g11.id == n + 11
    &&& g.g12.id == n + 12 && g.g13.id == n + 13
    &&& g.norm_1.id == n + 14 && z.norm_1.id == n + 15 && g.scale_1.id == n + 16
    &&& n + 19 == z.qkv.id && g.qkv.id == n + 20
    &&& n + 24 == z.q.id && z.k.id == n + 25 && z.v.id == n + 26
    &&& n + 28 <= z.att.id < z.proj.id && g.proj.id == z.proj.id + 1
    &&& g.norm_2.id == z.proj.id + 5 && z.norm_2.id == z.proj.id + 6
    &&& g.scale_2.id == z.proj.id + 7
    &&& z.up.id == z.proj.id + 10 && g.up.id == z.proj.id + 11
    &&& z.down.id == z.proj.id + 15 && g.down.id == z.proj.id + 16
}

pub(crate) proof fn lemma_laid_out(
    c: Seq<Init>,
    cfg: ModelConfig,
    bw: BlockWeights,
    input: Tensor,
    dy: Tensor,
    dx: Tensor,
)
    requires
        stages(c, cfg).end.len() <= usize::MAX,
        dy.id < c.len() && dx.id < c.len() && input.id < c.len(),
        dx != dy && dx != input,
    ensures
        ({
            let b = transformer::block_build(c, cfg, bw, input, dy, dx).1;
            let z = trainer_block_laws::bufs_of(input, b);
            &&& laid_out(grads_of(c, cfg, b, dy, dx), z, c.len())
            &&& z.att.id == stages(c, cfg).att.len()
            &&& z.proj.id == stages(c, cfg).proj.len()
            &&& b.add_1.grad_b == grads_of(c, cfg, b, dy, dx).g6
            &&& b.add_2.grad_a == grads_of(c, cfg, b, dy, dx).g0
            &&& b.add_2.grad_b == grads_of(c, cfg, b, dy, dx).g1
        }),
{
    trainer_block_laws::lemma_parts(c, cfg, bw, input, dy, dx);
    trainer_block_laws::lemma_stages(c, cfg);
}

/// The second half, from the last part to the first.
pub(crate) proof fn lemma_rear_back(
    cfg: ModelConfig,
    rows: u32,
    bw: BlockWeights,
    z: Bufs,
    g: Grads,
    n: nat,
    m0: Memory,
    m1: Memory,
    m2: Memory,
    m3: Memory,
    m4: Memory,
    m5: Memory,
    m6: Memory,
)
    requires
        laid_out(g, z, n),
        weights_before(bw, z.input, n),
        sum_back(m0, m1, g.dy, g.g0, g.g1),
        product_back(
            m1,
            m2,
            rows as int,
            cfg.ffn_hidden as int,
            cfg.dim as int,
            z.up,
            bw.ffn_down,
            g.g1,
            g.g2,
            g.down,
        ),
        trainer_block_laws::became(
            m2,
            m3,
            g.g3,
            meaning::back(meaning::silu(m2[z.up]), 0, m2[g.g2]),
        ),
        product_back(
            m3,
            m4,
            rows as int,
            cfg.dim as int,
            cfg.ffn_hidden as int,
            z.norm_2,
            bw.ffn_up,
            g.g3,
            g.g4,
            g.up,
        ),
        norm_back(cfg, rows, m4, m5, z.input, bw.norm_2, g.g4, g.g5, g.norm_2, g.scale_2),
        trainer_block_laws::became(m5, m6, g.g0, meaning::sum(m5[g.g0], m5[g.g5])),
    ensures
        ({
            let w = rear_grads(
                cfg,
                rows,
                bw,
                z,
                m0,
                meaning::sum(m0[g.g0], m0[g.dy]),
                meaning::sum(m0[g.g1], m0[g.dy]),
            );
            &&& m6[g.g0] == w.mid
            &&& m6[g.down] == meaning::sum(m0[g.down], w.down)
            &&& m6[g.up] == meaning::sum(m0[g.up], w.up)
            &&& m6[g.norm_2] == meaning::sum(m0[g.norm_2], w.norm)
            &&& forall|t: Tensor| t.id < n ==> #[trigger] m6[t] == m0[t]
            &&& forall|t: Tensor| n + 6 <= t.id < z.proj.id + 5 ==> #[trigger] m6[t] == m0[t]
        }),
{
    assert(m1[z.up] == m0[z.up] && m1[bw.ffn_down] == m0[bw.ffn_down]);
    assert(m2[z.up] == m0[z.up]);
    assert(m3[z.norm_2] == m0[z.norm_2] && m3[bw.ffn_up] == m0[bw.ffn_up]);
    assert(m4[z.input] == m0[z.input] && m4[bw.norm_2] == m0[bw.norm_2]);
    assert(m5[g.g0] == m1[g.g0]);
}

/// The first half, from the projection to the stream in front.
pub(crate) proof fn lemma_front_back(
    cfg: ModelConfig,
    rows: u32,
    bw: BlockWeights,
    z: Bufs,
    g: Grads,
    n: nat,
    m10: Memory,
    m11: Memory,
    m12: Memory,
    m13: Memory,
)
    requires
        laid_out(g, z, n),
        weights_before(bw, z.input, n),
        bw.qkv_proj != g.dx && bw.norm_1 != g.dx,
        product_back(
            m10,
            m11,
            rows as int,
            cfg.dim as int,
            3 * cfg.dim,
            z.norm_1,
            bw.qkv_proj,
            g.g11,
            g.g12,
            g.qkv,
        ),
        norm_back(cfg, rows, m11, m12, z.input, bw.norm_1, g.g12, g.g13, g.norm_1, g.scale_1),
        trainer_block_laws::became(m12, m13, g.dx, meaning::sum(m12[g.dx], m12[g.g13])),
    ensures
        ({
            let w = front_grads(cfg, rows, bw, z, m10, m10[g.g11]);
            &&& m13[g.dx] == meaning::sum(m10[g.dx], w.2)
            &&& m13[g.qkv] == meaning::sum(m10[g.qkv], w.0)
            &&& m13[g.norm_1] == meaning::sum(m10[g.norm_1], w.1)
            &&& forall|t: Tensor| t.id < n && t != g.dx ==> #[trigger] m13[t] == m10[t]
            &&& forall|t: Tensor| t.id >= n + 24 ==> #[trigger] m13[t] == m10[t]
        }),
{
    assert(m11[z.input] == m10[z.input] && m11[bw.norm_1] == m10[bw.norm_1]);
    assert(m12[g.dx] == m10[g.dx]);
}

/// What reaches queries (0), keys (1) or values (2), when `g` reaches the attention's
/// result; queries and keys turned back by their positions.
pub open spec fn role_grad(cfg: ModelConfig, z: Bufs, m: Memory, into: Term, g: Term, i: int) -> Term {
    let n = cfg.batch_size as nat;
    let back = trainer_laws::attended_back(
        i,
        cfg.seq_len,
        cfg.dim,
        (cfg.dim as int / cfg.num_heads as int) as u32,
        into,
        m[z.q],
        m[z.k],
        m[z.v],
        m[z.att],
        g,
        n,
    );
    if i == 2 {
        back
    } else {
        trainer_block_laws::turned_back(cfg, back, n)
    }
}

/// The attention's normalizers, as the forward pass leaves them.
pub open spec fn normalized(cfg: ModelConfig, b: TransformerBlockView, m: Memory) -> bool {
    forall|i: int|
        0 <= i < cfg.batch_size ==> m[(#[trigger] b.attention.forward_graph[i]).buffers[4]]
            == meaning::normalizers(
            trainer_laws::within(
                cfg.seq_len,
                cfg.dim,
                (cfg.dim as int / cfg.num_heads as int) as u32,
                i,
            ),
            m[b.q_buf],
            m[b.k_buf],
        )
}

/// The middle of the backward pass, in terms of buffers.
pub(crate) proof fn lemma_middle_back(
    cfg: ModelConfig,
    rows: u32,
    bw: BlockWeights,
    z: Bufs,
    g: Grads,
    n: nat,
    m6: Memory,
    m7: Memory,
    m8: Memory,
    m9: Memory,
    m10: Memory,
    m11: Memory,
)
    requires
        laid_out(g, z, n),
        weights_before(bw, z.input, n),
        bw.out_proj != g.dx,
        sum_back(m6, m7, g.g0, g.dx, g.g6),
        product_back(
            m7,
            m8,
            rows as int,
            cfg.dim as int,
            cfg.dim as int,
            z.att,
            bw.out_proj,
            g.g6,
            g.g7,
            g.proj,
        ),
        ({
            let hd = (cfg.dim as int / cfg.num_heads as int) as u32;
            let got = |i: int, t: Tensor|
                trainer_laws::attended_back(
                    i,
                    cfg.seq_len,
                    cfg.dim,
                    hd,
                    m8[t],
                    m8[z.q],
                    m8[z.k],
                    m8[z.v],
                    m8[z.att],
                    m8[g.g7],
                    cfg.batch_size as nat,
                );
            &&& m9[g.g8] == got(0, g.g8)
            &&& m9[g.g9] == got(1, g.g9)
            &&& m9[g.g10] == got(2, g.g10)
            &&& forall|t: Tensor|
                t != g.g8 && t != g.g9 && t != g.g10 ==> #[trigger] m9[t] == m8[t]
        }),
        m10[g.g8] == trainer_block_laws::turned_back(cfg, m9[g.g8], cfg.batch_size as nat),
        m10[g.g9] == trainer_block_laws::turned_back(cfg, m9[g.g9], cfg.batch_size as nat),
        forall|t: Tensor| t != g.g8 && t != g.g9 ==> #[trigger] m10[t] == m9[t],
        trainer_block_laws::became(
            m10,
            m11,
            g.g11,
            meaning::joined(part(cfg, rows as int, 0), m10[g.g8], m10[g.g9], m10[g.g10]),
        ),
    ensures
        ({
            let got = meaning::sum(m6[g.g6], m6[g.g0]);
            let proj = meaning::product(
                rows as int,
                cfg.dim as int,
                cfg.dim as int,
                m6[z.att],
                m6[bw.out_proj],
            );
            let g_att = meaning::back(proj, 0, got);
            &&& m11[g.dx] == meaning::sum(m6[g.dx], m6[g.g0])
            &&& m11[g.proj] == meaning::sum(m6[g.proj], meaning::back(proj, 1, got))
            &&& m11[g.g11] == meaning::joined(
                part(cfg, rows as int, 0),
                role_grad(cfg, z, m6, m6[g.g8], g_att, 0),
                role_grad(cfg, z, m6, m6[g.g9], g_att, 1),
                role_grad(cfg, z, m6, m6[g.g10], g_att, 2),
            )
            &&& forall|t: Tensor| t.id < n && t != g.dx ==> #[trigger] m11[t] == m6[t]
            &&& forall|t: Tensor| t.id >= n + 12 && t != g.proj ==> #[trigger] m11[t] == m6[t]
        }),
{
    assert(m7[z.att] == m6[z.att] && m7[bw.out_proj] == m6[bw.out_proj]);
    assert(m8[z.q] == m6[z.q] && m8[z.k] == m6[z.k] && m8[z.v] == m6[z.v]);
    assert(m8[z.att] == m6[z.att]);
    assert(m8[g.g8] == m6[g.g8] && m8[g.g9] == m6[g.g9] && m8[g.g10] == m6[g.g10]);
}

// ---- dispatches ----

proof fn lemma_product_back(
    c: Seq<Init>,
    e: Seq<Init>,
    i: u32,
    o: u32,
    rows: u32,
    weight: Tensor,
    x: Tensor,
    dy: Tensor,
    dx: Tensor,
    m: Memory,
)
    requires
        layers::linear_ctx(c, i, o, rows).is_prefix_of(e),
        e.len() <= usize::MAX,
        layers::linear_fits(i as int, o as int, rows as int),
        weight.id < c.len() && x.id < c.len() && dy.id < c.len() && dx.id < c.len(),
    ensures
        ({
            let l = layers::linear_view(c, i, o, rows, weight, x, dy, dx);
            product_back(
                m,
                meaning::run(e, l.backward_graph, m),
                rows as int,
                i as int,
                o as int,
                x,
                weight,
                dy,
                dx,
                l.grad_weight,
            )
        }),
{
    trainer_block_laws::lemma_linear_extends(c, i, o, rows);
    trainer_laws::linear_layer_multiplies(c, e, i, o, rows, weight, x, dy, dx, m, m);
}

proof fn lemma_norm_back(
    c: Seq<Init>,
    e: Seq<Init>,
    cfg: ModelConfig,
    rows: u32,
    weight: Tensor,
    x: Tensor,
    dy: Tensor,
    dx: Tensor,
    m: Memory,
)
    requires
        layers::rmsnorm_ctx(c, cfg.dim, rows).is_prefix_of(e),
        e.len() <= usize::MAX,
        rows * cfg.dim <= u32::MAX,
        weight.id < c.len() && x.id < c.len() && dy.id < c.len() && dx.id < c.len(),
        dx != x && dx != dy,
    ensures
        ({
            let l = layers::rmsnorm_view(c, cfg.dim, rows, weight, x, dy, dx);
            norm_back(
                cfg,
                rows,
                m,
                meaning::run(e, l.backward_graph, m),
                x,
                weight,
                dy,
                dx,
                l.grad_weight,
                l.rsqrt_cache,
            )
        }),
{
    trainer_block_laws::lemma_norm_extends(c, cfg.dim, rows);
    trainer_laws::norm_layer_normalizes(c, e, cfg.dim, rows, weight, x, dy, dx, m, m);
}

proof fn lemma_sum_back(
    e: Seq<Init>,
    length: u32,
    a: Tensor,
    b: Tensor,
    dy: Tensor,
    da: Tensor,
    db: Tensor,
    m: Memory,
)
    requires
        da != dy,
        da != db,
    ensures
        sum_back(
            m,
            meaning::run(e, layers::add_view(length, a, b, dy, da, db).backward_graph, m),
            dy,
            da,
            db,
        ),
{
    trainer_laws::add_layer_adds(e, length, a, b, dy, da, db, m, m);
}

/// What each part of a block's second half hands back.
proof fn lemma_rear_runs(
    c: Seq<Init>,
    e: Seq<Init>,
    cfg: ModelConfig,
    bw: BlockWeights,
    input: Tensor,
    dy: Tensor,
    dx: Tensor,
    m1: Memory,
    m3: Memory,
    m4: Memory,
)
    requires
        transformer::block_fits(cfg),
        stages(c, cfg).end.is_prefix_of(e),
        e.len() <= usize::MAX,
        weights_before(bw, input, c.len()),
        dy.id < c.len() && dx.id < c.len() && dx != dy && dx != input,
    ensures
        ({
            let b = transformer::block_build(c, cfg, bw, input, dy, dx).1;
            let z = trainer_block_laws::bufs_of(input, b);
            let g = grads_of(c, cfg, b, dy, dx);
            let rows = transformer::batch_rows(cfg);
            let (r, d, h) = (rows as int, cfg.dim as int, cfg.ffn_hidden as int);
            &&& product_back(
                m1,
                meaning::run(e, b.ffn_down.backward_graph, m1),
                r,
                h,
                d,
                z.up,
                bw.ffn_down,
                g.g1,
                g.g2,
                g.down,
            )
            &&& product_back(
                m3,
                meaning::run(e, b.ffn_up.backward_graph, m3),
                r,
                d,
                h,
                z.norm_2,
                bw.ffn_up,
                g.g3,
                g.g4,
                g.up,
            )
            &&& norm_back(
                cfg,
                rows,
                m4,
                meaning::run(e, b.norm_2.backward_graph, m4),
                input,
                bw.norm_2,
                g.g4,
                g.g5,
                g.norm_2,
                g.scale_2,
            )
        }),
{
    let b = transformer::block_build(c, cfg, bw, input, dy, dx).1;
    let s = stages(c, cfg);
    let rows = transformer::batch_rows(cfg);
    let z = trainer_block_laws::bufs_of(input, b);
    let g = grads_of(c, cfg, b, dy, dx);
    trainer_block_laws::lemma_parts(c, cfg, bw, input, dy, dx);
    trainer_block_laws::lemma_stages(c, cfg);
    trainer_block_laws::lemma_stages_extend(c, cfg);
    transformer::lemma_block_sizes(cfg);
    lemma_laid_out(c, cfg, bw, input, dy, dx);
    trainer_block_laws::lemma_prefix_trans(s.up, s.end, e);
    trainer_block_laws::lemma_prefix_trans(s.down, s.end, e);
    trainer_block_laws::lemma_prefix_trans(s.back, s.end, e);
    lemma_product_back(
        s.down,
        e,
        cfg.ffn_hidden,
        cfg.dim,
        rows,
        bw.ffn_down,
        z.up,
        g.g1,
        g.g2,
        m1,
    );
    lemma_product_back(s.up, e, cfg.dim, cfg.ffn_hidden, rows, bw.ffn_up, z.norm_2, g.g3, g.g4, m3);
    lemma_norm_back(s.norm_2, e, cfg, rows, bw.norm_2, input, g.g4, g.g5, m4);
}

/// What each part of a block's first half hands back.
proof fn lemma_front_runs(
    c: Seq<Init>,
    e: Seq<Init>,
    cfg: ModelConfig,
    bw: BlockWeights,
    input: Tensor,
    dy: Tensor,
    dx: Tensor,
    m7: Memory,
    m11: Memory,
    m12: Memory,
)
    requires
        transformer::block_fits(cfg),
        stages(c, cfg).end.is_prefix_of(e),
        e.len() <= usize::MAX,
        weights_before(bw, input, c.len()),
        dy.id < c.len() && dx.id < c.len() && dx != dy && dx != input,
    ensures
        ({
            let b = transformer::block_build(c, cfg, bw, input, dy, dx).1;
            let z = trainer_block_laws::bufs_of(input, b);
            let g = grads_of(c, cfg, b, dy, dx);
            let rows = transformer::batch_rows(cfg);
            let (r, d) = (rows as int, cfg.dim as int);
            &&& product_back(
                m7,
                meaning::run(e, b.out_proj.backward_graph, m7),
                r,
                d,
                d,
                z.att,
                bw.out_proj,
                g.g6,
                g.g7,
                g.proj,
            )
            &&& product_back(
                m11,
                meaning::run(e, b.qkv_proj.backward_graph, m11),
                r,
                d,
                3 * cfg.dim,
                z.norm_1,
                bw.qkv_proj,
                g.g11,
                g.g12,
                g.qkv,
            )
            &&& norm_back(
                cfg,
                rows,
                m12,
                meaning::run(e, b.norm_1.backward_graph, m12),
                input,
                bw.norm_1,
                g.g12,
                g.g13,
                g.norm_1,
                g.scale_1,
            )
        }),
{
    let b = transformer::block_build(c, cfg, bw, input, dy, dx).1;
    let s = stages(c, cfg);
    let rows = transformer::batch_rows(cfg);
    let z = trainer_block_laws::bufs_of(input, b);
    let g = grads_of(c, cfg, b, dy, dx);
    trainer_block_laws::lemma_parts(c, cfg, bw, input, dy, dx);
    trainer_block_laws::lemma_stages(c, cfg);
    trainer_block_laws::lemma_stages_extend(c, cfg);
    transformer::lemma_block_sizes(cfg);
    lemma_laid_out(c, cfg, bw, input, dy, dx);
    trainer_block_laws::lemma_prefix_trans(s.qkv, s.end, e);
    trainer_block_laws::lemma_prefix_trans(s.split, s.end, e);
    trainer_block_laws::lemma_prefix_trans(s.norm_2, s.end, e);
    lemma_product_back(s.proj, e, cfg.dim, cfg.dim, rows, bw.out_proj, z.att, g.g6, g.g7, m7);
    lemma_product_back(
        s.qkv,
        e,
        cfg.dim,
        (cfg.dim * 3) as u32,
        rows,
        bw.qkv_proj,
        z.norm_1,
        g.g11,
        g.g12,
        m11,
    );
    lemma_norm_back(s.a, e, cfg, rows, bw.norm_1, input, g.g12, g.g13, m12);
}

proof fn lemma_normalizer_slot(
    c: Seq<Init>,
    q: Tensor,
    k: Tensor,
    v: Tensor,
    out: Tensor,
    cfg: ModelConfig,
    i: nat,
    n: nat,
)
    requires
        i < n,
    ensures
        layers::attn_fwd_nodes(c, q, k, v, out, cfg.seq_len, cfg.dim, cfg.num_heads, n).len() == n,
        layers::attn_fwd_nodes(
            c,
            q,
            k,
            v,
            out,
            cfg.seq_len,
            cfg.dim,
            cfg.num_heads,
            n,
        )[i as int].buffers[4] == layers::attn_saved(
            c,
            out,
            cfg.seq_len,
            cfg.dim,
            cfg.num_heads,
            i as int,
        ).l_cache,
    decreases n,
{
    if i + 1 < n {
        lemma_normalizer_slot(c, q, k, v, out, cfg, i, (n - 1) as nat);
    } else {
        lemma_slots(c, q, k, v, out, cfg, (n - 1) as nat);
    }
}

proof fn lemma_slots(
    c: Seq<Init>,
    q: Tensor,
    k: Tensor,
    v: Tensor,
    out: Tensor,
    cfg: ModelConfig,
    n: nat,
)
    ensures
        layers::attn_fwd_nodes(c, q, k, v, out, cfg.seq_len, cfg.dim, cfg.num_heads, n).len() == n,
    decreases n,
{
    if n > 0 {
        lemma_slots(c, q, k, v, out, cfg, (n - 1) as nat);
    }
}

/// The two graphs of a block's attention.
proof fn lemma_attention_part(
    c: Seq<Init>,
    cfg: ModelConfig,
    bw: BlockWeights,
    input: Tensor,
    dy: Tensor,
    dx: Tensor,
)
    ensures
        ({
            let b = transformer::block_build(c, cfg, bw, input, dy, dx).1;
            let z = trainer_block_laws::bufs_of(input, b);
            let g = grads_of(c, cfg, b, dy, dx);
            let s = stages(c, cfg);
            let n = cfg.batch_size as nat;
            let f = device::push_zeros(s.att, cfg.batch_size * cfg.seq_len * cfg.dim);
            let c2 = layers::attn_fwd_ctx(f, cfg.seq_len, cfg.dim, cfg.num_heads, n);
            &&& b.attention.forward_graph == layers::attn_fwd_nodes(
                f,
                z.q,
                z.k,
                z.v,
                z.att,
                cfg.seq_len,
                cfg.dim,
                cfg.num_heads,
                n,
            )
            &&& b.attention.backward_graph == layers::attn_bwd_nodes(
                f,
                c2,
                z.q,
                z.k,
                z.v,
                z.att,
                g.g7,
                g.g8,
                g.g9,
                g.g10,
                cfg.seq_len,
                cfg.dim,
                cfg.num_heads,
                n,
            )
            &&& layers::attn_bwd_ctx(c2, cfg.seq_len, cfg.dim, cfg.num_heads, n) == s.proj
        }),
{
    trainer_block_laws::lemma_parts(c, cfg, bw, input, dy, dx);
}

proof fn lemma_apart(g: Grads, z: Bufs, n: nat)
    requires
        laid_out(g, z, n),
    ensures
        (seq![z.q, z.k, z.v, z.att, g.g7, g.g8, g.g9, g.g10]).no_duplicates(),
{
}

/// The parts of a block's backward pass.
proof fn lemma_backward_graph(
    c: Seq<Init>,
    cfg: ModelConfig,
    bw: BlockWeights,
    input: Tensor,
    dy: Tensor,
    dx: Tensor,
)
    ensures
        ({
            let b = transformer::block_build(c, cfg, bw, input, dy, dx).1;
            let s = stages(c, cfg);
            let g = grads_of(c, cfg, b, dy, dx);
            let rows = transformer::batch_rows(cfg);
            let d = rows * cfg.dim;
            let shape = HeadMoveMeta::spec_qkv_slice(rows, cfg.dim, 0);
            let join = emit::qkv_scatter_node(
                g.g8,
                g.g9,
                g.g10,
                g.g11,
                shape,
                device::next_meta(s.join, shape.spec_meta()),
            );
            b.backward_graph == b.add_2.backward_graph + b.ffn_down.backward_graph
                + b.silu.backward_graph + b.ffn_up.backward_graph + b.norm_2.backward_graph + seq![
                ops::add_inplace_bwd_node(g.g0, g.g5, d as u32),
            ] + b.add_1.backward_graph + b.out_proj.backward_graph + b.attention.backward_graph
                + transformer::rope_bwd_nodes(s.back, cfg, g.g8, g.g9, cfg.batch_size as nat)
                + seq![join] + b.qkv_proj.backward_graph + b.norm_1.backward_graph + seq![
                ops::add_inplace_bwd_node(dx, g.g13, d as u32),
            ]
        }),
{
    reveal(transformer::block_build);
}

/// What attention, rotation and split hand back.
proof fn lemma_roles_back(
    c: Seq<Init>,
    e: Seq<Init>,
    cfg: ModelConfig,
    bw: BlockWeights,
    input: Tensor,
    dy: Tensor,
    dx: Tensor,
    m8: Memory,
)
    requires
        transformer::block_fits(cfg),
        stages(c, cfg).end.is_prefix_of(e),
        e.len() <= usize::MAX,
        dy.id < c.len() && dx.id < c.len() && input.id < c.len() && dx != dy && dx != input,
        normalized(cfg, transformer::block_build(c, cfg, bw, input, dy, dx).1, m8),
    ensures
        ({
            let b = transformer::block_build(c, cfg, bw, input, dy, dx).1;
            let z = trainer_block_laws::bufs_of(input, b);
            let g = grads_of(c, cfg, b, dy, dx);
            let m9 = meaning::run(e, b.attention.backward_graph, m8);
            let hd = (cfg.dim as int / cfg.num_heads as int) as u32;
            let got = |i: int, t: Tensor|
                trainer_laws::attended_back(
                    i,
                    cfg.seq_len,
                    cfg.dim,
                    hd,
                    m8[t],
                    m8[z.q],
                    m8[z.k],
                    m8[z.v],
                    m8[z.att],
                    m8[g.g7],
                    cfg.batch_size as nat,
                );
            &&& m9[g.g8] == got(0, g.g8)
            &&& m9[g.g9] == got(1, g.g9)
            &&& m9[g.g10] == got(2, g.g10)
            &&& forall|t: Tensor|
                t != g.g8 && t != g.g9 && t != g.g10 ==> #[trigger] m9[t] == m8[t]
        }),
{
    let b = transformer::block_build(c, cfg, bw, input, dy, dx).1;
    let s = stages(c, cfg);
    let z = trainer_block_laws::bufs_of(input, b);
    let g = grads_of(c, cfg, b, dy, dx);
    let n = cfg.batch_size as nat;
    lemma_attention_part(c, cfg, bw, input, dy, dx);
    trainer_block_laws::lemma_stages(c, cfg);
    trainer_block_laws::lemma_stages_extend(c, cfg);
    lemma_laid_out(c, cfg, bw, input, dy, dx);
    trainer_block_laws::lemma_prefix_trans(s.proj, s.end, e);
    let f = device::push_zeros(s.att, cfg.batch_size * cfg.seq_len * cfg.dim);
    let c2 = layers::attn_fwd_ctx(f, cfg.seq_len, cfg.dim, cfg.num_heads, n);
    trainer_laws::lemma_flash_len(f, cfg.seq_len, cfg.dim, cfg.num_heads, n);
    let names = seq![z.q, z.k, z.v, z.att, g.g7, g.g8, g.g9, g.g10];
    lemma_apart(g, z, c.len());
    assert forall|i: int| 0 <= i < n implies m8[(#[trigger] layers::attn_saved(
        f,
        z.att,
        cfg.seq_len,
        cfg.dim,
        cfg.num_heads,
        i,
    )).l_cache] == meaning::normalizers(
        trainer_laws::within(
            cfg.seq_len,
            cfg.dim,
            (cfg.dim as int / cfg.num_heads as int) as u32,
            i,
        ),
        m8[z.q],
        m8[z.k],
    ) by {
        lemma_normalizer_slot(f, z.q, z.k, z.v, z.att, cfg, i as nat, n);
        assert(b.attention.forward_graph[i].buffers[4] == layers::attn_saved(
            f,
            z.att,
            cfg.seq_len,
            cfg.dim,
            cfg.num_heads,
            i,
        ).l_cache);
    }
    trainer_laws::lemma_flash_backward(
        e,
        f,
        c2,
        cfg.seq_len,
        cfg.dim,
        cfg.num_heads,
        z.q,
        z.k,
        z.v,
        z.att,
        g.g7,
        g.g8,
        g.g9,
        g.g10,
        m8,
        n,
        n,
    );
}

/// The parts of a block's backward pass, in order.
proof fn lemma_fourteen(
    c: Seq<Init>,
    e: Seq<Init>,
    cfg: ModelConfig,
    bw: BlockWeights,
    input: Tensor,
    dy: Tensor,
    dx: Tensor,
    mem: Memory,
) -> (r: Seq<Memory>)
    requires
        transformer::block_fits(cfg),
        stages(c, cfg).end.is_prefix_of(e),
        e.len() <= usize::MAX,
        dy.id < c.len() && dx.id < c.len() && input.id < c.len() && dx != dy && dx != input,
    ensures
        ({
            let b = transformer::block_build(c, cfg, bw, input, dy, dx).1;
            let s = stages(c, cfg);
            let z = trainer_block_laws::bufs_of(input, b);
            let g = grads_of(c, cfg, b, dy, dx);
            let rows = transformer::batch_rows(cfg);
            &&& r.len() == 15
            &&& r[0] == mem
            &&& sum_back(r[0], r[1], g.dy, g.g0, g.g1)
            &&& r[2] == meaning::run(e, b.ffn_down.backward_graph, r[1])
            &&& trainer_block_laws::became(
                r[2],
                r[3],
                g.g3,
                meaning::back(meaning::silu(r[2][z.up]), 0, r[2][g.g2]),
            )
            &&& r[4] == meaning::run(e, b.ffn_up.backward_graph, r[3])
            &&& r[5] == meaning::run(e, b.norm_2.backward_graph, r[4])
            &&& trainer_block_laws::became(
                r[5],
                r[6],
                g.g0,
                meaning::sum(r[5][g.g0], r[5][g.g5]),
            )
            &&& sum_back(r[6], r[7], g.g0, g.dx, g.g6)
            &&& r[8] == meaning::run(e, b.out_proj.backward_graph, r[7])
            &&& r[9] == meaning::run(e, b.attention.backward_graph, r[8])
            &&& r[10] == meaning::run(
                e,
                transformer::rope_bwd_nodes(s.back, cfg, g.g8, g.g9, cfg.batch_size as nat),
                r[9],
            )
            &&& trainer_block_laws::became(
                r[10],
                r[11],
                g.g11,
                meaning::joined(
                    part(cfg, rows as int, 0),
                    r[10][g.g8],
                    r[10][g.g9],
                    r[10][g.g10],
                ),
            )
            &&& r[12] == meaning::run(e, b.qkv_proj.backward_graph, r[11])
            &&& r[13] == meaning::run(e, b.norm_1.backward_graph, r[12])
            &&& trainer_block_laws::became(
                r[13],
                r[14],
                g.dx,
                meaning::sum(r[13][g.dx], r[13][g.g13]),
            )
            &&& r[14] == meaning::run(e, b.backward_graph, mem)
        }),
{
    let b = transformer::block_build(c, cfg, bw, input, dy, dx).1;
    let s = stages(c, cfg);
    let z = trainer_block_laws::bufs_of(input, b);
    let g = grads_of(c, cfg, b, dy, dx);
    let rows = transformer::batch_rows(cfg);
    let (d, h) = (rows * cfg.dim, rows * cfg.ffn_hidden);
    let shape = HeadMoveMeta::spec_qkv_slice(rows, cfg.dim, 0);
    let turns = transformer::rope_bwd_nodes(s.back, cfg, g.g8, g.g9, cfg.batch_size as nat);
    let add_mid = ops::add_inplace_bwd_node(g.g0, g.g5, d as u32);
    let join = emit::qkv_scatter_node(
        g.g8,
        g.g9,
        g.g10,
        g.g11,
        shape,
        device::next_meta(s.join, shape.spec_meta()),
    );
    let add_end = ops::add_inplace_bwd_node(dx, g.g13, d as u32);
    lemma_backward_graph(c, cfg, bw, input, dy, dx);
    let r = lemma_chain(
        e,
        b.add_2.backward_graph,
        b.ffn_down.backward_graph,
        b.silu.backward_graph,
        b.ffn_up.backward_graph,
        b.norm_2.backward_graph,
        seq![add_mid],
        b.add_1.backward_graph,
        b.out_proj.backward_graph,
        b.attention.backward_graph,
        turns,
        seq![join],
        b.qkv_proj.backward_graph,
        b.norm_1.backward_graph,
        seq![add_end],
        mem,
    );
    lemma_plain_parts(c, e, cfg, bw, input, dy, dx, mem, r[2], r[5], r[6], r[10], r[13]);
    r
}

/// Fourteen graphs, one behind the other, run one after the other.
proof fn lemma_chain(
    e: Seq<Init>,
    p1: Seq<NodeView>,
    p2: Seq<NodeView>,
    p3: Seq<NodeView>,
    p4: Seq<NodeView>,
    p5: Seq<NodeView>,
    p6: Seq<NodeView>,
    p7: Seq<NodeView>,
    p8: Seq<NodeView>,
    p9: Seq<NodeView>,
    p10: Seq<NodeView>,
    p11: Seq<NodeView>,
    p12: Seq<NodeView>,
    p13: Seq<NodeView>,
    p14: Seq<NodeView>,
    mem: Memory,
) -> (r: Seq<Memory>)
    ensures
        r.len() == 15,
        r[0] == mem,
        r[1] == meaning::run(e, p1, r[0]),
        r[2] == meaning::run(e, p2, r[1]),
        r[3] == meaning::run(e, p3, r[2]),
        r[4] == meaning::run(e, p4, r[3]),
        r[5] == meaning::run(e, p5, r[4]),
        r[6] == meaning::run(e, p6, r[5]),
        r[7] == meaning::run(e, p7, r[6]),
        r[8] == meaning::run(e, p8, r[7]),
        r[9] == meaning::run(e, p9, r[8]),
        r[10] == meaning::run(e, p10, r[9]),
        r[11] == meaning::run(e, p11, r[10]),
        r[12] == meaning::run(e, p12, r[11]),
        r[13] == meaning::run(e, p13, r[12]),
        r[14] == meaning::run(e, p14, r[13]),
        r[14] == meaning::run(
            e,
            p1 + p2 + p3 + p4 + p5 + p6 + p7 + p8 + p9 + p10 + p11 + p12 + p13 + p14,
            mem,
        ),
{
    let g1 = p1;
    let g2 = g1 + p2;
    let g3 = g2 + p3;
    let g4 = g3 + p4;
    let g5 = g4 + p5;
    let g6 = g5 + p6;
    let g7 = g6 + p7;
    let g8 = g7 + p8;
    let g9 = g8 + p9;
    let g10 = g9 + p10;
    let g11 = g10 + p11;
    let g12 = g11 + p12;
    let g13 = g12 + p13;
    meaning::run_is_sequential(e, g1, p2, mem);
    meaning::run_is_sequential(e, g2, p3, mem);
    meaning::run_is_sequential(e, g3, p4, mem);
    meaning::run_is_sequential(e, g4, p5, mem);
    meaning::run_is_sequential(e, g5, p6, mem);
    meaning::run_is_sequential(e, g6, p7, mem);
    meaning::run_is_sequential(e, g7, p8, mem);
    meaning::run_is_sequential(e, g8, p9, mem);
    meaning::run_is_sequential(e, g9, p10, mem);
    meaning::run_is_sequential(e, g10, p11, mem);
    meaning::run_is_sequential(e, g11, p12, mem);
    meaning::run_is_sequential(e, g12, p13, mem);
    meaning::run_is_sequential(e, g13, p14, mem);
    let m1 = meaning::run(e, p1, mem);
    let m2 = meaning::run(e, p2, m1);
    let m3 = meaning::run(e, p3, m2);
    let m4 = meaning::run(e, p4, m3);
    let m5 = meaning::run(e, p5, m4);
    let m6 = meaning::run(e, p6, m5);
    let m7 = meaning::run(e, p7, m6);
    let m8 = meaning::run(e, p8, m7);
    let m9 = meaning::run(e, p9, m8);
    let m10 = meaning::run(e, p10, m9);
    let m11 = meaning::run(e, p11, m10);
    let m12 = meaning::run(e, p12, m11);
    let m13 = meaning::run(e, p13, m12);
    let m14 = meaning::run(e, p14, m13);
    seq![mem, m1, m2, m3, m4, m5, m6, m7, m8, m9, m10, m11, m12, m13, m14]
}

/// The parts that add, activate and join.
proof fn lemma_plain_parts(
    c: Seq<Init>,
    e: Seq<Init>,
    cfg: ModelConfig,
    bw: BlockWeights,
    input: Tensor,
    dy: Tensor,
    dx: Tensor,
    m0: Memory,
    m2: Memory,
    m5: Memory,
    m6: Memory,
    m10: Memory,
    m13: Memory,
)
    requires
        transformer::block_fits(cfg),
        stages(c, cfg).end.is_prefix_of(e),
        e.len() <= usize::MAX,
        dy.id < c.len() && dx.id < c.len() && input.id < c.len() && dx != dy && dx != input,
    ensures
        ({
            let b = transformer::block_build(c, cfg, bw, input, dy, dx).1;
            let s = stages(c, cfg);
            let z = trainer_block_laws::bufs_of(input, b);
            let g = grads_of(c, cfg, b, dy, dx);
            let rows = transformer::batch_rows(cfg);
            let d = rows * cfg.dim;
            let shape = HeadMoveMeta::spec_qkv_slice(rows, cfg.dim, 0);
            let join = emit::qkv_scatter_node(
                g.g8,
                g.g9,
                g.g10,
                g.g11,
                shape,
                device::next_meta(s.join, shape.spec_meta()),
            );
            &&& sum_back(m0, meaning::run(e, b.add_2.backward_graph, m0), g.dy, g.g0, g.g1)
            &&& trainer_block_laws::became(
                m2,
                meaning::run(e, b.silu.backward_graph, m2),
                g.g3,
                meaning::back(meaning::silu(m2[z.up]), 0, m2[g.g2]),
            )
            &&& trainer_block_laws::became(
                m5,
                meaning::run(e, seq![ops::add_inplace_bwd_node(g.g0, g.g5, d as u32)], m5),
                g.g0,
                meaning::sum(m5[g.g0], m5[g.g5]),
            )
            &&& sum_back(m6, meaning::run(e, b.add_1.backward_graph, m6), g.g0, g.dx, g.g6)
            &&& trainer_block_laws::became(
                m10,
                meaning::run(e, seq![join], m10),
                g.g11,
                meaning::joined(part(cfg, rows as int, 0), m10[g.g8], m10[g.g9], m10[g.g10]),
            )
            &&& trainer_block_laws::became(
                m13,
                meaning::run(e, seq![ops::add_inplace_bwd_node(dx, g.g13, d as u32)], m13),
                g.dx,
                meaning::sum(m13[g.dx], m13[g.g13]),
            )
        }),
{
    let b = transformer::block_build(c, cfg, bw, input, dy, dx).1;
    let s = stages(c, cfg);
    let z = trainer_block_laws::bufs_of(input, b);
    let g = grads_of(c, cfg, b, dy, dx);
    let rows = transformer::batch_rows(cfg);
    let (d, h) = (rows * cfg.dim, rows * cfg.ffn_hidden);
    let shape = HeadMoveMeta::spec_qkv_slice(rows, cfg.dim, 0);
    trainer_block_laws::lemma_stages(c, cfg);
    lemma_laid_out(c, cfg, bw, input, dy, dx);
    lemma_in_place(e, g.g0, g.g5, d as u32, m5);
    lemma_in_place(e, dx, g.g13, d as u32, m13);
    assert(s.end[s.join.len() as int] == Init::Meta(shape.spec_meta()));
    trainer_laws::lemma_prefix_at(s.end, e, s.join.len() as int);
    assert(shape == part(cfg, rows as int, 0));
    lemma_join(e, g.g8, g.g9, g.g10, g.g11, shape, device::next_meta(s.join, shape.spec_meta()), m10);
    assert(sum_back(m0, meaning::run(e, b.add_2.backward_graph, m0), g.dy, g.g0, g.g1)) by {
        trainer_block_laws::lemma_parts(c, cfg, bw, input, dy, dx);
        lemma_sum_back(e, d as u32, input, z.down, dy, g.g0, g.g1, m0);
    }
    assert(sum_back(m6, meaning::run(e, b.add_1.backward_graph, m6), g.g0, g.dx, g.g6)) by {
        trainer_block_laws::lemma_parts(c, cfg, bw, input, dy, dx);
        lemma_sum_back(e, d as u32, input, z.proj, g.g0, dx, g.g6, m6);
    }
    assert(trainer_block_laws::became(
        m2,
        meaning::run(e, b.silu.backward_graph, m2),
        g.g3,
        meaning::back(meaning::silu(m2[z.up]), 0, m2[g.g2]),
    )) by {
        trainer_block_laws::lemma_parts(c, cfg, bw, input, dy, dx);
        trainer_laws::silu_layer_activates(e, h as u32, z.up, g.g2, g.g3, m2, m2);
    }
}

proof fn lemma_in_place(e: Seq<Init>, a: Tensor, b: Tensor, len: u32, m: Memory)
    ensures
        trainer_block_laws::became(
            m,
            meaning::run(e, seq![ops::add_inplace_bwd_node(a, b, len)], m),
            a,
            meaning::sum(m[a], m[b]),
        ),
{
    meaning::lemma_run_one(e, ops::add_inplace_bwd_node(a, b, len), m);
}

proof fn lemma_join(
    e: Seq<Init>,
    q: Tensor,
    k: Tensor,
    v: Tensor,
    into: Tensor,
    shape: HeadMoveMeta,
    meta: Tensor,
    m: Memory,
)
    requires
        meaning::holds(e, meta, shape.spec_meta()),
    ensures
        trainer_block_laws::became(
            m,
            meaning::run(e, seq![emit::qkv_scatter_node(q, k, v, into, shape, meta)], m),
            into,
            meaning::joined(shape, m[q], m[k], m[v]),
        ),
{
    meaning::lemma_run_one(e, emit::qkv_scatter_node(q, k, v, into, shape, meta), m);
}

/// The backward pass of a batched block takes what reaches its result, `dy`, back to
/// its input: through the feed-forward layers and the norm in front of them, through
/// projection, attention, rotation and split, and through the first norm. Beside each
/// half the stream hands on what reaches it unchanged. The weights' gradients grow by
/// their share. All derivatives are taken at what the buffers hold, with the
/// normalizers that the forward pass left.
#[verifier::spinoff_prover]
#[verifier::rlimit(60)]
pub proof fn trainer_block_backward_is_the_chain(
    c: Seq<Init>,
    e: Seq<Init>,
    cfg: ModelConfig,
    bw: BlockWeights,
    input: Tensor,
    dy: Tensor,
    dx: Tensor,
    m: Memory,
)
    requires
        transformer::block_fits(cfg),
        transformer::block_build(c, cfg, bw, input, dy, dx).0.is_prefix_of(e),
        e.len() <= usize::MAX,
        weights_before(bw, input, c.len()),
        weights_before(bw, dx, c.len()),
        dy.id < c.len() && dx != dy && dx != input,
        normalized(cfg, transformer::block_build(c, cfg, bw, input, dy, dx).1, m),
    ensures
        ({
            let b = transformer::block_build(c, cfg, bw, input, dy, dx).1;
            let z = trainer_block_laws::bufs_of(input, b);
            let g = grads_of(c, cfg, b, dy, dx);
            let rows = (cfg.batch_size * cfg.seq_len) as u32;
            let last = meaning::run(e, b.backward_graph, m);
            let rear = rear_grads(
                cfg,
                rows,
                bw,
                z,
                m,
                meaning::sum(m[b.add_2.grad_a], m[dy]),
                meaning::sum(m[b.add_2.grad_b], m[dy]),
            );
            let got = meaning::sum(m[b.add_1.grad_b], rear.mid);
            let proj = meaning::product(
                rows as int,
                cfg.dim as int,
                cfg.dim as int,
                m[z.att],
                m[bw.out_proj],
            );
            let g_att = meaning::back(proj, 0, got);
            let side = meaning::joined(
                part(cfg, rows as int, 0),
                role_grad(cfg, z, m, m[g.g8], g_att, 0),
                role_grad(cfg, z, m, m[g.g9], g_att, 1),
                role_grad(cfg, z, m, m[g.g10], g_att, 2),
            );
            let front = front_grads(cfg, rows, bw, z, m, side);
            &&& last[dx] == meaning::sum(meaning::sum(m[dx], rear.mid), front.2)
            &&& last[b.ffn_down.grad_weight] == meaning::sum(
                m[b.ffn_down.grad_weight],
                rear.down,
            )
            &&& last[b.ffn_up.grad_weight] == meaning::sum(m[b.ffn_up.grad_weight], rear.up)
            &&& last[b.norm_2.grad_weight] == meaning::sum(m[b.norm_2.grad_weight], rear.norm)
            &&& last[b.out_proj.grad_weight] == meaning::sum(
                m[b.out_proj.grad_weight],
                meaning::back(proj, 1, got),
            )
            &&& last[b.qkv_proj.grad_weight] == meaning::sum(
                m[b.qkv_proj.grad_weight],
                front.0,
            )
            &&& last[b.norm_1.grad_weight] == meaning::sum(m[b.norm_1.grad_weight], front.1)
            &&& forall|t: Tensor| t.id < c.len() && t != dx ==> #[trigger] last[t] == m[t]
        }),
{
    let b = transformer::block_build(c, cfg, bw, input, dy, dx).1;
    let s = stages(c, cfg);
    let z = trainer_block_laws::bufs_of(input, b);
    let g = grads_of(c, cfg, b, dy, dx);
    let rows = transformer::batch_rows(cfg);
    let n = cfg.batch_size as nat;
    lemma_end(c, cfg, bw, input, dy, dx);
    lemma_laid_out(c, cfg, bw, input, dy, dx);
    let r = lemma_fourteen(c, e, cfg, bw, input, dy, dx, m);
    lemma_rear_runs(c, e, cfg, bw, input, dy, dx, r[1], r[3], r[4]);
    lemma_front_runs(c, e, cfg, bw, input, dy, dx, r[7], r[11], r[12]);
    lemma_rear_back(
        cfg,
        rows,
        bw,
        z,
        g,
        c.len(),
        r[0],
        r[1],
        r[2],
        r[3],
        r[4],
        r[5],
        r[6],
    );
    assert(normalized(cfg, b, r[8])) by {
        lemma_normalizers_lie(c, cfg, bw, input, dy, dx);
        assert forall|i: int| 0 <= i < cfg.batch_size implies r[8][(
        #[trigger] b.attention.forward_graph[i]).buffers[4]] == meaning::normalizers(
            trainer_laws::within(
                cfg.seq_len,
                cfg.dim,
                (cfg.dim as int / cfg.num_heads as int) as u32,
                i,
            ),
            r[8][b.q_buf],
            r[8][b.k_buf],
        ) by {
            let t = b.attention.forward_graph[i].buffers[4];
            assert(r[6][t] == m[t]);
            assert(r[6][z.q] == m[z.q] && r[6][z.k] == m[z.k]);
            assert(r[7][t] == m[t] && r[8][t] == m[t]);
        }
    }
    lemma_roles_back(c, e, cfg, bw, input, dy, dx, r[8]);
    trainer_block_laws::lemma_stages_extend(c, cfg);
    trainer_block_laws::lemma_stages(c, cfg);
    trainer_block_laws::lemma_prefix_trans(s.join, s.end, e);
    trainer_block_laws::lemma_turns_backward(e, s.back, cfg, g.g8, g.g9, r[9], n, n);
    lemma_middle_back(cfg, rows, bw, z, g, c.len(), r[6], r[7], r[8], r[9], r[10], r[11]);
    lemma_front_back(cfg, rows, bw, z, g, c.len(), r[11], r[12], r[13], r[14]);
    assert(r[11][z.norm_1] == m[z.norm_1] && r[11][bw.qkv_proj] == m[bw.qkv_proj]);
    assert(r[11][input] == m[input] && r[11][bw.norm_1] == m[bw.norm_1]);
    assert(r[6][g.g6] == m[g.g6] && r[6][z.att] == m[z.att]);
    assert(r[6][g.g8] == m[g.g8] && r[6][g.g9] == m[g.g9] && r[6][g.g10] == m[g.g10]);
    assert(r[6][z.q] == m[z.q] && r[6][z.k] == m[z.k] && r[6][z.v] == m[z.v]);
    assert(r[11][g.down] == r[6][g.down] && r[14][g.down] == r[11][g.down]);
}

proof fn lemma_end(
    c: Seq<Init>,
    cfg: ModelConfig,
    bw: BlockWeights,
    input: Tensor,
    dy: Tensor,
    dx: Tensor,
)
    ensures
        transformer::block_build(c, cfg, bw, input, dy, dx).0 == stages(c, cfg).end,
{
    trainer_block_laws::lemma_parts(c, cfg, bw, input, dy, dx);
}

/// The normalizers lie between the attention's result and the projection's.
proof fn lemma_normalizers_lie(
    c: Seq<Init>,
    cfg: ModelConfig,
    bw: BlockWeights,
    input: Tensor,
    dy: Tensor,
    dx: Tensor,
)
    requires
        stages(c, cfg).end.len() <= usize::MAX,
    ensures
        ({
            let b = transformer::block_build(c, cfg, bw, input, dy, dx).1;
            let s = stages(c, cfg);
            forall|i: int|
                0 <= i < cfg.batch_size ==> s.att.len() < (
                #[trigger] b.attention.forward_graph[i]).buffers[4].id < s.proj.len()
        }),
{
    let b = transformer::block_build(c, cfg, bw, input, dy, dx).1;
    let s = stages(c, cfg);
    let n = cfg.batch_size as nat;
    trainer_block_laws::lemma_parts(c, cfg, bw, input, dy, dx);
    trainer_block_laws::lemma_stages(c, cfg);
    let f = device::push_zeros(s.att, cfg.batch_size * cfg.seq_len * cfg.dim);
    let out = b.attention.out_buffer;
    assert forall|i: int| 0 <= i < cfg.batch_size implies s.att.len() < (
    #[trigger] b.attention.forward_graph[i]).buffers[4].id < s.proj.len() by {
        lemma_normalizer_slot(f, b.q_buf, b.k_buf, b.v_buf, out, cfg, i as nat, n);
        trainer_laws::lemma_flash_len(f, cfg.seq_len, cfg.dim, cfg.num_heads, i as nat);
    }
}

/// The forward pass of a batched block leaves the normalizers that its backward pass
/// needs.
pub proof fn trainer_forward_leaves_normalizers(
    c: Seq<Init>,
    e: Seq<Init>,
    cfg: ModelConfig,
    bw: BlockWeights,
    input: Tensor,
    dy: Tensor,
    dx: Tensor,
    mem: Memory,
)
    requires
        transformer::block_fits(cfg),
        transformer::block_build(c, cfg, bw, input, dy, dx).0.is_prefix_of(e),
        e.len() <= usize::MAX,
        weights_before(bw, input, c.len()),
        dx.id < c.len(),
    ensures
        ({
            let b = transformer::block_build(c, cfg, bw, input, dy, dx).1;
            normalized(cfg, b, meaning::run(e, transformer::block_forward(b), mem))
        }),
{
    let b = transformer::block_build(c, cfg, bw, input, dy, dx).1;
    let s = stages(c, cfg);
    let z = trainer_block_laws::bufs_of(input, b);
    lemma_end(c, cfg, bw, input, dy, dx);
    trainer_block_laws::lemma_stages(c, cfg);
    let r = trainer_block_laws::lemma_twelve(e, b, mem);
    trainer_block_laws::lemma_attends(c, e, cfg, bw, input, dy, dx, r[3], r[4], r[5]);
    trainer_block_laws::lemma_rear(c, e, cfg, bw, input, dy, dx, r);
    trainer_block_laws::lemma_bufs_in_order(c, cfg, bw, input, dy, dx);
    lemma_normalizers_lie(c, cfg, bw, input, dy, dx);
    lemma_attention_part(c, cfg, bw, input, dy, dx);
    let f = device::push_zeros(s.att, cfg.batch_size * cfg.seq_len * cfg.dim);
    assert(z.proj.id == s.proj.len()) by {
        trainer_block_laws::lemma_parts(c, cfg, bw, input, dy, dx);
    }
    assert forall|i: int| 0 <= i < cfg.batch_size implies r[12][(
    #[trigger] b.attention.forward_graph[i]).buffers[4]] == meaning::normalizers(
        trainer_laws::within(
            cfg.seq_len,
            cfg.dim,
            (cfg.dim as int / cfg.num_heads as int) as u32,
            i,
        ),
        r[12][b.q_buf],
        r[12][b.k_buf],
    ) by {
        lemma_normalizer_slot(
            f,
            z.q,
            z.k,
            z.v,
            z.att,
            cfg,
            i as nat,
            cfg.batch_size as nat,
        );
        let t = b.attention.forward_graph[i].buffers[4];
        assert(t == layers::attn_saved(
            f,
            z.att,
            cfg.seq_len,
            cfg.dim,
            cfg.num_heads,
            i,
        ).l_cache);
        assert(r[12][t] == r[5][t]);
        assert(r[12][z.q] == r[5][z.q] && r[12][z.k] == r[5][z.k]);
    }
}

} // verus!
