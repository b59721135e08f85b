//! What the blocks of the single-sequence trainer compute: a transformer block whose
//! attention runs head by head.
use super::attention::Heads;
use super::head_laws;
use super::kernels::emit;
use super::kernels::meta::KernelMeta;
use super::layer_laws::part;
use super::layers;
use super::meaning::{self, Memory, Term};
use super::pipeline;
use super::trainer_block_laws::{
    self, bufs_of, lemma_linear_extends, lemma_linear_step, lemma_norm_extends, lemma_norm_step,
    lemma_prefix_trans, rows_of, trainer_role, trainer_stream, weights_before,
};
use super::trainer_laws;
use super::transformer;
use super::weights::BlockWeights;
use crate::config::ModelConfig;
use crate::device::{self, Init, Tensor};
use vstd::prelude::*;

verus! {

/// The sizes of a configuration's attention.
pub open spec fn heads_of(cfg: ModelConfig) -> Heads {
    Heads { seq_len: cfg.seq_len, dim: cfg.dim, num_heads: cfg.num_heads }
}

/// What the attention of a block gives, head by head, queries and keys turned by their
/// positions.
pub open spec fn attended_by_heads(
    cfg: ModelConfig,
    bw: BlockWeights,
    mem: Memory,
    x: Term,
    into: Term,
) -> Term {
    head_laws::by_heads(
        heads_of(cfg),
        into,
        meaning::rotated(rows_of(cfg, 0), trainer_role(cfg, cfg.seq_len, bw, mem, x, 0)),
        meaning::rotated(rows_of(cfg, 0), trainer_role(cfg, cfg.seq_len, bw, mem, x, 1)),
        trainer_role(cfg, cfg.seq_len, bw, mem, x, 2),
        cfg.num_heads as nat,
    )
}

/// What has been made before each part of a block that starts in `c`.
struct Stages {
    a: Seq<Init>,
    qkv: Seq<Init>,
    split: Seq<Init>,
    roles: Seq<Init>,
    turn: Seq<Init>,
    att: Seq<Init>,
    proj: Seq<Init>,
    norm_2: Seq<Init>,
    up: Seq<Init>,
    down: Seq<Init>,
    back: Seq<Init>,
    end: Seq<Init>,
}

spec fn stages(c: Seq<Init>, cfg: ModelConfig) -> Stages {
    let rows = cfg.seq_len;
    let (dim, hidden) = (cfg.dim, cfg.ffn_hidden);
    let d = rows * dim;
    let turns = pipeline::rope_shape(cfg).spec_meta();
    let a = transformer::grads_ctx(c, d, rows * hidden);
    let qkv = layers::rmsnorm_ctx(a, dim, rows);
    let split = layers::linear_ctx(qkv, dim, (dim * 3) as u32, rows);
    let roles = split.push(Init::Zeros(d as u32)).push(Init::Zeros(d as u32)).push(
        Init::Zeros(d as u32),
    );
    let turn = pipeline::roles_ctx(roles, cfg);
    let att = device::push_meta(device::push_meta(turn, turns), turns);
    let proj = heads_of(cfg).new_ctx(att);
    let norm_2 = layers::linear_ctx(proj, dim, dim, rows);
    let up = layers::rmsnorm_ctx(norm_2, dim, rows);
    let down = layers::linear_ctx(up, dim, hidden, rows);
    let back = layers::linear_ctx(down, hidden, dim, rows);
    let end = pipeline::roles_ctx(
        device::push_meta(device::push_meta(back, turns), turns),
        cfg,
    );
    Stages { a, qkv, split, roles, turn, att, proj, norm_2, up, down, back, end }
}

proof fn lemma_stages(c: Seq<Init>, cfg: ModelConfig)
    ensures
        ({
            let s = stages(c, cfg);
            &&& s.a.len() == c.len() + 14
            &&& s.qkv.len() == s.a.len() + 5
            &&& s.split.len() == s.qkv.len() + 5
            &&& s.roles.len() == s.split.len() + 3
            &&& s.turn.len() == s.roles.len() + 3
            &&& s.att.len() == s.turn.len() + 2
            &&& s.proj.len() == s.att.len() + 11 + 12 * cfg.num_heads
            &&& s.norm_2.len() == s.proj.len() + 5
            &&& s.up.len() == s.norm_2.len() + 5
            &&& s.down.len() == s.up.len() + 5
            &&& s.back.len() == s.down.len() + 5
            &&& s.end.len() == s.back.len() + 5
        }),
{
    let rows = cfg.seq_len;
    let (dim, hidden) = (cfg.dim, cfg.ffn_hidden);
    let s = stages(c, cfg);
    lemma_norm_extends(s.a, dim, rows);
    lemma_linear_extends(s.qkv, dim, (dim * 3) as u32, rows);
    head_laws::lemma_new_extends(heads_of(cfg), s.att);
    lemma_linear_extends(s.proj, dim, dim, rows);
    lemma_norm_extends(s.norm_2, dim, rows);
    lemma_linear_extends(s.up, dim, hidden, rows);
    lemma_linear_extends(s.down, hidden, dim, rows);
}

/// Every stage begins with the earlier ones.
proof fn lemma_stages_extend(c: Seq<Init>, cfg: ModelConfig)
    ensures
        ({
            let s = stages(c, cfg);
            &&& c.is_prefix_of(s.end)
            &&& s.qkv.is_prefix_of(s.end)
            &&& s.split.is_prefix_of(s.end)
            &&& s.att.is_prefix_of(s.end)
            &&& s.proj.is_prefix_of(s.end)
            &&& s.norm_2.is_prefix_of(s.end)
            &&& s.up.is_prefix_of(s.end)
            &&& s.down.is_prefix_of(s.end)
            &&& s.back.is_prefix_of(s.end)
        }),
{
    let rows = cfg.seq_len;
    let (dim, hidden) = (cfg.dim, cfg.ffn_hidden);
    let s = stages(c, cfg);
    assert(s.back.is_prefix_of(s.end));
    lemma_linear_extends(s.down, hidden, dim, rows);
    lemma_prefix_trans(s.down, s.back, s.end);
    lemma_linear_extends(s.up, dim, hidden, rows);
    lemma_prefix_trans(s.up, s.down, s.end);
    lemma_norm_extends(s.norm_2, dim, rows);
    lemma_prefix_trans(s.norm_2, s.up, s.end);
    lemma_linear_extends(s.proj, dim, dim, rows);
    lemma_prefix_trans(s.proj, s.norm_2, s.end);
    head_laws::lemma_new_extends(heads_of(cfg), s.att);
    lemma_prefix_trans(s.att, s.proj, s.end);
    assert(s.split.is_prefix_of(s.att));
    lemma_prefix_trans(s.split, s.att, s.end);
    lemma_linear_extends(s.qkv, dim, (dim * 3) as u32, rows);
    lemma_prefix_trans(s.qkv, s.split, s.end);
    lemma_norm_extends(s.a, dim, rows);
    lemma_prefix_trans(s.a, s.qkv, s.end);
    assert(c.is_prefix_of(s.a));
    lemma_prefix_trans(c, s.a, s.end);
}

/// The parts of a block.
proof fn lemma_parts(
    c: Seq<Init>,
    cfg: ModelConfig,
    bw: BlockWeights,
    input: Tensor,
    dy: Tensor,
    dx: Tensor,
)
    ensures
        ({
            let s = stages(c, cfg);
            let rows = cfg.seq_len;
            let (dim, hidden) = (cfg.dim, cfg.ffn_hidden);
            let d = rows * dim;
            let h = rows * hidden;
            let g = |i: int, n: int| transformer::grad_buf(c, i, n);
            let (end, b) = pipeline::block_build(c, cfg, bw, input, dy, dx);
            &&& end == s.end
            &&& b.norm_1 == layers::rmsnorm_view(
                s.a,
                dim,
                rows,
                bw.norm_1,
                input,
                g(12, d),
                g(13, d),
            )
            &&& b.qkv_proj == layers::linear_view(
                s.qkv,
                dim,
                (dim * 3) as u32,
                rows,
                bw.qkv_proj,
                b.norm_1.out_buffer,
                g(11, 3 * d),
                g(12, d),
            )
            &&& b.q_buf == transformer::grad_buf(s.split, 0, d)
            &&& b.k_buf == transformer::grad_buf(s.split, 1, d)
            &&& b.v_buf == transformer::grad_buf(s.split, 2, d)
            &&& b.qkv_split_forward == seq![
                emit::head_gather_node(
                    b.qkv_proj.out_buffer,
                    b.q_buf,
                    pipeline::role(cfg, 0),
                    pipeline::role_meta(s.roles, 0),
                ),
                emit::head_gather_node(
                    b.qkv_proj.out_buffer,
                    b.k_buf,
                    pipeline::role(cfg, 1),
                    pipeline::role_meta(s.roles, 1),
                ),
                emit::head_gather_node(
                    b.qkv_proj.out_buffer,
                    b.v_buf,
                    pipeline::role(cfg, 2),
                    pipeline::role_meta(s.roles, 2),
                ),
            ]
            &&& b.rope_forward == seq![
                emit::rope_node(
                    b.q_buf,
                    pipeline::rope_shape(cfg),
                    device::next_meta(s.turn, pipeline::rope_shape(cfg).spec_meta()),
                ),
                emit::rope_node(
                    b.k_buf,
                    pipeline::rope_shape(cfg),
                    device::next_meta(
                        device::push_meta(s.turn, pipeline::rope_shape(cfg).spec_meta()),
                        pipeline::rope_shape(cfg).spec_meta(),
                    ),
                ),
            ]
            &&& b.attention.out_buffer == heads_of(cfg).out(s.att)
            &&& b.attention.forward_graph == heads_of(cfg).forward(
                heads_of(cfg).new_start(s.att),
                b.q_buf,
                b.k_buf,
                b.v_buf,
                b.attention.out_buffer,
            )
            &&& b.out_proj == layers::linear_view(
                s.proj,
                dim,
                dim,
                rows,
                bw.out_proj,
                b.attention.out_buffer,
                g(6, d),
                g(7, d),
            )
            &&& b.add_1 == layers::add_view(
                d as u32,
                input,
                b.out_proj.out_buffer,
                g(0, d),
                dx,
                g(6, d),
            )
            &&& b.norm_2 == layers::rmsnorm_view(
                s.norm_2,
                dim,
                rows,
                bw.norm_2,
                input,
                g(4, d),
                g(5, d),
            )
            &&& b.ffn_up == layers::linear_view(
                s.up,
                dim,
                hidden,
                rows,
                bw.ffn_up,
                b.norm_2.out_buffer,
                g(3, h),
                g(4, d),
            )
            &&& b.silu == layers::silu_view(h as u32, b.ffn_up.out_buffer, g(2, h), g(3, h))
            &&& b.ffn_down == layers::linear_view(
                s.down,
                hidden,
                dim,
                rows,
                bw.ffn_down,
                b.ffn_up.out_buffer,
                g(1, d),
                g(2, h),
            )
            &&& b.add_2 == layers::add_view(
                d as u32,
                input,
                b.ffn_down.out_buffer,
                dy,
                g(0, d),
                g(1, d),
            )
        }),
{
    reveal(pipeline::block_build);
}

/// A block adds to the context that it starts in.
pub(crate) proof fn lemma_block_extends(
    c: Seq<Init>,
    cfg: ModelConfig,
    bw: BlockWeights,
    input: Tensor,
    dy: Tensor,
    dx: Tensor,
)
    ensures
        c.is_prefix_of(pipeline::block_build(c, cfg, bw, input, dy, dx).0),
        pipeline::block_build(c, cfg, bw, input, dy, dx).1.add_2.in_out_buffer == input,
{
    lemma_parts(c, cfg, bw, input, dy, dx);
    lemma_stages_extend(c, cfg);
}

proof fn lemma_bufs_in_order(
    c: Seq<Init>,
    cfg: ModelConfig,
    bw: BlockWeights,
    input: Tensor,
    dy: Tensor,
    dx: Tensor,
)
    requires
        stages(c, cfg).end.len() <= usize::MAX,
    ensures
        ({
            let b = pipeline::block_build(c, cfg, bw, input, dy, dx).1;
            let s = stages(c, cfg);
            let z = bufs_of(input, b);
            &&& trainer_block_laws::in_order(z, s.a.len())
            &&& z.norm_1.id < s.qkv.len() && z.v.id < s.roles.len()
            &&& s.att.len() == z.att.id
            &&& z.up.id < s.down.len() && z.down.id < s.back.len()
        }),
{
    lemma_parts(c, cfg, bw, input, dy, dx);
    lemma_stages(c, cfg);
}

/// The three moves that cut queries, keys and values out.
proof fn lemma_cut(
    c: Seq<Init>,
    e: Seq<Init>,
    cfg: ModelConfig,
    bw: BlockWeights,
    input: Tensor,
    dy: Tensor,
    dx: Tensor,
    m2: Memory,
)
    requires
        pipeline::block_fits(cfg),
        stages(c, cfg).end.is_prefix_of(e),
        e.len() <= usize::MAX,
    ensures
        ({
            let b = pipeline::block_build(c, cfg, bw, input, dy, dx).1;
            let z = bufs_of(input, b);
            let m3 = meaning::run(e, b.qkv_split_forward, m2);
            let rows = cfg.seq_len as int;
            &&& m3[z.q] == meaning::columns(part(cfg, rows, 0), m2[z.qkv])
            &&& m3[z.k] == meaning::columns(part(cfg, rows, 1), m2[z.qkv])
            &&& m3[z.v] == meaning::columns(part(cfg, rows, 2), m2[z.qkv])
            &&& forall|t: Tensor| t != z.q && t != z.k && t != z.v ==> #[trigger] m3[t] == m2[t]
        }),
{
    let b = pipeline::block_build(c, cfg, bw, input, dy, dx).1;
    let s = stages(c, cfg);
    let n = s.roles.len() as int;
    lemma_parts(c, cfg, bw, input, dy, dx);
    lemma_stages(c, cfg);
    lemma_stages_extend(c, cfg);
    lemma_prefix_trans(s.att, s.end, e);
    lemma_bufs_in_order(c, cfg, bw, input, dy, dx);
    let g = b.qkv_split_forward;
    meaning::lemma_run_three(e, g[0], g[1], g[2], m2);
    assert(g =~= seq![g[0], g[1], g[2]]);
    assert(s.att[n] == Init::Meta(pipeline::role(cfg, 0).spec_meta()));
    assert(s.att[n + 1] == Init::Meta(pipeline::role(cfg, 1).spec_meta()));
    assert(s.att[n + 2] == Init::Meta(pipeline::role(cfg, 2).spec_meta()));
    trainer_laws::lemma_prefix_at(s.att, e, n);
    trainer_laws::lemma_prefix_at(s.att, e, n + 1);
    trainer_laws::lemma_prefix_at(s.att, e, n + 2);
    let rows = cfg.seq_len as int;
    assert(pipeline::role(cfg, 0) == part(cfg, rows, 0));
    assert(pipeline::role(cfg, 1) == part(cfg, rows, 1));
    assert(pipeline::role(cfg, 2) == part(cfg, rows, 2));
}

proof fn lemma_front(
    c: Seq<Init>,
    e: Seq<Init>,
    cfg: ModelConfig,
    bw: BlockWeights,
    input: Tensor,
    dy: Tensor,
    dx: Tensor,
    m0: Memory,
    m1: Memory,
    m2: Memory,
    m3: Memory,
)
    requires
        pipeline::block_fits(cfg),
        stages(c, cfg).end.is_prefix_of(e),
        e.len() <= usize::MAX,
        weights_before(bw, input, c.len()),
        ({
            let b = pipeline::block_build(c, cfg, bw, input, dy, dx).1;
            &&& m1 == meaning::run(e, b.norm_1.forward_graph, m0)
            &&& m2 == meaning::run(e, b.qkv_proj.forward_graph, m1)
            &&& m3 == meaning::run(e, b.qkv_split_forward, m2)
        }),
    ensures
        ({
            let z = bufs_of(input, pipeline::block_build(c, cfg, bw, input, dy, dx).1);
            let rows = cfg.seq_len;
            &&& m3[z.q] == trainer_role(cfg, rows, bw, m0, m0[input], 0)
            &&& m3[z.k] == trainer_role(cfg, rows, bw, m0, m0[input], 1)
            &&& m3[z.v] == trainer_role(cfg, rows, bw, m0, m0[input], 2)
            &&& forall|t: Tensor|
                t.id < stages(c, cfg).a.len() || t.id >= stages(c, cfg).end.len()
                    ==> #[trigger] m3[t] == m0[t]
            &&& m3[z.att] == m0[z.att]
        }),
{
    let b = pipeline::block_build(c, cfg, bw, input, dy, dx).1;
    let s = stages(c, cfg);
    let rows = cfg.seq_len;
    let (dim, d) = (cfg.dim, rows * cfg.dim);
    let z = bufs_of(input, b);
    lemma_parts(c, cfg, bw, input, dy, dx);
    lemma_stages(c, cfg);
    lemma_stages_extend(c, cfg);
    pipeline::lemma_block_sizes(cfg);
    lemma_prefix_trans(s.qkv, s.end, e);
    lemma_prefix_trans(s.split, s.end, e);
    lemma_prefix_trans(s.att, s.end, e);
    lemma_bufs_in_order(c, cfg, bw, input, dy, dx);
    let g12 = transformer::grad_buf(c, 12, d);
    let g13 = transformer::grad_buf(c, 13, d);
    let g11 = transformer::grad_buf(c, 11, 3 * d);
    assert(g12.id == c.len() + 12 && g13.id == c.len() + 13 && g11.id == c.len() + 11);
    lemma_norm_step(s.a, e, cfg, rows, bw.norm_1, input, g12, g13, m0);
    lemma_linear_step(
        s.qkv,
        e,
        dim,
        (dim * 3) as u32,
        rows,
        bw.qkv_proj,
        z.norm_1,
        g11,
        g12,
        m1,
    );
    lemma_cut(c, e, cfg, bw, input, dy, dx, m2);
    trainer_block_laws::lemma_front_values(cfg, rows, bw, z, s.a.len(), m0, m1, m2, m3);
}

#[verifier::rlimit(30)]
proof fn lemma_rear(
    c: Seq<Init>,
    e: Seq<Init>,
    cfg: ModelConfig,
    bw: BlockWeights,
    input: Tensor,
    dy: Tensor,
    dx: Tensor,
    r: Seq<Memory>,
)
    requires
        pipeline::block_fits(cfg),
        stages(c, cfg).end.is_prefix_of(e),
        e.len() <= usize::MAX,
        weights_before(bw, input, c.len()),
        r.len() == 13,
        dx.id < c.len(),
        ({
            let b = pipeline::block_build(c, cfg, bw, input, dy, dx).1;
            &&& r[6] == meaning::run(e, b.out_proj.forward_graph, r[5])
            &&& r[7] == meaning::run(e, b.add_1.forward_graph, r[6])
            &&& r[8] == meaning::run(e, b.norm_2.forward_graph, r[7])
            &&& r[9] == meaning::run(e, b.ffn_up.forward_graph, r[8])
            &&& r[10] == meaning::run(e, b.silu.forward_graph, r[9])
            &&& r[11] == meaning::run(e, b.ffn_down.forward_graph, r[10])
            &&& r[12] == meaning::run(e, b.add_2.forward_graph, r[11])
        }),
    ensures
        ({
            let z = bufs_of(input, pipeline::block_build(c, cfg, bw, input, dy, dx).1);
            let rows = cfg.seq_len;
            let n = stages(c, cfg).a.len();
            &&& r[12][input] == trainer_stream(cfg, rows, bw, r[5], r[5][input], r[5][z.att])
            &&& forall|t: Tensor|
                (t.id < n && t != input) || t.id >= stages(c, cfg).end.len()
                    ==> #[trigger] r[12][t] == r[5][t]
            &&& forall|t: Tensor| n <= t.id < z.proj.id ==> #[trigger] r[12][t] == r[5][t]
        }),
{
    let b = pipeline::block_build(c, cfg, bw, input, dy, dx).1;
    let s = stages(c, cfg);
    let rows = cfg.seq_len;
    let (dim, hidden) = (cfg.dim, cfg.ffn_hidden);
    let (d, h) = (rows * dim, rows * hidden);
    let z = bufs_of(input, b);
    lemma_parts(c, cfg, bw, input, dy, dx);
    lemma_stages(c, cfg);
    lemma_stages_extend(c, cfg);
    pipeline::lemma_block_sizes(cfg);
    lemma_prefix_trans(s.norm_2, s.end, e);
    lemma_prefix_trans(s.up, s.end, e);
    lemma_prefix_trans(s.down, s.end, e);
    lemma_prefix_trans(s.back, s.end, e);
    lemma_bufs_in_order(c, cfg, bw, input, dy, dx);
    let g = |i: int, n: int| transformer::grad_buf(c, i, n);
    assert(g(0, d).id == c.len() && g(1, d).id == c.len() + 1 && g(2, h).id == c.len() + 2);
    assert(g(3, h).id == c.len() + 3 && g(4, d).id == c.len() + 4 && g(5, d).id == c.len() + 5);
    assert(g(6, d).id == c.len() + 6 && g(7, d).id == c.len() + 7);
    lemma_linear_step(s.proj, e, dim, dim, rows, bw.out_proj, z.att, g(6, d), g(7, d), r[5]);
    trainer_block_laws::lemma_add_step(e, d as u32, input, z.proj, g(0, d), dx, g(6, d), r[6]);
    lemma_norm_step(s.norm_2, e, cfg, rows, bw.norm_2, input, g(4, d), g(5, d), r[7]);
    lemma_linear_step(s.up, e, dim, hidden, rows, bw.ffn_up, z.norm_2, g(3, h), g(4, d), r[8]);
    trainer_laws::silu_layer_activates(e, h as u32, z.up, g(2, h), g(3, h), r[9], r[9]);
    lemma_linear_step(s.down, e, hidden, dim, rows, bw.ffn_down, z.up, g(1, d), g(2, h), r[10]);
    trainer_block_laws::lemma_add_step(e, d as u32, input, z.down, dy, g(0, d), g(1, d), r[11]);
    trainer_block_laws::lemma_rear_values(
        cfg,
        rows,
        bw,
        z,
        s.a.len(),
        r[5],
        r[6],
        r[7],
        r[8],
        r[9],
        r[10],
        r[11],
        r[12],
    );
}

/// A block of the single-sequence trainer leaves in its stream, the input buffer, the
/// input plus the projected attention of its norm, plus the feed-forward layers of the
/// norm of that sum. Nothing else that was there before changes.
pub proof fn heads_block_is_a_block(
    c: Seq<Init>,
    e: Seq<Init>,
    cfg: ModelConfig,
    bw: BlockWeights,
    input: Tensor,
    dy: Tensor,
    dx: Tensor,
    mem: Memory,
)
    requires
        pipeline::block_fits(cfg),
        pipeline::block_build(c, cfg, bw, input, dy, dx).0.is_prefix_of(e),
        e.len() <= usize::MAX,
        weights_before(bw, input, c.len()),
        dx.id < c.len(),
    ensures
        ({
            let b = pipeline::block_build(c, cfg, bw, input, dy, dx).1;
            let after = meaning::run(e, transformer::block_forward(b), mem);
            &&& b.add_2.in_out_buffer == input
            &&& after[input] == trainer_stream(
                cfg,
                cfg.seq_len,
                bw,
                mem,
                mem[input],
                attended_by_heads(cfg, bw, mem, mem[input], mem[b.attention.out_buffer]),
            )
            &&& forall|t: Tensor|
                (t.id < c.len() && t != input) || t.id >= pipeline::block_build(
                    c,
                    cfg,
                    bw,
                    input,
                    dy,
                    dx,
                ).0.len() ==> #[trigger] after[t] == mem[t]
            &&& c.is_prefix_of(e)
        }),
{
    let b = pipeline::block_build(c, cfg, bw, input, dy, dx).1;
    let s = stages(c, cfg);
    lemma_parts(c, cfg, bw, input, dy, dx);
    lemma_stages(c, cfg);
    lemma_stages_extend(c, cfg);
    lemma_prefix_trans(c, s.end, e);
    let r = trainer_block_laws::lemma_twelve(e, b, mem);
    lemma_front(c, e, cfg, bw, input, dy, dx, r[0], r[1], r[2], r[3]);
    lemma_attends(c, e, cfg, bw, input, dy, dx, r[3], r[4], r[5]);
    lemma_rear(c, e, cfg, bw, input, dy, dx, r);
    lemma_bufs_in_order(c, cfg, bw, input, dy, dx);
}

proof fn lemma_attends(
    c: Seq<Init>,
    e: Seq<Init>,
    cfg: ModelConfig,
    bw: BlockWeights,
    input: Tensor,
    dy: Tensor,
    dx: Tensor,
    m3: Memory,
    m4: Memory,
    m5: Memory,
)
    requires
        pipeline::block_fits(cfg),
        stages(c, cfg).end.is_prefix_of(e),
        e.len() <= usize::MAX,
        ({
            let b = pipeline::block_build(c, cfg, bw, input, dy, dx).1;
            &&& m4 == meaning::run(e, b.rope_forward, m3)
            &&& m5 == meaning::run(e, b.attention.forward_graph, m4)
        }),
    ensures
        ({
            let z = bufs_of(input, pipeline::block_build(c, cfg, bw, input, dy, dx).1);
            &&& m5[z.att] == head_laws::by_heads(
                heads_of(cfg),
                m3[z.att],
                meaning::rotated(rows_of(cfg, 0), m3[z.q]),
                meaning::rotated(rows_of(cfg, 0), m3[z.k]),
                m3[z.v],
                cfg.num_heads as nat,
            )
            &&& forall|t: Tensor|
                t.id < stages(c, cfg).a.len() || t.id >= stages(c, cfg).end.len()
                    ==> #[trigger] m5[t] == m3[t]
        }),
{
    let b = pipeline::block_build(c, cfg, bw, input, dy, dx).1;
    let s = stages(c, cfg);
    let z = bufs_of(input, b);
    lemma_parts(c, cfg, bw, input, dy, dx);
    lemma_stages(c, cfg);
    lemma_stages_extend(c, cfg);
    lemma_prefix_trans(s.att, s.end, e);
    lemma_prefix_trans(s.proj, s.end, e);
    lemma_bufs_in_order(c, cfg, bw, input, dy, dx);
    let n = s.turn.len() as int;
    let turns = pipeline::rope_shape(cfg).spec_meta();
    assert(s.att[n] == Init::Meta(turns));
    assert(s.att[n + 1] == Init::Meta(turns));
    trainer_laws::lemma_prefix_at(s.att, e, n);
    trainer_laws::lemma_prefix_at(s.att, e, n + 1);
    let g = b.rope_forward;
    meaning::lemma_run_two(e, g[0], g[1], m3);
    assert(g =~= seq![g[0], g[1]]);
    trainer_block_laws::lemma_turn_sizes(cfg, 0, 1);
    assert(meaning::turn_of(turns) == rows_of(cfg, 0));
    head_laws::heads_attend(heads_of(cfg), s.att, e, z.q, z.k, z.v, m4);
}

} // verus!
