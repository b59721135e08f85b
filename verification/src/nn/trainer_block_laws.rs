//! What the trainer's transformer blocks compute: attention behind the first norm and
//! the feed-forward layers behind the second, each added to the residual stream, which
//! stays in the block's input buffer.
use super::kernels::emit;
use super::kernels::meta::{HeadMoveMeta, KernelMeta, NormMeta};
use super::layer_laws::part;
use super::layers;
use super::meaning::{self, Memory, Term, Turn};
use super::trainer_laws;
use super::transformer;
use super::weights::BlockWeights;
use crate::config::ModelConfig;
use crate::device::{self, Init, Scalar, Tensor};
use vstd::prelude::*;

verus! {

// ---- formulas ----

/// The norm of the trainer's layers, of `rows` rows.
pub open spec fn trainer_norm(cfg: ModelConfig, rows: u32, x: Term, gain: Term) -> Term {
    meaning::norm(
        NormMeta { seq_len: rows, size: cfg.dim, eps: Scalar::Dec { digits: 1, places: 5 } },
        x,
        gain,
    )
}

/// The queries (0), keys (1) or values (2) of the stream `x`.
pub open spec fn trainer_role(
    cfg: ModelConfig,
    rows: u32,
    bw: BlockWeights,
    mem: Memory,
    x: Term,
    i: int,
) -> Term {
    meaning::columns(
        part(cfg, rows as int, i),
        meaning::product(
            rows as int,
            cfg.dim as int,
            3 * cfg.dim,
            trainer_norm(cfg, rows, x, mem[bw.norm_1]),
            mem[bw.qkv_proj],
        ),
    )
}

/// The stream behind a block whose attention gave `attended`.
pub open spec fn trainer_stream(
    cfg: ModelConfig,
    rows: u32,
    bw: BlockWeights,
    mem: Memory,
    x: Term,
    attended: Term,
) -> Term {
    let mid = meaning::sum(
        x,
        meaning::product(
            rows as int,
            cfg.dim as int,
            cfg.dim as int,
            attended,
            mem[bw.out_proj],
        ),
    );
    meaning::sum(
        mid,
        meaning::product(
            rows as int,
            cfg.ffn_hidden as int,
            cfg.dim as int,
            meaning::silu(
                meaning::product(
                    rows as int,
                    cfg.dim as int,
                    cfg.ffn_hidden as int,
                    trainer_norm(cfg, rows, mid, mem[bw.norm_2]),
                    mem[bw.ffn_up],
                ),
            ),
            mem[bw.ffn_down],
        ),
    )
}

/// The rows of sequence `b` of a batch, at positions from 0 on.
pub open spec fn rows_of(cfg: ModelConfig, b: int) -> Turn {
    Turn {
        first: b * cfg.seq_len,
        rows: cfg.seq_len as int,
        dim: cfg.dim as int,
        head_dim: cfg.dim as int / cfg.num_heads as int,
        pos: 0,
    }
}

/// The first `n` sequences of `x`, rotated each by itself.
pub open spec fn turned(cfg: ModelConfig, x: Term, n: nat) -> Term
    decreases n,
{
    if n == 0 {
        x
    } else {
        meaning::rotated(rows_of(cfg, n - 1), turned(cfg, x, (n - 1) as nat))
    }
}

/// The first `n` sequences of `x`, rotated back each by itself.
pub open spec fn turned_back(cfg: ModelConfig, x: Term, n: nat) -> Term
    decreases n,
{
    if n == 0 {
        x
    } else {
        meaning::unrotated(rows_of(cfg, n - 1), turned_back(cfg, x, (n - 1) as nat))
    }
}

// ---- steps ----

/// `m2` is `m` with `v` in buffer `t`.
pub open spec fn became(m: Memory, m2: Memory, t: Tensor, v: Term) -> bool {
    m2[t] == v && forall|u: Tensor| u != t ==> #[trigger] m2[u] == m[u]
}

/// The buffers of a block's forward pass.
pub struct Bufs {
    pub input: Tensor,
    pub norm_1: Tensor,
    pub qkv: Tensor,
    pub q: Tensor,
    pub k: Tensor,
    pub v: Tensor,
    pub att: Tensor,
    pub proj: Tensor,
    pub norm_2: Tensor,
    pub up: Tensor,
    pub down: Tensor,
}

/// The weights of a block lie before its own buffers, and the stream is none of them.
pub open spec fn weights_before(bw: BlockWeights, input: Tensor, n: nat) -> bool {
    &&& input.id < n
    &&& bw.norm_1.id < n && bw.norm_1 != input
    &&& bw.qkv_proj.id < n && bw.qkv_proj != input
    &&& bw.out_proj.id < n && bw.out_proj != input
    &&& bw.norm_2.id < n && bw.norm_2 != input
    &&& bw.ffn_up.id < n && bw.ffn_up != input
    &&& bw.ffn_down.id < n && bw.ffn_down != input
}

/// The buffers of a block, in the order in which they were made.
pub open spec fn in_order(b: Bufs, n: nat) -> bool {
    &&& n <= b.norm_1.id < b.qkv.id < b.q.id < b.k.id < b.v.id < b.att.id
    &&& b.att.id < b.proj.id < b.norm_2.id < b.up.id < b.down.id
}

/// The steps up to the queries, keys and values.
pub(crate) proof fn lemma_front_values(
    cfg: ModelConfig,
    rows: u32,
    bw: BlockWeights,
    b: Bufs,
    n: nat,
    m0: Memory,
    m1: Memory,
    m2: Memory,
    m3: Memory,
)
    requires
        weights_before(bw, b.input, n),
        in_order(b, n),
        became(m0, m1, b.norm_1, trainer_norm(cfg, rows, m0[b.input], m0[bw.norm_1])),
        became(
            m1,
            m2,
            b.qkv,
            meaning::product(
                rows as int,
                cfg.dim as int,
                3 * cfg.dim,
                m1[b.norm_1],
                m1[bw.qkv_proj],
            ),
        ),
        m3[b.q] == meaning::columns(part(cfg, rows as int, 0), m2[b.qkv]),
        m3[b.k] == meaning::columns(part(cfg, rows as int, 1), m2[b.qkv]),
        m3[b.v] == meaning::columns(part(cfg, rows as int, 2), m2[b.qkv]),
        forall|t: Tensor| t != b.q && t != b.k && t != b.v ==> #[trigger] m3[t] == m2[t],
    ensures
        m3[b.q] == trainer_role(cfg, rows, bw, m0, m0[b.input], 0),
        m3[b.k] == trainer_role(cfg, rows, bw, m0, m0[b.input], 1),
        m3[b.v] == trainer_role(cfg, rows, bw, m0, m0[b.input], 2),
        forall|t: Tensor| t.id < n || t.id > b.down.id ==> #[trigger] m3[t] == m0[t],
        m3[b.att] == m0[b.att],
{
}

/// The steps behind the attention.
pub(crate) proof fn lemma_rear_values(
    cfg: ModelConfig,
    rows: u32,
    bw: BlockWeights,
    b: Bufs,
    n: nat,
    m5: Memory,
    m6: Memory,
    m7: Memory,
    m8: Memory,
    m9: Memory,
    m10: Memory,
    m11: Memory,
    m12: Memory,
)
    requires
        weights_before(bw, b.input, n),
        in_order(b, n),
        became(
            m5,
            m6,
            b.proj,
            meaning::product(
                rows as int,
                cfg.dim as int,
                cfg.dim as int,
                m5[b.att],
                m5[bw.out_proj],
            ),
        ),
        became(m6, m7, b.input, meaning::sum(m6[b.input], m6[b.proj])),
        became(m7, m8, b.norm_2, trainer_norm(cfg, rows, m7[b.input], m7[bw.norm_2])),
        became(
            m8,
            m9,
            b.up,
            meaning::product(
                rows as int,
                cfg.dim as int,
                cfg.ffn_hidden as int,
                m8[b.norm_2],
                m8[bw.ffn_up],
            ),
        ),
        became(m9, m10, b.up, meaning::silu(m9[b.up])),
        became(
            m10,
            m11,
            b.down,
            meaning::product(
                rows as int,
                cfg.ffn_hidden as int,
                cfg.dim as int,
                m10[b.up],
                m10[bw.ffn_down],
            ),
        ),
        became(m11, m12, b.input, meaning::sum(m11[b.input], m11[b.down])),
    ensures
        m12[b.input] == trainer_stream(cfg, rows, bw, m5, m5[b.input], m5[b.att]),
        forall|t: Tensor|
            (t.id < n && t != b.input) || t.id > b.down.id ==> #[trigger] m12[t] == m5[t],
        forall|t: Tensor| n <= t.id < b.proj.id ==> #[trigger] m12[t] == m5[t],
{
}

// ---- contexts ----

pub(crate) proof fn lemma_prefix_trans(a: Seq<Init>, b: Seq<Init>, c: Seq<Init>)
    requires
        a.is_prefix_of(b),
        b.is_prefix_of(c),
    ensures
        a.is_prefix_of(c),
{
    assert(a =~= c.subrange(0, a.len() as int)) by {
        assert forall|i: int| 0 <= i < a.len() implies a[i] == c[i] by {
            trainer_laws::lemma_prefix_at(a, b, i);
            trainer_laws::lemma_prefix_at(b, c, i);
        }
    }
}

pub(crate) proof fn lemma_linear_extends(c: Seq<Init>, i: u32, o: u32, rows: u32)
    ensures
        c.is_prefix_of(layers::linear_ctx(c, i, o, rows)),
        layers::linear_ctx(c, i, o, rows).len() == c.len() + 5,
{
}

pub(crate) proof fn lemma_norm_extends(c: Seq<Init>, dim: u32, rows: u32)
    ensures
        c.is_prefix_of(layers::rmsnorm_ctx(c, dim, rows)),
        layers::rmsnorm_ctx(c, dim, rows).len() == c.len() + 5,
{
}

proof fn lemma_turns_extend(c: Seq<Init>, cfg: ModelConfig, n: nat)
    ensures
        c.is_prefix_of(transformer::rope_ctx(c, cfg, n)),
        transformer::rope_ctx(c, cfg, n).len() == c.len() + n,
    decreases n,
{
    if n > 0 {
        lemma_turns_extend(c, cfg, (n - 1) as nat);
    }
}

proof fn lemma_turns_at(c: Seq<Init>, cfg: ModelConfig, n: nat, m: nat)
    requires
        n < m,
    ensures
        transformer::rope_ctx(c, cfg, m)[c.len() as int + n] == Init::Meta(
            transformer::rope_shape(cfg, n as int).spec_meta(),
        ),
    decreases m,
{
    lemma_turns_extend(c, cfg, (m - 1) as nat);
    if n + 1 < m {
        lemma_turns_at(c, cfg, n, (m - 1) as nat);
    }
}

pub(crate) proof fn lemma_attention_extends(
    c: Seq<Init>,
    seq_len: u32,
    dim: u32,
    heads: u32,
    batch: u32,
)
    ensures
        c.is_prefix_of(layers::attention_ctx(c, seq_len, dim, heads, batch)),
        layers::attention_ctx(c, seq_len, dim, heads, batch).len() == c.len() + 1 + 3 * batch,
        layers::attn_fwd_ctx(
            device::push_zeros(c, batch * seq_len * dim),
            seq_len,
            dim,
            heads,
            batch as nat,
        ).is_prefix_of(layers::attention_ctx(c, seq_len, dim, heads, batch)),
{
    let c1 = device::push_zeros(c, batch * seq_len * dim);
    let c2 = layers::attn_fwd_ctx(c1, seq_len, dim, heads, batch as nat);
    trainer_laws::lemma_flash_len(c1, seq_len, dim, heads, batch as nat);
    trainer_laws::lemma_flash_len(c2, seq_len, dim, heads, batch as nat);
    lemma_flash_extends(c1, seq_len, dim, heads, batch as nat);
    lemma_prefix_trans(c, c1, c2);
    lemma_prefix_trans(c, c2, layers::attention_ctx(c, seq_len, dim, heads, batch));
}

proof fn lemma_flash_extends(c: Seq<Init>, seq_len: u32, dim: u32, heads: u32, n: nat)
    ensures
        c.is_prefix_of(layers::attn_fwd_ctx(c, seq_len, dim, heads, n)),
    decreases n,
{
    if n > 0 {
        lemma_flash_extends(c, seq_len, dim, heads, (n - 1) as nat);
        lemma_prefix_trans(
            c,
            layers::attn_fwd_ctx(c, seq_len, dim, heads, (n - 1) as nat),
            layers::attn_fwd_ctx(c, seq_len, dim, heads, n),
        );
    }
}

// ---- rotation ----

pub(crate) proof fn lemma_turns_forward(
    e: Seq<Init>,
    c: Seq<Init>,
    cfg: ModelConfig,
    q: Tensor,
    k: Tensor,
    mem: Memory,
    n: nat,
    all: nat,
)
    requires
        n <= all,
        transformer::rope_ctx(c, cfg, all).is_prefix_of(e),
        all * cfg.seq_len <= u32::MAX,
        c.len() + all <= usize::MAX,
        cfg.num_heads > 0,
        q != k,
    ensures
        ({
            let after = meaning::run(e, transformer::rope_nodes(c, cfg, q, k, n), mem);
            &&& after[q] == turned(cfg, mem[q], n)
            &&& after[k] == turned(cfg, mem[k], n)
            &&& forall|t: Tensor| t != q && t != k ==> #[trigger] after[t] == mem[t]
        }),
    decreases n,
{
    if n > 0 {
        let b = n - 1;
        lemma_turns_forward(e, c, cfg, q, k, mem, b as nat, all);
        lemma_turns_at(c, cfg, b as nat, all);
        lemma_turns_extend(c, cfg, b as nat);
        lemma_turns_extend(c, cfg, all);
        trainer_laws::lemma_prefix_at(transformer::rope_ctx(c, cfg, all), e, c.len() as int + b);
        let g = transformer::rope_nodes(c, cfg, q, k, b as nat);
        let node = transformer::rope_nodes(c, cfg, q, k, n).last();
        meaning::lemma_run_push(e, g, node, mem);
        assert(transformer::rope_nodes(c, cfg, q, k, n) =~= g.push(node));
        lemma_turn_sizes(cfg, b, all as int);
    }
}

pub(crate) proof fn lemma_turns_backward(
    e: Seq<Init>,
    c: Seq<Init>,
    cfg: ModelConfig,
    q: Tensor,
    k: Tensor,
    mem: Memory,
    n: nat,
    all: nat,
)
    requires
        n <= all,
        transformer::rope_ctx(c, cfg, all).is_prefix_of(e),
        all * cfg.seq_len <= u32::MAX,
        c.len() + all <= usize::MAX,
        cfg.num_heads > 0,
        q != k,
    ensures
        ({
            let after = meaning::run(e, transformer::rope_bwd_nodes(c, cfg, q, k, n), mem);
            &&& after[q] == turned_back(cfg, mem[q], n)
            &&& after[k] == turned_back(cfg, mem[k], n)
            &&& forall|t: Tensor| t != q && t != k ==> #[trigger] after[t] == mem[t]
        }),
    decreases n,
{
    if n > 0 {
        let b = n - 1;
        lemma_turns_backward(e, c, cfg, q, k, mem, b as nat, all);
        lemma_turns_at(c, cfg, b as nat, all);
        lemma_turns_extend(c, cfg, b as nat);
        lemma_turns_extend(c, cfg, all);
        trainer_laws::lemma_prefix_at(transformer::rope_ctx(c, cfg, all), e, c.len() as int + b);
        let g = transformer::rope_bwd_nodes(c, cfg, q, k, b as nat);
        let node = transformer::rope_bwd_nodes(c, cfg, q, k, n).last();
        meaning::lemma_run_push(e, g, node, mem);
        assert(transformer::rope_bwd_nodes(c, cfg, q, k, n) =~= g.push(node));
        lemma_turn_sizes(cfg, b, all as int);
    }
}

pub(crate) proof fn lemma_turn_sizes(cfg: ModelConfig, b: int, all: int)
    requires
        0 <= b < all,
        all * cfg.seq_len <= u32::MAX,
        cfg.num_heads > 0,
    ensures
        0 <= b * cfg.seq_len <= u32::MAX,
        cfg.spec_head_dim() == cfg.dim as int / cfg.num_heads as int,
{
    assert(0 <= b * cfg.seq_len <= all * cfg.seq_len) by (nonlinear_arith)
        requires
            0 <= b < all,
            cfg.seq_len >= 0,
    ;
    let (d, h) = (cfg.dim as int, cfg.num_heads as int);
    vstd::arithmetic::div_mod::lemma_fundamental_div_mod(d, h);
    assert(0 <= d / h <= d) by (nonlinear_arith)
        requires
            d == h * (d / h) + d % h,
            0 <= d % h,
            h >= 1,
            d >= 0,
    ;
}

// ---- the batched block ----

/// What has been made before each part of a block that starts in `c`.
pub struct Stages {
    pub a: Seq<Init>,
    pub qkv: Seq<Init>,
    pub split: Seq<Init>,
    pub turn: Seq<Init>,
    pub att: Seq<Init>,
    pub proj: Seq<Init>,
    pub norm_2: Seq<Init>,
    pub up: Seq<Init>,
    pub down: Seq<Init>,
    pub back: Seq<Init>,
    pub join: Seq<Init>,
    pub end: Seq<Init>,
}

pub open spec fn stages(c: Seq<Init>, cfg: ModelConfig) -> Stages {
    let rows = transformer::batch_rows(cfg);
    let (dim, hidden) = (cfg.dim, cfg.ffn_hidden);
    let d = rows * dim;
    let a = transformer::grads_ctx(c, d, rows * hidden);
    let qkv = layers::rmsnorm_ctx(a, dim, rows);
    let split = layers::linear_ctx(qkv, dim, (dim * 3) as u32, rows);
    let shape = HeadMoveMeta::spec_qkv_slice(rows, dim, 0);
    let turn = device::push_meta(
        split.push(Init::Zeros(d as u32)).push(Init::Zeros(d as u32)).push(Init::Zeros(d as u32)),
        shape.spec_meta(),
    );
    let att = transformer::rope_ctx(turn, cfg, cfg.batch_size as nat);
    let proj = layers::attention_ctx(att, cfg.seq_len, dim, cfg.num_heads, cfg.batch_size);
    let norm_2 = layers::linear_ctx(proj, dim, dim, rows);
    let up = layers::rmsnorm_ctx(norm_2, dim, rows);
    let down = layers::linear_ctx(up, dim, hidden, rows);
    let back = layers::linear_ctx(down, hidden, dim, rows);
    let join = transformer::rope_ctx(back, cfg, cfg.batch_size as nat);
    let end = device::push_meta(join, shape.spec_meta());
    Stages { a, qkv, split, turn, att, proj, norm_2, up, down, back, join, end }
}

pub(crate) proof fn lemma_stages(c: Seq<Init>, cfg: ModelConfig)
    ensures
        ({
            let s = stages(c, cfg);
            let n = cfg.batch_size;
            &&& s.a.len() == c.len() + 14
            &&& s.qkv.len() == s.a.len() + 5
            &&& s.split.len() == s.qkv.len() + 5
            &&& s.turn.len() == s.split.len() + 4
            &&& s.att.len() == s.turn.len() + n
            &&& s.proj.len() == s.att.len() + 1 + 3 * n
            &&& s.norm_2.len() == s.proj.len() + 5
            &&& s.up.len() == s.norm_2.len() + 5
            &&& s.down.len() == s.up.len() + 5
            &&& s.back.len() == s.down.len() + 5
            &&& s.join.len() == s.back.len() + n
            &&& s.end.len() == s.join.len() + 1
        }),
{
    let rows = transformer::batch_rows(cfg);
    let (dim, hidden) = (cfg.dim, cfg.ffn_hidden);
    let s = stages(c, cfg);
    let n = cfg.batch_size as nat;
    lemma_norm_extends(s.a, dim, rows);
    lemma_linear_extends(s.qkv, dim, (dim * 3) as u32, rows);
    lemma_turns_extend(s.turn, cfg, n);
    lemma_attention_extends(s.att, cfg.seq_len, dim, cfg.num_heads, cfg.batch_size);
    lemma_linear_extends(s.proj, dim, dim, rows);
    lemma_norm_extends(s.norm_2, dim, rows);
    lemma_linear_extends(s.up, dim, hidden, rows);
    lemma_linear_extends(s.down, hidden, dim, rows);
    lemma_turns_extend(s.back, cfg, n);
}

/// Every stage begins with the earlier ones.
pub(crate) proof fn lemma_stages_extend(c: Seq<Init>, cfg: ModelConfig)
    ensures
        ({
            let s = stages(c, cfg);
            &&& s.qkv.is_prefix_of(s.end)
            &&& s.split.is_prefix_of(s.end)
            &&& s.turn.is_prefix_of(s.end)
            &&& s.att.is_prefix_of(s.end)
            &&& s.proj.is_prefix_of(s.end)
            &&& s.norm_2.is_prefix_of(s.end)
            &&& s.up.is_prefix_of(s.end)
            &&& s.down.is_prefix_of(s.end)
            &&& s.back.is_prefix_of(s.end)
            &&& s.join.is_prefix_of(s.end)
        }),
{
    let rows = transformer::batch_rows(cfg);
    let (dim, hidden) = (cfg.dim, cfg.ffn_hidden);
    let s = stages(c, cfg);
    let n = cfg.batch_size as nat;
    assert(s.join.is_prefix_of(s.end));
    lemma_turns_extend(s.back, cfg, n);
    lemma_prefix_trans(s.back, s.join, s.end);
    lemma_linear_extends(s.down, hidden, dim, rows);
    lemma_prefix_trans(s.down, s.back, s.end);
    lemma_linear_extends(s.up, dim, hidden, rows);
    lemma_prefix_trans(s.up, s.down, s.end);
    lemma_norm_extends(s.norm_2, dim, rows);
    lemma_prefix_trans(s.norm_2, s.up, s.end);
    lemma_linear_extends(s.proj, dim, dim, rows);
    lemma_prefix_trans(s.proj, s.norm_2, s.end);
    lemma_attention_extends(s.att, cfg.seq_len, dim, cfg.num_heads, cfg.batch_size);
    lemma_prefix_trans(s.att, s.proj, s.end);
    lemma_turns_extend(s.turn, cfg, n);
    lemma_prefix_trans(s.turn, s.att, s.end);
    assert(s.split.is_prefix_of(s.turn));
    lemma_prefix_trans(s.split, s.turn, s.end);
    lemma_linear_extends(s.qkv, dim, (dim * 3) as u32, rows);
    lemma_prefix_trans(s.qkv, s.split, s.end);
}

/// The parts of a block.
pub(crate) proof fn lemma_parts(
    c: Seq<Init>,
    cfg: ModelConfig,
    bw: BlockWeights,
    input: Tensor,
    dy: Tensor,
    dx: Tensor,
)
    ensures
        ({
            let s = stages(c, cfg);
            let rows = transformer::batch_rows(cfg);
            let (dim, hidden) = (cfg.dim, cfg.ffn_hidden);
            let d = rows * dim;
            let h = rows * hidden;
            let g = |i: int, n: int| transformer::grad_buf(c, i, n);
            let (end, b) = transformer::block_build(c, cfg, bw, input, dy, dx);
            let shape = HeadMoveMeta::spec_qkv_slice(rows, dim, 0);
            let c4 = s.split.push(Init::Zeros(d as u32)).push(Init::Zeros(d as u32)).push(
                Init::Zeros(d as u32),
            );
            &&& end == s.end
            &&& b.norm_1 == layers::rmsnorm_view(
                s.a,
                dim,
                rows,
                bw.norm_1,
                input,
                g(12, d),
                g(13, d),
            )
            &&& b.qkv_proj == layers::linear_view(
                s.qkv,
                dim,
                (dim * 3) as u32,
                rows,
                bw.qkv_proj,
                b.norm_1.out_buffer,
                g(11, 3 * d),
                g(12, d),
            )
            &&& b.q_buf == transformer::grad_buf(s.split, 0, d)
            &&& b.k_buf == transformer::grad_buf(s.split, 1, d)
            &&& b.v_buf == transformer::grad_buf(s.split, 2, d)
            &&& b.qkv_split_forward == seq![
                emit::qkv_split_node(
                    b.qkv_proj.out_buffer,
                    b.q_buf,
                    b.k_buf,
                    b.v_buf,
                    shape,
                    device::next_meta(c4, shape.spec_meta()),
                ),
            ]
            &&& b.rope_forward == transformer::rope_nodes(
                s.turn,
                cfg,
                b.q_buf,
                b.k_buf,
                cfg.batch_size as nat,
            )
            &&& b.attention == layers::attention_view(
                s.att,
                cfg.seq_len,
                dim,
                cfg.num_heads,
                cfg.batch_size,
                b.q_buf,
                b.k_buf,
                b.v_buf,
                g(7, d),
                g(8, d),
                g(9, d),
                g(10, d),
            )
            &&& b.out_proj == layers::linear_view(
                s.proj,
                dim,
                dim,
                rows,
                bw.out_proj,
                b.attention.out_buffer,
                g(6, d),
                g(7, d),
            )
            &&& b.add_1 == layers::add_view(
                d as u32,
                input,
                b.out_proj.out_buffer,
                g(0, d),
                dx,
                g(6, d),
            )
            &&& b.norm_2 == layers::rmsnorm_view(
                s.norm_2,
                dim,
                rows,
                bw.norm_2,
                input,
                g(4, d),
                g(5, d),
            )
            &&& b.ffn_up == layers::linear_view(
                s.up,
                dim,
                hidden,
                rows,
                bw.ffn_up,
                b.norm_2.out_buffer,
                g(3, h),
                g(4, d),
            )
            &&& b.silu == layers::silu_view(h as u32, b.ffn_up.out_buffer, g(2, h), g(3, h))
            &&& b.ffn_down == layers::linear_view(
                s.down,
                hidden,
                dim,
                rows,
                bw.ffn_down,
                b.ffn_up.out_buffer,
                g(1, d),
                g(2, h),
            )
            &&& b.add_2 == layers::add_view(
                d as u32,
                input,
                b.ffn_down.out_buffer,
                dy,
                g(0, d),
                g(1, d),
            )
        }),
{
    reveal(transformer::block_build);
}

/// The buffers of a block.
pub open spec fn bufs_of(input: Tensor, b: transformer::TransformerBlockView) -> Bufs {
    Bufs {
        input,
        norm_1: b.norm_1.out_buffer,
        qkv: b.qkv_proj.out_buffer,
        q: b.q_buf,
        k: b.k_buf,
        v: b.v_buf,
        att: b.attention.out_buffer,
        proj: b.out_proj.out_buffer,
        norm_2: b.norm_2.out_buffer,
        up: b.ffn_up.out_buffer,
        down: b.ffn_down.out_buffer,
    }
}

pub(crate) proof fn lemma_bufs_in_order(
    c: Seq<Init>,
    cfg: ModelConfig,
    bw: BlockWeights,
    input: Tensor,
    dy: Tensor,
    dx: Tensor,
)
    requires
        stages(c, cfg).end.len() <= usize::MAX,
    ensures
        ({
            let b = transformer::block_build(c, cfg, bw, input, dy, dx).1;
            let s = stages(c, cfg);
            let z = bufs_of(input, b);
            &&& in_order(z, s.a.len())
            &&& z.norm_1.id < s.qkv.len() && z.v.id < s.turn.len()
            &&& s.att.len() == z.att.id
            &&& z.up.id < s.down.len()
        }),
{
    lemma_parts(c, cfg, bw, input, dy, dx);
    lemma_stages(c, cfg);
}

pub(crate) proof fn lemma_linear_step(
    c: Seq<Init>,
    e: Seq<Init>,
    i: u32,
    o: u32,
    rows: u32,
    weight: Tensor,
    x: Tensor,
    dy: Tensor,
    dx: Tensor,
    m: Memory,
)
    requires
        layers::linear_ctx(c, i, o, rows).is_prefix_of(e),
        e.len() <= usize::MAX,
        layers::linear_fits(i as int, o as int, rows as int),
        weight.id < c.len() && x.id < c.len() && dy.id < c.len() && dx.id < c.len(),
    ensures
        ({
            let l = layers::linear_view(c, i, o, rows, weight, x, dy, dx);
            became(
                m,
                meaning::run(e, l.forward_graph, m),
                l.out_buffer,
                meaning::product(rows as int, i as int, o as int, m[x], m[weight]),
            )
        }),
{
    lemma_linear_extends(c, i, o, rows);
    trainer_laws::linear_layer_multiplies(c, e, i, o, rows, weight, x, dy, dx, m, m);
}

pub(crate) proof fn lemma_norm_step(
    c: Seq<Init>,
    e: Seq<Init>,
    cfg: ModelConfig,
    rows: u32,
    weight: Tensor,
    x: Tensor,
    dy: Tensor,
    dx: Tensor,
    m: Memory,
)
    requires
        layers::rmsnorm_ctx(c, cfg.dim, rows).is_prefix_of(e),
        e.len() <= usize::MAX,
        rows * cfg.dim <= u32::MAX,
        weight.id < c.len() && x.id < c.len() && dy.id < c.len() && dx.id < c.len(),
        dx != x && dx != dy,
    ensures
        ({
            let l = layers::rmsnorm_view(c, cfg.dim, rows, weight, x, dy, dx);
            became(
                m,
                meaning::run(e, l.forward_graph, m),
                l.out_buffer,
                trainer_norm(cfg, rows, m[x], m[weight]),
            )
        }),
{
    lemma_norm_extends(c, cfg.dim, rows);
    trainer_laws::norm_layer_normalizes(c, e, cfg.dim, rows, weight, x, dy, dx, m, m);
}

/// The twelve parts of a block's forward pass, and what is in memory between them.
pub(crate) proof fn lemma_twelve(
    e: Seq<Init>,
    b: transformer::TransformerBlockView,
    mem: Memory,
) -> (r: Seq<Memory>)
    ensures
        r.len() == 13,
        r[0] == mem,
        r[1] == meaning::run(e, b.norm_1.forward_graph, r[0]),
        r[2] == meaning::run(e, b.qkv_proj.forward_graph, r[1]),
        r[3] == meaning::run(e, b.qkv_split_forward, r[2]),
        r[4] == meaning::run(e, b.rope_forward, r[3]),
        r[5] == meaning::run(e, b.attention.forward_graph, r[4]),
        r[6] == meaning::run(e, b.out_proj.forward_graph, r[5]),
        r[7] == meaning::run(e, b.add_1.forward_graph, r[6]),
        r[8] == meaning::run(e, b.norm_2.forward_graph, r[7]),
        r[9] == meaning::run(e, b.ffn_up.forward_graph, r[8]),
        r[10] == meaning::run(e, b.silu.forward_graph, r[9]),
        r[11] == meaning::run(e, b.ffn_down.forward_graph, r[10]),
        r[12] == meaning::run(e, b.add_2.forward_graph, r[11]),
        r[12] == meaning::run(e, transformer::block_forward(b), mem),
{
    let m1 = meaning::run(e, b.norm_1.forward_graph, mem);
    let m2 = meaning::run(e, b.qkv_proj.forward_graph, m1);
    let m3 = meaning::run(e, b.qkv_split_forward, m2);
    let m4 = meaning::run(e, b.rope_forward, m3);
    let m5 = meaning::run(e, b.attention.forward_graph, m4);
    let m6 = meaning::run(e, b.out_proj.forward_graph, m5);
    let m7 = meaning::run(e, b.add_1.forward_graph, m6);
    let m8 = meaning::run(e, b.norm_2.forward_graph, m7);
    let m9 = meaning::run(e, b.ffn_up.forward_graph, m8);
    let m10 = meaning::run(e, b.silu.forward_graph, m9);
    let m11 = meaning::run(e, b.ffn_down.forward_graph, m10);
    let m12 = meaning::run(e, b.add_2.forward_graph, m11);
    let g1 = b.norm_1.forward_graph;
    let g2 = g1 + b.qkv_proj.forward_graph;
    let g3 = g2 + b.qkv_split_forward;
    let g4 = g3 + b.rope_forward;
    let g5 = g4 + b.attention.forward_graph;
    let g6 = g5 + b.out_proj.forward_graph;
    let g7 = g6 + b.add_1.forward_graph;
    let g8 = g7 + b.norm_2.forward_graph;
    let g9 = g8 + b.ffn_up.forward_graph;
    let g10 = g9 + b.silu.forward_graph;
    let g11 = g10 + b.ffn_down.forward_graph;
    meaning::run_is_sequential(e, g1, b.qkv_proj.forward_graph, mem);
    meaning::run_is_sequential(e, g2, b.qkv_split_forward, mem);
    meaning::run_is_sequential(e, g3, b.rope_forward, mem);
    meaning::run_is_sequential(e, g4, b.attention.forward_graph, mem);
    meaning::run_is_sequential(e, g5, b.out_proj.forward_graph, mem);
    meaning::run_is_sequential(e, g6, b.add_1.forward_graph, mem);
    meaning::run_is_sequential(e, g7, b.norm_2.forward_graph, mem);
    meaning::run_is_sequential(e, g8, b.ffn_up.forward_graph, mem);
    meaning::run_is_sequential(e, g9, b.silu.forward_graph, mem);
    meaning::run_is_sequential(e, g10, b.ffn_down.forward_graph, mem);
    meaning::run_is_sequential(e, g11, b.add_2.forward_graph, mem);
    seq![mem, m1, m2, m3, m4, m5, m6, m7, m8, m9, m10, m11, m12]
}

/// What the attention of a batched block gives: each sequence attends within itself,
/// queries and keys turned by their positions.
pub open spec fn trainer_attended(
    cfg: ModelConfig,
    bw: BlockWeights,
    mem: Memory,
    x: Term,
    into: Term,
) -> Term {
    let rows = (cfg.batch_size * cfg.seq_len) as u32;
    let n = cfg.batch_size as nat;
    trainer_laws::attended(
        cfg.seq_len,
        cfg.dim,
        (cfg.dim as int / cfg.num_heads as int) as u32,
        into,
        turned(cfg, trainer_role(cfg, rows, bw, mem, x, 0), n),
        turned(cfg, trainer_role(cfg, rows, bw, mem, x, 1), n),
        trainer_role(cfg, rows, bw, mem, x, 2),
        n,
    )
}

proof fn lemma_front(
    c: Seq<Init>,
    e: Seq<Init>,
    cfg: ModelConfig,
    bw: BlockWeights,
    input: Tensor,
    dy: Tensor,
    dx: Tensor,
    m0: Memory,
    m1: Memory,
    m2: Memory,
    m3: Memory,
)
    requires
        transformer::block_fits(cfg),
        stages(c, cfg).end.is_prefix_of(e),
        e.len() <= usize::MAX,
        weights_before(bw, input, c.len()),
        ({
            let b = transformer::block_build(c, cfg, bw, input, dy, dx).1;
            &&& m1 == meaning::run(e, b.norm_1.forward_graph, m0)
            &&& m2 == meaning::run(e, b.qkv_proj.forward_graph, m1)
            &&& m3 == meaning::run(e, b.qkv_split_forward, m2)
        }),
    ensures
        ({
            let z = bufs_of(input, transformer::block_build(c, cfg, bw, input, dy, dx).1);
            let rows = transformer::batch_rows(cfg);
            &&& m3[z.q] == trainer_role(cfg, rows, bw, m0, m0[input], 0)
            &&& m3[z.k] == trainer_role(cfg, rows, bw, m0, m0[input], 1)
            &&& m3[z.v] == trainer_role(cfg, rows, bw, m0, m0[input], 2)
            &&& forall|t: Tensor| t.id < stages(c, cfg).a.len() ==> #[trigger] m3[t] == m0[t]
            &&& m3[z.att] == m0[z.att]
        }),
{
    let b = transformer::block_build(c, cfg, bw, input, dy, dx).1;
    let s = stages(c, cfg);
    let rows = transformer::batch_rows(cfg);
    let (dim, d) = (cfg.dim, rows * cfg.dim);
    let z = bufs_of(input, b);
    lemma_parts(c, cfg, bw, input, dy, dx);
    lemma_stages(c, cfg);
    lemma_stages_extend(c, cfg);
    transformer::lemma_block_sizes(cfg);
    lemma_prefix_trans(s.qkv, s.end, e);
    lemma_prefix_trans(s.split, s.end, e);
    lemma_prefix_trans(s.turn, s.end, e);
    lemma_bufs_in_order(c, cfg, bw, input, dy, dx);
    let g12 = transformer::grad_buf(c, 12, d);
    let g13 = transformer::grad_buf(c, 13, d);
    let g11 = transformer::grad_buf(c, 11, 3 * d);
    assert(g12.id == c.len() + 12 && g13.id == c.len() + 13 && g11.id == c.len() + 11);
    lemma_norm_step(s.a, e, cfg, rows, bw.norm_1, input, g12, g13, m0);
    lemma_linear_step(
        s.qkv,
        e,
        dim,
        (dim * 3) as u32,
        rows,
        bw.qkv_proj,
        z.norm_1,
        g11,
        g12,
        m1,
    );
    let node = b.qkv_split_forward[0];
    assert(b.qkv_split_forward =~= seq![node]);
    meaning::lemma_run_one(e, node, m2);
    let shape = HeadMoveMeta::spec_qkv_slice(rows, dim, 0);
    assert(s.turn[s.split.len() as int + 3] == Init::Meta(shape.spec_meta()));
    trainer_laws::lemma_prefix_at(s.turn, e, s.split.len() as int + 3);
    assert(meaning::slice(shape, 0) == part(cfg, rows as int, 0));
    assert(meaning::slice(shape, 1) == part(cfg, rows as int, 1));
    assert(meaning::slice(shape, 2) == part(cfg, rows as int, 2));
    lemma_front_values(cfg, rows, bw, z, s.a.len(), m0, m1, m2, m3);
}

#[verifier::rlimit(30)]
pub(crate) proof fn lemma_rear(
    c: Seq<Init>,
    e: Seq<Init>,
    cfg: ModelConfig,
    bw: BlockWeights,
    input: Tensor,
    dy: Tensor,
    dx: Tensor,
    r: Seq<Memory>,
)
    requires
        transformer::block_fits(cfg),
        stages(c, cfg).end.is_prefix_of(e),
        e.len() <= usize::MAX,
        weights_before(bw, input, c.len()),
        r.len() == 13,
        dx.id < c.len(),
        ({
            let b = transformer::block_build(c, cfg, bw, input, dy, dx).1;
            &&& r[6] == meaning::run(e, b.out_proj.forward_graph, r[5])
            &&& r[7] == meaning::run(e, b.add_1.forward_graph, r[6])
            &&& r[8] == meaning::run(e, b.norm_2.forward_graph, r[7])
            &&& r[9] == meaning::run(e, b.ffn_up.forward_graph, r[8])
            &&& r[10] == meaning::run(e, b.silu.forward_graph, r[9])
            &&& r[11] == meaning::run(e, b.ffn_down.forward_graph, r[10])
            &&& r[12] == meaning::run(e, b.add_2.forward_graph, r[11])
        }),
    ensures
        ({
            let z = bufs_of(input, transformer::block_build(c, cfg, bw, input, dy, dx).1);
            let rows = transformer::batch_rows(cfg);
            let n = stages(c, cfg).a.len();
            &&& r[12][input] == trainer_stream(cfg, rows, bw, r[5], r[5][input], r[5][z.att])
            &&& forall|t: Tensor| t.id < n && t != input ==> #[trigger] r[12][t] == r[5][t]
            &&& forall|t: Tensor| n <= t.id < z.proj.id ==> #[trigger] r[12][t] == r[5][t]
        }),
{
    let b = transformer::block_build(c, cfg, bw, input, dy, dx).1;
    let s = stages(c, cfg);
    let rows = transformer::batch_rows(cfg);
    let (dim, hidden) = (cfg.dim, cfg.ffn_hidden);
    let (d, h) = (rows * dim, rows * hidden);
    let z = bufs_of(input, b);
    lemma_parts(c, cfg, bw, input, dy, dx);
    lemma_stages(c, cfg);
    lemma_stages_extend(c, cfg);
    transformer::lemma_block_sizes(cfg);
    lemma_prefix_trans(s.norm_2, s.end, e);
    lemma_prefix_trans(s.up, s.end, e);
    lemma_prefix_trans(s.down, s.end, e);
    lemma_prefix_trans(s.back, s.end, e);
    lemma_bufs_in_order(c, cfg, bw, input, dy, dx);
    let g = |i: int, n: int| transformer::grad_buf(c, i, n);
    assert(g(0, d).id == c.len() && g(1, d).id == c.len() + 1 && g(2, h).id == c.len() + 2);
    assert(g(3, h).id == c.len() + 3 && g(4, d).id == c.len() + 4 && g(5, d).id == c.len() + 5);
    assert(g(6, d).id == c.len() + 6 && g(7, d).id == c.len() + 7);
    lemma_linear_step(s.proj, e, dim, dim, rows, bw.out_proj, z.att, g(6, d), g(7, d), r[5]);
    lemma_add_step(e, d as u32, input, z.proj, g(0, d), dx, g(6, d), r[6]);
    lemma_norm_step(s.norm_2, e, cfg, rows, bw.norm_2, input, g(4, d), g(5, d), r[7]);
    lemma_linear_step(s.up, e, dim, hidden, rows, bw.ffn_up, z.norm_2, g(3, h), g(4, d), r[8]);
    trainer_laws::silu_layer_activates(e, h as u32, z.up, g(2, h), g(3, h), r[9], r[9]);
    lemma_linear_step(s.down, e, hidden, dim, rows, bw.ffn_down, z.up, g(1, d), g(2, h), r[10]);
    lemma_add_step(e, d as u32, input, z.down, dy, g(0, d), g(1, d), r[11]);
    lemma_rear_values(
        cfg,
        rows,
        bw,
        z,
        s.a.len(),
        r[5],
        r[6],
        r[7],
        r[8],
        r[9],
        r[10],
        r[11],
        r[12],
    );
}

pub(crate) proof fn lemma_add_step(
    e: Seq<Init>,
    length: u32,
    a: Tensor,
    b: Tensor,
    dy: Tensor,
    da: Tensor,
    db: Tensor,
    m: Memory,
)
    ensures
        became(
            m,
            meaning::run(e, layers::add_view(length, a, b, dy, da, db).forward_graph, m),
            a,
            meaning::sum(m[a], m[b]),
        ),
{
    let l = layers::add_view(length, a, b, dy, da, db);
    assert(l.forward_graph =~= seq![l.forward_graph[0]]);
    meaning::lemma_run_one(e, l.forward_graph[0], m);
}

/// A block of the batched trainer leaves in its stream, the input buffer, the input
/// plus the projected attention of its norm, plus the feed-forward layers of the norm
/// of that sum. Nothing else that was there before changes.
pub proof fn trainer_block_is_a_block(
    c: Seq<Init>,
    e: Seq<Init>,
    cfg: ModelConfig,
    bw: BlockWeights,
    input: Tensor,
    dy: Tensor,
    dx: Tensor,
    mem: Memory,
)
    requires
        transformer::block_fits(cfg),
        transformer::block_build(c, cfg, bw, input, dy, dx).0.is_prefix_of(e),
        e.len() <= usize::MAX,
        weights_before(bw, input, c.len()),
        dx.id < c.len(),
    ensures
        ({
            let b = transformer::block_build(c, cfg, bw, input, dy, dx).1;
            let after = meaning::run(e, transformer::block_forward(b), mem);
            let rows = (cfg.batch_size * cfg.seq_len) as u32;
            &&& b.add_2.in_out_buffer == input
            &&& after[input] == trainer_stream(
                cfg,
                rows,
                bw,
                mem,
                mem[input],
                trainer_attended(cfg, bw, mem, mem[input], mem[b.attention.out_buffer]),
            )
            &&& forall|t: Tensor| t.id < c.len() && t != input ==> #[trigger] after[t] == mem[t]
        }),
{
    let b = transformer::block_build(c, cfg, bw, input, dy, dx).1;
    let s = stages(c, cfg);
    let z = bufs_of(input, b);
    lemma_parts(c, cfg, bw, input, dy, dx);
    lemma_stages(c, cfg);
    let r = lemma_twelve(e, b, mem);
    lemma_front(c, e, cfg, bw, input, dy, dx, r[0], r[1], r[2], r[3]);
    lemma_attends(c, e, cfg, bw, input, dy, dx, r[3], r[4], r[5]);
    lemma_rear(c, e, cfg, bw, input, dy, dx, r);
    lemma_bufs_in_order(c, cfg, bw, input, dy, dx);
}

pub(crate) proof fn lemma_attends(
    c: Seq<Init>,
    e: Seq<Init>,
    cfg: ModelConfig,
    bw: BlockWeights,
    input: Tensor,
    dy: Tensor,
    dx: Tensor,
    m3: Memory,
    m4: Memory,
    m5: Memory,
)
    requires
        transformer::block_fits(cfg),
        stages(c, cfg).end.is_prefix_of(e),
        e.len() <= usize::MAX,
        ({
            let b = transformer::block_build(c, cfg, bw, input, dy, dx).1;
            &&& m4 == meaning::run(e, b.rope_forward, m3)
            &&& m5 == meaning::run(e, b.attention.forward_graph, m4)
        }),
    ensures
        ({
            let z = bufs_of(input, transformer::block_build(c, cfg, bw, input, dy, dx).1);
            let n = cfg.batch_size as nat;
            &&& m5[z.att] == trainer_laws::attended(
                cfg.seq_len,
                cfg.dim,
                (cfg.dim as int / cfg.num_heads as int) as u32,
                m3[z.att],
                turned(cfg, m3[z.q], n),
                turned(cfg, m3[z.k], n),
                m3[z.v],
                n,
            )
            &&& forall|t: Tensor| t.id < stages(c, cfg).a.len() ==> #[trigger] m5[t] == m3[t]
            &&& m5[z.q] == turned(cfg, m3[z.q], n) && m5[z.k] == turned(cfg, m3[z.k], n)
            &&& forall|i: int|
                0 <= i < n ==> m5[(#[trigger] layers::attn_saved(
                    device::push_zeros(
                        stages(c, cfg).att,
                        cfg.batch_size * cfg.seq_len * cfg.dim,
                    ),
                    z.att,
                    cfg.seq_len,
                    cfg.dim,
                    cfg.num_heads,
                    i,
                )).l_cache] == meaning::normalizers(
                    trainer_laws::within(
                        cfg.seq_len,
                        cfg.dim,
                        (cfg.dim as int / cfg.num_heads as int) as u32,
                        i,
                    ),
                    m5[z.q],
                    m5[z.k],
                )
        }),
{
    let b = transformer::block_build(c, cfg, bw, input, dy, dx).1;
    let s = stages(c, cfg);
    let z = bufs_of(input, b);
    let n = cfg.batch_size as nat;
    lemma_parts(c, cfg, bw, input, dy, dx);
    lemma_stages(c, cfg);
    lemma_stages_extend(c, cfg);
    lemma_prefix_trans(s.att, s.end, e);
    lemma_prefix_trans(s.proj, s.end, e);
    lemma_bufs_in_order(c, cfg, bw, input, dy, dx);
    lemma_turns_forward(e, s.turn, cfg, z.q, z.k, m3, n, n);
    let c1 = device::push_zeros(s.att, cfg.batch_size * cfg.seq_len * cfg.dim);
    lemma_attention_extends(s.att, cfg.seq_len, cfg.dim, cfg.num_heads, cfg.batch_size);
    lemma_prefix_trans(
        layers::attn_fwd_ctx(c1, cfg.seq_len, cfg.dim, cfg.num_heads, n),
        s.proj,
        e,
    );
    trainer_laws::lemma_flash_forward(
        e,
        c1,
        cfg.seq_len,
        cfg.dim,
        cfg.num_heads,
        z.q,
        z.k,
        z.v,
        z.att,
        m4,
        n,
        n,
    );
}

} // verus!
