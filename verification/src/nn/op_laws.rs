//! What the taped ops compute, forward and backward: each forward pass leaves a
//! formula of its inputs in its outputs, and each backward pass hands back the
//! derivative of that formula.
use super::cached::{
    CacheWriteOp, CachedAttentionOp, DecodeOp, DecodeOpView, HeadGatherOp, RopeOffsetOp,
};
use super::dataflow;
use super::full_seq::{
    AddOp, AttentionOpView, EmbeddingOp, LinearOp, QkvSplitOp, RmsNormOp, RopeQkOp, SiluOp,
};
use super::kernels::emit;
use super::kernels::meta::{FlashAttnMeta, HeadMoveMeta, KernelMeta, MatMulMeta, NormMeta};
use super::loss::CrossEntropyOp;
use super::meaning::{self, Memory, Term, Turn};
use super::tape::Advance;
use crate::device::{self, Init, Kernel, NodeView, Scalar, Tensor};
use vstd::prelude::*;

verus! {

// ---- frames ----

/// A dispatch leaves every buffer as it is that its kernel's layout does not mark as
/// changed.
pub proof fn dispatches_change_what_they_say(c: Seq<Init>, n: NodeView, mem: Memory, t: Tensor)
    requires
        n.fits(),
        !dataflow::changes(n, t),
    ensures
        meaning::exec(c, n, mem)[t] == mem[t],
{
    let b = n.buffers;
    assert forall|k: int| 0 <= k < b.len() && dataflow::changes_slot(n.kernel, k) implies b[k]
        != t by {
        assert(b[k] == b[k]);
    }
    match n.kernel {
        Kernel::ResidualAdd | Kernel::BwdAddInplace | Kernel::ZeroTensor | Kernel::Rope
        | Kernel::RopeBwd | Kernel::RopeOffset | Kernel::SoftmaxRect | Kernel::CausalSoftmax
        | Kernel::Silu | Kernel::GradScale | Kernel::CrossEntropyBwd => {
            assert(dataflow::changes_slot(n.kernel, 0));
        },
        Kernel::RopeQk | Kernel::RopeBwdQk => {
            assert(dataflow::changes_slot(n.kernel, 0));
            assert(dataflow::changes_slot(n.kernel, 1));
        },
        Kernel::HeadGather | Kernel::HeadScatter | Kernel::GradSumSq | Kernel::GradNormScale
        | Kernel::CacheWrite | Kernel::SiluOut => {
            assert(dataflow::changes_slot(n.kernel, 1));
        },
        Kernel::QkvSplit => {
            assert(dataflow::changes_slot(n.kernel, 1));
            assert(dataflow::changes_slot(n.kernel, 2));
            assert(dataflow::changes_slot(n.kernel, 3));
        },
        Kernel::RmsNormBwd | Kernel::FlashAttention => {
            assert(dataflow::changes_slot(n.kernel, 3));
            assert(dataflow::changes_slot(n.kernel, 4));
        },
        Kernel::RmsNormWeightBwd | Kernel::QkvScatter | Kernel::CrossEntropyProbsBwd => {
            assert(dataflow::changes_slot(n.kernel, 3));
        },
        Kernel::FlashAttentionBwdDq | Kernel::FlashAttentionBwdDqFromOut => {
            assert(dataflow::changes_slot(n.kernel, 6));
        },
        Kernel::FlashAttentionBwdDkDv | Kernel::FlashAttentionBwdDkDvFromOut => {
            assert(dataflow::changes_slot(n.kernel, 6));
            assert(dataflow::changes_slot(n.kernel, 7));
        },
        Kernel::CrossEntropy => {
            assert(dataflow::changes_slot(n.kernel, 0));
            assert(dataflow::changes_slot(n.kernel, 2));
        },
        Kernel::CrossEntropyProbs => {
            assert(dataflow::changes_slot(n.kernel, 2));
            assert(dataflow::changes_slot(n.kernel, 3));
        },
        _ => {
            assert(dataflow::changes_slot(n.kernel, 2));
        },
    }
}

// ---- linear ----

/// A linear op multiplies its input by its weight and keeps the input for the
/// backward pass.
pub proof fn linear_multiplies(op: LinearOp, c: Seq<Init>, x: Tensor, mem: Memory)
    requires
        meaning::holds(c, op.meta, op.shape.spec_meta()),
    ensures
        ({
            let f = op.fwd(c, seq![x]);
            let y = meaning::run(f.ctx, f.nodes, mem)[f.outs[0]];
            &&& y == meaning::product(
                op.shape.m as int,
                op.shape.k as int,
                op.shape.n as int,
                mem[x],
                mem[op.weight],
            )
            &&& f.next.saved_input == Some(x)
        }),
{
    let f = op.fwd(c, seq![x]);
    meaning::lemma_run_one(f.ctx, f.nodes[0], mem);
    assert(f.nodes =~= seq![f.nodes[0]]);
}

/// The backward pass of a linear op hands back the derivative of what its forward
/// pass computed: the input gets the gradient times the transposed weight, and the
/// weight's gradient grows by the transposed input times the gradient. `mem` is what
/// the forward pass found, `later` what the backward pass finds.
pub proof fn linear_backward_is_the_derivative(
    op: LinearOp,
    c: Seq<Init>,
    x: Tensor,
    mem: Memory,
    d: Seq<Init>,
    dy: Tensor,
    later: Memory,
)
    requires
        meaning::holds(c, op.meta, op.shape.spec_meta()),
        d.len() + 2 <= usize::MAX,
        later[x] == mem[x],
        later[op.weight] == mem[op.weight],
        op.grad_weight != dy,
        op.grad_weight != op.weight,
        op.grad_weight != op.grad_in,
    ensures
        ({
            let f = op.fwd(c, seq![x]);
            let y = meaning::run(f.ctx, f.nodes, mem)[f.outs[0]];
            let b = f.next.bwd(d, seq![dy]);
            let after = meaning::run(b.ctx, b.nodes, later);
            &&& b.grads.len() == 1
            &&& after[b.grads[0]] == meaning::back(y, 0, later[dy])
            &&& after[op.grad_weight] == meaning::sum(
                later[op.grad_weight],
                meaning::back(y, 1, later[dy]),
            )
        }),
{
    linear_multiplies(op, c, x, mem);
    let f = op.fwd(c, seq![x]);
    let b = f.next.bwd(d, seq![dy]);
    meaning::lemma_run_two(b.ctx, b.nodes[0], b.nodes[1], later);
    assert(b.nodes =~= seq![b.nodes[0], b.nodes[1]]);
    let trp = MatMulMeta { m: op.shape.m, n: op.shape.k, k: op.shape.n };
    assert(b.ctx[d.len() as int] == Init::Meta(op.shape.spec_meta()));
    assert(b.ctx[d.len() as int + 1] == Init::Meta(trp.spec_meta()));
}

// ---- norm ----

/// A norm op scales the rows of its input and multiplies them by its gain.
pub proof fn norm_normalizes(op: RmsNormOp, c: Seq<Init>, x: Tensor, mem: Memory)
    requires
        meaning::holds(c, op.meta, op.shape.spec_meta()),
    ensures
        ({
            let f = op.fwd(c, seq![x]);
            let y = meaning::run(f.ctx, f.nodes, mem)[f.outs[0]];
            &&& y == meaning::norm(op.shape, mem[x], mem[op.weight])
            &&& f.next.saved_input == Some(x)
        }),
{
    let f = op.fwd(c, seq![x]);
    meaning::lemma_run_one(f.ctx, f.nodes[0], mem);
    assert(f.nodes =~= seq![f.nodes[0]]);
}

/// The backward pass of a norm op hands back the derivative of what its forward pass
/// computed, to the input and into the gain's gradient.
pub proof fn norm_backward_is_the_derivative(
    op: RmsNormOp,
    c: Seq<Init>,
    x: Tensor,
    mem: Memory,
    d: Seq<Init>,
    dy: Tensor,
    later: Memory,
)
    requires
        meaning::holds(c, op.meta, op.shape.spec_meta()),
        d.len() + 1 <= usize::MAX,
        later[x] == mem[x],
        later[op.weight] == mem[op.weight],
        op.grad_in != dy && op.grad_in != x && op.grad_in != op.grad_weight,
        op.rsqrt_cache != dy && op.rsqrt_cache != x && op.rsqrt_cache != op.grad_weight,
        op.rsqrt_cache != op.grad_in,
    ensures
        ({
            let f = op.fwd(c, seq![x]);
            let y = meaning::run(f.ctx, f.nodes, mem)[f.outs[0]];
            let b = f.next.bwd(d, seq![dy]);
            let after = meaning::run(b.ctx, b.nodes, later);
            &&& b.grads.len() == 1
            &&& after[b.grads[0]] == meaning::back(y, 0, later[dy])
            &&& after[op.grad_weight] == meaning::sum(
                later[op.grad_weight],
                meaning::back(y, 1, later[dy]),
            )
        }),
{
    norm_normalizes(op, c, x, mem);
    let f = op.fwd(c, seq![x]);
    let b = f.next.bwd(d, seq![dy]);
    meaning::lemma_run_two(b.ctx, b.nodes[0], b.nodes[1], later);
    assert(b.nodes =~= seq![b.nodes[0], b.nodes[1]]);
    assert(b.ctx[d.len() as int] == Init::Meta(op.shape.spec_meta()));
}

// ---- embedding ----

/// An embedding op looks its tokens up in its table, and its backward pass sums what
/// reaches each row into the gradient of the row's token.
pub proof fn embedding_looks_up(
    op: EmbeddingOp,
    c: Seq<Init>,
    mem: Memory,
    d: Seq<Init>,
    dy: Tensor,
    later: Memory,
)
    requires
        c.len() < usize::MAX,
        d.len() < usize::MAX,
        later[op.tokens] == mem[op.tokens],
    ensures
        ({
            let f = op.fwd(c, Seq::empty());
            let y = meaning::run(f.ctx, f.nodes, mem)[f.outs[0]];
            let b = f.next.bwd(d, seq![dy]);
            let after = meaning::run(b.ctx, b.nodes, later);
            &&& y == meaning::lookup(op.shape, mem[op.tokens], mem[op.table])
            &&& after[op.grad_table] == meaning::sum(
                later[op.grad_table],
                meaning::back(y, 1, later[dy]),
            )
        }),
{
    let f = op.fwd(c, Seq::empty());
    meaning::lemma_run_one(f.ctx, f.nodes[0], mem);
    assert(f.nodes =~= seq![f.nodes[0]]);
    let b = f.next.bwd(d, seq![dy]);
    meaning::lemma_run_one(b.ctx, b.nodes[0], later);
    assert(b.nodes =~= seq![b.nodes[0]]);
}

// ---- activation and addition ----

/// The activation op applies the activation, and its backward pass hands back the
/// derivative.
pub proof fn silu_activates(
    op: SiluOp,
    c: Seq<Init>,
    x: Tensor,
    mem: Memory,
    d: Seq<Init>,
    dy: Tensor,
    later: Memory,
)
    requires
        later[x] == mem[x],
    ensures
        ({
            let f = op.fwd(c, seq![x]);
            let y = meaning::run(f.ctx, f.nodes, mem)[f.outs[0]];
            let b = f.next.bwd(d, seq![dy]);
            let after = meaning::run(b.ctx, b.nodes, later);
            &&& y == meaning::silu(mem[x])
            &&& f.next.saved_input == Some(x)
            &&& b.grads.len() == 1
            &&& after[b.grads[0]] == meaning::back(y, 0, later[dy])
        }),
{
    let f = op.fwd(c, seq![x]);
    meaning::lemma_run_one(f.ctx, f.nodes[0], mem);
    assert(f.nodes =~= seq![f.nodes[0]]);
    let b = f.next.bwd(d, seq![dy]);
    meaning::lemma_run_one(b.ctx, b.nodes[0], later);
    assert(b.nodes =~= seq![b.nodes[0]]);
}

/// The addition op adds, and hands what reaches its result back to both inputs.
pub proof fn add_adds(
    op: AddOp,
    c: Seq<Init>,
    x: Tensor,
    z: Tensor,
    mem: Memory,
    d: Seq<Init>,
    dy: Tensor,
    later: Memory,
)
    ensures
        ({
            let f = op.fwd(c, seq![x, z]);
            let y = meaning::run(f.ctx, f.nodes, mem)[f.outs[0]];
            let b = f.next.bwd(d, seq![dy]);
            let after = meaning::run(b.ctx, b.nodes, later);
            &&& y == meaning::sum(mem[x], mem[z])
            &&& b.grads.len() == 2
            &&& after[b.grads[0]] == meaning::back(y, 0, later[dy])
            &&& after[b.grads[1]] == meaning::back(y, 1, later[dy])
        }),
{
    let f = op.fwd(c, seq![x, z]);
    meaning::lemma_run_one(f.ctx, f.nodes[0], mem);
    assert(f.nodes =~= seq![f.nodes[0]]);
}

// ---- split ----

/// The split op cuts a matrix of three equal parts into queries, keys and values, in
/// that order, and its backward pass joins what reaches them in the same order.
pub proof fn split_cuts_and_joins(
    op: QkvSplitOp,
    c: Seq<Init>,
    rows: u32,
    dim: u32,
    x: Tensor,
    mem: Memory,
    d: Seq<Init>,
    dq: Tensor,
    dk: Tensor,
    dv: Tensor,
    later: Memory,
)
    requires
        op == QkvSplitOp::build(c, rows, dim).1,
        c.len() + 4 <= usize::MAX,
        d.len() < usize::MAX,
        3 * dim <= u32::MAX,
    ensures
        ({
            let e = QkvSplitOp::build(c, rows, dim).0;
            let f = op.fwd(e, seq![x]);
            let after = meaning::run(f.ctx, f.nodes, mem);
            let b = f.next.bwd(d, seq![dq, dk, dv]);
            let last = meaning::run(b.ctx, b.nodes, later);
            let part = |i: int|
                HeadMoveMeta {
                    seq_len: rows,
                    full_dim: (3 * dim) as u32,
                    head_dim: dim,
                    head_offset: (i * dim) as u32,
                };
            &&& f.outs.len() == 3
            &&& forall|i: int|
                0 <= i < 3 ==> after[#[trigger] f.outs[i]] == meaning::columns(part(i), mem[x])
            &&& b.grads.len() == 1
            &&& last[b.grads[0]] == meaning::joined(part(0), later[dq], later[dk], later[dv])
        }),
{
    let e = QkvSplitOp::build(c, rows, dim).0;
    let f = op.fwd(e, seq![x]);
    assert(e.len() == c.len() + 4);
    assert(f.ctx[e.len() as int] == Init::Meta(op.shape.spec_meta()));
    meaning::lemma_run_one(f.ctx, f.nodes[0], mem);
    assert(f.nodes =~= seq![f.nodes[0]]);
    assert(op.q.id == c.len() && op.k.id == c.len() + 1 && op.v.id == c.len() + 2);
    let b = f.next.bwd(d, seq![dq, dk, dv]);
    meaning::lemma_run_one(b.ctx, b.nodes[0], later);
    assert(b.nodes =~= seq![b.nodes[0]]);
    assert(b.ctx[d.len() as int] == Init::Meta(op.shape.spec_meta()));
    assert(meaning::slice(op.shape, 0).head_offset == 0);
    assert(meaning::slice(op.shape, 1).head_offset == dim);
    assert(meaning::slice(op.shape, 2).head_offset == 2 * dim);
}

// ---- rotation ----

/// The rows of sequence `b`, at positions from 0 on.
pub open spec fn turn_at(op: RopeQkOp, b: int) -> Turn {
    Turn {
        first: b * op.shape.seq_len,
        rows: op.shape.seq_len as int,
        dim: op.shape.dim as int,
        head_dim: op.shape.head_dim as int,
        pos: 0,
    }
}

/// The first `n` sequences of `x`, rotated each by itself.
pub open spec fn rotated_each(op: RopeQkOp, x: Term, n: nat) -> Term
    decreases n,
{
    if n == 0 {
        x
    } else {
        meaning::rotated(turn_at(op, n - 1), rotated_each(op, x, (n - 1) as nat))
    }
}

/// The first `n` sequences of `x`, rotated back each by itself.
pub open spec fn unrotated_each(op: RopeQkOp, x: Term, n: nat) -> Term
    decreases n,
{
    if n == 0 {
        x
    } else {
        meaning::unrotated(turn_at(op, n - 1), unrotated_each(op, x, (n - 1) as nat))
    }
}

proof fn lemma_rope_ctx(op: RopeQkOp, c: Seq<Init>, n: nat, m: nat)
    requires
        n < m,
    ensures
        op.batch_ctx(c, n).len() == c.len() + n,
        op.batch_ctx(c, m).len() == c.len() + m,
        op.batch_ctx(c, m)[c.len() + n as int] == Init::Meta(op.spec_shape_for(n as int).spec_meta()),
    decreases m,
{
    if n + 1 < m {
        lemma_rope_ctx(op, c, n, (m - 1) as nat);
    } else {
        lemma_rope_len(op, c, n);
    }
}

proof fn lemma_rope_len(op: RopeQkOp, c: Seq<Init>, n: nat)
    ensures
        op.batch_ctx(c, n).len() == c.len() + n,
    decreases n,
{
    if n > 0 {
        lemma_rope_len(op, c, (n - 1) as nat);
    }
}

proof fn lemma_rope_forward(
    op: RopeQkOp,
    c: Seq<Init>,
    q: Tensor,
    k: Tensor,
    mem: Memory,
    n: nat,
    all: nat,
)
    requires
        n <= all,
        all * op.shape.seq_len <= u32::MAX,
        c.len() + all <= usize::MAX,
        q != k,
    ensures
        ({
            let after = meaning::run(op.batch_ctx(c, all), op.batch_nodes(c, q, k, n), mem);
            &&& after[q] == rotated_each(op, mem[q], n)
            &&& after[k] == rotated_each(op, mem[k], n)
            &&& forall|t: Tensor| t != q && t != k ==> #[trigger] after[t] == mem[t]
        }),
    decreases n,
{
    if n > 0 {
        let b = n - 1;
        lemma_rope_forward(op, c, q, k, mem, b as nat, all);
        lemma_rope_ctx(op, c, b as nat, all);
        lemma_rope_len(op, c, b as nat);
        let g = op.batch_nodes(c, q, k, b as nat);
        let node = op.batch_nodes(c, q, k, n).last();
        meaning::lemma_run_push(op.batch_ctx(c, all), g, node, mem);
        assert(op.batch_nodes(c, q, k, n) =~= g.push(node));
        assert(0 <= b * op.shape.seq_len <= all * op.shape.seq_len) by (nonlinear_arith)
            requires
                0 <= b < all,
                op.shape.seq_len >= 0,
        ;
    }
}

proof fn lemma_rope_backward(
    op: RopeQkOp,
    c: Seq<Init>,
    q: Tensor,
    k: Tensor,
    mem: Memory,
    n: nat,
    all: nat,
)
    requires
        n <= all,
        all * op.shape.seq_len <= u32::MAX,
        c.len() + all <= usize::MAX,
        q != k,
    ensures
        ({
            let after = meaning::run(op.batch_ctx(c, all), op.batch_bwd_nodes(c, q, k, n), mem);
            &&& after[q] == unrotated_each(op, mem[q], n)
            &&& after[k] == unrotated_each(op, mem[k], n)
            &&& forall|t: Tensor| t != q && t != k ==> #[trigger] after[t] == mem[t]
        }),
    decreases n,
{
    if n > 0 {
        let b = n - 1;
        lemma_rope_backward(op, c, q, k, mem, b as nat, all);
        lemma_rope_ctx(op, c, b as nat, all);
        lemma_rope_len(op, c, b as nat);
        let g = op.batch_bwd_nodes(c, q, k, b as nat);
        let node = op.batch_bwd_nodes(c, q, k, n).last();
        meaning::lemma_run_push(op.batch_ctx(c, all), g, node, mem);
        assert(op.batch_bwd_nodes(c, q, k, n) =~= g.push(node));
        assert(0 <= b * op.shape.seq_len <= all * op.shape.seq_len) by (nonlinear_arith)
            requires
                0 <= b < all,
                op.shape.seq_len >= 0,
        ;
    }
}

/// The rotation op rotates queries and keys of every sequence in place, each row by
/// its position in the sequence, and its backward pass rotates what reaches them back.
pub proof fn rope_rotates_and_rotates_back(
    op: RopeQkOp,
    c: Seq<Init>,
    q: Tensor,
    k: Tensor,
    mem: Memory,
    d: Seq<Init>,
    dq: Tensor,
    dk: Tensor,
    later: Memory,
)
    requires
        op.fits(),
        c.len() + op.batch_size <= usize::MAX,
        d.len() + op.batch_size <= usize::MAX,
        q != k,
        dq != dk,
    ensures
        ({
            let f = op.fwd(c, seq![q, k]);
            let after = meaning::run(f.ctx, f.nodes, mem);
            let b = f.next.bwd(d, seq![dq, dk]);
            let last = meaning::run(b.ctx, b.nodes, later);
            let n = op.batch_size as nat;
            &&& f.outs.len() == 2
            &&& after[f.outs[0]] == rotated_each(op, mem[q], n)
            &&& after[f.outs[1]] == rotated_each(op, mem[k], n)
            &&& forall|t: Tensor| t != q && t != k ==> #[trigger] after[t] == mem[t]
            &&& b.grads.len() == 2
            &&& last[b.grads[0]] == unrotated_each(op, later[dq], n)
            &&& last[b.grads[1]] == unrotated_each(op, later[dk], n)
            &&& forall|t: Tensor| t != dq && t != dk ==> #[trigger] last[t] == later[t]
        }),
{
    let n = op.batch_size as nat;
    lemma_rope_forward(op, c, q, k, mem, n, n);
    lemma_rope_backward(op, d, dq, dk, later, n, n);
}

// ---- attention ----

/// Causal attention within sequence `b`, scaled by the root of the head's width.
pub open spec fn sequence(op: AttentionOpView, b: int) -> FlashAttnMeta {
    FlashAttnMeta {
        seq_len: op.seq_len,
        dim: op.dim,
        head_dim: op.head_dim,
        scale: Scalar::RecipSqrt(op.head_dim),
        row_offset: (b * op.seq_len) as u32,
    }
}

/// `into` with the attention of the first `n` sequences, each within itself.
pub open spec fn attended_each(
    op: AttentionOpView,
    into: Term,
    q: Term,
    k: Term,
    v: Term,
    n: nat,
) -> Term
    decreases n,
{
    if n == 0 {
        into
    } else {
        meaning::attention(
            sequence(op, n - 1),
            attended_each(op, into, q, k, v, (n - 1) as nat),
            q,
            k,
            v,
        )
    }
}

/// `into` with what reaches queries, keys or values of the first `n` sequences, when
/// `g` reaches the attention's result `o`.
pub open spec fn attention_back_each(
    of: int,
    op: AttentionOpView,
    into: Term,
    q: Term,
    k: Term,
    v: Term,
    o: Term,
    g: Term,
    n: nat,
) -> Term
    decreases n,
{
    if n == 0 {
        into
    } else {
        let s = sequence(op, n - 1);
        meaning::attention_back(
            of,
            s,
            attention_back_each(of, op, into, q, k, v, o, g, (n - 1) as nat),
            q,
            k,
            v,
            meaning::row_dots(s, g, o),
            g,
            meaning::normalizers(s, q, k),
        )
    }
}

proof fn lemma_attn_len(op: AttentionOpView, c: Seq<Init>, n: nat)
    ensures
        op.fwd_ctx(c, n).len() == c.len() + 2 * n,
        op.bwd_ctx(c, n).len() == c.len() + 2 * n,
    decreases n,
{
    if n > 0 {
        lemma_attn_len(op, c, (n - 1) as nat);
    }
}

proof fn lemma_attn_ctx(op: AttentionOpView, c: Seq<Init>, n: nat, m: nat)
    requires
        n < m,
    ensures
        op.fwd_ctx(c, m)[c.len() as int + 2 * n + 1] == Init::Meta(op.shape_for(n as int).spec_meta()),
        op.bwd_ctx(c, m)[c.len() as int + 2 * n] == Init::Meta(op.shape_for(n as int).spec_meta()),
    decreases m,
{
    lemma_attn_len(op, c, (m - 1) as nat);
    lemma_attn_len(op, c, m);
    if n + 1 < m {
        lemma_attn_ctx(op, c, n, (m - 1) as nat);
    }
}

proof fn lemma_attn_forward(
    op: AttentionOpView,
    c: Seq<Init>,
    q: Tensor,
    k: Tensor,
    v: Tensor,
    mem: Memory,
    n: nat,
    all: nat,
)
    requires
        n <= all,
        c.len() + 2 * all <= usize::MAX,
        q.id < c.len() && k.id < c.len() && v.id < c.len() && op.out.id < c.len(),
        op.out != q && op.out != k && op.out != v,
    ensures
        ({
            let after = meaning::run(op.fwd_ctx(c, all), op.fwd_nodes(c, q, k, v, n), mem);
            &&& after[op.out] == attended_each(op, mem[op.out], mem[q], mem[k], mem[v], n)
            &&& forall|b: int|
                0 <= b < n ==> after[(#[trigger] op.fwd_saved(c, all)[b]).l_cache]
                    == meaning::normalizers(sequence(op, b), mem[q], mem[k])
            &&& forall|t: Tensor| t != op.out && t.id < c.len() ==> #[trigger] after[t] == mem[t]
        }),
    decreases n,
{
    if n > 0 {
        let b = n - 1;
        lemma_attn_forward(op, c, q, k, v, mem, b as nat, all);
        lemma_attn_ctx(op, c, b as nat, all);
        lemma_attn_len(op, c, b as nat);
        let ctx = op.fwd_ctx(c, all);
        let g = op.fwd_nodes(c, q, k, v, b as nat);
        let node = op.fwd_nodes(c, q, k, v, n).last();
        meaning::lemma_run_push(ctx, g, node, mem);
        assert(op.fwd_nodes(c, q, k, v, n) =~= g.push(node));
        let before = meaning::run(ctx, g, mem);
        let after = meaning::run(ctx, op.fwd_nodes(c, q, k, v, n), mem);
        assert(node.buffers.last().id == c.len() + 2 * b + 1);
        assert(node.buffers[4].id == c.len() + 2 * b);
        assert(op.shape_for(b) == sequence(op, b));
        assert forall|i: int| 0 <= i < n implies after[(#[trigger] op.fwd_saved(
            c,
            all,
        )[i]).l_cache] == meaning::normalizers(sequence(op, i), mem[q], mem[k]) by {
            lemma_attn_len(op, c, i as nat);
            assert(op.fwd_saved(c, all)[i].l_cache.id == c.len() + 2 * i);
        }
    }
}

proof fn lemma_attn_backward(
    op: AttentionOpView,
    q: Tensor,
    k: Tensor,
    v: Tensor,
    d: Seq<Init>,
    dy: Tensor,
    later: Memory,
    n: nat,
)
    requires
        op.saved matches Some(s) && s.0 == q && s.1 == k && s.2 == v,
        n <= (op.saved->0).3.len(),
        d.len() + 2 * (op.saved->0).3.len() <= usize::MAX,
        seq![q, k, v, op.out, dy, op.grad_q, op.grad_k, op.grad_v].no_duplicates(),
        q.id < d.len() && k.id < d.len() && v.id < d.len() && op.out.id < d.len(),
        dy.id < d.len() && op.grad_q.id < d.len() && op.grad_k.id < d.len(),
        op.grad_v.id < d.len(),
        forall|b: int|
            0 <= b < (op.saved->0).3.len() ==> {
                let s = #[trigger] (op.saved->0).3[b];
                &&& s.out == op.out
                &&& s.l_cache.id < d.len()
                &&& s.l_cache != op.grad_q && s.l_cache != op.grad_k && s.l_cache != op.grad_v
                &&& later[s.l_cache] == meaning::normalizers(sequence(op, b), later[q], later[k])
            },
    ensures
        ({
            let all = (op.saved->0).3.len();
            let after = meaning::run(op.bwd_ctx(d, all), op.bwd_nodes(d, dy, n), later);
            let grad = |of: int, into: Tensor|
                attention_back_each(
                    of,
                    op,
                    later[into],
                    later[q],
                    later[k],
                    later[v],
                    later[op.out],
                    later[dy],
                    n,
                );
            &&& after[op.grad_q] == grad(0, op.grad_q)
            &&& after[op.grad_k] == grad(1, op.grad_k)
            &&& after[op.grad_v] == grad(2, op.grad_v)
            &&& forall|t: Tensor|
                t != op.grad_q && t != op.grad_k && t != op.grad_v && t.id < d.len()
                    ==> #[trigger] after[t] == later[t]
        }),
    decreases n,
{
    if n > 0 {
        let b = n - 1;
        let all = (op.saved->0).3.len();
        lemma_attn_backward(op, q, k, v, d, dy, later, b as nat);
        lemma_attn_ctx(op, d, b as nat, all);
        lemma_attn_len(op, d, b as nat);
        let ctx = op.bwd_ctx(d, all);
        let g = op.bwd_nodes(d, dy, b as nat);
        let saved = (op.saved->0).3[b];
        let shape = op.shape_for(b);
        let three = emit::flash_bwd_nodes(
            op.bwd_ctx(d, b as nat),
            q,
            k,
            v,
            saved,
            dy,
            op.grad_q,
            op.grad_k,
            op.grad_v,
            shape,
        );
        let before = meaning::run(ctx, g, later);
        meaning::run_is_sequential(ctx, g, three, later);
        meaning::lemma_run_three(ctx, three[0], three[1], three[2], before);
        assert(three =~= seq![three[0], three[1], three[2]]);
        assert(op.bwd_nodes(d, dy, n) == g + three);
        let names = seq![q, k, v, op.out, dy, op.grad_q, op.grad_k, op.grad_v];
        assert(names[0] == q && names[1] == k && names[2] == v && names[3] == op.out);
        assert(names[4] == dy && names[5] == op.grad_q && names[6] == op.grad_k);
        assert(names[7] == op.grad_v);
        let dots = three[0].buffers[2];
        assert(dots.id == d.len() + 2 * b + 1);
        assert(three[0].buffers.last().id == d.len() + 2 * b);
        assert(three[1].buffers.last().id == d.len() + 2 * b);
        assert(three[2].buffers.last().id == d.len() + 2 * b);
        assert(shape == sequence(op, b));
    }
}

/// The attention op attends within every sequence, and its backward pass hands back
/// the derivative to queries, keys and values, in that order, from what the forward
/// pass left.
pub proof fn attention_attends(
    op: AttentionOpView,
    c: Seq<Init>,
    q: Tensor,
    k: Tensor,
    v: Tensor,
    mem: Memory,
    d: Seq<Init>,
    dy: Tensor,
    later: Memory,
)
    requires
        c.len() + 2 * op.batch_size <= d.len(),
        d.len() + 2 * op.batch_size <= usize::MAX,
        dy.id < d.len(),
        dy.id < c.len() || dy.id >= c.len() + 2 * op.batch_size,
        seq![q, k, v, op.out, dy, op.grad_q, op.grad_k, op.grad_v].no_duplicates(),
        q.id < c.len() && k.id < c.len() && v.id < c.len() && op.out.id < c.len(),
        op.grad_q.id < c.len() && op.grad_k.id < c.len() && op.grad_v.id < c.len(),
        ({
            let f = op.fwd(c, seq![q, k, v]);
            let after = meaning::run(f.ctx, f.nodes, mem);
            &&& later[q] == mem[q] && later[k] == mem[k] && later[v] == mem[v]
            &&& later[op.out] == after[op.out]
            &&& forall|b: int|
                0 <= b < op.batch_size ==> later[(#[trigger] op.fwd_saved(
                    c,
                    op.batch_size as nat,
                )[b]).l_cache] == after[op.fwd_saved(c, op.batch_size as nat)[b].l_cache]
        }),
    ensures
        ({
            let n = op.batch_size as nat;
            let f = op.fwd(c, seq![q, k, v]);
            let after = meaning::run(f.ctx, f.nodes, mem);
            let b = f.next.bwd(d, seq![dy]);
            let last = meaning::run(b.ctx, b.nodes, later);
            let o = attended_each(op, mem[op.out], mem[q], mem[k], mem[v], n);
            &&& f.outs.len() == 1
            &&& after[f.outs[0]] == o
            &&& b.grads.len() == 3
            &&& forall|i: int|
                0 <= i < 3 ==> last[#[trigger] b.grads[i]] == attention_back_each(
                    i,
                    op,
                    later[b.grads[i]],
                    mem[q],
                    mem[k],
                    mem[v],
                    o,
                    later[dy],
                    n,
                )
        }),
{
    let n = op.batch_size as nat;
    let f = op.fwd(c, seq![q, k, v]);
    let names = seq![q, k, v, op.out, dy, op.grad_q, op.grad_k, op.grad_v];
    assert(names[0] == q && names[1] == k && names[2] == v && names[3] == op.out);
    assert(names[4] == dy && names[5] == op.grad_q && names[6] == op.grad_k);
    assert(names[7] == op.grad_v);
    lemma_attn_forward(op, c, q, k, v, mem, n, n);
    assert forall|b: int| 0 <= b < n implies {
        let s = #[trigger] (f.next.saved->0).3[b];
        &&& s.out == op.out
        &&& s.l_cache.id < d.len()
        &&& s.l_cache != op.grad_q && s.l_cache != op.grad_k && s.l_cache != op.grad_v
        &&& later[s.l_cache] == meaning::normalizers(sequence(f.next, b), later[q], later[k])
    } by {
        lemma_attn_len(op, c, b as nat);
        assert(op.fwd_saved(c, n)[b].l_cache.id == c.len() + 2 * b);
        assert(sequence(f.next, b) == sequence(op, b));
    }
    lemma_attn_backward(f.next, q, k, v, d, dy, later, n);
    lemma_same_back(f.next, op, 0, later[op.grad_q], mem[q], mem[k], mem[v], later[op.out], later[dy], n);
    lemma_same_back(f.next, op, 1, later[op.grad_k], mem[q], mem[k], mem[v], later[op.out], later[dy], n);
    lemma_same_back(f.next, op, 2, later[op.grad_v], mem[q], mem[k], mem[v], later[op.out], later[dy], n);
}

/// What an op has saved does not enter its formulas.
proof fn lemma_same_back(
    a: AttentionOpView,
    b: AttentionOpView,
    of: int,
    into: Term,
    q: Term,
    k: Term,
    v: Term,
    o: Term,
    g: Term,
    n: nat,
)
    requires
        a.seq_len == b.seq_len && a.dim == b.dim && a.head_dim == b.head_dim,
    ensures
        attention_back_each(of, a, into, q, k, v, o, g, n) == attention_back_each(
            of,
            b,
            into,
            q,
            k,
            v,
            o,
            g,
            n,
        ),
    decreases n,
{
    if n > 0 {
        lemma_same_back(a, b, of, into, q, k, v, o, g, (n - 1) as nat);
    }
}

// ---- cache ----

/// The cache op writes its input's rows into its cache and hands the input on.
pub proof fn cache_op_writes_rows(op: CacheWriteOp, c: Seq<Init>, x: Tensor, mem: Memory)
    requires
        meaning::holds(c, op.meta, op.shape.spec_meta()),
    ensures
        ({
            let f = op.fwd(c, seq![x]);
            let after = meaning::run(f.ctx, f.nodes, mem);
            &&& f.outs == seq![x]
            &&& after[op.cache] == meaning::with_rows(op.shape, mem[op.cache], mem[x])
            &&& forall|t: Tensor| t != op.cache ==> #[trigger] after[t] == mem[t]
        }),
{
    let f = op.fwd(c, seq![x]);
    meaning::lemma_run_one(f.ctx, f.nodes[0], mem);
    assert(f.nodes =~= seq![f.nodes[0]]);
}

/// Attention with the cache: the query's scores come from the key cache alone, and
/// the result is the value cache, weighed by the softmax of those scores.
pub proof fn cached_attention_weighs_values(
    op: CachedAttentionOp,
    c: Seq<Init>,
    q: Tensor,
    mem: Memory,
)
    requires
        meaning::holds(c, op.attn_meta, op.attn_shape.spec_meta()),
        meaning::holds(c, op.softmax_meta, op.softmax_shape.spec_meta()),
        op.scores != op.cache_v,
    ensures
        ({
            let f = op.fwd(c, seq![q]);
            let after = meaning::run(f.ctx, f.nodes, mem);
            &&& f.outs.len() == 1
            &&& after[f.outs[0]] == meaning::weighed(
                op.attn_shape,
                meaning::softmax(
                    op.softmax_shape,
                    meaning::scores(op.attn_shape, mem[q], mem[op.cache_k]),
                ),
                mem[op.cache_v],
            )
            &&& forall|t: Tensor| t != op.out && t != op.scores ==> #[trigger] after[t] == mem[t]
        }),
{
    let f = op.fwd(c, seq![q]);
    meaning::lemma_run_three(f.ctx, f.nodes[0], f.nodes[1], f.nodes[2], mem);
    assert(f.nodes =~= seq![f.nodes[0], f.nodes[1], f.nodes[2]]);
}

/// The gather op copies the columns that its record names.
pub proof fn gather_copies_columns(op: HeadGatherOp, c: Seq<Init>, x: Tensor, mem: Memory)
    requires
        meaning::holds(c, op.meta, op.shape.spec_meta()),
    ensures
        ({
            let f = op.fwd(c, seq![x]);
            let after = meaning::run(f.ctx, f.nodes, mem);
            &&& f.outs == seq![op.dst]
            &&& after[op.dst] == meaning::columns(op.shape, mem[x])
            &&& forall|t: Tensor| t != op.dst ==> #[trigger] after[t] == mem[t]
        }),
{
    let f = op.fwd(c, seq![x]);
    meaning::lemma_run_one(f.ctx, f.nodes[0], mem);
    assert(f.nodes =~= seq![f.nodes[0]]);
}

/// The offset rotation turns its one row in place by the position in its record.
pub proof fn offset_rope_rotates(op: RopeOffsetOp, c: Seq<Init>, x: Tensor, mem: Memory)
    requires
        meaning::holds(c, op.meta, op.shape.spec_meta()),
    ensures
        ({
            let f = op.fwd(c, seq![x]);
            let after = meaning::run(f.ctx, f.nodes, mem);
            let turn = Turn {
                first: 0,
                rows: op.shape.seq_len as int,
                dim: op.shape.dim as int,
                head_dim: op.shape.head_dim as int,
                pos: op.shape.pos as int,
            };
            &&& f.outs == seq![x]
            &&& after[x] == meaning::rotated(turn, mem[x])
            &&& forall|t: Tensor| t != x ==> #[trigger] after[t] == mem[t]
        }),
{
    let f = op.fwd(c, seq![x]);
    meaning::lemma_run_one(f.ctx, f.nodes[0], mem);
    assert(f.nodes =~= seq![f.nodes[0]]);
}

// ---- loss ----

/// The loss op leaves the loss of every row and turns the logits into
/// probabilities; its backward pass turns those into what reaches the logits, scaled
/// row by row.
pub proof fn loss_compares_with_targets(
    op: CrossEntropyOp,
    c: Seq<Init>,
    logits: Tensor,
    mem: Memory,
    d: Seq<Init>,
)
    requires
        c.len() < usize::MAX,
        d.len() < usize::MAX,
        op.losses != logits,
        op.target_tokens != logits && op.target_tokens != op.losses,
        op.d_losses != logits && op.d_losses != op.losses,
    ensures
        ({
            let e = device::push_meta(c, op.shape.spec_meta());
            let after = meaning::exec(e, op.fwd_node(c, logits), mem);
            let e2 = device::push_meta(d, op.shape.spec_meta());
            let last = meaning::exec(e2, op.bwd_node(d, logits), after);
            &&& after[op.losses] == meaning::losses(op.shape, mem[logits], mem[op.target_tokens])
            &&& after[logits] == meaning::probs(op.shape, mem[logits])
            &&& last[logits] == meaning::loss_back(
                op.shape,
                meaning::probs(op.shape, mem[logits]),
                mem[op.target_tokens],
                mem[op.d_losses],
            )
        }),
{
    assert(device::push_meta(c, op.shape.spec_meta())[c.len() as int] == Init::Meta(
        op.shape.spec_meta(),
    ));
    assert(device::push_meta(d, op.shape.spec_meta())[d.len() as int] == Init::Meta(
        op.shape.spec_meta(),
    ));
}

// ---- building ----

/// A linear op that has just been built has buffers of its own, and its record holds
/// its shape, in whatever is built behind it.
pub proof fn linear_is_built_whole(c: Seq<Init>, w: Tensor, shape: MatMulMeta, decay: bool)
    requires
        c.len() + 4 <= usize::MAX,
    ensures
        ({
            let (e, op) = LinearOp::build(c, w, shape, decay);
            &&& op.weight == w && op.shape == shape && op.decay == decay
            &&& meaning::holds(e, op.meta, shape.spec_meta())
            &&& c.len() <= op.out.id < e.len()
            &&& c.len() <= op.grad_weight.id < e.len()
            &&& c.len() <= op.grad_in.id < e.len()
            &&& op.out != op.grad_weight && op.out != op.grad_in && op.grad_weight != op.grad_in
            &&& op.meta != op.out && op.meta != op.grad_weight && op.meta != op.grad_in
        }),
{
    let (e, op) = LinearOp::build(c, w, shape, decay);
    assert(e[c.len() as int + 3] == Init::Meta(shape.spec_meta()));
}

/// A norm op that has just been built has buffers of its own, and its record holds its
/// shape.
pub proof fn norm_is_built_whole(c: Seq<Init>, w: Tensor, shape: NormMeta)
    requires
        c.len() + 5 <= usize::MAX,
    ensures
        ({
            let (e, op) = RmsNormOp::build(c, w, shape);
            let own = seq![op.out, op.grad_weight, op.grad_in, op.rsqrt_cache, op.meta];
            &&& op.weight == w && op.shape == shape
            &&& meaning::holds(e, op.meta, shape.spec_meta())
            &&& own.no_duplicates()
            &&& forall|i: int| 0 <= i < 5 ==> c.len() <= (#[trigger] own[i]).id < e.len()
        }),
{
    let (e, op) = RmsNormOp::build(c, w, shape);
    assert(e[c.len() as int + 4] == Init::Meta(shape.spec_meta()));
}

/// The ops of a decode block that have just been built hold their shapes in their
/// records, with buffers of their own.
pub proof fn decode_ops_are_built_whole(
    c: Seq<Init>,
    cache_k: Tensor,
    cache_v: Tensor,
    num_heads: u32,
    dim: u32,
    head_dim: u32,
    rows: u32,
    role_offset: u32,
    max_context_len: u32,
)
    requires
        c.len() + 4 <= usize::MAX,
        cache_k.id < c.len() && cache_v.id < c.len(),
    ensures
        ({
            let (e, op) = CachedAttentionOp::build(
                c,
                cache_k,
                cache_v,
                num_heads,
                dim,
                head_dim,
                max_context_len,
            );
            &&& op.cache_k == cache_k && op.cache_v == cache_v
            &&& meaning::holds(e, op.attn_meta, op.attn_shape.spec_meta())
            &&& meaning::holds(e, op.softmax_meta, op.softmax_shape.spec_meta())
            &&& op.scores != op.cache_v && op.scores != op.cache_k && op.scores != op.out
            &&& op.out != op.cache_k && op.out != op.cache_v
        }),
        ({
            let (e, op) = HeadGatherOp::build(c, dim, role_offset);
            meaning::holds(e, op.meta, op.shape.spec_meta()) && op.dst.id >= c.len() && op.dst
                != op.meta
        }),
        ({
            let (e, op) = RopeOffsetOp::build(c, dim, head_dim);
            meaning::holds(e, op.meta, op.shape.spec_meta())
        }),
        ({
            let (e, op) = CacheWriteOp::build(c, cache_k, rows, dim);
            meaning::holds(e, op.meta, op.shape.spec_meta()) && op.cache == cache_k
        }),
{
    let n = c.len() as int;
    let (e, op) = CachedAttentionOp::build(
        c,
        cache_k,
        cache_v,
        num_heads,
        dim,
        head_dim,
        max_context_len,
    );
    assert(e[n + 2] == Init::Meta(op.attn_shape.spec_meta()));
    assert(e[n + 3] == Init::Meta(op.softmax_shape.spec_meta()));
    let (e1, gather) = HeadGatherOp::build(c, dim, role_offset);
    assert(e1[n + 1] == Init::Meta(gather.shape.spec_meta()));
    let (e2, turn) = RopeOffsetOp::build(c, dim, head_dim);
    assert(e2[n] == Init::Meta(turn.shape.spec_meta()));
    let (e3, write) = CacheWriteOp::build(c, cache_k, rows, dim);
    assert(e3[n] == Init::Meta(write.shape.spec_meta()));
}

/// Moving a decode op on writes its new shape into its records: in a context that has
/// taken those writes, the records hold the shapes of the moved op.
pub proof fn advance_writes_the_new_shape(v: DecodeOpView, step: u32, c: Seq<Init>)
    requires
        forall|i: int|
            0 <= i < <DecodeOp as Advance>::writes(v, step).len() ==> {
                let w = #[trigger] <DecodeOp as Advance>::writes(v, step)[i];
                meaning::holds(c, w.0, w.1)
            },
    ensures
        match <DecodeOp as Advance>::advanced(v, step) {
            DecodeOpView::RopeOffset(op) => meaning::holds(c, op.meta, op.shape.spec_meta()),
            DecodeOpView::CacheWrite(op) => meaning::holds(c, op.meta, op.shape.spec_meta()),
            DecodeOpView::CachedAttention(op) => {
                &&& meaning::holds(c, op.attn_meta, op.attn_shape.spec_meta())
                &&& meaning::holds(c, op.softmax_meta, op.softmax_shape.spec_meta())
            },
            _ => true,
        },
{
    let w = <DecodeOp as Advance>::writes(v, step);
    if w.len() > 0 {
        assert(meaning::holds(c, w[0].0, w[0].1));
    }
    if w.len() > 1 {
        assert(meaning::holds(c, w[1].0, w[1].1));
    }
}

} // verus!
