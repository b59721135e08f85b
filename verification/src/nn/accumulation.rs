//! What the backward pass over a training block adds into. A kernel that adds needs
//! its buffer initialized: here that is always a parameter's gradient, which
//! `zero_grad` clears, or the gradient that the pass was given.
use super::assemble::{self, block_back, block_inputs, block_output, block_wired};
use super::full_seq::{AttentionOpView, RopeQkOp, TrainOp, TrainOpView};
use super::tape::{self, Backward, TapeView};
use super::zeroing;
use crate::device::{Init, Kernel, NodeView, Tensor};
use vstd::prelude::*;

verus! {

proof fn lemma_rope_adds(op: RopeQkOp, c: Seq<Init>, q: Tensor, k: Tensor, n: nat, m: int, j: int)
    requires
        0 <= m < op.batch_bwd_nodes(c, q, k, n).len(),
    ensures
        !zeroing::adds(op.batch_bwd_nodes(c, q, k, n)[m], j),
    decreases n,
{
    if n > 0 {
        let prev = op.batch_bwd_nodes(c, q, k, (n - 1) as nat);
        if m < prev.len() {
            assert(op.batch_bwd_nodes(c, q, k, n)[m] == prev[m]);
            lemma_rope_adds(op, c, q, k, (n - 1) as nat, m, j);
        } else {
            assert(op.batch_bwd_nodes(c, q, k, n)[m].kernel == Kernel::RopeBwdQk);
        }
    }
}

proof fn lemma_flash_adds(op: AttentionOpView, c: Seq<Init>, g: Tensor, n: nat, m: int, j: int)
    requires
        0 <= m < op.bwd_nodes(c, g, n).len(),
    ensures
        !zeroing::adds(op.bwd_nodes(c, g, n)[m], j),
    decreases n,
{
    if n > 0 {
        let prev = op.bwd_nodes(c, g, (n - 1) as nat);
        let node = op.bwd_nodes(c, g, n)[m];
        if m < prev.len() {
            assert(node == prev[m]);
            lemma_flash_adds(op, c, g, (n - 1) as nat, m, j);
        } else {
            assert(node.kernel == Kernel::FlashAttentionBwdD || node.kernel
                == Kernel::FlashAttentionBwdDq || node.kernel == Kernel::FlashAttentionBwdDkDv);
        }
    }
}

/// An op adds into the gradient of its parameter only.
proof fn lemma_op_adds(v: TrainOpView, c: Seq<Init>, gs: Seq<Tensor>, m: int, j: int)
    requires
        0 <= m < <TrainOp as Backward>::bwd(v, c, gs).nodes.len(),
        zeroing::adds(<TrainOp as Backward>::bwd(v, c, gs).nodes[m], j),
    ensures
        <TrainOp as Backward>::spec_param(v) is Some,
        (<TrainOp as Backward>::spec_param(v)->0).1 == <TrainOp as Backward>::bwd(
            v,
            c,
            gs,
        ).nodes[m].buffers[j],
{
    match v {
        TrainOpView::RopeQk(op) => {
            lemma_rope_adds(op, c, gs[0], gs[1], op.batch_size as nat, m, j);
        },
        TrainOpView::Attention(op) => {
            lemma_flash_adds(op, c, gs[0], (op.saved->0).3.len(), m, j);
        },
        TrainOpView::RmsNorm(op) => {
            assert(m == 0 || m == 1);
            assert(m == 1 && j == 3);
        },
        TrainOpView::Linear(op) => {
            assert(m == 0 || m == 1);
            assert(m == 0 && j == 2);
        },
        TrainOpView::Embedding(op) => {
            assert(m == 0 && j == 2);
        },
        _ => {},
    }
}

/// A contribution finds its slot empty, or in the hands of the given gradient.
proof fn lemma_held(
    t: TapeView<TrainOpView>,
    c: Seq<Init>,
    g: Seq<NodeView>,
    grad: Tensor,
    at: int,
    m: int,
)
    requires
        t.wf(),
        block_wired(t.nodes),
        0 <= at < t.nodes.len(),
        0 <= m < block_inputs(at).len(),
    ensures
        ({
            let p = block_back(t, c, g, grad, (t.nodes.len() - 1 - at) as nat);
            let (id, slot) = block_inputs(at)[m];
            let e = p.grads[id.0 as int][slot as int];
            e is None || e == Some(grad)
        }),
{
    let n = t.nodes.len();
    let k = (n - 1 - at) as nat;
    let s0 = tape::back_start(t.nodes, c, g, (block_output(), 0), grad);
    let out = block_inputs(at)[m];
    assert(t.nodes[at].inputs == block_inputs(at));
    assert(t.has_outs(at, t.nodes[at].inputs));
    assert(t.has_out(at, t.nodes[at].inputs[m]));
    assert(t.nodes[7].outputs.len() == 1 && t.nodes[0].outputs.len() >= 1);
    if at == 8 {
        assemble::lemma_handed(t, c, g, grad);
        tape::lemma_back_grows::<TrainOp>(t, s0, 1, 4);
    } else if at == 1 {
        assemble::lemma_handed(t, c, g, grad);
        tape::lemma_back_grows::<TrainOp>(t, s0, 6, 11);
    } else {
        assert forall|i: int, x: int|
            n - k <= i < n && 0 <= x < t.nodes[i].inputs.len() implies #[trigger] t.nodes[i].inputs[x]
            != out by {
            assert(t.nodes[i].inputs == block_inputs(i));
        }
        tape::lemma_back_untouched::<TrainOp>(t, s0, k, out);
        assert(s0.grads[out.0.0 as int][out.1 as int] is None);
    }
}

/// What the turn of node `at` adds into.
proof fn lemma_turn_adds(
    t: TapeView<TrainOpView>,
    c: Seq<Init>,
    g: Seq<NodeView>,
    grad: Tensor,
    at: int,
    q: int,
    j: int,
)
    requires
        t.wf(),
        block_wired(t.nodes),
        0 <= at < t.nodes.len(),
        ({
            let p = block_back(t, c, g, grad, (t.nodes.len() - 1 - at) as nat);
            let s = block_back(t, c, g, grad, (t.nodes.len() - at) as nat);
            p.nodes.len() <= q < s.nodes.len() && zeroing::adds(s.nodes[q], j)
        }),
    ensures
        ({
            let s = block_back(t, c, g, grad, (t.nodes.len() - at) as nat);
            let param = <TrainOp as Backward>::spec_param(t.nodes[at].op);
            s.nodes[q].buffers[j] == grad || (param is Some && (param->0).1 == s.nodes[q].buffers[j])
        }),
{
    let n = t.nodes.len();
    let k = (n - 1 - at) as nat;
    let s0 = tape::back_start(t.nodes, c, g, (block_output(), 0), grad);
    let p = block_back(t, c, g, grad, k);
    let s = block_back(t, c, g, grad, (k + 1) as nat);
    let own = tape::turn::<TrainOp>(t.nodes, p, at);
    let inputs = t.nodes[at].inputs;
    assert(inputs == block_inputs(at));
    tape::lemma_back::<TrainOp>(t, s0, k);
    assert(p.ops[at] == t.nodes[at].op);
    match tape::lemma_turn_source::<TrainOp>(t, s0, k, q) {
        None => {
            lemma_turn_own(t, p, at, q - p.nodes.len(), j);
        },
        Some(m) => {
            lemma_held(t, c, g, grad, at, m);
            assert forall|x: int| 0 <= x < m implies #[trigger] inputs[x] != inputs[m] by {
                lemma_distinct(at, x, m);
            }
            tape::lemma_turn_inputs::<TrainOp>(t, p.grads, at);
            assert((TapeView { nodes: t.nodes, grads: p.grads }).has_out(at, inputs[m]));
            tape::lemma_route_untouched(
                t.nodes,
                p.grads,
                p.nodes + own.nodes,
                at,
                own.grads,
                m as nat,
                inputs[m],
            );
            assert(j == 0);
        },
    }
}

proof fn lemma_turn_own(
    t: TapeView<TrainOpView>,
    p: tape::BackState<TrainOpView>,
    at: int,
    m: int,
    j: int,
)
    requires
        p.ops[at] == t.nodes[at].op,
        0 <= m < tape::turn::<TrainOp>(t.nodes, p, at).nodes.len(),
        zeroing::adds(tape::turn::<TrainOp>(t.nodes, p, at).nodes[m], j),
    ensures
        ({
            let param = <TrainOp as Backward>::spec_param(t.nodes[at].op);
            param is Some && (param->0).1 == tape::turn::<TrainOp>(t.nodes, p, at).nodes[m].buffers[j]
        }),
{
    let (c, filled) = tape::fill(
        p.ctx,
        p.grads[at],
        t.nodes[at].outputs,
        t.nodes[at].outputs.len(),
    );
    lemma_op_adds(p.ops[at], c, filled, m, j);
}

/// No node of a block takes a slot in twice.
proof fn lemma_distinct(at: int, x: int, m: int)
    requires
        0 <= at <= 12,
        0 <= x < m < block_inputs(at).len(),
    ensures
        block_inputs(at)[x] != block_inputs(at)[m],
{
}

/// A backward pass over a training block adds into nothing but the gradients of the
/// block's parameters and the gradient that it was given.
pub proof fn block_adds_into_gradients(
    t: TapeView<TrainOpView>,
    c: Seq<Init>,
    g: Seq<NodeView>,
    grad: Tensor,
    k: nat,
    q: int,
    j: int,
)
    requires
        t.wf(),
        block_wired(t.nodes),
        k <= t.nodes.len(),
        g.len() <= q < block_back(t, c, g, grad, k).nodes.len(),
        zeroing::adds(block_back(t, c, g, grad, k).nodes[q], j),
    ensures
        ({
            let b = block_back(t, c, g, grad, k).nodes[q].buffers[j];
            b == grad || exists|i: int|
                0 <= i < t.nodes.len() && ({
                    let param = #[trigger] <TrainOp as Backward>::spec_param(t.nodes[i].op);
                    param is Some && (param->0).1 == b
                })
        }),
    decreases k,
{
    if k > 0 {
        let s0 = tape::back_start(t.nodes, c, g, (block_output(), 0), grad);
        let p = block_back(t, c, g, grad, (k - 1) as nat);
        tape::lemma_back_grows::<TrainOp>(t, s0, (k - 1) as nat, k);
        if q < p.nodes.len() {
            assert(p.nodes[q] == block_back(t, c, g, grad, k).nodes[q]);
            block_adds_into_gradients(t, c, g, grad, (k - 1) as nat, q, j);
        } else {
            let at = t.nodes.len() - k;
            lemma_turn_adds(t, c, g, grad, at, q, j);
        }
    } else {
        assert(block_back(t, c, g, grad, 0).nodes == g);
    }
}

} // verus!
