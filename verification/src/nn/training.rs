//! The forward and the backward pass of a whole model under training: the
//! embedding on one tape, each block on its own, the final norm and the head on
//! a third.
use super::assemble;
use super::assemble::{build_block, BuiltBlock, BuiltBlockView};
use super::blocks;
use super::full_seq;
use super::full_seq::{EmbeddingOp, LinearOp, RmsNormOp, TrainOp, TrainOpView};
use super::kernels::meta::{KernelMeta, MatMulMeta, NormMeta};
use super::kernels::{GraphBuilder, Train};
use super::loss::{AnyLoss, CrossEntropyOp};
use super::tape;
use super::tape::{BackState, Forward, NodeId, Out, Tape, TapeNodeView, TapeView};
use super::weights;
use super::weights::{BlockWeights, ModelWeights, ModelWeightsView};
use crate::config::ModelConfig;
use crate::device;
use crate::device::{Context, Init, NodeView, Tensor};
use vstd::prelude::*;

verus! {

/// The tapes of a model under training.
pub struct Parts {
    pub head: Tape<TrainOp>,
    pub embedding_id: NodeId,
    pub blocks: Vec<BuiltBlock>,
    pub tail: Tape<TrainOp>,
    pub tail_input_id: NodeId,
    pub logits_id: NodeId,
}

/// The value of a `Parts`.
#[verifier::ext_equal]
pub struct PartsView {
    pub head: TapeView<TrainOpView>,
    pub embedding_id: NodeId,
    pub blocks: Seq<BuiltBlockView>,
    pub tail: TapeView<TrainOpView>,
    pub tail_input_id: NodeId,
    pub logits_id: NodeId,
}

impl View for Parts {
    type V = PartsView;

    open spec fn view(&self) -> PartsView {
        PartsView {
            head: self.head@,
            embedding_id: self.embedding_id,
            blocks: Seq::new(self.blocks@.len(), |i: int| self.blocks@[i]@),
            tail: self.tail@,
            tail_input_id: self.tail_input_id,
            logits_id: self.logits_id,
        }
    }
}

/// The parts, the context and the dispatches after a pass.
#[verifier::ext_equal]
pub struct Pass {
    pub ctx: Seq<Init>,
    pub emitted: Seq<NodeView>,
    pub parts: PartsView,
}

// ---- well-formedness ----

/// A block of the stack is sound, linked, and knows its ends.
pub open spec fn block_wf(b: BuiltBlockView) -> bool {
    &&& assemble::sound(b.tape)
    &&& assemble::linked(b.tape.nodes)
    &&& b.block_input_id == NodeId(0)
    &&& b.output == assemble::block_output()
}

/// The tail runs from its leaf over the norm to the head.
pub open spec fn tail_linked(nodes: Seq<TapeNodeView<TrainOpView>>) -> bool {
    &&& nodes.len() == 3
    &&& nodes[0].outputs.len() == 1
    &&& nodes[1].op is RmsNorm
    &&& nodes[1].outputs.len() == 1
    &&& nodes[1].inputs == seq![(NodeId(0), 0usize)]
    &&& nodes[2].op is Linear
    &&& nodes[2].outputs.len() == 1
    &&& nodes[2].inputs == seq![(NodeId(1), 0usize)]
}

impl PartsView {
    pub open spec fn wf(self) -> bool {
        &&& assemble::sound(self.head)
        &&& self.head.nodes.len() == 1
        &&& self.head.nodes[0].outputs.len() == 1
        &&& self.embedding_id == NodeId(0)
        &&& forall|i: int| 0 <= i < self.blocks.len() ==> block_wf(#[trigger] self.blocks[i])
        &&& assemble::sound(self.tail)
        &&& tail_linked(self.tail.nodes)
        &&& self.tail_input_id == NodeId(0)
        &&& self.logits_id == NodeId(2)
    }

    /// The head, the tail and the first `n` blocks have run forward.
    pub open spec fn ready(self, n: int) -> bool {
        &&& tape::ready::<TrainOp>(self.head)
        &&& tape::ready::<TrainOp>(self.tail)
        &&& forall|i: int|
            0 <= i < n ==> tape::ready::<TrainOp>((#[trigger] self.blocks[i]).tape)
    }

    /// The logits buffer. The loss turns it into probabilities and then into the
    /// logits' gradient.
    pub open spec fn logits(self) -> Tensor {
        self.tail.out((self.logits_id, 0))
    }
}

// ---- building ----

/// A stack of blocks under construction.
#[verifier::ext_equal]
pub struct Stack {
    pub ctx: Seq<Init>,
    pub emitted: Seq<NodeView>,
    pub x: Tensor,
    pub blocks: Seq<BuiltBlockView>,
}

/// The first `n` blocks on top of `x`, each on the output of the one before.
pub open spec fn stack(
    c: Seq<Init>,
    g: Seq<NodeView>,
    bws: Seq<BlockWeights>,
    cfg: ModelConfig,
    x: Tensor,
    n: nat,
) -> Stack
    decreases n,
{
    if n == 0 {
        Stack { ctx: c, emitted: g, x, blocks: Seq::empty() }
    } else {
        let p = stack(c, g, bws, cfg, x, (n - 1) as nat);
        let e = assemble::block_ext(p.ctx, p.emitted, bws[n - 1], cfg, p.x);
        Stack {
            ctx: e.ctx,
            emitted: e.emitted,
            x: e.tape.out((assemble::block_output(), 0)),
            blocks: p.blocks.push(assemble::block_view(e)),
        }
    }
}

/// The rows that a step trains on.
pub open spec fn rows_of(cfg: ModelConfig) -> u32 {
    (cfg.batch_size * cfg.seq_len) as u32
}

/// The tail that stands on `x`, with the context and the dispatches behind it.
pub open spec fn tail_build(
    c: Seq<Init>,
    g: Seq<NodeView>,
    w: ModelWeightsView,
    cfg: ModelConfig,
    x: Tensor,
) -> (Seq<Init>, Seq<NodeView>, TapeView<TrainOpView>) {
    let rows = rows_of(cfg);
    let t0 = assemble::leaf_tape(x);
    let (c1, norm) = RmsNormOp::build(
        c,
        w.final_norm,
        NormMeta { seq_len: rows, size: cfg.dim, eps: cfg.norm_eps },
    );
    let ins1 = seq![(NodeId(0), 0usize)];
    let f1 = <TrainOp as Forward<Train>>::fwd(TrainOpView::RmsNorm(norm), c1, t0.outs(ins1));
    let t1 = t0.pushed(f1.next, ins1, f1.outs);
    let (c2, lin) = LinearOp::build(
        f1.ctx,
        w.lm_head,
        MatMulMeta { m: rows, n: cfg.vocab_size, k: cfg.dim },
        true,
    );
    let ins2 = seq![(NodeId(1), 0usize)];
    let f2 = <TrainOp as Forward<Train>>::fwd(TrainOpView::Linear(lin), c2, t1.outs(ins2));
    (f2.ctx, g + f1.nodes + f2.nodes, t1.pushed(f2.next, ins2, f2.outs))
}

/// The head: the embedding alone.
pub open spec fn head_build(c: Seq<Init>, w: ModelWeightsView, cfg: ModelConfig) -> (
    Seq<Init>,
    Seq<NodeView>,
    TapeView<TrainOpView>,
    EmbeddingOp,
) {
    let (c1, emb) = EmbeddingOp::build(c, w.embedding, rows_of(cfg), cfg.vocab_size, cfg.dim);
    let f = <TrainOp as Forward<Train>>::fwd(TrainOpView::Embedding(emb), c1, Seq::empty());
    (f.ctx, f.nodes, TapeView::<TrainOpView>::empty().pushed(f.next, Seq::empty(), f.outs), emb)
}

/// The parts that `build_parts` leaves when it starts in `c`: head, blocks, tail.
#[verifier::opaque]
pub open spec fn parts_build(c: Seq<Init>, w: ModelWeightsView, cfg: ModelConfig) -> Pass {
    let (c1, g1, head, _) = head_build(c, w, cfg);
    let st = stack(c1, g1, w.blocks, cfg, head.out((NodeId(0), 0)), w.blocks.len());
    let (c2, g2, tail) = tail_build(st.ctx, st.emitted, w, cfg, st.x);
    Pass {
        ctx: c2,
        emitted: g2,
        parts: PartsView {
            head,
            embedding_id: NodeId(0),
            blocks: st.blocks,
            tail,
            tail_input_id: NodeId(0),
            logits_id: NodeId(2),
        },
    }
}

/// The models that can be trained: every buffer can be tiled in 32 bits.
pub open spec fn trainable(w: ModelWeightsView, cfg: ModelConfig) -> bool {
    let rows = rows_of(cfg);
    &&& cfg.batch_size * cfg.seq_len <= u32::MAX
    &&& rows * cfg.dim + 255 <= u32::MAX
    &&& cfg.dim + 255 <= u32::MAX
    &&& cfg.vocab_size + 255 <= u32::MAX
    &&& full_seq::linear_ok(MatMulMeta { m: rows, n: cfg.vocab_size, k: cfg.dim })
    &&& tape::small(w.embedding)
    &&& tape::small(w.final_norm)
    &&& tape::small(w.lm_head)
    &&& forall|i: int|
        0 <= i < w.blocks.len() ==> {
            &&& blocks::full_fits(cfg, #[trigger] w.blocks[i], cfg.seq_len, cfg.batch_size)
            &&& tape::all_small(weights::block_order(w.blocks[i]))
        }
}

/// Every block of the stack is in order, and so is its last output.
proof fn lemma_stack(
    c: Seq<Init>,
    g: Seq<NodeView>,
    w: ModelWeightsView,
    cfg: ModelConfig,
    x: Tensor,
    n: nat,
)
    requires
        trainable(w, cfg),
        tape::small(x),
        n <= w.blocks.len(),
    ensures
        ({
            let s = stack(c, g, w.blocks, cfg, x, n);
            &&& s.blocks.len() == n
            &&& tape::small(s.x)
            &&& forall|i: int|
                0 <= i < n ==> block_wf(#[trigger] s.blocks[i]) && tape::ready::<TrainOp>(
                    s.blocks[i].tape,
                )
        }),
    decreases n,
{
    if n > 0 {
        lemma_stack(c, g, w, cfg, x, (n - 1) as nat);
        let p = stack(c, g, w.blocks, cfg, x, (n - 1) as nat);
        let bw = w.blocks[n - 1];
        assert(blocks::full_fits(cfg, bw, cfg.seq_len, cfg.batch_size));
        assemble::lemma_block(p.ctx, p.emitted, bw, cfg, p.x);
        let t = assemble::block_ext(p.ctx, p.emitted, bw, cfg, p.x).tape;
        assert(assemble::node_sound(t.nodes[12]));
        assert(tape::small(t.nodes[12].outputs[0]));
    }
}

proof fn lemma_tail(c: Seq<Init>, g: Seq<NodeView>, w: ModelWeightsView, cfg: ModelConfig, x: Tensor)
    requires
        trainable(w, cfg),
        tape::small(x),
    ensures
        ({
            let t = tail_build(c, g, w, cfg, x).2;
            &&& assemble::sound(t)
            &&& tape::ready::<TrainOp>(t)
            &&& tail_linked(t.nodes)
        }),
{
    let rows = rows_of(cfg);
    let t0 = assemble::leaf_tape(x);
    assert(t0.nodes[0].outputs.len() == 1);
    assert(t0.nodes[0].outputs[0] == x);
    assert(assemble::sound(t0));
    assert(tape::ready::<TrainOp>(t0));
    assert(0 <= rows * cfg.dim) by (nonlinear_arith);
    let (c1, norm) = RmsNormOp::build(
        c,
        w.final_norm,
        NormMeta { seq_len: rows, size: cfg.dim, eps: cfg.norm_eps },
    );
    let ins1 = seq![(NodeId(0), 0usize)];
    assert(t0.has_outs(1, ins1));
    assemble::lemma_push(t0, TrainOpView::RmsNorm(norm), c1, ins1);
    let f1 = <TrainOp as Forward<Train>>::fwd(TrainOpView::RmsNorm(norm), c1, t0.outs(ins1));
    let t1 = t0.pushed(f1.next, ins1, f1.outs);
    let (c2, lin) = LinearOp::build(
        f1.ctx,
        w.lm_head,
        MatMulMeta { m: rows, n: cfg.vocab_size, k: cfg.dim },
        true,
    );
    let ins2 = seq![(NodeId(1), 0usize)];
    assert(t1.has_outs(2, ins2));
    assemble::lemma_push(t1, TrainOpView::Linear(lin), c2, ins2);
}

proof fn lemma_head(c: Seq<Init>, w: ModelWeightsView, cfg: ModelConfig)
    requires
        trainable(w, cfg),
    ensures
        ({
            let t = head_build(c, w, cfg).2;
            &&& assemble::sound(t)
            &&& tape::ready::<TrainOp>(t)
            &&& t.nodes.len() == 1
            &&& t.nodes[0].outputs.len() == 1
            &&& tape::small(t.out((NodeId(0), 0)))
        }),
{
    let rows = rows_of(cfg);
    assert(0 <= rows * cfg.dim) by (nonlinear_arith);
    let (c1, emb) = EmbeddingOp::build(c, w.embedding, rows, cfg.vocab_size, cfg.dim);
    let e = TapeView::<TrainOpView>::empty();
    assert(e.outs(Seq::empty()) =~= Seq::empty());
    assert(tape::ready::<TrainOp>(e));
    assert(assemble::sound(e));
    assemble::lemma_push(e, TrainOpView::Embedding(emb), c1, Seq::empty());
}

/// A model is well-formed and has run forward as built.
pub proof fn lemma_parts(c: Seq<Init>, w: ModelWeightsView, cfg: ModelConfig)
    requires
        trainable(w, cfg),
    ensures
        parts_build(c, w, cfg).parts.wf(),
        parts_build(c, w, cfg).parts.ready(w.blocks.len() as int),
        parts_build(c, w, cfg).parts.blocks.len() == w.blocks.len(),
{
    reveal(parts_build);
    let (c1, g1, head, _) = head_build(c, w, cfg);
    lemma_head(c, w, cfg);
    let x = head.out((NodeId(0), 0));
    lemma_stack(c1, g1, w, cfg, x, w.blocks.len());
    let st = stack(c1, g1, w.blocks, cfg, x, w.blocks.len());
    lemma_tail(st.ctx, st.emitted, w, cfg, st.x);
}

/// The embedding, every block and the tail, with the forward pass of each
/// emitted as it is built; also the buffer that takes the tokens of a step.
pub fn build_parts(
    ctx: &mut Context,
    gb: &mut GraphBuilder<Train>,
    w: &ModelWeights,
    cfg: &ModelConfig,
) -> (r: (Parts, Tensor))
    requires
        trainable(w@, *cfg),
        old(gb).graph@ == Seq::<NodeView>::empty(),
    ensures
        ({
            let p = parts_build(old(ctx)@, w@, *cfg);
            &&& final(ctx)@ == p.ctx
            &&& final(gb).graph@ == p.emitted
            &&& r.0@ == p.parts
            &&& r.1 == head_build(old(ctx)@, w@, *cfg).3.tokens
        }),
{
    let ghost c = ctx@;
    let rows: u32 = cfg.batch_size * cfg.seq_len;
    proof {
        assert(0 <= rows * cfg.dim) by (nonlinear_arith);
        lemma_head(c, w@, *cfg);
    }
    let emb = EmbeddingOp::new(ctx, w.embedding, rows, cfg.vocab_size, cfg.dim);
    let tokens = emb.tokens_handle();
    let mut head: Tape<TrainOp> = Tape::new();
    let none: Vec<Out> = Vec::new();
    proof {
        assert(head@.outs(none@) =~= Seq::empty());
    }
    let embedding_id = head.push(ctx, gb, TrainOp::Embedding(emb), none);
    let ghost h = head_build(c, w@, *cfg);
    proof {
        assert(head@ == h.2);
        assert(gb.graph@ =~= h.1);
    }
    let ghost x0 = h.2.out((NodeId(0), 0));
    let mut x = head.output(embedding_id);
    let mut bs: Vec<BuiltBlock> = Vec::new();
    let mut i: usize = 0;
    while i < w.blocks.len()
        invariant
            i <= w.blocks@.len(),
            trainable(w@, *cfg),
            tape::small(x0),
            ({
                let s = stack(h.0, h.1, w@.blocks, *cfg, x0, i as nat);
                &&& ctx@ == s.ctx
                &&& gb.graph@ == s.emitted
                &&& x == s.x
                &&& bs@.len() == s.blocks.len()
                &&& forall|k: int| 0 <= k < bs@.len() ==> (#[trigger] bs@[k])@ == s.blocks[k]
            }),
        decreases w.blocks@.len() - i,
    {
        proof {
            lemma_stack(h.0, h.1, w@, *cfg, x0, i as nat);
            lemma_stack(h.0, h.1, w@, *cfg, x0, (i + 1) as nat);
        }
        let ghost s = stack(h.0, h.1, w@.blocks, *cfg, x0, i as nat);
        let ghost s2 = stack(h.0, h.1, w@.blocks, *cfg, x0, (i + 1) as nat);
        assert(blocks::full_fits(*cfg, w@.blocks[i as int], cfg.seq_len, cfg.batch_size));
        let built = build_block(ctx, gb, &w.blocks[i], cfg, x);
        assert(built@ == s2.blocks[i as int]);
        assert(block_wf(s2.blocks[i as int]));
        x = built.tape.output(built.output);
        bs.push(built);
        i = i + 1;
    }
    let ghost s = stack(h.0, h.1, w@.blocks, *cfg, x0, w@.blocks.len());
    proof {
        lemma_stack(h.0, h.1, w@, *cfg, x0, w@.blocks.len());
        lemma_tail(s.ctx, s.emitted, w@, *cfg, s.x);
    }
    let mut tail: Tape<TrainOp> = Tape::new();
    let ghost g = gb.graph@;
    let tail_input_id = tail.input(ctx, gb, x);
    assert(gb.graph@ =~= g);
    assert(tail@ =~= assemble::leaf_tape(x));
    assert(tail@.nodes[0].outputs.len() == 1);
    let norm = RmsNormOp::new(
        ctx,
        w.final_norm,
        NormMeta { seq_len: rows, size: cfg.dim, eps: cfg.norm_eps },
    );
    let ins1 = vec![(tail_input_id, 0)];
    assert(ins1@ =~= seq![(NodeId(0), 0usize)]);
    let final_norm = tail.push(ctx, gb, TrainOp::RmsNorm(norm), ins1);
    let lin = LinearOp::new(
        ctx,
        w.lm_head,
        MatMulMeta { m: rows, n: cfg.vocab_size, k: cfg.dim },
        true,
    );
    let ins2 = vec![(final_norm, 0)];
    assert(ins2@ =~= seq![(NodeId(1), 0usize)]);
    let logits_id = tail.push(ctx, gb, TrainOp::Linear(lin), ins2);
    let parts = Parts { head, embedding_id, blocks: bs, tail, tail_input_id, logits_id };
    proof {
        reveal(parts_build);
        assert(parts@.blocks =~= s.blocks);
        let t = tail_build(s.ctx, s.emitted, w@, *cfg, s.x);
        assert(tail@ == t.2);
        assert(gb.graph@ =~= t.1);
    }
    (parts, tokens)
}

// ---- spans ----

/// The dispatches of one block in the graph of a pass: those at `from..to`.
#[derive(Clone, Copy, Debug, PartialEq, Eq, Structural)]
pub struct BlockSpan {
    pub block: usize,
    pub from: usize,
    pub to: usize,
}

/// Every span starts where the one before ends, and none reaches over the end of
/// a graph of `len` dispatches.
pub open spec fn follow_each_other(spans: Seq<BlockSpan>, len: nat) -> bool {
    &&& forall|k: int|
        0 <= k < spans.len() ==> (#[trigger] spans[k]).from <= spans[k].to <= len
    &&& forall|k: int| 0 < k < spans.len() ==> spans[k - 1].to == (#[trigger] spans[k]).from
}

// ---- backward ----

/// A backward pass down the stack.
#[verifier::ext_equal]
pub struct Descent {
    pub ctx: Seq<Init>,
    pub emitted: Seq<NodeView>,
    pub grad: Tensor,
    pub blocks: Seq<BuiltBlockView>,
}

/// The tape, context and dispatches that a block's backward pass starts from:
/// with `again`, its forward pass runs once more before.
pub open spec fn prepared(b: BuiltBlockView, c: Seq<Init>, g: Seq<NodeView>, again: bool) -> (
    TapeView<TrainOpView>,
    Seq<Init>,
    Seq<NodeView>,
) {
    if again {
        let r = assemble::redone(b.tape, c, g);
        (assemble::redone_tape(b.tape, c, g), r.ctx, r.emitted)
    } else {
        (b.tape, c, g)
    }
}

/// The last `k` blocks after their backward passes, last block first, each on
/// the gradient that reached the input of the one above it.
pub open spec fn descend(
    c: Seq<Init>,
    g: Seq<NodeView>,
    grad: Tensor,
    bs: Seq<BuiltBlockView>,
    again: bool,
    k: nat,
) -> Descent
    decreases k,
{
    if k == 0 {
        Descent { ctx: c, emitted: g, grad, blocks: bs }
    } else {
        let p = descend(c, g, grad, bs, again, (k - 1) as nat);
        let i = bs.len() - k;
        let b = p.blocks[i];
        let (t, c1, g1) = prepared(b, p.ctx, p.emitted, again);
        let s = tape::back_all::<TrainOp>(t, c1, g1, (b.output, 0), p.grad);
        let after = tape::back_tape(t, s);
        Descent {
            ctx: s.ctx,
            emitted: s.nodes,
            grad: after.grad_of((b.block_input_id, 0))->0,
            blocks: p.blocks.update(i, BuiltBlockView { tape: after, ..b }),
        }
    }
}

/// The backward pass of the loss and of the tail.
pub open spec fn tail_backward(
    c: Seq<Init>,
    g: Seq<NodeView>,
    parts: PartsView,
    loss: CrossEntropyOp,
) -> BackState<TrainOpView> {
    let logits = parts.logits();
    let c1 = device::push_meta(c, loss.shape.spec_meta());
    let g1 = g.push(loss.bwd_node(c, logits));
    tape::back_all::<TrainOp>(parts.tail, c1, g1, (parts.logits_id, 0), logits)
}

/// The backward pass once the last `k` blocks have had their turn.
pub open spec fn descent(
    c: Seq<Init>,
    g: Seq<NodeView>,
    parts: PartsView,
    loss: CrossEntropyOp,
    again: bool,
    k: nat,
) -> Descent {
    let s = tail_backward(c, g, parts, loss);
    descend(
        s.ctx,
        s.nodes,
        tape::back_tape(parts.tail, s).grad_of((parts.tail_input_id, 0))->0,
        parts.blocks,
        again,
        k,
    )
}

/// Where the blocks stand in the graph of the backward pass, last block first. With
/// `again` a span takes in the block's own forward pass, which comes first.
pub open spec fn backward_spans(
    c: Seq<Init>,
    g: Seq<NodeView>,
    parts: PartsView,
    loss: CrossEntropyOp,
    again: bool,
) -> Seq<BlockSpan> {
    let n = parts.blocks.len();
    Seq::new(
        n,
        |k: int|
            BlockSpan {
                block: (n - 1 - k) as usize,
                from: descent(c, g, parts, loss, again, k as nat).emitted.len() as usize,
                to: descent(c, g, parts, loss, again, (k + 1) as nat).emitted.len() as usize,
            },
    )
}

/// The whole backward pass: the loss, the tail, the blocks last to first, the
/// head.
#[verifier::opaque]
pub open spec fn backward_pass(
    c: Seq<Init>,
    g: Seq<NodeView>,
    parts: PartsView,
    loss: CrossEntropyOp,
    again: bool,
) -> Pass {
    let tail = tape::back_tape(parts.tail, tail_backward(c, g, parts, loss));
    let d = descent(c, g, parts, loss, again, parts.blocks.len());
    let h = tape::back_all::<TrainOp>(parts.head, d.ctx, d.emitted, (parts.embedding_id, 0), d.grad);
    Pass {
        ctx: h.ctx,
        emitted: h.nodes,
        parts: PartsView {
            head: tape::back_tape(parts.head, h),
            blocks: d.blocks,
            tail,
            ..parts
        },
    }
}

/// A backward pass over the tail always reaches its input.
pub proof fn tail_backward_reaches_input(
    t: TapeView<TrainOpView>,
    c: Seq<Init>,
    g: Seq<NodeView>,
    grad: Tensor,
)
    requires
        assemble::sound(t),
        tail_linked(t.nodes),
    ensures
        assemble::backed(t, c, g, (NodeId(2), 0), grad).grad_of((NodeId(0), 0)) is Some,
{
    let out = (NodeId(2), 0usize);
    let s = tape::back_all::<TrainOp>(t, c, g, out, grad);
    let e = assemble::backed(t, c, g, out, grad);
    tape::gradients_reach_inputs::<TrainOp>(t, c, g, out, grad);
    assert(s.grads[2].len() == t.nodes[2].outputs.len());
    assert(s.grads[2][0] == Some(grad));
    assert(!tape::all_none(s.grads[2]));
    assert(e.grad_of(t.nodes[2].inputs[0]) is Some);
    assert(s.grads[1][0] is Some);
    assert(!tape::all_none(s.grads[1]));
    assert(e.grad_of(t.nodes[1].inputs[0]) is Some);
}

proof fn lemma_tail_alike(a: Seq<TapeNodeView<TrainOpView>>, b: Seq<TapeNodeView<TrainOpView>>)
    requires
        assemble::alike(a, b),
        tail_linked(b),
    ensures
        tail_linked(a),
{
    assert(assemble::at_rest(a[0].op) == assemble::at_rest(b[0].op));
    assert(assemble::at_rest(a[1].op) == assemble::at_rest(b[1].op));
    assert(assemble::at_rest(a[2].op) == assemble::at_rest(b[2].op));
    assemble::lemma_rest(a[1].op, b[1].op);
    assemble::lemma_rest(a[2].op, b[2].op);
}

/// One block's turn in the backward pass.
fn block_backward(
    ctx: &mut Context,
    gb: &mut GraphBuilder<Train>,
    block: &mut BuiltBlock,
    grad: Tensor,
    again: bool,
) -> (r: Tensor)
    requires
        block_wf(old(block)@),
        again || tape::ready::<TrainOp>(old(block)@.tape),
        tape::small(grad),
    ensures
        ({
            let (t, c1, g1) = prepared(old(block)@, old(ctx)@, old(gb).graph@, again);
            let s = tape::back_all::<TrainOp>(t, c1, g1, (old(block)@.output, 0), grad);
            let after = tape::back_tape(t, s);
            &&& final(ctx)@ == s.ctx
            &&& final(gb).graph@ == s.nodes
            &&& r == after.grad_of((old(block)@.block_input_id, 0))->0
            &&& final(block)@ == (BuiltBlockView { tape: after, ..old(block)@ })
        }),
        tape::small(r),
        block_wf(final(block)@),
        assemble::alike(final(block)@.tape.nodes, old(block)@.tape.nodes),
{
    let ghost b = block@;
    let ghost c0 = ctx@;
    let ghost g0 = gb.graph@;
    if again {
        proof {
            assemble::forward_can_run_again(b.tape, ctx@, gb.graph@);
            assemble::lemma_alike_linked(
                assemble::redone_tape(b.tape, ctx@, gb.graph@).nodes,
                b.tape.nodes,
            );
        }
        block.tape.redispatch(ctx, gb);
    }
    let ghost t = block.tape@;
    proof {
        assert(t == prepared(b, c0, g0, again).0);
        assert(assemble::node_sound(t.nodes[12]));
        assemble::block_backward_reaches_input(t, ctx@, gb.graph@, grad);
        assemble::backward_keeps_tape(t, ctx@, gb.graph@, (assemble::block_output(), 0), grad);
        assemble::lemma_alike_linked(
            assemble::backed(t, ctx@, gb.graph@, (assemble::block_output(), 0), grad).nodes,
            t.nodes,
        );
    }
    block.tape.backward(ctx, gb, (block.output, 0), grad);
    let g = block.tape.grad_of((block.block_input_id, 0));
    proof {
        let after = block.tape@;
        assert forall|i: int| 0 <= i < t.nodes.len() implies {
            &&& assemble::at_rest((#[trigger] after.nodes[i]).op) == assemble::at_rest(
                b.tape.nodes[i].op,
            )
            &&& after.nodes[i].inputs == b.tape.nodes[i].inputs
            &&& after.nodes[i].outputs.len() == b.tape.nodes[i].outputs.len()
        } by {
            assert(assemble::at_rest(t.nodes[i].op) == assemble::at_rest(b.tape.nodes[i].op));
        }
        assert(after.grads[0][0] is Some);
    }
    g.unwrap()
}

/// The tapes of two models under training are alike.
pub open spec fn parts_alike(a: PartsView, b: PartsView) -> bool {
    &&& assemble::alike(a.head.nodes, b.head.nodes)
    &&& assemble::alike(a.tail.nodes, b.tail.nodes)
    &&& a.blocks.len() == b.blocks.len()
    &&& forall|i: int|
        0 <= i < a.blocks.len() ==> assemble::alike(
            (#[trigger] a.blocks[i]).tape.nodes,
            b.blocks[i].tape.nodes,
        )
}

impl Parts {
    /// Emits the backward pass and says where each block stands in it. With `again`,
    /// every block runs forward once more before its own backward pass, which then
    /// needs nothing that an earlier forward pass left.
    pub fn backward(
        &mut self,
        ctx: &mut Context,
        gb: &mut GraphBuilder<Train>,
        loss: &AnyLoss,
        again: bool,
    ) -> (r: Vec<BlockSpan>)
        requires
            old(self)@.wf(),
            old(self)@.ready(if again { 0 } else { old(self)@.blocks.len() as int }),
            loss.op().shape.vocab_size + 255 <= u32::MAX,
        ensures
            ({
                let p = backward_pass(old(ctx)@, old(gb).graph@, old(self)@, loss.op(), again);
                &&& final(ctx)@ == p.ctx
                &&& final(gb).graph@ == p.emitted
                &&& final(self)@ == p.parts
            }),
            r@ == backward_spans(old(ctx)@, old(gb).graph@, old(self)@, loss.op(), again),
            final(self)@.wf(),
            parts_alike(final(self)@, old(self)@),
    {
        let ghost p0 = self@;
        let ghost c0 = ctx@;
        let ghost g0 = gb.graph@;
        assert(assemble::node_sound(p0.tail.nodes[2]));
        let logits = self.tail.output(self.logits_id);
        assert(tape::small(p0.tail.nodes[2].outputs[0]));
        loss.backward(ctx, gb, logits);
        proof {
            tail_backward_reaches_input(p0.tail, ctx@, gb.graph@, logits);
            assemble::backward_keeps_tape(p0.tail, ctx@, gb.graph@, (NodeId(2), 0), logits);
            lemma_tail_alike(
                assemble::backed(p0.tail, ctx@, gb.graph@, (NodeId(2), 0), logits).nodes,
                p0.tail.nodes,
            );
        }
        self.tail.backward(ctx, gb, (self.logits_id, 0), logits);
        let g = self.tail.grad_of((self.tail_input_id, 0));
        assert(self.tail@.grads[0][0] is Some);
        let mut grad = g.unwrap();
        let ghost c1 = ctx@;
        let ghost g1 = gb.graph@;
        let ghost grad1 = grad;
        let ghost tail1 = self.tail@;
        let n: usize = self.blocks.len();
        proof {
            assert forall|i: int| 0 <= i < n implies block_wf((#[trigger] self.blocks@[i])@) && (again
                || tape::ready::<TrainOp>(self.blocks@[i]@.tape)) by {
                assert(p0.blocks[i] == self.blocks@[i]@);
            }
        }
        let mut spans: Vec<BlockSpan> = Vec::new();
        let ghost all = backward_spans(c0, g0, p0, loss.op(), again);
        let mut k: usize = 0;
        while k < n
            invariant
                k <= n == self.blocks@.len(),
                n == p0.blocks.len(),
                all == backward_spans(c0, g0, p0, loss.op(), again),
                spans@.len() == k,
                forall|j: int| 0 <= j < k ==> #[trigger] spans@[j] == all[j],
                forall|j: nat|
                    #![trigger descent(c0, g0, p0, loss.op(), again, j)]
                    descent(c0, g0, p0, loss.op(), again, j) == descend(
                        c1,
                        g1,
                        grad1,
                        p0.blocks,
                        again,
                        j,
                    ),
                tape::small(grad),
                self.head@ == p0.head,
                self.tail@ == tail1,
                self.embedding_id == p0.embedding_id,
                self.tail_input_id == p0.tail_input_id,
                self.logits_id == p0.logits_id,
                ({
                    let d = descend(c1, g1, grad1, p0.blocks, again, k as nat);
                    &&& ctx@ == d.ctx
                    &&& gb.graph@ == d.emitted
                    &&& grad == d.grad
                    &&& d.blocks.len() == n
                    &&& self@.blocks == d.blocks
                }),
                forall|i: int| 0 <= i < n ==> block_wf((#[trigger] self.blocks@[i])@),
                forall|i: int|
                    0 <= i < n ==> assemble::alike(
                        (#[trigger] self.blocks@[i])@.tape.nodes,
                        p0.blocks[i].tape.nodes,
                    ),
                forall|i: int|
                    0 <= i < n - k ==> again || tape::ready::<TrainOp>(
                        (#[trigger] self.blocks@[i])@.tape,
                    ),
            decreases n - k,
        {
            let at: usize = n - 1 - k;
            let ghost before = self@.blocks;
            let ghost d = descend(c1, g1, grad1, p0.blocks, again, k as nat);
            assert(before[at as int] == self.blocks@[at as int]@);
            assert(block_wf(self.blocks@[at as int]@));
            let ghost old_nodes = self.blocks@[at as int]@.tape.nodes;
            let from: usize = gb.graph.len();
            grad = block_backward(ctx, gb, &mut self.blocks[at], grad, again);
            spans.push(BlockSpan { block: at, from, to: gb.graph.len() });
            proof {
                assert(all[k as int].from == descent(c0, g0, p0, loss.op(), again, k as nat)
                    .emitted.len() as usize);
                assert(all[k as int].to == descent(c0, g0, p0, loss.op(), again, (k + 1) as nat)
                    .emitted.len() as usize);
                assert(spans@[k as int] == all[k as int]);
                let now = self.blocks@[at as int]@;
                assert(self@.blocks =~= before.update(at as int, now));
                assert(assemble::alike(old_nodes, p0.blocks[at as int].tape.nodes));
                assert forall|i: int| 0 <= i < now.tape.nodes.len() implies {
                    &&& assemble::at_rest((#[trigger] now.tape.nodes[i]).op) == assemble::at_rest(
                        p0.blocks[at as int].tape.nodes[i].op,
                    )
                    &&& now.tape.nodes[i].inputs == p0.blocks[at as int].tape.nodes[i].inputs
                    &&& now.tape.nodes[i].outputs.len()
                        == p0.blocks[at as int].tape.nodes[i].outputs.len()
                } by {
                    assert(assemble::at_rest(old_nodes[i].op) == assemble::at_rest(
                        p0.blocks[at as int].tape.nodes[i].op,
                    ));
                }
            }
            k = k + 1;
        }
        proof {
            assert(self@.blocks == descend(c1, g1, grad1, p0.blocks, again, n as nat).blocks);
            assert forall|i: int| 0 <= i < n implies block_wf(#[trigger] self@.blocks[i])
                && assemble::alike(self@.blocks[i].tape.nodes, p0.blocks[i].tape.nodes) by {
                assert(block_wf(self.blocks@[i]@));
            }
            assemble::backward_keeps_tape(p0.head, ctx@, gb.graph@, (NodeId(0), 0), grad);
        }
        let ghost bs = self@.blocks;
        self.head.backward(ctx, gb, (self.embedding_id, 0), grad);
        proof {
            reveal(backward_pass);
            assert(self@.blocks =~= bs);
            assert(spans@ =~= all);
        }
        spans
    }
}

// ---- forward again ----

/// A second forward pass up the stack.
#[verifier::ext_equal]
pub struct Ascent {
    pub ctx: Seq<Init>,
    pub emitted: Seq<NodeView>,
    pub blocks: Seq<BuiltBlockView>,
}

/// The first `k` blocks after they have run forward again.
pub open spec fn ascend(c: Seq<Init>, g: Seq<NodeView>, bs: Seq<BuiltBlockView>, k: nat) -> Ascent
    decreases k,
{
    if k == 0 {
        Ascent { ctx: c, emitted: g, blocks: bs }
    } else {
        let p = ascend(c, g, bs, (k - 1) as nat);
        let b = p.blocks[k - 1];
        let (t, c1, g1) = prepared(b, p.ctx, p.emitted, true);
        Ascent {
            ctx: c1,
            emitted: g1,
            blocks: p.blocks.update(k - 1, BuiltBlockView { tape: t, ..b }),
        }
    }
}

/// The forward pass once the first `k` blocks have run again.
pub open spec fn ascent(c: Seq<Init>, g: Seq<NodeView>, parts: PartsView, k: nat) -> Ascent {
    let h = assemble::redone(parts.head, c, g);
    ascend(h.ctx, h.emitted, parts.blocks, k)
}

/// Where the blocks stand in the graph of the forward pass.
pub open spec fn forward_spans(c: Seq<Init>, g: Seq<NodeView>, parts: PartsView) -> Seq<BlockSpan> {
    Seq::new(
        parts.blocks.len(),
        |k: int|
            BlockSpan {
                block: k as usize,
                from: ascent(c, g, parts, k as nat).emitted.len() as usize,
                to: ascent(c, g, parts, (k + 1) as nat).emitted.len() as usize,
            },
    )
}

/// The whole forward pass once more: the head, the blocks first to last, the
/// tail, the loss.
#[verifier::opaque]
pub open spec fn forward_pass(
    c: Seq<Init>,
    g: Seq<NodeView>,
    parts: PartsView,
    loss: CrossEntropyOp,
) -> Pass {
    let h = assemble::redone(parts.head, c, g);
    let a = ascent(c, g, parts, parts.blocks.len());
    let t = assemble::redone(parts.tail, a.ctx, a.emitted);
    let after = PartsView {
        head: TapeView { nodes: h.nodes, ..parts.head },
        blocks: a.blocks,
        tail: TapeView { nodes: t.nodes, ..parts.tail },
        ..parts
    };
    Pass {
        ctx: device::push_meta(t.ctx, loss.shape.spec_meta()),
        emitted: t.emitted.push(loss.fwd_node(t.ctx, after.logits())),
        parts: after,
    }
}

/// One block's turn in a second forward pass.
fn block_redispatch(ctx: &mut Context, gb: &mut GraphBuilder<Train>, block: &mut BuiltBlock)
    requires
        block_wf(old(block)@),
    ensures
        ({
            let (t, c1, g1) = prepared(old(block)@, old(ctx)@, old(gb).graph@, true);
            &&& final(ctx)@ == c1
            &&& final(gb).graph@ == g1
            &&& final(block)@ == (BuiltBlockView { tape: t, ..old(block)@ })
        }),
        block_wf(final(block)@),
        tape::ready::<TrainOp>(final(block)@.tape),
        assemble::alike(final(block)@.tape.nodes, old(block)@.tape.nodes),
{
    proof {
        assemble::forward_can_run_again(block@.tape, ctx@, gb.graph@);
        assemble::lemma_alike_linked(
            assemble::redone_tape(block@.tape, ctx@, gb.graph@).nodes,
            block@.tape.nodes,
        );
    }
    block.tape.redispatch(ctx, gb);
}

impl Parts {
    /// Emits the forward pass once more, up to the loss, and says where each block
    /// stands in it.
    pub fn forward(
        &mut self,
        ctx: &mut Context,
        gb: &mut GraphBuilder<Train>,
        loss: &AnyLoss,
    ) -> (r: Vec<BlockSpan>)
        requires
            old(self)@.wf(),
        ensures
            ({
                let p = forward_pass(old(ctx)@, old(gb).graph@, old(self)@, loss.op());
                &&& final(ctx)@ == p.ctx
                &&& final(gb).graph@ == p.emitted
                &&& final(self)@ == p.parts
            }),
            r@ == forward_spans(old(ctx)@, old(gb).graph@, old(self)@),
            final(self)@.wf(),
            final(self)@.ready(old(self)@.blocks.len() as int),
            parts_alike(final(self)@, old(self)@),
    {
        let ghost p0 = self@;
        let ghost c0 = ctx@;
        let ghost g0 = gb.graph@;
        proof {
            assemble::forward_can_run_again(p0.head, c0, g0);
        }
        self.head.redispatch(ctx, gb);
        let ghost head1 = self.head@;
        let ghost c1 = ctx@;
        let ghost g1 = gb.graph@;
        let n: usize = self.blocks.len();
        proof {
            assert(self@.blocks =~= p0.blocks);
            assert forall|i: int| 0 <= i < n implies block_wf((#[trigger] self.blocks@[i])@) by {
                assert(p0.blocks[i] == self.blocks@[i]@);
            }
        }
        let mut spans: Vec<BlockSpan> = Vec::new();
        let ghost all = forward_spans(c0, g0, p0);
        let mut k: usize = 0;
        while k < n
            invariant
                k <= n == self.blocks@.len(),
                n == p0.blocks.len(),
                all == forward_spans(c0, g0, p0),
                spans@.len() == k,
                forall|j: int| 0 <= j < k ==> #[trigger] spans@[j] == all[j],
                forall|j: nat|
                    #![trigger ascent(c0, g0, p0, j)]
                    ascent(c0, g0, p0, j) == ascend(c1, g1, p0.blocks, j),
                self.head@ == head1,
                self.tail@ == p0.tail,
                self.embedding_id == p0.embedding_id,
                self.tail_input_id == p0.tail_input_id,
                self.logits_id == p0.logits_id,
                ({
                    let a = ascend(c1, g1, p0.blocks, k as nat);
                    &&& ctx@ == a.ctx
                    &&& gb.graph@ == a.emitted
                    &&& a.blocks.len() == n
                    &&& self@.blocks == a.blocks
                }),
                forall|i: int| 0 <= i < n ==> block_wf((#[trigger] self.blocks@[i])@),
                forall|i: int| k <= i < n ==> (#[trigger] self.blocks@[i])@ == p0.blocks[i],
                forall|i: int|
                    0 <= i < k ==> assemble::alike(
                        (#[trigger] self.blocks@[i])@.tape.nodes,
                        p0.blocks[i].tape.nodes,
                    ),
                forall|i: int|
                    0 <= i < k ==> tape::ready::<TrainOp>((#[trigger] self.blocks@[i])@.tape),
            decreases n - k,
        {
            let ghost before = self@.blocks;
            assert(before[k as int] == self.blocks@[k as int]@);
            assert(block_wf(self.blocks@[k as int]@));
            let from: usize = gb.graph.len();
            block_redispatch(ctx, gb, &mut self.blocks[k]);
            spans.push(BlockSpan { block: k, from, to: gb.graph.len() });
            proof {
                assert(all[k as int].from == ascent(c0, g0, p0, k as nat).emitted.len() as usize);
                assert(all[k as int].to == ascent(c0, g0, p0, (k + 1) as nat).emitted.len() as usize);
                assert(spans@[k as int] == all[k as int]);
            }
            assert(self@.blocks =~= before.update(k as int, self.blocks@[k as int]@));
            k = k + 1;
        }
        let ghost bs = self@.blocks;
        proof {
            assert forall|i: int| 0 <= i < n implies block_wf(#[trigger] bs[i]) && tape::ready::<
                TrainOp,
            >(bs[i].tape) && assemble::alike(bs[i].tape.nodes, p0.blocks[i].tape.nodes) by {
                assert(block_wf(self.blocks@[i]@));
            }
            assemble::forward_can_run_again(p0.tail, ctx@, gb.graph@);
            lemma_tail_alike(
                assemble::redone_tape(p0.tail, ctx@, gb.graph@).nodes,
                p0.tail.nodes,
            );
        }
        self.tail.redispatch(ctx, gb);
        assert(self@.blocks =~= bs);
        let logits = self.tail.output(self.logits_id);
        loss.forward(ctx, gb, logits);
        proof {
            reveal(forward_pass);
            assert(spans@ =~= all);
        }
        spans
    }
}

/// The blocks follow each other in the forward pass, first to last, and in the
/// backward pass, last to first, without overlap: no more than one block's span
/// covers a dispatch.
pub proof fn block_spans_follow_each_other(
    c: Seq<Init>,
    g: Seq<NodeView>,
    parts: PartsView,
    loss: CrossEntropyOp,
    again: bool,
)
    ensures
        forward_pass(c, g, parts, loss).emitted.len() <= usize::MAX ==> follow_each_other(
            forward_spans(c, g, parts),
            forward_pass(c, g, parts, loss).emitted.len(),
        ),
        backward_pass(c, g, parts, loss, again).emitted.len() <= usize::MAX ==> follow_each_other(
            backward_spans(c, g, parts, loss, again),
            backward_pass(c, g, parts, loss, again).emitted.len(),
        ),
{
    reveal(forward_pass);
    reveal(backward_pass);
    let n = parts.blocks.len();
    let f = forward_pass(c, g, parts, loss);
    let up = ascent(c, g, parts, n);
    lemma_redone_appends(parts.tail, up.ctx, up.emitted);
    if f.emitted.len() <= usize::MAX {
        let spans = forward_spans(c, g, parts);
        assert forall|k: int| 0 <= k < n implies (#[trigger] spans[k]).from <= spans[k].to
            <= f.emitted.len() by {
            lemma_ascent_appends(c, g, parts, k as nat, (k + 1) as nat);
            lemma_ascent_appends(c, g, parts, (k + 1) as nat, n);
        }
    }
    let b = backward_pass(c, g, parts, loss, again);
    let down = descent(c, g, parts, loss, again, n);
    tape::backward_only_appends::<TrainOp>(
        parts.head.nodes,
        tape::back_start(
            parts.head.nodes,
            down.ctx,
            down.emitted,
            (parts.embedding_id, 0),
            down.grad,
        ),
        parts.head.nodes.len(),
    );
    if b.emitted.len() <= usize::MAX {
        let spans = backward_spans(c, g, parts, loss, again);
        assert forall|k: int| 0 <= k < n implies (#[trigger] spans[k]).from <= spans[k].to
            <= b.emitted.len() by {
            lemma_descent_appends(c, g, parts, loss, again, k as nat, (k + 1) as nat);
            lemma_descent_appends(c, g, parts, loss, again, (k + 1) as nat, n);
        }
    }
}

proof fn lemma_redone_appends(t: TapeView<TrainOpView>, c: Seq<Init>, g: Seq<NodeView>)
    ensures
        g.len() <= assemble::redone(t, c, g).emitted.len(),
{
    tape::redispatch_only_appends::<Train, TrainOp>(assemble::redo_start(t, c, g), t.nodes.len());
}

proof fn lemma_ascent_appends(c: Seq<Init>, g: Seq<NodeView>, parts: PartsView, i: nat, j: nat)
    requires
        i <= j,
    ensures
        ascent(c, g, parts, i).emitted.len() <= ascent(c, g, parts, j).emitted.len(),
    decreases j,
{
    if i < j {
        lemma_ascent_appends(c, g, parts, i, (j - 1) as nat);
        let p = ascent(c, g, parts, (j - 1) as nat);
        lemma_redone_appends(p.blocks[j - 1].tape, p.ctx, p.emitted);
    }
}

proof fn lemma_descent_appends(
    c: Seq<Init>,
    g: Seq<NodeView>,
    parts: PartsView,
    loss: CrossEntropyOp,
    again: bool,
    i: nat,
    j: nat,
)
    requires
        i <= j,
    ensures
        descent(c, g, parts, loss, again, i).emitted.len() <= descent(
            c,
            g,
            parts,
            loss,
            again,
            j,
        ).emitted.len(),
    decreases j,
{
    if i < j {
        lemma_descent_appends(c, g, parts, loss, again, i, (j - 1) as nat);
        let p = descent(c, g, parts, loss, again, (j - 1) as nat);
        let b = p.blocks[parts.blocks.len() - j];
        lemma_redone_appends(b.tape, p.ctx, p.emitted);
        let (t, c1, g1) = prepared(b, p.ctx, p.emitted, again);
        tape::backward_only_appends::<TrainOp>(
            t.nodes,
            tape::back_start(t.nodes, c1, g1, (b.output, 0), p.grad),
            t.nodes.len(),
        );
    }
}

// ---- parameters ----

/// The parameters of the first `n` blocks.
pub open spec fn blocks_params(bs: Seq<BuiltBlockView>, n: nat) -> Seq<(Tensor, Tensor, bool)>
    decreases n,
{
    if n == 0 {
        Seq::empty()
    } else {
        let t = bs[n - 1].tape;
        blocks_params(bs, (n - 1) as nat) + tape::params_of::<TrainOp>(t.nodes, t.nodes.len())
    }
}

/// All parameters in push order: weight, gradient, whether weight decay applies.
pub open spec fn parts_params(p: PartsView) -> Seq<(Tensor, Tensor, bool)> {
    tape::params_of::<TrainOp>(p.head.nodes, p.head.nodes.len()) + blocks_params(
        p.blocks,
        p.blocks.len(),
    ) + tape::params_of::<TrainOp>(p.tail.nodes, p.tail.nodes.len())
}

proof fn lemma_alike_blocks(a: Seq<BuiltBlockView>, b: Seq<BuiltBlockView>, n: nat)
    requires
        a.len() == b.len(),
        n <= a.len(),
        forall|i: int|
            0 <= i < a.len() ==> assemble::alike(
                (#[trigger] a[i]).tape.nodes,
                b[i].tape.nodes,
            ),
    ensures
        blocks_params(a, n) == blocks_params(b, n),
    decreases n,
{
    if n > 0 {
        lemma_alike_blocks(a, b, (n - 1) as nat);
        assert(assemble::alike(a[n - 1].tape.nodes, b[n - 1].tape.nodes));
        assemble::lemma_alike_params(
            a[n - 1].tape.nodes,
            b[n - 1].tape.nodes,
            a[n - 1].tape.nodes.len(),
        );
    }
}

/// No pass changes which parameters a model has, or their order.
pub proof fn passes_keep_params(a: PartsView, b: PartsView)
    requires
        parts_alike(a, b),
    ensures
        parts_params(a) == parts_params(b),
{
    assemble::lemma_alike_params(a.head.nodes, b.head.nodes, a.head.nodes.len());
    assemble::lemma_alike_params(a.tail.nodes, b.tail.nodes, a.tail.nodes.len());
    lemma_alike_blocks(a.blocks, b.blocks, a.blocks.len());
}

/// Which of `n` blocks' weights decay.
pub open spec fn blocks_decays(n: nat) -> Seq<bool>
    decreases n,
{
    if n == 0 {
        Seq::empty()
    } else {
        blocks_decays((n - 1) as nat) + assemble::block_decays()
    }
}

/// Which weights decay, in checkpoint order: every projection and the head, but
/// neither the embedding nor a norm.
pub open spec fn all_decays(n: nat) -> Seq<bool> {
    seq![false] + blocks_decays(n) + seq![false, true]
}

proof fn lemma_lists_add(
    ps: Seq<(Tensor, Tensor, bool)>,
    ws: Seq<Tensor>,
    ds: Seq<bool>,
    ps2: Seq<(Tensor, Tensor, bool)>,
    ws2: Seq<Tensor>,
    ds2: Seq<bool>,
)
    requires
        assemble::lists(ps, ws, ds),
        assemble::lists(ps2, ws2, ds2),
    ensures
        assemble::lists(ps + ps2, ws + ws2, ds + ds2),
{
    let a = ps + ps2;
    assert forall|i: int| 0 <= i < a.len() implies {
        &&& (#[trigger] a[i]).0 == (ws + ws2)[i]
        &&& a[i].2 == (ds + ds2)[i]
        &&& tape::elems(a[i].1) == tape::elems((ws + ws2)[i])
    } by {
        if i < ps.len() {
            assert(a[i] == ps[i]);
        } else {
            assert(a[i] == ps2[i - ps.len()]);
        }
    }
}

proof fn lemma_stack_params(
    c: Seq<Init>,
    g: Seq<NodeView>,
    w: ModelWeightsView,
    cfg: ModelConfig,
    x: Tensor,
    m: nat,
    n: nat,
)
    requires
        trainable(w, cfg),
        tape::small(x),
        n <= m <= w.blocks.len(),
    ensures
        assemble::lists(
            blocks_params(stack(c, g, w.blocks, cfg, x, m).blocks, n),
            weights::blocks_order(w.blocks, n),
            blocks_decays(n),
        ),
    decreases m,
{
    let s = stack(c, g, w.blocks, cfg, x, m);
    if n == 0 {
    } else if n < m {
        lemma_stack_params(c, g, w, cfg, x, (m - 1) as nat, n);
        lemma_stack(c, g, w, cfg, x, (m - 1) as nat);
        let p = stack(c, g, w.blocks, cfg, x, (m - 1) as nat);
        lemma_blocks_params_prefix(p.blocks, s.blocks, n);
    } else {
        lemma_stack_params(c, g, w, cfg, x, (m - 1) as nat, (n - 1) as nat);
        lemma_stack(c, g, w, cfg, x, (m - 1) as nat);
        let p = stack(c, g, w.blocks, cfg, x, (m - 1) as nat);
        lemma_blocks_params_prefix(p.blocks, s.blocks, (n - 1) as nat);
        assert(blocks::full_fits(cfg, w.blocks[n - 1], cfg.seq_len, cfg.batch_size));
        assemble::block_params_follow_weights(p.ctx, p.emitted, w.blocks[n - 1], cfg, p.x);
        let t = s.blocks[n - 1].tape;
        lemma_lists_add(
            blocks_params(s.blocks, (n - 1) as nat),
            weights::blocks_order(w.blocks, (n - 1) as nat),
            blocks_decays((n - 1) as nat),
            tape::params_of::<TrainOp>(t.nodes, t.nodes.len()),
            weights::block_order(w.blocks[n - 1]),
            assemble::block_decays(),
        );
    }
}

proof fn lemma_blocks_params_prefix(a: Seq<BuiltBlockView>, b: Seq<BuiltBlockView>, n: nat)
    requires
        n <= a.len() <= b.len(),
        forall|i: int| 0 <= i < n ==> #[trigger] a[i] == b[i],
    ensures
        blocks_params(a, n) == blocks_params(b, n),
    decreases n,
{
    if n > 0 {
        lemma_blocks_params_prefix(a, b, (n - 1) as nat);
        assert(a[n - 1] == b[n - 1]);
    }
}

/// What block `i` of a stack on `x` stands on: the stack's input, or what the block
/// before gave.
pub open spec fn stands_on(bs: Seq<BuiltBlockView>, x: Tensor, i: int) -> Tensor {
    if i == 0 {
        x
    } else {
        bs[i - 1].tape.out((assemble::block_output(), 0))
    }
}

proof fn lemma_stands(
    c: Seq<Init>,
    g: Seq<NodeView>,
    w: ModelWeightsView,
    cfg: ModelConfig,
    x: Tensor,
    n: nat,
)
    requires
        trainable(w, cfg),
        n <= w.blocks.len(),
    ensures
        ({
            let s = stack(c, g, w.blocks, cfg, x, n);
            &&& s.blocks.len() == n
            &&& s.x == stands_on(s.blocks, x, n as int)
            &&& forall|i: int|
                0 <= i < n ==> (#[trigger] s.blocks[i]).tape.nodes[0].outputs == seq![
                    stands_on(s.blocks, x, i),
                ]
        }),
    decreases n,
{
    if n > 0 {
        lemma_stands(c, g, w, cfg, x, (n - 1) as nat);
        let p = stack(c, g, w.blocks, cfg, x, (n - 1) as nat);
        let s = stack(c, g, w.blocks, cfg, x, n);
        assert(blocks::full_fits(cfg, w.blocks[n - 1], cfg.seq_len, cfg.batch_size));
        assemble::lemma_block_input(p.ctx, p.emitted, w.blocks[n - 1], cfg, p.x);
        assert forall|i: int| 0 <= i < n implies (#[trigger] s.blocks[i]).tape.nodes[0].outputs
            == seq![stands_on(s.blocks, x, i)] by {
            if i < n - 1 {
                assert(s.blocks[i] == p.blocks[i]);
            }
            if 0 < i {
                assert(s.blocks[i - 1] == p.blocks[i - 1]);
            }
        }
    }
}

/// A model under training passes the stream on: its first block stands on the
/// embedded tokens, every other block on what the block before gave, and its tail on
/// what the last block gave. The embedding reads the model's table, and the tail ends
/// in the model's last norm and head.
pub proof fn blocks_stand_on_each_other(c: Seq<Init>, w: ModelWeightsView, cfg: ModelConfig)
    requires
        trainable(w, cfg),
    ensures
        ({
            let p = parts_build(c, w, cfg).parts;
            let x = p.head.nodes[0].outputs[0];
            let n = w.blocks.len() as int;
            &&& p.blocks.len() == n
            &&& p.head.nodes[0].op->Embedding_0.table == w.embedding
            &&& forall|i: int|
                0 <= i < n ==> (#[trigger] p.blocks[i]).tape.nodes[0].outputs == seq![
                    stands_on(p.blocks, x, i),
                ]
            &&& p.tail.nodes[0].outputs == seq![stands_on(p.blocks, x, n)]
            &&& p.tail.nodes[1].inputs == seq![(NodeId(0), 0usize)]
            &&& p.tail.nodes[1].op->RmsNorm_0.weight == w.final_norm
            &&& p.tail.nodes[2].inputs == seq![(NodeId(1), 0usize)]
            &&& p.tail.nodes[2].op->Linear_0.weight == w.lm_head
            &&& p.logits() == p.tail.nodes[2].outputs[0]
        }),
{
    reveal(parts_build);
    let (c1, g1, head, emb) = head_build(c, w, cfg);
    let x = head.out((NodeId(0), 0));
    lemma_stands(c1, g1, w, cfg, x, w.blocks.len());
    let st = stack(c1, g1, w.blocks, cfg, x, w.blocks.len());
    assert(assemble::leaf_tape(st.x).nodes[0].outputs == seq![st.x]);
}

/// The parameters of a model under training are its weights in checkpoint
/// order, each with a gradient of the same size; every projection decays, and
/// neither the embedding nor a norm does.
pub proof fn params_follow_weights(c: Seq<Init>, w: ModelWeightsView, cfg: ModelConfig)
    requires
        trainable(w, cfg),
    ensures
        assemble::lists(
            parts_params(parts_build(c, w, cfg).parts),
            weights::weight_order(w),
            all_decays(w.blocks.len()),
        ),
{
    reveal(parts_build);
    reveal_with_fuel(tape::params_of, 4);
    let n = w.blocks.len();
    let (c1, g1, head, emb) = head_build(c, w, cfg);
    lemma_head(c, w, cfg);
    let x = head.out((NodeId(0), 0));
    lemma_stack_params(c1, g1, w, cfg, x, n, n);
    lemma_stack(c1, g1, w, cfg, x, n);
    let st = stack(c1, g1, w.blocks, cfg, x, n);
    let (c2, g2, tail) = tail_build(st.ctx, st.emitted, w, cfg, st.x);
    let hp = tape::params_of::<TrainOp>(head.nodes, 1);
    let tp = tape::params_of::<TrainOp>(tail.nodes, 3);
    assert(head.nodes[0].op == TrainOpView::Embedding(emb));
    assert(hp =~= seq![(w.embedding, emb.grad_table, false)]);
    assert(assemble::lists(hp, seq![w.embedding], seq![false]));
    assert(tp.len() == 2);
    assert(assemble::lists(tp, seq![w.final_norm, w.lm_head], seq![false, true]));
    lemma_lists_add(
        hp,
        seq![w.embedding],
        seq![false],
        blocks_params(st.blocks, n),
        weights::blocks_order(w.blocks, n),
        blocks_decays(n),
    );
    lemma_lists_add(
        hp + blocks_params(st.blocks, n),
        seq![w.embedding] + weights::blocks_order(w.blocks, n),
        seq![false] + blocks_decays(n),
        tp,
        seq![w.final_norm, w.lm_head],
        seq![false, true],
    );
}

impl Parts {
    /// All parameters in push order, which is the checkpoint and optimizer-moment
    /// order.
    pub fn params(&self) -> (r: Vec<(Tensor, Tensor, bool)>)
        ensures
            r@ == parts_params(self@),
    {
        let mut r = self.head.params();
        let ghost hp = r@;
        let mut i: usize = 0;
        while i < self.blocks.len()
            invariant
                i <= self.blocks@.len(),
                r@ == hp + blocks_params(self@.blocks, i as nat),
            decreases self.blocks@.len() - i,
        {
            assert(self@.blocks[i as int] == self.blocks@[i as int]@);
            let mut bp = self.blocks[i].tape.params();
            r.append(&mut bp);
            i = i + 1;
            assert(r@ =~= hp + blocks_params(self@.blocks, i as nat));
        }
        let mut tp = self.tail.params();
        r.append(&mut tp);
        r
    }
}

} // verus!
