//! Tapes of whole models: one per training block, one for a prompt, one for a
//! decode step.
use super::arch;
use super::arch::{extend, Ext, Name, Names, NodeSpecView};
use super::blocks;
use super::blocks::transformer_block_specs;
use super::full_seq;
use super::full_seq::{AttentionOpView, LinearOp, RmsNormOp, SiluOp, TrainOp, TrainOpView};
use super::kernels::{GraphBuilder, Train};
use super::tape;
use super::tape::{
    BackState, Backward, Forward, Leaf, NodeId, Out, Redo, Tape, TapeNodeView, TapeView,
};
use super::weights;
use super::weights::BlockWeights;
use crate::config::ModelConfig;
use crate::device::{Context, Init, NodeView, Tensor};
use vstd::prelude::*;

verus! {

// ---- training block ----

pub struct BuiltBlock {
    pub tape: Tape<TrainOp>,
    pub block_input_id: NodeId,
    pub output: NodeId,
}

/// The value of a `BuiltBlock`.
#[verifier::ext_equal]
pub struct BuiltBlockView {
    pub tape: TapeView<TrainOpView>,
    pub block_input_id: NodeId,
    pub output: NodeId,
}

impl View for BuiltBlock {
    type V = BuiltBlockView;

    open spec fn view(&self) -> BuiltBlockView {
        BuiltBlockView {
            tape: self.tape@,
            block_input_id: self.block_input_id,
            output: self.output,
        }
    }
}

/// A tape that holds one leaf.
pub open spec fn leaf_tape(x: Tensor) -> TapeView<TrainOpView> {
    TapeView::<TrainOpView>::empty().pushed(
        TrainOpView::Leaf(Leaf { value: x }),
        Seq::empty(),
        seq![x],
    )
}

/// The extension that builds a training block on input `x`.
pub open spec fn block_start(c: Seq<Init>, g: Seq<NodeView>, x: Tensor) -> Ext<TrainOpView> {
    Ext {
        tape: leaf_tape(x),
        ctx: c,
        emitted: g,
        names: Map::<Name, NodeId>::empty().insert(Name::Input, NodeId(0)),
    }
}

/// The training block that `build_block` builds on input `x`, started with
/// context `c` and dispatches `g`.
#[verifier::opaque]
pub open spec fn block_ext(
    c: Seq<Init>,
    g: Seq<NodeView>,
    bw: BlockWeights,
    cfg: ModelConfig,
    x: Tensor,
) -> Ext<TrainOpView> {
    let (c1, specs) = blocks::train_build(c, bw, cfg);
    arch::ext::<Train, TrainOp>(block_start(c1, g, x), specs, specs.len())
}

/// The block's last node.
pub open spec fn block_output() -> NodeId {
    NodeId(blocks::TRAIN_NODES)
}

pub open spec fn block_view(e: Ext<TrainOpView>) -> BuiltBlockView {
    BuiltBlockView { tape: e.tape, block_input_id: NodeId(0), output: block_output() }
}

// ---- what every pass keeps ----

/// The op without what its last forward pass left in it.
pub open spec fn at_rest(v: TrainOpView) -> TrainOpView {
    match v {
        TrainOpView::Linear(op) => TrainOpView::Linear(LinearOp { saved_input: None, ..op }),
        TrainOpView::RmsNorm(op) => TrainOpView::RmsNorm(RmsNormOp { saved_input: None, ..op }),
        TrainOpView::Silu(op) => TrainOpView::Silu(SiluOp { saved_input: None, ..op }),
        TrainOpView::Attention(op) => TrainOpView::Attention(AttentionOpView { saved: None, ..op }),
        _ => v,
    }
}

/// Neither pass changes an op but for what forward leaves in it.
pub proof fn passes_keep_ops(v: TrainOpView, c: Seq<Init>, xs: Seq<Tensor>)
    ensures
        at_rest(<TrainOp as Forward<Train>>::fwd(v, c, xs).next) == at_rest(v),
        at_rest(<TrainOp as Backward>::bwd(v, c, xs).next) == at_rest(v),
{
}

/// What holds of an op holds of it at rest.
pub proof fn lemma_rest(v: TrainOpView, w: TrainOpView)
    requires
        at_rest(v) == at_rest(w),
    ensures
        <TrainOp as Forward<Train>>::fits(v) == <TrainOp as Forward<Train>>::fits(w),
        <TrainOp as Forward<Train>>::n_in(v) == <TrainOp as Forward<Train>>::n_in(w),
        <TrainOp as Forward<Train>>::n_out(v) == <TrainOp as Forward<Train>>::n_out(w),
        <TrainOp as Backward>::n_grads(v) == <TrainOp as Backward>::n_grads(w),
        <TrainOp as Backward>::spec_param(v) == <TrainOp as Backward>::spec_param(w),
        v is Add == w is Add,
        v is Linear == w is Linear,
        v is RmsNorm == w is RmsNorm,
{
}

/// The node's op fits, has as many inputs as it takes and as many outputs as it
/// gives, and the outputs can be tiled in 32 bits.
pub open spec fn node_sound(n: TapeNodeView<TrainOpView>) -> bool {
    &&& <TrainOp as Forward<Train>>::fits(n.op)
    &&& n.inputs.len() == <TrainOp as Forward<Train>>::n_in(n.op)
    &&& n.outputs.len() == <TrainOp as Forward<Train>>::n_out(n.op)
    &&& tape::all_small(n.outputs)
}

/// Every node is sound and refers to earlier nodes only.
pub open spec fn sound(t: TapeView<TrainOpView>) -> bool {
    &&& t.wf()
    &&& forall|i: int| 0 <= i < t.nodes.len() ==> node_sound(#[trigger] t.nodes[i])
}

/// Same ops at rest, same inputs, as many outputs.
pub open spec fn alike(
    a: Seq<TapeNodeView<TrainOpView>>,
    b: Seq<TapeNodeView<TrainOpView>>,
) -> bool {
    &&& a.len() == b.len()
    &&& forall|i: int|
        0 <= i < a.len() ==> {
            &&& at_rest((#[trigger] a[i]).op) == at_rest(b[i].op)
            &&& a[i].inputs == b[i].inputs
            &&& a[i].outputs.len() == b[i].outputs.len()
        }
}

/// Tapes that are alike list the same parameters.
pub proof fn lemma_alike_params(
    a: Seq<TapeNodeView<TrainOpView>>,
    b: Seq<TapeNodeView<TrainOpView>>,
    n: nat,
)
    requires
        alike(a, b),
        n <= a.len(),
    ensures
        tape::params_of::<TrainOp>(a, n) == tape::params_of::<TrainOp>(b, n),
    decreases n,
{
    if n > 0 {
        lemma_alike_params(a, b, (n - 1) as nat);
        assert(at_rest(a[n - 1].op) == at_rest(b[n - 1].op));
        lemma_rest(a[n - 1].op, b[n - 1].op);
    }
}

proof fn lemma_outs_small(t: TapeView<TrainOpView>, n: int, ins: Seq<Out>)
    requires
        0 <= n <= t.nodes.len(),
        t.has_outs(n, ins),
        forall|i: int| 0 <= i < n ==> tape::all_small((#[trigger] t.nodes[i]).outputs),
    ensures
        tape::all_small(t.outs(ins)),
{
    let xs = t.outs(ins);
    assert forall|m: int| 0 <= m < xs.len() implies tape::small(#[trigger] xs[m]) by {
        assert(t.has_out(n, ins[m]));
        let id = ins[m].0.0 as int;
        assert(tape::all_small(t.nodes[id].outputs));
    }
}

/// Pushing a fitting op on small inputs keeps a tape sound and ready.
pub proof fn lemma_push(t: TapeView<TrainOpView>, v: TrainOpView, c: Seq<Init>, ins: Seq<Out>)
    requires
        sound(t),
        tape::ready::<TrainOp>(t),
        t.has_outs(t.nodes.len() as int, ins),
        tape::fwd_ok::<Train, TrainOp>(v, t.outs(ins)),
    ensures
        ({
            let f = <TrainOp as Forward<Train>>::fwd(v, c, t.outs(ins));
            let e = t.pushed(f.next, ins, f.outs);
            sound(e) && tape::ready::<TrainOp>(e)
        }),
{
    let xs = t.outs(ins);
    let f = <TrainOp as Forward<Train>>::fwd(v, c, xs);
    let e = t.pushed(f.next, ins, f.outs);
    assert forall|i: int| 0 <= i < t.nodes.len() implies tape::all_small(
        (#[trigger] t.nodes[i]).outputs,
    ) by {
        assert(node_sound(t.nodes[i]));
    }
    lemma_outs_small(t, t.nodes.len() as int, ins);
    full_seq::forward_makes_ready(v, c, xs);
    passes_keep_ops(v, c, xs);
    lemma_rest(v, f.next);
    <TrainOp as Forward<Train>>::fwd_gives_n_out(v, c, xs);
    assert forall|i: int| 0 <= i < e.nodes.len() implies node_sound(#[trigger] e.nodes[i])
        && <TrainOp as Backward>::bwd_ready(e.nodes[i].op, e.nodes[i].outputs.len())
        && e.has_outs(i, e.nodes[i].inputs) by {
        if i < t.nodes.len() {
            assert(e.nodes[i] == t.nodes[i]);
            assert(node_sound(t.nodes[i]));
            assert(t.has_outs(i, t.nodes[i].inputs));
            assert forall|k: int| 0 <= k < e.nodes[i].inputs.len() implies e.has_out(
                i,
                #[trigger] e.nodes[i].inputs[k],
            ) by {
                assert(t.has_out(i, t.nodes[i].inputs[k]));
            }
        } else {
            assert forall|k: int| 0 <= k < e.nodes[i].inputs.len() implies e.has_out(
                i,
                #[trigger] e.nodes[i].inputs[k],
            ) by {
                assert(t.has_out(i, ins[k]));
            }
        }
    }
}

/// Where a second forward pass over a sound tape stands after `k` nodes.
proof fn lemma_redo(t: TapeView<TrainOpView>, s: Redo<TrainOpView>, k: nat)
    requires
        sound(t),
        s.nodes == t.nodes,
        k <= t.nodes.len(),
    ensures
        ({
            let p = tape::redo::<Train, TrainOp>(s, k);
            &&& alike(p.nodes, t.nodes)
            &&& forall|i: int| 0 <= i < p.nodes.len() ==> node_sound(#[trigger] p.nodes[i])
            &&& forall|i: int|
                0 <= i < k ==> <TrainOp as Backward>::bwd_ready(
                    (#[trigger] p.nodes[i]).op,
                    p.nodes[i].outputs.len(),
                )
            &&& k < t.nodes.len() ==> {
                let v = TapeView { nodes: p.nodes, grads: Seq::empty() };
                let node = p.nodes[k as int];
                &&& v.has_outs(k as int, node.inputs)
                &&& tape::fwd_ok::<Train, TrainOp>(node.op, v.outs(node.inputs))
                &&& tape::all_small(v.outs(node.inputs))
            }
        }),
    decreases k,
{
    let p = tape::redo::<Train, TrainOp>(s, k);
    if k > 0 {
        lemma_redo(t, s, (k - 1) as nat);
        let q = tape::redo::<Train, TrainOp>(s, (k - 1) as nat);
        let node = q.nodes[k - 1];
        let xs = (TapeView { nodes: q.nodes, grads: Seq::empty() }).outs(node.inputs);
        let f = <TrainOp as Forward<Train>>::fwd(node.op, q.ctx, xs);
        full_seq::forward_makes_ready(node.op, q.ctx, xs);
        passes_keep_ops(node.op, q.ctx, xs);
        lemma_rest(node.op, f.next);
        <TrainOp as Forward<Train>>::fwd_gives_n_out(node.op, q.ctx, xs);
        assert(node_sound(node));
        assert forall|i: int| 0 <= i < p.nodes.len() implies node_sound(#[trigger] p.nodes[i]) by {
            if i != k - 1 {
                assert(p.nodes[i] == q.nodes[i]);
            }
        }
        assert forall|i: int| 0 <= i < k implies <TrainOp as Backward>::bwd_ready(
            (#[trigger] p.nodes[i]).op,
            p.nodes[i].outputs.len(),
        ) by {
            if i != k - 1 {
                assert(p.nodes[i] == q.nodes[i]);
            }
        }
        assert forall|i: int| 0 <= i < p.nodes.len() implies {
            &&& at_rest((#[trigger] p.nodes[i]).op) == at_rest(t.nodes[i].op)
            &&& p.nodes[i].inputs == t.nodes[i].inputs
            &&& p.nodes[i].outputs.len() == t.nodes[i].outputs.len()
        } by {
            assert(at_rest(q.nodes[i].op) == at_rest(t.nodes[i].op));
        }
    }
    if k < t.nodes.len() {
        let v = TapeView { nodes: p.nodes, grads: Seq::empty() };
        let node = p.nodes[k as int];
        assert(node.inputs == t.nodes[k as int].inputs);
        assert(t.has_outs(k as int, t.nodes[k as int].inputs));
        assert forall|m: int| 0 <= m < node.inputs.len() implies v.has_out(
            k as int,
            #[trigger] node.inputs[m],
        ) by {
            assert(t.has_out(k as int, t.nodes[k as int].inputs[m]));
            let id = node.inputs[m].0.0 as int;
            assert(p.nodes[id].outputs.len() == t.nodes[id].outputs.len());
        }
        assert forall|i: int| 0 <= i < k implies tape::all_small((#[trigger] v.nodes[i]).outputs) by {
            assert(node_sound(p.nodes[i]));
        }
        lemma_outs_small(v, k as int, node.inputs);
        assert(node_sound(node));
    }
}

/// The state of a second forward pass over `t`.
pub open spec fn redo_start(t: TapeView<TrainOpView>, c: Seq<Init>, g: Seq<NodeView>) -> Redo<
    TrainOpView,
> {
    Redo { nodes: t.nodes, ctx: c, emitted: g }
}

/// `t` after a second forward pass.
pub open spec fn redone(t: TapeView<TrainOpView>, c: Seq<Init>, g: Seq<NodeView>) -> Redo<
    TrainOpView,
> {
    tape::redo::<Train, TrainOp>(redo_start(t, c, g), t.nodes.len())
}

pub open spec fn redone_tape(t: TapeView<TrainOpView>, c: Seq<Init>, g: Seq<NodeView>) -> TapeView<
    TrainOpView,
> {
    TapeView { nodes: redone(t, c, g).nodes, ..t }
}

/// A sound tape can always run forward again, stays the same but for what
/// forward leaves in its ops, and can run backward afterward.
pub proof fn forward_can_run_again(t: TapeView<TrainOpView>, c: Seq<Init>, g: Seq<NodeView>)
    requires
        sound(t),
    ensures
        tape::redo_ok::<Train, TrainOp>(redo_start(t, c, g)),
        sound(redone_tape(t, c, g)),
        tape::ready::<TrainOp>(redone_tape(t, c, g)),
        alike(redone_tape(t, c, g).nodes, t.nodes),
{
    let s = redo_start(t, c, g);
    let n = t.nodes.len();
    assert forall|k: nat| k < s.nodes.len() implies {
        let p = #[trigger] tape::redo::<Train, TrainOp>(s, k);
        let node = p.nodes[k as int];
        let v = TapeView { nodes: p.nodes, grads: Seq::empty() };
        &&& v.has_outs(k as int, node.inputs)
        &&& tape::fwd_ok::<Train, TrainOp>(node.op, v.outs(node.inputs))
    } by {
        lemma_redo(t, s, k);
    }
    lemma_redo(t, s, n);
    let e = redone_tape(t, c, g);
    assert forall|i: int| 0 <= i < e.nodes.len() implies e.has_outs(
        i,
        (#[trigger] e.nodes[i]).inputs,
    ) by {
        assert(t.has_outs(i, t.nodes[i].inputs));
        assert(e.nodes[i].inputs == t.nodes[i].inputs);
        assert forall|m: int| 0 <= m < e.nodes[i].inputs.len() implies e.has_out(
            i,
            #[trigger] e.nodes[i].inputs[m],
        ) by {
            assert(t.has_out(i, t.nodes[i].inputs[m]));
            let id = e.nodes[i].inputs[m].0.0 as int;
            assert(e.nodes[id].outputs.len() == t.nodes[id].outputs.len());
        }
    }
    assert forall|i: int| 0 <= i < e.nodes.len() implies <TrainOp as Backward>::bwd_ready(
        (#[trigger] e.nodes[i]).op,
        e.nodes[i].outputs.len(),
    ) && tape::all_small(e.nodes[i].outputs) by {
        assert(node_sound(e.nodes[i]));
    }
}

proof fn lemma_back_ops(
    nodes: Seq<TapeNodeView<TrainOpView>>,
    s: BackState<TrainOpView>,
    k: nat,
)
    requires
        k <= nodes.len(),
        s.ops.len() == nodes.len(),
    ensures
        ({
            let e = tape::back::<TrainOp>(nodes, s, k);
            &&& e.ops.len() == nodes.len()
            &&& forall|i: int|
                0 <= i < nodes.len() ==> at_rest(#[trigger] e.ops[i]) == at_rest(s.ops[i])
        }),
    decreases k,
{
    if k > 0 {
        lemma_back_ops(nodes, s, (k - 1) as nat);
        let p = tape::back::<TrainOp>(nodes, s, (k - 1) as nat);
        let at = nodes.len() - k;
        let (c, filled) = tape::fill(p.ctx, p.grads[at], nodes[at].outputs, nodes[at].outputs.len());
        passes_keep_ops(p.ops[at], c, filled);
    }
}

/// `t` after a backward pass from `output`.
pub open spec fn backed(
    t: TapeView<TrainOpView>,
    c: Seq<Init>,
    g: Seq<NodeView>,
    output: Out,
    grad: Tensor,
) -> TapeView<TrainOpView> {
    tape::back_tape(t, tape::back_all::<TrainOp>(t, c, g, output, grad))
}

/// A backward pass leaves a sound tape sound, with the same ops at rest.
pub proof fn backward_keeps_tape(
    t: TapeView<TrainOpView>,
    c: Seq<Init>,
    g: Seq<NodeView>,
    output: Out,
    grad: Tensor,
)
    requires
        sound(t),
    ensures
        sound(backed(t, c, g, output, grad)),
        alike(backed(t, c, g, output, grad).nodes, t.nodes),
{
    let s = tape::back_start(t.nodes, c, g, output, grad);
    lemma_back_ops(t.nodes, s, t.nodes.len());
    let e = backed(t, c, g, output, grad);
    let b = tape::back_all::<TrainOp>(t, c, g, output, grad);
    assert forall|i: int| 0 <= i < e.nodes.len() implies node_sound(#[trigger] e.nodes[i])
        && e.has_outs(i, e.nodes[i].inputs) && at_rest(e.nodes[i].op) == at_rest(t.nodes[i].op) by {
        assert(at_rest(b.ops[i]) == at_rest(s.ops[i]));
        lemma_rest(b.ops[i], t.nodes[i].op);
        assert(node_sound(t.nodes[i]));
        assert(t.has_outs(i, t.nodes[i].inputs));
        assert forall|m: int| 0 <= m < e.nodes[i].inputs.len() implies e.has_out(
            i,
            #[trigger] e.nodes[i].inputs[m],
        ) by {
            assert(t.has_out(i, t.nodes[i].inputs[m]));
        }
    }
}

/// The first `k` nodes of an extension are sound and can run backward.
proof fn lemma_ext_ready(s: Ext<TrainOpView>, specs: Seq<NodeSpecView<TrainOpView>>, k: nat)
    requires
        arch::startable(s, specs.len()),
        arch::wired::<Train, TrainOp>(specs),
        k <= specs.len(),
        sound(s.tape),
        tape::ready::<TrainOp>(s.tape),
    ensures
        sound(arch::ext::<Train, TrainOp>(s, specs, k).tape),
        tape::ready::<TrainOp>(arch::ext::<Train, TrainOp>(s, specs, k).tape),
    decreases k,
{
    if k > 0 {
        lemma_ext_ready(s, specs, (k - 1) as nat);
        arch::lemma_ext::<Train, TrainOp>(s, specs, (k - 1) as nat);
        let p = arch::ext::<Train, TrainOp>(s, specs, (k - 1) as nat);
        let ins = arch::resolve(p.names, specs[k - 1].inputs);
        lemma_push(p.tape, specs[k - 1].op, p.ctx, ins);
    }
}

/// An addition stays one when it runs.
proof fn lemma_add_stays(v: TrainOpView, c: Seq<Init>, xs: Seq<Tensor>)
    requires
        v is Add,
    ensures
        <TrainOp as Forward<Train>>::fwd(v, c, xs).next is Add,
        <TrainOp as Forward<Train>>::n_out(v) == 1,
{
}

/// Where the two additions of a block stand once its specs are on the tape.
proof fn lemma_additions(s: Ext<TrainOpView>, specs: Seq<NodeSpecView<TrainOpView>>)
    requires
        s.tape.nodes.len() == 1,
        s.names.contains_key(Name::Input),
        s.names[Name::Input] == NodeId(0),
        arch::startable(s, specs.len()),
        arch::wired::<Train, TrainOp>(specs),
        specs.len() == blocks::TRAIN_NODES,
        specs[6].name == Name::Add1,
        specs[6].inputs == seq![(Name::Input, 0usize), (Name::Proj, 0usize)],
        specs[6].op is Add,
        specs[11].inputs == seq![(Name::Add1, 0usize), (Name::Down, 0usize)],
        specs[11].op is Add,
    ensures
        ({
            let t = arch::ext::<Train, TrainOp>(s, specs, specs.len()).tape;
            linked(t.nodes)
        }),
{
    let (c6, xs6) = arch::lemma_ext_at::<Train, TrainOp>(s, specs, 6);
    let (c11, xs11) = arch::lemma_ext_at::<Train, TrainOp>(s, specs, 11);
    lemma_add_stays(specs[6].op, c6, xs6);
    lemma_add_stays(specs[11].op, c11, xs11);
    let t = arch::ext::<Train, TrainOp>(s, specs, specs.len()).tape;
    assert(t.nodes[1 + 6int] == t.nodes[7]);
    assert(t.nodes[1 + 11int] == t.nodes[12]);
}

/// A training block's last addition leads over the first one to its input.
pub open spec fn linked(nodes: Seq<TapeNodeView<TrainOpView>>) -> bool {
    &&& nodes.len() == blocks::TRAIN_NODES + 1
    &&& nodes[12].op is Add
    &&& nodes[12].outputs.len() == 1
    &&& nodes[12].inputs.len() == 2
    &&& nodes[12].inputs[0] == (NodeId(7), 0usize)
    &&& nodes[7].op is Add
    &&& nodes[7].inputs.len() == 2
    &&& nodes[7].inputs[0] == (NodeId(0), 0usize)
}

/// A training block is in order as built.
pub proof fn lemma_block(
    c: Seq<Init>,
    g: Seq<NodeView>,
    bw: BlockWeights,
    cfg: ModelConfig,
    x: Tensor,
)
    requires
        blocks::full_fits(cfg, bw, cfg.seq_len, cfg.batch_size),
        tape::small(x),
    ensures
        ({
            let t = block_ext(c, g, bw, cfg, x).tape;
            &&& sound(t)
            &&& tape::ready::<TrainOp>(t)
            &&& linked(t.nodes)
        }),
{
    reveal(block_ext);
    let (c1, specs) = blocks::train_build(c, bw, cfg);
    let s = block_start(c1, g, x);
    blocks::lemma_train_wired(c, bw, cfg);
    assert(s.tape.nodes[0].outputs.len() == 1);
    assert(s.tape.nodes[0].outputs[0] == x);
    assert(arch::startable(s, specs.len()));
    assert(tape::ready::<TrainOp>(s.tape));
    assert(sound(s.tape));
    lemma_ext_ready(s, specs, specs.len());
    lemma_additions(s, specs);
}

/// A training block starts with a leaf that holds its input.
pub(crate) proof fn lemma_block_input(
    c: Seq<Init>,
    g: Seq<NodeView>,
    bw: BlockWeights,
    cfg: ModelConfig,
    x: Tensor,
)
    requires
        blocks::full_fits(cfg, bw, cfg.seq_len, cfg.batch_size),
    ensures
        block_ext(c, g, bw, cfg, x).tape.nodes[0].outputs == seq![x],
        block_ext(c, g, bw, cfg, x).tape.nodes[0].op is Leaf,
{
    reveal(block_ext);
    let (c1, specs) = blocks::train_build(c, bw, cfg);
    let s = block_start(c1, g, x);
    blocks::lemma_train_wired(c, bw, cfg);
    assert(s.tape.nodes[0].outputs.len() == 1);
    assert(arch::startable(s, specs.len()));
    arch::lemma_ext::<Train, TrainOp>(s, specs, specs.len());
    assert(arch::ext::<Train, TrainOp>(s, specs, specs.len()).tape.nodes[0] == s.tape.nodes[0]);
}

/// Builds one block on the tape of its own.
pub fn build_block(
    ctx: &mut Context,
    gb: &mut GraphBuilder<Train>,
    bw: &BlockWeights,
    cfg: &ModelConfig,
    block_input: Tensor,
) -> (r: BuiltBlock)
    requires
        blocks::full_fits(*cfg, *bw, cfg.seq_len, cfg.batch_size),
        tape::small(block_input),
    ensures
        ({
            let e = block_ext(old(ctx)@, old(gb).graph@, *bw, *cfg, block_input);
            &&& final(ctx)@ == e.ctx
            &&& final(gb).graph@ == e.emitted
            &&& r@ == block_view(e)
        }),
{
    let ghost c = ctx@;
    let ghost g = gb.graph@;
    let mut tape: Tape<TrainOp> = Tape::new();
    let block_input_id = tape.input(ctx, gb, block_input);
    assert(gb.graph@ =~= g);
    let mut names = Names::new();
    names.insert(Name::Input, block_input_id);
    let specs = transformer_block_specs(ctx, bw, cfg);
    proof {
        reveal(block_ext);
        blocks::lemma_train_wired(c, *bw, *cfg);
        assert(tape@ =~= leaf_tape(block_input));
        assert(leaf_tape(block_input).nodes[0].outputs.len() == 1);
    }
    let output = extend(&mut tape, ctx, gb, &mut names, specs);
    BuiltBlock { tape, block_input_id, output }
}

/// A backward pass over a training block always reaches the block's input.
pub proof fn block_backward_reaches_input(
    t: TapeView<TrainOpView>,
    c: Seq<Init>,
    g: Seq<NodeView>,
    grad: Tensor,
)
    requires
        sound(t),
        linked(t.nodes),
    ensures
        backed(t, c, g, (block_output(), 0), grad).grad_of((NodeId(0), 0)) is Some,
{
    let out = (block_output(), 0usize);
    let s = tape::back_all::<TrainOp>(t, c, g, out, grad);
    let e = backed(t, c, g, out, grad);
    tape::gradients_reach_inputs::<TrainOp>(t, c, g, out, grad);
    assert(s.grads[12].len() == t.nodes[12].outputs.len());
    assert(s.grads[12][0] == Some(grad));
    assert(!tape::all_none(s.grads[12]));
    assert(e.grad_of(t.nodes[12].inputs[0]) is Some);
    assert(s.grads[7][0] is Some);
    assert(!tape::all_none(s.grads[7]));
    assert(e.grad_of(t.nodes[7].inputs[0]) is Some);
}

/// The slots that each node of a training block takes in. Node 0 is the block's
/// input.
pub open spec fn block_inputs(i: int) -> Seq<Out> {
    if i == 0 {
        Seq::empty()
    } else if i == 4 {
        seq![(NodeId(3), 0usize), (NodeId(3), 1usize)]
    } else if i == 5 {
        seq![(NodeId(4), 0usize), (NodeId(4), 1usize), (NodeId(3), 2usize)]
    } else if i == 7 {
        seq![(NodeId(0), 0usize), (NodeId(6), 0usize)]
    } else if i == 12 {
        seq![(NodeId(7), 0usize), (NodeId(11), 0usize)]
    } else {
        seq![(NodeId((i - 1) as usize), 0usize)]
    }
}

/// The nodes are those of a training block.
pub open spec fn block_wired(nodes: Seq<TapeNodeView<TrainOpView>>) -> bool {
    &&& linked(nodes)
    &&& nodes[7].outputs.len() == 1
    &&& forall|i: int|
        0 <= i < nodes.len() ==> (#[trigger] nodes[i]).inputs == block_inputs(i)
            && nodes[i].outputs.len() >= 1
}

proof fn lemma_gives_output(v: TrainOpView)
    ensures
        <TrainOp as Forward<Train>>::n_out(v) >= 1,
{
}

/// The names of a block, resolved to the nodes they stand for.
proof fn lemma_resolved(names: Map<Name, NodeId>, k: int)
    requires
        0 <= k < blocks::TRAIN_NODES,
        names[Name::Input] == NodeId(0),
        forall|j: int|
            0 <= j < k ==> names[#[trigger] blocks::train_name(j)] == NodeId((j + 1) as usize),
    ensures
        arch::resolve(names, blocks::train_inputs(k)) == block_inputs(k + 1),
{
    let r = arch::resolve(names, blocks::train_inputs(k));
    if k == 3 {
        assert(names[blocks::train_name(2)] == NodeId(3));
    } else if k == 4 {
        assert(names[blocks::train_name(2)] == NodeId(3));
        assert(names[blocks::train_name(3)] == NodeId(4));
    } else if k == 6 {
        assert(names[blocks::train_name(5)] == NodeId(6));
    } else if k == 11 {
        assert(names[blocks::train_name(6)] == NodeId(7));
        assert(names[blocks::train_name(10)] == NodeId(11));
    } else if k > 0 {
        assert(names[blocks::train_name(k - 1)] == NodeId(k as usize));
    }
    assert(r =~= block_inputs(k + 1));
}

proof fn lemma_wiring(s: Ext<TrainOpView>, specs: Seq<NodeSpecView<TrainOpView>>)
    requires
        s.tape.nodes.len() == 1,
        s.tape.nodes[0].inputs == Seq::<Out>::empty(),
        s.tape.nodes[0].outputs.len() == 1,
        s.names.contains_key(Name::Input),
        s.names[Name::Input] == NodeId(0),
        arch::startable(s, specs.len()),
        arch::wired::<Train, TrainOp>(specs),
        specs.len() == blocks::TRAIN_NODES,
        specs[6].op is Add,
        forall|k: int|
            0 <= k < specs.len() ==> (#[trigger] specs[k]).name == blocks::train_name(k)
                && specs[k].inputs == blocks::train_inputs(k),
    ensures
        ({
            let nodes = arch::ext::<Train, TrainOp>(s, specs, specs.len()).tape.nodes;
            &&& nodes[7].outputs.len() == 1
            &&& forall|i: int|
                0 <= i < nodes.len() ==> (#[trigger] nodes[i]).inputs == block_inputs(i)
                    && nodes[i].outputs.len() >= 1
        }),
{
    arch::lemma_ext::<Train, TrainOp>(s, specs, specs.len());
    let e = arch::ext::<Train, TrainOp>(s, specs, specs.len());
    assert(e.tape.nodes[1 + 6int].outputs.len() == <TrainOp as Forward<Train>>::n_out(specs[6].op));
    assert forall|j: int| 0 <= j < specs.len() implies e.names[#[trigger] blocks::train_name(j)]
        == NodeId((j + 1) as usize) by {
        assert(specs[j].name == blocks::train_name(j));
    }
    assert forall|i: int| 0 <= i < e.tape.nodes.len() implies (#[trigger] e.tape.nodes[i]).inputs
        == block_inputs(i) && e.tape.nodes[i].outputs.len() >= 1 by {
        if i == 0 {
            assert(e.tape.nodes[0] == s.tape.nodes[0]);
        } else {
            let k = i - 1;
            assert(e.tape.nodes[1 + k].inputs == arch::resolve(e.names, specs[k].inputs));
            lemma_resolved(e.names, k);
            lemma_gives_output(specs[k].op);
        }
    }
}

/// Every node of a training block takes in what the block's plan says: the
/// residual stream runs over the two additions, past attention and past the
/// feed-forward layers.
pub proof fn blocks_are_wired(
    c: Seq<Init>,
    g: Seq<NodeView>,
    bw: BlockWeights,
    cfg: ModelConfig,
    x: Tensor,
)
    requires
        blocks::full_fits(cfg, bw, cfg.seq_len, cfg.batch_size),
        tape::small(x),
    ensures
        block_wired(block_ext(c, g, bw, cfg, x).tape.nodes),
{
    lemma_block(c, g, bw, cfg, x);
    reveal(block_ext);
    let (c1, specs) = blocks::train_build(c, bw, cfg);
    let s = block_start(c1, g, x);
    blocks::lemma_train_wired(c, bw, cfg);
    blocks::lemma_train_inputs(c, bw, cfg);
    assert(s.tape.nodes[0].outputs.len() == 1);
    assert(arch::startable(s, specs.len()));
    lemma_wiring(s, specs);
}

/// The state of a block's backward pass after the turns of its last `k` nodes.
pub open spec fn block_back(
    t: TapeView<TrainOpView>,
    c: Seq<Init>,
    g: Seq<NodeView>,
    grad: Tensor,
    k: nat,
) -> tape::BackState<TrainOpView> {
    tape::back::<TrainOp>(
        t.nodes,
        tape::back_start(t.nodes, c, g, (block_output(), 0), grad),
        k,
    )
}

/// An addition hands one buffer back for both of its inputs. In a block that
/// buffer is the one that holds the gradient of the block's output, and adding
/// into it never comes too early: whatever else contributes to an addition's first
/// input has its turn after the node behind the second input has had its own, and
/// nothing else contributes to the second.
pub proof fn shared_gradients_are_used_first(
    t: TapeView<TrainOpView>,
    c: Seq<Init>,
    g: Seq<NodeView>,
    grad: Tensor,
    add: int,
    j: int,
    m: int,
)
    requires
        t.wf(),
        block_wired(t.nodes),
        add == 7 || add == 12,
        0 <= j < t.nodes.len(),
        0 <= m < block_inputs(j).len(),
        j != add,
    ensures
        ({
            let n = t.nodes.len();
            let handed = block_back(t, c, g, grad, (n - add) as nat);
            let first = block_inputs(add)[0];
            let second = block_inputs(add)[1];
            let used = block_back(t, c, g, grad, (n - second.0.0) as nat);
            let before = block_back(t, c, g, grad, (n - 1 - j) as nat);
            &&& handed.grads[first.0.0 as int][0] == Some(grad)
            &&& handed.grads[second.0.0 as int][0] == Some(grad)
            &&& block_inputs(j)[m] == first ==> j < second.0.0 && used.nodes.is_prefix_of(before.nodes)
            &&& block_inputs(j)[m] != second
        }),
{
    let n = t.nodes.len();
    let s0 = tape::back_start(t.nodes, c, g, (block_output(), 0), grad);
    let second = block_inputs(add)[1];
    lemma_handed(t, c, g, grad);
    if block_inputs(j)[m] == block_inputs(add)[0] {
        tape::lemma_back_grows::<TrainOp>(t, s0, (n - second.0.0) as nat, (n - 1 - j) as nat);
    }
}

/// The gradient of a block's input ends up in the buffer that held the gradient of
/// its output.
pub proof fn block_gradient_stays_in_place(
    t: TapeView<TrainOpView>,
    c: Seq<Init>,
    g: Seq<NodeView>,
    grad: Tensor,
)
    requires
        t.wf(),
        block_wired(t.nodes),
    ensures
        backed(t, c, g, (block_output(), 0), grad).grad_of((NodeId(0), 0)) == Some(grad),
{
    let s0 = tape::back_start(t.nodes, c, g, (block_output(), 0), grad);
    lemma_handed(t, c, g, grad);
    tape::lemma_back_grows::<TrainOp>(t, s0, 6, t.nodes.len());
    tape::lemma_back::<TrainOp>(t, s0, t.nodes.len());
    let s = tape::back_all::<TrainOp>(t, c, g, (block_output(), 0), grad);
    assert(t.nodes[0].outputs.len() >= 1);
    assert(s.grads[0].len() == t.nodes[0].outputs.len());
    assert(s.grads[0][0] == Some(grad));
}

/// At the turn of an addition that holds `grad`, both of its inputs get `grad`,
/// where they have no gradient yet.
proof fn lemma_add_turn(t: TapeView<TrainOpView>, s: tape::BackState<TrainOpView>, add: int, grad: Tensor)
    requires
        t.wf(),
        block_wired(t.nodes),
        add == 7 || add == 12,
        tape::same_shape(t.nodes, s.grads),
        s.ops[add] == t.nodes[add].op,
        s.grads[add][0] == Some(grad),
        s.grads[block_inputs(add)[0].0.0 as int][0] is None,
        s.grads[block_inputs(add)[1].0.0 as int][0] is None,
    ensures
        ({
            let after = tape::back_step::<TrainOp>(t.nodes, s, add);
            &&& after.grads[block_inputs(add)[0].0.0 as int][0] == Some(grad)
            &&& after.grads[block_inputs(add)[1].0.0 as int][0] == Some(grad)
        }),
{
    let node = t.nodes[add];
    assert(node.inputs == block_inputs(add));
    assert(!tape::all_none(s.grads[add]));
    let (c, filled) = tape::fill(s.ctx, s.grads[add], node.outputs, 1);
    assert(filled =~= seq![grad]) by {
        reveal_with_fuel(tape::fill, 2);
    }
    let b = <TrainOp as Backward>::bwd(s.ops[add], c, filled);
    assert(b.grads =~= seq![grad, grad]);
    let emitted = s.nodes + b.nodes;
    let inputs = node.inputs;
    let (g0, n0) = tape::route(s.grads, emitted, inputs, b.grads, 0);
    let (g1, n1) = tape::route(s.grads, emitted, inputs, b.grads, 1);
    let (g2, n2) = tape::route(s.grads, emitted, inputs, b.grads, 2);
    let first = inputs[0].0.0 as int;
    let second = inputs[1].0.0 as int;
    assert(t.nodes[first].outputs.len() >= 1 && t.nodes[second].outputs.len() >= 1);
    assert(s.grads[first].len() >= 1 && s.grads[second].len() >= 1);
    assert(g1[first][0] == Some(grad));
    assert(g1[second][0] is None);
    assert(g2[second][0] == Some(grad));
    assert(tape::routed(node, b.grads) == 2);
}

/// What the two additions of a block hand back.
pub(crate) proof fn lemma_handed(t: TapeView<TrainOpView>, c: Seq<Init>, g: Seq<NodeView>, grad: Tensor)
    requires
        t.wf(),
        block_wired(t.nodes),
    ensures
        ({
            let last = block_back(t, c, g, grad, 1);
            let mid = block_back(t, c, g, grad, 6);
            &&& last.grads[7][0] == Some(grad)
            &&& last.grads[11][0] == Some(grad)
            &&& mid.grads[0][0] == Some(grad)
            &&& mid.grads[6][0] == Some(grad)
        }),
{
    let s0 = tape::back_start(t.nodes, c, g, (block_output(), 0), grad);
    assert(t.nodes[0].outputs.len() >= 1 && t.nodes[6].outputs.len() >= 1 && t.nodes[7].outputs.len()
        >= 1 && t.nodes[11].outputs.len() >= 1);
    assert(s0.grads[12][0] == Some(grad));
    assert(tape::back::<TrainOp>(t.nodes, s0, 0) == s0);
    lemma_add_turn(t, s0, 12, grad);
    let last = block_back(t, c, g, grad, 1);
    assert(last == tape::back_step::<TrainOp>(t.nodes, s0, 12));
    tape::lemma_back::<TrainOp>(t, s0, 5);
    tape::lemma_back_grows::<TrainOp>(t, s0, 1, 5);
    let p = block_back(t, c, g, grad, 5);
    assert(p.grads[7][0] == Some(grad));
    assert forall|i: int, m: int|
        t.nodes.len() - 5 <= i < t.nodes.len() && 0 <= m < t.nodes[i].inputs.len() implies (
    #[trigger] t.nodes[i].inputs[m]).0 != NodeId(0) && t.nodes[i].inputs[m].0 != NodeId(6) by {
        assert(t.nodes[i].inputs == block_inputs(i));
    }
    tape::lemma_back_untouched::<TrainOp>(t, s0, 5, (NodeId(0), 0usize));
    tape::lemma_back_untouched::<TrainOp>(t, s0, 5, (NodeId(6), 0usize));
    lemma_add_turn(t, p, 7, grad);
    assert(block_back(t, c, g, grad, 6) == tape::back_step::<TrainOp>(t.nodes, p, 7));
}

/// Tapes that are alike are linked alike.
pub proof fn lemma_alike_linked(
    a: Seq<TapeNodeView<TrainOpView>>,
    b: Seq<TapeNodeView<TrainOpView>>,
)
    requires
        alike(a, b),
        linked(b),
    ensures
        linked(a),
{
    assert(at_rest(a[12].op) == at_rest(b[12].op));
    assert(at_rest(a[7].op) == at_rest(b[7].op));
    lemma_rest(a[12].op, b[12].op);
    lemma_rest(a[7].op, b[7].op);
}

/// The parameters of a list of specs, in order.
spec fn spec_params(specs: Seq<NodeSpecView<TrainOpView>>, n: nat) -> Seq<(Tensor, Tensor, bool)>
    decreases n,
{
    if n == 0 {
        Seq::empty()
    } else {
        let rest = spec_params(specs, (n - 1) as nat);
        match <TrainOp as Backward>::spec_param(specs[n - 1].op) {
            Some(p) => rest.push(p),
            None => rest,
        }
    }
}

proof fn lemma_ext_params(s: Ext<TrainOpView>, specs: Seq<NodeSpecView<TrainOpView>>, n: nat)
    requires
        s.tape.nodes.len() == 1,
        s.tape.nodes[0].op is Leaf,
        arch::startable(s, specs.len()),
        arch::wired::<Train, TrainOp>(specs),
        n <= specs.len(),
    ensures
        tape::params_of::<TrainOp>(
            arch::ext::<Train, TrainOp>(s, specs, specs.len()).tape.nodes,
            n + 1,
        ) == spec_params(specs, n),
    decreases n,
{
    let e = arch::ext::<Train, TrainOp>(s, specs, specs.len());
    arch::lemma_ext::<Train, TrainOp>(s, specs, specs.len());
    if n > 0 {
        lemma_ext_params(s, specs, (n - 1) as nat);
        let p = arch::ext::<Train, TrainOp>(s, specs, (n - 1) as nat);
        let node = e.tape.nodes[n as int];
        assert(e.tape.nodes[1 + (n - 1)] == node);
        assert(specs[n - 1] == specs[n - 1]);
        passes_keep_ops(specs[n - 1].op, p.ctx, p.tape.outs(node.inputs));
        lemma_rest(node.op, specs[n - 1].op);
    } else {
        assert(e.tape.nodes[0] == s.tape.nodes[0]);
        assert(tape::params_of::<TrainOp>(e.tape.nodes, 0) =~= Seq::empty());
        reveal_with_fuel(tape::params_of, 2);
    }
}

/// Which weights of a block decay: the projections do, the norms do not.
pub open spec fn block_decays() -> Seq<bool> {
    seq![false, true, true, false, true, true]
}

/// `ps` lists `ws` in order with the given decay flags, each with a gradient as
/// large as the weight.
pub open spec fn lists(ps: Seq<(Tensor, Tensor, bool)>, ws: Seq<Tensor>, decays: Seq<bool>) -> bool {
    &&& ps.len() == ws.len() == decays.len()
    &&& forall|i: int|
        0 <= i < ps.len() ==> {
            &&& (#[trigger] ps[i]).0 == ws[i]
            &&& ps[i].2 == decays[i]
            &&& tape::elems(ps[i].1) == tape::elems(ws[i])
        }
}

proof fn lemma_train_params(c: Seq<Init>, bw: BlockWeights, cfg: ModelConfig)
    requires
        blocks::full_fits(cfg, bw, cfg.seq_len, cfg.batch_size),
    ensures
        ({
            let s = blocks::train_build(c, bw, cfg).1;
            s.len() == 12 && lists(spec_params(s, 12), weights::block_order(bw), block_decays())
        }),
{
    reveal(blocks::train_build);
    reveal_with_fuel(spec_params, 13);
    let s = blocks::train_build(c, bw, cfg).1;
    let ps = spec_params(s, 12);
    assert(ps =~= seq![
        <TrainOp as Backward>::spec_param(s[0].op)->0,
        <TrainOp as Backward>::spec_param(s[1].op)->0,
        <TrainOp as Backward>::spec_param(s[5].op)->0,
        <TrainOp as Backward>::spec_param(s[7].op)->0,
        <TrainOp as Backward>::spec_param(s[8].op)->0,
        <TrainOp as Backward>::spec_param(s[10].op)->0,
    ]);
}

/// A training block lists the block's weights in checkpoint order.
pub proof fn block_params_follow_weights(
    c: Seq<Init>,
    g: Seq<NodeView>,
    bw: BlockWeights,
    cfg: ModelConfig,
    x: Tensor,
)
    requires
        blocks::full_fits(cfg, bw, cfg.seq_len, cfg.batch_size),
        tape::small(x),
    ensures
        ({
            let t = block_ext(c, g, bw, cfg, x).tape;
            lists(
                tape::params_of::<TrainOp>(t.nodes, t.nodes.len()),
                weights::block_order(bw),
                block_decays(),
            )
        }),
{
    reveal(block_ext);
    let (c1, specs) = blocks::train_build(c, bw, cfg);
    let s = block_start(c1, g, x);
    blocks::lemma_train_wired(c, bw, cfg);
    assert(s.tape.nodes[0].outputs.len() == 1);
    lemma_ext_params(s, specs, specs.len());
    arch::lemma_ext::<Train, TrainOp>(s, specs, specs.len());
    lemma_train_params(c, bw, cfg);
}

} // verus!
