//! Autograd DAG. A `Tape` is an append-only node list; a node's inputs are
//! `(NodeId, output_slot)` pairs into earlier entries. Push order is a valid
//! topological order for forward, since a node can only reference a node that
//! already exists; iterating in reverse is one for backward.
//!
//! An output slot with more than one consumer receives more than one gradient
//! contribution during backward, and those are summed before that node's own
//! backward runs.
use super::kernels::emit;
use super::kernels::meta::Meta;
use super::kernels::{GraphBuilder, Phase, Train};
use crate::device;
use crate::device::{Context, Init, NodeView, Tensor};
use vstd::prelude::*;

verus! {

/// Handle to a node already on the tape.
#[derive(Clone, Copy, Debug, PartialEq, Eq, Structural)]
pub struct NodeId(pub usize);

/// A specific output slot of a node -- almost always slot `0`.
pub type Out = (NodeId, usize);

/// Number of 32-bit elements of a tensor.
pub open spec fn elems(t: Tensor) -> int {
    t.size as int / 4
}

/// The tensor's elements can be tiled in 32 bits.
pub open spec fn small(t: Tensor) -> bool {
    elems(t) + 255 <= u32::MAX
}

pub open spec fn all_small(ts: Seq<Tensor>) -> bool {
    forall|i: int| 0 <= i < ts.len() ==> small(#[trigger] ts[i])
}

/// `n` zero-initialized elements.
pub fn zeros(ctx: &mut Context, n: u32) -> (r: Tensor)
    ensures
        final(ctx)@ == device::push_zeros(old(ctx)@, n as int),
        r == device::next_zeros(old(ctx)@, n as int),
{
    ctx.zeros(n)
}

/// A zeroed buffer the same size as `t`.
pub fn zeros_like(ctx: &mut Context, t: Tensor) -> (r: Tensor)
    requires
        elems(t) <= u32::MAX,
    ensures
        final(ctx)@ == device::push_zeros(old(ctx)@, elems(t)),
        r == device::next_zeros(old(ctx)@, elems(t)),
{
    ctx.zeros((t.size / 4) as u32)
}

fn elem_count(t: Tensor) -> (r: u32)
    requires
        elems(t) <= u32::MAX,
    ensures
        r == elems(t),
{
    (t.size / 4) as u32
}

/// What an op's forward pass leaves: buffers, dispatches, outputs, and the op
/// with whatever its backward pass needs.
#[verifier::ext_equal]
pub struct Fwd<V> {
    pub ctx: Seq<Init>,
    pub nodes: Seq<NodeView>,
    pub outs: Seq<Tensor>,
    pub next: V,
}

/// What an op's backward pass leaves: buffers, dispatches, and the gradient of
/// each input.
#[verifier::ext_equal]
pub struct Bwd<V> {
    pub ctx: Seq<Init>,
    pub nodes: Seq<NodeView>,
    pub grads: Seq<Tensor>,
    pub next: V,
}

/// An op that can stand on a tape; `V` is its value.
pub trait TapeOp: Sized {
    type V;

    spec fn v(&self) -> Self::V;
}

/// An op with a forward pass in phase `P`.
pub trait Forward<P: Phase>: TapeOp {
    /// The op's sizes can be computed with in 32 bits.
    spec fn fits(v: Self::V) -> bool;

    /// Number of inputs.
    spec fn n_in(v: Self::V) -> nat;

    /// Number of outputs.
    spec fn n_out(v: Self::V) -> nat;

    /// The forward pass of `v` on inputs `xs`, started in context `c`.
    spec fn fwd(v: Self::V, c: Seq<Init>, xs: Seq<Tensor>) -> Fwd<Self::V>;

    proof fn fwd_gives_n_out(v: Self::V, c: Seq<Init>, xs: Seq<Tensor>)
        ensures
            Self::fwd(v, c, xs).outs.len() == Self::n_out(v),
    ;

    fn forward(&mut self, ctx: &mut Context, gb: &mut GraphBuilder<P>, xs: &Vec<Tensor>) -> (r: Vec<
        Tensor,
    >)
        requires
            Self::fits(old(self).v()),
            xs@.len() == Self::n_in(old(self).v()),
        ensures
            ({
                let f = Self::fwd(old(self).v(), old(ctx)@, xs@);
                &&& final(ctx)@ == f.ctx
                &&& final(gb).graph@ == old(gb).graph@ + f.nodes
                &&& r@ == f.outs
                &&& final(self).v() == f.next
            }),
    ;
}

/// The op accepts these inputs.
pub open spec fn fwd_ok<P: Phase, Op: Forward<P>>(v: Op::V, xs: Seq<Tensor>) -> bool {
    <Op as Forward<P>>::fits(v) && xs.len() == <Op as Forward<P>>::n_in(v)
}

/// An op with a backward pass.
pub trait Backward: TapeOp {
    /// The op has run forward and can take the gradients of `n` outputs.
    spec fn bwd_ready(v: Self::V, n: nat) -> bool;

    /// The backward pass of `v` on output gradients `gs`, started in context `c`.
    spec fn bwd(v: Self::V, c: Seq<Init>, gs: Seq<Tensor>) -> Bwd<Self::V>;

    /// Number of input gradients that the backward pass gives.
    spec fn n_grads(v: Self::V) -> nat;

    proof fn bwd_gives_n_grads(v: Self::V, c: Seq<Init>, gs: Seq<Tensor>)
        ensures
            Self::bwd(v, c, gs).grads.len() == Self::n_grads(v),
    ;

    /// The op's weight, its gradient, and whether weight decay applies.
    spec fn spec_param(v: Self::V) -> Option<(Tensor, Tensor, bool)>;

    proof fn bwd_keeps_param(v: Self::V, c: Seq<Init>, gs: Seq<Tensor>)
        ensures
            Self::spec_param(Self::bwd(v, c, gs).next) == Self::spec_param(v),
    ;

    fn backward(
        &mut self,
        ctx: &mut Context,
        gb: &mut GraphBuilder<Train>,
        grad_outputs: &Vec<Tensor>,
    ) -> (r: Vec<Tensor>)
        requires
            Self::bwd_ready(old(self).v(), grad_outputs@.len()),
            all_small(grad_outputs@),
        ensures
            ({
                let b = Self::bwd(old(self).v(), old(ctx)@, grad_outputs@);
                &&& final(ctx)@ == b.ctx
                &&& final(gb).graph@ == old(gb).graph@ + b.nodes
                &&& r@ == b.grads
                &&& final(self).v() == b.next
                &&& all_small(b.grads)
            }),
    ;

    fn param(&self) -> (r: Option<(Tensor, Tensor, bool)>)
        ensures
            r == Self::spec_param(self.v()),
    ;
}

/// An op with metas that follow the decode position.
pub trait Advance: TapeOp {
    /// The op can take position `step`.
    spec fn advance_ok(v: Self::V, step: u32) -> bool;

    /// The op at position `step`.
    spec fn advanced(v: Self::V, step: u32) -> Self::V;

    /// The meta buffers that change with it, and what is written to them.
    spec fn writes(v: Self::V, step: u32) -> Seq<(Tensor, Meta)>;

    fn advance(&mut self, step: u32) -> (r: Vec<(Tensor, Meta)>)
        requires
            Self::advance_ok(old(self).v(), step),
        ensures
            final(self).v() == Self::advanced(old(self).v(), step),
            r@ == Self::writes(old(self).v(), step),
    ;
}

pub struct TapeNode<Op> {
    pub op: Op,
    pub inputs: Vec<Out>,
    pub outputs: Vec<Tensor>,
}

/// The value of a `TapeNode`.
#[verifier::ext_equal]
pub struct TapeNodeView<V> {
    pub op: V,
    pub inputs: Seq<Out>,
    pub outputs: Seq<Tensor>,
}

impl<Op: TapeOp> View for TapeNode<Op> {
    type V = TapeNodeView<Op::V>;

    open spec fn view(&self) -> TapeNodeView<Op::V> {
        TapeNodeView { op: self.op.v(), inputs: self.inputs@, outputs: self.outputs@ }
    }
}

/// A DAG of ops with the gradients that the last backward pass left.
pub struct Tape<Op> {
    pub nodes: Vec<TapeNode<Op>>,
    pub grads: Vec<Vec<Option<Tensor>>>,
}

/// The value of a `Tape`.
#[verifier::ext_equal]
pub struct TapeView<V> {
    pub nodes: Seq<TapeNodeView<V>>,
    pub grads: Seq<Seq<Option<Tensor>>>,
}

/// The values of a list of rows.
pub open spec fn rows(g: Seq<Vec<Option<Tensor>>>) -> Seq<Seq<Option<Tensor>>> {
    Seq::new(g.len(), |i: int| g[i]@)
}

impl<Op: TapeOp> View for Tape<Op> {
    type V = TapeView<Op::V>;

    open spec fn view(&self) -> TapeView<Op::V> {
        TapeView {
            nodes: Seq::new(self.nodes@.len(), |i: int| self.nodes@[i]@),
            grads: rows(self.grads@),
        }
    }
}

impl<V> TapeView<V> {
    pub open spec fn empty() -> Self {
        TapeView { nodes: Seq::empty(), grads: Seq::empty() }
    }

    /// `out` names an output of one of the first `n` nodes.
    pub open spec fn has_out(self, n: int, out: Out) -> bool {
        out.0.0 < n && out.1 < self.nodes[out.0.0 as int].outputs.len()
    }

    /// Every input names an output of one of the first `n` nodes.
    pub open spec fn has_outs(self, n: int, inputs: Seq<Out>) -> bool {
        forall|k: int| 0 <= k < inputs.len() ==> self.has_out(n, #[trigger] inputs[k])
    }

    /// Every node refers to earlier nodes only.
    pub open spec fn wf(self) -> bool {
        forall|i: int|
            0 <= i < self.nodes.len() ==> self.has_outs(i, (#[trigger] self.nodes[i]).inputs)
    }

    /// The tensor of an output slot.
    pub open spec fn out(self, out: Out) -> Tensor {
        self.nodes[out.0.0 as int].outputs[out.1 as int]
    }

    /// The tensors of a list of output slots.
    pub open spec fn outs(self, inputs: Seq<Out>) -> Seq<Tensor> {
        Seq::new(inputs.len(), |k: int| self.out(inputs[k]))
    }

    /// The tape with one more node.
    pub open spec fn pushed(self, op: V, inputs: Seq<Out>, outputs: Seq<Tensor>) -> Self {
        TapeView { nodes: self.nodes.push(TapeNodeView { op, inputs, outputs }), ..self }
    }

    /// The total gradient of an output slot, if any reached it.
    pub open spec fn grad_of(self, out: Out) -> Option<Tensor> {
        if out.0.0 < self.grads.len() && out.1 < self.grads[out.0.0 as int].len() {
            self.grads[out.0.0 as int][out.1 as int]
        } else {
            None
        }
    }
}

/// A value that already exists: no inputs, and its backward pass is where
/// propagation stops.
#[derive(Clone, Copy, Debug, PartialEq, Eq, Structural)]
pub struct Leaf {
    pub value: Tensor,
}

/// An op set that has leaves.
pub trait FromLeaf: TapeOp {
    spec fn spec_leaf(x: Leaf) -> Self::V;

    fn from_leaf(x: Leaf) -> (r: Self)
        ensures
            r.v() == Self::spec_leaf(x),
    ;
}

// ---- backward ----

/// No slot has a gradient.
pub open spec fn all_none(g: Seq<Option<Tensor>>) -> bool {
    forall|i: int| 0 <= i < g.len() ==> (#[trigger] g[i]) is None
}

/// The first `n` slots with a zeroed buffer for each that has no gradient, and
/// the context with those buffers.
pub open spec fn fill(
    c: Seq<Init>,
    slots: Seq<Option<Tensor>>,
    outs: Seq<Tensor>,
    n: nat,
) -> (Seq<Init>, Seq<Tensor>)
    decreases n,
{
    if n == 0 {
        (c, Seq::empty())
    } else {
        let (c1, fs) = fill(c, slots, outs, (n - 1) as nat);
        match slots[n - 1] {
            Some(t) => (c1, fs.push(t)),
            None => (
                device::push_zeros(c1, elems(outs[n - 1])),
                fs.push(device::next_zeros(c1, elems(outs[n - 1]))),
            ),
        }
    }
}

/// Hands the first `n` input gradients to the slots they belong to. A slot that
/// already has a gradient accumulates the new one on the device.
pub open spec fn route(
    grads: Seq<Seq<Option<Tensor>>>,
    nodes: Seq<NodeView>,
    inputs: Seq<Out>,
    igs: Seq<Tensor>,
    n: nat,
) -> (Seq<Seq<Option<Tensor>>>, Seq<NodeView>)
    decreases n,
{
    if n == 0 {
        (grads, nodes)
    } else {
        let (g, ns) = route(grads, nodes, inputs, igs, (n - 1) as nat);
        let id = inputs[n - 1].0.0 as int;
        let slot = inputs[n - 1].1 as int;
        match g[id][slot] {
            None => (g.update(id, g[id].update(slot, Some(igs[n - 1]))), ns),
            Some(e) => (g, ns.push(emit::add_inplace_bwd_node(e, igs[n - 1], elems(e) as u32))),
        }
    }
}

/// A backward pass under way.
#[verifier::ext_equal]
pub struct BackState<V> {
    pub ctx: Seq<Init>,
    pub nodes: Seq<NodeView>,
    pub grads: Seq<Seq<Option<Tensor>>>,
    pub ops: Seq<V>,
}

/// How many inputs of node `i` receive a gradient.
pub open spec fn routed<V>(n: TapeNodeView<V>, igs: Seq<Tensor>) -> nat {
    if n.inputs.len() <= igs.len() {
        n.inputs.len()
    } else {
        igs.len()
    }
}

/// Node `i`'s turn: nothing if no gradient reached it; else its own backward
/// pass, and its input gradients on their way.
pub open spec fn back_step<Op: Backward>(
    nodes: Seq<TapeNodeView<Op::V>>,
    s: BackState<Op::V>,
    i: int,
) -> BackState<Op::V> {
    if all_none(s.grads[i]) {
        s
    } else {
        let (c, filled) = fill(s.ctx, s.grads[i], nodes[i].outputs, nodes[i].outputs.len());
        let b = Op::bwd(s.ops[i], c, filled);
        let (g, ns) = route(
            s.grads,
            s.nodes + b.nodes,
            nodes[i].inputs,
            b.grads,
            routed(nodes[i], b.grads),
        );
        BackState { ctx: b.ctx, nodes: ns, grads: g, ops: s.ops.update(i, b.next) }
    }
}

/// The state after the turns of the last `k` nodes, last node first.
pub open spec fn back<Op: Backward>(
    nodes: Seq<TapeNodeView<Op::V>>,
    s: BackState<Op::V>,
    k: nat,
) -> BackState<Op::V>
    decreases k,
{
    if k == 0 {
        s
    } else {
        back_step::<Op>(nodes, back::<Op>(nodes, s, (k - 1) as nat), nodes.len() - k)
    }
}

/// The state in which a backward pass starts: only `output` has a gradient.
pub open spec fn back_start<V>(
    nodes: Seq<TapeNodeView<V>>,
    c: Seq<Init>,
    g: Seq<NodeView>,
    output: Out,
    grad_output: Tensor,
) -> BackState<V> {
    let none = Seq::new(
        nodes.len(),
        |i: int| Seq::new(nodes[i].outputs.len(), |k: int| None::<Tensor>),
    );
    let id = output.0.0 as int;
    BackState {
        ctx: c,
        nodes: g,
        grads: none.update(id, none[id].update(output.1 as int, Some(grad_output))),
        ops: Seq::new(nodes.len(), |i: int| nodes[i].op),
    }
}

/// The state after a whole backward pass.
pub open spec fn back_all<Op: Backward>(
    t: TapeView<Op::V>,
    c: Seq<Init>,
    g: Seq<NodeView>,
    output: Out,
    grad_output: Tensor,
) -> BackState<Op::V> {
    back::<Op>(
        t.nodes,
        back_start(t.nodes, c, g, output, grad_output),
        t.nodes.len(),
    )
}

/// The tape after that pass.
pub open spec fn back_tape<V>(t: TapeView<V>, s: BackState<V>) -> TapeView<V> {
    TapeView {
        nodes: Seq::new(
            t.nodes.len(),
            |i: int|
                TapeNodeView { op: s.ops[i], inputs: t.nodes[i].inputs, outputs: t.nodes[i].outputs },
        ),
        grads: s.grads,
    }
}

/// Every op has run forward and can take the gradients of its outputs.
pub open spec fn ready<Op: Backward>(t: TapeView<Op::V>) -> bool {
    forall|i: int|
        0 <= i < t.nodes.len() ==> Op::bwd_ready(
            (#[trigger] t.nodes[i]).op,
            t.nodes[i].outputs.len(),
        ) && all_small(t.nodes[i].outputs)
}

/// The rows of `g` match the outputs of the nodes, and every gradient is small.
pub open spec fn grads_fit<V>(nodes: Seq<TapeNodeView<V>>, g: Seq<Seq<Option<Tensor>>>) -> bool {
    &&& g.len() == nodes.len()
    &&& forall|i: int| 0 <= i < g.len() ==> (#[trigger] g[i]).len() == nodes[i].outputs.len()
    &&& forall|i: int, k: int|
        0 <= i < g.len() && 0 <= k < g[i].len() && (#[trigger] g[i][k]) is Some ==> small(
            g[i][k]->0,
        )
}

proof fn lemma_fill(c: Seq<Init>, slots: Seq<Option<Tensor>>, outs: Seq<Tensor>, n: nat)
    requires
        n <= slots.len() == outs.len(),
        all_small(outs),
        forall|k: int| 0 <= k < slots.len() && (#[trigger] slots[k]) is Some ==> small(slots[k]->0),
    ensures
        fill(c, slots, outs, n).1.len() == n,
        all_small(fill(c, slots, outs, n).1),
    decreases n,
{
    if n > 0 {
        lemma_fill(c, slots, outs, (n - 1) as nat);
        let (c1, fs) = fill(c, slots, outs, (n - 1) as nat);
        let r = fill(c, slots, outs, n).1;
        assert(small(outs[n - 1]));
        assert forall|i: int| 0 <= i < r.len() implies small(#[trigger] r[i]) by {
            if i < n - 1 {
                assert(r[i] == fs[i]);
            }
        }
    }
}

proof fn lemma_route<V>(
    nodes: Seq<TapeNodeView<V>>,
    grads: Seq<Seq<Option<Tensor>>>,
    emitted: Seq<NodeView>,
    at: int,
    igs: Seq<Tensor>,
    n: nat,
)
    requires
        0 <= at < nodes.len(),
        grads_fit(nodes, grads),
        (TapeView { nodes, grads }).has_outs(at, nodes[at].inputs),
        n <= nodes[at].inputs.len(),
        n <= igs.len(),
        all_small(igs),
    ensures
        ({
            let inputs = nodes[at].inputs;
            let g = route(grads, emitted, inputs, igs, n).0;
            &&& grads_fit(nodes, g)
            &&& forall|i: int| at <= i < g.len() ==> #[trigger] g[i] == grads[i]
            &&& forall|i: int, k: int|
                0 <= i < g.len() && 0 <= k < g[i].len() && grads[i][k] is Some ==> (
                #[trigger] g[i][k]) == grads[i][k]
            &&& forall|m: int|
                0 <= m < n ==> g[(#[trigger] inputs[m]).0.0 as int][inputs[m].1 as int] is Some
        }),
    decreases n,
{
    if n > 0 {
        let inputs = nodes[at].inputs;
        lemma_route(nodes, grads, emitted, at, igs, (n - 1) as nat);
        let (g, ns) = route(grads, emitted, inputs, igs, (n - 1) as nat);
        let g2 = route(grads, emitted, inputs, igs, n).0;
        let id = inputs[n - 1].0.0 as int;
        let slot = inputs[n - 1].1 as int;
        assert((TapeView { nodes, grads }).has_out(at, inputs[n - 1]));
        assert(g[id].len() == nodes[id].outputs.len());
        assert(small(igs[n - 1]));
        if g[id][slot] is None {
            assert(g2 == g.update(id, g[id].update(slot, Some(igs[n - 1]))));
            assert forall|i: int, k: int|
                0 <= i < g2.len() && 0 <= k < g2[i].len() && (#[trigger] g2[i][k])
                    is Some implies small(g2[i][k]->0) by {
                if i == id && k == slot {
                } else if i == id {
                    assert(g2[i][k] == g[i][k]);
                } else {
                    assert(g2[i] == g[i]);
                }
            }
            assert forall|i: int, k: int|
                0 <= i < g2.len() && 0 <= k < g2[i].len() && grads[i][k] is Some implies (
            #[trigger] g2[i][k]) == grads[i][k] by {
                assert(g[i][k] == grads[i][k]);
            }
            assert forall|m: int| 0 <= m < n implies g2[(#[trigger] inputs[m]).0.0 as int][inputs[m].1 as int]
                is Some by {
                if m < n - 1 {
                    assert(g[inputs[m].0.0 as int][inputs[m].1 as int] is Some);
                }
            }
        }
    }
}

/// The values of a list of nodes.
pub open spec fn node_views<Op: TapeOp>(nodes: Seq<TapeNode<Op>>) -> Seq<TapeNodeView<Op::V>> {
    Seq::new(nodes.len(), |i: int| nodes[i]@)
}

impl<Op: TapeOp> Tape<Op> {
    pub fn new() -> (r: Self)
        ensures
            r@ == TapeView::<Op::V>::empty(),
            r@.wf(),
    {
        let r = Tape { nodes: Vec::new(), grads: Vec::new() };
        assert(r@ =~= TapeView::<Op::V>::empty());
        r
    }

    /// Slot 0 of `id`'s output(s) -- the common case.
    pub fn output(&self, id: NodeId) -> (r: Tensor)
        requires
            self@.has_out(self@.nodes.len() as int, (id, 0)),
        ensures
            r == self@.out((id, 0)),
    {
        self.nodes[id.0].outputs[0]
    }

    pub fn output_slot(&self, out: Out) -> (r: Tensor)
        requires
            self@.has_out(self@.nodes.len() as int, out),
        ensures
            r == self@.out(out),
    {
        self.nodes[out.0.0].outputs[out.1]
    }

    /// A node's total accumulated gradient after `backward()`. `None` before
    /// `backward()` runs, or if nothing routed a gradient to it.
    pub fn grad_of(&self, out: Out) -> (r: Option<Tensor>)
        ensures
            r == self@.grad_of(out),
    {
        if out.0.0 < self.grads.len() {
            if out.1 < self.grads[out.0.0].len() {
                return self.grads[out.0.0][out.1];
            }
        }
        None
    }

    /// The tensors of a list of output slots.
    fn values(&self, inputs: &Vec<Out>) -> (r: Vec<Tensor>)
        requires
            self@.has_outs(self@.nodes.len() as int, inputs@),
        ensures
            r@ == self@.outs(inputs@),
    {
        let mut r: Vec<Tensor> = Vec::new();
        let mut i: usize = 0;
        while i < inputs.len()
            invariant
                i <= inputs@.len(),
                self@.has_outs(self@.nodes.len() as int, inputs@),
                r@ == self@.outs(inputs@).subrange(0, i as int),
            decreases inputs@.len() - i,
        {
            assert(self@.has_out(self@.nodes.len() as int, inputs@[i as int]));
            let v = self.output_slot(inputs[i]);
            r.push(v);
            i = i + 1;
            assert(r@ =~= self@.outs(inputs@).subrange(0, i as int));
        }
        assert(r@ =~= self@.outs(inputs@));
        r
    }

    /// Runs `op.forward(inputs' values)`, records it, returns its handle.
    pub fn push<P: Phase>(
        &mut self,
        ctx: &mut Context,
        gb: &mut GraphBuilder<P>,
        op: Op,
        inputs: Vec<Out>,
    ) -> (r: NodeId) where Op: Forward<P>
        requires
            old(self)@.wf(),
            old(self)@.has_outs(old(self)@.nodes.len() as int, inputs@),
            fwd_ok::<P, Op>(op.v(), old(self)@.outs(inputs@)),
        ensures
            ({
                let f = <Op as Forward<P>>::fwd(op.v(), old(ctx)@, old(self)@.outs(inputs@));
                &&& final(ctx)@ == f.ctx
                &&& final(gb).graph@ == old(gb).graph@ + f.nodes
                &&& final(self)@ == old(self)@.pushed(f.next, inputs@, f.outs)
                &&& r == NodeId(old(self)@.nodes.len() as usize)
            }),
            final(self)@.wf(),
            r.0 == old(self)@.nodes.len(),
    {
        let ghost before = self@;
        let xs = self.values(&inputs);
        let mut op = op;
        let outputs = op.forward(ctx, gb, &xs);
        let id: usize = self.nodes.len();
        self.nodes.push(TapeNode { op, inputs, outputs });
        proof {
            let after = self@;
            assert(after =~= before.pushed(op.v(), inputs@, outputs@));
            assert forall|i: int| 0 <= i < after.nodes.len() implies after.has_outs(
                i,
                (#[trigger] after.nodes[i]).inputs,
            ) by {
                if i < before.nodes.len() {
                    assert(before.has_outs(i, before.nodes[i].inputs));
                    assert forall|k: int|
                        0 <= k < after.nodes[i].inputs.len() implies after.has_out(
                        i,
                        #[trigger] after.nodes[i].inputs[k],
                    ) by {
                        assert(before.has_out(i, before.nodes[i].inputs[k]));
                    }
                } else {
                    assert forall|k: int|
                        0 <= k < after.nodes[i].inputs.len() implies after.has_out(
                        i,
                        #[trigger] after.nodes[i].inputs[k],
                    ) by {
                        assert(before.has_out(i, inputs@[k]));
                    }
                }
            }
        }
        NodeId(id)
    }

    /// Registers a value that already exists (a block's own input, or another
    /// tape's output) as a node other nodes can reference.
    pub fn input<P: Phase>(
        &mut self,
        ctx: &mut Context,
        gb: &mut GraphBuilder<P>,
        x: Tensor,
    ) -> (r: NodeId) where Op: Forward<P> + FromLeaf
        requires
            old(self)@.wf(),
            fwd_ok::<P, Op>(Op::spec_leaf(Leaf { value: x }), Seq::empty()),
        ensures
            ({
                let f = <Op as Forward<P>>::fwd(
                    Op::spec_leaf(Leaf { value: x }),
                    old(ctx)@,
                    Seq::empty(),
                );
                &&& final(ctx)@ == f.ctx
                &&& final(gb).graph@ == old(gb).graph@ + f.nodes
                &&& final(self)@ == old(self)@.pushed(f.next, Seq::empty(), f.outs)
            }),
            final(self)@.wf(),
            r.0 == old(self)@.nodes.len(),
    {
        let inputs: Vec<Out> = Vec::new();
        proof {
            assert(self@.outs(inputs@) =~= Seq::empty());
        }
        self.push(ctx, gb, Op::from_leaf(Leaf { value: x }), inputs)
    }
}

fn has_grad(g: &Vec<Option<Tensor>>) -> (r: bool)
    ensures
        r == !all_none(g@),
{
    let mut i: usize = 0;
    while i < g.len()
        invariant
            i <= g@.len(),
            forall|k: int| 0 <= k < i ==> (#[trigger] g@[k]) is None,
        decreases g@.len() - i,
    {
        if g[i].is_some() {
            assert(g@[i as int] is Some);
            return true;
        }
        i = i + 1;
    }
    false
}

/// One gradient per output slot; a slot nobody wrote to gets a zeroed one.
fn fill_slots(ctx: &mut Context, slots: &Vec<Option<Tensor>>, outs: &Vec<Tensor>) -> (r: Vec<Tensor>)
    requires
        slots@.len() == outs@.len(),
        all_small(outs@),
    ensures
        (final(ctx)@, r@) == fill(old(ctx)@, slots@, outs@, outs@.len()),
{
    let ghost c = ctx@;
    let mut r: Vec<Tensor> = Vec::new();
    let mut i: usize = 0;
    while i < slots.len()
        invariant
            i <= slots@.len() == outs@.len(),
            all_small(outs@),
            (ctx@, r@) == fill(c, slots@, outs@, i as nat),
        decreases slots@.len() - i,
    {
        assert(small(outs@[i as int]));
        match slots[i] {
            Some(t) => r.push(t),
            None => {
                let z = zeros_like(ctx, outs[i]);
                r.push(z);
            },
        }
        i = i + 1;
    }
    r
}

fn set_slot(grads: &mut Vec<Vec<Option<Tensor>>>, id: usize, slot: usize, g: Tensor)
    requires
        id < old(grads)@.len(),
        slot < old(grads)@[id as int]@.len(),
    ensures
        rows(final(grads)@) == rows(old(grads)@).update(
            id as int,
            rows(old(grads)@)[id as int].update(slot as int, Some(g)),
        ),
{
    let ghost before = rows(grads@);
    grads[id][slot] = Some(g);
    assert(rows(grads@) =~= before.update(id as int, before[id as int].update(slot as int, Some(g))));
}

/// Hands the input gradients of one node on.
fn route_all(
    gb: &mut GraphBuilder<Train>,
    grads: &mut Vec<Vec<Option<Tensor>>>,
    inputs: &Vec<Out>,
    igs: &Vec<Tensor>,
    n: usize,
)
    requires
        n <= inputs@.len(),
        n <= igs@.len(),
        all_small(igs@),
        forall|k: int|
            0 <= k < inputs@.len() ==> (#[trigger] inputs@[k]).0.0 < old(grads)@.len()
                && inputs@[k].1 < old(grads)@[inputs@[k].0.0 as int]@.len(),
        forall|i: int, k: int|
            0 <= i < old(grads)@.len() && 0 <= k < old(grads)@[i]@.len()
                && (#[trigger] old(grads)@[i]@[k]) is Some ==> small(old(grads)@[i]@[k]->0),
    ensures
        (rows(final(grads)@), final(gb).graph@) == route(
            rows(old(grads)@),
            old(gb).graph@,
            inputs@,
            igs@,
            n as nat,
        ),
{
    let ghost g0 = rows(grads@);
    let ghost ns = gb.graph@;
    let mut i: usize = 0;
    while i < n
        invariant
            i <= n,
            n <= inputs@.len(),
            n <= igs@.len(),
            all_small(igs@),
            forall|k: int|
                0 <= k < inputs@.len() ==> (#[trigger] inputs@[k]).0.0 < grads@.len()
                    && inputs@[k].1 < grads@[inputs@[k].0.0 as int]@.len(),
            forall|i: int, k: int|
                0 <= i < grads@.len() && 0 <= k < grads@[i]@.len() && (#[trigger] grads@[i]@[k])
                    is Some ==> small(grads@[i]@[k]->0),
            (rows(grads@), gb.graph@) == route(g0, ns, inputs@, igs@, i as nat),
        decreases n - i,
    {
        let id: usize = inputs[i].0.0;
        let slot: usize = inputs[i].1;
        assert(inputs@[i as int].0.0 < grads@.len());
        assert(small(igs@[i as int]));
        let ghost before = grads@;
        assert(rows(before)[id as int] == before[id as int]@);
        match grads[id][slot] {
            None => {
                set_slot(grads, id, slot, igs[i]);
                proof {
                    assert(rows(grads@).len() == rows(before).len());
                    assert forall|j: int| 0 <= j < grads@.len() implies {
                        &&& (#[trigger] grads@[j])@.len() == before[j]@.len()
                        &&& forall|k: int|
                            0 <= k < grads@[j]@.len() && (j != id || k != slot)
                                ==> #[trigger] grads@[j]@[k] == before[j]@[k]
                    } by {
                        assert(grads@[j]@ == rows(grads@)[j]);
                        assert(before[j]@ == rows(before)[j]);
                    }
                    assert forall|j: int, k: int|
                        0 <= j < grads@.len() && 0 <= k < grads@[j]@.len() && (#[trigger] grads@[j]@[k])
                            is Some implies small(grads@[j]@[k]->0) by {
                        if j == id && k == slot {
                            assert(rows(grads@)[j][k] == Some(igs@[i as int]));
                        } else {
                            assert(grads@[j]@[k] == before[j]@[k]);
                        }
                    }
                }
            },
            Some(existing) => {
                assert(small(before[id as int]@[slot as int]->0));
                emit::add_inplace_bwd(gb, existing, igs[i], elem_count(existing));
            },
        }
        i = i + 1;
    }
}

impl<Op: Backward> Tape<Op> {
    /// Seeds `output`'s gradient with `grad_output`, walks every node in
    /// reverse, and accumulates whenever more than one node routes a
    /// contribution to the same earlier output slot. Read a leaf's total via
    /// `grad_of` afterward.
    pub fn backward(
        &mut self,
        ctx: &mut Context,
        gb: &mut GraphBuilder<Train>,
        output: Out,
        grad_output: Tensor,
    )
        requires
            old(self)@.wf(),
            ready::<Op>(old(self)@),
            old(self)@.has_out(old(self)@.nodes.len() as int, output),
            small(grad_output),
        ensures
            ({
                let s = back_all::<Op>(
                    old(self)@,
                    old(ctx)@,
                    old(gb).graph@,
                    output,
                    grad_output,
                );
                &&& final(ctx)@ == s.ctx
                &&& final(gb).graph@ == s.nodes
                &&& final(self)@ == back_tape(old(self)@, s)
            }),
            grads_fit(old(self)@.nodes, final(self)@.grads),
    {
        let ghost t = self@;
        let ghost start = back_start(t.nodes, ctx@, gb.graph@, output, grad_output);
        let n: usize = self.nodes.len();
        let mut grads: Vec<Vec<Option<Tensor>>> = Vec::new();
        let mut i: usize = 0;
        while i < n
            invariant
                i <= n == self.nodes@.len(),
                t == self@,
                grads@.len() == i,
                forall|k: int|
                    0 <= k < i ==> (#[trigger] grads@[k])@ == Seq::new(
                        t.nodes[k].outputs.len(),
                        |j: int| None::<Tensor>,
                    ),
            decreases n - i,
        {
            let mut row: Vec<Option<Tensor>> = Vec::new();
            let m: usize = self.nodes[i].outputs.len();
            let mut j: usize = 0;
            while j < m
                invariant
                    j <= m,
                    row@ == Seq::new(j as nat, |j: int| None::<Tensor>),
                decreases m - j,
            {
                row.push(None);
                j = j + 1;
                assert(row@ =~= Seq::new(j as nat, |j: int| None::<Tensor>));
            }
            assert(row@ == Seq::new(t.nodes[i as int].outputs.len(), |j: int| None::<Tensor>));
            grads.push(row);
            i = i + 1;
        }
        set_slot(&mut grads, output.0.0, output.1, grad_output);
        assert(rows(grads@) =~= start.grads);
        let mut k: usize = 0;
        assert(Seq::new(n as nat, |j: int| self.nodes@[j].op.v()) =~= start.ops);
        proof {
            let g = start.grads;
            assert forall|i: int, k: int|
                0 <= i < g.len() && 0 <= k < g[i].len() && (#[trigger] g[i][k]) is Some implies small(
                g[i][k]->0,
            ) by {}
        }
        while k < n
            invariant
                k <= n == self.nodes@.len(),
                n == t.nodes.len(),
                t.wf(),
                ready::<Op>(t),
                ({
                    let s = back::<Op>(t.nodes, start, k as nat);
                    &&& ctx@ == s.ctx
                    &&& gb.graph@ == s.nodes
                    &&& rows(grads@) == s.grads
                    &&& Seq::new(n as nat, |j: int| self.nodes@[j].op.v()) == s.ops
                }),
                grads_fit(t.nodes, rows(grads@)),
                forall|j: int|
                    0 <= j < n ==> {
                        &&& (#[trigger] self.nodes@[j]).inputs@ == t.nodes[j].inputs
                        &&& self.nodes@[j].outputs@ == t.nodes[j].outputs
                    },
                forall|j: int| 0 <= j < n - k ==> (#[trigger] self.nodes@[j]).op.v() == t.nodes[j].op,
            decreases n - k,
        {
            let ghost s = back::<Op>(t.nodes, start, k as nat);
            let at: usize = n - 1 - k;
            assert(rows(grads@)[at as int] == grads@[at as int]@);
            if has_grad(&grads[at]) {
                assert(t.has_outs(at as int, t.nodes[at as int].inputs));
                assert(self.nodes@[at as int].inputs@ == t.nodes[at as int].inputs);
                assert(all_small(t.nodes[at as int].outputs));
                proof {
                    let g = s.grads;
                    assert forall|m: int|
                        0 <= m < g[at as int].len() && (#[trigger] g[at as int][m])
                            is Some implies small(g[at as int][m]->0) by {}
                    lemma_fill(
                        s.ctx,
                        g[at as int],
                        t.nodes[at as int].outputs,
                        t.nodes[at as int].outputs.len(),
                    );
                }
                let filled = fill_slots(ctx, &grads[at], &self.nodes[at].outputs);
                let ghost c1 = ctx@;
                let ghost ops_before = Seq::new(n as nat, |j: int| self.nodes@[j].op.v());
                let ghost ns_before = self.nodes@;
                let igs = self.nodes[at].op.backward(ctx, gb, &filled);
                let m: usize = if self.nodes[at].inputs.len() <= igs.len() {
                    self.nodes[at].inputs.len()
                } else {
                    igs.len()
                };
                let ghost b = Op::bwd(s.ops[at as int], c1, filled@);
                proof {
                    assert(Seq::new(n as nat, |j: int| self.nodes@[j].op.v()) =~= ops_before.update(
                        at as int,
                        b.next,
                    ));
                    lemma_route(
                        t.nodes,
                        s.grads,
                        s.nodes + b.nodes,
                        at as int,
                        igs@,
                        m as nat,
                    );
                    let inputs = self.nodes@[at as int].inputs@;
                    assert forall|k: int| 0 <= k < inputs.len() implies (#[trigger] inputs[k]).0.0
                        < grads@.len() && inputs[k].1 < grads@[inputs[k].0.0 as int]@.len() by {
                        assert(t.has_out(at as int, t.nodes[at as int].inputs[k]));
                        let id = inputs[k].0.0 as int;
                        assert(rows(grads@)[id].len() == t.nodes[id].outputs.len());
                    }
                    assert forall|i: int, k: int|
                        0 <= i < grads@.len() && 0 <= k < grads@[i]@.len() && (
                        #[trigger] grads@[i]@[k]) is Some implies small(grads@[i]@[k]->0) by {
                        assert(rows(grads@)[i][k] == grads@[i]@[k]);
                    }
                }
                route_all(gb, &mut grads, &self.nodes[at].inputs, &igs, m);
            }
            k = k + 1;
        }
        self.grads = grads;
        proof {
            let s = back::<Op>(t.nodes, start, n as nat);
            assert(self@ =~= back_tape(t, s));
        }
    }
}

/// The weights of the first `n` nodes, in push order.
pub open spec fn params_of<Op: Backward>(nodes: Seq<TapeNodeView<Op::V>>, n: nat) -> Seq<
    (Tensor, Tensor, bool),
>
    decreases n,
{
    if n == 0 {
        Seq::empty()
    } else {
        let rest = params_of::<Op>(nodes, (n - 1) as nat);
        match Op::spec_param(nodes[n - 1].op) {
            Some(p) => rest.push(p),
            None => rest,
        }
    }
}

impl<Op: Backward> Tape<Op> {
    /// (weight, grad, decay) triples in push order. That order is the
    /// checkpoint and optimizer-moment format.
    pub fn params(&self) -> (r: Vec<(Tensor, Tensor, bool)>)
        ensures
            r@ == params_of::<Op>(self@.nodes, self@.nodes.len()),
    {
        let mut r: Vec<(Tensor, Tensor, bool)> = Vec::new();
        let mut i: usize = 0;
        while i < self.nodes.len()
            invariant
                i <= self.nodes@.len(),
                r@ == params_of::<Op>(self@.nodes, i as nat),
            decreases self.nodes@.len() - i,
        {
            assert(self@.nodes[i as int].op == self.nodes@[i as int].op.v());
            match self.nodes[i].op.param() {
                Some(p) => r.push(p),
                None => {},
            }
            i = i + 1;
        }
        r
    }
}

/// The meta writes of the first `n` nodes at position `step`.
pub open spec fn writes_of<Op: Advance>(
    nodes: Seq<TapeNodeView<Op::V>>,
    step: u32,
    n: nat,
) -> Seq<(Tensor, Meta)>
    decreases n,
{
    if n == 0 {
        Seq::empty()
    } else {
        writes_of::<Op>(nodes, step, (n - 1) as nat) + Op::writes(nodes[n - 1].op, step)
    }
}

impl<Op: Advance> Tape<Op> {
    /// Moves every op to position `step`: the meta buffers to overwrite, in node
    /// order.
    pub fn advance(&mut self, step: u32) -> (r: Vec<(Tensor, Meta)>)
        requires
            forall|i: int|
                0 <= i < old(self)@.nodes.len() ==> Op::advance_ok(
                    (#[trigger] old(self)@.nodes[i]).op,
                    step,
                ),
        ensures
            r@ == writes_of::<Op>(old(self)@.nodes, step, old(self)@.nodes.len()),
            final(self)@ == (TapeView {
                nodes: Seq::new(
                    old(self)@.nodes.len(),
                    |i: int|
                        TapeNodeView {
                            op: Op::advanced(old(self)@.nodes[i].op, step),
                            ..old(self)@.nodes[i]
                        },
                ),
                ..old(self)@
            }),
    {
        let ghost t = self@;
        let n: usize = self.nodes.len();
        let mut r: Vec<(Tensor, Meta)> = Vec::new();
        let mut i: usize = 0;
        while i < n
            invariant
                i <= n == self.nodes@.len(),
                n == t.nodes.len(),
                self@.grads == t.grads,
                forall|k: int| 0 <= k < n ==> Op::advance_ok((#[trigger] t.nodes[k]).op, step),
                r@ == writes_of::<Op>(t.nodes, step, i as nat),
                forall|k: int|
                    0 <= k < n ==> (#[trigger] self.nodes@[k])@ == (if k < i {
                        TapeNodeView { op: Op::advanced(t.nodes[k].op, step), ..t.nodes[k] }
                    } else {
                        t.nodes[k]
                    }),
            decreases n - i,
        {
            assert(self.nodes@[i as int]@ == t.nodes[i as int]);
            assert(self.nodes@[i as int].op.v() == t.nodes[i as int].op);
            let mut w = self.nodes[i].op.advance(step);
            r.append(&mut w);
            i = i + 1;
        }
        proof {
            let want = TapeView {
                nodes: Seq::new(
                    t.nodes.len(),
                    |i: int| TapeNodeView { op: Op::advanced(t.nodes[i].op, step), ..t.nodes[i] },
                ),
                ..t
            };
            assert(self@ =~= want);
        }
        r
    }
}

/// A second forward pass under way.
#[verifier::ext_equal]
pub struct Redo<V> {
    pub nodes: Seq<TapeNodeView<V>>,
    pub ctx: Seq<Init>,
    pub emitted: Seq<NodeView>,
}

/// The state after the forward passes of the first `k` nodes have run again on
/// what their inputs now hold.
pub open spec fn redo<P: Phase, Op: Forward<P>>(s: Redo<Op::V>, k: nat) -> Redo<Op::V>
    decreases k,
{
    if k == 0 {
        s
    } else {
        let p = redo::<P, Op>(s, (k - 1) as nat);
        let node = p.nodes[k - 1];
        let xs = (TapeView { nodes: p.nodes, grads: Seq::empty() }).outs(node.inputs);
        let f = <Op as Forward<P>>::fwd(node.op, p.ctx, xs);
        Redo {
            nodes: p.nodes.update(k - 1, TapeNodeView { op: f.next, outputs: f.outs, ..node }),
            ctx: f.ctx,
            emitted: p.emitted + f.nodes,
        }
    }
}

/// Every turn of a second forward pass finds its inputs and accepts them.
pub open spec fn redo_ok<P: Phase, Op: Forward<P>>(s: Redo<Op::V>) -> bool {
    forall|k: nat|
        k < s.nodes.len() ==> {
            let p = #[trigger] redo::<P, Op>(s, k);
            let node = p.nodes[k as int];
            let t = TapeView { nodes: p.nodes, grads: Seq::empty() };
            &&& t.has_outs(k as int, node.inputs)
            &&& fwd_ok::<P, Op>(node.op, t.outs(node.inputs))
        }
}

impl<Op: TapeOp> Tape<Op> {
    /// Runs every op's forward pass again, in push order.
    pub fn redispatch<P: Phase>(&mut self, ctx: &mut Context, gb: &mut GraphBuilder<P>) where
        Op: Forward<P>,

        requires
            redo_ok::<P, Op>(
                Redo {
                    nodes: old(self)@.nodes,
                    ctx: old(ctx)@,
                    emitted: old(gb).graph@,
                },
            ),
        ensures
            ({
                let s = redo::<P, Op>(
                    Redo {
                        nodes: old(self)@.nodes,
                        ctx: old(ctx)@,
                        emitted: old(gb).graph@,
                    },
                    old(self)@.nodes.len(),
                );
                &&& final(self)@ == (TapeView { nodes: s.nodes, ..old(self)@ })
                &&& final(ctx)@ == s.ctx
                &&& final(gb).graph@ == s.emitted
            }),
    {
        let ghost t = self@;
        let ghost s0 = Redo { nodes: t.nodes, ctx: ctx@, emitted: gb.graph@ };
        let n: usize = self.nodes.len();
        let mut i: usize = 0;
        while i < n
            invariant
                i <= n == self.nodes@.len(),
                n == s0.nodes.len(),
                redo_ok::<P, Op>(s0),
                self@.grads == t.grads,
                self@.nodes == redo::<P, Op>(s0, i as nat).nodes,
                ctx@ == redo::<P, Op>(s0, i as nat).ctx,
                gb.graph@ == redo::<P, Op>(s0, i as nat).emitted,
            decreases n - i,
        {
            let ghost p = redo::<P, Op>(s0, i as nat);
            let ghost tv = TapeView { nodes: p.nodes, grads: Seq::empty() };
            let ghost before = self@;
            proof {
                assert(tv.has_outs(i as int, p.nodes[i as int].inputs));
                assert(before.nodes[i as int] == self.nodes@[i as int]@);
                assert forall|k: int| 0 <= k < p.nodes[i as int].inputs.len() implies self@.has_out(
                    n as int,
                    #[trigger] p.nodes[i as int].inputs[k],
                ) by {
                    assert(tv.has_out(i as int, p.nodes[i as int].inputs[k]));
                }
                assert(self@.outs(p.nodes[i as int].inputs) =~= tv.outs(p.nodes[i as int].inputs));
            }
            let xs = self.values(&self.nodes[i].inputs);
            let outs = self.nodes[i].op.forward(ctx, gb, &xs);
            self.nodes[i].outputs = outs;
            i = i + 1;
            proof {
                assert(self@.nodes =~= redo::<P, Op>(s0, i as nat).nodes);
            }
        }
    }
}

// ---- laws ----

/// A node's consumers come after it, so each has had its backward turn before
/// the node itself has.
pub proof fn consumers_come_later<V>(t: TapeView<V>, consumer: int, k: int)
    requires
        t.wf(),
        0 <= consumer < t.nodes.len(),
        0 <= k < t.nodes[consumer].inputs.len(),
    ensures
        t.nodes[consumer].inputs[k].0.0 < consumer,
{
    assert(t.has_outs(consumer, t.nodes[consumer].inputs));
    assert(t.has_out(consumer, t.nodes[consumer].inputs[k]));
}

/// The rows of `g` match the outputs of the nodes.
pub open spec fn same_shape<V>(nodes: Seq<TapeNodeView<V>>, g: Seq<Seq<Option<Tensor>>>) -> bool {
    &&& g.len() == nodes.len()
    &&& forall|i: int| 0 <= i < g.len() ==> (#[trigger] g[i]).len() == nodes[i].outputs.len()
}

pub(crate) proof fn lemma_route_shape<V>(
    nodes: Seq<TapeNodeView<V>>,
    grads: Seq<Seq<Option<Tensor>>>,
    emitted: Seq<NodeView>,
    at: int,
    igs: Seq<Tensor>,
    n: nat,
)
    requires
        0 <= at < nodes.len(),
        same_shape(nodes, grads),
        (TapeView { nodes, grads }).has_outs(at, nodes[at].inputs),
        n <= nodes[at].inputs.len(),
    ensures
        ({
            let inputs = nodes[at].inputs;
            let g = route(grads, emitted, inputs, igs, n).0;
            &&& same_shape(nodes, g)
            &&& forall|i: int| at <= i < g.len() ==> #[trigger] g[i] == grads[i]
            &&& forall|i: int, k: int|
                0 <= i < g.len() && 0 <= k < g[i].len() && grads[i][k] is Some ==> (
                #[trigger] g[i][k]) == grads[i][k]
            &&& forall|m: int|
                0 <= m < n ==> g[(#[trigger] inputs[m]).0.0 as int][inputs[m].1 as int] is Some
        }),
    decreases n,
{
    if n > 0 {
        let inputs = nodes[at].inputs;
        lemma_route_shape(nodes, grads, emitted, at, igs, (n - 1) as nat);
        let g = route(grads, emitted, inputs, igs, (n - 1) as nat).0;
        let g2 = route(grads, emitted, inputs, igs, n).0;
        let id = inputs[n - 1].0.0 as int;
        let slot = inputs[n - 1].1 as int;
        assert((TapeView { nodes, grads }).has_out(at, inputs[n - 1]));
        assert(g[id].len() == nodes[id].outputs.len());
        assert forall|i: int, k: int|
            0 <= i < g2.len() && 0 <= k < g2[i].len() && grads[i][k] is Some implies (
        #[trigger] g2[i][k]) == grads[i][k] by {
            assert(g[i][k] == grads[i][k]);
        }
        assert forall|m: int| 0 <= m < n implies g2[(#[trigger] inputs[m]).0.0 as int][inputs[m].1 as int]
            is Some by {
            if m < n - 1 {
                assert(g[inputs[m].0.0 as int][inputs[m].1 as int] is Some);
            }
        }
    }
}

/// What holds after the turns of the last `k` nodes.
pub(crate) proof fn lemma_back<Op: Backward>(t: TapeView<Op::V>, s0: BackState<Op::V>, k: nat)
    requires
        t.wf(),
        k <= t.nodes.len(),
        same_shape(t.nodes, s0.grads),
        s0.ops.len() == t.nodes.len(),
        forall|j: int| 0 <= j < t.nodes.len() ==> #[trigger] s0.ops[j] == t.nodes[j].op,
    ensures
        ({
            let s = back::<Op>(t.nodes, s0, k);
            let n = t.nodes.len();
            &&& same_shape(t.nodes, s.grads)
            &&& s.ops.len() == n
            &&& forall|j: int| 0 <= j < n - k ==> #[trigger] s.ops[j] == t.nodes[j].op
            &&& forall|i: int, m: int|
                0 <= i < n && 0 <= m < s.grads[i].len() && s0.grads[i][m] is Some ==> (
                #[trigger] s.grads[i][m]) == s0.grads[i][m]
            &&& forall|i: int, m: int|
                #![trigger t.nodes[i].inputs[m]]
                n - k <= i < n && !all_none(s.grads[i]) && 0 <= m < t.nodes[i].inputs.len() && m
                    < Op::n_grads(t.nodes[i].op)
                    ==> s.grads[t.nodes[i].inputs[m].0.0 as int][t.nodes[i].inputs[m].1 as int]
                    is Some
        }),
    decreases k,
{
    if k > 0 {
        let n = t.nodes.len();
        lemma_back::<Op>(t, s0, (k - 1) as nat);
        let p = back::<Op>(t.nodes, s0, (k - 1) as nat);
        let at = n - k;
        let s = back_step::<Op>(t.nodes, p, at);
        assert(t.has_outs(at, t.nodes[at].inputs));
        assert(t.has_outs(at, t.nodes[at].inputs) ==> (TapeView {
            nodes: t.nodes,
            grads: p.grads,
        }).has_outs(at, t.nodes[at].inputs)) by {
            assert forall|m: int| 0 <= m < t.nodes[at].inputs.len() implies (TapeView {
                nodes: t.nodes,
                grads: p.grads,
            }).has_out(at, #[trigger] t.nodes[at].inputs[m]) by {
                assert(t.has_out(at, t.nodes[at].inputs[m]));
            }
        }
        if !all_none(p.grads[at]) {
            let (c, filled) = fill(p.ctx, p.grads[at], t.nodes[at].outputs, t.nodes[at].outputs.len());
            let b = Op::bwd(p.ops[at], c, filled);
            assert(p.ops[at] == t.nodes[at].op);
            Op::bwd_gives_n_grads(p.ops[at], c, filled);
            let r = routed(t.nodes[at], b.grads);
            lemma_route_shape(t.nodes, p.grads, p.nodes + b.nodes, at, b.grads, r);
        }
        assert forall|i: int, m: int|
            #![trigger t.nodes[i].inputs[m]]
            n - k <= i < n && !all_none(s.grads[i]) && 0 <= m < t.nodes[i].inputs.len() && m
                < Op::n_grads(
                t.nodes[i].op,
            ) implies s.grads[t.nodes[i].inputs[m].0.0 as int][t.nodes[i].inputs[m].1 as int] is Some by {
            assert(s.grads[i] == p.grads[i]);
            assert(t.has_outs(i, t.nodes[i].inputs));
            assert(t.has_out(i, t.nodes[i].inputs[m]));
            let id = t.nodes[i].inputs[m].0.0 as int;
            let slot = t.nodes[i].inputs[m].1 as int;
            if i > at {
                assert(p.grads[id][slot] is Some);
                assert(s.grads[id].len() == t.nodes[id].outputs.len());
                assert(s.grads[id][slot] == p.grads[id][slot]);
            }
        }
        assert forall|i: int, m: int|
            0 <= i < n && 0 <= m < s.grads[i].len() && s0.grads[i][m] is Some implies (
        #[trigger] s.grads[i][m]) == s0.grads[i][m] by {
            assert(p.grads[i].len() == s.grads[i].len());
            assert(p.grads[i][m] == s0.grads[i][m]);
        }
    }
}

/// After a backward pass the seeded output holds the seed, and a gradient has
/// reached every input of every node that a gradient has reached.
pub proof fn gradients_reach_inputs<Op: Backward>(
    t: TapeView<Op::V>,
    c: Seq<Init>,
    g: Seq<NodeView>,
    output: Out,
    grad_output: Tensor,
)
    requires
        t.wf(),
        t.has_out(t.nodes.len() as int, output),
    ensures
        ({
            let s = back_all::<Op>(t, c, g, output, grad_output);
            let after = back_tape(t, s);
            &&& after.grad_of(output) == Some(grad_output)
            &&& s.grads.len() == t.nodes.len()
            &&& forall|i: int|
                0 <= i < t.nodes.len() ==> (#[trigger] s.grads[i]).len() == t.nodes[i].outputs.len()
            &&& forall|i: int, m: int|
                #![trigger t.nodes[i].inputs[m]]
                0 <= i < t.nodes.len() && !all_none(s.grads[i]) && 0 <= m
                    < t.nodes[i].inputs.len() && m < Op::n_grads(t.nodes[i].op)
                    ==> after.grad_of(t.nodes[i].inputs[m]) is Some
        }),
{
    let s0 = back_start(t.nodes, c, g, output, grad_output);
    let n = t.nodes.len();
    lemma_back::<Op>(t, s0, n);
    let s = back_all::<Op>(t, c, g, output, grad_output);
    let after = back_tape(t, s);
    let id = output.0.0 as int;
    assert(s0.grads[id][output.1 as int] == Some(grad_output));
    assert(s.grads[id].len() == t.nodes[id].outputs.len());
    assert(s.grads[id][output.1 as int] == Some(grad_output));
    assert forall|i: int, m: int|
        #![trigger t.nodes[i].inputs[m]]
        0 <= i < n && !all_none(s.grads[i]) && 0 <= m < t.nodes[i].inputs.len() && m < Op::n_grads(
            t.nodes[i].op,
        ) implies after.grad_of(t.nodes[i].inputs[m]) is Some by {
        assert(t.has_outs(i, t.nodes[i].inputs));
        assert(t.has_out(i, t.nodes[i].inputs[m]));
        let j = t.nodes[i].inputs[m].0.0 as int;
        assert(s.grads[j].len() == t.nodes[j].outputs.len());
    }
}

/// Handing over more input gradients only adds dispatches, and keeps the slots
/// that have a gradient.
pub(crate) proof fn lemma_route_grows<V>(
    nodes: Seq<TapeNodeView<V>>,
    grads: Seq<Seq<Option<Tensor>>>,
    emitted: Seq<NodeView>,
    at: int,
    igs: Seq<Tensor>,
    a: nat,
    b: nat,
)
    requires
        0 <= at < nodes.len(),
        same_shape(nodes, grads),
        (TapeView { nodes, grads }).has_outs(at, nodes[at].inputs),
        a <= b <= nodes[at].inputs.len(),
    ensures
        ({
            let less = route(grads, emitted, nodes[at].inputs, igs, a);
            let more = route(grads, emitted, nodes[at].inputs, igs, b);
            &&& less.1.is_prefix_of(more.1)
            &&& forall|i: int, k: int|
                0 <= i < nodes.len() && 0 <= k < nodes[i].outputs.len() && less.0[i][k] is Some ==> (
                #[trigger] more.0[i][k]) == less.0[i][k]
        }),
    decreases b,
{
    let inputs = nodes[at].inputs;
    let less = route(grads, emitted, inputs, igs, a);
    if a < b {
        lemma_route_grows(nodes, grads, emitted, at, igs, a, (b - 1) as nat);
        lemma_route_shape(nodes, grads, emitted, at, igs, (b - 1) as nat);
        let (g, ns) = route(grads, emitted, inputs, igs, (b - 1) as nat);
        let more = route(grads, emitted, inputs, igs, b);
        let id = inputs[b - 1].0.0 as int;
        let slot = inputs[b - 1].1 as int;
        assert((TapeView { nodes, grads }).has_out(at, inputs[b - 1]));
        assert(g[id].len() == nodes[id].outputs.len());
        assert forall|i: int, k: int|
            0 <= i < nodes.len() && 0 <= k < nodes[i].outputs.len() && less.0[i][k] is Some implies (
        #[trigger] more.0[i][k]) == less.0[i][k] by {
            assert(g[i][k] == less.0[i][k]);
        }
    }
}

/// More turns only add dispatches, and keep the slots that have a gradient.
pub(crate) proof fn lemma_back_grows<Op: Backward>(t: TapeView<Op::V>, s0: BackState<Op::V>, a: nat, b: nat)
    requires
        t.wf(),
        a <= b <= t.nodes.len(),
        same_shape(t.nodes, s0.grads),
        s0.ops.len() == t.nodes.len(),
        forall|j: int| 0 <= j < t.nodes.len() ==> #[trigger] s0.ops[j] == t.nodes[j].op,
    ensures
        ({
            let less = back::<Op>(t.nodes, s0, a);
            let more = back::<Op>(t.nodes, s0, b);
            &&& less.nodes.is_prefix_of(more.nodes)
            &&& forall|i: int, k: int|
                0 <= i < t.nodes.len() && 0 <= k < t.nodes[i].outputs.len() && less.grads[i][k]
                    is Some ==> (#[trigger] more.grads[i][k]) == less.grads[i][k]
        }),
    decreases b,
{
    let less = back::<Op>(t.nodes, s0, a);
    if a < b {
        lemma_back_grows::<Op>(t, s0, a, (b - 1) as nat);
        lemma_back::<Op>(t, s0, (b - 1) as nat);
        let p = back::<Op>(t.nodes, s0, (b - 1) as nat);
        let more = back::<Op>(t.nodes, s0, b);
        let at = t.nodes.len() - b;
        if !all_none(p.grads[at]) {
            lemma_turn_inputs::<Op>(t, p.grads, at);
            let (c, filled) = fill(p.ctx, p.grads[at], t.nodes[at].outputs, t.nodes[at].outputs.len());
            let o = Op::bwd(p.ops[at], c, filled);
            let r = routed(t.nodes[at], o.grads);
            lemma_route_grows(t.nodes, p.grads, p.nodes + o.nodes, at, o.grads, 0, r);
            assert(p.nodes.is_prefix_of(p.nodes + o.nodes));
            assert forall|i: int, k: int|
                0 <= i < t.nodes.len() && 0 <= k < t.nodes[i].outputs.len() && less.grads[i][k]
                    is Some implies (#[trigger] more.grads[i][k]) == less.grads[i][k] by {
                assert(p.grads[i][k] == less.grads[i][k]);
            }
        }
    }
}

/// A slot that no handed input names keeps what it holds.
pub(crate) proof fn lemma_route_untouched<V>(
    nodes: Seq<TapeNodeView<V>>,
    grads: Seq<Seq<Option<Tensor>>>,
    emitted: Seq<NodeView>,
    at: int,
    igs: Seq<Tensor>,
    n: nat,
    out: Out,
)
    requires
        0 <= at < nodes.len(),
        same_shape(nodes, grads),
        (TapeView { nodes, grads }).has_outs(at, nodes[at].inputs),
        n <= nodes[at].inputs.len(),
        forall|m: int| 0 <= m < n ==> #[trigger] nodes[at].inputs[m] != out,
        out.0.0 < nodes.len(),
        out.1 < nodes[out.0.0 as int].outputs.len(),
    ensures
        route(grads, emitted, nodes[at].inputs, igs, n).0[out.0.0 as int][out.1 as int]
            == grads[out.0.0 as int][out.1 as int],
    decreases n,
{
    if n > 0 {
        let inputs = nodes[at].inputs;
        lemma_route_untouched(nodes, grads, emitted, at, igs, (n - 1) as nat, out);
        lemma_route_shape(nodes, grads, emitted, at, igs, (n - 1) as nat);
        assert((TapeView { nodes, grads }).has_out(at, inputs[n - 1]));
        let g = route(grads, emitted, inputs, igs, (n - 1) as nat).0;
        assert(g[inputs[n - 1].0.0 as int].len() == nodes[inputs[n - 1].0.0 as int].outputs.len());
        assert(inputs[n - 1] != out);
        assert(inputs[n - 1].0.0 != out.0.0 || inputs[n - 1].1 != out.1) by {
            if inputs[n - 1].0.0 == out.0.0 {
                assert(inputs[n - 1].0 == out.0);
            }
        }
    }
}

/// A slot that none of the last `k` nodes takes in keeps what it holds during
/// their turns.
pub(crate) proof fn lemma_back_untouched<Op: Backward>(
    t: TapeView<Op::V>,
    s0: BackState<Op::V>,
    k: nat,
    out: Out,
)
    requires
        t.wf(),
        k <= t.nodes.len(),
        same_shape(t.nodes, s0.grads),
        s0.ops.len() == t.nodes.len(),
        forall|j: int| 0 <= j < t.nodes.len() ==> #[trigger] s0.ops[j] == t.nodes[j].op,
        forall|i: int, m: int|
            t.nodes.len() - k <= i < t.nodes.len() && 0 <= m < t.nodes[i].inputs.len()
                ==> #[trigger] t.nodes[i].inputs[m] != out,
        t.has_out(t.nodes.len() as int, out),
    ensures
        back::<Op>(t.nodes, s0, k).grads[out.0.0 as int][out.1 as int]
            == s0.grads[out.0.0 as int][out.1 as int],
    decreases k,
{
    if k > 0 {
        lemma_back_untouched::<Op>(t, s0, (k - 1) as nat, out);
        lemma_back::<Op>(t, s0, (k - 1) as nat);
        let p = back::<Op>(t.nodes, s0, (k - 1) as nat);
        let at = t.nodes.len() - k;
        if !all_none(p.grads[at]) {
            lemma_turn_inputs::<Op>(t, p.grads, at);
            let o = turn::<Op>(t.nodes, p, at);
            let r = routed(t.nodes[at], o.grads);
            lemma_route_untouched(t.nodes, p.grads, p.nodes + o.nodes, at, o.grads, r, out);
        }
    }
}

/// The inputs of a node name slots that the gradients have.
pub(crate) proof fn lemma_turn_inputs<Op: Backward>(t: TapeView<Op::V>, grads: Seq<Seq<Option<Tensor>>>, at: int)
    requires
        t.wf(),
        0 <= at < t.nodes.len(),
    ensures
        (TapeView { nodes: t.nodes, grads }).has_outs(at, t.nodes[at].inputs),
{
    assert(t.has_outs(at, t.nodes[at].inputs));
    assert forall|m: int| 0 <= m < t.nodes[at].inputs.len() implies (TapeView {
        nodes: t.nodes,
        grads,
    }).has_out(at, #[trigger] t.nodes[at].inputs[m]) by {
        assert(t.has_out(at, t.nodes[at].inputs[m]));
    }
}

/// What node `i` gives back at its turn, from the state before it.
pub open spec fn turn<Op: Backward>(
    nodes: Seq<TapeNodeView<Op::V>>,
    s: BackState<Op::V>,
    i: int,
) -> Bwd<Op::V> {
    let (c, filled) = fill(s.ctx, s.grads[i], nodes[i].outputs, nodes[i].outputs.len());
    Op::bwd(s.ops[i], c, filled)
}

/// Every contribution to a slot is in its gradient before the slot's own node has
/// its turn: the gradient that node `i` gives back for its input `m` is the buffer
/// that the input's node will take, or is added to that buffer, by a dispatch of
/// its own, behind the dispatches that compute it.
pub proof fn contributions_are_summed<Op: Backward>(
    t: TapeView<Op::V>,
    c: Seq<Init>,
    g: Seq<NodeView>,
    output: Out,
    grad_output: Tensor,
    i: int,
    m: int,
)
    requires
        t.wf(),
        t.has_out(t.nodes.len() as int, output),
        0 <= i < t.nodes.len(),
        0 <= m < t.nodes[i].inputs.len(),
    ensures
        ({
            let n = t.nodes.len();
            let s0 = back_start(t.nodes, c, g, output, grad_output);
            let before = back::<Op>(t.nodes, s0, (n - 1 - i) as nat);
            let own = turn::<Op>(t.nodes, before, i);
            let (id, slot) = t.nodes[i].inputs[m];
            let due = back::<Op>(t.nodes, s0, (n - 1 - id.0) as nat);
            let (held, emitted) = route(
                before.grads,
                before.nodes + own.nodes,
                t.nodes[i].inputs,
                own.grads,
                m as nat,
            );
            !all_none(before.grads[i]) && m < own.grads.len() ==> {
                &&& (before.nodes + own.nodes).is_prefix_of(due.nodes)
                &&& match held[id.0 as int][slot as int] {
                    None => due.grads[id.0 as int][slot as int] == Some(own.grads[m]),
                    Some(e) => {
                        &&& due.grads[id.0 as int][slot as int] == Some(e)
                        &&& before.nodes.len() + own.nodes.len() <= emitted.len() < due.nodes.len()
                        &&& due.nodes[emitted.len() as int] == emit::add_inplace_bwd_node(
                            e,
                            own.grads[m],
                            elems(e) as u32,
                        )
                    },
                }
            }
        }),
{
    let n = t.nodes.len();
    let s0 = back_start(t.nodes, c, g, output, grad_output);
    let k = (n - 1 - i) as nat;
    let before = back::<Op>(t.nodes, s0, k);
    let own = turn::<Op>(t.nodes, before, i);
    let inputs = t.nodes[i].inputs;
    let id = inputs[m].0.0 as int;
    let slot = inputs[m].1 as int;
    lemma_back::<Op>(t, s0, k);
    lemma_turn_inputs::<Op>(t, before.grads, i);
    assert((TapeView { nodes: t.nodes, grads: before.grads }).has_out(i, inputs[m]));
    if !all_none(before.grads[i]) && m < own.grads.len() {
        let r = routed(t.nodes[i], own.grads);
        let start = before.nodes + own.nodes;
        let after = back::<Op>(t.nodes, s0, (k + 1) as nat);
        assert(after == back_step::<Op>(t.nodes, before, i));
        lemma_route_grows(t.nodes, before.grads, start, i, own.grads, 0, m as nat);
        lemma_route_grows(t.nodes, before.grads, start, i, own.grads, (m + 1) as nat, r);
        lemma_route_shape(t.nodes, before.grads, start, i, own.grads, m as nat);
        lemma_route_grows(t.nodes, before.grads, start, i, own.grads, 0, r);
        lemma_back_grows::<Op>(t, s0, (k + 1) as nat, (n - 1 - id) as nat);
        let (held, emitted) = route(before.grads, start, inputs, own.grads, m as nat);
        let next = route(before.grads, start, inputs, own.grads, (m + 1) as nat);
        let due = back::<Op>(t.nodes, s0, (n - 1 - id) as nat);
        assert(held[id].len() == t.nodes[id].outputs.len());
        assert(next.0[id][slot] is Some);
        assert(after.grads[id][slot] == next.0[id][slot]);
        assert(due.grads[id][slot] == after.grads[id][slot]);
        if held[id][slot] is Some {
            assert(next.1[emitted.len() as int] == emit::add_inplace_bwd_node(
                held[id][slot]->0,
                own.grads[m],
                elems(held[id][slot]->0) as u32,
            ));
            assert(after.nodes[emitted.len() as int] == next.1[emitted.len() as int]);
        }
    }
}

/// The input gradient whose handing over has put a dispatch on the list.
proof fn lemma_handed_over(
    grads: Seq<Seq<Option<Tensor>>>,
    emitted: Seq<NodeView>,
    inputs: Seq<Out>,
    igs: Seq<Tensor>,
    n: nat,
    q: int,
) -> (m: int)
    requires
        emitted.len() <= q < route(grads, emitted, inputs, igs, n).1.len(),
    ensures
        0 <= m < n,
        ({
            let held = route(grads, emitted, inputs, igs, m as nat).0;
            let e = held[inputs[m].0.0 as int][inputs[m].1 as int];
            &&& e is Some
            &&& route(grads, emitted, inputs, igs, n).1[q] == emit::add_inplace_bwd_node(
                e->0,
                igs[m],
                elems(e->0) as u32,
            )
        }),
    decreases n,
{
    if n == 0 {
        0
    } else {
        let prev = route(grads, emitted, inputs, igs, (n - 1) as nat);
        if q < prev.1.len() {
            lemma_handed_over(grads, emitted, inputs, igs, (n - 1) as nat, q)
        } else {
            n - 1
        }
    }
}

/// Where a dispatch of a turn comes from: `None` where it is the node's own, `Some(m)`
/// where it adds what the node gives back for its input `m`.
pub(crate) proof fn lemma_turn_source<Op: Backward>(
    t: TapeView<Op::V>,
    s0: BackState<Op::V>,
    k: nat,
    q: int,
) -> (r: Option<int>)
    requires
        t.wf(),
        k < t.nodes.len(),
        same_shape(t.nodes, s0.grads),
        s0.ops.len() == t.nodes.len(),
        forall|j: int| 0 <= j < t.nodes.len() ==> #[trigger] s0.ops[j] == t.nodes[j].op,
        back::<Op>(t.nodes, s0, k).nodes.len() <= q < back::<Op>(
            t.nodes,
            s0,
            (k + 1) as nat,
        ).nodes.len(),
    ensures
        ({
            let at = t.nodes.len() - 1 - k;
            let p = back::<Op>(t.nodes, s0, k);
            let s = back::<Op>(t.nodes, s0, (k + 1) as nat);
            let own = turn::<Op>(t.nodes, p, at);
            let inputs = t.nodes[at].inputs;
            match r {
                None => {
                    &&& q - p.nodes.len() < own.nodes.len()
                    &&& s.nodes[q] == own.nodes[q - p.nodes.len()]
                },
                Some(m) => {
                    let held = route(p.grads, p.nodes + own.nodes, inputs, own.grads, m as nat).0;
                    let e = held[inputs[m].0.0 as int][inputs[m].1 as int];
                    &&& 0 <= m < inputs.len()
                    &&& e is Some
                    &&& s.nodes[q] == emit::add_inplace_bwd_node(
                        e->0,
                        own.grads[m],
                        elems(e->0) as u32,
                    )
                },
            }
        }),
{
    let at = t.nodes.len() - 1 - k;
    let p = back::<Op>(t.nodes, s0, k);
    let s = back::<Op>(t.nodes, s0, (k + 1) as nat);
    assert(s == back_step::<Op>(t.nodes, p, at));
    lemma_back::<Op>(t, s0, k);
    lemma_turn_inputs::<Op>(t, p.grads, at);
    let own = turn::<Op>(t.nodes, p, at);
    let start = p.nodes + own.nodes;
    let r = routed(t.nodes[at], own.grads);
    assert(!all_none(p.grads[at]));
    lemma_route_grows(t.nodes, p.grads, start, at, own.grads, 0, r);
    if q < start.len() {
        assert(s.nodes[q] == start[q]);
        None
    } else {
        Some(lemma_handed_over(p.grads, start, t.nodes[at].inputs, own.grads, r, q))
    }
}

/// Handing over input gradients keeps the dispatches before.
proof fn lemma_route_extends(
    grads: Seq<Seq<Option<Tensor>>>,
    emitted: Seq<NodeView>,
    inputs: Seq<Out>,
    igs: Seq<Tensor>,
    n: nat,
)
    ensures
        emitted.is_prefix_of(route(grads, emitted, inputs, igs, n).1),
    decreases n,
{
    if n > 0 {
        lemma_route_extends(grads, emitted, inputs, igs, (n - 1) as nat);
    }
}

/// A backward pass adds its dispatches behind those that were there.
pub proof fn backward_only_appends<Op: Backward>(
    nodes: Seq<TapeNodeView<Op::V>>,
    s: BackState<Op::V>,
    k: nat,
)
    ensures
        s.nodes.is_prefix_of(back::<Op>(nodes, s, k).nodes),
    decreases k,
{
    if k > 0 {
        backward_only_appends::<Op>(nodes, s, (k - 1) as nat);
        let p = back::<Op>(nodes, s, (k - 1) as nat);
        let at = nodes.len() - k;
        if !all_none(p.grads[at]) {
            let b = turn::<Op>(nodes, p, at);
            lemma_route_extends(
                p.grads,
                p.nodes + b.nodes,
                nodes[at].inputs,
                b.grads,
                routed(nodes[at], b.grads),
            );
            assert(p.nodes.is_prefix_of(p.nodes + b.nodes));
        }
    }
}

/// A second forward pass adds its dispatches behind those that were there.
pub proof fn redispatch_only_appends<P: Phase, Op: Forward<P>>(s: Redo<Op::V>, k: nat)
    ensures
        s.emitted.is_prefix_of(redo::<P, Op>(s, k).emitted),
    decreases k,
{
    if k > 0 {
        redispatch_only_appends::<P, Op>(s, (k - 1) as nat);
    }
}

// ---- where gradients arrive ----

/// Slot `b` is an input that the node of slot `a` gives a gradient back for.
pub open spec fn hands_down<Op: Backward>(
    nodes: Seq<TapeNodeView<Op::V>>,
    a: Out,
    b: Out,
) -> bool {
    let n = nodes[a.0.0 as int];
    exists|m: int|
        0 <= m < n.inputs.len() && m < Op::n_grads(n.op) && #[trigger] n.inputs[m] == b
}

/// A way down the tape: from each slot to an input of its node.
pub open spec fn is_path<Op: Backward>(
    nodes: Seq<TapeNodeView<Op::V>>,
    path: Seq<Out>,
    from: Out,
) -> bool {
    &&& path.len() > 0
    &&& path[0] == from
    &&& forall|k: int|
        0 < k < path.len() ==> hands_down::<Op>(nodes, path[k - 1], #[trigger] path[k])
}

/// Some way leads from `from` down to slot `k` of node `i`.
pub open spec fn leads_to<Op: Backward>(
    nodes: Seq<TapeNodeView<Op::V>>,
    from: Out,
    i: int,
    k: int,
) -> bool {
    exists|path: Seq<Out>|
        #[trigger] is_path::<Op>(nodes, path, from) && path.last().0.0 == i && path.last().1 == k
}

/// A backward pass leaves a gradient in exactly the slots that the seeded output
/// depends on, over any number of nodes.
pub proof fn gradients_follow_paths<Op: Backward>(
    t: TapeView<Op::V>,
    c: Seq<Init>,
    g: Seq<NodeView>,
    output: Out,
    grad_output: Tensor,
    out: Out,
)
    requires
        t.wf(),
        t.has_out(t.nodes.len() as int, output),
    ensures
        back_tape(t, back_all::<Op>(t, c, g, output, grad_output)).grad_of(out) is Some
            <==> leads_to::<Op>(t.nodes, output, out.0.0 as int, out.1 as int),
{
    let s0 = back_start(t.nodes, c, g, output, grad_output);
    let n = t.nodes.len();
    let s = back_all::<Op>(t, c, g, output, grad_output);
    let after = back_tape(t, s);
    lemma_back::<Op>(t, s0, n);
    let i = out.0.0 as int;
    let k = out.1 as int;
    if after.grad_of(out) is Some {
        lemma_back_source::<Op>(t, c, g, output, grad_output, n);
        assert(s.grads[i][k] is Some);
    }
    if leads_to::<Op>(t.nodes, output, i, k) {
        let path = choose|path: Seq<Out>|
            #[trigger] is_path::<Op>(t.nodes, path, output) && path.last().0.0 == i
                && path.last().1 == k;
        lemma_path_is_fed::<Op>(t, c, g, output, grad_output, path);
    }
}

/// Every slot on a way down from the seeded output has a gradient.
proof fn lemma_path_is_fed<Op: Backward>(
    t: TapeView<Op::V>,
    c: Seq<Init>,
    g: Seq<NodeView>,
    output: Out,
    grad_output: Tensor,
    path: Seq<Out>,
)
    requires
        t.wf(),
        t.has_out(t.nodes.len() as int, output),
        is_path::<Op>(t.nodes, path, output),
    ensures
        back_tape(t, back_all::<Op>(t, c, g, output, grad_output)).grad_of(path.last()) is Some,
    decreases path.len(),
{
    gradients_reach_inputs::<Op>(t, c, g, output, grad_output);
    if path.len() > 1 {
        let s = back_all::<Op>(t, c, g, output, grad_output);
        let up = path.drop_last();
        assert forall|k: int| 0 < k < up.len() implies hands_down::<Op>(
            t.nodes,
            up[k - 1],
            #[trigger] up[k],
        ) by {
            assert(hands_down::<Op>(t.nodes, path[k - 1], path[k]));
        }
        lemma_path_is_fed::<Op>(t, c, g, output, grad_output, up);
        let a = up.last();
        assert(hands_down::<Op>(t.nodes, path[path.len() - 2], path[path.len() - 1]));
        assert(a == path[path.len() - 2]);
        let i = a.0.0 as int;
        assert(s.grads[i][a.1 as int] is Some);
        assert(!all_none(s.grads[i]));
        let m = choose|m: int|
            0 <= m < t.nodes[i].inputs.len() && m < Op::n_grads(t.nodes[i].op)
                && #[trigger] t.nodes[i].inputs[m] == path.last();
        assert(t.nodes[i].inputs[m] == path.last());
    }
}

/// A slot that gets a gradient while inputs are handed over is one of them.
proof fn lemma_route_source<V>(
    nodes: Seq<TapeNodeView<V>>,
    grads: Seq<Seq<Option<Tensor>>>,
    emitted: Seq<NodeView>,
    at: int,
    igs: Seq<Tensor>,
    n: nat,
    i: int,
    k: int,
)
    requires
        0 <= at < nodes.len(),
        same_shape(nodes, grads),
        (TapeView { nodes, grads }).has_outs(at, nodes[at].inputs),
        n <= nodes[at].inputs.len(),
        0 <= i < nodes.len(),
        0 <= k < nodes[i].outputs.len(),
        grads[i][k] is None,
        route(grads, emitted, nodes[at].inputs, igs, n).0[i][k] is Some,
    ensures
        exists|m: int|
            0 <= m < n && (#[trigger] nodes[at].inputs[m]).0.0 == i && nodes[at].inputs[m].1 == k,
    decreases n,
{
    if n > 0 {
        let inputs = nodes[at].inputs;
        let g = route(grads, emitted, inputs, igs, (n - 1) as nat).0;
        lemma_route_shape(nodes, grads, emitted, at, igs, (n - 1) as nat);
        if g[i][k] is Some {
            lemma_route_source(nodes, grads, emitted, at, igs, (n - 1) as nat, i, k);
        } else {
            assert((TapeView { nodes, grads }).has_out(at, inputs[n - 1]));
            assert(inputs[n - 1].0.0 == i && inputs[n - 1].1 == k);
        }
    }
}

/// After the turns of the last `k` nodes, a way leads from the seeded output to
/// every slot with a gradient.
proof fn lemma_back_source<Op: Backward>(
    t: TapeView<Op::V>,
    c: Seq<Init>,
    g: Seq<NodeView>,
    output: Out,
    grad_output: Tensor,
    k: nat,
)
    requires
        t.wf(),
        t.has_out(t.nodes.len() as int, output),
        k <= t.nodes.len(),
    ensures
        ({
            let s = back::<Op>(t.nodes, back_start(t.nodes, c, g, output, grad_output), k);
            forall|i: int, j: int|
                0 <= i < t.nodes.len() && 0 <= j < t.nodes[i].outputs.len() && (
                #[trigger] s.grads[i][j]) is Some ==> leads_to::<Op>(t.nodes, output, i, j)
        }),
    decreases k,
{
    let s0 = back_start(t.nodes, c, g, output, grad_output);
    let s = back::<Op>(t.nodes, s0, k);
    if k == 0 {
        let path = seq![output];
        assert(is_path::<Op>(t.nodes, path, output));
        assert forall|i: int, j: int|
            0 <= i < t.nodes.len() && 0 <= j < t.nodes[i].outputs.len() && (
            #[trigger] s.grads[i][j]) is Some implies leads_to::<Op>(t.nodes, output, i, j) by {
            assert(i == output.0.0 && j == output.1);
            assert(path.last() == output);
        }
    } else {
        let p = back::<Op>(t.nodes, s0, (k - 1) as nat);
        lemma_back_source::<Op>(t, c, g, output, grad_output, (k - 1) as nat);
        lemma_back::<Op>(t, s0, (k - 1) as nat);
        let at = t.nodes.len() - k;
        if !all_none(p.grads[at]) {
            lemma_turn_inputs::<Op>(t, p.grads, at);
            let o = turn::<Op>(t.nodes, p, at);
            let (cf, filled) = fill(
                p.ctx,
                p.grads[at],
                t.nodes[at].outputs,
                t.nodes[at].outputs.len(),
            );
            Op::bwd_gives_n_grads(p.ops[at], cf, filled);
            let r = routed(t.nodes[at], o.grads);
            let from = choose|j: int| 0 <= j < p.grads[at].len() && p.grads[at][j] is Some;
            assert(leads_to::<Op>(t.nodes, output, at, from));
            let up = choose|path: Seq<Out>|
                #[trigger] is_path::<Op>(t.nodes, path, output) && path.last().0.0 == at
                    && path.last().1 == from;
            assert forall|i: int, j: int|
                0 <= i < t.nodes.len() && 0 <= j < t.nodes[i].outputs.len() && (
                #[trigger] s.grads[i][j]) is Some implies leads_to::<Op>(t.nodes, output, i, j) by {
                if p.grads[i][j] is None {
                    lemma_route_source(
                        t.nodes,
                        p.grads,
                        p.nodes + o.nodes,
                        at,
                        o.grads,
                        r,
                        i,
                        j,
                    );
                    let m = choose|m: int|
                        0 <= m < r && (#[trigger] t.nodes[at].inputs[m]).0.0 == i
                            && t.nodes[at].inputs[m].1 == j;
                    let b = t.nodes[at].inputs[m];
                    let path = up.push(b);
                    assert(hands_down::<Op>(t.nodes, up.last(), b));
                    assert forall|q: int| 0 < q < path.len() implies hands_down::<Op>(
                        t.nodes,
                        path[q - 1],
                        #[trigger] path[q],
                    ) by {
                        if q < up.len() {
                            assert(hands_down::<Op>(t.nodes, up[q - 1], up[q]));
                        }
                    }
                    assert(is_path::<Op>(t.nodes, path, output));
                    assert(path.last() == b);
                }
            }
        }
    }
}

/// Before a backward pass no slot has a gradient: none on the empty tape, and
/// pushing a node gives none to any slot.
pub proof fn no_gradient_before_backward<V>(
    t: TapeView<V>,
    op: V,
    inputs: Seq<Out>,
    outputs: Seq<Tensor>,
    out: Out,
)
    ensures
        TapeView::<V>::empty().grad_of(out) is None,
        t.pushed(op, inputs, outputs).grad_of(out) == t.grad_of(out),
{
}

// ---- weights ----

/// A backward pass keeps the weights of the tape, their gradients' buffers and
/// their order, whatever its ops are.
pub proof fn backward_keeps_params<Op: Backward>(
    t: TapeView<Op::V>,
    c: Seq<Init>,
    g: Seq<NodeView>,
    output: Out,
    grad_output: Tensor,
)
    ensures
        params_of::<Op>(
            back_tape(t, back_all::<Op>(t, c, g, output, grad_output)).nodes,
            t.nodes.len(),
        ) == params_of::<Op>(t.nodes, t.nodes.len()),
{
    let s0 = back_start(t.nodes, c, g, output, grad_output);
    let n = t.nodes.len();
    let s = back::<Op>(t.nodes, s0, n);
    lemma_back_keeps_ops::<Op>(t.nodes, s0, n);
    assert forall|i: int| 0 <= i < n implies Op::spec_param(
        (#[trigger] back_tape(t, s).nodes[i]).op,
    ) == Op::spec_param(t.nodes[i].op) by {
        assert(Op::spec_param(s.ops[i]) == Op::spec_param(s0.ops[i]));
    }
    lemma_same_params::<Op>(back_tape(t, s).nodes, t.nodes, n);
}

/// The ops keep their weights during the turns of the last `k` nodes.
proof fn lemma_back_keeps_ops<Op: Backward>(
    nodes: Seq<TapeNodeView<Op::V>>,
    s0: BackState<Op::V>,
    k: nat,
)
    requires
        k <= nodes.len() == s0.ops.len(),
    ensures
        ({
            let s = back::<Op>(nodes, s0, k);
            &&& s.ops.len() == s0.ops.len()
            &&& forall|i: int|
                0 <= i < s.ops.len() ==> Op::spec_param(#[trigger] s.ops[i]) == Op::spec_param(
                    s0.ops[i],
                )
        }),
    decreases k,
{
    if k > 0 {
        lemma_back_keeps_ops::<Op>(nodes, s0, (k - 1) as nat);
        let p = back::<Op>(nodes, s0, (k - 1) as nat);
        let at = nodes.len() - k;
        let (c, filled) = fill(p.ctx, p.grads[at], nodes[at].outputs, nodes[at].outputs.len());
        Op::bwd_keeps_param(p.ops[at], c, filled);
        let s = back::<Op>(nodes, s0, k);
        assert forall|i: int| 0 <= i < s.ops.len() implies Op::spec_param(#[trigger] s.ops[i])
            == Op::spec_param(s0.ops[i]) by {
            assert(Op::spec_param(p.ops[i]) == Op::spec_param(s0.ops[i]));
        }
    }
}

proof fn lemma_same_params<Op: Backward>(
    a: Seq<TapeNodeView<Op::V>>,
    b: Seq<TapeNodeView<Op::V>>,
    n: nat,
)
    requires
        n <= a.len() == b.len(),
        forall|i: int|
            0 <= i < n ==> Op::spec_param((#[trigger] a[i]).op) == Op::spec_param(b[i].op),
    ensures
        params_of::<Op>(a, n) == params_of::<Op>(b, n),
    decreases n,
{
    if n > 0 {
        lemma_same_params::<Op>(a, b, (n - 1) as nat);
        assert(Op::spec_param(a[n - 1].op) == Op::spec_param(b[n - 1].op));
    }
}

} // verus!
