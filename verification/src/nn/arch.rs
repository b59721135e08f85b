//! The transformer block as lists of named node specs, one list per phase, and
//! the tapes built from them.
use super::cached::{DecodeOp, DecodeOpView, PrefillOp, PrefillOpView};
use super::full_seq;
use super::full_seq::{AddOp, LinearOp, RmsNormOp, SiluOp, TrainOp, TrainOpView};
use super::kernels::meta::{MatMulMeta, NormMeta};
use super::kernels::{GraphBuilder, Phase};
use super::tape;
use super::tape::{Forward, NodeId, Out, Tape, TapeOp, TapeView};
use super::weights::BlockWeights;
use crate::device::{Context, Init, NodeView, Scalar, Tensor};
use vstd::prelude::*;

verus! {

/// The names of a block's nodes.
#[derive(Clone, Copy, Debug, PartialEq, Eq, Structural)]
pub enum Name {
    Input,
    N1,
    Qkv,
    Split,
    Rope,
    Q,
    K,
    V,
    RopeQ,
    RopeK,
    KWritten,
    VWritten,
    Attn,
    Proj,
    Add1,
    N2,
    Up,
    Silu,
    Down,
    Add2,
}

/// A node to push: its name, its inputs by name and slot, and its op.
pub struct NodeSpec<Op> {
    pub name: Name,
    pub inputs: Vec<(Name, usize)>,
    pub op: Op,
}

/// The value of a `NodeSpec`.
#[verifier::ext_equal]
pub struct NodeSpecView<V> {
    pub name: Name,
    pub inputs: Seq<(Name, usize)>,
    pub op: V,
}

impl<Op: TapeOp> View for NodeSpec<Op> {
    type V = NodeSpecView<Op::V>;

    open spec fn view(&self) -> NodeSpecView<Op::V> {
        NodeSpecView { name: self.name, inputs: self.inputs@, op: self.op.v() }
    }
}

/// The values of a list of specs.
pub open spec fn spec_views<Op: TapeOp>(specs: Seq<NodeSpec<Op>>) -> Seq<NodeSpecView<Op::V>> {
    Seq::new(specs.len(), |i: int| specs[i]@)
}

/// Which node each name stands for: the latest that was given it.
pub struct Names {
    entries: Vec<(Name, NodeId)>,
}

/// The map that a list of entries stands for, later entries first.
pub open spec fn name_map(entries: Seq<(Name, NodeId)>) -> Map<Name, NodeId>
    decreases entries.len(),
{
    if entries.len() == 0 {
        Map::empty()
    } else {
        name_map(entries.drop_last()).insert(entries.last().0, entries.last().1)
    }
}

impl View for Names {
    type V = Map<Name, NodeId>;

    closed spec fn view(&self) -> Map<Name, NodeId> {
        name_map(self.entries@)
    }
}

impl Names {
    pub fn new() -> (r: Names)
        ensures
            r@ == Map::<Name, NodeId>::empty(),
    {
        Names { entries: Vec::new() }
    }

    pub fn insert(&mut self, name: Name, id: NodeId)
        ensures
            final(self)@ == old(self)@.insert(name, id),
    {
        let ghost before = self.entries@;
        self.entries.push((name, id));
        assert(self.entries@.drop_last() =~= before);
    }

    pub fn get(&self, name: Name) -> (r: NodeId)
        requires
            self@.contains_key(name),
        ensures
            r == self@[name],
    {
        let mut i: usize = self.entries.len();
        proof {
            assert(self.entries@.subrange(0, i as int) =~= self.entries@);
        }
        while i > 0
            invariant
                0 <= i <= self.entries@.len(),
                name_map(self.entries@.subrange(0, i as int)).contains_key(name),
                name_map(self.entries@.subrange(0, i as int))[name] == self@[name],
            decreases i,
        {
            assert(self.entries@.subrange(0, i as int).drop_last() =~= self.entries@.subrange(
                0,
                i - 1,
            ));
            if self.entries[i - 1].0 == name {
                return self.entries[i - 1].1;
            }
            i = i - 1;
        }
        assert(false);
        NodeId(0)
    }
}

// ---- extending a tape ----

/// A tape under extension.
#[verifier::ext_equal]
pub struct Ext<V> {
    pub tape: TapeView<V>,
    pub ctx: Seq<Init>,
    pub emitted: Seq<NodeView>,
    pub names: Map<Name, NodeId>,
}

/// The output slots that named inputs stand for.
pub open spec fn resolve(names: Map<Name, NodeId>, inputs: Seq<(Name, usize)>) -> Seq<Out> {
    Seq::new(inputs.len(), |k: int| (names[inputs[k].0], inputs[k].1))
}

/// The extension by one spec: its op runs on what its inputs hold, and its name
/// stands for the new node from then on.
pub open spec fn ext_step<P: Phase, Op: Forward<P>>(
    s: Ext<Op::V>,
    spec_: NodeSpecView<Op::V>,
) -> Ext<Op::V> {
    let ins = resolve(s.names, spec_.inputs);
    let f = <Op as Forward<P>>::fwd(spec_.op, s.ctx, s.tape.outs(ins));
    Ext {
        tape: s.tape.pushed(f.next, ins, f.outs),
        ctx: f.ctx,
        emitted: s.emitted + f.nodes,
        names: s.names.insert(spec_.name, NodeId(s.tape.nodes.len() as usize)),
    }
}

/// The extension by the first `n` specs.
pub open spec fn ext<P: Phase, Op: Forward<P>>(
    s: Ext<Op::V>,
    specs: Seq<NodeSpecView<Op::V>>,
    n: nat,
) -> Ext<Op::V>
    decreases n,
{
    if n == 0 {
        s
    } else {
        ext_step::<P, Op>(ext::<P, Op>(s, specs, (n - 1) as nat), specs[n - 1])
    }
}

/// Spec `j` provides input `inp` of spec `k`.
pub open spec fn provides<P: Phase, Op: Forward<P>>(
    specs: Seq<NodeSpecView<Op::V>>,
    k: int,
    j: int,
    inp: (Name, usize),
) -> bool {
    0 <= j < k && specs[j].name == inp.0 && inp.1 < <Op as Forward<P>>::n_out(specs[j].op)
}

/// Input `inp` of spec `k` is the block's input, or an earlier spec provides it.
pub open spec fn sourced<P: Phase, Op: Forward<P>>(
    specs: Seq<NodeSpecView<Op::V>>,
    k: int,
    inp: (Name, usize),
) -> bool {
    (inp.0 == Name::Input && inp.1 == 0) || (exists|j: int| provides::<P, Op>(specs, k, j, inp))
}

/// Every spec's inputs come from the block's input or from earlier specs, every
/// op gets as many inputs as it takes, and no two specs share a name.
pub open spec fn wired<P: Phase, Op: Forward<P>>(specs: Seq<NodeSpecView<Op::V>>) -> bool {
    &&& forall|k: int|
        0 <= k < specs.len() ==> {
            &&& <Op as Forward<P>>::fits((#[trigger] specs[k]).op)
            &&& specs[k].inputs.len() == <Op as Forward<P>>::n_in(specs[k].op)
            &&& specs[k].name != Name::Input
        }
    &&& forall|k: int, m: int|
        0 <= k < specs.len() && 0 <= m < specs[k].inputs.len() ==> sourced::<P, Op>(
            specs,
            k,
            #[trigger] specs[k].inputs[m],
        )
    &&& forall|j: int, k: int|
        0 <= j < k < specs.len() ==> (#[trigger] specs[j]).name != (#[trigger] specs[k]).name
}

/// A tape on which a block can start: its input is the output of some node.
pub open spec fn startable<V>(s: Ext<V>, n: nat) -> bool {
    &&& s.tape.wf()
    &&& s.names.contains_key(Name::Input)
    &&& s.tape.has_out(s.tape.nodes.len() as int, (s.names[Name::Input], 0))
    &&& s.tape.nodes.len() + n <= usize::MAX
}

/// After `k` specs, spec `j`'s node stands at position `j` behind the tape's
/// earlier nodes, under its name, with its inputs resolved.
pub proof fn lemma_ext<P: Phase, Op: Forward<P>>(
    s: Ext<Op::V>,
    specs: Seq<NodeSpecView<Op::V>>,
    k: nat,
)
    requires
        startable(s, specs.len()),
        wired::<P, Op>(specs),
        k <= specs.len(),
    ensures
        ({
            let e = ext::<P, Op>(s, specs, k);
            let n0 = s.tape.nodes.len();
            &&& e.tape.wf()
            &&& e.tape.grads == s.tape.grads
            &&& e.tape.nodes.len() == n0 + k
            &&& e.names.contains_key(Name::Input)
            &&& e.names[Name::Input] == s.names[Name::Input]
            &&& forall|i: int| 0 <= i < n0 ==> #[trigger] e.tape.nodes[i] == s.tape.nodes[i]
            &&& forall|j: int|
                0 <= j < k ==> {
                    let node = e.tape.nodes[n0 + j];
                    &&& e.names.contains_key((#[trigger] specs[j]).name)
                    &&& e.names[specs[j].name] == NodeId((n0 + j) as usize)
                    &&& node.outputs.len() == <Op as Forward<P>>::n_out(specs[j].op)
                    &&& node.inputs == resolve(e.names, specs[j].inputs)
                    &&& ({
                        let p = ext::<P, Op>(s, specs, j as nat);
                        let f = <Op as Forward<P>>::fwd(specs[j].op, p.ctx, p.tape.outs(node.inputs));
                        node.op == f.next && node.outputs == f.outs
                    })
                }
            &&& k < specs.len() ==> {
                &&& e.tape.has_outs((n0 + k) as int, resolve(e.names, specs[k as int].inputs))
                &&& forall|m: int|
                    0 <= m < specs[k as int].inputs.len() ==> e.names.contains_key(
                        (#[trigger] specs[k as int].inputs[m]).0,
                    )
            }
        }),
    decreases k,
{
    let n0 = s.tape.nodes.len();
    if k > 0 {
        lemma_ext::<P, Op>(s, specs, (k - 1) as nat);
        let p = ext::<P, Op>(s, specs, (k - 1) as nat);
        let e = ext::<P, Op>(s, specs, k);
        let ins = resolve(p.names, specs[k - 1].inputs);
        let f = <Op as Forward<P>>::fwd(specs[k - 1].op, p.ctx, p.tape.outs(ins));
        <Op as Forward<P>>::fwd_gives_n_out(specs[k - 1].op, p.ctx, p.tape.outs(ins));
        assert(e.names == p.names.insert(specs[k - 1].name, NodeId((n0 + k - 1) as usize)));
        assert(specs[k - 1].name != Name::Input);
        assert forall|j: int, inp: (Name, usize)|
            #![trigger provides::<P, Op>(specs, k - 1, j, inp)]
            provides::<P, Op>(specs, k - 1, j, inp) implies e.names[inp.0] == p.names[inp.0] by {
            assert(specs[j].name != specs[k - 1].name);
        }
        assert forall|i: int| 0 <= i < e.tape.nodes.len() implies e.tape.has_outs(
            i,
            (#[trigger] e.tape.nodes[i]).inputs,
        ) by {
            if i < n0 + k - 1 {
                assert(p.tape.has_outs(i, p.tape.nodes[i].inputs));
                assert forall|m: int| 0 <= m < e.tape.nodes[i].inputs.len() implies e.tape.has_out(
                    i,
                    #[trigger] e.tape.nodes[i].inputs[m],
                ) by {
                    assert(p.tape.has_out(i, p.tape.nodes[i].inputs[m]));
                }
            } else {
                assert(p.tape.has_outs(i, ins));
                assert forall|m: int| 0 <= m < e.tape.nodes[i].inputs.len() implies e.tape.has_out(
                    i,
                    #[trigger] e.tape.nodes[i].inputs[m],
                ) by {
                    assert(p.tape.has_out(i, ins[m]));
                }
            }
        }
        assert forall|j: int| 0 <= j < k implies {
            let node = e.tape.nodes[n0 + j];
            &&& e.names.contains_key((#[trigger] specs[j]).name)
            &&& e.names[specs[j].name] == NodeId((n0 + j) as usize)
            &&& node.outputs.len() == <Op as Forward<P>>::n_out(specs[j].op)
            &&& node.inputs == resolve(e.names, specs[j].inputs)
            &&& ({
                let p = ext::<P, Op>(s, specs, j as nat);
                let f = <Op as Forward<P>>::fwd(specs[j].op, p.ctx, p.tape.outs(node.inputs));
                node.op == f.next && node.outputs == f.outs
            })
        } by {
            let node = e.tape.nodes[n0 + j];
            if j < k - 1 {
                assert(specs[j].name != specs[k - 1].name);
                assert(node == p.tape.nodes[n0 + j]);
            }
            // the inputs of spec j keep their nodes
            let ins_j = specs[j].inputs;
            assert forall|m: int| 0 <= m < ins_j.len() implies e.names[(#[trigger] ins_j[m]).0]
                == p.names[ins_j[m].0] by {
                assert(sourced::<P, Op>(specs, j, specs[j].inputs[m]));
                if !(ins_j[m].0 == Name::Input && ins_j[m].1 == 0) {
                    let w = choose|w: int| provides::<P, Op>(specs, j, w, ins_j[m]);
                    assert(specs[w].name != specs[k - 1].name);
                }
            }
            assert(resolve(e.names, ins_j) =~= resolve(p.names, ins_j));
        }
        if k < specs.len() {
            lemma_sources::<P, Op>(s, specs, k);
        }
    } else if k < specs.len() {
        lemma_sources::<P, Op>(s, specs, k);
    }
}

/// Where spec `j`'s node stands once all specs are on the tape.
pub proof fn lemma_ext_at<P: Phase, Op: Forward<P>>(
    s: Ext<Op::V>,
    specs: Seq<NodeSpecView<Op::V>>,
    j: int,
) -> (r: (Seq<Init>, Seq<Tensor>))
    requires
        startable(s, specs.len()),
        wired::<P, Op>(specs),
        0 <= j < specs.len(),
    ensures
        ({
            let e = ext::<P, Op>(s, specs, specs.len());
            let n0 = s.tape.nodes.len();
            let node = e.tape.nodes[n0 + j];
            &&& e.tape.nodes.len() == n0 + specs.len()
            &&& e.names[Name::Input] == s.names[Name::Input]
            &&& e.names[specs[j].name] == NodeId((n0 + j) as usize)
            &&& node.outputs.len() == <Op as Forward<P>>::n_out(specs[j].op)
            &&& node.inputs == resolve(e.names, specs[j].inputs)
            &&& node.op == <Op as Forward<P>>::fwd(specs[j].op, r.0, r.1).next
        }),
{
    lemma_ext::<P, Op>(s, specs, specs.len());
    let e = ext::<P, Op>(s, specs, specs.len());
    let node = e.tape.nodes[s.tape.nodes.len() + j];
    let p = ext::<P, Op>(s, specs, j as nat);
    assert(specs[j] == specs[j]);
    (p.ctx, p.tape.outs(node.inputs))
}

/// The inputs of spec `k` name outputs that the tape has.
proof fn lemma_sources<P: Phase, Op: Forward<P>>(
    s: Ext<Op::V>,
    specs: Seq<NodeSpecView<Op::V>>,
    k: nat,
)
    requires
        startable(s, specs.len()),
        wired::<P, Op>(specs),
        k < specs.len(),
        ({
            let e = ext::<P, Op>(s, specs, k);
            let n0 = s.tape.nodes.len();
            &&& e.tape.nodes.len() == n0 + k
            &&& e.names.contains_key(Name::Input)
            &&& e.names[Name::Input] == s.names[Name::Input]
            &&& forall|i: int| 0 <= i < n0 ==> #[trigger] e.tape.nodes[i] == s.tape.nodes[i]
            &&& forall|j: int|
                0 <= j < k ==> {
                    &&& e.names.contains_key((#[trigger] specs[j]).name)
                    &&& e.names[specs[j].name] == NodeId((n0 + j) as usize)
                    &&& e.tape.nodes[n0 + j].outputs.len() == <Op as Forward<P>>::n_out(specs[j].op)
                }
        }),
    ensures
        ({
            let e = ext::<P, Op>(s, specs, k);
            let n0 = s.tape.nodes.len();
            &&& e.tape.has_outs((n0 + k) as int, resolve(e.names, specs[k as int].inputs))
            &&& forall|m: int|
                0 <= m < specs[k as int].inputs.len() ==> e.names.contains_key(
                    (#[trigger] specs[k as int].inputs[m]).0,
                )
        }),
{
    let e = ext::<P, Op>(s, specs, k);
    let n0 = s.tape.nodes.len();
    let inputs = specs[k as int].inputs;
    let ins = resolve(e.names, inputs);
    assert forall|m: int| 0 <= m < inputs.len() implies e.names.contains_key((#[trigger] inputs[m]).0)
        && e.tape.has_out((n0 + k) as int, ins[m]) by {
        assert(sourced::<P, Op>(specs, k as int, specs[k as int].inputs[m]));
        if inputs[m].0 == Name::Input && inputs[m].1 == 0 {
            let id = s.names[Name::Input].0 as int;
            assert(e.tape.nodes[id] == s.tape.nodes[id]);
        } else {
            let w = choose|w: int| provides::<P, Op>(specs, k as int, w, inputs[m]);
            assert(specs[w].name == inputs[m].0);
        }
    }
    assert forall|m: int| 0 <= m < ins.len() implies e.tape.has_out((n0 + k) as int, #[trigger] ins[m]) by {
        assert(e.names.contains_key(inputs[m].0));
    }
}

/// Pushes every spec in order; the last one's node is the result.
pub fn extend<P: Phase, Op: Forward<P>>(
    tape: &mut Tape<Op>,
    ctx: &mut Context,
    gb: &mut GraphBuilder<P>,
    names: &mut Names,
    specs: Vec<NodeSpec<Op>>,
) -> (r: NodeId)
    requires
        specs@.len() > 0,
        wired::<P, Op>(spec_views(specs@)),
        startable(
            (Ext { tape: old(tape)@, ctx: old(ctx)@, emitted: old(gb).graph@, names: old(names)@ }),
            specs@.len(),
        ),
    ensures
        ({
            let e = ext::<P, Op>(
                Ext {
                    tape: old(tape)@,
                    ctx: old(ctx)@,
                    emitted: old(gb).graph@,
                    names: old(names)@,
                },
                spec_views(specs@),
                specs@.len(),
            );
            &&& final(tape)@ == e.tape
            &&& final(ctx)@ == e.ctx
            &&& final(gb).graph@ == e.emitted
            &&& final(names)@ == e.names
        }),
        r.0 == old(tape)@.nodes.len() + specs@.len() - 1,
{
    let ghost s = Ext { tape: tape@, ctx: ctx@, emitted: gb.graph@, names: names@ };
    let ghost all = spec_views(specs@);
    let n: usize = specs.len();
    let mut rest = specs;
    let mut last = NodeId(0);
    let mut k: usize = 0;
    while k < n
        invariant
            k <= n == all.len(),
            wired::<P, Op>(all),
            startable(s, all.len()),
            rest@.len() == n - k,
            forall|i: int| 0 <= i < n - k ==> (#[trigger] rest@[i])@ == all[k + i],
            ({
                let e = ext::<P, Op>(s, all, k as nat);
                &&& tape@ == e.tape
                &&& ctx@ == e.ctx
                &&& gb.graph@ == e.emitted
                &&& names@ == e.names
            }),
            k > 0 ==> last.0 == s.tape.nodes.len() + k - 1,
        decreases n - k,
    {
        proof {
            lemma_ext::<P, Op>(s, all, k as nat);
        }
        let ghost e = ext::<P, Op>(s, all, k as nat);
        assert(rest@[0]@ == all[k as int]);
        let spec_ = rest.remove(0);
        let mut ins: Vec<Out> = Vec::new();
        let mut m: usize = 0;
        while m < spec_.inputs.len()
            invariant
                m <= spec_.inputs@.len(),
                names@ == e.names,
                forall|m: int|
                    0 <= m < spec_.inputs@.len() ==> e.names.contains_key(
                        (#[trigger] spec_.inputs@[m]).0,
                    ),
                ins@ == resolve(e.names, spec_.inputs@).subrange(0, m as int),
            decreases spec_.inputs@.len() - m,
        {
            let (name, slot) = spec_.inputs[m];
            assert(e.names.contains_key(spec_.inputs@[m as int].0));
            let id = names.get(name);
            ins.push((id, slot));
            m = m + 1;
            assert(ins@ =~= resolve(e.names, spec_.inputs@).subrange(0, m as int));
        }
        assert(ins@ =~= resolve(e.names, all[k as int].inputs));
        let name = spec_.name;
        last = tape.push(ctx, gb, spec_.op, ins);
        names.insert(name, last);
        k = k + 1;
    }
    last
}

// ---- block specs ----

/// An op set with the ops that every phase shares.
pub trait CoreOps: TapeOp {
    spec fn spec_norm(op: RmsNormOp) -> Self::V;

    fn from_norm(op: RmsNormOp) -> (r: Self)
        ensures
            r.v() == Self::spec_norm(op),
    ;

    spec fn spec_linear(op: LinearOp) -> Self::V;

    fn from_linear(op: LinearOp) -> (r: Self)
        ensures
            r.v() == Self::spec_linear(op),
    ;

    spec fn spec_add(op: AddOp) -> Self::V;

    fn from_add(op: AddOp) -> (r: Self)
        ensures
            r.v() == Self::spec_add(op),
    ;

    spec fn spec_silu(op: SiluOp) -> Self::V;

    fn from_silu(op: SiluOp) -> (r: Self)
        ensures
            r.v() == Self::spec_silu(op),
    ;
}

impl CoreOps for TrainOp {
    open spec fn spec_norm(op: RmsNormOp) -> TrainOpView {
        TrainOpView::RmsNorm(op)
    }

    fn from_norm(op: RmsNormOp) -> Self {
        TrainOp::RmsNorm(op)
    }

    open spec fn spec_linear(op: LinearOp) -> TrainOpView {
        TrainOpView::Linear(op)
    }

    fn from_linear(op: LinearOp) -> Self {
        TrainOp::Linear(op)
    }

    open spec fn spec_add(op: AddOp) -> TrainOpView {
        TrainOpView::Add(op)
    }

    fn from_add(op: AddOp) -> Self {
        TrainOp::Add(op)
    }

    open spec fn spec_silu(op: SiluOp) -> TrainOpView {
        TrainOpView::Silu(op)
    }

    fn from_silu(op: SiluOp) -> Self {
        TrainOp::Silu(op)
    }
}

impl CoreOps for PrefillOp {
    open spec fn spec_norm(op: RmsNormOp) -> PrefillOpView {
        PrefillOpView::RmsNorm(op)
    }

    fn from_norm(op: RmsNormOp) -> Self {
        PrefillOp::RmsNorm(op)
    }

    open spec fn spec_linear(op: LinearOp) -> PrefillOpView {
        PrefillOpView::Linear(op)
    }

    fn from_linear(op: LinearOp) -> Self {
        PrefillOp::Linear(op)
    }

    open spec fn spec_add(op: AddOp) -> PrefillOpView {
        PrefillOpView::Add(op)
    }

    fn from_add(op: AddOp) -> Self {
        PrefillOp::Add(op)
    }

    open spec fn spec_silu(op: SiluOp) -> PrefillOpView {
        PrefillOpView::Silu(op)
    }

    fn from_silu(op: SiluOp) -> Self {
        PrefillOp::Silu(op)
    }
}

impl CoreOps for DecodeOp {
    open spec fn spec_norm(op: RmsNormOp) -> DecodeOpView {
        DecodeOpView::RmsNorm(op)
    }

    fn from_norm(op: RmsNormOp) -> Self {
        DecodeOp::RmsNorm(op)
    }

    open spec fn spec_linear(op: LinearOp) -> DecodeOpView {
        DecodeOpView::Linear(op)
    }

    fn from_linear(op: LinearOp) -> Self {
        DecodeOp::Linear(op)
    }

    open spec fn spec_add(op: AddOp) -> DecodeOpView {
        DecodeOpView::Add(op)
    }

    fn from_add(op: AddOp) -> Self {
        DecodeOp::Add(op)
    }

    open spec fn spec_silu(op: SiluOp) -> DecodeOpView {
        DecodeOpView::Silu(op)
    }

    fn from_silu(op: SiluOp) -> Self {
        DecodeOp::Silu(op)
    }
}

/// The row counts and widths whose buffers can be tiled in 32 bits.
pub open spec fn sizes_ok(rows: u32, dim: u32, hidden: u32) -> bool {
    &&& rows + 15 <= u32::MAX
    &&& 3 * dim + 255 <= u32::MAX
    &&& hidden + 255 <= u32::MAX
    &&& 3 * (rows * dim) + 255 <= u32::MAX
    &&& rows * hidden + 255 <= u32::MAX
}

/// The weights of a block can be counted in 32 bits.
pub open spec fn weights_ok(bw: BlockWeights) -> bool {
    &&& tape::elems(bw.norm_1) <= u32::MAX
    &&& tape::elems(bw.qkv_proj) <= u32::MAX
    &&& tape::elems(bw.out_proj) <= u32::MAX
    &&& tape::elems(bw.norm_2) <= u32::MAX
    &&& tape::elems(bw.ffn_up) <= u32::MAX
    &&& tape::elems(bw.ffn_down) <= u32::MAX
}

pub proof fn lemma_sizes(rows: u32, dim: u32, hidden: u32)
    requires
        sizes_ok(rows, dim, hidden),
    ensures
        0 <= rows * dim,
        0 <= rows * hidden,
        rows * dim * 3 == 3 * (rows * dim),
        full_seq::linear_ok(MatMulMeta { m: rows, n: (dim * 3) as u32, k: dim }),
        full_seq::linear_ok(MatMulMeta { m: rows, n: dim, k: dim }),
        full_seq::linear_ok(MatMulMeta { m: rows, n: hidden, k: dim }),
        full_seq::linear_ok(MatMulMeta { m: rows, n: dim, k: hidden }),
{
    assert(0 <= rows * dim && 0 <= rows * hidden && rows * (dim * 3) == 3 * (rows * dim) && rows
        * dim * 3 == 3 * (rows * dim)) by (nonlinear_arith);
}

/// `n1` -> `qkv` projection -- identical in every phase.
pub open spec fn prologue<Op: CoreOps>(
    c: Seq<Init>,
    bw: BlockWeights,
    rows: u32,
    dim: u32,
    eps: Scalar,
) -> (Seq<Init>, Seq<NodeSpecView<Op::V>>) {
    let (c1, n1) = RmsNormOp::build(c, bw.norm_1, NormMeta { seq_len: rows, size: dim, eps });
    let (c2, qkv) = LinearOp::build(
        c1,
        bw.qkv_proj,
        MatMulMeta { m: rows, n: (dim * 3) as u32, k: dim },
        true,
    );
    (
        c2,
        seq![
            NodeSpecView { name: Name::N1, inputs: seq![(Name::Input, 0usize)], op: Op::spec_norm(n1) },
            NodeSpecView { name: Name::Qkv, inputs: seq![(Name::N1, 0usize)], op: Op::spec_linear(qkv) },
        ],
    )
}

pub fn one_input(a: (Name, usize)) -> (r: Vec<(Name, usize)>)
    ensures
        r@ == seq![a],
{
    let r = vec![a];
    assert(r@ =~= seq![a]);
    r
}

pub fn block_prologue_specs<Op: CoreOps>(
    ctx: &mut Context,
    bw: &BlockWeights,
    rows: u32,
    dim: u32,
    eps: Scalar,
) -> (r: Vec<NodeSpec<Op>>)
    requires
        weights_ok(*bw),
        exists|hidden: u32| sizes_ok(rows, dim, hidden),
    ensures
        (final(ctx)@, spec_views(r@)) == prologue::<Op>(old(ctx)@, *bw, rows, dim, eps),
{
    let ghost c = ctx@;
    proof {
        lemma_sizes(rows, dim, choose|hidden: u32| sizes_ok(rows, dim, hidden));
    }
    let n1 = RmsNormOp::new(ctx, bw.norm_1, NormMeta { seq_len: rows, size: dim, eps });
    let qkv = LinearOp::new(ctx, bw.qkv_proj, MatMulMeta { m: rows, n: dim * 3, k: dim }, true);
    let r = vec![
        NodeSpec { name: Name::N1, inputs: one_input((Name::Input, 0)), op: Op::from_norm(n1) },
        NodeSpec { name: Name::Qkv, inputs: one_input((Name::N1, 0)), op: Op::from_linear(qkv) },
    ];
    assert(spec_views(r@) =~= prologue::<Op>(c, *bw, rows, dim, eps).1);
    r
}

/// `out_proj` -> add -> `n2` -> ffn -> add -- identical in every phase; reads
/// the node named `Attn`.
pub open spec fn epilogue<Op: CoreOps>(
    c: Seq<Init>,
    bw: BlockWeights,
    rows: u32,
    dim: u32,
    hidden: u32,
    eps: Scalar,
) -> (Seq<Init>, Seq<NodeSpecView<Op::V>>) {
    let (c1, proj) = LinearOp::build(c, bw.out_proj, MatMulMeta { m: rows, n: dim, k: dim }, true);
    let (c2, add1) = AddOp::build(c1, (rows * dim) as u32);
    let (c3, n2) = RmsNormOp::build(c2, bw.norm_2, NormMeta { seq_len: rows, size: dim, eps });
    let (c4, up) = LinearOp::build(c3, bw.ffn_up, MatMulMeta { m: rows, n: hidden, k: dim }, true);
    let (c5, silu) = SiluOp::build(c4, (rows * hidden) as u32);
    let (c6, down) = LinearOp::build(
        c5,
        bw.ffn_down,
        MatMulMeta { m: rows, n: dim, k: hidden },
        true,
    );
    let (c7, add2) = AddOp::build(c6, (rows * dim) as u32);
    (
        c7,
        seq![
            NodeSpecView {
                name: Name::Proj,
                inputs: seq![(Name::Attn, 0usize)],
                op: Op::spec_linear(proj),
            },
            NodeSpecView {
                name: Name::Add1,
                inputs: seq![(Name::Input, 0usize), (Name::Proj, 0usize)],
                op: Op::spec_add(add1),
            },
            NodeSpecView { name: Name::N2, inputs: seq![(Name::Add1, 0usize)], op: Op::spec_norm(n2) },
            NodeSpecView { name: Name::Up, inputs: seq![(Name::N2, 0usize)], op: Op::spec_linear(up) },
            NodeSpecView {
                name: Name::Silu,
                inputs: seq![(Name::Up, 0usize)],
                op: Op::spec_silu(silu),
            },
            NodeSpecView {
                name: Name::Down,
                inputs: seq![(Name::Silu, 0usize)],
                op: Op::spec_linear(down),
            },
            NodeSpecView {
                name: Name::Add2,
                inputs: seq![(Name::Add1, 0usize), (Name::Down, 0usize)],
                op: Op::spec_add(add2),
            },
        ],
    )
}

pub fn block_epilogue_specs<Op: CoreOps>(
    ctx: &mut Context,
    bw: &BlockWeights,
    rows: u32,
    dim: u32,
    hidden: u32,
    eps: Scalar,
) -> (r: Vec<NodeSpec<Op>>)
    requires
        weights_ok(*bw),
        sizes_ok(rows, dim, hidden),
    ensures
        (final(ctx)@, spec_views(r@)) == epilogue::<Op>(old(ctx)@, *bw, rows, dim, hidden, eps),
{
    let ghost c = ctx@;
    proof {
        lemma_sizes(rows, dim, hidden);
    }
    let proj = LinearOp::new(ctx, bw.out_proj, MatMulMeta { m: rows, n: dim, k: dim }, true);
    let add1 = AddOp::new(ctx, rows * dim);
    let n2 = RmsNormOp::new(ctx, bw.norm_2, NormMeta { seq_len: rows, size: dim, eps });
    let up = LinearOp::new(ctx, bw.ffn_up, MatMulMeta { m: rows, n: hidden, k: dim }, true);
    let silu = SiluOp::new(ctx, rows * hidden);
    let down = LinearOp::new(ctx, bw.ffn_down, MatMulMeta { m: rows, n: dim, k: hidden }, true);
    let add2 = AddOp::new(ctx, rows * dim);
    let r = vec![
        NodeSpec { name: Name::Proj, inputs: one_input((Name::Attn, 0)), op: Op::from_linear(proj) },
        NodeSpec {
            name: Name::Add1,
            inputs: vec![(Name::Input, 0), (Name::Proj, 0)],
            op: Op::from_add(add1),
        },
        NodeSpec { name: Name::N2, inputs: one_input((Name::Add1, 0)), op: Op::from_norm(n2) },
        NodeSpec { name: Name::Up, inputs: one_input((Name::N2, 0)), op: Op::from_linear(up) },
        NodeSpec { name: Name::Silu, inputs: one_input((Name::Up, 0)), op: Op::from_silu(silu) },
        NodeSpec { name: Name::Down, inputs: one_input((Name::Silu, 0)), op: Op::from_linear(down) },
        NodeSpec {
            name: Name::Add2,
            inputs: vec![(Name::Add1, 0), (Name::Down, 0)],
            op: Op::from_add(add2),
        },
    ];
    assert(spec_views(r@) =~= epilogue::<Op>(c, *bw, rows, dim, hidden, eps).1);
    r
}

} // verus!
