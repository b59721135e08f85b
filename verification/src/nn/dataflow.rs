//! The flow of data through a forward pass over a training block: nothing is read
//! before it has been written, and what an op has saved for the backward pass stays
//! as it was. Ops save buffers rather than copies, so no dispatch behind an op may
//! change what the op has saved.
use super::arch::{self, Ext, Name, NodeSpecView};
use super::assemble;
use super::blocks;
use super::full_seq::{AttentionOpView, RopeQkOp, TrainOp, TrainOpView};
use super::kernels::Train;
use super::tape::{self, Forward, NodeId};
use super::weights::{self, BlockWeights};
use crate::config::ModelConfig;
use crate::device::{self, Init, Kernel, NodeView, Tensor, TensorMode};
use vstd::prelude::*;

verus! {

/// A kernel changes the buffer in slot `k`.
pub open spec fn changes_slot(kernel: Kernel, k: int) -> bool {
    match device::layout(kernel)[k] {
        TensorMode::Output | TensorMode::InOut | TensorMode::Accumulate => true,
        TensorMode::Input | TensorMode::Meta => false,
    }
}

/// A dispatch changes `t`.
pub open spec fn changes(n: NodeView, t: Tensor) -> bool {
    exists|k: int|
        0 <= k < n.buffers.len() && #[trigger] n.buffers[k] == t && changes_slot(n.kernel, k)
}

/// What an op has saved for its backward pass.
pub open spec fn saved(v: TrainOpView) -> Seq<Tensor> {
    match v {
        TrainOpView::Linear(op) => match op.saved_input {
            Some(x) => seq![x],
            None => Seq::empty(),
        },
        TrainOpView::RmsNorm(op) => match op.saved_input {
            Some(x) => seq![x],
            None => Seq::empty(),
        },
        TrainOpView::Silu(op) => match op.saved_input {
            Some(x) => seq![x],
            None => Seq::empty(),
        },
        TrainOpView::Attention(op) => match op.saved {
            Some(s) => seq![s.0, s.1, s.2],
            None => Seq::empty(),
        },
        _ => Seq::empty(),
    }
}

/// The buffers that an op owns for its results.
spec fn own(v: TrainOpView) -> Seq<Tensor> {
    match v {
        TrainOpView::Embedding(op) => seq![op.out],
        TrainOpView::Linear(op) => seq![op.out],
        TrainOpView::RmsNorm(op) => seq![op.out],
        TrainOpView::Silu(op) => seq![op.out],
        TrainOpView::Add(op) => seq![op.out],
        TrainOpView::QkvSplit(op) => seq![op.q, op.k, op.v],
        TrainOpView::Attention(op) => seq![op.out],
        TrainOpView::RopeQk(op) => Seq::empty(),
        TrainOpView::Leaf(x) => seq![x.value],
    }
}

/// All that a forward pass of the op may change: its own buffers, what it rotates
/// in place, and buffers that it creates.
spec fn in_reach(v: TrainOpView, c: Seq<Init>, xs: Seq<Tensor>, t: Tensor) -> bool {
    ||| own(v).contains(t)
    ||| v is RopeQk && (t == xs[0] || t == xs[1])
    ||| t.id >= c.len()
}

proof fn lemma_rope_changes(op: RopeQkOp, c: Seq<Init>, q: Tensor, k: Tensor, n: nat, m: int, t: Tensor)
    requires
        0 <= m < op.batch_nodes(c, q, k, n).len(),
        changes(op.batch_nodes(c, q, k, n)[m], t),
    ensures
        t == q || t == k,
    decreases n,
{
    if n > 0 {
        let prev = op.batch_nodes(c, q, k, (n - 1) as nat);
        if m < prev.len() {
            assert(op.batch_nodes(c, q, k, n)[m] == prev[m]);
            lemma_rope_changes(op, c, q, k, (n - 1) as nat, m, t);
        } else {
            let node = op.batch_nodes(c, q, k, n)[m];
            let s = choose|s: int|
                0 <= s < node.buffers.len() && #[trigger] node.buffers[s] == t && changes_slot(
                    node.kernel,
                    s,
                );
            assert(node.kernel == Kernel::RopeQk);
            assert(s == 0 || s == 1);
        }
    }
}

proof fn lemma_flash_len(op: AttentionOpView, c: Seq<Init>, n: nat)
    ensures
        op.fwd_ctx(c, n).len() == c.len() + 2 * n,
    decreases n,
{
    if n > 0 {
        lemma_flash_len(op, c, (n - 1) as nat);
    }
}

proof fn lemma_flash_changes(
    op: AttentionOpView,
    c: Seq<Init>,
    q: Tensor,
    k: Tensor,
    v: Tensor,
    n: nat,
    m: int,
    t: Tensor,
)
    requires
        0 <= m < op.fwd_nodes(c, q, k, v, n).len(),
        changes(op.fwd_nodes(c, q, k, v, n)[m], t),
        c.len() + 2 * n <= usize::MAX,
    ensures
        t == op.out || t.id >= c.len(),
    decreases n,
{
    if n > 0 {
        let prev = op.fwd_nodes(c, q, k, v, (n - 1) as nat);
        if m < prev.len() {
            assert(op.fwd_nodes(c, q, k, v, n)[m] == prev[m]);
            lemma_flash_changes(op, c, q, k, v, (n - 1) as nat, m, t);
        } else {
            lemma_flash_len(op, c, (n - 1) as nat);
            let node = op.fwd_nodes(c, q, k, v, n)[m];
            let s = choose|s: int|
                0 <= s < node.buffers.len() && #[trigger] node.buffers[s] == t && changes_slot(
                    node.kernel,
                    s,
                );
            assert(node.kernel == Kernel::FlashAttention);
            assert(s == 3 || s == 4);
        }
    }
}

/// An op changes nothing but what is in its reach.
proof fn lemma_op_changes(v: TrainOpView, c: Seq<Init>, xs: Seq<Tensor>, m: int, t: Tensor)
    requires
        0 <= m < <TrainOp as Forward<Train>>::fwd(v, c, xs).nodes.len(),
        changes(<TrainOp as Forward<Train>>::fwd(v, c, xs).nodes[m], t),
        <TrainOp as Forward<Train>>::fwd(v, c, xs).ctx.len() <= usize::MAX,
    ensures
        in_reach(v, c, xs, t),
{
    let f = <TrainOp as Forward<Train>>::fwd(v, c, xs);
    let node = f.nodes[m];
    let s = choose|s: int|
        0 <= s < node.buffers.len() && #[trigger] node.buffers[s] == t && changes_slot(
            node.kernel,
            s,
        );
    match v {
        TrainOpView::RopeQk(op) => {
            lemma_rope_changes(op, c, xs[0], xs[1], op.batch_size as nat, m, t);
        },
        TrainOpView::Attention(op) => {
            lemma_flash_len(op, c, op.batch_size as nat);
            lemma_flash_changes(op, c, xs[0], xs[1], xs[2], op.batch_size as nat, m, t);
            if t == op.out {
                assert(own(v)[0] == t);
            }
        },
        TrainOpView::QkvSplit(op) => {
            assert(m == 0);
            assert(s == 1 || s == 2 || s == 3);
            assert(own(v)[s - 1] == t);
        },
        TrainOpView::Silu(op) => {
            assert(m == 0 && s == 1);
            assert(own(v)[0] == t);
        },
        TrainOpView::Leaf(x) => {},
        _ => {
            assert(m == 0 && s == 2);
            assert(own(v)[0] == t);
        },
    }
}

/// What spec `j` runs on.
spec fn run_of(s: Ext<TrainOpView>, specs: Seq<NodeSpecView<TrainOpView>>, j: int) -> tape::Fwd<
    TrainOpView,
> {
    let p = arch::ext::<Train, TrainOp>(s, specs, j as nat);
    let xs = p.tape.outs(arch::resolve(p.names, specs[j].inputs));
    <TrainOp as Forward<Train>>::fwd(specs[j].op, p.ctx, xs)
}

/// An op only adds buffers.
proof fn lemma_op_ctx(v: TrainOpView, c: Seq<Init>, xs: Seq<Tensor>)
    ensures
        c.len() <= <TrainOp as Forward<Train>>::fwd(v, c, xs).ctx.len(),
{
    match v {
        TrainOpView::RopeQk(op) => {
            lemma_rope_len(op, c, op.batch_size as nat);
        },
        TrainOpView::Attention(op) => {
            lemma_flash_len(op, c, op.batch_size as nat);
        },
        _ => {},
    }
}

proof fn lemma_rope_len(op: RopeQkOp, c: Seq<Init>, n: nat)
    ensures
        op.batch_ctx(c, n).len() == c.len() + n,
    decreases n,
{
    if n > 0 {
        lemma_rope_len(op, c, (n - 1) as nat);
    }
}

/// Running more specs only adds buffers and dispatches.
proof fn lemma_runs_grow(s: Ext<TrainOpView>, specs: Seq<NodeSpecView<TrainOpView>>, a: nat, b: nat)
    requires
        a <= b,
    ensures
        ({
            let less = arch::ext::<Train, TrainOp>(s, specs, a);
            let more = arch::ext::<Train, TrainOp>(s, specs, b);
            &&& less.ctx.len() <= more.ctx.len()
            &&& less.emitted.is_prefix_of(more.emitted)
            &&& less.tape.nodes.is_prefix_of(more.tape.nodes)
        }),
    decreases b,
{
    if a < b {
        lemma_runs_grow(s, specs, a, (b - 1) as nat);
        let p = arch::ext::<Train, TrainOp>(s, specs, (b - 1) as nat);
        let xs = p.tape.outs(arch::resolve(p.names, specs[b - 1].inputs));
        lemma_op_ctx(specs[b - 1].op, p.ctx, xs);
    }
}

/// The spec that a dispatch comes from, and its place among that spec's own.
proof fn lemma_source(
    s: Ext<TrainOpView>,
    specs: Seq<NodeSpecView<TrainOpView>>,
    a: nat,
    b: nat,
    q: int,
) -> (r: (int, int))
    requires
        a <= b,
        arch::ext::<Train, TrainOp>(s, specs, a).emitted.len() <= q,
        q < arch::ext::<Train, TrainOp>(s, specs, b).emitted.len(),
    ensures
        a <= r.0 < b,
        0 <= r.1 < run_of(s, specs, r.0).nodes.len(),
        q == arch::ext::<Train, TrainOp>(s, specs, r.0 as nat).emitted.len() + r.1,
        arch::ext::<Train, TrainOp>(s, specs, b).emitted[q] == run_of(s, specs, r.0).nodes[r.1],
    decreases b,
{
    if a == b {
        (0, 0)
    } else {
        let p = arch::ext::<Train, TrainOp>(s, specs, (b - 1) as nat);
        if q < p.emitted.len() {
            lemma_source(s, specs, a, (b - 1) as nat, q)
        } else {
            (b - 1, q - p.emitted.len())
        }
    }
}

/// Where the buffers of a block's node `k` begin, counted from the block's first.
spec fn first_of(k: int) -> int {
    if k == 0 {
        0
    } else if k == 1 {
        5
    } else if k == 2 {
        9
    } else if k <= 4 {
        13
    } else if k == 5 {
        17
    } else if k == 6 {
        21
    } else if k == 7 {
        22
    } else if k == 8 {
        27
    } else if k == 9 {
        31
    } else if k == 10 {
        33
    } else if k == 11 {
        37
    } else {
        38
    }
}

/// Every node of a block owns buffers of its own, numbered in the order of the
/// nodes.
proof fn lemma_own(c: Seq<Init>, bw: BlockWeights, cfg: ModelConfig, k: int, m: int)
    requires
        c.len() + 38 <= usize::MAX,
        0 <= k < blocks::TRAIN_NODES,
        0 <= m < own(blocks::train_build(c, bw, cfg).1[k].op).len(),
    ensures
        ({
            let t = own(blocks::train_build(c, bw, cfg).1[k].op)[m];
            c.len() + first_of(k) <= t.id < c.len() + first_of(k + 1)
        }),
{
    reveal(blocks::train_build);
}

proof fn lemma_built(c: Seq<Init>, bw: BlockWeights, cfg: ModelConfig)
    ensures
        blocks::train_build(c, bw, cfg).0.len() == c.len() + 38,
        blocks::train_build(c, bw, cfg).1.len() == blocks::TRAIN_NODES,
        forall|k: int|
            0 <= k < blocks::TRAIN_NODES ==> {
                let op = (#[trigger] blocks::train_build(c, bw, cfg).1[k]).op;
                &&& op is RopeQk <==> k == 3
                &&& saved(op).len() == 0
            },
{
    reveal(blocks::train_build);
}

/// The tape of a block before its first spec runs, and its specs.
spec fn start_of(c: Seq<Init>, g: Seq<NodeView>, bw: BlockWeights, cfg: ModelConfig, x: Tensor) -> Ext<
    TrainOpView,
> {
    assemble::block_start(blocks::train_build(c, bw, cfg).0, g, x)
}

proof fn lemma_start(c: Seq<Init>, g: Seq<NodeView>, bw: BlockWeights, cfg: ModelConfig, x: Tensor)
    requires
        blocks::full_fits(cfg, bw, cfg.seq_len, cfg.batch_size),
    ensures
        arch::startable(start_of(c, g, bw, cfg, x), blocks::TRAIN_NODES as nat),
        arch::wired::<Train, TrainOp>(blocks::train_build(c, bw, cfg).1),
{
    let s = start_of(c, g, bw, cfg, x);
    blocks::lemma_train_wired(c, bw, cfg);
    assert(s.tape.nodes[0].outputs.len() == 1);
}

/// The node of spec `j` once `k` specs are on the tape.
proof fn lemma_node(s: Ext<TrainOpView>, specs: Seq<NodeSpecView<TrainOpView>>, k: nat, j: int)
    requires
        s.tape.nodes.len() == 1,
        arch::startable(s, specs.len()),
        arch::wired::<Train, TrainOp>(specs),
        0 <= j < k <= specs.len(),
    ensures
        ({
            let e = arch::ext::<Train, TrainOp>(s, specs, k);
            let node = e.tape.nodes[j + 1];
            let p = arch::ext::<Train, TrainOp>(s, specs, j as nat);
            let xs = p.tape.outs(node.inputs);
            let f = <TrainOp as Forward<Train>>::fwd(specs[j].op, p.ctx, xs);
            &&& node.op == f.next
            &&& node.outputs == f.outs
            &&& node.outputs.len() == <TrainOp as Forward<Train>>::n_out(specs[j].op)
            &&& node.inputs == arch::resolve(e.names, specs[j].inputs)
            &&& e.names[specs[j].name] == NodeId((j + 1) as usize)
            &&& e.tape.has_outs(j + 1, node.inputs)
            &&& specs[j].inputs.len() == <TrainOp as Forward<Train>>::n_in(specs[j].op)
        }),
{
    arch::lemma_ext::<Train, TrainOp>(s, specs, k);
    let e = arch::ext::<Train, TrainOp>(s, specs, k);
    assert(e.tape.nodes[1 + j] == e.tape.nodes[j + 1]);
    assert(e.names.contains_key(specs[j].name));
}

/// The tape's first node stays.
proof fn lemma_first(s: Ext<TrainOpView>, specs: Seq<NodeSpecView<TrainOpView>>, k: nat)
    requires
        s.tape.nodes.len() == 1,
        arch::startable(s, specs.len()),
        arch::wired::<Train, TrainOp>(specs),
        k <= specs.len(),
    ensures
        arch::ext::<Train, TrainOp>(s, specs, k).tape.nodes[0] == s.tape.nodes[0],
{
    arch::lemma_ext::<Train, TrainOp>(s, specs, k);
}

proof fn lemma_own_results(v: TrainOpView, c: Seq<Init>, xs: Seq<Tensor>)
    requires
        !(v is RopeQk),
    ensures
        <TrainOp as Forward<Train>>::fwd(v, c, xs).outs == own(v),
{
}

/// The results of a block's nodes lie in buffers that were made before those of
/// the nodes behind them; the rotation leaves its results where its inputs are.
proof fn lemma_results(
    c: Seq<Init>,
    g: Seq<NodeView>,
    bw: BlockWeights,
    cfg: ModelConfig,
    x: Tensor,
    k: nat,
    i: int,
)
    requires
        blocks::full_fits(cfg, bw, cfg.seq_len, cfg.batch_size),
        c.len() + 38 <= usize::MAX,
        x.id < c.len(),
        k <= blocks::TRAIN_NODES,
        0 <= i <= k,
    ensures
        ({
            let specs = blocks::train_build(c, bw, cfg).1;
            let outs = arch::ext::<Train, TrainOp>(
                start_of(c, g, bw, cfg, x),
                specs,
                k,
            ).tape.nodes[i].outputs;
            &&& forall|m: int| 0 <= m < outs.len() ==> (#[trigger] outs[m]).id < c.len() + first_of(i)
            &&& i == 3 ==> outs == own(specs[2].op)
        }),
    decreases i,
{
    let specs = blocks::train_build(c, bw, cfg).1;
    let s = start_of(c, g, bw, cfg, x);
    lemma_built(c, bw, cfg);
    lemma_start(c, g, bw, cfg, x);
    let e = arch::ext::<Train, TrainOp>(s, specs, k);
    let outs = e.tape.nodes[i].outputs;
    if i == 0 {
        lemma_first(s, specs, k);
        assert(outs =~= seq![x]);
    } else {
        let j = i - 1;
        lemma_node(s, specs, k, j);
        let p = arch::ext::<Train, TrainOp>(s, specs, j as nat);
        let xs = p.tape.outs(e.tape.nodes[i].inputs);
        if j == 3 {
            lemma_rotated(c, g, bw, cfg, x, k);
            lemma_own(c, bw, cfg, 2, 0);
            lemma_own(c, bw, cfg, 2, 1);
            assert(outs =~= seq![xs[0], xs[1]]);
        } else {
            assert(specs[j].op is RopeQk <==> j == 3);
            lemma_own_results(specs[j].op, p.ctx, xs);
            assert forall|m: int| 0 <= m < outs.len() implies (#[trigger] outs[m]).id < c.len()
                + first_of(i) by {
                lemma_own(c, bw, cfg, j, m);
            }
        }
    }
}

/// The rotation works on what the split has written.
proof fn lemma_rotated(
    c: Seq<Init>,
    g: Seq<NodeView>,
    bw: BlockWeights,
    cfg: ModelConfig,
    x: Tensor,
    k: nat,
)
    requires
        blocks::full_fits(cfg, bw, cfg.seq_len, cfg.batch_size),
        3 < k <= blocks::TRAIN_NODES,
    ensures
        ({
            let specs = blocks::train_build(c, bw, cfg).1;
            let s = start_of(c, g, bw, cfg, x);
            let e = arch::ext::<Train, TrainOp>(s, specs, k);
            let p = arch::ext::<Train, TrainOp>(s, specs, 3);
            let xs = p.tape.outs(e.tape.nodes[4].inputs);
            &&& own(specs[2].op).len() == 3
            &&& xs[0] == own(specs[2].op)[0]
            &&& xs[1] == own(specs[2].op)[1]
            &&& xs == p.tape.outs(arch::resolve(p.names, specs[3].inputs))
        }),
{
    let specs = blocks::train_build(c, bw, cfg).1;
    let s = start_of(c, g, bw, cfg, x);
    blocks::lemma_train_inputs(c, bw, cfg);
    lemma_built(c, bw, cfg);
    lemma_start(c, g, bw, cfg, x);
    assert(specs[2].name == blocks::train_name(2));
    assert(specs[3].inputs == blocks::train_inputs(3));
    lemma_node(s, specs, k, 2);
    lemma_node(s, specs, k, 3);
    lemma_node(s, specs, 3, 2);
    let e = arch::ext::<Train, TrainOp>(s, specs, k);
    let p = arch::ext::<Train, TrainOp>(s, specs, 3);
    assert(p.names[Name::Split] == NodeId(3) && e.names[Name::Split] == NodeId(3));
    assert(e.tape.nodes[4].inputs =~= seq![(NodeId(3), 0usize), (NodeId(3), 1usize)]);
    assert(arch::resolve(p.names, specs[3].inputs) =~= e.tape.nodes[4].inputs);
    assert(specs[2].op is RopeQk <==> 2int == 3);
    lemma_own_results(
        specs[2].op,
        arch::ext::<Train, TrainOp>(s, specs, 2).ctx,
        arch::ext::<Train, TrainOp>(s, specs, 2).tape.outs(p.tape.nodes[3].inputs),
    );
    assert(own(specs[2].op).len() == 3) by {
        reveal(blocks::train_build);
    }
}

/// What a node has saved lies in buffers that were made before its own.
proof fn lemma_saved(
    c: Seq<Init>,
    g: Seq<NodeView>,
    bw: BlockWeights,
    cfg: ModelConfig,
    x: Tensor,
    i: int,
    m: int,
)
    requires
        blocks::full_fits(cfg, bw, cfg.seq_len, cfg.batch_size),
        c.len() + 38 <= usize::MAX,
        x.id < c.len(),
        0 <= i < blocks::TRAIN_NODES,
        ({
            let specs = blocks::train_build(c, bw, cfg).1;
            let e = arch::ext::<Train, TrainOp>(start_of(c, g, bw, cfg, x), specs, specs.len());
            0 <= m < saved(e.tape.nodes[i + 1].op).len()
        }),
    ensures
        ({
            let specs = blocks::train_build(c, bw, cfg).1;
            let e = arch::ext::<Train, TrainOp>(start_of(c, g, bw, cfg, x), specs, specs.len());
            saved(e.tape.nodes[i + 1].op)[m].id < c.len() + first_of(i)
        }),
        i != 3,
{
    let specs = blocks::train_build(c, bw, cfg).1;
    let s = start_of(c, g, bw, cfg, x);
    lemma_built(c, bw, cfg);
    lemma_start(c, g, bw, cfg, x);
    let e = arch::ext::<Train, TrainOp>(s, specs, specs.len());
    let node = e.tape.nodes[i + 1];
    let p = arch::ext::<Train, TrainOp>(s, specs, i as nat);
    let xs = p.tape.outs(node.inputs);
    lemma_node(s, specs, specs.len(), i);
    assert(saved(specs[i].op).len() == 0);
    lemma_saved_inputs(specs[i].op, p.ctx, xs, m);
    assert(specs[i].op is RopeQk <==> i == 3);
    assert(e.tape.has_out(i + 1, node.inputs[m]));
    let id = node.inputs[m].0.0 as int;
    let slot = node.inputs[m].1 as int;
    lemma_results(c, g, bw, cfg, x, i as nat, id);
    if id == 0 {
        lemma_first(s, specs, i as nat);
        lemma_first(s, specs, specs.len());
    } else {
        lemma_node(s, specs, i as nat, id - 1);
        lemma_node(s, specs, specs.len(), id - 1);
    }
    assert(xs[m] == p.tape.nodes[id].outputs[slot]);
}

/// What an op saves are its inputs.
proof fn lemma_saved_inputs(v: TrainOpView, c: Seq<Init>, xs: Seq<Tensor>, m: int)
    requires
        saved(v).len() == 0,
        0 <= m < saved(<TrainOp as Forward<Train>>::fwd(v, c, xs).next).len(),
    ensures
        saved(<TrainOp as Forward<Train>>::fwd(v, c, xs).next)[m] == xs[m],
        m < <TrainOp as Forward<Train>>::n_in(v),
        !(v is RopeQk),
{
}

/// What an op of a training block has saved in its forward pass is still there
/// when its backward pass reads it: none of the dispatches from the op's own on
/// changes it.
pub proof fn saved_values_survive(
    c: Seq<Init>,
    g: Seq<NodeView>,
    bw: BlockWeights,
    cfg: ModelConfig,
    x: Tensor,
    i: int,
    m: int,
    q: int,
)
    requires
        blocks::full_fits(cfg, bw, cfg.seq_len, cfg.batch_size),
        x.id < c.len(),
        assemble::block_ext(c, g, bw, cfg, x).ctx.len() <= usize::MAX,
        0 <= i < blocks::TRAIN_NODES,
        0 <= m < saved(assemble::block_ext(c, g, bw, cfg, x).tape.nodes[i + 1].op).len(),
        ({
            let (c1, specs) = blocks::train_build(c, bw, cfg);
            let before = arch::ext::<Train, TrainOp>(
                assemble::block_start(c1, g, x),
                specs,
                i as nat,
            );
            before.emitted.len() <= q < assemble::block_ext(c, g, bw, cfg, x).emitted.len()
        }),
    ensures
        ({
            let e = assemble::block_ext(c, g, bw, cfg, x);
            !changes(e.emitted[q], saved(e.tape.nodes[i + 1].op)[m])
        }),
{
    reveal(assemble::block_ext);
    let specs = blocks::train_build(c, bw, cfg).1;
    let s = start_of(c, g, bw, cfg, x);
    let e = arch::ext::<Train, TrainOp>(s, specs, specs.len());
    let t = saved(e.tape.nodes[i + 1].op)[m];
    lemma_built(c, bw, cfg);
    lemma_runs_grow(s, specs, 0, specs.len());
    lemma_saved(c, g, bw, cfg, x, i, m);
    let (j, k) = lemma_source(s, specs, i as nat, specs.len(), q);
    if changes(e.emitted[q], t) {
        let p = arch::ext::<Train, TrainOp>(s, specs, j as nat);
        let xs = p.tape.outs(arch::resolve(p.names, specs[j].inputs));
        lemma_runs_grow(s, specs, (j + 1) as nat, specs.len());
        lemma_runs_grow(s, specs, 0, j as nat);
        lemma_op_changes(specs[j].op, p.ctx, xs, k, t);
        if own(specs[j].op).contains(t) {
            let at = choose|at: int| 0 <= at < own(specs[j].op).len() && own(specs[j].op)[at] == t;
            lemma_own(c, bw, cfg, j, at);
        } else if specs[j].op is RopeQk && (t == xs[0] || t == xs[1]) {
            lemma_rotated(c, g, bw, cfg, x, specs.len());
            lemma_own(c, bw, cfg, 2, 0);
            lemma_own(c, bw, cfg, 2, 1);
        }
    }
}

// ---- reads ----

/// A kernel reads the buffer in slot `k` as data.
pub open spec fn reads_slot(kernel: Kernel, k: int) -> bool {
    match device::layout(kernel)[k] {
        TensorMode::Input | TensorMode::InOut | TensorMode::Accumulate => true,
        TensorMode::Output | TensorMode::Meta => false,
    }
}

/// A dispatch reads `t`.
pub open spec fn reads(n: NodeView, t: Tensor) -> bool {
    exists|k: int|
        0 <= k < n.buffers.len() && #[trigger] n.buffers[k] == t && reads_slot(n.kernel, k)
}

proof fn lemma_rope_reads(op: RopeQkOp, c: Seq<Init>, q: Tensor, k: Tensor, n: nat, m: int, t: Tensor)
    requires
        0 <= m < op.batch_nodes(c, q, k, n).len(),
        reads(op.batch_nodes(c, q, k, n)[m], t),
    ensures
        t == q || t == k,
    decreases n,
{
    if n > 0 {
        let prev = op.batch_nodes(c, q, k, (n - 1) as nat);
        if m < prev.len() {
            assert(op.batch_nodes(c, q, k, n)[m] == prev[m]);
            lemma_rope_reads(op, c, q, k, (n - 1) as nat, m, t);
        } else {
            let node = op.batch_nodes(c, q, k, n)[m];
            let s = choose|s: int|
                0 <= s < node.buffers.len() && #[trigger] node.buffers[s] == t && reads_slot(
                    node.kernel,
                    s,
                );
            assert(node.kernel == Kernel::RopeQk);
            assert(s == 0 || s == 1);
        }
    }
}

proof fn lemma_flash_reads(
    op: AttentionOpView,
    c: Seq<Init>,
    q: Tensor,
    k: Tensor,
    v: Tensor,
    n: nat,
    m: int,
    t: Tensor,
)
    requires
        0 <= m < op.fwd_nodes(c, q, k, v, n).len(),
        reads(op.fwd_nodes(c, q, k, v, n)[m], t),
    ensures
        t == q || t == k || t == v,
    decreases n,
{
    if n > 0 {
        let prev = op.fwd_nodes(c, q, k, v, (n - 1) as nat);
        if m < prev.len() {
            assert(op.fwd_nodes(c, q, k, v, n)[m] == prev[m]);
            lemma_flash_reads(op, c, q, k, v, (n - 1) as nat, m, t);
        } else {
            let node = op.fwd_nodes(c, q, k, v, n)[m];
            let s = choose|s: int|
                0 <= s < node.buffers.len() && #[trigger] node.buffers[s] == t && reads_slot(
                    node.kernel,
                    s,
                );
            assert(node.kernel == Kernel::FlashAttention);
            assert(s == 0 || s == 1 || s == 2);
        }
    }
}

/// An op of a block reads its inputs and its weight.
proof fn lemma_op_reads(v: TrainOpView, c: Seq<Init>, xs: Seq<Tensor>, m: int, t: Tensor) -> (k: int)
    requires
        !(v is Embedding),
        xs.len() == <TrainOp as Forward<Train>>::n_in(v),
        0 <= m < <TrainOp as Forward<Train>>::fwd(v, c, xs).nodes.len(),
        reads(<TrainOp as Forward<Train>>::fwd(v, c, xs).nodes[m], t),
    ensures
        blocks::train_weight(v) == Some(t) || (0 <= k < xs.len() && xs[k] == t),
{
    let f = <TrainOp as Forward<Train>>::fwd(v, c, xs);
    let node = f.nodes[m];
    let s = choose|s: int|
        0 <= s < node.buffers.len() && #[trigger] node.buffers[s] == t && reads_slot(node.kernel, s);
    match v {
        TrainOpView::RopeQk(op) => {
            lemma_rope_reads(op, c, xs[0], xs[1], op.batch_size as nat, m, t);
            if t == xs[0] {
                0
            } else {
                1
            }
        },
        TrainOpView::Attention(op) => {
            lemma_flash_reads(op, c, xs[0], xs[1], xs[2], op.batch_size as nat, m, t);
            if t == xs[0] {
                0
            } else if t == xs[1] {
                1
            } else {
                2
            }
        },
        TrainOpView::Add(op) => {
            assert(m == 0 && (s == 0 || s == 1));
            s
        },
        _ => {
            assert(m == 0 && (s == 0 || s == 1));
            0
        },
    }
}

proof fn lemma_rope_nodes(op: RopeQkOp, c: Seq<Init>, q: Tensor, k: Tensor, n: nat)
    requires
        n > 0,
    ensures
        ({
            let nodes = op.batch_nodes(c, q, k, n);
            &&& nodes.len() == n
            &&& changes(nodes[n - 1], q)
            &&& changes(nodes[n - 1], k)
        }),
    decreases n,
{
    if n > 1 {
        lemma_rope_nodes(op, c, q, k, (n - 1) as nat);
    } else {
        assert(op.batch_nodes(c, q, k, 0).len() == 0);
    }
    let node = op.batch_nodes(c, q, k, n)[n - 1];
    assert(node.buffers[0] == q && changes_slot(node.kernel, 0));
    assert(node.buffers[1] == k && changes_slot(node.kernel, 1));
}

proof fn lemma_flash_nodes(op: AttentionOpView, c: Seq<Init>, q: Tensor, k: Tensor, v: Tensor, n: nat)
    requires
        n > 0,
    ensures
        ({
            let nodes = op.fwd_nodes(c, q, k, v, n);
            &&& nodes.len() == n
            &&& changes(nodes[n - 1], op.out)
        }),
    decreases n,
{
    if n > 1 {
        lemma_flash_nodes(op, c, q, k, v, (n - 1) as nat);
    } else {
        assert(op.fwd_nodes(c, q, k, v, 0).len() == 0);
    }
    let node = op.fwd_nodes(c, q, k, v, n)[n - 1];
    assert(node.buffers[3] == op.out && changes_slot(node.kernel, 3));
}

/// How many sequences an op runs over, one dispatch each.
spec fn batch_of(v: TrainOpView) -> int {
    match v {
        TrainOpView::RopeQk(op) => op.batch_size as int,
        TrainOpView::Attention(op) => op.batch_size as int,
        _ => 1,
    }
}

/// An op writes every result that it gives.
proof fn lemma_op_writes(v: TrainOpView, c: Seq<Init>, xs: Seq<Tensor>, slot: int) -> (m: int)
    requires
        !(v is Leaf),
        batch_of(v) > 0,
        0 <= slot < <TrainOp as Forward<Train>>::fwd(v, c, xs).outs.len(),
    ensures
        ({
            let f = <TrainOp as Forward<Train>>::fwd(v, c, xs);
            0 <= m < f.nodes.len() && changes(f.nodes[m], f.outs[slot])
        }),
{
    let f = <TrainOp as Forward<Train>>::fwd(v, c, xs);
    match v {
        TrainOpView::RopeQk(op) => {
            lemma_rope_nodes(op, c, xs[0], xs[1], op.batch_size as nat);
            op.batch_size - 1
        },
        TrainOpView::Attention(op) => {
            lemma_flash_nodes(op, c, xs[0], xs[1], xs[2], op.batch_size as nat);
            op.batch_size - 1
        },
        TrainOpView::QkvSplit(op) => {
            assert(f.nodes[0].buffers[slot + 1] == f.outs[slot]);
            assert(changes_slot(f.nodes[0].kernel, slot + 1));
            0
        },
        TrainOpView::Silu(op) => {
            assert(f.nodes[0].buffers[1] == f.outs[slot]);
            assert(changes_slot(f.nodes[0].kernel, 1));
            0
        },
        _ => {
            assert(f.nodes[0].buffers[2] == f.outs[slot]);
            assert(changes_slot(f.nodes[0].kernel, 2));
            0
        },
    }
}

proof fn lemma_kinds(c: Seq<Init>, bw: BlockWeights, cfg: ModelConfig, k: int)
    requires
        0 <= k < blocks::TRAIN_NODES,
        cfg.batch_size > 0,
    ensures
        ({
            let op = blocks::train_build(c, bw, cfg).1[k].op;
            &&& !(op is Leaf)
            &&& !(op is Embedding)
            &&& batch_of(op) > 0
        }),
{
    reveal(blocks::train_build);
}

/// What a spec runs on are the inputs of its node.
proof fn lemma_run(s: Ext<TrainOpView>, specs: Seq<NodeSpecView<TrainOpView>>, j: int)
    requires
        s.tape.nodes.len() == 1,
        arch::startable(s, specs.len()),
        arch::wired::<Train, TrainOp>(specs),
        0 <= j < specs.len(),
    ensures
        ({
            let e = arch::ext::<Train, TrainOp>(s, specs, specs.len());
            let p = arch::ext::<Train, TrainOp>(s, specs, j as nat);
            &&& arch::resolve(p.names, specs[j].inputs) == e.tape.nodes[j + 1].inputs
            &&& p.tape.nodes.len() == j + 1
            &&& p.tape.nodes.is_prefix_of(e.tape.nodes)
        }),
{
    arch::lemma_ext::<Train, TrainOp>(s, specs, j as nat);
    lemma_runs_grow(s, specs, (j + 1) as nat, specs.len());
    lemma_runs_grow(s, specs, j as nat, specs.len());
    let after = arch::ext::<Train, TrainOp>(s, specs, (j + 1) as nat);
    assert(after.tape.nodes.len() == j + 2);
    assert(after.tape.nodes[j + 1].inputs == arch::resolve(
        arch::ext::<Train, TrainOp>(s, specs, j as nat).names,
        specs[j].inputs,
    ));
}

/// The weight of a block's node is one of the block's.
proof fn lemma_weights(c: Seq<Init>, bw: BlockWeights, cfg: ModelConfig, j: int)
    requires
        0 <= j < blocks::TRAIN_NODES,
        blocks::train_weight(blocks::train_build(c, bw, cfg).1[j].op) is Some,
    ensures
        weights::block_order(bw).contains(
            blocks::train_weight(blocks::train_build(c, bw, cfg).1[j].op)->0,
        ),
{
    blocks::phases_share_weights(c, bw, cfg, bw.norm_1, bw.norm_1, 0, 0);
    let order = weights::block_order(bw);
    let w = blocks::train_weight(blocks::train_build(c, bw, cfg).1[j].op)->0;
    assert(blocks::weight_at(bw, 5, j) == Some(w));
    let at: int = if j <= 1 {
        j
    } else if j == 5 {
        2
    } else if j == 7 {
        3
    } else if j == 8 {
        4
    } else {
        5
    };
    assert(order[at] == w);
}

/// Where a result of node `w` is written, before spec `j` runs.
proof fn lemma_written(
    s: Ext<TrainOpView>,
    specs: Seq<NodeSpecView<TrainOpView>>,
    j: int,
    w: int,
    slot: int,
) -> (r: int)
    requires
        s.tape.nodes.len() == 1,
        arch::startable(s, specs.len()),
        arch::wired::<Train, TrainOp>(specs),
        0 <= w < j < specs.len(),
        !(specs[w].op is Leaf),
        batch_of(specs[w].op) > 0,
        0 <= slot < arch::ext::<Train, TrainOp>(
            s,
            specs,
            specs.len(),
        ).tape.nodes[w + 1].outputs.len(),
    ensures
        ({
            let e = arch::ext::<Train, TrainOp>(s, specs, specs.len());
            let p = arch::ext::<Train, TrainOp>(s, specs, j as nat);
            &&& s.emitted.len() <= r < p.emitted.len()
            &&& changes(e.emitted[r], e.tape.nodes[w + 1].outputs[slot])
        }),
{
    let e = arch::ext::<Train, TrainOp>(s, specs, specs.len());
    let before = arch::ext::<Train, TrainOp>(s, specs, w as nat);
    lemma_node(s, specs, specs.len(), w);
    lemma_run(s, specs, w);
    let xs = before.tape.outs(e.tape.nodes[w + 1].inputs);
    let at = lemma_op_writes(specs[w].op, before.ctx, xs, slot);
    let r = before.emitted.len() + at;
    assert(arch::ext::<Train, TrainOp>(s, specs, 0) == s);
    lemma_runs_grow(s, specs, 0, w as nat);
    lemma_runs_grow(s, specs, (w + 1) as nat, j as nat);
    lemma_runs_grow(s, specs, (w + 1) as nat, specs.len());
    let after = arch::ext::<Train, TrainOp>(s, specs, (w + 1) as nat);
    assert(after.emitted == before.emitted + run_of(s, specs, w).nodes);
    assert(after.emitted[r] == run_of(s, specs, w).nodes[at]);
    assert(e.emitted[r] == after.emitted[r]);
    r
}

/// A forward pass over a training block reads nothing before it is there: every
/// buffer that a dispatch reads is one of the block's weights, or the block's
/// input, or has been written by an earlier dispatch of the pass.
pub proof fn reads_follow_writes(
    c: Seq<Init>,
    g: Seq<NodeView>,
    bw: BlockWeights,
    cfg: ModelConfig,
    x: Tensor,
    q: int,
    t: Tensor,
)
    requires
        blocks::full_fits(cfg, bw, cfg.seq_len, cfg.batch_size),
        cfg.batch_size > 0,
        g.len() <= q < assemble::block_ext(c, g, bw, cfg, x).emitted.len(),
        reads(assemble::block_ext(c, g, bw, cfg, x).emitted[q], t),
    ensures
        ({
            let e = assemble::block_ext(c, g, bw, cfg, x);
            ||| t == x
            ||| weights::block_order(bw).contains(t)
            ||| exists|r: int| g.len() <= r < q && #[trigger] changes(e.emitted[r], t)
        }),
{
    reveal(assemble::block_ext);
    let specs = blocks::train_build(c, bw, cfg).1;
    let s = start_of(c, g, bw, cfg, x);
    let e = arch::ext::<Train, TrainOp>(s, specs, specs.len());
    lemma_built(c, bw, cfg);
    lemma_start(c, g, bw, cfg, x);
    assert(arch::ext::<Train, TrainOp>(s, specs, 0) == s);
    let (j, k) = lemma_source(s, specs, 0, specs.len(), q);
    let p = arch::ext::<Train, TrainOp>(s, specs, j as nat);
    let node = e.tape.nodes[j + 1];
    let xs = p.tape.outs(node.inputs);
    lemma_node(s, specs, specs.len(), j);
    lemma_run(s, specs, j);
    lemma_kinds(c, bw, cfg, j);
    lemma_runs_grow(s, specs, j as nat, specs.len());
    let m = lemma_op_reads(specs[j].op, p.ctx, xs, k, t);
    if blocks::train_weight(specs[j].op) == Some(t) {
        lemma_weights(c, bw, cfg, j);
    } else {
        assert(e.tape.has_out(j + 1, node.inputs[m]));
        let id = node.inputs[m].0.0 as int;
        let slot = node.inputs[m].1 as int;
        if id == 0 {
            lemma_first(s, specs, j as nat);
            lemma_first(s, specs, specs.len());
            assert(t == x);
        } else {
            lemma_kinds(c, bw, cfg, id - 1);
            assert(t == e.tape.nodes[id].outputs[slot]);
            let r = lemma_written(s, specs, j, id - 1, slot);
            assert(changes(e.emitted[r], t));
        }
    }
}

} // verus!
