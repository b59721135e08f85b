//! Gradient clipping by the global norm: partial sums of squares of every
//! gradient, one clip factor, and a scaling of every gradient.
use super::kernels::emit;
use super::kernels::meta::{GradNormMeta, GradSumSqMeta, KernelMeta, Meta, ZeroMeta};
use super::kernels::GraphBuilder;
use super::meaning::{self, Memory, Term};
use super::tape;
use crate::device;
use crate::device::{ComputeGraph, Context, Init, Kernel, NodeView, Scalar, Tensor};
use vstd::prelude::*;

verus! {

pub struct GlobalNormClip {
    pub graph: ComputeGraph,
}

/// Number of partial sums of gradient `g`.
pub open spec fn partials(g: Tensor) -> int {
    emit::spec_grad_sumsq_wgs(tape::elems(g) as u32) as int
}

/// Where the partial sums of gradient `n` start: behind those of the gradients
/// before it.
pub open spec fn offset(grads: Seq<Tensor>, n: nat) -> int
    decreases n,
{
    if n == 0 {
        0
    } else {
        offset(grads, (n - 1) as nat) + partials(grads[n - 1])
    }
}

pub open spec fn sumsq_shape(grads: Seq<Tensor>, i: int) -> GradSumSqMeta {
    GradSumSqMeta { len: tape::elems(grads[i]) as u32, out_offset: offset(grads, i as nat) as u32 }
}

pub open spec fn scale_shape(g: Tensor) -> ZeroMeta {
    ZeroMeta { len: tape::elems(g) as u32 }
}

/// The metas of the first `n` partial sums, behind `c`.
pub open spec fn sumsq_ctx(c: Seq<Init>, grads: Seq<Tensor>, n: nat) -> Seq<Init>
    decreases n,
{
    if n == 0 {
        c
    } else {
        device::push_meta(
            sumsq_ctx(c, grads, (n - 1) as nat),
            sumsq_shape(grads, n - 1).spec_meta(),
        )
    }
}

/// The dispatches of the first `n` partial sums.
pub open spec fn sumsq_nodes(c: Seq<Init>, grads: Seq<Tensor>, partials_buf: Tensor, n: nat) -> Seq<
    NodeView,
>
    decreases n,
{
    if n == 0 {
        Seq::empty()
    } else {
        let shape = sumsq_shape(grads, n - 1);
        sumsq_nodes(c, grads, partials_buf, (n - 1) as nat).push(
            emit::grad_sumsq_node(
                grads[n - 1],
                partials_buf,
                shape,
                device::next_meta(sumsq_ctx(c, grads, (n - 1) as nat), shape.spec_meta()),
            ),
        )
    }
}

/// The metas of the first `n` scalings, behind `c`.
pub open spec fn scale_ctx(c: Seq<Init>, grads: Seq<Tensor>, n: nat) -> Seq<Init>
    decreases n,
{
    if n == 0 {
        c
    } else {
        device::push_meta(
            scale_ctx(c, grads, (n - 1) as nat),
            scale_shape(grads[n - 1]).spec_meta(),
        )
    }
}

/// The dispatches of the first `n` scalings.
pub open spec fn scale_nodes(c: Seq<Init>, grads: Seq<Tensor>, scale: Tensor, n: nat) -> Seq<NodeView>
    decreases n,
{
    if n == 0 {
        Seq::empty()
    } else {
        let shape = scale_shape(grads[n - 1]);
        scale_nodes(c, grads, scale, (n - 1) as nat).push(
            emit::grad_scale_node(
                grads[n - 1],
                scale,
                shape.len,
                device::next_meta(scale_ctx(c, grads, (n - 1) as nat), shape.spec_meta()),
            ),
        )
    }
}

/// The context and the graph that `GlobalNormClip::new` leaves in `c`.
pub open spec fn clip_build(c: Seq<Init>, grads: Seq<Tensor>, max_norm: Scalar) -> (
    Seq<Init>,
    Seq<NodeView>,
) {
    let n = grads.len();
    let total = offset(grads, n);
    let one = Init::Fill(1, Scalar::Dec { digits: 1, places: 0 });
    let partials_buf = device::next_zeros(c, total);
    let c1 = device::push_zeros(c, total);
    let scale = device::next_tensor(c1, one);
    let c2 = c1.push(one);
    let norm = GradNormMeta { num_partials: total as u32, max_norm };
    let c3 = sumsq_ctx(c2, grads, n);
    let c4 = device::push_meta(c3, norm.spec_meta());
    (
        scale_ctx(c4, grads, n),
        sumsq_nodes(c2, grads, partials_buf, n).push(
            emit::grad_norm_scale_node(
                partials_buf,
                scale,
                norm,
                device::next_meta(c3, norm.spec_meta()),
            ),
        ) + scale_nodes(c4, grads, scale, n),
    )
}

proof fn lemma_offset_monotone(grads: Seq<Tensor>, i: nat, j: nat)
    requires
        i <= j,
    ensures
        0 <= offset(grads, i) <= offset(grads, j),
    decreases j,
{
    if i < j {
        lemma_offset_monotone(grads, i, (j - 1) as nat);
    } else if j > 0 {
        lemma_offset_monotone(grads, (i - 1) as nat, (j - 1) as nat);
    }
}

/// The partial sums of two gradients never overlap, and all of them lie within
/// the partials buffer.
pub proof fn partials_are_disjoint(grads: Seq<Tensor>, i: int, j: int)
    requires
        0 <= i < j < grads.len(),
    ensures
        0 <= offset(grads, i as nat),
        offset(grads, i as nat) + partials(grads[i]) <= offset(grads, j as nat),
        offset(grads, j as nat) + partials(grads[j]) <= offset(grads, grads.len()),
        1 <= partials(grads[i]) <= 256,
{
    lemma_offset_monotone(grads, 0, i as nat);
    lemma_offset_monotone(grads, (i + 1) as nat, j as nat);
    lemma_offset_monotone(grads, (j + 1) as nat, grads.len());
}

impl GlobalNormClip {
    pub fn new(ctx: &mut Context, grads: &Vec<Tensor>, max_norm: Scalar) -> (r: Self)
        requires
            tape::all_small(grads@),
            offset(grads@, grads@.len()) <= u32::MAX,
        ensures
            (final(ctx)@, r.graph@) == clip_build(old(ctx)@, grads@, max_norm),
    {
        let ghost n = grads@.len();
        let mut total_partials: u32 = 0;
        let mut i: usize = 0;
        while i < grads.len()
            invariant
                i <= grads@.len() == n,
                tape::all_small(grads@),
                offset(grads@, n) <= u32::MAX,
                total_partials == offset(grads@, i as nat),
            decreases grads@.len() - i,
        {
            assert(tape::small(grads@[i as int]));
            proof {
                lemma_offset_monotone(grads@, (i + 1) as nat, n);
                lemma_offset_monotone(grads@, 0, i as nat);
            }
            total_partials = total_partials + emit::grad_sumsq_wgs((grads[i].size / 4) as u32);
            i = i + 1;
        }
        let norm_partials = ctx.zeros(total_partials);
        let clip_scale = ctx.fill(1, Scalar::Dec { digits: 1, places: 0 });
        let ghost c2 = ctx@;
        let mut gb = GraphBuilder::train(ComputeGraph::new());
        let mut out_offset: u32 = 0;
        let mut i: usize = 0;
        while i < grads.len()
            invariant
                i <= grads@.len() == n,
                tape::all_small(grads@),
                offset(grads@, n) <= u32::MAX,
                out_offset == offset(grads@, i as nat),
                ctx@ == sumsq_ctx(c2, grads@, i as nat),
                gb.graph@ == sumsq_nodes(c2, grads@, norm_partials, i as nat),
            decreases grads@.len() - i,
        {
            assert(tape::small(grads@[i as int]));
            proof {
                lemma_offset_monotone(grads@, (i + 1) as nat, n);
                lemma_offset_monotone(grads@, 0, i as nat);
            }
            let len: u32 = (grads[i].size / 4) as u32;
            emit::grad_sumsq(
                ctx,
                &mut gb,
                grads[i],
                norm_partials,
                GradSumSqMeta { len, out_offset },
            );
            out_offset = out_offset + emit::grad_sumsq_wgs(len);
            i = i + 1;
        }
        emit::grad_norm_scale(
            ctx,
            &mut gb,
            norm_partials,
            clip_scale,
            GradNormMeta { num_partials: total_partials, max_norm },
        );
        let ghost c4 = ctx@;
        let ghost top = gb.graph@;
        let mut i: usize = 0;
        while i < grads.len()
            invariant
                i <= grads@.len() == n,
                tape::all_small(grads@),
                ctx@ == scale_ctx(c4, grads@, i as nat),
                gb.graph@ == top + scale_nodes(c4, grads@, clip_scale, i as nat),
            decreases grads@.len() - i,
        {
            assert(tape::small(grads@[i as int]));
            emit::grad_scale(ctx, &mut gb, grads[i], clip_scale, (grads[i].size / 4) as u32);
            i = i + 1;
            assert(gb.graph@ =~= top + scale_nodes(c4, grads@, clip_scale, i as nat));
        }
        Self { graph: gb.graph }
    }
}

/// The ways to clip gradients.
pub enum AnyGradClip {
    GlobalNorm(GlobalNormClip),
}

impl AnyGradClip {
    pub open spec fn nodes(self) -> Seq<NodeView> {
        match self {
            AnyGradClip::GlobalNorm(c) => c.graph@,
        }
    }

    /// The dispatches that clip.
    pub fn clip(&self) -> (r: &ComputeGraph)
        ensures
            r@ == self.nodes(),
    {
        match self {
            AnyGradClip::GlobalNorm(c) => &c.graph,
        }
    }
}

// ---- laws ----

/// The record of dispatch `i` of a clip.
pub open spec fn clip_record(built: (Seq<Init>, Seq<NodeView>), i: int) -> Meta {
    meaning::record(built.0, built.1[i].buffers.last())
}

proof fn lemma_sumsq(c: Seq<Init>, grads: Seq<Tensor>, buf: Tensor, n: nat)
    ensures
        sumsq_ctx(c, grads, n).len() == c.len() + n,
        sumsq_nodes(c, grads, buf, n).len() == n,
        c.is_prefix_of(sumsq_ctx(c, grads, n)),
        forall|i: int|
            0 <= i < n ==> {
                let shape = sumsq_shape(grads, i);
                &&& (#[trigger] sumsq_nodes(c, grads, buf, n)[i]) == emit::grad_sumsq_node(
                    grads[i],
                    buf,
                    shape,
                    Tensor {
                        id: (c.len() + i) as usize,
                        size: (4 * Init::Meta(shape.spec_meta()).words()) as u64,
                    },
                )
                &&& sumsq_ctx(c, grads, n)[c.len() + i] == Init::Meta(shape.spec_meta())
            },
    decreases n,
{
    if n > 0 {
        lemma_sumsq(c, grads, buf, (n - 1) as nat);
    }
}

proof fn lemma_scale(c: Seq<Init>, grads: Seq<Tensor>, buf: Tensor, n: nat)
    ensures
        scale_ctx(c, grads, n).len() == c.len() + n,
        scale_nodes(c, grads, buf, n).len() == n,
        c.is_prefix_of(scale_ctx(c, grads, n)),
        forall|i: int|
            0 <= i < n ==> {
                let shape = scale_shape(grads[i]);
                &&& (#[trigger] scale_nodes(c, grads, buf, n)[i]) == emit::grad_scale_node(
                    grads[i],
                    buf,
                    shape.len,
                    Tensor {
                        id: (c.len() + i) as usize,
                        size: (4 * Init::Meta(shape.spec_meta()).words()) as u64,
                    },
                )
                &&& scale_ctx(c, grads, n)[c.len() + i] == Init::Meta(shape.spec_meta())
            },
    decreases n,
{
    if n > 0 {
        lemma_scale(c, grads, buf, (n - 1) as nat);
    }
}

/// The norm that gradients are clipped by is the norm over all of them: the sums of
/// squares that its dispatch reads, from the first to the last, are exactly those
/// that were written, gradient after gradient without a gap, each over all entries of
/// its gradient. Every gradient is then scaled, in all its entries, by the one factor
/// that the norm gives.
pub proof fn clip_norm_is_over_all_gradients(c: Seq<Init>, grads: Seq<Tensor>, max_norm: Scalar)
    requires
        tape::all_small(grads),
        offset(grads, grads.len()) <= u32::MAX,
        c.len() + 3 + 2 * grads.len() <= usize::MAX,
    ensures
        ({
            let built = clip_build(c, grads, max_norm);
            let g = built.1;
            let n = grads.len() as int;
            let norm = clip_record(built, n)->GradNorm_0;
            &&& g.len() == 2 * n + 1
            &&& g[n].kernel == Kernel::GradNormScale
            &&& clip_record(built, n) is GradNorm
            &&& norm.max_norm == max_norm
            &&& built.0[g[n].buffers[0].id as int] == Init::Zeros(norm.num_partials)
            &&& forall|i: int|
                0 <= i < n ==> {
                    &&& (#[trigger] g[i]).kernel == Kernel::GradSumSq
                    &&& g[i].buffers[0] == grads[i]
                    &&& g[i].buffers[1] == g[n].buffers[0]
                    &&& clip_record(built, i) is GradSumSq
                    &&& (clip_record(built, i)->GradSumSq_0).len == tape::elems(grads[i])
                    &&& g[i].grid[0] >= 1
                }
            &&& n > 0 ==> (clip_record(built, 0)->GradSumSq_0).out_offset == 0
            &&& forall|i: int|
                0 < i < n ==> (clip_record(built, i)->GradSumSq_0).out_offset == (clip_record(
                    built,
                    i - 1,
                )->GradSumSq_0).out_offset + (#[trigger] g[i - 1]).grid[0]
            &&& n > 0 ==> norm.num_partials == (clip_record(built, n - 1)->GradSumSq_0).out_offset
                + g[n - 1].grid[0]
            &&& n == 0 ==> norm.num_partials == 0
            &&& forall|i: int|
                n < i < g.len() ==> {
                    &&& (#[trigger] g[i]).kernel == Kernel::GradScale
                    &&& g[i].buffers[0] == grads[i - n - 1]
                    &&& g[i].buffers[1] == g[n].buffers[1]
                    &&& clip_record(built, i) is Zero
                    &&& (clip_record(built, i)->Zero_0).len == tape::elems(grads[i - n - 1])
                }
        }),
{
    let n = grads.len();
    let built = clip_build(c, grads, max_norm);
    let g = built.1;
    let total = offset(grads, n);
    let one = Init::Fill(1, Scalar::Dec { digits: 1, places: 0 });
    let buf = device::next_zeros(c, total);
    let c2 = device::push_zeros(c, total).push(one);
    let scale = device::next_tensor(device::push_zeros(c, total), one);
    let norm = GradNormMeta { num_partials: total as u32, max_norm };
    let c3 = sumsq_ctx(c2, grads, n);
    let c4 = device::push_meta(c3, norm.spec_meta());
    lemma_offset_monotone(grads, 0, n);
    lemma_sumsq(c2, grads, buf, n);
    lemma_scale(c4, grads, scale, n);
    let first = sumsq_nodes(c2, grads, buf, n);
    let last = scale_nodes(c4, grads, scale, n);
    assert(c4.is_prefix_of(built.0));
    assert(c3.is_prefix_of(c4));
    assert(c2.is_prefix_of(c3));
    assert(built.0[c.len() as int] == c2[c.len() as int]);
    assert(c4[c3.len() as int] == Init::Meta(norm.spec_meta()));
    assert(built.0[c3.len() as int] == c4[c3.len() as int]);
    assert forall|i: int| 0 <= i < n implies {
        &&& (#[trigger] g[i]).kernel == Kernel::GradSumSq
        &&& g[i].buffers[0] == grads[i]
        &&& g[i].buffers[1] == g[n as int].buffers[0]
        &&& clip_record(built, i) == sumsq_shape(grads, i).spec_meta()
        &&& (clip_record(built, i)->GradSumSq_0).len == tape::elems(grads[i])
        &&& (clip_record(built, i)->GradSumSq_0).out_offset == offset(grads, i as nat)
        &&& g[i].grid[0] == partials(grads[i])
    } by {
        assert(g[i] == first[i]);
        assert(tape::small(grads[i]));
        assert(c3[c2.len() + i] == Init::Meta(sumsq_shape(grads, i).spec_meta()));
        assert(built.0[c2.len() + i] == c3[c2.len() + i]);
        lemma_offset_monotone(grads, i as nat, n);
        lemma_offset_monotone(grads, 0, i as nat);
    }
    assert forall|i: int| n < i < g.len() implies {
        &&& (#[trigger] g[i]).kernel == Kernel::GradScale
        &&& g[i].buffers[0] == grads[i - n - 1]
        &&& g[i].buffers[1] == g[n as int].buffers[1]
        &&& clip_record(built, i) is Zero
        &&& (clip_record(built, i)->Zero_0).len == tape::elems(grads[i - n - 1])
    } by {
        let k = i - n - 1;
        assert(g[i] == last[k]);
        assert(tape::small(grads[k]));
        assert(built.0[c4.len() + k] == Init::Meta(scale_shape(grads[k]).spec_meta()));
    }
}

/// The sums of squares of the first `n` gradients, one behind the other in `into`.
pub open spec fn squares(grads: Seq<Tensor>, mem: Memory, into: Term, n: nat) -> Term
    decreases n,
{
    if n == 0 {
        into
    } else {
        meaning::with_squares(
            sumsq_shape(grads, n - 1),
            partials(grads[n - 1]),
            squares(grads, mem, into, (n - 1) as nat),
            mem[grads[n - 1]],
        )
    }
}

proof fn lemma_squares_run(
    ctx: Seq<Init>,
    c: Seq<Init>,
    grads: Seq<Tensor>,
    buf: Tensor,
    mem: Memory,
    n: nat,
)
    requires
        n <= grads.len(),
        !grads.contains(buf),
        c.len() + n <= usize::MAX,
        sumsq_ctx(c, grads, n).is_prefix_of(ctx),
    ensures
        ({
            let after = meaning::run(ctx, sumsq_nodes(c, grads, buf, n), mem);
            &&& after[buf] == squares(grads, mem, mem[buf], n)
            &&& forall|t: Tensor| t != buf ==> #[trigger] after[t] == mem[t]
        }),
    decreases n,
{
    lemma_sumsq(c, grads, buf, n);
    if n > 0 {
        lemma_sumsq(c, grads, buf, (n - 1) as nat);
        assert(sumsq_ctx(c, grads, (n - 1) as nat).is_prefix_of(sumsq_ctx(c, grads, n)));
        lemma_squares_run(ctx, c, grads, buf, mem, (n - 1) as nat);
        let g = sumsq_nodes(c, grads, buf, (n - 1) as nat);
        let node = sumsq_nodes(c, grads, buf, n)[n - 1];
        assert(sumsq_nodes(c, grads, buf, n) =~= g.push(node));
        meaning::lemma_run_push(ctx, g, node, mem);
        assert(grads.contains(grads[n - 1]));
        assert(ctx[c.len() + n - 1] == sumsq_ctx(c, grads, n)[c.len() + n - 1]);
    }
}

proof fn lemma_scales_run(
    ctx: Seq<Init>,
    c: Seq<Init>,
    grads: Seq<Tensor>,
    buf: Tensor,
    mem: Memory,
    n: nat,
)
    requires
        n <= grads.len(),
        !grads.contains(buf),
        grads.no_duplicates(),
        tape::all_small(grads),
        c.len() + n <= usize::MAX,
        scale_ctx(c, grads, n).is_prefix_of(ctx),
    ensures
        ({
            let after = meaning::run(ctx, scale_nodes(c, grads, buf, n), mem);
            &&& forall|i: int|
                0 <= i < n ==> after[#[trigger] grads[i]] == meaning::scaled(
                    tape::elems(grads[i]),
                    mem[grads[i]],
                    mem[buf],
                )
            &&& forall|i: int| n <= i < grads.len() ==> after[#[trigger] grads[i]] == mem[grads[i]]
            &&& after[buf] == mem[buf]
        }),
    decreases n,
{
    lemma_scale(c, grads, buf, n);
    if n > 0 {
        lemma_scale(c, grads, buf, (n - 1) as nat);
        assert(scale_ctx(c, grads, (n - 1) as nat).is_prefix_of(scale_ctx(c, grads, n)));
        lemma_scales_run(ctx, c, grads, buf, mem, (n - 1) as nat);
        let g = scale_nodes(c, grads, buf, (n - 1) as nat);
        let node = scale_nodes(c, grads, buf, n)[n - 1];
        assert(scale_nodes(c, grads, buf, n) =~= g.push(node));
        meaning::lemma_run_push(ctx, g, node, mem);
        assert(grads.contains(grads[n - 1]));
        assert(tape::small(grads[n - 1]));
        assert(ctx[c.len() + n - 1] == scale_ctx(c, grads, n)[c.len() + n - 1]);
    }
}

/// Clipping multiplies every gradient by one factor, which comes from what all the
/// gradients held before any of them was scaled.
pub proof fn clip_scales_all_by_one_factor(
    c: Seq<Init>,
    grads: Seq<Tensor>,
    max_norm: Scalar,
    mem: Memory,
)
    requires
        tape::all_small(grads),
        offset(grads, grads.len()) <= u32::MAX,
        c.len() + 3 + 2 * grads.len() <= usize::MAX,
        grads.no_duplicates(),
        forall|i: int| 0 <= i < grads.len() ==> (#[trigger] grads[i]).id < c.len(),
    ensures
        ({
            let built = clip_build(c, grads, max_norm);
            let after = meaning::run(built.0, built.1, mem);
            let n = grads.len() as int;
            let factor = meaning::clip_factor(
                clip_record(built, n)->GradNorm_0,
                squares(grads, mem, mem[built.1[n].buffers[0]], grads.len()),
            );
            forall|i: int|
                0 <= i < n ==> after[#[trigger] grads[i]] == meaning::scaled(
                    tape::elems(grads[i]),
                    mem[grads[i]],
                    factor,
                )
        }),
{
    let n = grads.len();
    let built = clip_build(c, grads, max_norm);
    let total = offset(grads, n);
    let one = Init::Fill(1, Scalar::Dec { digits: 1, places: 0 });
    let buf = device::next_zeros(c, total);
    let c2 = device::push_zeros(c, total).push(one);
    let scale = device::next_tensor(device::push_zeros(c, total), one);
    let norm = GradNormMeta { num_partials: total as u32, max_norm };
    let c3 = sumsq_ctx(c2, grads, n);
    let c4 = device::push_meta(c3, norm.spec_meta());
    lemma_sumsq(c2, grads, buf, n);
    lemma_scale(c4, grads, scale, n);
    assert(c4.is_prefix_of(built.0));
    assert(c3.is_prefix_of(built.0));
    assert(built.0[c3.len() as int] == c4[c3.len() as int]);
    let first = sumsq_nodes(c2, grads, buf, n);
    let node = built.1[n as int];
    let last = scale_nodes(c4, grads, scale, n);
    assert(built.1 =~= first.push(node) + last);
    meaning::run_is_sequential(built.0, first.push(node), last, mem);
    meaning::lemma_run_push(built.0, first, node, mem);
    lemma_squares_run(built.0, c2, grads, buf, mem, n);
    let mid = meaning::run(built.0, first.push(node), mem);
    lemma_scales_run(built.0, c4, grads, scale, mid, n);
    assert forall|i: int| 0 <= i < n implies mid[#[trigger] grads[i]] == mem[grads[i]] by {
        assert(grads[i] != buf && grads[i] != scale);
    }
}

} // verus!
