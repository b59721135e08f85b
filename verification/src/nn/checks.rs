//! Checks on the network: what each builds and reads, and how it judges what it
//! read. Measured values enter as the bits of single-precision numbers.
use super::akasha_model;
use super::akasha_model::{AkashaModel, AkashaModelView};
use super::kernels::emit;
use super::kernels::meta::{HeadMoveMeta, KernelMeta};
use super::kernels::GraphBuilder;
use super::layers;
use super::layers::{CrossEntropy, CrossEntropyView, RMSNorm, RMSNormView};
use crate::config::ModelConfig;
use crate::device;
use crate::device::{ComputeGraph, Context, Init, NodeView, Scalar, Tensor};
use crate::single;
use vstd::prelude::*;

verus! {

// ---- parameter count ----

/// Fewer trainable parameters than this are a sign of a missing layer.
pub const MIN_PARAMS: u64 = 10_000_000;

/// The values in the weights of the first `n` pairs.
pub open spec fn spec_param_count(params: Seq<(Tensor, Tensor)>, n: nat) -> int
    decreases n,
{
    if n == 0 {
        0
    } else {
        spec_param_count(params, (n - 1) as nat) + params[n - 1].0.size as int / 4
    }
}

proof fn lemma_param_count(params: Seq<(Tensor, Tensor)>, m: nat, n: nat)
    requires
        m <= n,
    ensures
        0 <= spec_param_count(params, m) <= spec_param_count(params, n),
    decreases n,
{
    if n > 0 {
        if m < n {
            lemma_param_count(params, m, (n - 1) as nat);
        } else {
            lemma_param_count(params, (m - 1) as nat, (n - 1) as nat);
        }
    }
}

/// Counts the values in a model's weights, and says whether there are enough.
pub fn param_count(params: &Vec<(Tensor, Tensor)>) -> (r: (u64, bool))
    requires
        spec_param_count(params@, params@.len()) <= u64::MAX,
    ensures
        r.0 == spec_param_count(params@, params@.len()),
        r.1 == (r.0 > MIN_PARAMS),
{
    let mut total: u64 = 0;
    let mut i: usize = 0;
    while i < params.len()
        invariant
            i <= params@.len(),
            spec_param_count(params@, params@.len()) <= u64::MAX,
            total == spec_param_count(params@, i as nat),
        decreases params@.len() - i,
    {
        proof {
            lemma_param_count(params@, (i + 1) as nat, params@.len());
        }
        total = total + params[i].0.size / 4;
        i = i + 1;
    }
    (total, total > MIN_PARAMS)
}

// ---- gradient flow ----

/// A gradient whose norm is read: the layer it belongs to, its name, its buffer.
#[derive(Clone, Copy, Debug)]
pub struct GradProbe {
    pub layer: usize,
    pub name: &'static str,
    pub grad: Tensor,
}

/// Probes of each layer.
pub const PROBES: usize = 6;

/// The name and the buffer of probe `k` of a block.
pub open spec fn block_probe(b: super::transformer::TransformerBlockView, k: int) -> (
    Seq<char>,
    Tensor,
) {
    if k == 0 {
        ("QKV_proj"@, b.qkv_proj.grad_weight)
    } else if k == 1 {
        ("O_proj"@, b.out_proj.grad_weight)
    } else if k == 2 {
        ("FFN_up"@, b.ffn_up.grad_weight)
    } else if k == 3 {
        ("FFN_down"@, b.ffn_down.grad_weight)
    } else if k == 4 {
        ("RMSNorm1"@, b.norm_1.grad_weight)
    } else {
        ("RMSNorm2"@, b.norm_2.grad_weight)
    }
}

/// `p` is probe `i` of the model, counted over all layers.
pub open spec fn is_probe(p: GradProbe, m: AkashaModelView, i: int) -> bool {
    let at = block_probe(m.layers[i / (PROBES as int)], i % (PROBES as int));
    p.layer == i / (PROBES as int) && p.name@ == at.0 && p.grad == at.1
}

/// The gradients to read after one backward pass, layer by layer.
pub fn grad_probes(model: &AkashaModel) -> (r: Vec<GradProbe>)
    ensures
        r@.len() == PROBES * model@.layers.len(),
        forall|i: int| 0 <= i < r@.len() ==> is_probe(#[trigger] r@[i], model@, i),
{
    let mut r: Vec<GradProbe> = Vec::new();
    let mut i: usize = 0;
    while i < model.layers.len()
        invariant
            i <= model.layers@.len(),
            r@.len() == PROBES * i,
            forall|k: int| 0 <= k < r@.len() ==> is_probe(#[trigger] r@[k], model@, k),
        decreases model.layers@.len() - i,
    {
        let layer = &model.layers[i];
        assert(model@.layers[i as int] == layer@);
        r.push(GradProbe { layer: i, name: "QKV_proj", grad: layer.qkv_proj.grad_weight });
        r.push(GradProbe { layer: i, name: "O_proj", grad: layer.out_proj.grad_weight });
        r.push(GradProbe { layer: i, name: "FFN_up", grad: layer.ffn_up.grad_weight });
        r.push(GradProbe { layer: i, name: "FFN_down", grad: layer.ffn_down.grad_weight });
        r.push(GradProbe { layer: i, name: "RMSNorm1", grad: layer.norm_1.grad_weight });
        r.push(GradProbe { layer: i, name: "RMSNorm2", grad: layer.norm_2.grad_weight });
        i = i + 1;
    }
    r
}

/// A norm above this is an exploding gradient: 100.
pub const NORM_LIMIT: u32 = 0x42c8_0000;

pub open spec fn some_zero(norms: Seq<u32>) -> bool {
    exists|i: int| 0 <= i < norms.len() && single::magnitude(#[trigger] norms[i]) == 0
}

pub open spec fn some_explosion(norms: Seq<u32>) -> bool {
    exists|i: int| 0 <= i < norms.len() && single::greater(#[trigger] norms[i], NORM_LIMIT)
}

/// What the norms of one backward pass show.
#[derive(Clone, Copy, Debug, PartialEq, Eq, Structural)]
pub struct GradFlow {
    pub any_zero: bool,
    pub any_explosion: bool,
    pub vanishing: bool,
}

impl GradFlow {
    pub open spec fn spec_pass(self) -> bool {
        !self.any_zero && !self.any_explosion && !self.vanishing
    }

    pub fn pass(&self) -> (r: bool)
        ensures
            r == self.spec_pass(),
    {
        !self.any_zero && !self.any_explosion && !self.vanishing
    }
}

/// Judges the norms of the probes, of the embedding's and of the head's gradient.
/// `vanishing` says whether the norms of the first layer outweigh those of the
/// last.
pub fn judge_grad_flow(layers: &Vec<u32>, embedding: u32, head: u32, vanishing: bool) -> (r:
    GradFlow)
    ensures
        r.any_zero == (some_zero(layers@) || single::magnitude(embedding) == 0
            || single::magnitude(head) == 0),
        r.any_explosion == some_explosion(layers@),
        r.vanishing == vanishing,
{
    let mut any_zero = false;
    let mut any_explosion = false;
    let mut i: usize = 0;
    while i < layers.len()
        invariant
            i <= layers@.len(),
            any_zero == (exists|k: int|
                0 <= k < i && single::magnitude(#[trigger] layers@[k]) == 0),
            any_explosion == (exists|k: int|
                0 <= k < i && single::greater(#[trigger] layers@[k], NORM_LIMIT)),
        decreases layers@.len() - i,
    {
        let norm: u32 = layers[i];
        assert(layers@[i as int] == norm);
        if single::is_zero(norm) {
            any_zero = true;
        }
        if single::is_greater(norm, NORM_LIMIT) {
            any_explosion = true;
        }
        i = i + 1;
    }
    if single::is_zero(embedding) || single::is_zero(head) {
        any_zero = true;
    }
    GradFlow { any_zero, any_explosion, vanishing }
}

/// Sequence length of the gradient checks.
pub const PROBE_LEN: u32 = 16;

/// The model of the gradient checks: the architecture of `arch`, with another
/// vocabulary and short sequences.
pub fn probe_config(arch: &ModelConfig, vocab_size: u32) -> (r: ModelConfig)
    requires
        arch.num_layers >= 1,
        arch.num_heads >= 1,
        arch.dim % arch.num_heads == 0,
        arch.dim * 4 <= u32::MAX,
        vocab_size >= 1,
    ensures
        r == ModelConfig::spec_new(vocab_size, arch.dim, arch.num_heads, arch.num_layers, PROBE_LEN),
{
    ModelConfig::new(vocab_size, arch.dim, arch.num_heads, arch.num_layers, PROBE_LEN)
}

// ---- gradient accumulation ----

/// Weights that moved by less than this stood still: 1e-7.
pub const MOVED: u32 = 0x33d6_bf95;

/// How the weights and gradients of a cycle of two steps behaved.
#[derive(Clone, Copy, Debug, PartialEq, Eq, Structural)]
pub struct Accumulation {
    /// The weights moved before the end of the cycle.
    pub moved_early: bool,
    /// The weights stood still at the end of the cycle.
    pub stood_still: bool,
    pub pass: bool,
}

/// Judges the distances the weights moved in the first and in the second step,
/// and the gradient's norm between them.
pub fn judge_accumulation(first: u32, grad: u32, second: u32) -> (r: Accumulation)
    ensures
        r.pass == (single::greater(MOVED, first) && single::spec_key(grad) > 0 && !single::nan(grad)
            && single::greater(second, MOVED)),
        r.moved_early == (!single::nan(first) && !single::greater(MOVED, first)),
        r.stood_still == single::greater(MOVED, second),
{
    let still = single::is_greater(MOVED, first);
    Accumulation {
        moved_early: !single::is_nan(first) && !still,
        stood_still: single::is_greater(MOVED, second),
        pass: still && single::is_greater(grad, 0) && single::is_greater(second, MOVED),
    }
}

// ---- weight decay ----

/// `t` is the weight of some pair.
pub open spec fn in_group(params: Seq<(Tensor, Tensor)>, t: Tensor) -> bool {
    exists|i: int| 0 <= i < params.len() && (#[trigger] params[i]).0 == t
}

fn is_in_group(params: &Vec<(Tensor, Tensor)>, t: Tensor) -> (r: bool)
    ensures
        r == in_group(params@, t),
{
    let mut i: usize = 0;
    while i < params.len()
        invariant
            i <= params@.len(),
            forall|k: int| 0 <= k < i ==> (#[trigger] params@[k]).0 != t,
        decreases params@.len() - i,
    {
        if params[i].0 == t {
            assert(params@[i as int].0 == t);
            return true;
        }
        i = i + 1;
    }
    false
}

/// Whether the embedding table and the final norm are among the weights that the
/// optimizer decays.
pub fn decay_groups(model: &AkashaModel) -> (r: (bool, bool))
    ensures
        r.0 == in_group(akasha_model::model_params(model@), model@.embedding.table),
        r.1 == in_group(akasha_model::model_params(model@), model@.final_norm.weight),
{
    let params = model.trainable_params();
    (
        is_in_group(&params, model.embedding.table),
        is_in_group(&params, model.final_norm.weight),
    )
}

/// Every model has both in its one group.
pub proof fn one_decay_group(m: AkashaModelView)
    ensures
        in_group(akasha_model::model_params(m), m.embedding.table),
        in_group(akasha_model::model_params(m), m.final_norm.weight),
        in_group(akasha_model::model_params(m), m.lm_head.weight),
{
    let p = akasha_model::model_params(m);
    let n: int = akasha_model::stack_params(m.layers, m.layers.len()).len() as int;
    assert(p[0].0 == m.embedding.table);
    assert(p[n + 1].0 == m.final_norm.weight);
    assert(p[n + 2].0 == m.lm_head.weight);
}


// ---- moving heads ----

/// Rows of the buffer that the head check moves.
pub const MOVE_ROWS: u32 = 4;

/// Its width.
pub const MOVE_DIM: u32 = 768;

/// Width of one head.
pub const MOVE_HEAD: u32 = 64;

/// Heads of a row.
pub const MOVE_HEADS: u32 = 12;

/// The slice of head `h`.
pub open spec fn head_shape(h: int) -> HeadMoveMeta {
    HeadMoveMeta {
        seq_len: MOVE_ROWS,
        full_dim: MOVE_DIM,
        head_dim: MOVE_HEAD,
        head_offset: (h * MOVE_HEAD) as u32,
    }
}

/// `c` with the shape and the compact buffer of each of the first `n` heads.
pub open spec fn move_ctx(c: Seq<Init>, n: nat) -> Seq<Init>
    decreases n,
{
    if n == 0 {
        c
    } else {
        device::push_zeros(
            device::push_meta(move_ctx(c, (n - 1) as nat), head_shape(n - 1).spec_meta()),
            MOVE_ROWS * MOVE_HEAD,
        )
    }
}

/// Moves each of the first `n` heads of `wide` out and back into `out`.
pub open spec fn move_nodes(c: Seq<Init>, wide: Tensor, out: Tensor, n: nat) -> Seq<NodeView>
    decreases n,
{
    if n == 0 {
        Seq::empty()
    } else {
        let before = move_ctx(c, (n - 1) as nat);
        let shape = head_shape(n - 1);
        let meta = device::next_meta(before, shape.spec_meta());
        let head = device::next_zeros(
            device::push_meta(before, shape.spec_meta()),
            MOVE_ROWS * MOVE_HEAD,
        );
        move_nodes(c, wide, out, (n - 1) as nat) + seq![
            emit::head_gather_node(wide, head, shape, meta),
            emit::head_scatter_node(head, out, shape, meta),
        ]
    }
}

/// The check that moving every head out and back gives the input again, and that
/// the way back is the derivative of the way out.
pub struct HeadCheck {
    pub input: Tensor,
    pub reconstructed: Tensor,
    pub round_trip: ComputeGraph,
    pub ones: Tensor,
    pub gradient: Tensor,
    pub backward: ComputeGraph,
}

/// The value of a `HeadCheck`.
#[verifier::ext_equal]
pub struct HeadCheckView {
    pub input: Tensor,
    pub reconstructed: Tensor,
    pub round_trip: Seq<NodeView>,
    pub ones: Tensor,
    pub gradient: Tensor,
    pub backward: Seq<NodeView>,
}

impl View for HeadCheck {
    type V = HeadCheckView;

    open spec fn view(&self) -> HeadCheckView {
        HeadCheckView {
            input: self.input,
            reconstructed: self.reconstructed,
            round_trip: self.round_trip@,
            ones: self.ones,
            gradient: self.gradient,
            backward: self.backward@,
        }
    }
}

/// The real 1.
pub open spec fn spec_one() -> Scalar {
    Scalar::Dec { digits: 1, places: 0 }
}

/// The check that `HeadCheck::new` builds in a context holding `c`.
pub open spec fn head_check_build(c: Seq<Init>) -> (Seq<Init>, HeadCheckView) {
    let input = device::next_zeros(c, MOVE_ROWS * MOVE_DIM);
    let c1 = device::push_zeros(c, MOVE_ROWS * MOVE_DIM);
    let reconstructed = device::next_zeros(c1, MOVE_ROWS * MOVE_DIM);
    let c2 = device::push_zeros(c1, MOVE_ROWS * MOVE_DIM);
    let c3 = move_ctx(c2, MOVE_HEADS as nat);
    let filled = Init::Fill((MOVE_ROWS * MOVE_HEAD) as u32, spec_one());
    let ones = device::next_tensor(c3, filled);
    let c4 = c3.push(filled);
    let gradient = device::next_zeros(c4, MOVE_ROWS * MOVE_DIM);
    (
        device::push_zeros(c4, MOVE_ROWS * MOVE_DIM),
        HeadCheckView {
            input,
            reconstructed,
            round_trip: move_nodes(c2, input, reconstructed, MOVE_HEADS as nat),
            ones,
            gradient,
            backward: seq![
                emit::head_scatter_node(
                    ones,
                    gradient,
                    head_shape(0),
                    device::next_meta(c2, head_shape(0).spec_meta()),
                ),
            ],
        },
    )
}

impl HeadCheck {
    pub fn new(ctx: &mut Context) -> (r: Self)
        ensures
            (final(ctx)@, r@) == head_check_build(old(ctx)@),
    {
        let input = ctx.zeros(MOVE_ROWS * MOVE_DIM);
        let reconstructed = ctx.zeros(MOVE_ROWS * MOVE_DIM);
        let ghost c2 = ctx@;
        let mut gb = GraphBuilder::train(ComputeGraph::new());
        let mut first = reconstructed;
        let mut h: u32 = 0;
        while h < MOVE_HEADS
            invariant
                h <= MOVE_HEADS,
                ctx@ == move_ctx(c2, h as nat),
                gb.graph@ == move_nodes(c2, input, reconstructed, h as nat),
                h > 0 ==> first == device::next_meta(c2, head_shape(0).spec_meta()),
            decreases MOVE_HEADS - h,
        {
            let ghost prev = gb.graph@;
            let shape = HeadMoveMeta {
                seq_len: MOVE_ROWS,
                full_dim: MOVE_DIM,
                head_dim: MOVE_HEAD,
                head_offset: h * MOVE_HEAD,
            };
            assert(shape == head_shape(h as int));
            let meta = shape.upload(ctx);
            let head = ctx.zeros(MOVE_ROWS * MOVE_HEAD);
            emit::head_gather_with(&mut gb, input, head, shape, meta);
            emit::head_scatter_with(&mut gb, head, reconstructed, shape, meta);
            if h == 0 {
                first = meta;
            }
            h = h + 1;
            assert(gb.graph@ =~= move_nodes(c2, input, reconstructed, h as nat));
        }
        let one = Scalar::Dec { digits: 1, places: 0 };
        let ones = ctx.fill(MOVE_ROWS * MOVE_HEAD, one);
        let gradient = ctx.zeros(MOVE_ROWS * MOVE_DIM);
        let shape = HeadMoveMeta {
            seq_len: MOVE_ROWS,
            full_dim: MOVE_DIM,
            head_dim: MOVE_HEAD,
            head_offset: 0,
        };
        assert(shape == head_shape(0));
        let mut back = GraphBuilder::train(ComputeGraph::new());
        emit::head_scatter_with(&mut back, ones, gradient, shape, first);
        let r = HeadCheck {
            input,
            reconstructed,
            round_trip: gb.graph,
            ones,
            gradient,
            backward: back.graph,
        };
        assert(r@ =~= head_check_build(old(ctx)@).1);
        r
    }
}

/// The largest difference that a round trip may show: 1e-6.
pub const MOVE_TOLERANCE: u32 = 0x3586_37bd;

/// The largest difference between a measured and a computed derivative: 1e-3.
pub const GRAD_TOLERANCE: u32 = 0x3a83_126f;

/// Judges the largest difference of the round trip, and that of the derivative.
pub fn judge_moves(round_trip: u32, derivative: u32) -> (r: (bool, bool))
    ensures
        r.0 == single::greater(MOVE_TOLERANCE, round_trip),
        r.1 == single::greater(GRAD_TOLERANCE, derivative),
{
    (single::is_greater(MOVE_TOLERANCE, round_trip), single::is_greater(GRAD_TOLERANCE, derivative))
}

// ---- single entries ----

/// Every `stride`-th index below `n`, from 0 on.
pub fn probe_indices(n: usize, stride: usize) -> (r: Vec<usize>)
    requires
        stride > 0,
        n + stride <= usize::MAX,
    ensures
        r@.len() == (n + stride - 1) / (stride as int),
        forall|i: int| 0 <= i < r@.len() ==> #[trigger] r@[i] == i * stride,
        forall|i: int| 0 <= i < r@.len() ==> #[trigger] r@[i] < n,
{
    let mut r: Vec<usize> = Vec::new();
    let mut at: usize = 0;
    assert(0 * stride == 0) by (nonlinear_arith);
    while at < n
        invariant
            stride > 0,
            n + stride <= usize::MAX,
            at == r@.len() * stride,
            r@.len() > 0 ==> at - stride < n,
            forall|i: int| 0 <= i < r@.len() ==> #[trigger] r@[i] == i * stride,
            forall|i: int| 0 <= i < r@.len() ==> #[trigger] r@[i] < n,
        decreases n + stride - at,
    {
        let ghost k = r@.len();
        r.push(at);
        assert((k + 1) * stride == k * stride + stride) by (nonlinear_arith);
        at = at + stride;
    }
    proof {
        let k: int = r@.len() as int;
        let s: int = stride as int;
        vstd::arithmetic::div_mod::lemma_fundamental_div_mod_converse(
            n + s - 1,
            s,
            k,
            n + s - 1 - k * s,
        );
    }
    r
}

/// Where an entry of a wide buffer stands with respect to one head.
#[derive(Clone, Copy, Debug, PartialEq, Eq, Structural)]
pub struct SliceProbe {
    /// The first entry of the head in the entry's row.
    pub from: usize,
    /// The entry belongs to the head.
    pub in_head: bool,
}

/// Entry `idx` of a buffer of `dim` columns, and the head `offset..offset + width`.
pub fn slice_probe(idx: usize, dim: usize, width: usize, offset: usize) -> (r: SliceProbe)
    requires
        dim > 0,
        offset + width <= dim,
        idx + dim <= usize::MAX,
    ensures
        r.from == (idx as int / dim as int) * dim + offset,
        r.in_head == (offset <= idx as int % dim as int && (idx as int % dim as int) < offset + width),
{
    let row: usize = idx / dim;
    let col: usize = idx % dim;
    proof {
        vstd::arithmetic::div_mod::lemma_fundamental_div_mod(idx as int, dim as int);
        assert(dim * row == row * dim) by (nonlinear_arith);
    }
    SliceProbe { from: row * dim + offset, in_head: offset <= col && col < offset + width }
}

/// The first entry of the row of entry `idx`, and the entry's place in the row.
pub fn row_probe(idx: usize, dim: usize) -> (r: (usize, usize))
    requires
        dim > 0,
    ensures
        r.0 == (idx as int / dim as int) * dim,
        r.0 + r.1 == idx,
        r.1 < dim,
{
    proof {
        vstd::arithmetic::div_mod::lemma_fundamental_div_mod(idx as int, dim as int);
        assert(dim * (idx as int / dim as int) == (idx as int / dim as int) * dim)
            by (nonlinear_arith);
    }
    let from: usize = (idx / dim) * dim;
    (from, idx - from)
}

// ---- one norm ----

/// Rows of the norm check.
pub const NORM_ROWS: u32 = 8;

/// The check of a norm's backward pass, with every output gradient 1. The runtime
/// fills `input` and the norm's weight.
pub struct NormCheck {
    pub input: Tensor,
    pub norm: RMSNorm,
}

/// The norm that `NormCheck::new` builds in a context holding `c`.
pub open spec fn norm_check_build(c: Seq<Init>) -> (Seq<Init>, Tensor, RMSNormView) {
    let n = NORM_ROWS * MOVE_DIM;
    let input = device::next_zeros(c, n);
    let c1 = device::push_zeros(c, n);
    let filled = Init::Fill(n as u32, spec_one());
    let grad_out = device::next_tensor(c1, filled);
    let c2 = c1.push(filled);
    let grad_in = device::next_zeros(c2, n);
    let c3 = device::push_zeros(c2, n);
    let weight = device::next_zeros(c3, MOVE_DIM as int);
    let c4 = device::push_zeros(c3, MOVE_DIM as int);
    (
        layers::rmsnorm_ctx(c4, MOVE_DIM, NORM_ROWS),
        input,
        layers::rmsnorm_view(c4, MOVE_DIM, NORM_ROWS, weight, input, grad_out, grad_in),
    )
}

impl NormCheck {
    pub fn new(ctx: &mut Context) -> (r: Self)
        ensures
            (final(ctx)@, r.input, r.norm@) == norm_check_build(old(ctx)@),
    {
        let input = ctx.zeros(NORM_ROWS * MOVE_DIM);
        let one = Scalar::Dec { digits: 1, places: 0 };
        let grad_out = ctx.fill(NORM_ROWS * MOVE_DIM, one);
        let grad_in = ctx.zeros(NORM_ROWS * MOVE_DIM);
        let weight = ctx.zeros(MOVE_DIM);
        let norm = RMSNorm::new(ctx, MOVE_DIM, NORM_ROWS, weight, input, grad_out, grad_in);
        NormCheck { input, norm }
    }
}

// ---- the loss of equal logits ----

/// Rows of the loss check.
pub const LOSS_ROWS: u32 = 4;

/// Its vocabulary.
pub const LOSS_VOCAB: u32 = 50257;

/// The largest distance of the loss from the logarithm of the vocabulary: 0.01.
pub const LOSS_TOLERANCE: u32 = 0x3c23_d70a;

/// The loss of equal logits, with `targets` to upload.
pub struct LossCheck {
    pub loss: CrossEntropy,
    pub targets: Vec<u32>,
}

/// The loss that `LossCheck::new` builds in a context holding `c`.
pub open spec fn loss_check_build(c: Seq<Init>) -> (Seq<Init>, CrossEntropyView) {
    let n = LOSS_ROWS * LOSS_VOCAB;
    let c1 = device::push_zeros(c, n);
    let c2 = device::push_zeros(c1, n);
    (
        layers::cross_entropy_ctx(c2, LOSS_VOCAB, LOSS_ROWS),
        layers::cross_entropy_view(
            c2,
            LOSS_VOCAB,
            LOSS_ROWS,
            device::next_zeros(c, n),
            device::next_zeros(c1, n),
        ),
    )
}

impl LossCheck {
    pub fn new(ctx: &mut Context) -> (r: Self)
        ensures
            (final(ctx)@, r.loss@) == loss_check_build(old(ctx)@),
            r.targets@ == seq![0u32, 1, 2, 3],
    {
        let logits = ctx.zeros(LOSS_ROWS * LOSS_VOCAB);
        let grad_logits = ctx.zeros(LOSS_ROWS * LOSS_VOCAB);
        let loss = CrossEntropy::new(ctx, LOSS_VOCAB, LOSS_ROWS, logits, grad_logits);
        LossCheck { loss, targets: vec![0, 1, 2, 3] }
    }
}

/// Judges the distance of a loss from the expected one.
pub fn judge_loss(diff: u32) -> (r: bool)
    ensures
        r == single::greater(LOSS_TOLERANCE, diff),
{
    single::is_greater(LOSS_TOLERANCE, diff)
}

// ---- cached and uncached decoding ----

/// The first token that a window of `seq_len` ending before `cur_len` holds.
pub open spec fn window_start(cur_len: int, seq_len: int) -> int {
    if cur_len >= seq_len {
        cur_len - seq_len
    } else {
        0
    }
}

/// The window: the last tokens before `cur_len`, then padding.
pub open spec fn spec_window(tokens: Seq<u32>, cur_len: int, seq_len: int) -> Seq<u32> {
    let held = tokens.subrange(window_start(cur_len, seq_len), cur_len);
    held + Seq::new((seq_len - held.len()) as nat, |i: int| 0u32)
}

/// The row whose logits predict token `cur_len`.
pub open spec fn spec_row(cur_len: int, seq_len: int) -> int {
    cur_len - window_start(cur_len, seq_len) - 1
}

/// The input of an uncached pass that predicts token `cur_len`, and the row that
/// predicts it.
pub fn sliding_window(tokens: &Vec<u32>, cur_len: usize, seq_len: usize) -> (r: (Vec<u32>, usize))
    requires
        0 < cur_len <= tokens@.len(),
        seq_len > 0,
    ensures
        r.0@ == spec_window(tokens@, cur_len as int, seq_len as int),
        r.1 == spec_row(cur_len as int, seq_len as int),
        r.1 < seq_len,
{
    let start: usize = if cur_len >= seq_len {
        cur_len - seq_len
    } else {
        0
    };
    let ghost held = tokens@.subrange(start as int, cur_len as int);
    let mut window: Vec<u32> = Vec::new();
    let mut i: usize = 0;
    while i < seq_len
        invariant
            i <= seq_len,
            start <= cur_len <= tokens@.len(),
            cur_len - start <= seq_len,
            held == tokens@.subrange(start as int, cur_len as int),
            window@.len() == i,
            forall|k: int|
                0 <= k < i ==> #[trigger] window@[k] == (if k < held.len() {
                    held[k]
                } else {
                    0
                }),
        decreases seq_len - i,
    {
        if i < cur_len - start {
            window.push(tokens[start + i]);
        } else {
            window.push(0);
        }
        i = i + 1;
    }
    assert(window@ =~= spec_window(tokens@, cur_len as int, seq_len as int));
    (window, cur_len - start - 1)
}

/// The predicting row holds the last token before the predicted one, whatever the
/// length of the text.
pub proof fn window_ends_with_last(tokens: Seq<u32>, cur_len: int, seq_len: int)
    requires
        0 < cur_len <= tokens.len(),
        seq_len > 0,
    ensures
        spec_window(tokens, cur_len, seq_len).len() == seq_len,
        0 <= spec_row(cur_len, seq_len) < seq_len,
        spec_window(tokens, cur_len, seq_len)[spec_row(cur_len, seq_len)] == tokens[cur_len - 1],
{
}

/// The tokens to feed one by one behind a prompt, so that every token of the text
/// but the last has been seen: all but the last.
pub fn forced_tokens(tokens: &Vec<u32>, prompt_len: usize) -> (r: Vec<u32>)
    requires
        prompt_len < tokens@.len(),
    ensures
        r@ == tokens@.subrange(prompt_len as int, tokens@.len() - 1),
        1 + r@.len() == tokens@.len() - prompt_len,
{
    let mut r: Vec<u32> = Vec::new();
    let mut i: usize = prompt_len;
    while i < tokens.len() - 1
        invariant
            prompt_len <= i <= tokens@.len() - 1,
            r@ == tokens@.subrange(prompt_len as int, i as int),
        decreases tokens@.len() - i,
    {
        r.push(tokens[i]);
        i = i + 1;
        assert(r@ =~= tokens@.subrange(prompt_len as int, i as int));
    }
    r
}

/// Judges the largest difference between the logits of both ways.
pub fn judge_logits(diff: u32) -> (r: bool)
    ensures
        r == single::greater(GRAD_TOLERANCE, diff),
{
    single::is_greater(GRAD_TOLERANCE, diff)
}

/// Whether the token decoded behind the prompt is the one that a prompt longer by
/// the first decoded token predicts.
pub fn judge_parity(decoded: &Vec<u32>, prefilled: &Vec<u32>) -> (r: bool)
    ensures
        r == (decoded@.len() >= 2 && prefilled@.len() > 0 && decoded@[1] == prefilled@[0]),
{
    decoded.len() >= 2 && prefilled.len() > 0 && decoded[1] == prefilled[0]
}

/// The bits of the lowest finite number.
pub const LOWEST: u32 = 0xff7f_ffff;

/// The index and the logit that a scan of the first `n` logits ends on, where only
/// logits above the lowest finite number count.
pub open spec fn scan_above(logits: Seq<u32>, n: nat) -> (int, u32)
    decreases n,
{
    if n == 0 {
        (0, LOWEST)
    } else {
        let best = scan_above(logits, (n - 1) as nat);
        if single::greater(logits[n - 1], best.1) {
            (n - 1, logits[n - 1])
        } else {
            best
        }
    }
}

/// The index of the largest logit; 0 where none counts.
pub fn argmax(logits: &Vec<u32>) -> (r: u32)
    requires
        logits@.len() <= u32::MAX,
    ensures
        r == scan_above(logits@, logits@.len()).0,
{
    let mut best: usize = 0;
    let mut value: u32 = LOWEST;
    let mut i: usize = 0;
    while i < logits.len()
        invariant
            i <= logits@.len() <= u32::MAX,
            best <= i,
            (best as int, value) == scan_above(logits@, i as nat),
        decreases logits@.len() - i,
    {
        if single::is_greater(logits[i], value) {
            best = i;
            value = logits[i];
        }
        i = i + 1;
    }
    best as u32
}

} // verus!
