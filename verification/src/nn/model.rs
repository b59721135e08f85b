//! A model under training, or one that serves prompts from a key/value cache.
//! What runs on the device is handed out as plans: graphs to execute and buffers
//! to write.
use super::assemble;
use super::checkpoint;
use super::checkpoint::{Bits, CheckpointError, LoadedCheckpoint, Loading};
use super::generation::Generation;
use super::grad_clip;
use super::grad_clip::{AnyGradClip, GlobalNormClip};
use super::kernels::meta::{KernelMeta, Meta};
use super::kernels::GraphBuilder;
use super::loss::{AnyLoss, CrossEntropyOp};
use super::serving;
use super::serving::{build_decode_forward, build_prefill_forward, DecodeGraph};
use super::tape;
use super::tape::{Advance, NodeId, TapeNodeView, TapeView};
use super::cached::{DecodeOp, DecodeOpView};
use super::training;
use super::training::{build_parts, BlockSpan, Parts, PartsView};
use super::weights;
use super::weights::{to_flat_weights, ModelWeights, ModelWeightsView};
use crate::config::ModelConfig;
use crate::device;
use crate::device::{ComputeGraph, Context, Init, NodeView, Scalar, Tensor};
use crate::error::AkashaError;
use vstd::prelude::*;

verus! {

/// How a model is trained.
#[derive(Clone, Copy, Debug, PartialEq, Eq, Structural)]
pub struct TrainOptions {
    /// Build a fresh graph every step instead of capturing one.
    pub streaming: bool,
    /// Let every block run forward once more before its backward pass.
    pub grad_checkpoint: bool,
    pub accumulation_steps: u32,
    pub max_norm: Scalar,
}

/// A model's training state.
pub struct TrainState {
    pub streaming: bool,
    pub grad_checkpoint: bool,
    /// `None` when streaming.
    pub fwd_graph: Option<ComputeGraph>,
    /// `None` when streaming.
    pub bwd_graph: Option<ComputeGraph>,
    /// The buffer that takes the tokens of a step.
    pub tokens: Tensor,
    pub parts: Parts,
    pub loss: AnyLoss,
    /// What the loss's row gradients are scaled with; written before the first
    /// step.
    pub grad_scale: (Tensor, Init),
    pub grad_clip: AnyGradClip,
}

/// The value of a `TrainState`.
#[verifier::ext_equal]
pub struct TrainStateView {
    pub streaming: bool,
    pub grad_checkpoint: bool,
    pub fwd_graph: Option<Seq<NodeView>>,
    pub bwd_graph: Option<Seq<NodeView>>,
    pub tokens: Tensor,
    pub parts: PartsView,
    pub loss: CrossEntropyOp,
    pub grad_scale: (Tensor, Init),
    pub grad_clip: Seq<NodeView>,
}

/// The dispatches of a graph that may be missing.
pub open spec fn graph_view(g: Option<ComputeGraph>) -> Option<Seq<NodeView>> {
    match g {
        Some(g) => Some(g@),
        None => None,
    }
}

impl View for TrainState {
    type V = TrainStateView;

    open spec fn view(&self) -> TrainStateView {
        TrainStateView {
            streaming: self.streaming,
            grad_checkpoint: self.grad_checkpoint,
            fwd_graph: graph_view(self.fwd_graph),
            bwd_graph: graph_view(self.bwd_graph),
            tokens: self.tokens,
            parts: self.parts@,
            loss: self.loss.op(),
            grad_scale: self.grad_scale,
            grad_clip: self.grad_clip.nodes(),
        }
    }
}

impl TrainStateView {
    pub open spec fn wf(self) -> bool {
        &&& self.parts.wf()
        &&& self.loss.shape.vocab_size + 255 <= u32::MAX
        &&& self.grad_checkpoint ==> self.streaming
        &&& self.fwd_graph is None == self.streaming
        &&& self.bwd_graph is None == self.streaming
    }
}

/// A model's serving state.
pub struct ChatState {
    pub cache_k: Vec<Tensor>,
    pub cache_v: Vec<Tensor>,
    pub max_context_len: u32,
    pub decode: DecodeGraph,
}

/// The value of a `ChatState`.
#[verifier::ext_equal]
pub struct ChatStateView {
    pub cache_k: Seq<Tensor>,
    pub cache_v: Seq<Tensor>,
    pub max_context_len: u32,
    pub graph: Seq<NodeView>,
    pub tape: TapeView<DecodeOpView>,
    pub tokens: Tensor,
    pub logits_id: NodeId,
}

impl View for ChatState {
    type V = ChatStateView;

    open spec fn view(&self) -> ChatStateView {
        ChatStateView {
            cache_k: self.cache_k@,
            cache_v: self.cache_v@,
            max_context_len: self.max_context_len,
            graph: self.decode.graph@,
            tape: self.decode.tape@,
            tokens: self.decode.tokens,
            logits_id: self.decode.logits_id,
        }
    }
}

impl ChatStateView {
    pub open spec fn wf(self, num_blocks: nat) -> bool {
        &&& self.cache_k.len() == num_blocks
        &&& self.cache_v.len() == num_blocks
        &&& self.tape.has_out(self.tape.nodes.len() as int, (self.logits_id, 0))
    }
}

pub struct Model {
    pub weights: ModelWeights,
    pub train: Option<TrainState>,
    pub chat: Option<ChatState>,
}

impl Model {
    /// The model was made for training.
    pub open spec fn trains(self) -> bool {
        self.train is Some && (self.train->0)@.wf()
    }

    /// The model was made for chat.
    pub open spec fn chats(self) -> bool {
        self.chat is Some && (self.chat->0)@.wf(self.weights@.blocks.len())
    }
}

/// The values and the moments that a model with the given tensors can have.
pub open spec fn own_state(
    targets: Seq<Tensor>,
    params: Seq<Seq<u32>>,
    moments: Seq<(Seq<u32>, Seq<u32>)>,
) -> bool {
    &&& params.len() == targets.len()
    &&& checkpoint::lens_fit(params, targets, params.len() as int)
    &&& moments.len() == targets.len()
}

// ---- training ----

/// The gradients of a parameter list.
pub open spec fn grads_of(ps: Seq<(Tensor, Tensor, bool)>) -> Seq<Tensor> {
    Seq::new(ps.len(), |i: int| ps[i].1)
}

/// The context and the state that `for_training` leaves when it starts in `c`:
/// the forward pass up to the loss, the backward pass from the loss to the
/// embedding, and the clip over every gradient.
#[verifier::opaque]
pub open spec fn train_build(
    c: Seq<Init>,
    w: ModelWeightsView,
    cfg: ModelConfig,
    opts: TrainOptions,
) -> (Seq<Init>, TrainStateView) {
    let rows = training::rows_of(cfg);
    let p = training::parts_build(c, w, cfg);
    let (c1, loss) = CrossEntropyOp::build(p.ctx, cfg.vocab_size, rows);
    let fwd = p.emitted.push(loss.fwd_node(c1, p.parts.logits()));
    let c2 = device::push_meta(c1, loss.shape.spec_meta());
    let b = training::backward_pass(c2, Seq::empty(), p.parts, loss, false);
    let (c3, clip) = grad_clip::clip_build(
        b.ctx,
        grads_of(training::parts_params(b.parts)),
        opts.max_norm,
    );
    (
        c3,
        TrainStateView {
            streaming: opts.streaming,
            grad_checkpoint: opts.grad_checkpoint,
            fwd_graph: if opts.streaming {
                None
            } else {
                Some(fwd)
            },
            bwd_graph: if opts.streaming {
                None
            } else {
                Some(b.emitted)
            },
            tokens: training::head_build(c, w, cfg).3.tokens,
            parts: b.parts,
            loss,
            grad_scale: (
                loss.d_losses,
                Init::Fill(rows, Scalar::Recip((rows * opts.accumulation_steps) as u64)),
            ),
            grad_clip: clip,
        },
    )
}

proof fn lemma_grads(
    ps: Seq<(Tensor, Tensor, bool)>,
    w: ModelWeightsView,
    cfg: ModelConfig,
    ds: Seq<bool>,
)
    requires
        training::trainable(w, cfg),
        assemble::lists(ps, weights::weight_order(w), ds),
        256 * (6 * w.blocks.len() + 3) <= u32::MAX,
    ensures
        tape::all_small(grads_of(ps)),
        grad_clip::offset(grads_of(ps), ps.len()) <= u32::MAX,
{
    let gs = grads_of(ps);
    weights::weight_count(w);
    lemma_weights_small(w, cfg);
    let ws = weights::weight_order(w);
    assert forall|i: int| 0 <= i < gs.len() implies tape::small(#[trigger] gs[i]) by {
        assert(ps[i].0 == ws[i]);
        assert(tape::small(ws[i]));
    }
    lemma_offset_bound(gs, gs.len());
}

proof fn lemma_offset_bound(gs: Seq<Tensor>, n: nat)
    ensures
        grad_clip::offset(gs, n) <= 256 * n,
    decreases n,
{
    if n > 0 {
        lemma_offset_bound(gs, (n - 1) as nat);
    }
}

proof fn lemma_weights_small(w: ModelWeightsView, cfg: ModelConfig)
    requires
        training::trainable(w, cfg),
    ensures
        tape::all_small(weights::weight_order(w)),
{
    lemma_blocks_small(w, cfg, w.blocks.len());
    let ws = weights::weight_order(w);
    let bs = weights::blocks_order(w.blocks, w.blocks.len());
    assert forall|i: int| 0 <= i < ws.len() implies tape::small(#[trigger] ws[i]) by {
        if 1 <= i < 1 + bs.len() {
            assert(ws[i] == bs[i - 1]);
        }
    }
}

proof fn lemma_blocks_small(w: ModelWeightsView, cfg: ModelConfig, n: nat)
    requires
        training::trainable(w, cfg),
        n <= w.blocks.len(),
    ensures
        tape::all_small(weights::blocks_order(w.blocks, n)),
    decreases n,
{
    if n > 0 {
        lemma_blocks_small(w, cfg, (n - 1) as nat);
        let rest = weights::blocks_order(w.blocks, (n - 1) as nat);
        let all = weights::blocks_order(w.blocks, n);
        let b = weights::block_order(w.blocks[n - 1]);
        assert(tape::all_small(b));
        assert forall|i: int| 0 <= i < all.len() implies tape::small(#[trigger] all[i]) by {
            if i < rest.len() {
                assert(all[i] == rest[i]);
            } else {
                assert(all[i] == b[i - rest.len()]);
            }
        }
    }
}

/// The spans to hold activations for: all of them under gradient checkpointing.
fn held_spans(checkpointed: bool, spans: Vec<BlockSpan>) -> (r: Vec<BlockSpan>)
    ensures
        r@ == (if checkpointed {
            spans@
        } else {
            Seq::empty()
        }),
{
    if checkpointed {
        spans
    } else {
        Vec::new()
    }
}

/// What a training step executes.
pub enum StepPlan {
    /// The two graphs captured at construction.
    Captured,
    /// Two graphs built for this step. With gradient checkpointing, the spans say
    /// for which dispatches a block's activations are held: they are computed from
    /// where its span starts and freed where it ends, in the forward pass and once
    /// more in the backward pass. Without it they are held throughout, and no span
    /// is given.
    Streaming {
        forward: ComputeGraph,
        forward_spans: Vec<BlockSpan>,
        backward: ComputeGraph,
        backward_spans: Vec<BlockSpan>,
    },
}

impl Model {
    pub fn for_training(
        ctx: &mut Context,
        weights: ModelWeights,
        cfg: &ModelConfig,
        opts: TrainOptions,
    ) -> (r: Model)
        requires
            training::trainable(weights@, *cfg),
            opts.grad_checkpoint ==> opts.streaming,
            training::rows_of(*cfg) * opts.accumulation_steps <= u32::MAX,
            256 * (6 * weights@.blocks.len() + 3) <= u32::MAX,
        ensures
            r.weights == weights,
            r.chat is None,
            r.trains(),
            (final(ctx)@, (r.train->0)@) == train_build(old(ctx)@, weights@, *cfg, opts),
            assemble::lists(
                training::parts_params((r.train->0)@.parts),
                weights::weight_order(weights@),
                training::all_decays(weights@.blocks.len()),
            ),
    {
        let ghost c = ctx@;
        let ghost w = weights@;
        let rows: u32 = cfg.batch_size * cfg.seq_len;
        let mut gb = GraphBuilder::train(ComputeGraph::new());
        proof {
            training::lemma_parts(c, w, *cfg);
            training::params_follow_weights(c, w, *cfg);
        }
        let (mut parts, tokens) = build_parts(ctx, &mut gb, &weights, cfg);
        let ghost p = training::parts_build(c, w, *cfg);
        let loss = AnyLoss::CrossEntropy(CrossEntropyOp::new(ctx, cfg.vocab_size, rows));
        let logits = parts.tail.output(parts.logits_id);
        loss.forward(ctx, &mut gb, logits);
        assert(0 <= rows * opts.accumulation_steps) by (nonlinear_arith);
        let grad_scale = loss.set_grad_scale(
            Scalar::Recip((rows * opts.accumulation_steps) as u64),
        );
        let mut gb_bwd = GraphBuilder::train(ComputeGraph::new());
        let _spans = parts.backward(ctx, &mut gb_bwd, &loss, false);
        proof {
            training::passes_keep_params(parts@, p.parts);
        }
        let params = parts.params();
        let mut grads: Vec<Tensor> = Vec::new();
        let mut i: usize = 0;
        while i < params.len()
            invariant
                i <= params@.len(),
                grads@ == grads_of(params@).subrange(0, i as int),
            decreases params@.len() - i,
        {
            grads.push(params[i].1);
            i = i + 1;
            assert(grads@ =~= grads_of(params@).subrange(0, i as int));
        }
        assert(grads@ =~= grads_of(params@));
        proof {
            lemma_grads(params@, w, *cfg, training::all_decays(w.blocks.len()));
        }
        let grad_clip = AnyGradClip::GlobalNorm(GlobalNormClip::new(ctx, &grads, opts.max_norm));
        let fwd_graph = if opts.streaming {
            None
        } else {
            Some(gb.graph)
        };
        let bwd_graph = if opts.streaming {
            None
        } else {
            Some(gb_bwd.graph)
        };
        let state = TrainState {
            streaming: opts.streaming,
            grad_checkpoint: opts.grad_checkpoint,
            fwd_graph,
            bwd_graph,
            tokens,
            parts,
            loss,
            grad_scale,
            grad_clip,
        };
        proof {
            reveal(train_build);
            assert(state@ =~= train_build(c, w, *cfg, opts).1);
        }
        Model { weights, train: Some(state), chat: None }
    }

    /// What one training step executes after its tokens and targets are written.
    /// Captured, it is the two graphs that construction left. Streaming, both
    /// passes are built anew; with gradient checkpointing every block runs
    /// forward once more within the backward pass.
    pub fn train_step(&mut self, ctx: &mut Context) -> (r: StepPlan)
        requires
            old(self).trains(),
        ensures
            final(self).trains(),
            final(self).weights == old(self).weights,
            final(self).chat == old(self).chat,
            ({
                let t = (old(self).train->0)@;
                let f = training::forward_pass(old(ctx)@, Seq::empty(), t.parts, t.loss);
                let b = training::backward_pass(
                    f.ctx,
                    Seq::empty(),
                    f.parts,
                    t.loss,
                    t.grad_checkpoint,
                );
                if t.streaming {
                    &&& r matches StepPlan::Streaming {
                        forward,
                        forward_spans,
                        backward,
                        backward_spans,
                    }
                    &&& forward@ == f.emitted
                    &&& backward@ == b.emitted
                    &&& forward_spans@ == (if t.grad_checkpoint {
                        training::forward_spans(old(ctx)@, Seq::empty(), t.parts)
                    } else {
                        Seq::empty()
                    })
                    &&& backward_spans@ == (if t.grad_checkpoint {
                        training::backward_spans(f.ctx, Seq::empty(), f.parts, t.loss, true)
                    } else {
                        Seq::empty()
                    })
                    &&& final(ctx)@ == b.ctx
                    &&& (final(self).train->0)@ == (TrainStateView { parts: b.parts, ..t })
                } else {
                    &&& r is Captured
                    &&& final(ctx)@ == old(ctx)@
                    &&& (final(self).train->0)@ == t
                }
            }),
            training::parts_params((final(self).train->0)@.parts) == training::parts_params(
                (old(self).train->0)@.parts,
            ),
    {
        let ghost t0 = (self.train->0)@;
        match &mut self.train {
            Some(t) => {
                if !t.streaming {
                    return StepPlan::Captured;
                }
                let mut gb = GraphBuilder::train(ComputeGraph::new());
                let ups = t.parts.forward(ctx, &mut gb, &t.loss);
                proof {
                    training::passes_keep_params(t.parts@, t0.parts);
                }
                let ghost mid = t.parts@;
                let mut gb_bwd = GraphBuilder::train(ComputeGraph::new());
                let downs = t.parts.backward(ctx, &mut gb_bwd, &t.loss, t.grad_checkpoint);
                proof {
                    training::passes_keep_params(t.parts@, mid);
                    assert(t@ =~= (TrainStateView { parts: t.parts@, ..t0 }));
                }
                StepPlan::Streaming {
                    forward: gb.graph,
                    forward_spans: held_spans(t.grad_checkpoint, ups),
                    backward: gb_bwd.graph,
                    backward_spans: held_spans(t.grad_checkpoint, downs),
                }
            },
            None => StepPlan::Captured,
        }
    }

    /// What an evaluation executes: the captured forward graph, or one built for
    /// it, with the spans that gradient checkpointing gives it in a training step.
    pub fn eval_loss(&mut self, ctx: &mut Context) -> (r: Option<(ComputeGraph, Vec<BlockSpan>)>)
        requires
            old(self).trains(),
        ensures
            final(self).trains(),
            final(self).weights == old(self).weights,
            final(self).chat == old(self).chat,
            ({
                let t = (old(self).train->0)@;
                let f = training::forward_pass(old(ctx)@, Seq::empty(), t.parts, t.loss);
                if t.streaming {
                    &&& r matches Some((graph, spans))
                    &&& graph@ == f.emitted
                    &&& spans@ == (if t.grad_checkpoint {
                        training::forward_spans(old(ctx)@, Seq::empty(), t.parts)
                    } else {
                        Seq::empty()
                    })
                    &&& final(ctx)@ == f.ctx
                    &&& (final(self).train->0)@ == (TrainStateView { parts: f.parts, ..t })
                } else {
                    &&& r is None
                    &&& final(ctx)@ == old(ctx)@
                    &&& (final(self).train->0)@ == t
                }
            }),
    {
        let ghost t0 = (self.train->0)@;
        match &mut self.train {
            Some(t) => {
                if !t.streaming {
                    return None;
                }
                let mut gb = GraphBuilder::train(ComputeGraph::new());
                let spans = t.parts.forward(ctx, &mut gb, &t.loss);
                assert(t@ =~= (TrainStateView { parts: t.parts@, ..t0 }));
                Some((gb.graph, held_spans(t.grad_checkpoint, spans)))
            },
            None => None,
        }
    }

    /// (weight, gradient, decay) triples in checkpoint order.
    pub fn params(&self) -> (r: Vec<(Tensor, Tensor, bool)>)
        requires
            self.trains(),
        ensures
            r@ == training::parts_params((self.train->0)@.parts),
    {
        match &self.train {
            Some(t) => t.parts.params(),
            None => Vec::new(),
        }
    }

    /// What is written to clear every gradient.
    pub fn zero_grad(&self) -> (r: Vec<Tensor>)
        requires
            self.trains(),
        ensures
            r@ == grads_of(training::parts_params((self.train->0)@.parts)),
    {
        let params = self.params();
        let mut r: Vec<Tensor> = Vec::new();
        let mut i: usize = 0;
        while i < params.len()
            invariant
                i <= params@.len(),
                r@ == grads_of(params@).subrange(0, i as int),
            decreases params@.len() - i,
        {
            r.push(params[i].1);
            i = i + 1;
            assert(r@ =~= grads_of(params@).subrange(0, i as int));
        }
        assert(r@ =~= grads_of(params@));
        r
    }

    /// The dispatches that run before the optimizer's own update.
    pub fn optimizer_step(&self) -> (r: &ComputeGraph)
        requires
            self.trains(),
        ensures
            r@ == (self.train->0)@.grad_clip,
    {
        self.train.as_ref().unwrap().grad_clip.clip()
    }

    /// The file of the model's weights and of the optimizer's state: the values
    /// read from the weights, the moments in the same order, and the schedule's
    /// step.
    pub fn save_checkpoint(
        &self,
        params: Vec<Bits>,
        moments: Vec<(Bits, Bits)>,
        schedule_step: u32,
        train_step: u64,
    ) -> (r: Vec<u8>)
        requires
            self.trains(),
        ensures
            r@ == checkpoint::v3_file(
                checkpoint::spec_body(
                    self.weights.cfg,
                    checkpoint::bits(params@),
                    Some((checkpoint::pair_bits(moments@), schedule_step)),
                    train_step,
                ),
            ),
    {
        checkpoint::save(&self.weights.cfg, params, Some((moments, schedule_step)), train_step)
    }

    /// What a file puts into the model's weights, and the step and the optimizer
    /// state it was written with. A file that `save_checkpoint` made of the model's
    /// own tensors is taken back whole.
    pub fn load_checkpoint(&self, bytes: &Vec<u8>) -> (r: Loading)
        requires
            self.trains(),
        ensures
            match checkpoint::file_body(bytes@) {
                Ok(body) => checkpoint::takes(
                    body,
                    self.weights.cfg,
                    weights::weight_order(self.weights@),
                    checkpoint::bits(r.params@),
                    r.outcome,
                ),
                Err(e) => r.params@.len() == 0 && r.outcome == Err::<
                    LoadedCheckpoint,
                    CheckpointError,
                >(e),
            },
            forall|params: Seq<Seq<u32>>, moments: Seq<(Seq<u32>, Seq<u32>)>, at: u32, step: u64|
                bytes@ == #[trigger] checkpoint::v3_file(
                    checkpoint::spec_body(self.weights.cfg, params, Some((moments, at)), step),
                ) && own_state(weights::weight_order(self.weights@), params, moments)
                    ==> checkpoint::bits(r.params@) == params && (r.outcome matches Ok(l)
                    && checkpoint::loaded_view(l) == (step, Some((moments, at)))),
    {
        let targets = self.weights.params();
        let r = checkpoint::load(&self.weights.cfg, &targets, bytes);
        proof {
            weights::weight_count(self.weights@);
            assert forall|
                params: Seq<Seq<u32>>,
                moments: Seq<(Seq<u32>, Seq<u32>)>,
                at: u32,
                step: u64,
            |
                bytes@ == #[trigger] checkpoint::v3_file(
                    checkpoint::spec_body(self.weights.cfg, params, Some((moments, at)), step),
                ) && own_state(targets@, params, moments) implies checkpoint::bits(r.params@)
                == params && (r.outcome matches Ok(l) && checkpoint::loaded_view(l) == (
                step,
                Some((moments, at)),
            )) by {
                checkpoint::saved_state_is_taken_back(
                    self.weights.cfg,
                    targets@,
                    params,
                    Some((moments, at)),
                    step,
                    checkpoint::bits(r.params@),
                    r.outcome,
                );
            }
        }
        r
    }

    /// The values of all weights, one after the other, given those read from each.
    pub fn to_flat_weights<T: Copy>(&self, pieces: &Vec<Vec<T>>) -> (r: Vec<T>)
        requires
            pieces@.len() == weights::weight_order(self.weights@).len(),
        ensures
            r@ == weights::join_flat(weights::piece_views(pieces@), pieces@.len()),
    {
        to_flat_weights(pieces)
    }

    /// Which values of a flat list go into which weight.
    pub fn set_flat_weights<T: Copy>(&self, flat: &Vec<T>) -> (r: Vec<(Tensor, Vec<T>)>)
        requires
            flat@.len() == weights::flat_len(
                weights::weight_order(self.weights@),
                weights::weight_order(self.weights@).len(),
            ),
        ensures
            r@.len() == weights::weight_order(self.weights@).len(),
            forall|i: int|
                0 <= i < r@.len() ==> {
                    &&& (#[trigger] r@[i]).0 == weights::weight_order(self.weights@)[i]
                    &&& r@[i].1@ == weights::split_flat(
                        weights::weight_order(self.weights@),
                        flat@,
                        weights::weight_order(self.weights@).len(),
                    )[i]
                },
    {
        self.weights.set_flat_weights(flat)
    }

    pub fn weights(&self) -> (r: &ModelWeights)
        ensures
            *r == self.weights,
    {
        &self.weights
    }
}

// ---- chat ----

/// `n` buffers of `len` zeros each, allocated from `c` on.
pub open spec fn zero_buffers(c: Seq<Init>, len: int, n: nat) -> (Seq<Init>, Seq<Tensor>)
    decreases n,
{
    if n == 0 {
        (c, Seq::empty())
    } else {
        let (c1, ts) = zero_buffers(c, len, (n - 1) as nat);
        (device::push_zeros(c1, len), ts.push(device::next_zeros(c1, len)))
    }
}

pub fn alloc_zero_buffers(ctx: &mut Context, len: u32, n: usize) -> (r: Vec<Tensor>)
    ensures
        (final(ctx)@, r@) == zero_buffers(old(ctx)@, len as int, n as nat),
        r@.len() == n,
{
    let ghost c = ctx@;
    let mut r: Vec<Tensor> = Vec::new();
    let mut i: usize = 0;
    while i < n
        invariant
            i <= n,
            (ctx@, r@) == zero_buffers(c, len as int, i as nat),
            r@.len() == i,
        decreases n - i,
    {
        let t = ctx.zeros(len);
        r.push(t);
        i = i + 1;
    }
    r
}

/// The context and the state that `for_chat` leaves when it starts in `c`.
pub open spec fn chat_build(c: Seq<Init>, w: ModelWeightsView, cfg: ModelConfig, max: u32) -> (
    Seq<Init>,
    ChatStateView,
) {
    let n = w.blocks.len();
    let (c1, ks) = zero_buffers(c, max * cfg.dim, n);
    let (c2, vs) = zero_buffers(c1, max * cfg.dim, n);
    let d = serving::decode_forward(c2, w, cfg, ks, vs, max);
    (
        d.ctx,
        ChatStateView {
            cache_k: ks,
            cache_v: vs,
            max_context_len: max,
            graph: d.emitted,
            tape: d.tape,
            tokens: d.tokens,
            logits_id: d.logits_id,
        },
    )
}

/// What runs a prompt: the graph, the buffer that takes the prompt, the logits,
/// and where the last row's logits start and end among them.
pub struct PromptPlan {
    pub graph: ComputeGraph,
    pub tokens: Tensor,
    pub logits: Tensor,
    pub start: u64,
    pub end: u64,
}

/// What runs a decode step on the model's decode graph: the metas to overwrite,
/// the buffer that takes the token, and the logits.
pub struct DecodePlan {
    pub writes: Vec<(Tensor, Meta)>,
    pub tokens: Tensor,
    pub token: u32,
    pub logits: Tensor,
}

/// The serving state at position `pos`.
pub open spec fn chat_at(s: ChatStateView, pos: u32) -> ChatStateView {
    ChatStateView {
        tape: TapeView {
            nodes: Seq::new(
                s.tape.nodes.len(),
                |i: int|
                    TapeNodeView {
                        op: <DecodeOp as Advance>::advanced(s.tape.nodes[i].op, pos),
                        ..s.tape.nodes[i]
                    },
            ),
            ..s.tape
        },
        ..s
    }
}

impl Model {
    pub fn for_chat(
        ctx: &mut Context,
        weights: ModelWeights,
        cfg: &ModelConfig,
        max_context_len: u32,
    ) -> (r: Model)
        requires
            serving::decode_servable(weights@, *cfg, max_context_len),
            max_context_len * cfg.dim <= u32::MAX,
        ensures
            r.weights == weights,
            r.train is None,
            r.chats(),
            (final(ctx)@, (r.chat->0)@) == chat_build(old(ctx)@, weights@, *cfg, max_context_len),
    {
        assert(0 <= max_context_len * cfg.dim) by (nonlinear_arith);
        let cache_len: u32 = max_context_len * cfg.dim;
        let n: usize = weights.blocks.len();
        let cache_k = alloc_zero_buffers(ctx, cache_len, n);
        let cache_v = alloc_zero_buffers(ctx, cache_len, n);
        let decode = build_decode_forward(ctx, &weights, cfg, &cache_k, &cache_v, max_context_len);
        Model {
            weights,
            train: None,
            chat: Some(ChatState { cache_k, cache_v, max_context_len, decode }),
        }
    }

    /// What runs `prompt` through the model and fills the cache with it.
    pub fn prefill_logits(&self, ctx: &mut Context, prompt: &Vec<u32>) -> (r: Result<
        PromptPlan,
        AkashaError,
    >)
        requires
            self.chats(),
            prompt@.len() <= u32::MAX,
            0 < prompt@.len() <= (self.chat->0)@.max_context_len ==> serving::prefill_servable(
                self.weights@,
                self.weights@.cfg,
                prompt@.len() as u32,
            ),
        ensures
            r == Err::<PromptPlan, AkashaError>(AkashaError::EmptyPrompt) <==> prompt@.len() == 0,
            prompt@.len() > (self.chat->0)@.max_context_len ==> r == Err::<PromptPlan, AkashaError>(
                AkashaError::PromptTooLong {
                    len: prompt@.len() as u32,
                    max: (self.chat->0)@.max_context_len,
                },
            ),
            r is Ok <==> 0 < prompt@.len() <= (self.chat->0)@.max_context_len,
            r is Err ==> final(ctx)@ == old(ctx)@,
            r matches Ok(plan) ==> {
                let s = (self.chat->0)@;
                let cfg = self.weights@.cfg;
                let p = serving::prefill_forward(
                    old(ctx)@,
                    self.weights@,
                    cfg,
                    s.cache_k,
                    s.cache_v,
                    prompt@.len() as u32,
                );
                &&& final(ctx)@ == p.ctx
                &&& plan.graph@ == p.emitted
                &&& plan.tokens == p.tokens
                &&& plan.logits == p.tape.out((p.logits_id, 0))
                &&& plan.start == (prompt@.len() - 1) * cfg.vocab_size
                &&& plan.end == prompt@.len() * cfg.vocab_size
            },
    {
        if prompt.len() == 0 {
            return Err(AkashaError::EmptyPrompt);
        }
        let chat = self.chat.as_ref().unwrap();
        let prompt_len: u32 = prompt.len() as u32;
        if prompt_len > chat.max_context_len {
            return Err(AkashaError::PromptTooLong { len: prompt_len, max: chat.max_context_len });
        }
        let cfg = self.weights.cfg;
        let mut gb = GraphBuilder::prefill(ComputeGraph::new());
        let (tape, tokens, logits_id) = build_prefill_forward(
            ctx,
            &mut gb,
            &self.weights,
            &cfg,
            prompt_len,
            &chat.cache_k,
            &chat.cache_v,
        );
        let logits = tape.output(logits_id);
        let vocab: u64 = cfg.vocab_size as u64;
        let n: u64 = prompt_len as u64;
        proof {
            assert(0 <= (n - 1) * vocab <= n * vocab <= u64::MAX) by (nonlinear_arith)
                requires
                    1 <= n <= u32::MAX,
                    0 <= vocab <= u32::MAX,
            ;
        }
        Ok(PromptPlan { graph: gb.graph, tokens, logits, start: (n - 1) * vocab, end: n * vocab })
    }

    /// What runs one token at position `pos`. The decode graph itself stays as
    /// it was built.
    pub fn decode_step_logits(&mut self, token: u32, pos: u32) -> (r: Result<
        DecodePlan,
        AkashaError,
    >)
        requires
            old(self).chats(),
        ensures
            final(self).chats(),
            final(self).weights == old(self).weights,
            final(self).train == old(self).train,
            ({
                let s = (old(self).chat->0)@;
                if pos >= s.max_context_len {
                    &&& r == Err::<DecodePlan, AkashaError>(
                        AkashaError::ContextFull { max: s.max_context_len },
                    )
                    &&& (final(self).chat->0)@ == s
                } else {
                    &&& (final(self).chat->0)@ == chat_at(s, pos)
                    &&& r matches Ok(plan)
                    &&& plan.writes@ == tape::writes_of::<DecodeOp>(
                        s.tape.nodes,
                        pos,
                        s.tape.nodes.len(),
                    )
                    &&& plan.tokens == s.tokens
                    &&& plan.token == token
                    &&& plan.logits == s.tape.out((s.logits_id, 0))
                }
            }),
    {
        let ghost s = (self.chat->0)@;
        match &mut self.chat {
            Some(chat) => {
                if pos >= chat.max_context_len {
                    return Err(AkashaError::ContextFull { max: chat.max_context_len });
                }
                let writes = chat.decode.tape.advance(pos);
                let logits = chat.decode.tape.output(chat.decode.logits_id);
                assert(chat@ =~= chat_at(s, pos));
                Ok(DecodePlan { writes, tokens: chat.decode.tokens, token, logits })
            },
            None => Err(AkashaError::NoCache),
        }
    }

    /// The cache buffers, which a reset overwrites with zeros.
    pub fn reset_cache(&self) -> (r: Vec<Tensor>)
        requires
            self.chats(),
        ensures
            r@ == (self.chat->0)@.cache_k + (self.chat->0)@.cache_v,
    {
        let chat = self.chat.as_ref().unwrap();
        let mut r: Vec<Tensor> = Vec::new();
        let mut i: usize = 0;
        while i < chat.cache_k.len()
            invariant
                i <= chat.cache_k@.len(),
                r@ == chat.cache_k@.subrange(0, i as int),
            decreases chat.cache_k@.len() - i,
        {
            r.push(chat.cache_k[i]);
            i = i + 1;
            assert(r@ =~= chat.cache_k@.subrange(0, i as int));
        }
        assert(r@ =~= chat.cache_k@);
        let mut i: usize = 0;
        while i < chat.cache_v.len()
            invariant
                i <= chat.cache_v@.len(),
                r@ == chat.cache_k@ + chat.cache_v@.subrange(0, i as int),
            decreases chat.cache_v@.len() - i,
        {
            r.push(chat.cache_v[i]);
            i = i + 1;
            assert(r@ =~= chat.cache_k@ + chat.cache_v@.subrange(0, i as int));
        }
        assert(r@ =~= chat.cache_k@ + chat.cache_v@);
        r
    }

    /// The generation that follows a prompt whose logits gave `first`. Its decode
    /// steps go through `decode_step_logits`.
    pub fn generate(&self, prompt: &Vec<u32>, first: u32, max_new_tokens: usize) -> (r: Generation)
        requires
            self.chats(),
            prompt@.len() <= (self.chat->0)@.max_context_len,
        ensures
            r.wf(),
            r.generated@ == seq![first],
            r.seen@ == prompt@.push(first),
            r.pos == prompt@.len(),
            r.eos == self.weights@.cfg.eos_token,
            r.max_new_tokens == max_new_tokens,
            r.max_context_len == (self.chat->0)@.max_context_len,
    {
        Generation::start(
            prompt,
            first,
            self.weights.cfg.eos_token,
            max_new_tokens,
            self.max_context_len(),
        )
    }

    pub fn max_context_len(&self) -> (r: u32)
        requires
            self.chats(),
        ensures
            r == (self.chat->0)@.max_context_len,
    {
        self.chat.as_ref().unwrap().max_context_len
    }
}

} // verus!
