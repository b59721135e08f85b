//! The hand-wired model: embedding, blocks, final norm, head and loss, with one
//! fused graph for each pass.
use super::checkpoint;
use super::checkpoint::Bits;
use super::layers;
use super::layers::{CrossEntropy, CrossEntropyView, Embedding, EmbeddingView, Layer, Linear,
    LinearView, RMSNorm, RMSNormView};
use super::migrate;
use super::migrate::{read_pairs, write_pairs};
use super::pipeline;
use super::pipeline::TransformerBlock;
use super::transformer;
use super::transformer::TransformerBlockView;
use super::weights::BlockWeights;
use crate::config::ModelConfig;
use crate::device;
use crate::READ_LOSS;
use crate::device::{ComputeGraph, Context, Init, NodeView, Scalar, Tensor};
use vstd::prelude::*;

verus! {

pub struct AkashaModel {
    pub input_tokens: Tensor,
    pub embedding: Embedding,
    pub layers: Vec<TransformerBlock>,
    pub final_norm: RMSNorm,
    pub lm_head: Linear,
    pub grad_logits: Tensor,
    pub cross_entropy: CrossEntropy,
    pub fused_forward_graph: ComputeGraph,
    pub fused_backward_graph: ComputeGraph,
}

/// The value of an `AkashaModel`.
#[verifier::ext_equal]
pub struct AkashaModelView {
    pub input_tokens: Tensor,
    pub embedding: EmbeddingView,
    pub layers: Seq<TransformerBlockView>,
    pub final_norm: RMSNormView,
    pub lm_head: LinearView,
    pub grad_logits: Tensor,
    pub cross_entropy: CrossEntropyView,
    pub fused_forward_graph: Seq<NodeView>,
    pub fused_backward_graph: Seq<NodeView>,
}

/// The values of a list of blocks.
pub open spec fn views(layers: Seq<TransformerBlock>) -> Seq<TransformerBlockView> {
    Seq::new(layers.len(), |i: int| layers[i]@)
}

impl View for AkashaModel {
    type V = AkashaModelView;

    open spec fn view(&self) -> AkashaModelView {
        AkashaModelView {
            input_tokens: self.input_tokens,
            embedding: self.embedding@,
            layers: views(self.layers@),
            final_norm: self.final_norm@,
            lm_head: self.lm_head@,
            grad_logits: self.grad_logits,
            cross_entropy: self.cross_entropy@,
            fused_forward_graph: self.fused_forward_graph@,
            fused_backward_graph: self.fused_backward_graph@,
        }
    }
}

/// The configurations whose buffers can be counted in 32 bits.
pub open spec fn model_fits(cfg: ModelConfig) -> bool {
    &&& pipeline::block_fits(cfg)
    &&& cfg.num_layers >= 1
    &&& cfg.num_layers < usize::MAX
    &&& cfg.vocab_size + 15 <= u32::MAX
    &&& cfg.seq_len * cfg.vocab_size <= u32::MAX
    &&& cfg.vocab_size * cfg.dim <= u32::MAX
}

/// `n` more buffers of `elems` zeros.
pub open spec fn zeros_ctx(c: Seq<Init>, elems: int, n: nat) -> Seq<Init>
    decreases n,
{
    if n == 0 {
        c
    } else {
        device::push_zeros(zeros_ctx(c, elems, (n - 1) as nat), elems)
    }
}

pub(crate) proof fn lemma_zeros_ctx_len(c: Seq<Init>, elems: int, n: nat)
    ensures
        zeros_ctx(c, elems, n).len() == c.len() + n,
    decreases n,
{
    if n > 0 {
        lemma_zeros_ctx_len(c, elems, (n - 1) as nat);
    }
}

/// The first `n` blocks of the stack, built from context `c` on. Block `i` reads
/// what block `i - 1` wrote; gradient edge `i` lies between blocks `i - 1` and
/// `i`, and `e` is the context in which the edges were created.
pub open spec fn stack(
    c: Seq<Init>,
    e: Seq<Init>,
    cfg: ModelConfig,
    blocks: Seq<BlockWeights>,
    input: Tensor,
    n: nat,
) -> (Seq<Init>, Seq<TransformerBlockView>, Tensor)
    decreases n,
{
    if n == 0 {
        (c, Seq::empty(), input)
    } else {
        let (cp, vs, cur) = stack(c, e, cfg, blocks, input, (n - 1) as nat);
        let d = cfg.seq_len * cfg.dim;
        let (cn, v) = pipeline::block_build(
            cp,
            cfg,
            blocks[n - 1],
            cur,
            transformer::grad_buf(e, n as int, d),
            transformer::grad_buf(e, n - 1, d),
        );
        (cn, vs.push(v), v.add_2.in_out_buffer)
    }
}

/// The stack has as many blocks as were built.
pub(crate) proof fn lemma_stack_len(
    c: Seq<Init>,
    e: Seq<Init>,
    cfg: ModelConfig,
    blocks: Seq<BlockWeights>,
    input: Tensor,
    n: nat,
)
    ensures
        stack(c, e, cfg, blocks, input, n).1.len() == n,
    decreases n,
{
    if n > 0 {
        lemma_stack_len(c, e, cfg, blocks, input, (n - 1) as nat);
    }
}

/// The forward dispatches of the first `n` blocks.
pub open spec fn stack_forward(vs: Seq<TransformerBlockView>, n: nat) -> Seq<NodeView>
    decreases n,
{
    if n == 0 {
        Seq::empty()
    } else {
        stack_forward(vs, (n - 1) as nat) + transformer::block_forward(vs[n - 1])
    }
}

/// The backward dispatches of the last `n` blocks, last block first.
pub open spec fn stack_backward(vs: Seq<TransformerBlockView>, n: nat) -> Seq<NodeView>
    decreases n,
{
    if n == 0 {
        Seq::empty()
    } else {
        stack_backward(vs, (n - 1) as nat) + vs[vs.len() - n].backward_graph
    }
}

/// The context and the model that `AkashaModel::new` leaves when it starts in a
/// context holding `c`.
#[verifier::opaque]
pub open spec fn model_build(
    c: Seq<Init>,
    cfg: ModelConfig,
    blocks: Seq<BlockWeights>,
    std: Scalar,
    input_tokens: Tensor,
) -> (Seq<Init>, AkashaModelView) {
    let rows = cfg.seq_len;
    let d = cfg.seq_len * cfg.dim;
    let zero = Scalar::Dec { digits: 0, places: 0 };
    let one = Scalar::Dec { digits: 1, places: 0 };
    let grad_logits = device::next_zeros(c, rows * cfg.vocab_size);
    let c1 = device::push_zeros(c, rows * cfg.vocab_size);
    let g_lmhead_in = device::next_zeros(c1, d);
    let c2 = device::push_zeros(c1, d);
    let c3 = zeros_ctx(c2, d, (cfg.num_layers + 1) as nat);
    let table_init = Init::Normal((cfg.vocab_size * cfg.dim) as u32, zero, std);
    let c4 = c3.push(table_init);
    let embedding = layers::embedding_view(
        c4,
        cfg.vocab_size,
        cfg.dim,
        rows,
        device::next_tensor(c3, table_init),
        input_tokens,
        transformer::grad_buf(c2, 0, d),
    );
    let c5 = layers::embedding_ctx(c4, cfg.vocab_size, cfg.dim, rows);
    let (c6, vs, last) = stack(
        c5,
        c2,
        cfg,
        blocks,
        embedding.out_buffer,
        cfg.num_layers as nat,
    );
    let norm_init = Init::Normal(cfg.dim, one, Scalar::Dec { digits: 2, places: 2 });
    let c7 = c6.push(norm_init);
    let final_norm = layers::rmsnorm_view(
        c7,
        cfg.dim,
        rows,
        device::next_tensor(c6, norm_init),
        last,
        g_lmhead_in,
        transformer::grad_buf(c2, cfg.num_layers as int, d),
    );
    let c8 = layers::rmsnorm_ctx(c7, cfg.dim, rows);
    let head_init = Init::Normal((cfg.vocab_size * cfg.dim) as u32, zero, std);
    let c9 = c8.push(head_init);
    let lm_head = layers::linear_view(
        c9,
        cfg.dim,
        cfg.vocab_size,
        rows,
        device::next_tensor(c8, head_init),
        final_norm.out_buffer,
        grad_logits,
        g_lmhead_in,
    );
    let c10 = layers::linear_ctx(c9, cfg.dim, cfg.vocab_size, rows);
    let cross_entropy = layers::cross_entropy_view(
        c10,
        cfg.vocab_size,
        rows,
        lm_head.out_buffer,
        grad_logits,
    );
    let c11 = layers::cross_entropy_ctx(c10, cfg.vocab_size, rows);
    let n = cfg.num_layers as nat;
    (
        c11,
        AkashaModelView {
            input_tokens,
            embedding,
            layers: vs,
            final_norm,
            lm_head,
            grad_logits,
            cross_entropy,
            fused_forward_graph: embedding.forward_graph + stack_forward(vs, n)
                + final_norm.forward_graph + lm_head.forward_graph + cross_entropy.forward_graph,
            fused_backward_graph: cross_entropy.backward_graph + lm_head.backward_graph
                + final_norm.backward_graph + stack_backward(vs, n) + embedding.backward_graph,
        },
    )
}

/// The (weight, gradient) pairs of one block.
pub open spec fn block_params(b: TransformerBlockView) -> Seq<(Tensor, Tensor)> {
    seq![
        (b.norm_1.weight, b.norm_1.grad_weight),
        (b.qkv_proj.weight, b.qkv_proj.grad_weight),
        (b.out_proj.weight, b.out_proj.grad_weight),
        (b.norm_2.weight, b.norm_2.grad_weight),
        (b.ffn_up.weight, b.ffn_up.grad_weight),
        (b.ffn_down.weight, b.ffn_down.grad_weight),
    ]
}

/// The pairs of the first `n` blocks.
pub open spec fn stack_params(vs: Seq<TransformerBlockView>, n: nat) -> Seq<(Tensor, Tensor)>
    decreases n,
{
    if n == 0 {
        Seq::empty()
    } else {
        stack_params(vs, (n - 1) as nat) + block_params(vs[n - 1])
    }
}

/// All pairs of a model: the embedding, the blocks in order, the final norm and
/// the head. This order is the checkpoint format.
pub open spec fn model_params(m: AkashaModelView) -> Seq<(Tensor, Tensor)> {
    seq![(m.embedding.table, m.embedding.grad_table)] + stack_params(m.layers, m.layers.len())
        + seq![
        (m.final_norm.weight, m.final_norm.grad_weight),
        (m.lm_head.weight, m.lm_head.grad_weight),
    ]
}

proof fn lemma_stack_params_len(vs: Seq<TransformerBlockView>, n: nat)
    ensures
        stack_params(vs, n).len() == 6 * n,
    decreases n,
{
    if n > 0 {
        lemma_stack_params_len(vs, (n - 1) as nat);
    }
}

/// A model of `n` blocks has `6 * n + 3` trainable tensors.
pub proof fn model_params_count(m: AkashaModelView)
    ensures
        model_params(m).len() == 6 * m.layers.len() + 3,
{
    lemma_stack_params_len(m.layers, m.layers.len());
}

/// The buffers that the first `n` blocks ask to zero.
pub open spec fn stack_zeroed(vs: Seq<TransformerBlockView>, n: nat) -> Seq<Tensor>
    decreases n,
{
    if n == 0 {
        Seq::empty()
    } else {
        stack_zeroed(vs, (n - 1) as nat) + (transformer::block_weight_grads(vs[n - 1])
            + transformer::block_transient_grads(vs[n - 1]))
    }
}

/// The transient gradients of the first `n` blocks.
pub open spec fn stack_transient(vs: Seq<TransformerBlockView>, n: nat) -> Seq<Tensor>
    decreases n,
{
    if n == 0 {
        Seq::empty()
    } else {
        stack_transient(vs, (n - 1) as nat) + transformer::block_transient_grads(vs[n - 1])
    }
}

/// What one training step does around its dispatches.
#[derive(Clone, Copy, Debug, PartialEq, Eq, Structural)]
pub struct StepPlan {
    /// Scale of every row's loss gradient.
    pub grad_scale: Scalar,
    /// Zero all gradients first.
    pub zero_grad: bool,
    /// Read the loss of every window.
    pub read_loss: bool,
    /// Let the optimizer step at the end.
    pub optimize: bool,
}

/// The plan of step `step`, in cycles of `accumulation_steps`: gradients are
/// zeroed by the first step of a cycle, the optimizer runs in the last.
pub open spec fn step_plan(
    seq_len: int,
    batch_size: int,
    step: int,
    accumulation_steps: int,
) -> StepPlan {
    StepPlan {
        grad_scale: Scalar::Recip((seq_len * batch_size * accumulation_steps) as u64),
        zero_grad: step % accumulation_steps == 0,
        read_loss: step % (READ_LOSS as int) == 0,
        optimize: (step + 1) % accumulation_steps == 0,
    }
}

/// Every cycle of `a` steps zeroes the gradients exactly once, at its first
/// step, and optimizes exactly once, at its last.
pub proof fn accumulation_cycle(seq_len: int, batch_size: int, cycle: int, step: int, a: int)
    requires
        a >= 1,
        cycle >= 0,
        cycle * a <= step < (cycle + 1) * a,
    ensures
        step_plan(seq_len, batch_size, step, a).zero_grad <==> step == cycle * a,
        step_plan(seq_len, batch_size, step, a).optimize <==> step == (cycle + 1) * a - 1,
{
    let r = step - cycle * a;
    assert((cycle + 1) * a == cycle * a + a) by (nonlinear_arith);
    vstd::arithmetic::div_mod::lemma_fundamental_div_mod_converse(step, a, cycle, r);
    if r == a - 1 {
        vstd::arithmetic::div_mod::lemma_fundamental_div_mod_converse(step + 1, a, cycle + 1, 0);
    } else {
        vstd::arithmetic::div_mod::lemma_fundamental_div_mod_converse(step + 1, a, cycle, r + 1);
    }
}

/// What a runtime does in a training step, one thing after the other.
#[derive(Clone, Copy, Debug, PartialEq, Eq, Structural)]
pub enum StepAction {
    /// Write the scale of the loss gradient.
    SetGradScale(Scalar),
    ZeroGrad,
    /// Upload the tokens and the targets of this window.
    Window(usize),
    ZeroTransient,
    /// Run the fused forward graph.
    Forward,
    /// Add the loss of the window to the sum of the step.
    ReadLoss,
    /// Run the fused backward graph.
    Backward,
    Optimize,
    /// Report the summed loss over so many windows.
    ReportLoss(usize),
}

/// `a` alone, or nothing.
pub open spec fn only_if(cond: bool, a: StepAction) -> Seq<StepAction> {
    if cond {
        seq![a]
    } else {
        Seq::empty()
    }
}

/// What is done for window `i`: its transient gradients are zeroed before it runs
/// forward, and its loss is read before it runs backward.
pub open spec fn window_actions(plan: StepPlan, i: int) -> Seq<StepAction> {
    seq![StepAction::Window(i as usize), StepAction::ZeroTransient, StepAction::Forward]
        + only_if(plan.read_loss, StepAction::ReadLoss) + seq![StepAction::Backward]
}

/// What is done for the first `n` windows.
pub open spec fn windows_actions(plan: StepPlan, n: nat) -> Seq<StepAction>
    decreases n,
{
    if n == 0 {
        Seq::empty()
    } else {
        windows_actions(plan, (n - 1) as nat) + window_actions(plan, n - 1)
    }
}

/// What a step does: scale and gradients first, then window after window, then the
/// optimizer, then the report.
pub open spec fn step_actions(plan: StepPlan, batch_size: nat) -> Seq<StepAction> {
    seq![StepAction::SetGradScale(plan.grad_scale)] + only_if(
        plan.zero_grad,
        StepAction::ZeroGrad,
    ) + windows_actions(plan, batch_size) + only_if(plan.optimize, StepAction::Optimize) + only_if(
        plan.read_loss,
        StepAction::ReportLoss(batch_size as usize),
    )
}

impl StepPlan {
    /// What a step over `batch_size` windows does, in order.
    pub fn actions(&self, batch_size: usize) -> (r: Vec<StepAction>)
        ensures
            r@ == step_actions(*self, batch_size as nat),
    {
        let mut r: Vec<StepAction> = vec![StepAction::SetGradScale(self.grad_scale)];
        let ghost first = seq![StepAction::SetGradScale(self.grad_scale)] + only_if(
            self.zero_grad,
            StepAction::ZeroGrad,
        );
        if self.zero_grad {
            r.push(StepAction::ZeroGrad);
        }
        let mut i: usize = 0;
        assert(r@ =~= first + windows_actions(*self, 0));
        while i < batch_size
            invariant
                i <= batch_size,
                r@ == first + windows_actions(*self, i as nat),
            decreases batch_size - i,
        {
            let ghost before = r@;
            r.push(StepAction::Window(i));
            r.push(StepAction::ZeroTransient);
            r.push(StepAction::Forward);
            if self.read_loss {
                r.push(StepAction::ReadLoss);
            }
            r.push(StepAction::Backward);
            assert(r@ =~= before + window_actions(*self, i as int));
            i = i + 1;
            assert(r@ =~= first + windows_actions(*self, i as nat));
        }
        if self.optimize {
            r.push(StepAction::Optimize);
        }
        if self.read_loss {
            r.push(StepAction::ReportLoss(batch_size));
        }
        assert(r@ =~= step_actions(*self, batch_size as nat));
        r
    }
}

/// One window of a training step: input tokens, and targets.
pub struct Window {
    pub inputs: Vec<u32>,
    pub targets: Vec<u32>,
}

fn copy_range(v: &Vec<u32>, from: usize, to: usize) -> (r: Vec<u32>)
    requires
        from <= to <= v@.len(),
    ensures
        r@ == v@.subrange(from as int, to as int),
{
    let mut r: Vec<u32> = Vec::new();
    let mut i: usize = from;
    while i < to
        invariant
            from <= i <= to <= v@.len(),
            r@ == v@.subrange(from as int, i as int),
        decreases to - i,
    {
        r.push(v[i]);
        i = i + 1;
        assert(r@ =~= v@.subrange(from as int, i as int));
    }
    r
}

/// The dispatches of a forward pass, up to the logits.
pub open spec fn model_forward(m: AkashaModelView) -> Seq<NodeView> {
    m.embedding.forward_graph + stack_forward(m.layers, m.layers.len()) + m.final_norm.forward_graph
        + m.lm_head.forward_graph
}

/// The dispatches of a backward pass, from the logits down.
pub open spec fn model_backward(m: AkashaModelView) -> Seq<NodeView> {
    m.lm_head.backward_graph + m.final_norm.backward_graph + stack_backward(
        m.layers,
        m.layers.len(),
    ) + m.embedding.backward_graph
}

/// The fused graphs of a model are its two passes, with the loss between them.
pub proof fn fused_graphs_are_the_passes(
    c: Seq<Init>,
    cfg: ModelConfig,
    blocks: Seq<BlockWeights>,
    std: Scalar,
    input_tokens: Tensor,
)
    ensures
        ({
            let m = model_build(c, cfg, blocks, std, input_tokens).1;
            &&& m.layers.len() == cfg.num_layers
            &&& m.fused_forward_graph == model_forward(m) + m.cross_entropy.forward_graph
            &&& m.fused_backward_graph == m.cross_entropy.backward_graph + model_backward(m)
        }),
{
    reveal(model_build);
    let m = model_build(c, cfg, blocks, std, input_tokens).1;
    let rows = cfg.seq_len;
    let d = rows * cfg.dim;
    let c2 = device::push_zeros(device::push_zeros(c, rows * cfg.vocab_size), d);
    let zero = Scalar::Dec { digits: 0, places: 0 };
    let c4 = zeros_ctx(c2, d, (cfg.num_layers + 1) as nat).push(
        Init::Normal((cfg.vocab_size * cfg.dim) as u32, zero, std),
    );
    let c5 = layers::embedding_ctx(c4, cfg.vocab_size, cfg.dim, rows);
    lemma_stack_len(c5, c2, cfg, blocks, m.embedding.out_buffer, cfg.num_layers as nat);
    assert(m.fused_forward_graph =~= model_forward(m) + m.cross_entropy.forward_graph);
    assert(m.fused_backward_graph =~= m.cross_entropy.backward_graph + model_backward(m));
}

impl AkashaModel {
    /// Splits a batch into windows of `seq_len` tokens and says what a runtime
    /// does with them, in order.
    pub fn train_step(
        &self,
        input_tokens: &Vec<u32>,
        target_tokens: &Vec<u32>,
        batch_size: usize,
        step: usize,
        accumulation_steps: usize,
    ) -> (r: (StepPlan, Vec<Window>, Vec<StepAction>))
        requires
            input_tokens@.len() == batch_size * self.cross_entropy.seq_len,
            target_tokens@.len() == batch_size * self.cross_entropy.seq_len,
            accumulation_steps >= 1,
            self.cross_entropy.seq_len * batch_size * accumulation_steps <= usize::MAX,
            step < usize::MAX,
        ensures
            r.0 == step_plan(
                self.cross_entropy.seq_len as int,
                batch_size as int,
                step as int,
                accumulation_steps as int,
            ),
            r.2@ == step_actions(r.0, batch_size as nat),
            r.1@.len() == batch_size,
            forall|i: int|
                0 <= i < batch_size ==> {
                    let s = self.cross_entropy.seq_len as int;
                    &&& (#[trigger] r.1@[i]).inputs@ == input_tokens@.subrange(i * s, (i + 1) * s)
                    &&& r.1@[i].targets@ == target_tokens@.subrange(i * s, (i + 1) * s)
                },
    {
        let seq_len: usize = self.cross_entropy.seq_len as usize;
        let total: usize = input_tokens.len();
        assert(batch_size * seq_len == seq_len * batch_size) by (nonlinear_arith);
        let rows: usize = seq_len * batch_size;
        let plan = StepPlan {
            grad_scale: Scalar::Recip((rows * accumulation_steps) as u64),
            zero_grad: step % accumulation_steps == 0,
            read_loss: step % READ_LOSS == 0,
            optimize: (step + 1) % accumulation_steps == 0,
        };
        let mut windows: Vec<Window> = Vec::new();
        let mut i: usize = 0;
        while i < batch_size
            invariant
                i <= batch_size,
                seq_len == self.cross_entropy.seq_len,
                total == batch_size * seq_len,
                input_tokens@.len() == total,
                target_tokens@.len() == total,
                windows@.len() == i,
                forall|k: int|
                    0 <= k < i ==> {
                        let s = seq_len as int;
                        &&& (#[trigger] windows@[k]).inputs@ == input_tokens@.subrange(
                            k * s,
                            (k + 1) * s,
                        )
                        &&& windows@[k].targets@ == target_tokens@.subrange(k * s, (k + 1) * s)
                    },
            decreases batch_size - i,
        {
            assert(0 <= i * seq_len <= (i + 1) * seq_len <= batch_size * seq_len)
                by (nonlinear_arith)
                requires
                    0 <= i < batch_size,
                    seq_len >= 0,
            ;
            let from: usize = i * seq_len;
            let to: usize = (i + 1) * seq_len;
            windows.push(
                Window {
                    inputs: copy_range(input_tokens, from, to),
                    targets: copy_range(target_tokens, from, to),
                },
            );
            i = i + 1;
        }
        let actions = plan.actions(batch_size);
        (plan, windows, actions)
    }

    pub fn new(
        ctx: &mut Context,
        cfg: &ModelConfig,
        blocks: &Vec<BlockWeights>,
        std: Scalar,
        input_tokens: Tensor,
    ) -> (r: Self)
        requires
            model_fits(*cfg),
            blocks@.len() == cfg.num_layers,
            forall|i: int|
                0 <= i < blocks@.len() ==> (#[trigger] blocks@[i]).norm_1.size == cfg.dim * 4
                    && blocks@[i].norm_2.size == cfg.dim * 4,
        ensures
            (final(ctx)@, r@) == model_build(old(ctx)@, *cfg, blocks@, std, input_tokens),
    {
        proof {
            reveal(model_build);
        }
        let dim: u32 = cfg.dim;
        let seq_len: u32 = cfg.seq_len;
        let vocab_size: u32 = cfg.vocab_size;
        let num_layers: usize = cfg.num_layers;
        let zero = Scalar::Dec { digits: 0, places: 0 };
        let one = Scalar::Dec { digits: 1, places: 0 };
        assert(vocab_size * dim == dim * vocab_size) by (nonlinear_arith);
        let dim_size: u32 = seq_len * dim;
        let grad_logits = ctx.zeros(seq_len * vocab_size);
        let g_lmhead_in = ctx.zeros(dim_size);
        let ghost e = ctx@;
        let ghost d = seq_len * dim;
        let mut edges: Vec<Tensor> = Vec::new();
        let mut i: usize = 0;
        while i < num_layers + 1
            invariant
                i <= num_layers + 1 <= usize::MAX,
                dim_size == d,
                ctx@ == zeros_ctx(e, d, i as nat),
                edges@.len() == i,
                forall|k: int|
                    0 <= k < i ==> #[trigger] edges@[k] == transformer::grad_buf(e, k, d),
            decreases num_layers + 1 - i,
        {
            proof {
                lemma_zeros_ctx_len(e, d, i as nat);
            }
            let edge = ctx.zeros(dim_size);
            edges.push(edge);
            i = i + 1;
        }
        let table = ctx.normal(vocab_size * dim, zero, std);
        assert(table.size == vocab_size * dim * 4);
        let embedding = Embedding::new(ctx, vocab_size, dim, seq_len, table, input_tokens, edges[0]);
        let ghost c5 = ctx@;
        let mut current_input = embedding.out_buffer;
        let mut layers: Vec<TransformerBlock> = Vec::new();
        let mut i: usize = 0;
        while i < num_layers
            invariant
                i <= num_layers == blocks@.len(),
                num_layers < usize::MAX,
                layers@.len() == i,
                pipeline::block_fits(*cfg),
                dim == cfg.dim,
                d == cfg.seq_len * cfg.dim,
                forall|i: int|
                    0 <= i < blocks@.len() ==> (#[trigger] blocks@[i]).norm_1.size == cfg.dim * 4
                        && blocks@[i].norm_2.size == cfg.dim * 4,
                edges@.len() == num_layers + 1,
                forall|k: int|
                    0 <= k < num_layers + 1 ==> #[trigger] edges@[k] == transformer::grad_buf(
                        e,
                        k,
                        d,
                    ),
                (ctx@, views(layers@), current_input) == stack(
                    c5,
                    e,
                    *cfg,
                    blocks@,
                    embedding.out_buffer,
                    i as nat,
                ),
            decreases num_layers - i,
        {
            let ghost vs = views(layers@);
            assert(blocks@[i as int].norm_1.size == cfg.dim * 4);
            let block = TransformerBlock::new(
                ctx,
                cfg,
                &blocks[i],
                current_input,
                edges[i + 1],
                edges[i],
            );
            current_input = block.add_2.in_out_buffer;
            layers.push(block);
            i = i + 1;
            assert(views(layers@) =~= vs.push(block@));
        }
        let norm_weight = ctx.normal(dim, one, Scalar::Dec { digits: 2, places: 2 });
        let final_norm = RMSNorm::new(
            ctx,
            dim,
            seq_len,
            norm_weight,
            current_input,
            g_lmhead_in,
            edges[num_layers],
        );
        let head_weight = ctx.normal(vocab_size * dim, zero, std);
        assert(0 <= dim * vocab_size && 0 <= seq_len * vocab_size) by (nonlinear_arith);
        let lm_head = Linear::new(
            ctx,
            dim,
            vocab_size,
            seq_len,
            head_weight,
            final_norm.out_buffer,
            grad_logits,
            g_lmhead_in,
        );
        let cross_entropy = CrossEntropy::new(
            ctx,
            vocab_size,
            seq_len,
            lm_head.out_buffer,
            grad_logits,
        );
        let ghost vs = views(layers@);
        let mut fused_forward_graph = embedding.forward();
        let mut i: usize = 0;
        while i < layers.len()
            invariant
                i <= layers@.len(),
                vs == views(layers@),
                fused_forward_graph@ == embedding@.forward_graph + stack_forward(vs, i as nat),
            decreases layers@.len() - i,
        {
            let g = layers[i].forward();
            assert(g@ == transformer::block_forward(vs[i as int]));
            let ghost prev = fused_forward_graph@;
            fused_forward_graph.append(&g);
            i = i + 1;
            assert(fused_forward_graph@ =~= embedding@.forward_graph + stack_forward(
                vs,
                i as nat,
            ));
        }
        fused_forward_graph.append(&final_norm.forward_graph);
        fused_forward_graph.append(&lm_head.forward_graph);
        fused_forward_graph.append(&cross_entropy.forward_graph);
        let mut fused_backward_graph = cross_entropy.backward();
        fused_backward_graph.append(&lm_head.backward_graph);
        fused_backward_graph.append(&final_norm.backward_graph);
        let ghost top = fused_backward_graph@;
        let mut i: usize = 0;
        while i < layers.len()
            invariant
                i <= layers@.len(),
                vs == views(layers@),
                fused_backward_graph@ == top + stack_backward(vs, i as nat),
            decreases layers@.len() - i,
        {
            let at: usize = layers.len() - 1 - i;
            fused_backward_graph.append(&layers[at].backward_graph);
            i = i + 1;
            assert(vs[at as int].backward_graph == layers@[at as int].backward_graph@);
            assert(fused_backward_graph@ =~= top + stack_backward(vs, i as nat));
        }
        fused_backward_graph.append(&embedding.backward_graph);
        Self {
            input_tokens,
            embedding,
            layers,
            final_norm,
            lm_head,
            grad_logits,
            cross_entropy,
            fused_forward_graph,
            fused_backward_graph,
        }
    }

    /// The (weight, gradient) pairs in checkpoint order.
    pub fn trainable_params(&self) -> (r: Vec<(Tensor, Tensor)>)
        ensures
            r@ == model_params(self@),
    {
        collect_trainable_params(&self.embedding, &self.layers, &self.final_norm, &self.lm_head)
    }

    /// The dispatches of an unfused forward pass, up to the logits.
    pub fn forward(&self) -> (r: ComputeGraph)
        ensures
            r@ == model_forward(self@),
    {
        let ghost vs = views(self.layers@);
        let mut g = self.embedding.forward();
        let mut i: usize = 0;
        while i < self.layers.len()
            invariant
                i <= self.layers@.len(),
                vs == views(self.layers@),
                g@ == self.embedding@.forward_graph + stack_forward(vs, i as nat),
            decreases self.layers@.len() - i,
        {
            let b = self.layers[i].forward();
            assert(b@ == transformer::block_forward(vs[i as int]));
            g.append(&b);
            i = i + 1;
            assert(g@ =~= self.embedding@.forward_graph + stack_forward(vs, i as nat));
        }
        g.append(&self.final_norm.forward_graph);
        g.append(&self.lm_head.forward_graph);
        g
    }

    /// The dispatches of an unfused backward pass, from the logits down.
    pub fn backward(&self) -> (r: ComputeGraph)
        ensures
            r@ == model_backward(self@),
    {
        let ghost vs = views(self.layers@);
        let mut g = self.lm_head.backward();
        g.append(&self.final_norm.backward_graph);
        let ghost top = g@;
        let mut i: usize = 0;
        while i < self.layers.len()
            invariant
                i <= self.layers@.len(),
                vs == views(self.layers@),
                g@ == top + stack_backward(vs, i as nat),
            decreases self.layers@.len() - i,
        {
            let at: usize = self.layers.len() - 1 - i;
            g.append(&self.layers[at].backward_graph);
            i = i + 1;
            assert(vs[at as int].backward_graph == self.layers@[at as int].backward_graph@);
            assert(g@ =~= top + stack_backward(vs, i as nat));
        }
        g.append(&self.embedding.backward_graph);
        g
    }

    /// The buffers to zero before a new accumulation of gradients.
    pub fn zero_grad(&self) -> (r: Vec<Tensor>)
        ensures
            r@ == seq![
                self.embedding.grad_table,
                self.final_norm.grad_weight,
                self.lm_head.grad_weight,
            ] + stack_zeroed(views(self.layers@), self.layers@.len()),
    {
        let ghost vs = views(self.layers@);
        let mut r = vec![
            self.embedding.grad_table,
            self.final_norm.grad_weight,
            self.lm_head.grad_weight,
        ];
        let ghost top = r@;
        let mut i: usize = 0;
        while i < self.layers.len()
            invariant
                i <= self.layers@.len(),
                vs == views(self.layers@),
                r@ == top + stack_zeroed(vs, i as nat),
            decreases self.layers@.len() - i,
        {
            let mut z = self.layers[i].zero_grad();
            assert(vs[i as int] == self.layers@[i as int]@);
            r.append(&mut z);
            i = i + 1;
            assert(r@ =~= top + stack_zeroed(vs, i as nat));
        }
        r
    }

    /// The buffers to zero before every backward pass.
    pub fn zero_transient_grads(&self) -> (r: Vec<Tensor>)
        ensures
            r@ == stack_transient(views(self.layers@), self.layers@.len()),
    {
        let ghost vs = views(self.layers@);
        let mut r: Vec<Tensor> = Vec::new();
        let mut i: usize = 0;
        while i < self.layers.len()
            invariant
                i <= self.layers@.len(),
                vs == views(self.layers@),
                r@ == stack_transient(vs, i as nat),
            decreases self.layers@.len() - i,
        {
            let mut z = self.layers[i].zero_transient_grads();
            assert(vs[i as int] == self.layers@[i as int]@);
            r.append(&mut z);
            i = i + 1;
        }
        r
    }
}

/// Why a file of weights cannot be loaded.
#[derive(Clone, Copy, Debug, PartialEq, Eq, Structural)]
pub enum WeightsError {
    /// The file holds no list of pairs.
    Unreadable,
    /// The file is for another architecture.
    Count { found: usize, expected: usize },
}

/// What is written into which buffer when `data` is loaded: the weight and the
/// gradient of each pair, in order.
pub open spec fn weight_writes(
    params: Seq<(Tensor, Tensor)>,
    data: Seq<(Seq<u32>, Seq<u32>)>,
    n: nat,
) -> Seq<(Tensor, Seq<u32>)>
    decreases n,
{
    if n == 0 {
        Seq::empty()
    } else {
        weight_writes(params, data, (n - 1) as nat).push((params[n - 1].0, data[n - 1].0)).push(
            (params[n - 1].1, data[n - 1].1),
        )
    }
}

/// The values of a list of writes.
pub open spec fn write_views(writes: Seq<(Tensor, Bits)>) -> Seq<(Tensor, Seq<u32>)> {
    Seq::new(writes.len(), |i: int| (writes[i].0, writes[i].1@))
}

/// What loading `bytes` into a model with the given pairs does.
pub open spec fn loads(bytes: Seq<u8>, params: Seq<(Tensor, Tensor)>) -> Result<
    Seq<(Tensor, Seq<u32>)>,
    WeightsError,
> {
    match migrate::pairs_read(bytes) {
        Some(data) => if data.len() == params.len() {
            Ok(weight_writes(params, data, params.len()))
        } else {
            Err(
                WeightsError::Count {
                    found: data.len() as usize,
                    expected: params.len() as usize,
                },
            )
        },
        None => Err(WeightsError::Unreadable),
    }
}

impl AkashaModel {
    /// The fused forward pass, up to the losses.
    pub fn forward_fused(&self) -> (r: &ComputeGraph)
        ensures
            r@ == self@.fused_forward_graph,
    {
        &self.fused_forward_graph
    }

    /// The fused backward pass, from the losses down.
    pub fn backward_fused(&self) -> (r: &ComputeGraph)
        ensures
            r@ == self@.fused_backward_graph,
    {
        &self.fused_backward_graph
    }

    /// The file of the values read from the model's (weight, gradient) pairs.
    pub fn save_weights(&self, values: &Vec<(Bits, Bits)>) -> (r: Vec<u8>)
        requires
            values@.len() == model_params(self@).len(),
        ensures
            r@ == migrate::pairs_bytes(checkpoint::pair_bits(values@)),
    {
        match write_pairs(values) {
            Ok(bytes) => bytes,
            Err(e) => Vec::new(),
        }
    }

    /// What to write into the model's buffers, so that they hold a file's weights
    /// and gradients again.
    pub fn load_weights(&self, bytes: &Vec<u8>) -> (r: Result<Vec<(Tensor, Bits)>, WeightsError>)
        ensures
            match r {
                Ok(w) => loads(bytes@, model_params(self@)) == Ok::<_, WeightsError>(
                    write_views(w@),
                ),
                Err(e) => loads(bytes@, model_params(self@)) == Err::<
                    Seq<(Tensor, Seq<u32>)>,
                    _,
                >(e),
            },
            forall|p: Seq<(Seq<u32>, Seq<u32>)>|
                bytes@ == #[trigger] migrate::pairs_bytes(p) && p.len() == model_params(self@).len()
                    ==> (r matches Ok(w) && write_views(w@) == weight_writes(
                    model_params(self@),
                    p,
                    p.len(),
                )),
    {
        let params = self.trainable_params();
        proof {
            assert(bytes@.subrange(0, bytes@.len() as int) =~= bytes@);
            assert(bytes@.is_prefix_of(bytes@));
        }
        let data = match read_pairs(bytes.as_slice()) {
            Ok(d) => d,
            Err(e) => {
                return Err(WeightsError::Unreadable);
            },
        };
        let ghost view = checkpoint::pair_bits(data@);
        let n: usize = params.len();
        if data.len() != n {
            return Err(WeightsError::Count { found: data.len(), expected: n });
        }
        let mut rest = data;
        let mut r: Vec<(Tensor, Bits)> = Vec::new();
        let mut i: usize = 0;
        assert(write_views(r@) =~= weight_writes(params@, view, 0));
        while i < n
            invariant
                i <= n == params@.len(),
                n == view.len(),
                rest@.len() == n - i,
                forall|k: int|
                    0 <= k < n - i ==> (#[trigger] rest@[k]).0@ == view[i + k].0 && rest@[k].1@
                        == view[i + k].1,
                write_views(r@) == weight_writes(params@, view, i as nat),
            decreases n - i,
        {
            let ghost prev = write_views(r@);
            assert(rest@[0].0@ == view[i as int].0 && rest@[0].1@ == view[i as int].1);
            let (w, g): (Bits, Bits) = rest.remove(0);
            r.push((params[i].0, w));
            r.push((params[i].1, g));
            assert(write_views(r@) =~= prev.push((params@[i as int].0, view[i as int].0)).push(
                (params@[i as int].1, view[i as int].1),
            ));
            i = i + 1;
        }
        Ok(r)
    }
}

/// The (weight, gradient) pairs in checkpoint order.
fn collect_trainable_params(
    embedding: &Embedding,
    layers: &Vec<TransformerBlock>,
    final_norm: &RMSNorm,
    lm_head: &Linear,
) -> (r: Vec<(Tensor, Tensor)>)
    ensures
        r@ == seq![(embedding.table, embedding.grad_table)] + stack_params(
            views(layers@),
            layers@.len(),
        ) + seq![
            (final_norm.weight, final_norm.grad_weight),
            (lm_head.weight, lm_head.grad_weight),
        ],
{
    let ghost vs = views(layers@);
    let mut params: Vec<(Tensor, Tensor)> = vec![(embedding.table, embedding.grad_table)];
    let ghost top = seq![(embedding.table, embedding.grad_table)];
    assert(params@ =~= top);
    let mut i: usize = 0;
    while i < layers.len()
        invariant
            i <= layers@.len(),
            vs == views(layers@),
            params@ == top + stack_params(vs, i as nat),
        decreases layers@.len() - i,
    {
        let layer = &layers[i];
        let ghost prev = params@;
        params.push((layer.norm_1.weight, layer.norm_1.grad_weight));
        params.push((layer.qkv_proj.weight, layer.qkv_proj.grad_weight));
        params.push((layer.out_proj.weight, layer.out_proj.grad_weight));
        params.push((layer.norm_2.weight, layer.norm_2.grad_weight));
        params.push((layer.ffn_up.weight, layer.ffn_up.grad_weight));
        params.push((layer.ffn_down.weight, layer.ffn_down.grad_weight));
        assert(params@ =~= prev + block_params(vs[i as int]));
        i = i + 1;
        assert(params@ =~= top + stack_params(vs, i as nat));
    }
    let ghost prev = params@;
    params.push((final_norm.weight, final_norm.grad_weight));
    params.push((lm_head.weight, lm_head.grad_weight));
    assert(params@ =~= prev + seq![
        (final_norm.weight, final_norm.grad_weight),
        (lm_head.weight, lm_head.grad_weight),
    ]);
    params
}

} // verus!
