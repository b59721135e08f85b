use akasha_core::config::ModelConfig;
use akasha_core::device::{ComputeGraph, Context, Kernel, Node, Scalar, Tensor, TensorMode};
use akasha_core::nn::akasha_model::AkashaModel;
use akasha_core::nn::cache::Cache;
use akasha_core::nn::full_seq::{AddOp, TrainOp};
use akasha_core::nn::inference::InferenceSession;
use akasha_core::nn::kernels::GraphBuilder;
use akasha_core::nn::limits;
use akasha_core::nn::model::{Model, TrainOptions};
use akasha_core::nn::tape::Tape;
use akasha_core::nn::weights::{BlockWeights, ModelWeights};

fn block(ctx: &mut Context, dim: u32) -> BlockWeights {
    BlockWeights {
        norm_1: ctx.zeros(dim),
        qkv_proj: ctx.zeros(3 * dim * dim),
        out_proj: ctx.zeros(dim * dim),
        norm_2: ctx.zeros(dim),
        ffn_up: ctx.zeros(4 * dim * dim),
        ffn_down: ctx.zeros(4 * dim * dim),
    }
}

fn weights(ctx: &mut Context, cfg: &ModelConfig) -> ModelWeights {
    let embedding = ctx.zeros(cfg.vocab_size * cfg.dim);
    let blocks = (0..cfg.num_layers).map(|_| block(ctx, cfg.dim)).collect();
    let final_norm = ctx.zeros(cfg.dim);
    let lm_head = ctx.zeros(cfg.vocab_size * cfg.dim);
    ModelWeights { cfg: *cfg, embedding, blocks, final_norm, lm_head }
}

fn config() -> ModelConfig {
    ModelConfig::new(61, 128, 2, 2, 8).with_batch_size(2)
}

fn trainer(ctx: &mut Context) -> Model {
    let cfg = config();
    let w = weights(ctx, &cfg);
    assert!(limits::can_train(&w, &cfg, 4));
    let opts = TrainOptions {
        streaming: false,
        grad_checkpoint: false,
        accumulation_steps: 4,
        max_norm: Scalar::Dec { digits: 1, places: 0 },
    };
    Model::for_training(ctx, w, &cfg, opts)
}

fn nodes(g: &ComputeGraph) -> Vec<&Node> {
    (0..g.len()).map(|i| g.node(i)).collect()
}

fn slots(n: &Node) -> Vec<(Tensor, TensorMode)> {
    n.buffers.iter().copied().zip(n.kernel.layout()).collect()
}

fn reads(n: &Node) -> Vec<Tensor> {
    slots(n)
        .into_iter()
        .filter(|(_, m)| !matches!(m, TensorMode::Output | TensorMode::Meta))
        .map(|(t, _)| t)
        .collect()
}

fn changes(n: &Node) -> Vec<Tensor> {
    slots(n)
        .into_iter()
        .filter(|(_, m)| !matches!(m, TensorMode::Input | TensorMode::Meta))
        .map(|(t, _)| t)
        .collect()
}

#[test]
fn a_forward_pass_reads_what_is_there() {
    let mut ctx = Context::new();
    let m = trainer(&mut ctx);
    let t = m.train.as_ref().unwrap();
    let mut there = m.weights().params();
    there.push(t.tokens);
    there.push(t.loss.set_targets());
    let fwd = t.fwd_graph.as_ref().unwrap();
    assert!(fwd.len() > 2 * 12);
    for n in nodes(fwd) {
        for r in reads(n) {
            assert!(there.contains(&r), "{:?} reads buffer {} too early", n.kernel, r.id);
        }
        there.extend(changes(n));
    }
}

#[test]
fn what_backward_needs_is_kept() {
    let mut ctx = Context::new();
    let m = trainer(&mut ctx);
    let fwd = m.train.as_ref().unwrap().fwd_graph.as_ref().unwrap();
    let all = nodes(fwd);
    let mut saved = 0;
    for (i, n) in all.iter().enumerate() {
        let kept: Vec<Tensor> = match n.kernel {
            Kernel::MatMul | Kernel::RmsNorm | Kernel::SiluOut => vec![n.buffers[0]],
            Kernel::FlashAttention => n.buffers[..3].to_vec(),
            _ => vec![],
        };
        saved += kept.len();
        for later in &all[i..] {
            assert!(changes(later).iter().all(|t| !kept.contains(t)));
        }
    }
    // seven single inputs and two attentions of three buffers a block, and the tail
    assert_eq!(saved, 2 * (7 + 2 * 3) + 2);
}

#[test]
fn residual_gradients_are_summed() {
    let mut ctx = Context::new();
    let m = trainer(&mut ctx);
    let bwd = m.train.as_ref().unwrap().bwd_graph.as_ref().unwrap();
    let all = nodes(bwd);
    let adds: Vec<usize> =
        (0..all.len()).filter(|&i| all[i].kernel == Kernel::BwdAddInplace).collect();
    assert_eq!(adds.len(), 4);
    for &i in &adds {
        let (target, part) = (all[i].buffers[0], all[i].buffers[1]);
        // the part has been computed, and the target is read again behind the sum
        assert!(all[..i].iter().any(|n| changes(n).contains(&part)));
        assert!(all[i + 1..].iter().any(|n| reads(n).contains(&target)));
    }
    // one buffer carries the gradient of the residual stream through a block
    assert_eq!(all[adds[0]].buffers[0], all[adds[1]].buffers[0]);
    assert_eq!(all[adds[1]].buffers[0], all[adds[2]].buffers[0]);
}

#[test]
fn what_is_added_into_is_initialized() {
    let mut ctx = Context::new();
    let m = trainer(&mut ctx);
    let cleared = m.zero_grad();
    let bwd = m.train.as_ref().unwrap().bwd_graph.as_ref().unwrap();
    let mut written: Vec<Tensor> = Vec::new();
    let mut into_params = 0;
    for n in nodes(bwd) {
        for (t, mode) in slots(n) {
            if mode == TensorMode::Accumulate {
                assert!(cleared.contains(&t) || written.contains(&t), "{:?}", n.kernel);
                into_params += cleared.contains(&t) as usize;
            }
        }
        written.extend(changes(n));
    }
    assert_eq!(into_params, m.params().len());
}

#[test]
fn every_phase_applies_the_weights_in_order() {
    let mut ctx = Context::new();
    let cfg = config();
    let used = |g: &ComputeGraph| -> Vec<Tensor> {
        nodes(g)
            .iter()
            .filter(|n| {
                matches!(n.kernel, Kernel::MatMul | Kernel::Gemv | Kernel::RmsNorm | Kernel::Embedding)
            })
            .map(|n| n.buffers[1])
            .collect()
    };
    let m = trainer(&mut ctx);
    let fwd = m.train.as_ref().unwrap().fwd_graph.as_ref().unwrap();
    assert_eq!(used(fwd), m.weights().params());

    let w = weights(&mut ctx, &cfg);
    assert!(limits::can_decode(&w, &cfg, 6));
    let chat = Model::for_chat(&mut ctx, w, &cfg, 6);
    assert_eq!(used(&chat.chat.as_ref().unwrap().decode.graph), chat.weights().params());
    assert!(limits::can_prefill(chat.weights(), &cfg, 3));
    let plan = chat.prefill_logits(&mut ctx, &vec![1, 2, 3]).ok().unwrap();
    assert_eq!(used(&plan.graph), chat.weights().params());
}

#[test]
fn fused_graphs_hold_both_passes_and_the_loss() {
    let mut ctx = Context::new();
    let cfg = ModelConfig::new(20, 8, 2, 2, 4);
    assert!(limits::model_fits(&cfg));
    let blocks: Vec<BlockWeights> = (0..2).map(|_| block(&mut ctx, 8)).collect();
    let tokens = ctx.zeros(4);
    let m = AkashaModel::new(&mut ctx, &cfg, &blocks, Scalar::Recip(3), tokens);
    let mut forward = m.forward();
    forward.append(&m.cross_entropy.forward_graph);
    let mut backward = ComputeGraph::new();
    backward.append(&m.cross_entropy.backward_graph);
    backward.append(&m.backward());
    for (a, b) in [(&forward, m.forward_fused()), (&backward, m.backward_fused())] {
        assert_eq!(a.len(), b.len());
        for (x, y) in nodes(a).into_iter().zip(nodes(b)) {
            assert_eq!((x.kernel, &x.buffers, x.grid), (y.kernel, &y.buffers, y.grid));
        }
    }
}

#[test]
fn gradients_are_clipped_together() {
    let mut ctx = Context::new();
    let m = trainer(&mut ctx);
    let clip = nodes(m.optimizer_step()).iter().map(|n| n.kernel).collect::<Vec<_>>();
    let params = m.params().len();
    assert_eq!(clip.len(), 2 * params + 1);
    assert!(clip[..params].iter().all(|k| *k == Kernel::GradSumSq));
    assert_eq!(clip[params], Kernel::GradNormScale);
    assert!(clip[params + 1..].iter().all(|k| *k == Kernel::GradScale));
}

#[test]
fn limits_refuse_what_does_not_fit() {
    let mut ctx = Context::new();
    let cfg = config();
    let w = weights(&mut ctx, &cfg);
    assert!(limits::can_train(&w, &cfg, 1));
    assert!(!limits::can_train(&w, &cfg, u32::MAX));
    assert!(!limits::can_train(&w, &cfg.with_batch_size(u32::MAX), 1));
    assert!(limits::can_prefill(&w, &cfg, 8));
    assert!(!limits::can_prefill(&w, &cfg, u32::MAX));
    assert!(limits::can_decode(&w, &cfg, 64));
    assert!(!limits::can_decode(&w, &cfg, u32::MAX));
    // the fused attention kernels take heads of one width
    let narrow = ModelConfig::new(61, 128, 4, 2, 8);
    assert!(!limits::can_train(&w, &narrow, 1) && !limits::can_prefill(&w, &narrow, 8));
    assert!(limits::can_decode(&w, &narrow, 64) && limits::model_fits(&narrow));
    assert!(!limits::model_fits(&ModelConfig { num_layers: 0, ..cfg }));
    assert!(!limits::model_fits(&ModelConfig { vocab_size: u32::MAX, ..cfg }));
    assert!(!limits::model_fits(&ModelConfig { num_heads: 0, ..cfg }));
}

#[test]
fn a_session_is_tried_before_it_runs() {
    let mut ctx = Context::new();
    let cfg = config();
    let w = weights(&mut ctx, &cfg);
    assert!(limits::can_open(&w, 4));
    assert!(!limits::can_open(&w, u32::MAX));
    let mut s = InferenceSession::new(&mut ctx, w, 4);
    assert!(!limits::can_run_prompt(&s, 3) && !limits::can_step(&s));
    let cache = Cache::new(&mut ctx, 2, 128, 4);
    s.replace_cache(cache);
    assert!(limits::can_run_prompt(&s, 3) && limits::can_step(&s));
    assert!(!limits::can_run_prompt(&s, 0) && !limits::can_run_prompt(&s, 5));
    s.prefill(&mut ctx, &vec![1, 2, 3]);
    assert!(!limits::can_run_prompt(&s, 3));
    assert!(limits::can_step(&s));
    s.decode_step(7);
    assert!(!limits::can_step(&s));
}

#[test]
fn gradients_reach_what_the_output_depends_on() {
    let mut ctx = Context::new();
    let (x, y, z) = (ctx.zeros(16), ctx.zeros(16), ctx.zeros(16));
    let mut gb = GraphBuilder::train(ComputeGraph::new());
    let mut t: Tape<TrainOp> = Tape::new();
    let a = t.input(&mut ctx, &mut gb, x);
    let b = t.input(&mut ctx, &mut gb, y);
    let c = t.input(&mut ctx, &mut gb, z);
    let first = TrainOp::Add(AddOp::new(&mut ctx, 16));
    let ab = t.push(&mut ctx, &mut gb, first, vec![(a, 0), (b, 0)]);
    let second = TrainOp::Add(AddOp::new(&mut ctx, 16));
    let top = t.push(&mut ctx, &mut gb, second, vec![(ab, 0), (a, 0)]);
    let nodes = [a, b, c, ab, top];
    assert!(nodes.iter().all(|n| t.grad_of((*n, 0)).is_none()));
    let seed = ctx.zeros(16);
    let mut back = GraphBuilder::train(ComputeGraph::new());
    t.backward(&mut ctx, &mut back, (top, 0), seed);
    let reached: Vec<bool> = nodes.iter().map(|n| t.grad_of((*n, 0)).is_some()).collect();
    assert_eq!(reached, [true, true, false, true, true]);
    assert_eq!(t.grad_of((top, 0)), Some(seed));
}
