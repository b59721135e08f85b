use akasha_core::config::ModelConfig;
use akasha_core::device::{Binding, ComputeGraph, Context, Init, Kernel, Scalar, Tensor, TensorMode, Word};
use akasha_core::nn::akasha_model::{AkashaModel, StepAction};
use akasha_core::nn::kernels::emit;
use akasha_core::nn::kernels::meta::{
    FlashAttnMeta, HeadMoveMeta, KernelMeta, MatMulMeta, Meta, RopeMeta, ZeroMeta,
};
use akasha_core::nn::kernels::GraphBuilder;
use akasha_core::nn::layers::Layer;
use akasha_core::nn::rope::RoPE;
use akasha_core::nn::weights::{BlockWeights, ModelWeights};

fn kernels(g: &ComputeGraph) -> Vec<Kernel> {
    (0..g.len()).map(|i| g.node(i).kernel).collect()
}

fn block(ctx: &mut Context, dim: u32) -> BlockWeights {
    BlockWeights {
        norm_1: ctx.zeros(dim),
        qkv_proj: ctx.zeros(3 * dim * dim),
        out_proj: ctx.zeros(dim * dim),
        norm_2: ctx.zeros(dim),
        ffn_up: ctx.zeros(4 * dim * dim),
        ffn_down: ctx.zeros(4 * dim * dim),
    }
}

fn model(ctx: &mut Context, layers: usize) -> AkashaModel {
    let cfg = ModelConfig::new(20, 8, 2, layers, 4);
    let blocks: Vec<BlockWeights> = (0..layers).map(|_| block(ctx, 8)).collect();
    let tokens = ctx.zeros(4);
    AkashaModel::new(ctx, &cfg, &blocks, Scalar::Recip(3), tokens)
}

#[test]
fn buffers_are_numbered_in_order() {
    let mut ctx = Context::new();
    let a = ctx.zeros(6);
    let b = ctx.fill(2, Scalar::RecipSqrt(64));
    let c = ctx.normal(3, Scalar::Dec { digits: 0, places: 0 }, Scalar::Recip(5));
    let d = ZeroMeta { len: 9 }.upload(&mut ctx);
    assert_eq!(a, Tensor { id: 0, size: 24 });
    assert_eq!(b, Tensor { id: 1, size: 8 });
    assert_eq!(c, Tensor { id: 2, size: 12 });
    assert_eq!(d, Tensor { id: 3, size: 4 });
    assert_eq!(ctx.len(), 4);
    assert_eq!(ctx.init(1), Init::Fill(2, Scalar::RecipSqrt(64)));
    assert_eq!(ctx.init(3), Init::Meta(Meta::Zero(ZeroMeta { len: 9 })));
}

#[test]
fn meta_records_are_words_in_order() {
    let m = FlashAttnMeta {
        seq_len: 7,
        dim: 128,
        head_dim: 64,
        scale: Scalar::RecipSqrt(64),
        row_offset: 14,
    };
    assert_eq!(
        m.meta().words(),
        vec![
            Word::Int(7),
            Word::Int(128),
            Word::Int(64),
            Word::Real(Scalar::RecipSqrt(64)),
            Word::Int(14),
        ]
    );
    let q = HeadMoveMeta::qkv_slice(5, 8, 16);
    assert_eq!(q, HeadMoveMeta { seq_len: 5, full_dim: 24, head_dim: 8, head_offset: 16 });
}

#[test]
fn a_single_row_goes_to_the_flat_kernel() {
    let mut ctx = Context::new();
    let (a, b, c) = (ctx.zeros(1), ctx.zeros(1), ctx.zeros(1));
    let mut gb = GraphBuilder::decode(ComputeGraph::new());
    emit::matmul(&mut ctx, &mut gb, a, b, c, MatMulMeta { m: 1, n: 257, k: 8 });
    emit::matmul(&mut ctx, &mut gb, a, b, c, MatMulMeta { m: 2, n: 33, k: 8 });
    emit::matmul_add(&mut ctx, &mut gb, a, b, c, MatMulMeta { m: 1, n: 256, k: 8 });
    let g = gb.graph;
    assert_eq!(kernels(&g), [Kernel::Gemv, Kernel::MatMul, Kernel::GemvAdd]);
    assert_eq!(g.node(0).grid, [2, 1, 1]);
    assert_eq!(g.node(1).grid, [3, 1, 1]);
    assert_eq!(g.node(2).grid, [1, 1, 1]);
    assert_eq!(
        g.node(2).bindings(),
        vec![
            Binding { slot: 0, buffer: 0, mode: TensorMode::Input },
            Binding { slot: 1, buffer: 1, mode: TensorMode::Input },
            Binding { slot: 2, buffer: 2, mode: TensorMode::Accumulate },
            Binding { slot: 3, buffer: 5, mode: TensorMode::Meta },
        ]
    );
}

#[test]
fn grids_reach_every_element() {
    assert_eq!(emit::grid256_2d(0), [1, 0, 1]);
    assert_eq!(emit::grid256_2d(1), [1, 1, 1]);
    assert_eq!(emit::grid256_2d(8192 * 256), [8192, 1, 1]);
    assert_eq!(emit::grid256_2d(8192 * 256 + 1), [8192, 2, 1]);
    let r = RopeMeta { seq_len: 17, dim: 192, head_dim: 64, row_offset: 0 };
    assert_eq!(emit::grid_full(r), [2, 2, 3]);
    let f = FlashAttnMeta {
        seq_len: 65,
        dim: 192,
        head_dim: 64,
        scale: Scalar::RecipSqrt(64),
        row_offset: 0,
    };
    assert_eq!(emit::grid_flash(f), [2, 3, 1]);
    assert_eq!(emit::grad_sumsq_wgs(0), 1);
    assert_eq!(emit::grad_sumsq_wgs(1000), 4);
    assert_eq!(emit::grad_sumsq_wgs(1_000_000), 256);
}

fn mode(m: TensorMode) -> wilupgu::TensorMode {
    match m {
        TensorMode::Input => wilupgu::TensorMode::Input,
        TensorMode::Output => wilupgu::TensorMode::Output,
        TensorMode::InOut => wilupgu::TensorMode::InOut,
        TensorMode::Accumulate => wilupgu::TensorMode::Accumulate,
        TensorMode::Meta => wilupgu::TensorMode::Meta,
    }
}

#[test]
fn layouts_are_those_of_the_runtime() {
    for (k, s) in [
        (Kernel::MatMul, &wilupgu::builtin::MATMUL),
        (Kernel::Gemv, &wilupgu::builtin::GEMV),
        (Kernel::GemvAdd, &wilupgu::builtin::GEMV_ADD),
        (Kernel::MatMulTrp, &wilupgu::builtin::MATMUL_TRP),
        (Kernel::MatMulAdd, &wilupgu::builtin::MATMUL_ADD),
        (Kernel::MatMulWeightBwd, &wilupgu::builtin::MATMUL_WEIGHT_BWD),
        (Kernel::ResidualAdd, &wilupgu::builtin::RESIDUAL_ADD),
        (Kernel::BwdAddInplace, &wilupgu::builtin::BWD_ADD_INPLACE),
        (Kernel::ZeroTensor, &wilupgu::builtin::ZERO_TENSOR),
    ] {
        let ours: Vec<wilupgu::TensorMode> = k.layout().into_iter().map(mode).collect();
        assert_eq!(ours, s.layout, "{k:?}");
    }
}

#[test]
fn a_model_lists_its_trainable_tensors() {
    let mut ctx = Context::new();
    let m = model(&mut ctx, 3);
    let p = m.trainable_params();
    assert_eq!(p.len(), 6 * 3 + 3);
    assert_eq!(p[0], (m.embedding.table, m.embedding.grad_table));
    assert_eq!(p[2], (m.layers[0].qkv_proj.weight, m.layers[0].qkv_proj.grad_weight));
    assert_eq!(p[19].0, m.final_norm.weight);
    assert_eq!(p[20].0, m.lm_head.weight);
    for (w, g) in &p {
        assert_eq!(w.size, g.size);
    }
}

#[test]
fn what_a_pass_adds_into_was_cleared() {
    let mut ctx = Context::new();
    let m = model(&mut ctx, 2);
    let zeroed = m.zero_grad();
    let transient = m.zero_transient_grads();
    let grads: Vec<Tensor> = m.trainable_params().iter().map(|p| p.1).collect();
    for g in &grads {
        assert!(zeroed.contains(g));
    }
    let g = m.backward_fused();
    let mut cleared: Vec<usize> = Vec::new();
    let mut added = 0;
    for i in 0..g.len() {
        let n = g.node(i);
        for b in n.bindings() {
            if b.mode == TensorMode::Accumulate {
                let known = grads.iter().chain(&transient).any(|t| t.id == b.buffer);
                assert!(known || cleared.contains(&b.buffer), "node {i} {:?}", n.kernel);
                added += 1;
            }
        }
        if n.kernel == Kernel::ZeroTensor {
            cleared.push(n.buffers[0].id);
        }
    }
    assert!(added > 20);
}

#[test]
fn fused_passes_hold_the_single_ones() {
    let mut ctx = Context::new();
    let m = model(&mut ctx, 2);
    let fwd = kernels(&m.forward());
    let fused = kernels(m.forward_fused());
    assert_eq!(fused[..fwd.len()], fwd[..]);
    assert_eq!(fused[fwd.len()..], [Kernel::CrossEntropyProbs]);
    let bwd = kernels(&m.backward());
    let fused = kernels(m.backward_fused());
    assert_eq!(fused[0], Kernel::CrossEntropyProbsBwd);
    assert_eq!(fused[1..], bwd[..]);
    assert_eq!(fwd[0], Kernel::Embedding);
    assert_eq!(bwd[bwd.len() - 1], Kernel::EmbeddingBwd);
}

#[test]
fn a_cycle_zeroes_first_and_optimizes_last() {
    let mut ctx = Context::new();
    let m = model(&mut ctx, 1);
    let inputs: Vec<u32> = (0..8).collect();
    let targets: Vec<u32> = (1..9).collect();
    for step in 0..6 {
        let (plan, windows, actions) = m.train_step(&inputs, &targets, 2, step, 3);
        assert_eq!(actions, plan.actions(2));
        assert_eq!(plan.zero_grad, step % 3 == 0);
        assert_eq!(plan.optimize, step % 3 == 2);
        assert_eq!(plan.read_loss, step == 0);
        assert_eq!(plan.grad_scale, Scalar::Recip(24));
        assert_eq!(windows.len(), 2);
        assert_eq!(windows[1].inputs, vec![4, 5, 6, 7]);
        assert_eq!(windows[1].targets, vec![5, 6, 7, 8]);
    }
}

#[test]
fn a_step_does_one_thing_after_the_other() {
    let mut ctx = Context::new();
    let m = model(&mut ctx, 1);
    let tokens: Vec<u32> = (0..8).collect();
    let window =
        |i: usize| vec![StepAction::Window(i), StepAction::ZeroTransient, StepAction::Forward];
    let (_, _, first) = m.train_step(&tokens, &tokens, 2, 0, 2);
    let mut want = vec![StepAction::SetGradScale(Scalar::Recip(16)), StepAction::ZeroGrad];
    for i in 0..2 {
        want.extend(window(i));
        want.extend([StepAction::ReadLoss, StepAction::Backward]);
    }
    want.push(StepAction::ReportLoss(2));
    assert_eq!(first, want);
    let (_, _, second) = m.train_step(&tokens, &tokens, 2, 1, 2);
    let mut want = vec![StepAction::SetGradScale(Scalar::Recip(16))];
    for i in 0..2 {
        want.extend(window(i));
        want.push(StepAction::Backward);
    }
    want.push(StepAction::Optimize);
    assert_eq!(second, want);
}

#[test]
fn a_rotation_layer_turns_and_turns_back() {
    let mut ctx = Context::new();
    let (x, g) = (ctx.zeros(384), ctx.zeros(384));
    let r = RoPE::new(&mut ctx, 128, 3, x, g);
    let f = r.forward();
    let b = r.backward();
    assert_eq!(kernels(&f), [Kernel::Rope]);
    assert_eq!(kernels(&b), [Kernel::RopeBwd]);
    assert_eq!(f.node(0).buffers, vec![x, Tensor { id: 2, size: 12 }]);
    assert_eq!(b.node(0).buffers, vec![g, Tensor { id: 2, size: 12 }]);
    assert_eq!(f.node(0).grid, [8, 1, 1]);
    assert_eq!(r.grad_input, Tensor { id: 3, size: 1536 });
}

#[test]
fn weights_come_in_checkpoint_order() {
    let mut ctx = Context::new();
    let embedding = ctx.zeros(1);
    let blocks = vec![block(&mut ctx, 2), block(&mut ctx, 2)];
    let final_norm = ctx.zeros(2);
    let lm_head = ctx.zeros(4);
    let w = ModelWeights {
        cfg: ModelConfig::new(2, 2, 1, 2, 2),
        embedding,
        blocks,
        final_norm,
        lm_head,
    };
    let ids: Vec<usize> = w.params().iter().map(|t| t.id).collect();
    assert_eq!(ids, (0..15).collect::<Vec<usize>>());
}
