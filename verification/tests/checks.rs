use akasha_core::config::ModelConfig;
use akasha_core::device::{Context, Init, Kernel, Scalar, Tensor};
use akasha_core::nn::checks::{
    argmax, decay_groups, forced_tokens, grad_probes, judge_accumulation, judge_grad_flow,
    judge_logits, judge_loss, judge_moves, judge_parity, param_count, probe_config, probe_indices,
    row_probe, slice_probe, sliding_window, HeadCheck, LossCheck, NormCheck, GRAD_TOLERANCE,
    LOSS_TOLERANCE, LOWEST, MOVED, MOVE_TOLERANCE, NORM_LIMIT,
};
use akasha_core::nn::akasha_model::AkashaModel;
use akasha_core::nn::weights::BlockWeights;

fn b(x: f32) -> u32 {
    x.to_bits()
}

fn model(ctx: &mut Context) -> AkashaModel {
    let cfg = ModelConfig::new(20, 8, 2, 2, 4);
    let blocks: Vec<BlockWeights> = (0..2)
        .map(|_| BlockWeights {
            norm_1: ctx.zeros(8),
            qkv_proj: ctx.zeros(192),
            out_proj: ctx.zeros(64),
            norm_2: ctx.zeros(8),
            ffn_up: ctx.zeros(256),
            ffn_down: ctx.zeros(256),
        })
        .collect();
    let tokens = ctx.zeros(4);
    AkashaModel::new(ctx, &cfg, &blocks, Scalar::Recip(3), tokens)
}

#[test]
fn bounds_are_the_bits_of_their_values() {
    assert_eq!(NORM_LIMIT, b(100.0));
    assert_eq!(MOVED, b(1e-7));
    assert_eq!(MOVE_TOLERANCE, b(1e-6));
    assert_eq!(GRAD_TOLERANCE, b(1e-3));
    assert_eq!(LOSS_TOLERANCE, b(0.01));
    assert_eq!(LOWEST, b(f32::MIN));
}

#[test]
fn parameters_are_counted() {
    let mut ctx = Context::new();
    let m = model(&mut ctx);
    let per_block = 8 + 192 + 64 + 8 + 256 + 256;
    assert_eq!(param_count(&m.trainable_params()), (160 + 2 * per_block + 8 + 160, false));
    let big = Tensor { id: 0, size: 40_000_004 };
    assert_eq!(param_count(&vec![(big, big)]), (10_000_001, true));
    assert_eq!(decay_groups(&m), (true, true));
}

#[test]
fn gradients_are_probed_layer_by_layer() {
    let mut ctx = Context::new();
    let m = model(&mut ctx);
    let p = grad_probes(&m);
    assert_eq!(p.len(), 12);
    assert_eq!((p[6].layer, p[6].name, p[6].grad), (1, "QKV_proj", m.layers[1].qkv_proj.grad_weight));
    assert_eq!((p[5].layer, p[5].name, p[5].grad), (0, "RMSNorm2", m.layers[0].norm_2.grad_weight));
    let fine = judge_grad_flow(&vec![b(1.0), b(100.0)], b(0.5), b(0.5), false);
    assert!(fine.pass());
    assert!(judge_grad_flow(&vec![b(1.0), b(0.0)], b(0.5), b(0.5), false).any_zero);
    assert!(judge_grad_flow(&vec![b(1.0)], b(0.5), b(0.0), false).any_zero);
    let big = judge_grad_flow(&vec![b(101.0)], b(500.0), b(0.5), false);
    assert!(big.any_explosion && !big.pass());
    assert!(judge_grad_flow(&vec![b(1.0)], b(500.0), b(0.5), false).pass());
    assert!(!judge_grad_flow(&vec![b(1.0)], b(0.5), b(0.5), true).pass());
    let c = probe_config(&ModelConfig::akasha_hall_1(), 1000);
    assert_eq!((c.vocab_size, c.dim, c.seq_len, c.num_layers), (1000, 768, 16, 12));
}

#[test]
fn accumulation_waits_for_the_end_of_its_cycle() {
    assert!(judge_accumulation(b(0.0), b(2.0), b(0.1)).pass);
    let early = judge_accumulation(b(0.1), b(2.0), b(0.1));
    assert!(early.moved_early && !early.pass);
    let still = judge_accumulation(b(0.0), b(2.0), b(0.0));
    assert!(still.stood_still && !still.pass);
    assert!(!judge_accumulation(b(0.0), b(0.0), b(0.1)).pass);
    let nan = judge_accumulation(b(f32::NAN), b(1.0), b(0.1));
    assert!(!nan.pass && !nan.moved_early);
}

#[test]
fn heads_are_moved_out_and_back() {
    let mut ctx = Context::new();
    let c = HeadCheck::new(&mut ctx);
    assert_eq!(c.round_trip.len(), 24);
    for h in 0..12 {
        let out = c.round_trip.node(2 * h);
        let back = c.round_trip.node(2 * h + 1);
        assert_eq!((out.kernel, back.kernel), (Kernel::HeadGather, Kernel::HeadScatter));
        assert_eq!(out.buffers[0], c.input);
        assert_eq!(out.buffers[1], back.buffers[0]);
        assert_eq!(back.buffers[1], c.reconstructed);
        assert_eq!(out.buffers[2], back.buffers[2]);
        assert_eq!(out.grid, [4, 1, 1]);
    }
    assert_eq!(c.backward.node(0).buffers, vec![c.ones, c.gradient, c.round_trip.node(0).buffers[2]]);
    assert_eq!(ctx.init(c.ones.id), Init::Fill(256, Scalar::Dec { digits: 1, places: 0 }));
    assert_eq!(judge_moves(b(0.0), b(5e-4)), (true, true));
    assert_eq!(judge_moves(b(1e-6), b(1e-3)), (false, false));
}

#[test]
fn entries_are_probed_at_a_stride() {
    let p = probe_indices(3072, 37);
    assert_eq!(p, (0..3072).step_by(37).collect::<Vec<usize>>());
    assert_eq!(probe_indices(0, 5), Vec::<usize>::new());
    for idx in [0usize, 63, 64, 767, 768, 800, 3071] {
        let s = slice_probe(idx, 768, 64, 0);
        assert_eq!(s.from, idx / 768 * 768);
        assert_eq!(s.in_head, idx % 768 < 64);
        let (row, at) = row_probe(idx, 768);
        assert_eq!((row, at), (idx / 768 * 768, idx % 768));
    }
}

#[test]
fn a_norm_and_a_loss_are_built_for_their_checks() {
    let mut ctx = Context::new();
    let n = NormCheck::new(&mut ctx);
    assert_eq!(n.input.size, 4 * 8 * 768);
    assert_eq!(n.norm.backward_graph.len(), 2);
    assert_eq!(n.norm.weight.size, 4 * 768);
    let l = LossCheck::new(&mut ctx);
    assert_eq!(l.targets, vec![0, 1, 2, 3]);
    assert_eq!(l.loss.seq_len, 4);
    assert_eq!(l.loss.forward_graph.node(0).buffers[0].size, 4 * 4 * 50257);
    assert!(judge_loss(b(0.009)));
    assert!(!judge_loss(b(0.01)));
    assert!(!judge_loss(b(f32::NAN)));
}

#[test]
fn windows_slide_over_the_text() {
    let t: Vec<u32> = (10..20).collect();
    assert_eq!(sliding_window(&t, 3, 5), (vec![10, 11, 12, 0, 0], 2));
    assert_eq!(sliding_window(&t, 5, 5), (vec![10, 11, 12, 13, 14], 4));
    assert_eq!(sliding_window(&t, 9, 5), (vec![14, 15, 16, 17, 18], 4));
    assert_eq!(forced_tokens(&t, 4), vec![14, 15, 16, 17, 18]);
    assert!(judge_logits(b(9e-4)));
    assert!(!judge_logits(b(1e-3)));
    assert!(judge_parity(&vec![1, 2], &vec![2]));
    assert!(!judge_parity(&vec![1, 2], &vec![3]));
    assert!(!judge_parity(&vec![1], &vec![3]));
    assert!(!judge_parity(&vec![1, 2], &Vec::new()));
    assert_eq!(argmax(&vec![b(f32::NAN), b(-3.0), b(-2.0)]), 2);
    assert_eq!(argmax(&vec![b(f32::NEG_INFINITY), b(f32::NEG_INFINITY)]), 0);
}
