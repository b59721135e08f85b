use akasha_core::config::ModelConfig;
use akasha_core::device::{ComputeGraph, Context, Kernel, Scalar};
use akasha_core::error::AkashaError;
use akasha_core::nn::cache::Cache;
use akasha_core::nn::chat_session::ChatSession;
use akasha_core::nn::generation::{Generation, SessionAction, SessionGeneration};
use akasha_core::nn::inference::InferenceSession;
use akasha_core::nn::kernels::meta::Meta;
use akasha_core::nn::model::{Model, StepPlan, TrainOptions};
use akasha_core::nn::weights::{BlockWeights, ModelWeights};

fn kernels(g: &ComputeGraph) -> Vec<Kernel> {
    (0..g.len()).map(|i| g.node(i).kernel).collect()
}

fn weights(ctx: &mut Context, layers: usize) -> ModelWeights {
    let cfg = ModelConfig::new(61, 128, 2, layers, 8);
    let embedding = ctx.zeros(61 * 128);
    let blocks = (0..layers)
        .map(|_| BlockWeights {
            norm_1: ctx.zeros(128),
            qkv_proj: ctx.zeros(3 * 128 * 128),
            out_proj: ctx.zeros(128 * 128),
            norm_2: ctx.zeros(128),
            ffn_up: ctx.zeros(4 * 128 * 128),
            ffn_down: ctx.zeros(4 * 128 * 128),
        })
        .collect();
    let final_norm = ctx.zeros(128);
    let lm_head = ctx.zeros(61 * 128);
    ModelWeights { cfg, embedding, blocks, final_norm, lm_head }
}

fn trainer(ctx: &mut Context, streaming: bool, grad_checkpoint: bool) -> Model {
    let w = weights(ctx, 2);
    let cfg = w.cfg;
    let opts = TrainOptions {
        streaming,
        grad_checkpoint,
        accumulation_steps: 4,
        max_norm: Scalar::Dec { digits: 1, places: 0 },
    };
    Model::for_training(ctx, w, &cfg, opts)
}

#[test]
fn parameters_follow_the_weights() {
    let mut ctx = Context::new();
    let m = trainer(&mut ctx, false, false);
    let order = m.weights().params();
    let params = m.params();
    assert_eq!(params.len(), order.len());
    for (p, w) in params.iter().zip(&order) {
        assert_eq!(p.0, *w);
        assert_eq!(p.1.size, w.size);
    }
    let zeroed = m.zero_grad();
    assert_eq!(zeroed.len(), params.len());
    assert!(params.iter().all(|p| zeroed.contains(&p.1)));
    // norm gains are exempt from decay
    assert!(!params[1].2 && params[2].2);
}

#[test]
fn captured_and_streamed_steps_dispatch_the_same_kernels() {
    let mut ctx = Context::new();
    let mut captured = trainer(&mut ctx, false, false);
    assert!(matches!(captured.train_step(&mut ctx), StepPlan::Captured));
    assert!(captured.eval_loss(&mut ctx).is_none());
    let t = captured.train.as_ref().unwrap();
    let fwd = kernels(t.fwd_graph.as_ref().unwrap());
    let bwd = kernels(t.bwd_graph.as_ref().unwrap());
    let mut streamed = trainer(&mut ctx, true, false);
    for _ in 0..2 {
        match streamed.train_step(&mut ctx) {
            StepPlan::Streaming { forward, forward_spans, backward, backward_spans } => {
                assert_eq!(kernels(&forward), fwd);
                assert_eq!(kernels(&backward), bwd);
                assert!(forward_spans.is_empty() && backward_spans.is_empty());
            }
            StepPlan::Captured => panic!("not streamed"),
        }
    }
    let (eval, held) = streamed.eval_loss(&mut ctx).unwrap();
    assert_eq!(kernels(&eval), fwd);
    assert!(held.is_empty());
    let mut again = trainer(&mut ctx, true, true);
    match again.train_step(&mut ctx) {
        StepPlan::Streaming { forward, forward_spans, backward, backward_spans } => {
            assert_eq!(kernels(&forward), fwd);
            assert!(backward.len() > bwd.len());
            let n = forward_spans.len();
            assert_eq!(n, again.weights().blocks.len());
            assert_eq!(backward_spans.len(), n);
            // the embedding comes before the first block, norm, head and loss behind the last
            assert_eq!(forward_spans[0].from, 1);
            assert!(forward_spans[n - 1].to < forward.len());
            for i in 0..n {
                let (up, down) = (forward_spans[i], backward_spans[n - 1 - i]);
                assert_eq!((up.block, down.block), (i, i));
                // a block first runs forward again, with the kernels of its own span
                let width = up.to - up.from;
                assert!(down.to - down.from > width);
                for k in 0..width {
                    assert_eq!(
                        backward.node(down.from + k).kernel,
                        forward.node(up.from + k).kernel
                    );
                }
                if i > 0 {
                    assert_eq!(forward_spans[i - 1].to, up.from);
                    assert_eq!(down.to, backward_spans[n - i].from);
                }
            }
        }
        StepPlan::Captured => panic!("not streamed"),
    }
    assert!(!again.eval_loss(&mut ctx).unwrap().1.is_empty());
}

#[test]
fn a_trained_state_is_taken_back() {
    let mut ctx = Context::new();
    let m = trainer(&mut ctx, false, false);
    let params: Vec<Vec<u32>> = m
        .weights()
        .params()
        .iter()
        .enumerate()
        .map(|(i, t)| vec![i as u32; (t.size / 4) as usize])
        .collect();
    let moments: Vec<(Vec<u32>, Vec<u32>)> =
        params.iter().map(|p| (p.clone(), vec![7; p.len()])).collect();
    let file = m.save_checkpoint(params.clone(), moments.clone(), 9, 33);
    let l = m.load_checkpoint(&file);
    assert_eq!(l.params, params);
    let c = l.outcome.ok().unwrap();
    assert_eq!(c.train_step, 33);
    let o = c.optimizer.unwrap();
    assert_eq!((o.moments, o.schedule_step), (moments, 9));
    let flat = m.to_flat_weights(&params);
    let split = m.set_flat_weights(&flat);
    assert!(split.iter().zip(&params).all(|(s, p)| s.1 == *p));
}

fn chat(ctx: &mut Context, max: u32) -> Model {
    let w = weights(ctx, 2);
    let cfg = w.cfg;
    Model::for_chat(ctx, w, &cfg, max)
}

#[test]
fn prompts_are_taken_or_refused() {
    let mut ctx = Context::new();
    let m = chat(&mut ctx, 6);
    assert_eq!(m.prefill_logits(&mut ctx, &vec![]).err(), Some(AkashaError::EmptyPrompt));
    assert_eq!(
        m.prefill_logits(&mut ctx, &vec![1; 7]).err(),
        Some(AkashaError::PromptTooLong { len: 7, max: 6 })
    );
    let plan = m.prefill_logits(&mut ctx, &vec![1, 2, 3]).ok().unwrap();
    assert_eq!((plan.start, plan.end), (2 * 61, 3 * 61));
    assert_eq!(plan.tokens.size, 12);
    assert_eq!(plan.logits.size, 4 * 3 * 61);
    assert_eq!(m.max_context_len(), 6);
    assert_eq!(m.reset_cache().len(), 4);
}

#[test]
fn a_decode_step_moves_its_metas() {
    let mut ctx = Context::new();
    let mut m = chat(&mut ctx, 6);
    let before = m.chat.as_ref().unwrap().decode.graph.len();
    let a = m.decode_step_logits(5, 3).ok().unwrap();
    assert_eq!(a.token, 5);
    for (_, meta) in &a.writes {
        match meta {
            Meta::CacheWrite(w) => assert_eq!(w.dst_row_offset, 3),
            Meta::RopeOffset(r) => assert_eq!(r.pos, 3),
            Meta::AttnCached(c) => assert_eq!(c.attn_len, 4),
            Meta::SoftmaxRect(s) => assert_eq!(s.width, 4),
            other => panic!("{other:?}"),
        }
    }
    assert!(!a.writes.is_empty());
    assert_eq!(m.chat.as_ref().unwrap().decode.graph.len(), before);
    assert_eq!(m.decode_step_logits(5, 6).err(), Some(AkashaError::ContextFull { max: 6 }));
}

#[test]
fn a_chat_goes_on_until_its_end() {
    let mut ctx = Context::new();
    let mut s = ChatSession::new(chat(&mut ctx, 4));
    assert_eq!(s.feed_prompt(&mut ctx, &vec![]).err(), Some(AkashaError::EmptyPrompt));
    s.feed_prompt(&mut ctx, &vec![1, 2]).ok().unwrap();
    assert_eq!(
        s.feed_prompt(&mut ctx, &vec![1]).err(),
        Some(AkashaError::CacheNotEmpty { cur_len: 2 })
    );
    s.take_sample(9);
    assert_eq!(s.next().ok().unwrap().unwrap().token, 9);
    s.take_sample(10);
    assert_eq!((s.pos, s.seen.len()), (3, 4));
    assert!(s.next().ok().unwrap().is_some());
    s.take_sample(11);
    assert_eq!((s.pos, s.seen.len()), (4, 5));
    // the context is full
    assert!(s.next().ok().unwrap().is_none());
    assert_eq!(s.seen, vec![1, 2, 9, 10, 11]);
    assert_eq!(s.reset().len(), 4);
    s.feed_prompt(&mut ctx, &vec![3]).ok().unwrap();
    s.take_sample(60);
    assert!(s.is_finished());
    assert!(s.next().ok().unwrap().is_none());
}

#[test]
fn generation_ends_at_the_end_token_the_context_or_the_count() {
    let mut g = Generation::start(&vec![1, 2], 3, 60, 3, 10);
    assert_eq!(g.wants(), Some((3, 2)));
    g.push(4);
    g.push(5);
    assert_eq!(g.wants(), None);
    assert_eq!(g.generated, vec![3, 4, 5]);
    assert_eq!(g.seen, vec![1, 2, 3, 4, 5]);
    assert_eq!(Generation::start(&vec![1], 60, 60, 9, 10).wants(), None);
    assert_eq!(Generation::start(&vec![1, 2], 3, 60, 9, 2).wants(), None);
    assert_eq!(Generation::start(&vec![1], 3, 60, 0, 10).generated, vec![3]);
}

#[test]
fn a_session_prefills_or_resumes() {
    let mut g = SessionGeneration::start(vec![1, 2], 0, 50256, 2);
    assert_eq!(g.action(), SessionAction::Prefill);
    g.ran();
    assert_eq!(g.action(), SessionAction::Sample);
    g.sampled(7);
    assert_eq!(g.action(), SessionAction::Decode(7));
    g.ran();
    g.sampled(50256);
    assert_eq!(g.action(), SessionAction::Done);
    assert_eq!(g.generated, vec![7, 50256]);
    let mut r = SessionGeneration::start(vec![1, 2], 5, 50256, 0);
    assert_eq!(r.action(), SessionAction::Decode(1));
    r.ran();
    assert_eq!(r.action(), SessionAction::Decode(2));
    r.ran();
    assert_eq!(r.action(), SessionAction::Done);
}

#[test]
fn a_session_keeps_its_cache() {
    let mut ctx = Context::new();
    let w = weights(&mut ctx, 2);
    let mut s = InferenceSession::new(&mut ctx, w, 8);
    assert!(s.take_cache().is_none());
    let c = Cache::new(&mut ctx, 2, 128, 8);
    assert_eq!(c.k.len(), 2);
    assert_eq!(c.k[0].size, 4 * 8 * 128);
    assert!(s.replace_cache(c).is_none());
    let p = s.prefill(&mut ctx, &vec![4, 5, 6]);
    assert_eq!((p.start, p.end), (2 * 61, 3 * 61));
    assert_eq!(s.cache.as_ref().unwrap().cur_len, 3);
    let row = s.decode_step(9);
    assert_eq!(row.token, 9);
    assert_eq!(row.logits.size, 4 * 61);
    assert_eq!(s.cache.as_ref().unwrap().cur_len, 4);
    let g = s.generate(&mut ctx, vec![1], 3);
    assert!(g.resumed);
    let mut old = s.take_cache().unwrap();
    old.reset();
    assert_eq!(old.cur_len, 0);
    assert!(!s.generate(&mut ctx, vec![1], 3).resumed);
}

#[test]
fn a_step_scores_its_own_row_too() {
    let mut ctx = Context::new();
    let w = weights(&mut ctx, 2);
    let mut s = InferenceSession::new(&mut ctx, w, 300);
    let c = Cache::new(&mut ctx, 2, 128, 300);
    assert!(s.replace_cache(c).is_none());
    s.prefill(&mut ctx, &vec![5; 255]);
    for (rows, groups) in [(256u32, 1u32), (257, 2), (258, 2)] {
        let plan = s.decode_step(7);
        let scores: Vec<usize> = (0..plan.graph.len())
            .filter(|&i| plan.graph.node(i).kernel == Kernel::AttnQkCached)
            .collect();
        assert_eq!(scores.len(), 2);
        for i in scores {
            assert_eq!(plan.graph.node(i).grid, [groups, 2, 1]);
        }
        assert!(groups * 256 >= rows);
    }
}

#[test]
fn a_step_keeps_the_parameters() {
    let mut ctx = Context::new();
    let mut m = trainer(&mut ctx, true, true);
    let before = m.params();
    for _ in 0..2 {
        m.train_step(&mut ctx);
        assert_eq!(m.params(), before);
    }
}
