//! Serving a model: the tape of a prompt and the tape of a decode step.
use super::arch;
use super::arch::{extend, Ext, Name, Names};
use super::blocks;
use super::blocks::{decode_block_specs, prefill_block_specs};
use super::cached::{DecodeOp, DecodeOpView, PrefillOp, PrefillOpView};
use super::full_seq;
use super::full_seq::{EmbeddingOp, LinearOp, RmsNormOp};
use super::kernels::meta::{MatMulMeta, NormMeta};
use super::kernels::{Decode, GraphBuilder, Prefill};
use super::tape;
use super::tape::{Forward, NodeId, Out, Tape, TapeView};
use super::weights::{BlockWeights, ModelWeights, ModelWeightsView};
use crate::config::ModelConfig;
use crate::device::{ComputeGraph, Context, Init, NodeView, Tensor};
use vstd::prelude::*;

verus! {

/// What building a tape for serving leaves.
#[verifier::ext_equal]
pub struct Served<V> {
    pub ctx: Seq<Init>,
    pub emitted: Seq<NodeView>,
    pub tape: TapeView<V>,
    pub tokens: Tensor,
    pub logits_id: NodeId,
}

fn one_out(id: NodeId) -> (r: Vec<Out>)
    ensures
        r@ == seq![(id, 0usize)],
{
    let r = vec![(id, 0usize)];
    assert(r@ =~= seq![(id, 0usize)]);
    r
}

// ---- prefill ----

/// The tape over `prompt_len` rows with its first `n` blocks.
pub open spec fn prefill_stack(
    c: Seq<Init>,
    w: ModelWeightsView,
    cfg: ModelConfig,
    cache_k: Seq<Tensor>,
    cache_v: Seq<Tensor>,
    prompt_len: u32,
    n: nat,
) -> Ext<PrefillOpView>
    decreases n,
{
    if n == 0 {
        let (c1, emb) = EmbeddingOp::build(c, w.embedding, prompt_len, cfg.vocab_size, cfg.dim);
        let f = <PrefillOp as Forward<Prefill>>::fwd(PrefillOpView::Embedding(emb), c1, Seq::empty());
        Ext {
            tape: TapeView::<PrefillOpView>::empty().pushed(f.next, Seq::empty(), f.outs),
            ctx: f.ctx,
            emitted: f.nodes,
            names: Map::empty(),
        }
    } else {
        let p = prefill_stack(c, w, cfg, cache_k, cache_v, prompt_len, (n - 1) as nat);
        let (c1, specs) = blocks::prefill_build(
            p.ctx,
            w.blocks[n - 1],
            cache_k[n - 1],
            cache_v[n - 1],
            cfg,
            prompt_len,
        );
        arch::ext::<Prefill, PrefillOp>(prefill_start(p, c1, (n - 1) as nat), specs, specs.len())
    }
}

/// Where block `n` starts: on the output of the block before, or the embedding.
pub open spec fn prefill_start(p: Ext<PrefillOpView>, c: Seq<Init>, n: nat) -> Ext<PrefillOpView> {
    Ext { ctx: c, names: p.names.insert(Name::Input, prefill_out(n)), ..p }
}

/// The node that holds the output of the first `n` blocks.
pub open spec fn prefill_out(n: nat) -> NodeId {
    NodeId((blocks::PREFILL_NODES * n) as usize)
}

/// The whole prompt pass, started in context `c`: the embedding, the blocks, the
/// final norm, the head.
#[verifier::opaque]
pub open spec fn prefill_forward(
    c: Seq<Init>,
    w: ModelWeightsView,
    cfg: ModelConfig,
    cache_k: Seq<Tensor>,
    cache_v: Seq<Tensor>,
    prompt_len: u32,
) -> Served<PrefillOpView> {
    let n = w.blocks.len();
    let s = prefill_stack(c, w, cfg, cache_k, cache_v, prompt_len, n);
    let (c1, norm) = RmsNormOp::build(
        s.ctx,
        w.final_norm,
        NormMeta { seq_len: prompt_len, size: cfg.dim, eps: cfg.norm_eps },
    );
    let ins1 = seq![(prefill_out(n), 0usize)];
    let f1 = <PrefillOp as Forward<Prefill>>::fwd(PrefillOpView::RmsNorm(norm), c1, s.tape.outs(ins1));
    let t1 = s.tape.pushed(f1.next, ins1, f1.outs);
    let (c2, lin) = LinearOp::build(
        f1.ctx,
        w.lm_head,
        MatMulMeta { m: prompt_len, n: cfg.vocab_size, k: cfg.dim },
        true,
    );
    let ins2 = seq![(NodeId(s.tape.nodes.len() as usize), 0usize)];
    let f2 = <PrefillOp as Forward<Prefill>>::fwd(PrefillOpView::Linear(lin), c2, t1.outs(ins2));
    Served {
        ctx: f2.ctx,
        emitted: s.emitted + f1.nodes + f2.nodes,
        tape: t1.pushed(f2.next, ins2, f2.outs),
        tokens: EmbeddingOp::build(c, w.embedding, prompt_len, cfg.vocab_size, cfg.dim).1.tokens,
        logits_id: NodeId((blocks::PREFILL_NODES * n + 2) as usize),
    }
}

/// The models on which a prompt pass works.
pub open spec fn prefill_servable(
    w: ModelWeightsView,
    cfg: ModelConfig,
    prompt_len: u32,
) -> bool {
    &&& w.blocks.len() * blocks::PREFILL_NODES + 3 <= usize::MAX
    &&& cfg.dim + 255 <= u32::MAX
    &&& prompt_len * cfg.dim + 255 <= u32::MAX
    &&& full_seq::linear_ok(MatMulMeta { m: prompt_len, n: cfg.vocab_size, k: cfg.dim })
    &&& tape::elems(w.embedding) <= u32::MAX
    &&& tape::elems(w.final_norm) <= u32::MAX
    &&& tape::elems(w.lm_head) <= u32::MAX
    &&& forall|i: int| 0 <= i < w.blocks.len() ==> blocks::full_fits(
        cfg,
        #[trigger] w.blocks[i],
        prompt_len,
        1,
    )
}

proof fn lemma_prefill_stack(
    c: Seq<Init>,
    w: ModelWeightsView,
    cfg: ModelConfig,
    cache_k: Seq<Tensor>,
    cache_v: Seq<Tensor>,
    prompt_len: u32,
    n: nat,
)
    requires
        prefill_servable(w, cfg, prompt_len),
        n <= w.blocks.len(),
    ensures
        ({
            let s = prefill_stack(c, w, cfg, cache_k, cache_v, prompt_len, n);
            &&& s.tape.wf()
            &&& s.tape.nodes.len() == blocks::PREFILL_NODES * n + 1
            &&& s.tape.has_out(s.tape.nodes.len() as int, (prefill_out(n), 0))
        }),
    decreases n,
{
    assert(blocks::PREFILL_NODES * n <= w.blocks.len() * blocks::PREFILL_NODES) by (nonlinear_arith)
        requires
            n <= w.blocks.len(),
    ;
    if n > 0 {
        lemma_prefill_stack(c, w, cfg, cache_k, cache_v, prompt_len, (n - 1) as nat);
        let p = prefill_stack(c, w, cfg, cache_k, cache_v, prompt_len, (n - 1) as nat);
        let bw = w.blocks[n - 1];
        let (c1, specs) = blocks::prefill_build(
            p.ctx,
            bw,
            cache_k[n - 1],
            cache_v[n - 1],
            cfg,
            prompt_len,
        );
        assert(blocks::full_fits(cfg, bw, prompt_len, 1));
        blocks::lemma_prefill_wired(p.ctx, bw, cache_k[n - 1], cache_v[n - 1], cfg, prompt_len);
        let st = prefill_start(p, c1, (n - 1) as nat);
        assert(blocks::PREFILL_NODES * (n - 1) + blocks::PREFILL_NODES == blocks::PREFILL_NODES * n)
            by (nonlinear_arith);
        assert(arch::startable(st, specs.len()));
        arch::lemma_ext::<Prefill, PrefillOp>(st, specs, specs.len());
        let r = arch::lemma_ext_at::<Prefill, PrefillOp>(st, specs, blocks::PREFILL_NODES - 1);
    }
}

/// The tape of a prompt: its tokens buffer and the node of the logits, one row
/// of logits per prompt row.
pub fn build_prefill_forward(
    ctx: &mut Context,
    gb: &mut GraphBuilder<Prefill>,
    weights: &ModelWeights,
    cfg: &ModelConfig,
    prompt_len: u32,
    cache_k: &Vec<Tensor>,
    cache_v: &Vec<Tensor>,
) -> (r: (Tape<PrefillOp>, Tensor, NodeId))
    requires
        prefill_servable(weights@, *cfg, prompt_len),
        cache_k@.len() == weights@.blocks.len(),
        cache_v@.len() == weights@.blocks.len(),
        old(gb).graph@ == Seq::<NodeView>::empty(),
    ensures
        ({
            let p = prefill_forward(old(ctx)@, weights@, *cfg, cache_k@, cache_v@, prompt_len);
            &&& final(ctx)@ == p.ctx
            &&& final(gb).graph@ == p.emitted
            &&& r.0@ == p.tape
            &&& r.1 == p.tokens
            &&& r.2 == p.logits_id
        }),
        r.0@.has_out(r.0@.nodes.len() as int, (r.2, 0)),
{
    let ghost c = ctx@;
    let ghost w = weights@;
    proof {
        assert(0 <= prompt_len * cfg.dim) by (nonlinear_arith);
        lemma_prefill_stack(c, w, *cfg, cache_k@, cache_v@, prompt_len, 0);
    }
    let emb = EmbeddingOp::new(ctx, weights.embedding, prompt_len, cfg.vocab_size, cfg.dim);
    let tokens = emb.tokens_handle();
    let mut tape: Tape<PrefillOp> = Tape::new();
    let none: Vec<Out> = Vec::new();
    assert(tape@.outs(none@) =~= Seq::empty());
    let mut x = tape.push(ctx, gb, PrefillOp::Embedding(emb), none);
    let mut names = Names::new();
    assert(gb.graph@ =~= prefill_stack(c, w, *cfg, cache_k@, cache_v@, prompt_len, 0).emitted);
    let mut i: usize = 0;
    while i < weights.blocks.len()
        invariant
            i <= weights.blocks@.len(),
            w == weights@,
            prefill_servable(w, *cfg, prompt_len),
            cache_k@.len() == w.blocks.len(),
            cache_v@.len() == w.blocks.len(),
            x == prefill_out(i as nat),
            ({
                let s = prefill_stack(c, w, *cfg, cache_k@, cache_v@, prompt_len, i as nat);
                &&& tape@ == s.tape
                &&& ctx@ == s.ctx
                &&& gb.graph@ == s.emitted
                &&& names@ == s.names
            }),
        decreases weights.blocks@.len() - i,
    {
        let ghost s = prefill_stack(c, w, *cfg, cache_k@, cache_v@, prompt_len, i as nat);
        proof {
            lemma_prefill_stack(c, w, *cfg, cache_k@, cache_v@, prompt_len, i as nat);
            lemma_prefill_stack(c, w, *cfg, cache_k@, cache_v@, prompt_len, (i + 1) as nat);
            assert(blocks::PREFILL_NODES * (i + 1) == blocks::PREFILL_NODES * i + blocks::PREFILL_NODES)
                by (nonlinear_arith);
            assert(blocks::PREFILL_NODES * (i + 1) <= w.blocks.len() * blocks::PREFILL_NODES)
                by (nonlinear_arith)
                requires
                    i + 1 <= w.blocks.len(),
            ;
            assert(blocks::full_fits(*cfg, w.blocks[i as int], prompt_len, 1));
            blocks::lemma_prefill_wired(
                s.ctx,
                w.blocks[i as int],
                cache_k@[i as int],
                cache_v@[i as int],
                *cfg,
                prompt_len,
            );
        }
        names.insert(Name::Input, x);
        let specs = prefill_block_specs(
            ctx,
            &weights.blocks[i],
            cache_k[i],
            cache_v[i],
            cfg,
            prompt_len,
        );
        x = extend(&mut tape, ctx, gb, &mut names, specs);
        i = i + 1;
    }
    let ghost n = w.blocks.len();
    let ghost s = prefill_stack(c, w, *cfg, cache_k@, cache_v@, prompt_len, n);
    proof {
        lemma_prefill_stack(c, w, *cfg, cache_k@, cache_v@, prompt_len, n);
        assert(blocks::PREFILL_NODES * n == w.blocks.len() * blocks::PREFILL_NODES) by (nonlinear_arith)
            requires
                n == w.blocks.len(),
        ;
    }
    let norm = RmsNormOp::new(
        ctx,
        weights.final_norm,
        NormMeta { seq_len: prompt_len, size: cfg.dim, eps: cfg.norm_eps },
    );
    let ins1 = one_out(x);
    let final_norm = tape.push(ctx, gb, PrefillOp::RmsNorm(norm), ins1);
    let lin = LinearOp::new(
        ctx,
        weights.lm_head,
        MatMulMeta { m: prompt_len, n: cfg.vocab_size, k: cfg.dim },
        true,
    );
    let ins2 = one_out(final_norm);
    let logits = tape.push(ctx, gb, PrefillOp::Linear(lin), ins2);
    proof {
        reveal(prefill_forward);
        let p = prefill_forward(c, w, *cfg, cache_k@, cache_v@, prompt_len);
        assert(tape@ =~= p.tape);
        assert(gb.graph@ =~= p.emitted);
    }
    (tape, tokens, logits)
}

// ---- decode ----

/// The one-row tape with its first `n` blocks.
pub open spec fn decode_stack(
    c: Seq<Init>,
    w: ModelWeightsView,
    cfg: ModelConfig,
    cache_k: Seq<Tensor>,
    cache_v: Seq<Tensor>,
    max_context_len: u32,
    n: nat,
) -> Ext<DecodeOpView>
    decreases n,
{
    if n == 0 {
        let (c1, emb) = EmbeddingOp::build(c, w.embedding, 1, cfg.vocab_size, cfg.dim);
        let f = <DecodeOp as Forward<Decode>>::fwd(DecodeOpView::Embedding(emb), c1, Seq::empty());
        Ext {
            tape: TapeView::<DecodeOpView>::empty().pushed(f.next, Seq::empty(), f.outs),
            ctx: f.ctx,
            emitted: f.nodes,
            names: Map::empty(),
        }
    } else {
        let p = decode_stack(c, w, cfg, cache_k, cache_v, max_context_len, (n - 1) as nat);
        let (c1, specs) = blocks::decode_build(
            p.ctx,
            w.blocks[n - 1],
            cache_k[n - 1],
            cache_v[n - 1],
            cfg,
            max_context_len,
        );
        arch::ext::<Decode, DecodeOp>(decode_start(p, c1, (n - 1) as nat), specs, specs.len())
    }
}

/// Where block `n` starts: on the output of the block before, or the embedding.
pub open spec fn decode_start(p: Ext<DecodeOpView>, c: Seq<Init>, n: nat) -> Ext<DecodeOpView> {
    Ext { ctx: c, names: p.names.insert(Name::Input, decode_out(n)), ..p }
}

/// The node that holds the output of the first `n` blocks.
pub open spec fn decode_out(n: nat) -> NodeId {
    NodeId((blocks::DECODE_NODES * n) as usize)
}

/// The whole decode step, started in context `c`: the embedding, the blocks, the
/// final norm, the head.
#[verifier::opaque]
pub open spec fn decode_forward(
    c: Seq<Init>,
    w: ModelWeightsView,
    cfg: ModelConfig,
    cache_k: Seq<Tensor>,
    cache_v: Seq<Tensor>,
    max_context_len: u32,
) -> Served<DecodeOpView> {
    let n = w.blocks.len();
    let s = decode_stack(c, w, cfg, cache_k, cache_v, max_context_len, n);
    let (c1, norm) = RmsNormOp::build(
        s.ctx,
        w.final_norm,
        NormMeta { seq_len: 1, size: cfg.dim, eps: cfg.norm_eps },
    );
    let ins1 = seq![(decode_out(n), 0usize)];
    let f1 = <DecodeOp as Forward<Decode>>::fwd(DecodeOpView::RmsNorm(norm), c1, s.tape.outs(ins1));
    let t1 = s.tape.pushed(f1.next, ins1, f1.outs);
    let (c2, lin) = LinearOp::build(
        f1.ctx,
        w.lm_head,
        MatMulMeta { m: 1, n: cfg.vocab_size, k: cfg.dim },
        true,
    );
    let ins2 = seq![(NodeId(s.tape.nodes.len() as usize), 0usize)];
    let f2 = <DecodeOp as Forward<Decode>>::fwd(DecodeOpView::Linear(lin), c2, t1.outs(ins2));
    Served {
        ctx: f2.ctx,
        emitted: s.emitted + f1.nodes + f2.nodes,
        tape: t1.pushed(f2.next, ins2, f2.outs),
        tokens: EmbeddingOp::build(c, w.embedding, 1, cfg.vocab_size, cfg.dim).1.tokens,
        logits_id: NodeId((blocks::DECODE_NODES * n + 2) as usize),
    }
}

/// The models on which a decode step works.
pub open spec fn decode_servable(
    w: ModelWeightsView,
    cfg: ModelConfig,
    max_context_len: u32,
) -> bool {
    &&& w.blocks.len() * blocks::DECODE_NODES + 3 <= usize::MAX
    &&& cfg.dim + 255 <= u32::MAX
    &&& 1 * cfg.dim + 255 <= u32::MAX
    &&& full_seq::linear_ok(MatMulMeta { m: 1, n: cfg.vocab_size, k: cfg.dim })
    &&& tape::elems(w.embedding) <= u32::MAX
    &&& tape::elems(w.final_norm) <= u32::MAX
    &&& tape::elems(w.lm_head) <= u32::MAX
    &&& forall|i: int| 0 <= i < w.blocks.len() ==> blocks::decode_fits(
        cfg,
        #[trigger] w.blocks[i],
        max_context_len,
    )
}

proof fn lemma_decode_stack(
    c: Seq<Init>,
    w: ModelWeightsView,
    cfg: ModelConfig,
    cache_k: Seq<Tensor>,
    cache_v: Seq<Tensor>,
    max_context_len: u32,
    n: nat,
)
    requires
        decode_servable(w, cfg, max_context_len),
        n <= w.blocks.len(),
    ensures
        ({
            let s = decode_stack(c, w, cfg, cache_k, cache_v, max_context_len, n);
            &&& s.tape.wf()
            &&& s.tape.nodes.len() == blocks::DECODE_NODES * n + 1
            &&& s.tape.has_out(s.tape.nodes.len() as int, (decode_out(n), 0))
        }),
    decreases n,
{
    assert(blocks::DECODE_NODES * n <= w.blocks.len() * blocks::DECODE_NODES) by (nonlinear_arith)
        requires
            n <= w.blocks.len(),
    ;
    if n > 0 {
        lemma_decode_stack(c, w, cfg, cache_k, cache_v, max_context_len, (n - 1) as nat);
        let p = decode_stack(c, w, cfg, cache_k, cache_v, max_context_len, (n - 1) as nat);
        let bw = w.blocks[n - 1];
        let (c1, specs) = blocks::decode_build(
            p.ctx,
            bw,
            cache_k[n - 1],
            cache_v[n - 1],
            cfg,
            max_context_len,
        );
        assert(blocks::decode_fits(cfg, bw, max_context_len));
        blocks::lemma_decode_wired(p.ctx, bw, cache_k[n - 1], cache_v[n - 1], cfg, max_context_len);
        let st = decode_start(p, c1, (n - 1) as nat);
        assert(blocks::DECODE_NODES * (n - 1) + blocks::DECODE_NODES == blocks::DECODE_NODES * n)
            by (nonlinear_arith);
        assert(arch::startable(st, specs.len()));
        arch::lemma_ext::<Decode, DecodeOp>(st, specs, specs.len());
        let r = arch::lemma_ext_at::<Decode, DecodeOp>(st, specs, blocks::DECODE_NODES - 1);
    }
}

pub struct DecodeGraph {
    pub graph: ComputeGraph,
    pub tape: Tape<DecodeOp>,
    pub tokens: Tensor,
    pub logits_id: NodeId,
}

/// The graph of a decode step. It is built once; a step only overwrites the
/// tokens buffer and the metas that follow the position.
pub fn build_decode_forward(
    ctx: &mut Context,
    weights: &ModelWeights,
    cfg: &ModelConfig,
    cache_k: &Vec<Tensor>,
    cache_v: &Vec<Tensor>,
    max_context_len: u32,
) -> (r: DecodeGraph)
    requires
        decode_servable(weights@, *cfg, max_context_len),
        cache_k@.len() == weights@.blocks.len(),
        cache_v@.len() == weights@.blocks.len(),
    ensures
        ({
            let p = decode_forward(old(ctx)@, weights@, *cfg, cache_k@, cache_v@, max_context_len);
            &&& final(ctx)@ == p.ctx
            &&& r.graph@ == p.emitted
            &&& r.tape@ == p.tape
            &&& r.tokens == p.tokens
            &&& r.logits_id == p.logits_id
        }),
        r.tape@.has_out(r.tape@.nodes.len() as int, (r.logits_id, 0)),
{
    let mut gb = GraphBuilder::decode(ComputeGraph::new());
    let ghost c = ctx@;
    let ghost w = weights@;
    proof {
        assert(0 <= 1 * cfg.dim) by (nonlinear_arith);
        lemma_decode_stack(c, w, *cfg, cache_k@, cache_v@, max_context_len, 0);
    }
    let emb = EmbeddingOp::new(ctx, weights.embedding, 1, cfg.vocab_size, cfg.dim);
    let tokens = emb.tokens_handle();
    let mut tape: Tape<DecodeOp> = Tape::new();
    let none: Vec<Out> = Vec::new();
    assert(tape@.outs(none@) =~= Seq::empty());
    let mut x = tape.push(ctx, &mut gb, DecodeOp::Embedding(emb), none);
    let mut names = Names::new();
    assert(gb.graph@ =~= decode_stack(c, w, *cfg, cache_k@, cache_v@, max_context_len, 0).emitted);
    let mut i: usize = 0;
    while i < weights.blocks.len()
        invariant
            i <= weights.blocks@.len(),
            w == weights@,
            decode_servable(w, *cfg, max_context_len),
            cache_k@.len() == w.blocks.len(),
            cache_v@.len() == w.blocks.len(),
            x == decode_out(i as nat),
            ({
                let s = decode_stack(c, w, *cfg, cache_k@, cache_v@, max_context_len, i as nat);
                &&& tape@ == s.tape
                &&& ctx@ == s.ctx
                &&& gb.graph@ == s.emitted
                &&& names@ == s.names
            }),
        decreases weights.blocks@.len() - i,
    {
        let ghost s = decode_stack(c, w, *cfg, cache_k@, cache_v@, max_context_len, i as nat);
        proof {
            lemma_decode_stack(c, w, *cfg, cache_k@, cache_v@, max_context_len, i as nat);
            lemma_decode_stack(c, w, *cfg, cache_k@, cache_v@, max_context_len, (i + 1) as nat);
            assert(blocks::DECODE_NODES * (i + 1) == blocks::DECODE_NODES * i + blocks::DECODE_NODES)
                by (nonlinear_arith);
            assert(blocks::DECODE_NODES * (i + 1) <= w.blocks.len() * blocks::DECODE_NODES)
                by (nonlinear_arith)
                requires
                    i + 1 <= w.blocks.len(),
            ;
            assert(blocks::decode_fits(*cfg, w.blocks[i as int], max_context_len));
            blocks::lemma_decode_wired(
                s.ctx,
                w.blocks[i as int],
                cache_k@[i as int],
                cache_v@[i as int],
                *cfg,
                max_context_len,
            );
        }
        names.insert(Name::Input, x);
        let specs = decode_block_specs(
            ctx,
            &weights.blocks[i],
            cache_k[i],
            cache_v[i],
            cfg,
            max_context_len,
        );
        x = extend(&mut tape, ctx, &mut gb, &mut names, specs);
        i = i + 1;
    }
    let ghost n = w.blocks.len();
    let ghost s = decode_stack(c, w, *cfg, cache_k@, cache_v@, max_context_len, n);
    proof {
        lemma_decode_stack(c, w, *cfg, cache_k@, cache_v@, max_context_len, n);
        assert(blocks::DECODE_NODES * n == w.blocks.len() * blocks::DECODE_NODES) by (nonlinear_arith)
            requires
                n == w.blocks.len(),
        ;
    }
    let norm = RmsNormOp::new(
        ctx,
        weights.final_norm,
        NormMeta { seq_len: 1, size: cfg.dim, eps: cfg.norm_eps },
    );
    let ins1 = one_out(x);
    let final_norm = tape.push(ctx, &mut gb, DecodeOp::RmsNorm(norm), ins1);
    let lin = LinearOp::new(
        ctx,
        weights.lm_head,
        MatMulMeta { m: 1, n: cfg.vocab_size, k: cfg.dim },
        true,
    );
    let ins2 = one_out(final_norm);
    let logits = tape.push(ctx, &mut gb, DecodeOp::Linear(lin), ins2);
    proof {
        reveal(decode_forward);
        let p = decode_forward(c, w, *cfg, cache_k@, cache_v@, max_context_len);
        assert(tape@ =~= p.tape);
        assert(gb.graph@ =~= p.emitted);
    }
    DecodeGraph { graph: gb.graph, tape, tokens, logits_id: logits }
}

/// The weights and caches of a prefill block's ops.
proof fn lemma_prefill_ops(
    c: Seq<Init>,
    bw: BlockWeights,
    cache_k: Tensor,
    cache_v: Tensor,
    cfg: ModelConfig,
    prompt_len: u32,
)
    ensures
        ({
            let s = blocks::prefill_build(c, bw, cache_k, cache_v, cfg, prompt_len).1;
            &&& s.len() == blocks::PREFILL_NODES
            &&& s[0].inputs == seq![(Name::Input, 0usize)]
            &&& s[0].op matches PrefillOpView::RmsNorm(op) && op.weight == bw.norm_1
            &&& s[1].op matches PrefillOpView::Linear(op) && op.weight == bw.qkv_proj
            &&& s[7].op matches PrefillOpView::Linear(op) && op.weight == bw.out_proj
            &&& s[9].op matches PrefillOpView::RmsNorm(op) && op.weight == bw.norm_2
            &&& s[10].op matches PrefillOpView::Linear(op) && op.weight == bw.ffn_up
            &&& s[12].op matches PrefillOpView::Linear(op) && op.weight == bw.ffn_down
            &&& s[4].op matches PrefillOpView::CacheWrite(op) && op.cache == cache_k
            &&& s[5].op matches PrefillOpView::CacheWrite(op) && op.cache == cache_v
        }),
{
    reveal(blocks::prefill_build);
}

/// Block `i` of a served prompt stands on the output of the block before, or on the
/// embedding, works with the weights of layer `i`, and writes keys and values to that
/// layer's caches.
pub proof fn prompt_blocks_use_their_own(
    c: Seq<Init>,
    w: ModelWeightsView,
    cfg: ModelConfig,
    cache_k: Seq<Tensor>,
    cache_v: Seq<Tensor>,
    prompt_len: u32,
    n: nat,
    i: int,
)
    requires
        prefill_servable(w, cfg, prompt_len),
        n <= w.blocks.len(),
        0 <= i < n,
    ensures
        ({
            let nodes = prefill_stack(c, w, cfg, cache_k, cache_v, prompt_len, n).tape.nodes;
            let at = blocks::PREFILL_NODES * i + 1;
            let bw = w.blocks[i];
            &&& nodes[at].inputs == seq![(NodeId((at - 1) as usize), 0usize)]
            &&& nodes[at].op->RmsNorm_0.weight == bw.norm_1
            &&& nodes[at + 1].op->Linear_0.weight == bw.qkv_proj
            &&& nodes[at + 4].op->CacheWrite_0.cache == cache_k[i]
            &&& nodes[at + 5].op->CacheWrite_0.cache == cache_v[i]
            &&& nodes[at + 7].op->Linear_0.weight == bw.out_proj
            &&& nodes[at + 9].op->RmsNorm_0.weight == bw.norm_2
            &&& nodes[at + 10].op->Linear_0.weight == bw.ffn_up
            &&& nodes[at + 12].op->Linear_0.weight == bw.ffn_down
        }),
    decreases n,
{
    let p = prefill_stack(c, w, cfg, cache_k, cache_v, prompt_len, (n - 1) as nat);
    let bw = w.blocks[n - 1];
    let (c1, specs) = blocks::prefill_build(
        p.ctx,
        bw,
        cache_k[n - 1],
        cache_v[n - 1],
        cfg,
        prompt_len,
    );
    lemma_prefill_stack(c, w, cfg, cache_k, cache_v, prompt_len, (n - 1) as nat);
    assert(blocks::full_fits(cfg, bw, prompt_len, 1));
    blocks::lemma_prefill_wired(p.ctx, bw, cache_k[n - 1], cache_v[n - 1], cfg, prompt_len);
    assert(blocks::PREFILL_NODES * n <= w.blocks.len() * blocks::PREFILL_NODES) by (nonlinear_arith)
        requires
            n <= w.blocks.len(),
    ;
    assert(blocks::PREFILL_NODES * (n - 1) + blocks::PREFILL_NODES == blocks::PREFILL_NODES * n)
        by (nonlinear_arith);
    assert(blocks::PREFILL_NODES * i <= blocks::PREFILL_NODES * (n - 1)) by (nonlinear_arith)
        requires
            i <= n - 1,
    ;
    let st = prefill_start(p, c1, (n - 1) as nat);
    assert(arch::startable(st, specs.len()));
    let e = arch::ext::<Prefill, PrefillOp>(st, specs, specs.len());
    let n0 = p.tape.nodes.len() as int;
    if i == n - 1 {
        lemma_prefill_ops(p.ctx, bw, cache_k[n - 1], cache_v[n - 1], cfg, prompt_len);
        let r0 = arch::lemma_ext_at::<Prefill, PrefillOp>(st, specs, 0);
        let r1 = arch::lemma_ext_at::<Prefill, PrefillOp>(st, specs, 1);
        let r4 = arch::lemma_ext_at::<Prefill, PrefillOp>(st, specs, 4);
        let r5 = arch::lemma_ext_at::<Prefill, PrefillOp>(st, specs, 5);
        let r7 = arch::lemma_ext_at::<Prefill, PrefillOp>(st, specs, 7);
        let r9 = arch::lemma_ext_at::<Prefill, PrefillOp>(st, specs, 9);
        let r10 = arch::lemma_ext_at::<Prefill, PrefillOp>(st, specs, 10);
        let r12 = arch::lemma_ext_at::<Prefill, PrefillOp>(st, specs, 12);
        assert(e.tape.nodes[n0].inputs =~= seq![(prefill_out((n - 1) as nat), 0usize)]);
    } else {
        prompt_blocks_use_their_own(
            c,
            w,
            cfg,
            cache_k,
            cache_v,
            prompt_len,
            (n - 1) as nat,
            i,
        );
        let at = blocks::PREFILL_NODES * i + 1;
        assert(blocks::PREFILL_NODES * i + blocks::PREFILL_NODES <= blocks::PREFILL_NODES * (n - 1))
            by (nonlinear_arith)
            requires
                i + 1 <= n - 1,
        ;
        arch::lemma_ext::<Prefill, PrefillOp>(st, specs, specs.len());
        assert(forall|j: int| 0 <= j < n0 ==> #[trigger] e.tape.nodes[j] == p.tape.nodes[j]);
    }
}

/// The weights and caches of a decode block's ops.
proof fn lemma_decode_ops(
    c: Seq<Init>,
    bw: BlockWeights,
    cache_k: Tensor,
    cache_v: Tensor,
    cfg: ModelConfig,
    max_context_len: u32,
)
    ensures
        ({
            let s = blocks::decode_build(c, bw, cache_k, cache_v, cfg, max_context_len).1;
            &&& s.len() == blocks::DECODE_NODES
            &&& s[0].inputs == seq![(Name::Input, 0usize)]
            &&& s[0].op matches DecodeOpView::RmsNorm(op) && op.weight == bw.norm_1
            &&& s[1].op matches DecodeOpView::Linear(op) && op.weight == bw.qkv_proj
            &&& s[10].op matches DecodeOpView::Linear(op) && op.weight == bw.out_proj
            &&& s[12].op matches DecodeOpView::RmsNorm(op) && op.weight == bw.norm_2
            &&& s[13].op matches DecodeOpView::Linear(op) && op.weight == bw.ffn_up
            &&& s[15].op matches DecodeOpView::Linear(op) && op.weight == bw.ffn_down
            &&& s[7].op matches DecodeOpView::CacheWrite(op) && op.cache == cache_k
            &&& s[8].op matches DecodeOpView::CacheWrite(op) && op.cache == cache_v
            &&& s[9].op matches DecodeOpView::CachedAttention(op) && op.cache_k == cache_k && op.cache_v == cache_v
        }),
{
    reveal(blocks::decode_build);
}

/// Block `i` of a served decode step stands on the output of the block before, or on
/// the embedding, works with the weights of layer `i`, writes its key and value to
/// that layer's caches, and attends to the same.
pub proof fn step_blocks_use_their_own(
    c: Seq<Init>,
    w: ModelWeightsView,
    cfg: ModelConfig,
    cache_k: Seq<Tensor>,
    cache_v: Seq<Tensor>,
    max_context_len: u32,
    n: nat,
    i: int,
)
    requires
        decode_servable(w, cfg, max_context_len),
        n <= w.blocks.len(),
        0 <= i < n,
    ensures
        ({
            let nodes = decode_stack(c, w, cfg, cache_k, cache_v, max_context_len, n).tape.nodes;
            let at = blocks::DECODE_NODES * i + 1;
            let bw = w.blocks[i];
            &&& nodes[at].inputs == seq![(NodeId((at - 1) as usize), 0usize)]
            &&& nodes[at].op->RmsNorm_0.weight == bw.norm_1
            &&& nodes[at + 1].op->Linear_0.weight == bw.qkv_proj
            &&& nodes[at + 7].op->CacheWrite_0.cache == cache_k[i]
            &&& nodes[at + 8].op->CacheWrite_0.cache == cache_v[i]
            &&& nodes[at + 9].op->CachedAttention_0.cache_k == cache_k[i]
            &&& nodes[at + 9].op->CachedAttention_0.cache_v == cache_v[i]
            &&& nodes[at + 10].op->Linear_0.weight == bw.out_proj
            &&& nodes[at + 12].op->RmsNorm_0.weight == bw.norm_2
            &&& nodes[at + 13].op->Linear_0.weight == bw.ffn_up
            &&& nodes[at + 15].op->Linear_0.weight == bw.ffn_down
        }),
    decreases n,
{
    let p = decode_stack(c, w, cfg, cache_k, cache_v, max_context_len, (n - 1) as nat);
    let bw = w.blocks[n - 1];
    let (c1, specs) = blocks::decode_build(
        p.ctx,
        bw,
        cache_k[n - 1],
        cache_v[n - 1],
        cfg,
        max_context_len,
    );
    lemma_decode_stack(c, w, cfg, cache_k, cache_v, max_context_len, (n - 1) as nat);
    assert(blocks::decode_fits(cfg, bw, max_context_len));
    blocks::lemma_decode_wired(p.ctx, bw, cache_k[n - 1], cache_v[n - 1], cfg, max_context_len);
    assert(blocks::DECODE_NODES * n <= w.blocks.len() * blocks::DECODE_NODES) by (nonlinear_arith)
        requires
            n <= w.blocks.len(),
    ;
    assert(blocks::DECODE_NODES * (n - 1) + blocks::DECODE_NODES == blocks::DECODE_NODES * n)
        by (nonlinear_arith);
    assert(blocks::DECODE_NODES * i <= blocks::DECODE_NODES * (n - 1)) by (nonlinear_arith)
        requires
            i <= n - 1,
    ;
    let st = decode_start(p, c1, (n - 1) as nat);
    assert(arch::startable(st, specs.len()));
    let e = arch::ext::<Decode, DecodeOp>(st, specs, specs.len());
    let n0 = p.tape.nodes.len() as int;
    if i == n - 1 {
        lemma_decode_ops(p.ctx, bw, cache_k[n - 1], cache_v[n - 1], cfg, max_context_len);
        let r0 = arch::lemma_ext_at::<Decode, DecodeOp>(st, specs, 0);
        let r1 = arch::lemma_ext_at::<Decode, DecodeOp>(st, specs, 1);
        let r7 = arch::lemma_ext_at::<Decode, DecodeOp>(st, specs, 7);
        let r8 = arch::lemma_ext_at::<Decode, DecodeOp>(st, specs, 8);
        let r9 = arch::lemma_ext_at::<Decode, DecodeOp>(st, specs, 9);
        let r10 = arch::lemma_ext_at::<Decode, DecodeOp>(st, specs, 10);
        let r12 = arch::lemma_ext_at::<Decode, DecodeOp>(st, specs, 12);
        let r13 = arch::lemma_ext_at::<Decode, DecodeOp>(st, specs, 13);
        let r15 = arch::lemma_ext_at::<Decode, DecodeOp>(st, specs, 15);
        assert(e.tape.nodes[n0].inputs =~= seq![(decode_out((n - 1) as nat), 0usize)]);
    } else {
        step_blocks_use_their_own(
            c,
            w,
            cfg,
            cache_k,
            cache_v,
            max_context_len,
            (n - 1) as nat,
            i,
        );
        let at = blocks::DECODE_NODES * i + 1;
        assert(blocks::DECODE_NODES * i + blocks::DECODE_NODES <= blocks::DECODE_NODES * (n - 1))
            by (nonlinear_arith)
            requires
                i + 1 <= n - 1,
        ;
        arch::lemma_ext::<Decode, DecodeOp>(st, specs, specs.len());
        assert(forall|j: int| 0 <= j < n0 ==> #[trigger] e.tape.nodes[j] == p.tape.nodes[j]);
    }
}

/// Behind its blocks a served pass norms the stream with the model's last norm and
/// multiplies it by the head's weight; the node of the logits is that product's.
pub proof fn served_passes_end_in_the_logits(
    c: Seq<Init>,
    w: ModelWeightsView,
    cfg: ModelConfig,
    cache_k: Seq<Tensor>,
    cache_v: Seq<Tensor>,
    prompt_len: u32,
    max_context_len: u32,
)
    requires
        prefill_servable(w, cfg, prompt_len),
        decode_servable(w, cfg, max_context_len),
    ensures
        ({
            let p = prefill_forward(c, w, cfg, cache_k, cache_v, prompt_len);
            let last = p.logits_id.0 as int;
            &&& last == p.tape.nodes.len() - 1
            &&& p.tape.nodes[last].op->Linear_0.weight == w.lm_head
            &&& p.tape.nodes[last].inputs == seq![(NodeId((last - 1) as usize), 0usize)]
            &&& p.tape.nodes[last - 1].op->RmsNorm_0.weight == w.final_norm
            &&& p.tape.nodes[last - 1].inputs == seq![(NodeId((last - 2) as usize), 0usize)]
            &&& p.tape.nodes[0].op->Embedding_0.table == w.embedding
            &&& p.tape.nodes[0].op->Embedding_0.tokens == p.tokens
        }),
        ({
            let p = decode_forward(c, w, cfg, cache_k, cache_v, max_context_len);
            let last = p.logits_id.0 as int;
            &&& last == p.tape.nodes.len() - 1
            &&& p.tape.nodes[last].op->Linear_0.weight == w.lm_head
            &&& p.tape.nodes[last].inputs == seq![(NodeId((last - 1) as usize), 0usize)]
            &&& p.tape.nodes[last - 1].op->RmsNorm_0.weight == w.final_norm
            &&& p.tape.nodes[last - 1].inputs == seq![(NodeId((last - 2) as usize), 0usize)]
            &&& p.tape.nodes[0].op->Embedding_0.table == w.embedding
            &&& p.tape.nodes[0].op->Embedding_0.tokens == p.tokens
        }),
{
    reveal(prefill_forward);
    reveal(decode_forward);
    let n = w.blocks.len();
    lemma_prefill_stack(c, w, cfg, cache_k, cache_v, prompt_len, n);
    lemma_decode_stack(c, w, cfg, cache_k, cache_v, max_context_len, n);
    lemma_prefill_first(c, w, cfg, cache_k, cache_v, prompt_len, n);
    lemma_decode_first(c, w, cfg, cache_k, cache_v, max_context_len, n);
    assert(blocks::PREFILL_NODES * n == n * blocks::PREFILL_NODES) by (nonlinear_arith);
    assert(blocks::DECODE_NODES * n == n * blocks::DECODE_NODES) by (nonlinear_arith);
}

proof fn lemma_prefill_first(
    c: Seq<Init>,
    w: ModelWeightsView,
    cfg: ModelConfig,
    cache_k: Seq<Tensor>,
    cache_v: Seq<Tensor>,
    prompt_len: u32,
    n: nat,
)
    requires
        prefill_servable(w, cfg, prompt_len),
        n <= w.blocks.len(),
    ensures
        ({
            let first = prefill_stack(c, w, cfg, cache_k, cache_v, prompt_len, n).tape.nodes[0];
            let emb = EmbeddingOp::build(c, w.embedding, prompt_len, cfg.vocab_size, cfg.dim).1;
            first.op->Embedding_0.table == w.embedding && first.op->Embedding_0.tokens
                == emb.tokens
        }),
    decreases n,
{
    if n > 0 {
        lemma_prefill_first(c, w, cfg, cache_k, cache_v, prompt_len, (n - 1) as nat);
        let p = prefill_stack(c, w, cfg, cache_k, cache_v, prompt_len, (n - 1) as nat);
        let bw = w.blocks[n - 1];
        let (c1, specs) = blocks::prefill_build(
            p.ctx,
            bw,
            cache_k[n - 1],
            cache_v[n - 1],
            cfg,
            prompt_len,
        );
        lemma_prefill_stack(c, w, cfg, cache_k, cache_v, prompt_len, (n - 1) as nat);
        assert(blocks::full_fits(cfg, bw, prompt_len, 1));
        blocks::lemma_prefill_wired(p.ctx, bw, cache_k[n - 1], cache_v[n - 1], cfg, prompt_len);
        let st = prefill_start(p, c1, (n - 1) as nat);
        assert(blocks::PREFILL_NODES * n <= w.blocks.len() * blocks::PREFILL_NODES)
            by (nonlinear_arith)
            requires
                n <= w.blocks.len(),
        ;
        assert(blocks::PREFILL_NODES * (n - 1) + blocks::PREFILL_NODES == blocks::PREFILL_NODES * n)
            by (nonlinear_arith);
        assert(arch::startable(st, specs.len()));
        arch::lemma_ext::<Prefill, PrefillOp>(st, specs, specs.len());
        let e = arch::ext::<Prefill, PrefillOp>(st, specs, specs.len());
        assert(e.tape.nodes[0] == p.tape.nodes[0]);
    }
}

proof fn lemma_decode_first(
    c: Seq<Init>,
    w: ModelWeightsView,
    cfg: ModelConfig,
    cache_k: Seq<Tensor>,
    cache_v: Seq<Tensor>,
    max_context_len: u32,
    n: nat,
)
    requires
        decode_servable(w, cfg, max_context_len),
        n <= w.blocks.len(),
    ensures
        ({
            let first = decode_stack(c, w, cfg, cache_k, cache_v, max_context_len, n).tape.nodes[0];
            let emb = EmbeddingOp::build(c, w.embedding, 1, cfg.vocab_size, cfg.dim).1;
            first.op->Embedding_0.table == w.embedding && first.op->Embedding_0.tokens
                == emb.tokens
        }),
    decreases n,
{
    if n > 0 {
        lemma_decode_first(c, w, cfg, cache_k, cache_v, max_context_len, (n - 1) as nat);
        let p = decode_stack(c, w, cfg, cache_k, cache_v, max_context_len, (n - 1) as nat);
        let bw = w.blocks[n - 1];
        let (c1, specs) = blocks::decode_build(
            p.ctx,
            bw,
            cache_k[n - 1],
            cache_v[n - 1],
            cfg,
            max_context_len,
        );
        lemma_decode_stack(c, w, cfg, cache_k, cache_v, max_context_len, (n - 1) as nat);
        assert(blocks::decode_fits(cfg, bw, max_context_len));
        blocks::lemma_decode_wired(p.ctx, bw, cache_k[n - 1], cache_v[n - 1], cfg, max_context_len);
        let st = decode_start(p, c1, (n - 1) as nat);
        assert(blocks::DECODE_NODES * n <= w.blocks.len() * blocks::DECODE_NODES)
            by (nonlinear_arith)
            requires
                n <= w.blocks.len(),
        ;
        assert(blocks::DECODE_NODES * (n - 1) + blocks::DECODE_NODES == blocks::DECODE_NODES * n)
            by (nonlinear_arith);
        assert(arch::startable(st, specs.len()));
        arch::lemma_ext::<Decode, DecodeOp>(st, specs, specs.len());
        let e = arch::ext::<Decode, DecodeOp>(st, specs, specs.len());
        assert(e.tape.nodes[0] == p.tape.nodes[0]);
    }
}

} // verus!
