//! An inference session: a prompt fills the cache, then one row at a time goes
//! through the layers on it.
use super::cache;
use super::cache::{Cache, CacheView};
use super::generation::SessionGeneration;
use super::inference_graphs;
use super::inference_graphs::{build_decode_layer, build_prefill_layer, DecodeScratch};
use super::kernels::emit;
use super::kernels::meta::{EmbeddingMeta, KernelMeta, MatMulMeta, Meta, NormMeta};
use super::kernels::GraphBuilder;
use super::weights::{BlockWeights, ModelWeights, ModelWeightsView};
use crate::config::ModelConfig;
use crate::device;
use crate::device::{ComputeGraph, Context, Init, NodeView, Tensor};
use vstd::prelude::*;

verus! {

/// The token that ends a generated text.
pub const EOS: u32 = 50256;

pub struct InferenceSession {
    pub weights: ModelWeights,
    pub cfg: ModelConfig,
    pub max_context_len: u32,
    pub cache: Option<Cache>,
    pub scratch: DecodeScratch,
    pub input_token_buf: Tensor,
}

/// The value of a cache that may be missing.
pub open spec fn cache_view(c: Option<Cache>) -> Option<CacheView> {
    match c {
        Some(c) => Some(c@),
        None => None,
    }
}

impl InferenceSession {
    /// The session's cache fits its model.
    pub open spec fn wf(self) -> bool {
        &&& self.weights@.cfg == self.cfg
        &&& self.weights@.blocks.len() == self.cfg.num_layers
        &&& self.cache matches Some(c) ==> {
            &&& c@.wf()
            &&& c@.num_layers == self.cfg.num_layers
            &&& c@.dim == self.cfg.dim
            &&& c@.max_context_len == self.max_context_len
        }
    }

    /// Everything but the cache is as in `other`.
    pub open spec fn same_model(self, other: Self) -> bool {
        &&& self.weights == other.weights
        &&& self.cfg == other.cfg
        &&& self.max_context_len == other.max_context_len
        &&& self.scratch == other.scratch
        &&& self.input_token_buf == other.input_token_buf
    }
}

// ---- prompt ----

/// The first `n` layers of a prompt pass, all on the buffer `hidden`.
pub open spec fn prefill_layers(
    c: Seq<Init>,
    g: Seq<NodeView>,
    bws: Seq<BlockWeights>,
    hidden: Tensor,
    k: Seq<Tensor>,
    v: Seq<Tensor>,
    rows: u32,
    cfg: ModelConfig,
    n: nat,
) -> (Seq<Init>, Seq<NodeView>)
    decreases n,
{
    if n == 0 {
        (c, g)
    } else {
        let (c1, g1) = prefill_layers(c, g, bws, hidden, k, v, rows, cfg, (n - 1) as nat);
        let (c2, nodes) = inference_graphs::prefill_layer(
            c1,
            bws[n - 1],
            hidden,
            k[n - 1],
            v[n - 1],
            rows,
            cfg,
        );
        (c2, g1 + nodes)
    }
}

/// What a prompt pass of `rows` rows builds.
#[verifier::ext_equal]
pub struct PromptBuild {
    pub ctx: Seq<Init>,
    pub graph: Seq<NodeView>,
    pub tokens: Tensor,
    pub logits: Tensor,
}

/// The prompt pass that starts in `c`: embedding, layers, final norm, head.
#[verifier::opaque]
pub open spec fn prompt_build(
    c: Seq<Init>,
    w: ModelWeightsView,
    cache: CacheView,
    rows: u32,
) -> PromptBuild {
    let cfg = w.cfg;
    let emb = EmbeddingMeta { vocab_size: cfg.vocab_size, dim: cfg.dim, seq_len: rows };
    let tokens = device::next_zeros(c, rows as int);
    let c1 = device::push_zeros(c, rows as int);
    let hidden = device::next_zeros(c1, rows * cfg.dim);
    let c2 = device::push_zeros(c1, rows * cfg.dim);
    let g1 = seq![
        emit::embedding_node(
            tokens,
            w.embedding,
            hidden,
            emb,
            device::next_meta(c2, emb.spec_meta()),
        ),
    ];
    let c3 = device::push_meta(c2, emb.spec_meta());
    let (c4, g2) = prefill_layers(
        c3,
        g1,
        w.blocks,
        hidden,
        cache.k,
        cache.v,
        rows,
        cfg,
        w.blocks.len(),
    );
    let final_out = device::next_zeros(c4, rows * cfg.dim);
    let c5 = device::push_zeros(c4, rows * cfg.dim);
    let norm = NormMeta { seq_len: rows, size: cfg.dim, eps: cfg.norm_eps };
    let g3 = g2.push(
        emit::rmsnorm_node(
            hidden,
            w.final_norm,
            final_out,
            norm,
            device::next_meta(c5, norm.spec_meta()),
        ),
    );
    let c6 = device::push_meta(c5, norm.spec_meta());
    let logits = device::next_zeros(c6, rows * cfg.vocab_size);
    let c7 = device::push_zeros(c6, rows * cfg.vocab_size);
    let lm = MatMulMeta { m: rows, n: cfg.vocab_size, k: cfg.dim };
    PromptBuild {
        ctx: device::push_meta(c7, lm.spec_meta()),
        graph: g3.push(
            emit::matmul_node(
                final_out,
                w.lm_head,
                logits,
                lm,
                device::next_meta(c7, lm.spec_meta()),
            ),
        ),
        tokens,
        logits,
    }
}

/// What runs a prompt: the graph, the buffer that takes the tokens, the logits
/// of every row, and where the last row's start and end.
pub struct PrefillPlan {
    pub graph: ComputeGraph,
    pub tokens: Tensor,
    pub logits: Tensor,
    pub start: u64,
    pub end: u64,
}

// ---- one row ----

/// The dispatches of the first `n` layers of a decode step that attends to `rows`
/// rows of the cache.
pub open spec fn decode_layers(
    g: Seq<NodeView>,
    bws: Seq<BlockWeights>,
    s: DecodeScratch,
    k: Seq<Tensor>,
    v: Seq<Tensor>,
    rows: u32,
    cfg: ModelConfig,
    n: nat,
) -> Seq<NodeView>
    decreases n,
{
    if n == 0 {
        g
    } else {
        decode_layers(g, bws, s, k, v, rows, cfg, (n - 1) as nat) + inference_graphs::decode_layer(
            bws[n - 1],
            s,
            k[n - 1],
            v[n - 1],
            rows,
            cfg,
        )
    }
}

/// The graph of a decode step at position `pos`: embedding, layers, final norm,
/// head, all on the scratch buffers. Attention spans the rows before `pos` and the
/// row of the step itself.
pub open spec fn step_graph(
    w: ModelWeightsView,
    s: DecodeScratch,
    token: Tensor,
    cache: CacheView,
    pos: u32,
) -> Seq<NodeView> {
    let cfg = w.cfg;
    let emb = EmbeddingMeta { vocab_size: cfg.vocab_size, dim: cfg.dim, seq_len: 1 };
    let g = seq![emit::embedding_node(token, w.embedding, s.hidden, emb, s.emb_meta)];
    decode_layers(g, w.blocks, s, cache.k, cache.v, (pos + 1) as u32, cfg, w.blocks.len()).push(
        emit::rmsnorm_node(
            s.hidden,
            w.final_norm,
            s.final_norm_out,
            NormMeta { seq_len: 1, size: cfg.dim, eps: cfg.norm_eps },
            s.norm_meta,
        ),
    ).push(
        emit::matmul_node(
            s.final_norm_out,
            w.lm_head,
            s.logits,
            MatMulMeta { m: 1, n: cfg.vocab_size, k: cfg.dim },
            s.lm_meta,
        ),
    )
}

/// What runs one row: the metas to overwrite, the token to write, the graph, and
/// the logits.
pub struct RowPlan {
    pub writes: Vec<(Tensor, Meta)>,
    pub token_buf: Tensor,
    pub token: u32,
    pub graph: ComputeGraph,
    pub logits: Tensor,
}

impl InferenceSession {
    pub fn new(ctx: &mut Context, weights: ModelWeights, max_context_len: u32) -> (r: Self)
        requires
            weights@.cfg.num_heads > 0,
            weights@.blocks.len() == weights@.cfg.num_layers,
            3 * weights@.cfg.dim <= u32::MAX,
            weights@.cfg.num_heads * max_context_len <= u32::MAX,
        ensures
            r.wf(),
            r.weights == weights,
            r.cfg == weights@.cfg,
            r.max_context_len == max_context_len,
            r.cache is None,
            ({
                let (c1, s) = inference_graphs::scratch_build(
                    old(ctx)@,
                    weights@.cfg,
                    max_context_len,
                );
                &&& r.scratch == s
                &&& r.input_token_buf == device::next_zeros(c1, 1)
                &&& final(ctx)@ == device::push_zeros(c1, 1)
            }),
    {
        let cfg = weights.cfg;
        let scratch = DecodeScratch::new(ctx, &cfg, max_context_len);
        let input_token_buf = ctx.zeros(1);
        Self { weights, cfg, max_context_len, cache: None, scratch, input_token_buf }
    }

    /// Attaches a cache that fits the model and hands back the one before.
    pub fn replace_cache(&mut self, new: Cache) -> (r: Option<Cache>)
        requires
            old(self).wf(),
            new@.wf(),
            new@.num_layers == old(self).cfg.num_layers,
            new@.dim == old(self).cfg.dim,
            new@.max_context_len == old(self).max_context_len,
        ensures
            final(self).wf(),
            final(self).same_model(*old(self)),
            final(self).cache == Some(new),
            r == old(self).cache,
    {
        let before = self.cache.take();
        self.cache = Some(new);
        before
    }

    /// Detaches the cache.
    pub fn take_cache(&mut self) -> (r: Option<Cache>)
        requires
            old(self).wf(),
        ensures
            final(self).wf(),
            final(self).same_model(*old(self)),
            final(self).cache is None,
            r == old(self).cache,
    {
        self.cache.take()
    }

    /// Runs a prompt on an empty cache and leaves its rows in it.
    pub fn prefill(&mut self, ctx: &mut Context, prompt_tokens: &Vec<u32>) -> (r: PrefillPlan)
        requires
            old(self).wf(),
            1 <= prompt_tokens@.len() <= old(self).max_context_len,
            old(self).cache matches Some(c) && c@.cur_len == 0,
            inference_graphs::layer_fits(old(self).cfg, prompt_tokens@.len() as u32),
            emit::flash_fits(
                inference_graphs::flash_over(old(self).cfg, prompt_tokens@.len() as u32),
            ),
            emit::matmul_fits(
                (MatMulMeta {
                    m: prompt_tokens@.len() as u32,
                    n: old(self).cfg.vocab_size,
                    k: old(self).cfg.dim,
                }),
            ),
            prompt_tokens@.len() * old(self).cfg.vocab_size <= u32::MAX,
        ensures
            final(self).wf(),
            final(self).same_model(*old(self)),
            cache_view(final(self).cache) == Some(
                (CacheView {
                    cur_len: prompt_tokens@.len() as u32,
                    ..old(self).cache->0@
                }),
            ),
            ({
                let p = prompt_build(
                    old(ctx)@,
                    old(self).weights@,
                    old(self).cache->0@,
                    prompt_tokens@.len() as u32,
                );
                &&& final(ctx)@ == p.ctx
                &&& r.graph@ == p.graph
                &&& r.tokens == p.tokens
                &&& r.logits == p.logits
            }),
            r.start == (prompt_tokens@.len() - 1) * old(self).cfg.vocab_size,
            r.end == prompt_tokens@.len() * old(self).cfg.vocab_size,
    {
        let ghost c = ctx@;
        let ghost w = self.weights@;
        let ghost cv = self.cache->0@;
        let cfg = self.cfg;
        let rows: u32 = prompt_tokens.len() as u32;
        let dim: u32 = cfg.dim;
        let vocab_size: u32 = cfg.vocab_size;
        proof {
            assert(0 <= rows * dim && 0 <= rows * vocab_size) by (nonlinear_arith);
        }
        let tokens = ctx.zeros(rows);
        let mut gb = GraphBuilder::prefill(ComputeGraph::new());
        let mut hidden = ctx.zeros(rows * dim);
        let ghost hidden0 = hidden;
        emit::embedding(
            ctx,
            &mut gb,
            tokens,
            self.weights.embedding,
            hidden,
            EmbeddingMeta { vocab_size, dim, seq_len: rows },
        );
        let ghost c3 = ctx@;
        let ghost g1 = gb.graph@;
        match &self.cache {
            Some(cache) => {
                let mut i: usize = 0;
                while i < self.weights.blocks.len()
                    invariant
                        i <= self.weights.blocks@.len(),
                        self.weights.blocks@ == w.blocks,
                        cache.k@ == cv.k,
                        cache.v@ == cv.v,
                        cv.k.len() == w.blocks.len(),
                        cv.v.len() == w.blocks.len(),
                        inference_graphs::layer_fits(cfg, rows),
                        emit::flash_fits(inference_graphs::flash_over(cfg, rows)),
                        hidden == hidden0,
                        (ctx@, gb.graph@) == prefill_layers(
                            c3,
                            g1,
                            w.blocks,
                            hidden0,
                            cv.k,
                            cv.v,
                            rows,
                            cfg,
                            i as nat,
                        ),
                    decreases self.weights.blocks@.len() - i,
                {
                    hidden = build_prefill_layer(
                        ctx,
                        &mut gb,
                        &self.weights.blocks[i],
                        hidden,
                        cache.k[i],
                        cache.v[i],
                        rows,
                        &cfg,
                    );
                    i = i + 1;
                }
            },
            None => {},
        }
        let final_out = ctx.zeros(rows * dim);
        emit::rmsnorm(
            ctx,
            &mut gb,
            hidden,
            self.weights.final_norm,
            final_out,
            NormMeta { seq_len: rows, size: dim, eps: cfg.norm_eps },
        );
        let logits = ctx.zeros(rows * vocab_size);
        emit::matmul(
            ctx,
            &mut gb,
            final_out,
            self.weights.lm_head,
            logits,
            MatMulMeta { m: rows, n: vocab_size, k: dim },
        );
        proof {
            reveal(prompt_build);
            let p = prompt_build(c, w, cv, rows);
            assert(g1 =~= seq![g1[0]]);
            assert(gb.graph@ =~= p.graph);
        }
        let n: u64 = rows as u64;
        let v: u64 = vocab_size as u64;
        proof {
            assert(0 <= (n - 1) * v <= n * v <= u64::MAX) by (nonlinear_arith)
                requires
                    1 <= n <= u32::MAX,
                    0 <= v <= u32::MAX,
            ;
        }
        match &mut self.cache {
            Some(cache) => {
                cache.cur_len = rows;
            },
            None => {},
        }
        PrefillPlan { graph: gb.graph, tokens, logits, start: (n - 1) * v, end: n * v }
    }

    /// Runs one token at the next free cache row, which it fills.
    pub fn decode_step(&mut self, token: u32) -> (r: RowPlan)
        requires
            old(self).wf(),
            old(self).cache matches Some(c) && c@.cur_len < old(self).max_context_len,
            inference_graphs::layer_fits(old(self).cfg, 1),
            old(self).max_context_len + 255 <= u32::MAX,
            emit::matmul_fits(
                (MatMulMeta { m: 1, n: old(self).cfg.vocab_size, k: old(self).cfg.dim }),
            ),
        ensures
            final(self).wf(),
            final(self).same_model(*old(self)),
            cache_view(final(self).cache) == Some(
                (CacheView {
                    cur_len: (old(self).cache->0@.cur_len + 1) as u32,
                    ..old(self).cache->0@
                }),
            ),
            ({
                let pos = old(self).cache->0@.cur_len;
                &&& r.writes@ == old(self).scratch.step_writes(pos, old(self).cfg)
                &&& r.graph@ == step_graph(
                    old(self).weights@,
                    old(self).scratch,
                    old(self).input_token_buf,
                    old(self).cache->0@,
                    pos,
                )
            }),
            r.token_buf == old(self).input_token_buf,
            r.token == token,
            r.logits == old(self).scratch.logits,
    {
        let ghost w = self.weights@;
        let ghost cv = self.cache->0@;
        let cfg = self.cfg;
        let dim: u32 = cfg.dim;
        let vocab_size: u32 = cfg.vocab_size;
        let pos: u32 = match &self.cache {
            Some(cache) => cache.cur_len,
            None => 0,
        };
        let writes = self.scratch.update_for_step(pos, &cfg);
        let mut gb = GraphBuilder::decode(ComputeGraph::new());
        emit::embedding_with(
            &mut gb,
            self.input_token_buf,
            self.weights.embedding,
            self.scratch.hidden,
            EmbeddingMeta { vocab_size, dim, seq_len: 1 },
            self.scratch.emb_meta,
        );
        let ghost g1 = gb.graph@;
        let ghost s = self.scratch;
        match &self.cache {
            Some(cache) => {
                let mut i: usize = 0;
                while i < self.weights.blocks.len()
                    invariant
                        i <= self.weights.blocks@.len(),
                        self.weights.blocks@ == w.blocks,
                        self.scratch == s,
                        cache.k@ == cv.k,
                        cache.v@ == cv.v,
                        cv.k.len() == w.blocks.len(),
                        cv.v.len() == w.blocks.len(),
                        inference_graphs::layer_fits(cfg, 1),
                        pos + 1 + 255 <= u32::MAX,
                        gb.graph@ == decode_layers(
                            g1,
                            w.blocks,
                            s,
                            cv.k,
                            cv.v,
                            (pos + 1) as u32,
                            cfg,
                            i as nat,
                        ),
                    decreases self.weights.blocks@.len() - i,
                {
                    build_decode_layer(
                        &mut gb,
                        &self.weights.blocks[i],
                        &self.scratch,
                        cache.k[i],
                        cache.v[i],
                        pos + 1,
                        &cfg,
                    );
                    i = i + 1;
                }
            },
            None => {},
        }
        emit::rmsnorm_with(
            &mut gb,
            self.scratch.hidden,
            self.weights.final_norm,
            self.scratch.final_norm_out,
            NormMeta { seq_len: 1, size: dim, eps: cfg.norm_eps },
            self.scratch.norm_meta,
        );
        emit::matmul_with(
            &mut gb,
            self.scratch.final_norm_out,
            self.weights.lm_head,
            self.scratch.logits,
            MatMulMeta { m: 1, n: vocab_size, k: dim },
            self.scratch.lm_meta,
        );
        proof {
            assert(g1 =~= seq![g1[0]]);
            assert(gb.graph@ =~= step_graph(w, s, self.input_token_buf, cv, pos));
        }
        match &mut self.cache {
            Some(cache) => {
                cache.cur_len = pos + 1;
            },
            None => {},
        }
        RowPlan {
            writes,
            token_buf: self.input_token_buf,
            token,
            graph: gb.graph,
            logits: self.scratch.logits,
        }
    }

    /// Starts a generation: a session without a cache gets an empty one. The
    /// steps that it asks for go through `prefill` and `decode_step`.
    pub fn generate(
        &mut self,
        ctx: &mut Context,
        prompt_tokens: Vec<u32>,
        max_new_tokens: usize,
    ) -> (r: SessionGeneration)
        requires
            old(self).wf(),
            prompt_tokens@.len() > 0,
            old(self).max_context_len * old(self).cfg.dim <= u32::MAX,
        ensures
            final(self).wf(),
            final(self).same_model(*old(self)),
            ({
                let (c1, empty) = cache::cache_build(
                    old(ctx)@,
                    old(self).cfg.num_layers,
                    old(self).cfg.dim,
                    old(self).max_context_len,
                );
                match old(self).cache {
                    Some(c) => final(self).cache == old(self).cache && final(ctx)@ == old(ctx)@,
                    None => cache_view(final(self).cache) == Some(empty) && final(ctx)@ == c1,
                }
            }),
            r.wf(),
            r.prompt == prompt_tokens,
            r.resumed == (old(self).cache matches Some(c) && c@.cur_len != 0),
            r.fed == 0,
            r.generated@.len() == 0,
            !r.pending,
            r.eos == EOS,
            r.max_new_tokens == max_new_tokens,
    {
        if self.cache.is_none() {
            self.cache = Some(
                Cache::new(ctx, self.cfg.num_layers, self.cfg.dim, self.max_context_len),
            );
        }
        let cur_len: u32 = match &self.cache {
            Some(c) => c.cur_len,
            None => 0,
        };
        SessionGeneration::start(prompt_tokens, cur_len, EOS, max_new_tokens)
    }
}

/// Every layer of the decode step at position `pos` scores all the rows that the
/// step's meta counts, those before `pos` and the step's own.
pub proof fn step_grid_covers_cache(
    w: ModelWeightsView,
    s: DecodeScratch,
    token: Tensor,
    cache: CacheView,
    pos: u32,
    l: int,
)
    requires
        pos + 256 <= u32::MAX,
        0 <= l < w.blocks.len(),
    ensures
        step_graph(w, s, token, cache, pos).contains(score_node(s, cache, w.cfg, pos, l)),
        score_node(s, cache, w.cfg, pos, l).grid[0] * 256 >= pos + 1,
        s.step_writes(pos, w.cfg).contains(
            (s.attn_meta, inference_graphs::attn_over(w.cfg, (pos + 1) as u32).spec_meta()),
        ),
{
    let cfg = w.cfg;
    let emb = EmbeddingMeta { vocab_size: cfg.vocab_size, dim: cfg.dim, seq_len: 1 };
    let g = seq![emit::embedding_node(token, w.embedding, s.hidden, emb, s.emb_meta)];
    let rows = (pos + 1) as u32;
    let n = w.blocks.len();
    let layers = decode_layers(g, w.blocks, s, cache.k, cache.v, rows, cfg, n);
    lemma_layer_scores(g, w.blocks, s, cache, pos, cfg, n, l);
    let i = choose|i: int|
        0 <= i < layers.len() && layers[i] == score_node(s, cache, cfg, pos, l);
    assert(step_graph(w, s, token, cache, pos)[i] == layers[i]);
    assert(s.step_writes(pos, cfg)[2] == (
        s.attn_meta,
        inference_graphs::attn_over(cfg, rows).spec_meta(),
    ));
}

/// The dispatch that scores layer `l` of the decode step at position `pos`.
pub open spec fn score_node(
    s: DecodeScratch,
    cache: CacheView,
    cfg: ModelConfig,
    pos: u32,
    l: int,
) -> NodeView {
    emit::attn_qk_cached_node(
        s.q_buf,
        cache.k[l],
        s.scores,
        cfg.num_heads,
        (pos + 1) as u32,
        s.attn_meta,
    )
}

proof fn lemma_layer_scores(
    g: Seq<NodeView>,
    bws: Seq<BlockWeights>,
    s: DecodeScratch,
    cache: CacheView,
    pos: u32,
    cfg: ModelConfig,
    n: nat,
    l: int,
)
    requires
        0 <= l < n,
    ensures
        decode_layers(g, bws, s, cache.k, cache.v, (pos + 1) as u32, cfg, n).contains(
            score_node(s, cache, cfg, pos, l),
        ),
    decreases n,
{
    let rows = (pos + 1) as u32;
    let m = (n - 1) as nat;
    let all = decode_layers(g, bws, s, cache.k, cache.v, rows, cfg, n);
    let before = decode_layers(g, bws, s, cache.k, cache.v, rows, cfg, m);
    let layer = inference_graphs::decode_layer(
        bws[m as int],
        s,
        cache.k[m as int],
        cache.v[m as int],
        rows,
        cfg,
    );
    assert(all == before + layer);
    if l == m {
        let pre = inference_graphs::pre_attn_nodes(
            bws[m as int],
            inference_graphs::scratch_pre(s),
            1,
            cfg,
        );
        assert(layer[pre.len() as int + 4] == score_node(s, cache, cfg, pos, l));
        assert(all[before.len() as int + pre.len() as int + 4] == score_node(s, cache, cfg, pos, l));
    } else {
        lemma_layer_scores(g, bws, s, cache, pos, cfg, m, l);
        let i = choose|i: int|
            0 <= i < before.len() && before[i] == score_node(s, cache, cfg, pos, l);
        assert(all[i] == before[i]);
    }
}

} // verus!
