//! What the single-sequence trainer's model computes: the loss of the logits that the
//! blocks, one behind the other, make of the embedded tokens.
use super::akasha_model::{self, stack, stack_forward};
use super::heads_block_laws::{self, attended_by_heads};
use super::kernels::meta::{CrossEntropyMeta, EmbeddingMeta, KernelMeta};
use super::layers;
use super::meaning::{self, Memory, Term};
use super::pipeline;
use super::trainer_block_laws::{
    lemma_linear_extends, lemma_linear_step, lemma_norm_extends, lemma_norm_step,
    lemma_prefix_trans, trainer_norm, trainer_stream, weights_before,
};
use super::trainer_laws;
use super::transformer;
use super::weights::BlockWeights;
use crate::config::ModelConfig;
use crate::device::{self, Init, Scalar, Tensor};
use vstd::prelude::*;

verus! {

/// The stream behind the first `n` blocks, `h` in front of them. `intos` is what the
/// blocks' attentions found in their output buffers, all of which they overwrite.
pub open spec fn trainer_flow(
    cfg: ModelConfig,
    bws: Seq<BlockWeights>,
    mem: Memory,
    h: Term,
    intos: Seq<Term>,
    n: nat,
) -> Term
    decreases n,
{
    if n == 0 {
        h
    } else {
        let x = trainer_flow(cfg, bws, mem, h, intos, (n - 1) as nat);
        trainer_stream(
            cfg,
            cfg.seq_len,
            bws[n - 1],
            mem,
            x,
            attended_by_heads(cfg, bws[n - 1], mem, x, intos[n - 1]),
        )
    }
}

proof fn lemma_flow_prefix(
    cfg: ModelConfig,
    bws: Seq<BlockWeights>,
    mem: Memory,
    h: Term,
    intos: Seq<Term>,
    last: Term,
    n: nat,
)
    requires
        n <= intos.len(),
    ensures
        trainer_flow(cfg, bws, mem, h, intos.push(last), n) == trainer_flow(
            cfg,
            bws,
            mem,
            h,
            intos,
            n,
        ),
    decreases n,
{
    if n > 0 {
        lemma_flow_prefix(cfg, bws, mem, h, intos, last, (n - 1) as nat);
        assert(intos.push(last)[n - 1] == intos[n - 1]);
    }
}

/// The formulas of a block read its weights alone.
proof fn lemma_same_weights(
    cfg: ModelConfig,
    bw: BlockWeights,
    a: Memory,
    b: Memory,
    x: Term,
    into: Term,
)
    requires
        a[bw.norm_1] == b[bw.norm_1] && a[bw.qkv_proj] == b[bw.qkv_proj],
        a[bw.out_proj] == b[bw.out_proj] && a[bw.norm_2] == b[bw.norm_2],
        a[bw.ffn_up] == b[bw.ffn_up] && a[bw.ffn_down] == b[bw.ffn_down],
    ensures
        attended_by_heads(cfg, bw, a, x, into) == attended_by_heads(cfg, bw, b, x, into),
        trainer_stream(cfg, cfg.seq_len, bw, a, x, into) == trainer_stream(
            cfg,
            cfg.seq_len,
            bw,
            b,
            x,
            into,
        ),
{
}

/// All weights of the blocks lie before `n`, and `x` is none of them.
pub open spec fn stack_weights_before(bws: Seq<BlockWeights>, x: Tensor, n: nat) -> bool {
    forall|i: int| 0 <= i < bws.len() ==> weights_before(#[trigger] bws[i], x, n)
}

proof fn lemma_stack_extends(
    c: Seq<Init>,
    e: Seq<Init>,
    cfg: ModelConfig,
    bws: Seq<BlockWeights>,
    x: Tensor,
    n: nat,
)
    ensures
        ({
            let (d, vs, cur) = stack(c, e, cfg, bws, x, n);
            &&& c.is_prefix_of(d)
            &&& vs.len() == n
            &&& cur == x
        }),
    decreases n,
{
    if n > 0 {
        lemma_stack_extends(c, e, cfg, bws, x, (n - 1) as nat);
        let (p, vs, cur) = stack(c, e, cfg, bws, x, (n - 1) as nat);
        let d = cfg.seq_len * cfg.dim;
        let dy = transformer::grad_buf(e, n as int, d);
        let dx = transformer::grad_buf(e, n - 1, d);
        heads_block_laws::lemma_block_extends(p, cfg, bws[n - 1], cur, dy, dx);
        lemma_prefix_trans(c, p, pipeline::block_build(p, cfg, bws[n - 1], cur, dy, dx).0);
    }
}

proof fn lemma_stack_grows(
    c: Seq<Init>,
    e: Seq<Init>,
    cfg: ModelConfig,
    bws: Seq<BlockWeights>,
    x: Tensor,
    n: nat,
    m: nat,
)
    requires
        n <= m,
    ensures
        stack(c, e, cfg, bws, x, n).0.is_prefix_of(stack(c, e, cfg, bws, x, m).0),
        forall|i: int|
            0 <= i < n ==> #[trigger] stack(c, e, cfg, bws, x, m).1[i] == stack(
                c,
                e,
                cfg,
                bws,
                x,
                n,
            ).1[i],
    decreases m,
{
    if n < m {
        lemma_stack_grows(c, e, cfg, bws, x, n, (m - 1) as nat);
        lemma_stack_extends(c, e, cfg, bws, x, (m - 1) as nat);
        let (p, vs, cur) = stack(c, e, cfg, bws, x, (m - 1) as nat);
        let d = cfg.seq_len * cfg.dim;
        let dy = transformer::grad_buf(e, m as int, d);
        let dx = transformer::grad_buf(e, m - 1, d);
        heads_block_laws::lemma_block_extends(p, cfg, bws[m - 1], cur, dy, dx);
        lemma_prefix_trans(
            stack(c, e, cfg, bws, x, n).0,
            p,
            stack(c, e, cfg, bws, x, m).0,
        );
    }
}

/// The blocks of a stack pass the stream on, one to the next.
proof fn lemma_flows(
    full: Seq<Init>,
    c: Seq<Init>,
    e: Seq<Init>,
    cfg: ModelConfig,
    bws: Seq<BlockWeights>,
    x: Tensor,
    mem: Memory,
    n: nat,
) -> (intos: Seq<Term>)
    requires
        pipeline::block_fits(cfg),
        n <= bws.len(),
        stack(c, e, cfg, bws, x, bws.len()).0.is_prefix_of(full),
        full.len() <= usize::MAX,
        x.id < c.len(),
        stack_weights_before(bws, x, c.len()),
        e.len() + bws.len() < c.len(),
    ensures
        ({
            let vs = stack(c, e, cfg, bws, x, bws.len()).1;
            let after = meaning::run(full, stack_forward(vs, n), mem);
            &&& intos.len() == n
            &&& after[x] == trainer_flow(cfg, bws, mem, mem[x], intos, n)
            &&& forall|t: Tensor|
                (t.id < c.len() && t != x) || t.id >= stack(c, e, cfg, bws, x, bws.len()).0.len()
                    ==> #[trigger] after[t] == mem[t]
        }),
    decreases n,
{
    if n == 0 {
        Seq::empty()
    } else {
        let k = (n - 1) as nat;
        let prev = lemma_flows(full, c, e, cfg, bws, x, mem, k);
        let all = bws.len();
        let vs = stack(c, e, cfg, bws, x, all).1;
        let before = meaning::run(full, stack_forward(vs, k), mem);
        let (p, _, cur) = stack(c, e, cfg, bws, x, k);
        let d = cfg.seq_len * cfg.dim;
        let dy = transformer::grad_buf(e, n as int, d);
        let dx = transformer::grad_buf(e, n - 1, d);
        let bw = bws[n - 1];
        let (q, b) = pipeline::block_build(p, cfg, bw, cur, dy, dx);
        lemma_stack_extends(c, e, cfg, bws, x, k);
        lemma_stack_extends(c, e, cfg, bws, x, n);
        lemma_stack_grows(c, e, cfg, bws, x, n, all);
        lemma_prefix_trans(q, stack(c, e, cfg, bws, x, all).0, full);
        assert(vs[n - 1] == b);
        assert(weights_before(bw, x, c.len()));
        heads_block_laws::heads_block_is_a_block(p, full, cfg, bw, x, dy, dx, before);
        meaning::run_is_sequential(
            full,
            stack_forward(vs, k),
            transformer::block_forward(b),
            mem,
        );
        let into = before[b.attention.out_buffer];
        let intos = prev.push(into);
        lemma_flow_prefix(cfg, bws, mem, mem[x], prev, into, k);
        lemma_same_weights(cfg, bw, before, mem, before[x], into);
        lemma_same_weights(
            cfg,
            bw,
            before,
            mem,
            before[x],
            attended_by_heads(cfg, bw, mem, before[x], into),
        );
        intos
    }
}

/// The two memories agree on the weights of a block.
spec fn same_weights(bw: BlockWeights, a: Memory, b: Memory) -> bool {
    &&& a[bw.norm_1] == b[bw.norm_1] && a[bw.qkv_proj] == b[bw.qkv_proj]
    &&& a[bw.out_proj] == b[bw.out_proj] && a[bw.norm_2] == b[bw.norm_2]
    &&& a[bw.ffn_up] == b[bw.ffn_up] && a[bw.ffn_down] == b[bw.ffn_down]
}

proof fn lemma_flow_same(
    cfg: ModelConfig,
    bws: Seq<BlockWeights>,
    a: Memory,
    b: Memory,
    h: Term,
    intos: Seq<Term>,
    n: nat,
)
    requires
        n <= bws.len(),
        forall|i: int| 0 <= i < bws.len() ==> same_weights(#[trigger] bws[i], a, b),
    ensures
        trainer_flow(cfg, bws, a, h, intos, n) == trainer_flow(cfg, bws, b, h, intos, n),
    decreases n,
{
    if n > 0 {
        lemma_flow_same(cfg, bws, a, b, h, intos, (n - 1) as nat);
        let bw = bws[n - 1];
        let x = trainer_flow(cfg, bws, a, h, intos, (n - 1) as nat);
        assert(same_weights(bw, a, b));
        lemma_same_weights(cfg, bw, a, b, x, intos[n - 1]);
        lemma_same_weights(cfg, bw, a, b, x, attended_by_heads(cfg, bw, b, x, intos[n - 1]));
    }
}

/// What has been made before each part of a model that starts in `c`.
struct ModelStages {
    edges: Seq<Init>,
    table: Seq<Init>,
    blocks: Seq<Init>,
    stacked: Seq<Init>,
    normed: Seq<Init>,
    projected: Seq<Init>,
    headed: Seq<Init>,
    loss: Seq<Init>,
    end: Seq<Init>,
}

spec fn model_stages(
    c: Seq<Init>,
    cfg: ModelConfig,
    bws: Seq<BlockWeights>,
    std: Scalar,
) -> ModelStages {
    let rows = cfg.seq_len;
    let d = cfg.seq_len * cfg.dim;
    let zero = Scalar::Dec { digits: 0, places: 0 };
    let one = Scalar::Dec { digits: 1, places: 0 };
    let wide = Init::Normal((cfg.vocab_size * cfg.dim) as u32, zero, std);
    let edges = device::push_zeros(device::push_zeros(c, rows * cfg.vocab_size), d);
    let table = akasha_model::zeros_ctx(edges, d, (cfg.num_layers + 1) as nat).push(wide);
    let blocks = layers::embedding_ctx(table, cfg.vocab_size, cfg.dim, rows);
    let x = device::next_zeros(device::push_zeros(table, cfg.vocab_size * cfg.dim), rows * cfg.dim);
    let stacked = stack(blocks, edges, cfg, bws, x, cfg.num_layers as nat).0;
    let normed = stacked.push(Init::Normal(cfg.dim, one, Scalar::Dec { digits: 2, places: 2 }));
    let projected = layers::rmsnorm_ctx(normed, cfg.dim, rows);
    let headed = projected.push(wide);
    let loss = layers::linear_ctx(headed, cfg.dim, cfg.vocab_size, rows);
    let end = layers::cross_entropy_ctx(loss, cfg.vocab_size, rows);
    ModelStages { edges, table, blocks, stacked, normed, projected, headed, loss, end }
}

proof fn lemma_model_parts(
    c: Seq<Init>,
    cfg: ModelConfig,
    bws: Seq<BlockWeights>,
    std: Scalar,
    tokens: Tensor,
)
    requires
        model_stages(c, cfg, bws, std).end.len() <= usize::MAX,
    ensures
        ({
            let (end, m) = akasha_model::model_build(c, cfg, bws, std, tokens);
            let s = model_stages(c, cfg, bws, std);
            let rows = cfg.seq_len;
            let d = cfg.seq_len * cfg.dim;
            let n = cfg.num_layers as nat;
            let x = m.embedding.out_buffer;
            let g_in = device::next_zeros(device::push_zeros(c, rows * cfg.vocab_size), d);
            &&& end == s.end
            &&& m.embedding == layers::embedding_view(
                s.table,
                cfg.vocab_size,
                cfg.dim,
                rows,
                m.embedding.table,
                tokens,
                transformer::grad_buf(s.edges, 0, d),
            )
            &&& m.embedding.table.id == s.table.len() - 1
            &&& x.id == s.table.len() + 1
            &&& m.layers == stack(s.blocks, s.edges, cfg, bws, x, n).1
            &&& s.stacked == stack(s.blocks, s.edges, cfg, bws, x, n).0
            &&& m.final_norm.weight.id == s.stacked.len()
            &&& m.final_norm == layers::rmsnorm_view(
                s.normed,
                cfg.dim,
                rows,
                m.final_norm.weight,
                x,
                g_in,
                transformer::grad_buf(s.edges, n as int, d),
            )
            &&& m.lm_head.weight.id == s.projected.len()
            &&& m.lm_head == layers::linear_view(
                s.headed,
                cfg.dim,
                cfg.vocab_size,
                rows,
                m.lm_head.weight,
                m.final_norm.out_buffer,
                m.grad_logits,
                g_in,
            )
            &&& m.grad_logits.id == c.len()
            &&& m.cross_entropy == layers::cross_entropy_view(
                s.loss,
                cfg.vocab_size,
                rows,
                m.lm_head.out_buffer,
                m.grad_logits,
            )
            &&& m.fused_forward_graph == m.embedding.forward_graph + stack_forward(m.layers, n)
                + m.final_norm.forward_graph + m.lm_head.forward_graph
                + m.cross_entropy.forward_graph
        }),
{
    reveal(akasha_model::model_build);
    let s = model_stages(c, cfg, bws, std);
    lemma_model_extends(c, cfg, bws, std);
    let x = device::next_zeros(
        device::push_zeros(s.table, cfg.vocab_size * cfg.dim),
        cfg.seq_len * cfg.dim,
    );
    lemma_stack_extends(s.blocks, s.edges, cfg, bws, x, cfg.num_layers as nat);
}

proof fn lemma_model_extends(c: Seq<Init>, cfg: ModelConfig, bws: Seq<BlockWeights>, std: Scalar)
    ensures
        ({
            let s = model_stages(c, cfg, bws, std);
            &&& s.edges.len() == c.len() + 2
            &&& s.table.len() == s.edges.len() + cfg.num_layers + 2
            &&& s.blocks.len() == s.table.len() + 4
            &&& s.blocks.len() <= s.stacked.len()
            &&& s.normed.len() == s.stacked.len() + 1
            &&& s.projected.len() == s.normed.len() + 5
            &&& s.headed.len() == s.projected.len() + 1
            &&& s.loss.len() == s.headed.len() + 5
            &&& s.end.len() == s.loss.len() + 6
            &&& s.blocks.is_prefix_of(s.end)
            &&& s.stacked.is_prefix_of(s.end)
            &&& s.projected.is_prefix_of(s.end)
            &&& s.loss.is_prefix_of(s.end)
        }),
{
    let s = model_stages(c, cfg, bws, std);
    let rows = cfg.seq_len;
    let x = device::next_zeros(
        device::push_zeros(s.table, cfg.vocab_size * cfg.dim),
        cfg.seq_len * cfg.dim,
    );
    akasha_model::lemma_zeros_ctx_len(
        s.edges,
        cfg.seq_len * cfg.dim,
        (cfg.num_layers + 1) as nat,
    );
    lemma_stack_extends(s.blocks, s.edges, cfg, bws, x, cfg.num_layers as nat);
    lemma_norm_extends(s.normed, cfg.dim, rows);
    lemma_linear_extends(s.headed, cfg.dim, cfg.vocab_size, rows);
    assert(s.loss.is_prefix_of(s.end));
    assert(s.projected.is_prefix_of(s.headed));
    lemma_prefix_trans(s.projected, s.headed, s.loss);
    lemma_prefix_trans(s.projected, s.loss, s.end);
    assert(s.stacked.is_prefix_of(s.normed));
    lemma_prefix_trans(s.stacked, s.normed, s.projected);
    lemma_prefix_trans(s.stacked, s.projected, s.end);
    lemma_prefix_trans(s.blocks, s.stacked, s.end);
}

proof fn lemma_loss_step(
    c: Seq<Init>,
    full: Seq<Init>,
    vocab: u32,
    rows: u32,
    logits: Tensor,
    dl: Tensor,
    m: Memory,
)
    requires
        layers::cross_entropy_ctx(c, vocab, rows).is_prefix_of(full),
        full.len() <= usize::MAX,
        logits.id < c.len(),
    ensures
        ({
            let l = layers::cross_entropy_view(c, vocab, rows, logits, dl);
            let first = meaning::run(full, l.forward_graph, m);
            let shape = CrossEntropyMeta { vocab_size: vocab, num_rows: rows };
            &&& first[l.probs] == meaning::probs(shape, m[logits])
            &&& first[l.losses] == meaning::losses(shape, m[logits], m[l.target_tokens])
            &&& first[logits] == m[logits]
            &&& l.target_tokens.id == c.len()
        }),
{
    let own = layers::cross_entropy_ctx(c, vocab, rows);
    let l = layers::cross_entropy_view(c, vocab, rows, logits, dl);
    let n = c.len() as int;
    let shape = CrossEntropyMeta { vocab_size: vocab, num_rows: rows };
    assert(own.len() == n + 6);
    assert(l.target_tokens.id == n && l.probs.id == n + 1 && l.losses.id == n + 2);
    assert(own[n + 4] == Init::Meta(shape.spec_meta()));
    trainer_laws::lemma_prefix_at(own, full, n + 4);
    assert(l.forward_graph =~= seq![l.forward_graph[0]]);
    meaning::lemma_run_one(full, l.forward_graph[0], m);
}

/// A forward pass of the model leaves the logits in the head's output: the embedded
/// tokens, through all blocks in order, normed and multiplied by the head's weight. The
/// loss layer then leaves their probabilities and the loss of every row.
pub proof fn trainer_model_computes_losses(
    c: Seq<Init>,
    full: Seq<Init>,
    cfg: ModelConfig,
    bws: Seq<BlockWeights>,
    std: Scalar,
    tokens: Tensor,
    mem: Memory,
) -> (intos: Seq<Term>)
    requires
        akasha_model::model_fits(cfg),
        bws.len() == cfg.num_layers,
        akasha_model::model_build(c, cfg, bws, std, tokens).0.is_prefix_of(full),
        full.len() <= usize::MAX,
        tokens.id < c.len(),
        forall|i: int| 0 <= i < bws.len() ==> weights_before(#[trigger] bws[i], tokens, c.len()),
    ensures
        ({
            let m = akasha_model::model_build(c, cfg, bws, std, tokens).1;
            let after = meaning::run(full, m.fused_forward_graph, mem);
            let (rows, dim, vocab) = (cfg.seq_len, cfg.dim, cfg.vocab_size);
            let h = meaning::lookup(
                EmbeddingMeta { vocab_size: vocab, dim, seq_len: rows },
                mem[tokens],
                mem[m.embedding.table],
            );
            let logits = meaning::product(
                rows as int,
                dim as int,
                vocab as int,
                trainer_norm(
                    cfg,
                    rows,
                    trainer_flow(cfg, bws, mem, h, intos, bws.len()),
                    mem[m.final_norm.weight],
                ),
                mem[m.lm_head.weight],
            );
            let shape = CrossEntropyMeta { vocab_size: vocab, num_rows: rows };
            &&& intos.len() == bws.len()
            &&& after[m.lm_head.out_buffer] == logits
            &&& after[m.cross_entropy.probs] == meaning::probs(shape, logits)
            &&& after[m.cross_entropy.losses] == meaning::losses(
                shape,
                logits,
                mem[m.cross_entropy.target_tokens],
            )
        }),
{
    let m = akasha_model::model_build(c, cfg, bws, std, tokens).1;
    let s = model_stages(c, cfg, bws, std);
    lemma_model_end(c, cfg, bws, std, tokens);
    let n = cfg.num_layers as nat;
    let g1 = m.embedding.forward_graph;
    let g2 = g1 + stack_forward(m.layers, n);
    let g3 = g2 + m.final_norm.forward_graph;
    let g4 = g3 + m.lm_head.forward_graph;
    let m1 = meaning::run(full, g1, mem);
    let m2 = meaning::run(full, g2, mem);
    let m3 = meaning::run(full, g3, mem);
    let m4 = meaning::run(full, g4, mem);
    assert(m.fused_forward_graph == g4 + m.cross_entropy.forward_graph) by {
        lemma_model_extends(c, cfg, bws, std);
        lemma_model_parts(c, cfg, bws, std, tokens);
    }
    meaning::run_is_sequential(full, g1, stack_forward(m.layers, n), mem);
    meaning::run_is_sequential(full, g2, m.final_norm.forward_graph, mem);
    meaning::run_is_sequential(full, g3, m.lm_head.forward_graph, mem);
    meaning::run_is_sequential(full, g4, m.cross_entropy.forward_graph, mem);
    let intos = lemma_stream(c, full, cfg, bws, std, tokens, mem);
    lemma_ends(c, full, cfg, bws, std, tokens, m2, m3, m4);
    intos
}

/// Embedding and blocks.
proof fn lemma_stream(
    c: Seq<Init>,
    full: Seq<Init>,
    cfg: ModelConfig,
    bws: Seq<BlockWeights>,
    std: Scalar,
    tokens: Tensor,
    mem: Memory,
) -> (intos: Seq<Term>)
    requires
        akasha_model::model_fits(cfg),
        bws.len() == cfg.num_layers,
        model_stages(c, cfg, bws, std).end.is_prefix_of(full),
        full.len() <= usize::MAX,
        tokens.id < c.len(),
        forall|i: int| 0 <= i < bws.len() ==> weights_before(#[trigger] bws[i], tokens, c.len()),
    ensures
        ({
            let m = akasha_model::model_build(c, cfg, bws, std, tokens).1;
            let s = model_stages(c, cfg, bws, std);
            let m2 = meaning::run(
                full,
                stack_forward(m.layers, cfg.num_layers as nat),
                meaning::run(full, m.embedding.forward_graph, mem),
            );
            let h = meaning::lookup(
                EmbeddingMeta { vocab_size: cfg.vocab_size, dim: cfg.dim, seq_len: cfg.seq_len },
                mem[tokens],
                mem[m.embedding.table],
            );
            &&& intos.len() == bws.len()
            &&& m2[m.embedding.out_buffer] == trainer_flow(cfg, bws, mem, h, intos, bws.len())
            &&& forall|t: Tensor| t.id >= s.stacked.len() ==> #[trigger] m2[t] == mem[t]
        }),
{
    let m = akasha_model::model_build(c, cfg, bws, std, tokens).1;
    let s = model_stages(c, cfg, bws, std);
    lemma_model_extends(c, cfg, bws, std);
    lemma_model_parts(c, cfg, bws, std, tokens);
    let x = m.embedding.out_buffer;
    let n = cfg.num_layers as nat;
    let m1 = meaning::run(full, m.embedding.forward_graph, mem);
    lemma_prefix_trans(s.blocks, s.end, full);
    lemma_prefix_trans(s.stacked, s.end, full);
    lemma_embedding_step(c, full, cfg, bws, std, tokens, mem);
    assert forall|i: int| 0 <= i < bws.len() implies weights_before(
        #[trigger] bws[i],
        x,
        s.blocks.len(),
    ) by {
        assert(weights_before(bws[i], tokens, c.len()));
    }
    let intos = lemma_flows(full, s.blocks, s.edges, cfg, bws, x, m1, n);
    assert forall|i: int| 0 <= i < bws.len() implies same_weights(#[trigger] bws[i], m1, mem) by {
        assert(weights_before(bws[i], tokens, c.len()));
    }
    lemma_flow_same(cfg, bws, m1, mem, m1[x], intos, n);
    intos
}

/// Norm, head and loss.
proof fn lemma_ends(
    c: Seq<Init>,
    full: Seq<Init>,
    cfg: ModelConfig,
    bws: Seq<BlockWeights>,
    std: Scalar,
    tokens: Tensor,
    m2: Memory,
    m3: Memory,
    m4: Memory,
)
    requires
        akasha_model::model_fits(cfg),
        model_stages(c, cfg, bws, std).end.is_prefix_of(full),
        full.len() <= usize::MAX,
        ({
            let m = akasha_model::model_build(c, cfg, bws, std, tokens).1;
            &&& m3 == meaning::run(full, m.final_norm.forward_graph, m2)
            &&& m4 == meaning::run(full, m.lm_head.forward_graph, m3)
        }),
    ensures
        ({
            let m = akasha_model::model_build(c, cfg, bws, std, tokens).1;
            let s = model_stages(c, cfg, bws, std);
            let after = meaning::run(full, m.cross_entropy.forward_graph, m4);
            let (rows, dim, vocab) = (cfg.seq_len, cfg.dim, cfg.vocab_size);
            let shape = CrossEntropyMeta { vocab_size: vocab, num_rows: rows };
            let logits = meaning::product(
                rows as int,
                dim as int,
                vocab as int,
                trainer_norm(cfg, rows, m2[m.embedding.out_buffer], m2[m.final_norm.weight]),
                m2[m.lm_head.weight],
            );
            &&& m.final_norm.weight.id >= s.stacked.len()
            &&& m.lm_head.weight.id >= s.stacked.len()
            &&& m.cross_entropy.target_tokens.id >= s.stacked.len()
            &&& after[m.lm_head.out_buffer] == logits
            &&& after[m.cross_entropy.probs] == meaning::probs(shape, logits)
            &&& after[m.cross_entropy.losses] == meaning::losses(
                shape,
                logits,
                m2[m.cross_entropy.target_tokens],
            )
        }),
{
    let m = akasha_model::model_build(c, cfg, bws, std, tokens).1;
    let s = model_stages(c, cfg, bws, std);
    lemma_model_extends(c, cfg, bws, std);
    lemma_model_parts(c, cfg, bws, std, tokens);
    pipeline::lemma_block_sizes(cfg);
    let x = m.embedding.out_buffer;
    let (rows, dim, vocab) = (cfg.seq_len, cfg.dim, cfg.vocab_size);
    let d = rows * dim;
    lemma_prefix_trans(s.projected, s.end, full);
    lemma_prefix_trans(s.loss, s.end, full);
    assert(vocab * dim == dim * vocab) by (nonlinear_arith);
    assert(0 <= rows * vocab && 0 <= dim * vocab) by (nonlinear_arith);
    let g_in = device::next_zeros(device::push_zeros(c, rows * vocab), d);
    let g_last = transformer::grad_buf(s.edges, cfg.num_layers as int, d);
    lemma_norm_step(s.normed, full, cfg, rows, m.final_norm.weight, x, g_in, g_last, m2);
    assert(m.final_norm.out_buffer.id == s.normed.len() + 1);
    lemma_linear_step(
        s.headed,
        full,
        dim,
        vocab,
        rows,
        m.lm_head.weight,
        m.final_norm.out_buffer,
        m.grad_logits,
        g_in,
        m3,
    );
    assert(m.lm_head.out_buffer.id == s.headed.len());
    lemma_loss_step(s.loss, full, vocab, rows, m.lm_head.out_buffer, m.grad_logits, m4);
}

proof fn lemma_model_end(
    c: Seq<Init>,
    cfg: ModelConfig,
    bws: Seq<BlockWeights>,
    std: Scalar,
    tokens: Tensor,
)
    ensures
        akasha_model::model_build(c, cfg, bws, std, tokens).0 == model_stages(
            c,
            cfg,
            bws,
            std,
        ).end,
{
    reveal(akasha_model::model_build);
}

proof fn lemma_embedding_step(
    c: Seq<Init>,
    full: Seq<Init>,
    cfg: ModelConfig,
    bws: Seq<BlockWeights>,
    std: Scalar,
    tokens: Tensor,
    mem: Memory,
)
    requires
        akasha_model::model_fits(cfg),
        model_stages(c, cfg, bws, std).blocks.is_prefix_of(full),
        model_stages(c, cfg, bws, std).end.is_prefix_of(full),
        full.len() <= usize::MAX,
        tokens.id < c.len(),
    ensures
        ({
            let m = akasha_model::model_build(c, cfg, bws, std, tokens).1;
            let after = meaning::run(full, m.embedding.forward_graph, mem);
            let x = m.embedding.out_buffer;
            &&& after[x] == meaning::lookup(
                EmbeddingMeta { vocab_size: cfg.vocab_size, dim: cfg.dim, seq_len: cfg.seq_len },
                mem[tokens],
                mem[m.embedding.table],
            )
            &&& forall|t: Tensor| t != x ==> #[trigger] after[t] == mem[t]
        }),
{
    let m = akasha_model::model_build(c, cfg, bws, std, tokens).1;
    let s = model_stages(c, cfg, bws, std);
    lemma_model_extends(c, cfg, bws, std);
    lemma_model_parts(c, cfg, bws, std, tokens);
    trainer_laws::embedding_layer_looks_up(
        s.table,
        full,
        cfg.vocab_size,
        cfg.dim,
        cfg.seq_len,
        m.embedding.table,
        tokens,
        transformer::grad_buf(s.edges, 0, cfg.seq_len * cfg.dim),
        mem,
        mem,
    );
}

} // verus!
