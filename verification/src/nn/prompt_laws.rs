//! What a prompt pass with a key-value cache computes: the logits of every row, and
//! every layer's keys and values in the layer's own caches.
use super::cache::CacheView;
use super::inference;
use super::inference_graphs;
use super::kernels::emit;
use super::kernels::meta::{EmbeddingMeta, KernelMeta, MatMulMeta, NormMeta};
use super::layer_laws::{
    self, apart, behind_block, is_prompt_block, prompt_keys, prompt_layer_ran, prompt_values,
    row_norm,
};
use super::meaning::{self, Memory, Term};
use super::trainer_block_laws::lemma_prefix_trans;
use super::trainer_laws;
use super::weights::{BlockWeights, ModelWeightsView};
use crate::config::ModelConfig;
use crate::device::{self, Init, NodeView, Tensor};
use vstd::prelude::*;

verus! {

/// Weights and caches lie before the buffers of a pass that starts behind `n` buffers,
/// and each layer's pair of caches is its own.
pub open spec fn prompt_apart(n: nat, bws: Seq<BlockWeights>, k: Seq<Tensor>, v: Seq<Tensor>) -> bool {
    &&& k.len() == bws.len()
    &&& v.len() == bws.len()
    &&& (k + v).no_duplicates()
    &&& forall|i: int| 0 <= i < k.len() ==> (#[trigger] k[i]).id < n
    &&& forall|i: int| 0 <= i < v.len() ==> (#[trigger] v[i]).id < n
    &&& forall|i: int| 0 <= i < bws.len() ==> weights_lie(#[trigger] bws[i], n) && apart(bws[i], k + v)
}

/// The weights of a block lie before buffer `n`.
pub open spec fn weights_lie(bw: BlockWeights, n: nat) -> bool {
    &&& bw.norm_1.id < n && bw.qkv_proj.id < n && bw.out_proj.id < n
    &&& bw.norm_2.id < n && bw.ffn_up.id < n && bw.ffn_down.id < n
}

proof fn lemma_same_prompt(
    cfg: ModelConfig,
    bw: BlockWeights,
    rows: int,
    a: Memory,
    b: Memory,
    h: Term,
    out: Term,
    k: Tensor,
    v: Tensor,
)
    requires
        a[bw.norm_1] == b[bw.norm_1] && a[bw.qkv_proj] == b[bw.qkv_proj],
        a[bw.out_proj] == b[bw.out_proj] && a[bw.norm_2] == b[bw.norm_2],
        a[bw.ffn_up] == b[bw.ffn_up] && a[bw.ffn_down] == b[bw.ffn_down],
        a[k] == b[k] && a[v] == b[v],
        is_prompt_block(cfg, bw, rows, a, h, out),
    ensures
        is_prompt_block(cfg, bw, rows, b, h, out),
        prompt_keys(cfg, bw, rows, a, h, k) == prompt_keys(cfg, bw, rows, b, h, k),
        prompt_values(cfg, bw, rows, a, h, v) == prompt_values(cfg, bw, rows, b, h, v),
{
    let turn = layer_laws::positions(cfg, rows, 0);
    let whole = layer_laws::whole_prompt(cfg, rows);
    let q = meaning::rotated(turn, layer_laws::role(cfg, bw, rows, a, h, 0));
    let keys = meaning::rotated(turn, layer_laws::role(cfg, bw, rows, a, h, 1));
    let values = layer_laws::role(cfg, bw, rows, a, h, 2);
    let into = choose|into: Term|
        out == #[trigger] behind_block(
            cfg,
            bw,
            rows,
            a,
            h,
            meaning::attention(whole, into, q, keys, values),
        );
    let att = meaning::attention(whole, into, q, keys, values);
    assert(out == behind_block(cfg, bw, rows, a, h, att));
    assert(out == behind_block(cfg, bw, rows, b, h, att));
}

proof fn lemma_layers_extend(
    c: Seq<Init>,
    g: Seq<NodeView>,
    bws: Seq<BlockWeights>,
    hidden: Tensor,
    k: Seq<Tensor>,
    v: Seq<Tensor>,
    rows: u32,
    cfg: ModelConfig,
    n: nat,
    m: nat,
)
    requires
        n <= m,
        c.len() + 23 * m <= usize::MAX,
        3 * cfg.dim <= u32::MAX,
    ensures
        ({
            let at = |i: nat| inference::prefill_layers(c, g, bws, hidden, k, v, rows, cfg, i).0;
            &&& at(n).len() == c.len() + 23 * n
            &&& at(m).len() == c.len() + 23 * m
            &&& at(n).is_prefix_of(at(m))
        }),
    decreases m,
{
    if n < m {
        let p = (m - 1) as nat;
        lemma_layers_extend(c, g, bws, hidden, k, v, rows, cfg, n, p);
        let cn = inference::prefill_layers(c, g, bws, hidden, k, v, rows, cfg, n).0;
        let cp = inference::prefill_layers(c, g, bws, hidden, k, v, rows, cfg, p).0;
        let cm = inference::prefill_layers(c, g, bws, hidden, k, v, rows, cfg, m).0;
        layer_laws::lemma_prompt_extends(
            cp,
            bws[m - 1],
            hidden,
            k[m - 1],
            v[m - 1],
            rows,
            cfg,
        );
        lemma_prefix_trans(cn, cp, cm);
    } else if n > 0 {
        let p = (n - 1) as nat;
        lemma_layers_extend(c, g, bws, hidden, k, v, rows, cfg, p, p);
        layer_laws::lemma_prompt_extends(
            inference::prefill_layers(c, g, bws, hidden, k, v, rows, cfg, p).0,
            bws[n - 1],
            hidden,
            k[n - 1],
            v[n - 1],
            rows,
            cfg,
        );
    }
}

/// The layers of a prompt pass hand the stream on, one to the next.
proof fn lemma_prompt_layers(
    full: Seq<Init>,
    c: Seq<Init>,
    g: Seq<NodeView>,
    bws: Seq<BlockWeights>,
    hidden: Tensor,
    k: Seq<Tensor>,
    v: Seq<Tensor>,
    rows: u32,
    cfg: ModelConfig,
    mem: Memory,
    low: nat,
    n: nat,
) -> (hs: Seq<Term>)
    requires
        n <= bws.len(),
        c.len() + 23 * bws.len() <= usize::MAX,
        3 * cfg.dim <= u32::MAX,
        prompt_apart(low, bws, k, v),
        low <= hidden.id < c.len(),
        inference::prefill_layers(c, g, bws, hidden, k, v, rows, cfg, bws.len()).0.is_prefix_of(
            full,
        ),
        forall|t: Tensor|
            t.id < low ==> #[trigger] meaning::run(full, g, mem)[t] == mem[t],
    ensures
        ({
            let at = inference::prefill_layers(c, g, bws, hidden, k, v, rows, cfg, n);
            let after = meaning::run(full, at.1, mem);
            &&& hs.len() == n + 1
            &&& hs[0] == meaning::run(full, g, mem)[hidden]
            &&& hs[n as int] == after[hidden]
            &&& forall|l: int|
                0 <= l < n ==> {
                    &&& is_prompt_block(
                        cfg,
                        #[trigger] bws[l],
                        rows as int,
                        mem,
                        hs[l],
                        hs[l + 1],
                    )
                    &&& after[k[l]] == prompt_keys(cfg, bws[l], rows as int, mem, hs[l], k[l])
                    &&& after[v[l]] == prompt_values(cfg, bws[l], rows as int, mem, hs[l], v[l])
                }
            &&& forall|l: int|
                n <= l < bws.len() ==> after[#[trigger] k[l]] == mem[k[l]] && after[v[l]]
                    == mem[v[l]]
            &&& forall|t: Tensor|
                t.id < low && !(k + v).contains(t) ==> #[trigger] after[t] == mem[t]
        }),
    decreases n,
{
    let both = k + v;
    assert forall|i: int| 0 <= i < k.len() implies both.contains(#[trigger] k[i]) && both.contains(
        v[i],
    ) && k[i] != v[i] by {
        assert(both[i] == k[i] && both[k.len() + i] == v[i]);
    }
    if n == 0 {
        seq![meaning::run(full, g, mem)[hidden]]
    } else {
        let p = n - 1;
        let prev = lemma_prompt_layers(
            full,
            c,
            g,
            bws,
            hidden,
            k,
            v,
            rows,
            cfg,
            mem,
            low,
            p as nat,
        );
        let (cp, gp) = inference::prefill_layers(c, g, bws, hidden, k, v, rows, cfg, p as nat);
        let (cn, gn) = inference::prefill_layers(c, g, bws, hidden, k, v, rows, cfg, n);
        let call = inference::prefill_layers(c, g, bws, hidden, k, v, rows, cfg, bws.len()).0;
        let bw = bws[p];
        let (d, nodes) = inference_graphs::prefill_layer(cp, bw, hidden, k[p], v[p], rows, cfg);
        lemma_layers_extend(c, g, bws, hidden, k, v, rows, cfg, p as nat, bws.len());
        lemma_layers_extend(c, g, bws, hidden, k, v, rows, cfg, n, bws.len());
        lemma_prefix_trans(cn, call, full);
        let m = meaning::run(full, gp, mem);
        let after = meaning::run(full, gn, mem);
        meaning::run_is_sequential(full, gp, nodes, mem);
        assert(weights_lie(bw, low) && apart(bw, both));
        assert(both[p] == k[p] && both[k.len() + p] == v[p]);
        let three = seq![hidden, k[p], v[p]];
        lemma_three_apart(bw, hidden, k[p], v[p], both, low);
        layer_laws::prefill_layer_is_a_block(cp, bw, hidden, k[p], v[p], rows, cfg, full, m);
        reveal(prompt_layer_ran);
        assert(m[bw.norm_1] == mem[bw.norm_1] && m[bw.qkv_proj] == mem[bw.qkv_proj]);
        assert(m[bw.out_proj] == mem[bw.out_proj] && m[bw.norm_2] == mem[bw.norm_2]);
        assert(m[bw.ffn_up] == mem[bw.ffn_up] && m[bw.ffn_down] == mem[bw.ffn_down]);
        assert(m[k[p]] == mem[k[p]] && m[v[p]] == mem[v[p]]);
        lemma_same_prompt(
            cfg,
            bw,
            rows as int,
            m,
            mem,
            m[hidden],
            after[hidden],
            k[p],
            v[p],
        );
        assert forall|l: int| 0 <= l < bws.len() && l != p implies after[#[trigger] k[l]] == m[k[l]]
            && after[v[l]] == m[v[l]] by {
            assert(both[l] == k[l] && both[k.len() + l] == v[l]);
        }
        let hs = prev.push(after[hidden]);
        assert forall|l: int| 0 <= l < n implies {
            &&& is_prompt_block(cfg, #[trigger] bws[l], rows as int, mem, hs[l], hs[l + 1])
            &&& after[k[l]] == prompt_keys(cfg, bws[l], rows as int, mem, hs[l], k[l])
            &&& after[v[l]] == prompt_values(cfg, bws[l], rows as int, mem, hs[l], v[l])
        } by {
            assert(hs[l] == prev[l]);
            if l < p {
                assert(hs[l + 1] == prev[l + 1]);
                assert(after[k[l]] == m[k[l]]);
            }
        }
        hs
    }
}

proof fn lemma_three_apart(
    bw: BlockWeights,
    hidden: Tensor,
    k: Tensor,
    v: Tensor,
    both: Seq<Tensor>,
    low: nat,
)
    requires
        weights_lie(bw, low),
        apart(bw, both),
        both.contains(k) && both.contains(v) && k != v,
        k.id < low && v.id < low && low <= hidden.id,
    ensures
        (seq![hidden, k, v]).no_duplicates(),
        apart(bw, seq![hidden, k, v]),
{
    let three = seq![hidden, k, v];
    assert forall|t: Tensor| t.id < low && !both.contains(t) implies !#[trigger] three.contains(
        t,
    ) by {
    }
}

/// A prompt pass looks its tokens up, sends them through every layer, each with its own
/// pair of caches, and leaves the logits of every row: the normed stream times the
/// head's weight. `hs` is the stream in front of each layer and behind the last.
pub proof fn prompt_computes_logits(
    c: Seq<Init>,
    full: Seq<Init>,
    w: ModelWeightsView,
    cache: CacheView,
    rows: u32,
    mem: Memory,
) -> (hs: Seq<Term>)
    requires
        3 * w.cfg.dim <= u32::MAX,
        c.len() + 7 + 23 * w.blocks.len() <= usize::MAX,
        inference::prompt_build(c, w, cache, rows).ctx.is_prefix_of(full),
        prompt_apart(c.len(), w.blocks, cache.k, cache.v),
        w.final_norm.id < c.len() && !(cache.k + cache.v).contains(w.final_norm),
        w.lm_head.id < c.len() && !(cache.k + cache.v).contains(w.lm_head),
    ensures
        ({
            let cfg = w.cfg;
            let n = w.blocks.len();
            let p = inference::prompt_build(c, w, cache, rows);
            let after = meaning::run(full, p.graph, mem);
            &&& hs.len() == n + 1
            &&& hs[0] == meaning::lookup(
                EmbeddingMeta { vocab_size: cfg.vocab_size, dim: cfg.dim, seq_len: rows },
                mem[p.tokens],
                mem[w.embedding],
            )
            &&& forall|l: int|
                0 <= l < n ==> {
                    let bw = #[trigger] w.blocks[l];
                    let (k, v) = (cache.k[l], cache.v[l]);
                    &&& is_prompt_block(cfg, bw, rows as int, mem, hs[l], hs[l + 1])
                    &&& after[k] == prompt_keys(cfg, bw, rows as int, mem, hs[l], k)
                    &&& after[v] == prompt_values(cfg, bw, rows as int, mem, hs[l], v)
                }
            &&& after[p.logits] == meaning::product(
                rows as int,
                cfg.dim as int,
                cfg.vocab_size as int,
                row_norm(cfg, rows as int, hs[n as int], mem[w.final_norm]),
                mem[w.lm_head],
            )
        }),
{
    reveal(inference::prompt_build);
    let cfg = w.cfg;
    let n = w.blocks.len();
    let p = inference::prompt_build(c, w, cache, rows);
    let emb = EmbeddingMeta { vocab_size: cfg.vocab_size, dim: cfg.dim, seq_len: rows };
    let c1 = device::push_zeros(c, rows as int);
    let hidden = device::next_zeros(c1, rows * cfg.dim);
    let c2 = device::push_zeros(c1, rows * cfg.dim);
    let c3 = device::push_meta(c2, emb.spec_meta());
    let look = emit::embedding_node(
        p.tokens,
        w.embedding,
        hidden,
        emb,
        device::next_meta(c2, emb.spec_meta()),
    );
    let g1 = seq![look];
    let (c4, g2) = inference::prefill_layers(
        c3,
        g1,
        w.blocks,
        hidden,
        cache.k,
        cache.v,
        rows,
        cfg,
        n,
    );
    lemma_layers_extend(c3, g1, w.blocks, hidden, cache.k, cache.v, rows, cfg, 0, n);
    let norm = NormMeta { seq_len: rows, size: cfg.dim, eps: cfg.norm_eps };
    let lm = MatMulMeta { m: rows, n: cfg.vocab_size, k: cfg.dim };
    let at = c4.len() as int;
    assert(p.ctx.len() == at + 4);
    assert(p.ctx[at + 1] == Init::Meta(norm.spec_meta()));
    assert(p.ctx[at + 3] == Init::Meta(lm.spec_meta()));
    trainer_laws::lemma_prefix_at(p.ctx, full, at + 1);
    trainer_laws::lemma_prefix_at(p.ctx, full, at + 3);
    assert(c4.is_prefix_of(p.ctx));
    lemma_prefix_trans(c4, p.ctx, full);
    assert(c3[c.len() as int + 2] == Init::Meta(emb.spec_meta()));
    trainer_laws::lemma_prefix_at(c3, c4, c.len() as int + 2);
    trainer_laws::lemma_prefix_at(c4, full, c.len() as int + 2);
    meaning::lemma_run_one(full, look, mem);
    let hs = lemma_prompt_layers(
        full,
        c3,
        g1,
        w.blocks,
        hidden,
        cache.k,
        cache.v,
        rows,
        cfg,
        mem,
        c.len(),
        n,
    );
    let m2 = meaning::run(full, g2, mem);
    let last = p.graph[g2.len() as int + 1];
    let normed = p.graph[g2.len() as int];
    assert(p.graph =~= g2.push(normed).push(last));
    meaning::lemma_run_push(full, g2, normed, mem);
    meaning::lemma_run_push(full, g2.push(normed), last, mem);
    let after = meaning::run(full, p.graph, mem);
    assert(normed.buffers[2].id == at && last.buffers[2].id == at + 2);
    assert forall|t: Tensor| t.id < c.len() implies #[trigger] after[t] == m2[t] by {
    }
    hs
}

} // verus!
