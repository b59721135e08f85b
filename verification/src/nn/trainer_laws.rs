//! What the trainer's layers compute: running a layer's forward graph leaves a
//! formula of its inputs in its output, and running its backward graph hands back the
//! derivative of that formula. Buffers that a layer is given lie before those that it
//! makes for itself. `c` is the context that a layer starts in, and `e` one that begins
//! with what it leaves.
use super::kernels::meta::{
    CrossEntropyMeta, EmbeddingMeta, FlashAttnMeta, KernelMeta, MatMulMeta, NormMeta,
};
use super::layers;
use super::meaning::{self, Memory, Term, Turn};
use super::ops;
use super::rope;
use crate::device::{Init, Scalar, Tensor};
use vstd::prelude::*;

verus! {

pub(crate) proof fn lemma_prefix_at(a: Seq<Init>, b: Seq<Init>, i: int)
    requires
        a.is_prefix_of(b),
        0 <= i < a.len(),
    ensures
        a[i] == b[i],
        a.len() <= b.len(),
{
    assert(b.subrange(0, a.len() as int)[i] == b[i]);
}

/// A linear layer multiplies its input by its weight. Its backward graph hands the
/// derivative of that product to the input and adds it up in the weight's gradient.
/// `mem` is what the forward graph found, `later` what the backward graph finds.
pub proof fn linear_layer_multiplies(
    c: Seq<Init>,
    e: Seq<Init>,
    in_features: u32,
    out_features: u32,
    rows: u32,
    weight: Tensor,
    x: Tensor,
    dy: Tensor,
    dx: Tensor,
    mem: Memory,
    later: Memory,
)
    requires
        layers::linear_ctx(c, in_features, out_features, rows).is_prefix_of(e),
        layers::linear_fits(in_features as int, out_features as int, rows as int),
        c.len() + 5 <= usize::MAX,
        weight.id < c.len() && x.id < c.len() && dy.id < c.len() && dx.id < c.len(),
        later[x] == mem[x],
        later[weight] == mem[weight],
    ensures
        ({
            let l = layers::linear_view(c, in_features, out_features, rows, weight, x, dy, dx);
            let first = meaning::run(e, l.forward_graph, mem);
            let y = first[l.out_buffer];
            let last = meaning::run(e, l.backward_graph, later);
            &&& y == meaning::product(
                rows as int,
                in_features as int,
                out_features as int,
                mem[x],
                mem[weight],
            )
            &&& last[dx] == meaning::back(y, 0, later[dy])
            &&& last[l.grad_weight] == meaning::sum(
                later[l.grad_weight],
                meaning::back(y, 1, later[dy]),
            )
            &&& forall|t: Tensor| t != l.out_buffer ==> #[trigger] first[t] == mem[t]
            &&& forall|t: Tensor|
                t != dx && t != l.grad_weight ==> #[trigger] last[t] == later[t]
            &&& c.len() <= l.out_buffer.id < e.len() && c.len() <= l.grad_weight.id < e.len()
            &&& l.out_buffer != l.grad_weight
        }),
{
    let own = layers::linear_ctx(c, in_features, out_features, rows);
    let l = layers::linear_view(c, in_features, out_features, rows, weight, x, dy, dx);
    let n = c.len() as int;
    assert(l.out_buffer.id == n && l.grad_weight.id == n + 1);
    assert(own.len() == n + 5);
    let fwd = MatMulMeta { m: rows, n: out_features, k: in_features };
    assert(own[n + 2] == Init::Meta(fwd.spec_meta()));
    lemma_prefix_at(own, e, n + 2);
    assert(own[n + 3] == Init::Meta(fwd.spec_meta()));
    lemma_prefix_at(own, e, n + 3);
    let trp = MatMulMeta { m: rows, n: in_features, k: out_features };
    assert(own[n + 4] == Init::Meta(trp.spec_meta()));
    lemma_prefix_at(own, e, n + 4);
    assert(l.forward_graph =~= seq![l.forward_graph[0]]);
    meaning::lemma_run_one(e, l.forward_graph[0], mem);
    assert(l.backward_graph =~= seq![l.backward_graph[0], l.backward_graph[1]]);
    meaning::lemma_run_two(e, l.backward_graph[0], l.backward_graph[1], later);
}

/// A norm layer scales the rows of its input to unit mean square, with an epsilon of
/// `1e-5`, and multiplies them by its gain. Its backward graph hands the derivative
/// of that to the input and adds it up in the gain's gradient.
pub proof fn norm_layer_normalizes(
    c: Seq<Init>,
    e: Seq<Init>,
    dim: u32,
    rows: u32,
    weight: Tensor,
    x: Tensor,
    dy: Tensor,
    dx: Tensor,
    mem: Memory,
    later: Memory,
)
    requires
        layers::rmsnorm_ctx(c, dim, rows).is_prefix_of(e),
        c.len() + 5 <= usize::MAX,
        rows * dim <= u32::MAX,
        weight.id < c.len() && x.id < c.len() && dy.id < c.len() && dx.id < c.len(),
        dx != x && dx != dy,
        later[x] == mem[x],
        later[weight] == mem[weight],
    ensures
        ({
            let l = layers::rmsnorm_view(c, dim, rows, weight, x, dy, dx);
            let first = meaning::run(e, l.forward_graph, mem);
            let y = first[l.out_buffer];
            let last = meaning::run(e, l.backward_graph, later);
            let shape = NormMeta {
                seq_len: rows,
                size: dim,
                eps: Scalar::Dec { digits: 1, places: 5 },
            };
            &&& y == meaning::norm(shape, mem[x], mem[weight])
            &&& last[dx] == meaning::back(y, 0, later[dy])
            &&& last[l.grad_weight] == meaning::sum(
                later[l.grad_weight],
                meaning::back(y, 1, later[dy]),
            )
            &&& forall|t: Tensor| t != l.out_buffer ==> #[trigger] first[t] == mem[t]
            &&& forall|t: Tensor|
                t != dx && t != l.grad_weight && t != l.rsqrt_cache ==> #[trigger] last[t]
                    == later[t]
            &&& c.len() <= l.out_buffer.id < e.len() && c.len() <= l.grad_weight.id < e.len()
            &&& c.len() <= l.rsqrt_cache.id < e.len()
            &&& l.out_buffer != l.grad_weight && l.rsqrt_cache != l.grad_weight
        }),
{
    let own = layers::rmsnorm_ctx(c, dim, rows);
    let l = layers::rmsnorm_view(c, dim, rows, weight, x, dy, dx);
    let n = c.len() as int;
    let shape = layers::norm_shape(dim, rows);
    assert(l.grad_weight.id == n && l.out_buffer.id == n + 1 && l.rsqrt_cache.id == n + 2);
    assert(own.len() == n + 5);
    assert(own[n + 3] == Init::Meta(shape.spec_meta()));
    lemma_prefix_at(own, e, n + 3);
    assert(own[n + 4] == Init::Meta(shape.spec_meta()));
    lemma_prefix_at(own, e, n + 4);
    assert(l.forward_graph =~= seq![l.forward_graph[0]]);
    meaning::lemma_run_one(e, l.forward_graph[0], mem);
    assert(l.backward_graph =~= seq![l.backward_graph[0], l.backward_graph[1]]);
    meaning::lemma_run_two(e, l.backward_graph[0], l.backward_graph[1], later);
}

/// An embedding layer looks its tokens up in its table. Its backward graph sums what
/// reaches each row into the gradient of the row's token.
pub proof fn embedding_layer_looks_up(
    c: Seq<Init>,
    e: Seq<Init>,
    vocab_size: u32,
    dim: u32,
    rows: u32,
    table: Tensor,
    tokens: Tensor,
    dy: Tensor,
    mem: Memory,
    later: Memory,
)
    requires
        layers::embedding_ctx(c, vocab_size, dim, rows).is_prefix_of(e),
        c.len() + 4 <= usize::MAX,
        vocab_size * dim <= u32::MAX,
        rows * dim <= u32::MAX,
        table.id < c.len() && tokens.id < c.len() && dy.id < c.len(),
        later[tokens] == mem[tokens],
    ensures
        ({
            let l = layers::embedding_view(c, vocab_size, dim, rows, table, tokens, dy);
            let first = meaning::run(e, l.forward_graph, mem);
            let y = first[l.out_buffer];
            let last = meaning::run(e, l.backward_graph, later);
            &&& y == meaning::lookup(
                EmbeddingMeta { vocab_size, dim, seq_len: rows },
                mem[tokens],
                mem[table],
            )
            &&& last[l.grad_table] == meaning::sum(
                later[l.grad_table],
                meaning::back(y, 1, later[dy]),
            )
            &&& forall|t: Tensor| t != l.out_buffer ==> #[trigger] first[t] == mem[t]
            &&& forall|t: Tensor| t != l.grad_table ==> #[trigger] last[t] == later[t]
            &&& l.out_buffer != l.grad_table
        }),
{
    let own = layers::embedding_ctx(c, vocab_size, dim, rows);
    let l = layers::embedding_view(c, vocab_size, dim, rows, table, tokens, dy);
    let n = c.len() as int;
    let shape = EmbeddingMeta { vocab_size, dim, seq_len: rows };
    assert(l.grad_table.id == n && l.out_buffer.id == n + 1);
    assert(own[n + 2] == Init::Meta(shape.spec_meta()));
    lemma_prefix_at(own, e, n + 2);
    assert(own[n + 3] == Init::Meta(shape.spec_meta()));
    lemma_prefix_at(own, e, n + 3);
    assert(l.forward_graph =~= seq![l.forward_graph[0]]);
    meaning::lemma_run_one(e, l.forward_graph[0], mem);
    assert(l.backward_graph =~= seq![l.backward_graph[0]]);
    meaning::lemma_run_one(e, l.backward_graph[0], later);
}

/// An addition layer adds the second buffer to the first, and its backward graph adds
/// what reaches the sum to both gradients.
pub proof fn add_layer_adds(
    c: Seq<Init>,
    length: u32,
    a: Tensor,
    b: Tensor,
    dy: Tensor,
    da: Tensor,
    db: Tensor,
    mem: Memory,
    later: Memory,
)
    requires
        da != dy,
        da != db,
    ensures
        ({
            let l = layers::add_view(length, a, b, dy, da, db);
            let first = meaning::run(c, l.forward_graph, mem);
            let y = first[l.in_out_buffer];
            let last = meaning::run(c, l.backward_graph, later);
            &&& l.in_out_buffer == a
            &&& y == meaning::sum(mem[a], mem[b])
            &&& last[da] == meaning::sum(later[da], meaning::back(y, 0, later[dy]))
            &&& last[db] == meaning::sum(later[db], meaning::back(y, 1, later[dy]))
            &&& forall|t: Tensor| t != a ==> #[trigger] first[t] == mem[t]
            &&& forall|t: Tensor| t != da && t != db ==> #[trigger] last[t] == later[t]
        }),
{
    let l = layers::add_view(length, a, b, dy, da, db);
    assert(l.forward_graph =~= seq![l.forward_graph[0]]);
    meaning::lemma_run_one(c, l.forward_graph[0], mem);
    assert(l.backward_graph =~= seq![l.backward_graph[0], l.backward_graph[1]]);
    meaning::lemma_run_two(c, l.backward_graph[0], l.backward_graph[1], later);
}

/// An activation layer activates its buffer in place. Its backward graph hands on
/// the derivative of the activation, taken at what the buffer then holds.
pub proof fn silu_layer_activates(
    c: Seq<Init>,
    length: u32,
    x: Tensor,
    dy: Tensor,
    dx: Tensor,
    mem: Memory,
    later: Memory,
)
    ensures
        ({
            let l = layers::silu_view(length, x, dy, dx);
            let first = meaning::run(c, l.forward_graph, mem);
            let last = meaning::run(c, l.backward_graph, later);
            &&& l.in_out_buffer == x
            &&& first[x] == meaning::silu(mem[x])
            &&& last[dx] == meaning::back(meaning::silu(later[x]), 0, later[dy])
            &&& forall|t: Tensor| t != x ==> #[trigger] first[t] == mem[t]
            &&& forall|t: Tensor| t != dx ==> #[trigger] last[t] == later[t]
        }),
{
    let l = layers::silu_view(length, x, dy, dx);
    assert(l.forward_graph =~= seq![l.forward_graph[0]]);
    meaning::lemma_run_one(c, l.forward_graph[0], mem);
    assert(l.backward_graph =~= seq![l.backward_graph[0]]);
    meaning::lemma_run_one(c, l.backward_graph[0], later);
}

/// The loss layer leaves the probabilities of the logits and the loss of every row.
/// Its backward graph turns those probabilities into what reaches the logits, each
/// row scaled by one over the number of rows.
pub proof fn loss_layer_compares_with_targets(
    c: Seq<Init>,
    e: Seq<Init>,
    vocab_size: u32,
    rows: u32,
    logits: Tensor,
    dl: Tensor,
    mem: Memory,
    later: Memory,
)
    requires
        layers::cross_entropy_ctx(c, vocab_size, rows).is_prefix_of(e),
        c.len() + 6 <= usize::MAX,
        rows * vocab_size <= u32::MAX,
        logits.id < c.len() && dl.id < c.len(),
        ({
            let l = layers::cross_entropy_view(c, vocab_size, rows, logits, dl);
            let first = meaning::run(e, l.forward_graph, mem);
            &&& later[l.probs] == first[l.probs]
            &&& later[l.target_tokens] == mem[l.target_tokens]
        }),
    ensures
        ({
            let l = layers::cross_entropy_view(c, vocab_size, rows, logits, dl);
            let first = meaning::run(e, l.forward_graph, mem);
            let last = meaning::run(e, l.backward_graph, later);
            let shape = CrossEntropyMeta { vocab_size, num_rows: rows };
            &&& first[l.probs] == meaning::probs(shape, mem[logits])
            &&& first[l.losses] == meaning::losses(shape, mem[logits], mem[l.target_tokens])
            &&& last[dl] == meaning::loss_back(
                shape,
                meaning::probs(shape, mem[logits]),
                mem[l.target_tokens],
                later[l.d_losses],
            )
            &&& e[l.d_losses.id as int] == Init::Fill(rows, Scalar::Recip(rows as u64))
            &&& forall|t: Tensor|
                t != l.probs && t != l.losses ==> #[trigger] first[t] == mem[t]
            &&& forall|t: Tensor| t != dl ==> #[trigger] last[t] == later[t]
        }),
{
    let own = layers::cross_entropy_ctx(c, vocab_size, rows);
    let l = layers::cross_entropy_view(c, vocab_size, rows, logits, dl);
    let n = c.len() as int;
    let shape = CrossEntropyMeta { vocab_size, num_rows: rows };
    assert(l.target_tokens.id == n && l.probs.id == n + 1 && l.losses.id == n + 2);
    assert(l.d_losses.id == n + 3);
    assert(own[n + 3] == Init::Fill(rows, Scalar::Recip(rows as u64)));
    lemma_prefix_at(own, e, n + 3);
    assert(own[n + 4] == Init::Meta(shape.spec_meta()));
    lemma_prefix_at(own, e, n + 4);
    assert(own[n + 5] == Init::Meta(shape.spec_meta()));
    lemma_prefix_at(own, e, n + 5);
    assert(l.forward_graph =~= seq![l.forward_graph[0]]);
    meaning::lemma_run_one(e, l.forward_graph[0], mem);
    assert(l.backward_graph =~= seq![l.backward_graph[0]]);
    meaning::lemma_run_one(e, l.backward_graph[0], later);
}

/// The rotation layer rotates its buffer in place, every row by its position, in
/// heads of 64 columns. Its backward graph rotates the gradient back.
pub proof fn rope_layer_rotates(
    c: Seq<Init>,
    e: Seq<Init>,
    dim: u32,
    seq_len: u32,
    x: Tensor,
    dy: Tensor,
    mem: Memory,
    later: Memory,
)
    requires
        rope::rope_build(c, dim, seq_len, x, dy).0.is_prefix_of(e),
        c.len() + 2 <= usize::MAX,
    ensures
        ({
            let l = rope::rope_build(c, dim, seq_len, x, dy).1;
            let first = meaning::run(e, l.forward_graph, mem);
            let last = meaning::run(e, l.backward_graph, later);
            let turn = Turn {
                first: 0,
                rows: seq_len as int,
                dim: dim as int,
                head_dim: 64,
                pos: 0,
            };
            &&& l.in_out_buffer == x
            &&& first[x] == meaning::rotated(turn, mem[x])
            &&& last[dy] == meaning::back(first[x], 0, later[dy])
            &&& forall|t: Tensor| t != x ==> #[trigger] first[t] == mem[t]
            &&& forall|t: Tensor| t != dy ==> #[trigger] last[t] == later[t]
        }),
{
    let (own, l) = rope::rope_build(c, dim, seq_len, x, dy);
    assert(own[c.len() as int] == Init::Meta(rope::rope_shape(dim, seq_len).spec_meta()));
    lemma_prefix_at(own, e, c.len() as int);
    assert(l.forward_graph =~= seq![l.forward_graph[0]]);
    meaning::lemma_run_one(e, l.forward_graph[0], mem);
    assert(l.backward_graph =~= seq![l.backward_graph[0]]);
    meaning::lemma_run_one(e, l.backward_graph[0], later);
}

// ---- attention over a batch ----

/// Causal attention within sequence `b` of a batch, scaled by the root of the head's
/// width.
pub open spec fn within(seq_len: u32, dim: u32, head_dim: u32, b: int) -> FlashAttnMeta {
    FlashAttnMeta {
        seq_len,
        dim,
        head_dim,
        scale: Scalar::RecipSqrt(head_dim),
        row_offset: (b * seq_len) as u32,
    }
}

/// `into` with the attention of the first `n` sequences, each within itself.
pub open spec fn attended(
    seq_len: u32,
    dim: u32,
    head_dim: u32,
    into: Term,
    q: Term,
    k: Term,
    v: Term,
    n: nat,
) -> Term
    decreases n,
{
    if n == 0 {
        into
    } else {
        meaning::attention(
            within(seq_len, dim, head_dim, n - 1),
            attended(seq_len, dim, head_dim, into, q, k, v, (n - 1) as nat),
            q,
            k,
            v,
        )
    }
}

/// `into` with what reaches queries, keys or values of the first `n` sequences, when
/// `g` reaches the attention's result `o`.
pub open spec fn attended_back(
    of: int,
    seq_len: u32,
    dim: u32,
    head_dim: u32,
    into: Term,
    q: Term,
    k: Term,
    v: Term,
    o: Term,
    g: Term,
    n: nat,
) -> Term
    decreases n,
{
    if n == 0 {
        into
    } else {
        let s = within(seq_len, dim, head_dim, n - 1);
        meaning::attention_back(
            of,
            s,
            attended_back(of, seq_len, dim, head_dim, into, q, k, v, o, g, (n - 1) as nat),
            q,
            k,
            v,
            meaning::row_dots(s, g, o),
            g,
            meaning::normalizers(s, q, k),
        )
    }
}

pub(crate) proof fn lemma_flash_len(c: Seq<Init>, seq_len: u32, dim: u32, heads: u32, n: nat)
    ensures
        layers::attn_fwd_ctx(c, seq_len, dim, heads, n).len() == c.len() + 2 * n,
        layers::attn_bwd_ctx(c, seq_len, dim, heads, n).len() == c.len() + n,
        c.is_prefix_of(layers::attn_bwd_ctx(c, seq_len, dim, heads, n)),
    decreases n,
{
    if n > 0 {
        lemma_flash_len(c, seq_len, dim, heads, (n - 1) as nat);
    }
}

proof fn lemma_flash_ctx(c: Seq<Init>, seq_len: u32, dim: u32, heads: u32, n: nat, m: nat)
    requires
        n < m,
    ensures
        layers::attn_fwd_ctx(c, seq_len, dim, heads, m)[c.len() as int + 2 * n + 1] == Init::Meta(
            layers::attn_shape(seq_len, dim, heads, n as int).spec_meta(),
        ),
        layers::attn_bwd_ctx(c, seq_len, dim, heads, m)[c.len() as int + n] == Init::Meta(
            layers::attn_shape(seq_len, dim, heads, n as int).spec_meta(),
        ),
    decreases m,
{
    lemma_flash_len(c, seq_len, dim, heads, (m - 1) as nat);
    lemma_flash_len(c, seq_len, dim, heads, m);
    if n + 1 < m {
        lemma_flash_ctx(c, seq_len, dim, heads, n, (m - 1) as nat);
    }
}

pub(crate) proof fn lemma_flash_forward(
    e: Seq<Init>,
    c: Seq<Init>,
    seq_len: u32,
    dim: u32,
    heads: u32,
    q: Tensor,
    k: Tensor,
    v: Tensor,
    out: Tensor,
    mem: Memory,
    n: nat,
    all: nat,
)
    requires
        n <= all,
        layers::attn_fwd_ctx(c, seq_len, dim, heads, all).is_prefix_of(e),
        c.len() + 2 * all <= usize::MAX,
        q.id < c.len() && k.id < c.len() && v.id < c.len() && out.id < c.len(),
        out != q && out != k && out != v,
    ensures
        ({
            let after = meaning::run(
                e,
                layers::attn_fwd_nodes(c, q, k, v, out, seq_len, dim, heads, n),
                mem,
            );
            let hd = (dim as int / heads as int) as u32;
            &&& after[out] == attended(seq_len, dim, hd, mem[out], mem[q], mem[k], mem[v], n)
            &&& forall|b: int|
                0 <= b < n ==> after[(#[trigger] layers::attn_saved(
                    c,
                    out,
                    seq_len,
                    dim,
                    heads,
                    b,
                )).l_cache] == meaning::normalizers(
                    within(seq_len, dim, hd, b),
                    mem[q],
                    mem[k],
                )
            &&& forall|t: Tensor| t != out && t.id < c.len() ==> #[trigger] after[t] == mem[t]
        }),
    decreases n,
{
    if n > 0 {
        let b = n - 1;
        lemma_flash_forward(e, c, seq_len, dim, heads, q, k, v, out, mem, b as nat, all);
        lemma_flash_ctx(c, seq_len, dim, heads, b as nat, all);
        lemma_flash_len(c, seq_len, dim, heads, b as nat);
        lemma_flash_len(c, seq_len, dim, heads, all);
        let g = layers::attn_fwd_nodes(c, q, k, v, out, seq_len, dim, heads, b as nat);
        let whole = layers::attn_fwd_nodes(c, q, k, v, out, seq_len, dim, heads, n);
        let node = whole.last();
        meaning::lemma_run_push(e, g, node, mem);
        assert(whole =~= g.push(node));
        let after = meaning::run(e, whole, mem);
        assert(node.buffers.last().id == c.len() + 2 * b + 1);
        assert(node.buffers[4].id == c.len() + 2 * b);
        let hd = (dim as int / heads as int) as u32;
        assert(layers::attn_shape(seq_len, dim, heads, b) == within(seq_len, dim, hd, b));
        assert forall|i: int| 0 <= i < n implies after[(#[trigger] layers::attn_saved(
            c,
            out,
            seq_len,
            dim,
            heads,
            i,
        )).l_cache] == meaning::normalizers(within(seq_len, dim, hd, i), mem[q], mem[k]) by {
            lemma_flash_len(c, seq_len, dim, heads, i as nat);
            assert(layers::attn_saved(c, out, seq_len, dim, heads, i).l_cache.id == c.len() + 2 * i);
        }
    }
}

pub(crate) proof fn lemma_flash_backward(
    e: Seq<Init>,
    f: Seq<Init>,
    c: Seq<Init>,
    seq_len: u32,
    dim: u32,
    heads: u32,
    q: Tensor,
    k: Tensor,
    v: Tensor,
    out: Tensor,
    dy: Tensor,
    dq: Tensor,
    dk: Tensor,
    dv: Tensor,
    later: Memory,
    n: nat,
    all: nat,
)
    requires
        n <= all,
        layers::attn_bwd_ctx(c, seq_len, dim, heads, all).is_prefix_of(e),
        f.len() + 2 * all <= usize::MAX,
        c.len() + all <= usize::MAX,
        seq![q, k, v, out, dy, dq, dk, dv].no_duplicates(),
        dq.id < f.len() && dk.id < f.len() && dv.id < f.len(),
        forall|b: int|
            0 <= b < all ==> later[(#[trigger] layers::attn_saved(
                f,
                out,
                seq_len,
                dim,
                heads,
                b,
            )).l_cache] == meaning::normalizers(
                within(seq_len, dim, (dim as int / heads as int) as u32, b),
                later[q],
                later[k],
            ),
    ensures
        ({
            let after = meaning::run(
                e,
                layers::attn_bwd_nodes(
                    f,
                    c,
                    q,
                    k,
                    v,
                    out,
                    dy,
                    dq,
                    dk,
                    dv,
                    seq_len,
                    dim,
                    heads,
                    n,
                ),
                later,
            );
            let hd = (dim as int / heads as int) as u32;
            let grad = |of: int, into: Tensor|
                attended_back(
                    of,
                    seq_len,
                    dim,
                    hd,
                    later[into],
                    later[q],
                    later[k],
                    later[v],
                    later[out],
                    later[dy],
                    n,
                );
            &&& after[dq] == grad(0, dq)
            &&& after[dk] == grad(1, dk)
            &&& after[dv] == grad(2, dv)
            &&& forall|t: Tensor|
                t != dq && t != dk && t != dv ==> #[trigger] after[t] == later[t]
        }),
    decreases n,
{
    if n > 0 {
        let b = n - 1;
        lemma_flash_backward(
            e,
            f,
            c,
            seq_len,
            dim,
            heads,
            q,
            k,
            v,
            out,
            dy,
            dq,
            dk,
            dv,
            later,
            b as nat,
            all,
        );
        lemma_flash_ctx(c, seq_len, dim, heads, b as nat, all);
        lemma_flash_len(c, seq_len, dim, heads, b as nat);
        lemma_flash_len(c, seq_len, dim, heads, all);
        lemma_flash_len(f, seq_len, dim, heads, b as nat);
        let g = layers::attn_bwd_nodes(
            f,
            c,
            q,
            k,
            v,
            out,
            dy,
            dq,
            dk,
            dv,
            seq_len,
            dim,
            heads,
            b as nat,
        );
        let saved = layers::attn_saved(f, out, seq_len, dim, heads, b);
        let shape = layers::attn_shape(seq_len, dim, heads, b);
        let two = ops::flash_bwd_nodes(
            layers::attn_bwd_ctx(c, seq_len, dim, heads, b as nat),
            q,
            k,
            v,
            saved,
            dy,
            dq,
            dk,
            dv,
            shape,
        );
        let before = meaning::run(e, g, later);
        meaning::run_is_sequential(e, g, two, later);
        meaning::lemma_run_two(e, two[0], two[1], before);
        assert(two =~= seq![two[0], two[1]]);
        let names = seq![q, k, v, out, dy, dq, dk, dv];
        assert(names[0] == q && names[1] == k && names[2] == v && names[3] == out);
        assert(names[4] == dy && names[5] == dq && names[6] == dk && names[7] == dv);
        assert(saved.l_cache.id == f.len() + 2 * b);
        assert(two[0].buffers.last().id == c.len() + b);
        assert(two[1].buffers.last().id == c.len() + b);
        let hd = (dim as int / heads as int) as u32;
        assert(shape == within(seq_len, dim, hd, b));
    }
}

/// The attention layer attends within every sequence of the batch, and its backward
/// graph hands the derivative to queries, keys and values, from what the forward
/// graph left.
pub proof fn attention_layer_attends(
    c: Seq<Init>,
    e: Seq<Init>,
    seq_len: u32,
    dim: u32,
    num_heads: u32,
    batch_size: u32,
    q: Tensor,
    k: Tensor,
    v: Tensor,
    dy: Tensor,
    dq: Tensor,
    dk: Tensor,
    dv: Tensor,
    mem: Memory,
    later: Memory,
)
    requires
        layers::attention_ctx(c, seq_len, dim, num_heads, batch_size).is_prefix_of(e),
        layers::attention_fits(seq_len, dim, num_heads, batch_size),
        c.len() + 1 + 3 * batch_size <= usize::MAX,
        seq![q, k, v, dy, dq, dk, dv].no_duplicates(),
        q.id < c.len() && k.id < c.len() && v.id < c.len() && dy.id < c.len(),
        dq.id < c.len() && dk.id < c.len() && dv.id < c.len(),
        ({
            let l = layers::attention_view(
                c,
                seq_len,
                dim,
                num_heads,
                batch_size,
                q,
                k,
                v,
                dy,
                dq,
                dk,
                dv,
            );
            let first = meaning::run(e, l.forward_graph, mem);
            &&& later[q] == mem[q] && later[k] == mem[k] && later[v] == mem[v]
            &&& forall|t: Tensor| t.id >= c.len() ==> #[trigger] later[t] == first[t]
        }),
    ensures
        ({
            let l = layers::attention_view(
                c,
                seq_len,
                dim,
                num_heads,
                batch_size,
                q,
                k,
                v,
                dy,
                dq,
                dk,
                dv,
            );
            let first = meaning::run(e, l.forward_graph, mem);
            let last = meaning::run(e, l.backward_graph, later);
            let hd = (dim as int / num_heads as int) as u32;
            let n = batch_size as nat;
            let o = first[l.out_buffer];
            let grad = |of: int, into: Tensor|
                attended_back(
                    of,
                    seq_len,
                    dim,
                    hd,
                    later[into],
                    mem[q],
                    mem[k],
                    mem[v],
                    o,
                    later[dy],
                    n,
                );
            &&& o == attended(seq_len, dim, hd, mem[l.out_buffer], mem[q], mem[k], mem[v], n)
            &&& last[dq] == grad(0, dq)
            &&& last[dk] == grad(1, dk)
            &&& last[dv] == grad(2, dv)
            &&& forall|t: Tensor|
                t.id < c.len() ==> #[trigger] first[t] == mem[t]
            &&& forall|t: Tensor|
                t != dq && t != dk && t != dv ==> #[trigger] last[t] == later[t]
        }),
{
    let c1 = crate::device::push_zeros(c, batch_size * seq_len * dim);
    let n = batch_size as nat;
    let c2 = layers::attn_fwd_ctx(c1, seq_len, dim, num_heads, n);
    let own = layers::attention_ctx(c, seq_len, dim, num_heads, batch_size);
    let out = crate::device::next_zeros(c, batch_size * seq_len * dim);
    let names = seq![q, k, v, dy, dq, dk, dv];
    assert(names[0] == q && names[1] == k && names[2] == v && names[3] == dy);
    assert(names[4] == dq && names[5] == dk && names[6] == dv);
    lemma_flash_len(c1, seq_len, dim, num_heads, n);
    lemma_flash_len(c2, seq_len, dim, num_heads, n);
    lemma_flash_forward(e, c1, seq_len, dim, num_heads, q, k, v, out, mem, n, n);
    assert forall|b: int| 0 <= b < n implies later[(#[trigger] layers::attn_saved(
        c1,
        out,
        seq_len,
        dim,
        num_heads,
        b,
    )).l_cache] == meaning::normalizers(
        within(seq_len, dim, (dim as int / num_heads as int) as u32, b),
        later[q],
        later[k],
    ) by {
        lemma_flash_len(c1, seq_len, dim, num_heads, b as nat);
        assert(layers::attn_saved(c1, out, seq_len, dim, num_heads, b).l_cache.id == c1.len() + 2
            * b);
    }
    lemma_flash_backward(
        e,
        c1,
        c2,
        seq_len,
        dim,
        num_heads,
        q,
        k,
        v,
        out,
        dy,
        dq,
        dk,
        dv,
        later,
        n,
        n,
    );
}

} // verus!
