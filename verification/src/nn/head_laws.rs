//! What attention computes head by head: each head's columns of queries and keys give
//! causal probabilities, which weigh the head's columns of the values. The backward
//! pass hands the derivative back to the same columns.
use super::attention::{Heads, Scratch};
use super::kernels::emit;
use super::kernels::meta::{AttnScaleMeta, HeadMoveMeta, KernelMeta};
use super::meaning::{self, Memory, Term};
use super::ops;
use super::trainer_block_laws;
use super::trainer_laws;
use crate::device::{self, Init, NodeView, Scalar, Tensor};
use vstd::prelude::*;

verus! {

// ---- formulas ----

/// The columns of head `h`: heads lie side by side and are equally wide.
pub open spec fn head_columns(s: Heads, h: int) -> HeadMoveMeta {
    let width = s.dim as int / s.num_heads as int;
    HeadMoveMeta {
        seq_len: s.seq_len,
        full_dim: s.dim,
        head_dim: width as u32,
        head_offset: (h * width) as u32,
    }
}

/// The probabilities with which the rows of head `h` attend to the rows up to their
/// own.
pub open spec fn head_probs(s: Heads, h: int, q: Term, k: Term) -> Term {
    let (n, w) = (s.seq_len as int, s.dim as int / s.num_heads as int);
    meaning::causal_softmax(
        AttnScaleMeta { seq_len: s.seq_len, scale: Scalar::RecipSqrt(w as u32) },
        meaning::product(
            n,
            w,
            n,
            meaning::columns(head_columns(s, h), q),
            meaning::transposed(n, w, meaning::columns(head_columns(s, h), k)),
        ),
    )
}

/// What head `h` gives.
pub open spec fn head_result(s: Heads, h: int, q: Term, k: Term, v: Term) -> Term {
    let (n, w) = (s.seq_len as int, s.dim as int / s.num_heads as int);
    meaning::product(
        n,
        n,
        w,
        head_probs(s, h, q, k),
        meaning::columns(head_columns(s, h), v),
    )
}

/// `into` with the results of the first `n` heads in their columns.
pub open spec fn by_heads(s: Heads, into: Term, q: Term, k: Term, v: Term, n: nat) -> Term
    decreases n,
{
    if n == 0 {
        into
    } else {
        meaning::with_columns(
            head_columns(s, n - 1),
            by_heads(s, into, q, k, v, (n - 1) as nat),
            head_result(s, n - 1, q, k, v),
        )
    }
}

/// What reaches the columns of head `h` of queries (0), keys (1) or values (2), when
/// `g` reaches the heads side by side.
pub open spec fn head_grad(of: int, s: Heads, h: int, q: Term, k: Term, v: Term, g: Term) -> Term {
    let (n, w) = (s.seq_len as int, s.dim as int / s.num_heads as int);
    let m = head_columns(s, h);
    let probs = head_probs(s, h, q, k);
    let y = meaning::product(n, n, w, probs, meaning::columns(m, v));
    let g_head = meaning::columns(m, g);
    let g_scores = meaning::back(probs, 0, meaning::back(y, 0, g_head));
    if of == 0 {
        meaning::product(n, n, w, g_scores, meaning::columns(m, k))
    } else if of == 1 {
        meaning::sum(
            Term::Zero,
            meaning::product(
                n,
                n,
                w,
                meaning::transposed(n, n, g_scores),
                meaning::columns(m, q),
            ),
        )
    } else {
        meaning::sum(Term::Zero, meaning::back(y, 1, g_head))
    }
}

/// `into` with what reaches the first `n` heads in their columns.
pub open spec fn by_heads_back(
    of: int,
    s: Heads,
    into: Term,
    q: Term,
    k: Term,
    v: Term,
    g: Term,
    n: nat,
) -> Term
    decreases n,
{
    if n == 0 {
        into
    } else {
        meaning::with_columns(
            head_columns(s, n - 1),
            by_heads_back(of, s, into, q, k, v, g, (n - 1) as nat),
            head_grad(of, s, n - 1, q, k, v, g),
        )
    }
}

// ---- contexts ----

pub(crate) proof fn lemma_heads_extend(s: Heads, c: Seq<Init>, n: nat)
    ensures
        c.is_prefix_of(s.fwd_ctx(c, n)),
        s.fwd_ctx(c, n).len() == c.len() + 7 * n,
    decreases n,
{
    if n > 0 {
        lemma_heads_extend(s, c, (n - 1) as nat);
        trainer_block_laws::lemma_prefix_trans(
            c,
            s.fwd_ctx(c, (n - 1) as nat),
            s.fwd_ctx(c, n),
        );
    }
}

proof fn lemma_heads_grow(s: Heads, c: Seq<Init>, n: nat, m: nat)
    requires
        n <= m,
    ensures
        s.fwd_ctx(c, n).is_prefix_of(s.fwd_ctx(c, m)),
    decreases m - n,
{
    if n < m {
        lemma_heads_grow(s, c, n, (m - 1) as nat);
        trainer_block_laws::lemma_prefix_trans(
            s.fwd_ctx(c, n),
            s.fwd_ctx(c, (m - 1) as nat),
            s.fwd_ctx(c, m),
        );
    }
}

pub(crate) proof fn lemma_backs_extend(s: Heads, c: Seq<Init>, n: nat)
    ensures
        c.is_prefix_of(s.bwd_ctx(c, n)),
        s.bwd_ctx(c, n).len() == c.len() + 5 * n,
    decreases n,
{
    if n > 0 {
        lemma_backs_extend(s, c, (n - 1) as nat);
        trainer_block_laws::lemma_prefix_trans(
            c,
            s.bwd_ctx(c, (n - 1) as nat),
            s.bwd_ctx(c, n),
        );
    }
}

proof fn lemma_backs_grow(s: Heads, c: Seq<Init>, n: nat, m: nat)
    requires
        n <= m,
    ensures
        s.bwd_ctx(c, n).is_prefix_of(s.bwd_ctx(c, m)),
    decreases m - n,
{
    if n < m {
        lemma_backs_grow(s, c, n, (m - 1) as nat);
        trainer_block_laws::lemma_prefix_trans(
            s.bwd_ctx(c, n),
            s.bwd_ctx(c, (m - 1) as nat),
            s.bwd_ctx(c, m),
        );
    }
}

// ---- one head ----

/// The seven dispatches of a head.
proof fn lemma_head_runs(
    e: Seq<Init>,
    s: Heads,
    h: int,
    ins: Seq<Tensor>,
    own: Seq<Tensor>,
    metas: Seq<Tensor>,
    g: Seq<NodeView>,
    mem: Memory,
)
    requires
        ops::causal_fits(s.seq_len, s.dim, s.num_heads),
        0 <= h < s.num_heads,
        ins.len() == 3 && own.len() == 6 && metas.len() == 7,
        own.no_duplicates(),
        forall|i: int, j: int|
            0 <= i < 3 && 0 <= j < 6 ==> #[trigger] ins[i] != #[trigger] own[j],
        meaning::holds(e, metas[0], s.slice(h).spec_meta()),
        meaning::holds(e, metas[1], s.slice(h).spec_meta()),
        meaning::holds(e, metas[2], s.slice(h).spec_meta()),
        meaning::holds(e, metas[3], s.scores().spec_meta()),
        meaning::holds(e, metas[4], s.scale().spec_meta()),
        meaning::holds(e, metas[5], s.values().spec_meta()),
        meaning::holds(e, metas[6], s.slice(h).spec_meta()),
        g == seq![
            emit::head_gather_node(ins[0], own[0], s.slice(h), metas[0]),
            emit::head_gather_node(ins[1], own[1], s.slice(h), metas[1]),
            emit::head_gather_node(ins[2], own[2], s.slice(h), metas[2]),
            emit::matmul_trp_node(own[0], own[1], own[3], s.scores(), metas[3]),
            ops::causal_softmax_node(own[3], s.scale(), metas[4]),
            ops::matmul_node(own[3], own[2], own[4], s.values(), metas[5]),
            emit::head_scatter_node(own[4], own[5], s.slice(h), metas[6]),
        ],
    ensures
        ({
            let after = meaning::run(e, g, mem);
            let (q, k, v) = (mem[ins[0]], mem[ins[1]], mem[ins[2]]);
            let m = head_columns(s, h);
            &&& after[own[5]] == meaning::with_columns(
                m,
                mem[own[5]],
                head_result(s, h, q, k, v),
            )
            &&& after[own[0]] == meaning::columns(m, q)
            &&& after[own[1]] == meaning::columns(m, k)
            &&& after[own[2]] == meaning::columns(m, v)
            &&& after[own[3]] == head_probs(s, h, q, k)
            &&& forall|t: Tensor| !own.contains(t) ==> #[trigger] after[t] == mem[t]
        }),
{
    ops::lemma_head_sizes(s.seq_len, s.dim, s.num_heads, h);
    assert(s.slice(h) == head_columns(s, h));
    let m1 = meaning::exec(e, g[0], mem);
    let m2 = meaning::exec(e, g[1], m1);
    let m3 = meaning::exec(e, g[2], m2);
    let m4 = meaning::exec(e, g[3], m3);
    let m5 = meaning::exec(e, g[4], m4);
    let m6 = meaning::exec(e, g[5], m5);
    let m7 = meaning::exec(e, g[6], m6);
    let first = seq![g[0], g[1], g[2], g[3], g[4]];
    meaning::lemma_run_five(e, first, mem);
    meaning::lemma_run_push(e, first, g[5], mem);
    meaning::lemma_run_push(e, first.push(g[5]), g[6], mem);
    assert(first.push(g[5]).push(g[6]) =~= g);
    assert(own[0] != own[1] && own[0] != own[2] && own[0] != own[3] && own[0] != own[4]);
    assert(own[0] != own[5] && own[1] != own[2] && own[1] != own[3] && own[1] != own[4]);
    assert(own[1] != own[5] && own[2] != own[3] && own[2] != own[4] && own[2] != own[5]);
    assert(own[3] != own[4] && own[3] != own[5] && own[4] != own[5]);
    assert(m3[own[0]] == meaning::columns(head_columns(s, h), mem[ins[0]]));
    assert(m3[own[1]] == meaning::columns(head_columns(s, h), mem[ins[1]]));
    assert(m3[own[2]] == meaning::columns(head_columns(s, h), mem[ins[2]]));
    assert(m5[own[3]] == head_probs(s, h, mem[ins[0]], mem[ins[1]]));
    assert(m6[own[4]] == head_result(s, h, mem[ins[0]], mem[ins[1]], mem[ins[2]]));
    assert forall|t: Tensor| !own.contains(t) implies #[trigger] m7[t] == mem[t] by {
        assert(t != own[0] && t != own[1] && t != own[2]);
        assert(t != own[3] && t != own[4] && t != own[5]);
    }
}

// ---- all heads ----

/// The forward dispatches of the first `n` heads, in a context that begins with what
/// all of them leave.
#[verifier::rlimit(40)]
proof fn lemma_heads_forward(
    e: Seq<Init>,
    s: Heads,
    c: Seq<Init>,
    q: Tensor,
    k: Tensor,
    v: Tensor,
    scratch: Tensor,
    out: Tensor,
    meta_seq: Tensor,
    mem: Memory,
    n: nat,
)
    requires
        ops::causal_fits(s.seq_len, s.dim, s.num_heads),
        n <= s.num_heads,
        s.fwd_ctx(c, s.num_heads as nat).is_prefix_of(e),
        e.len() <= usize::MAX,
        q.id < c.len() && k.id < c.len() && v.id < c.len(),
        scratch.id < c.len() && out.id < c.len(),
        meaning::holds(e, meta_seq, s.scale().spec_meta()),
        out != q && out != k && out != v && scratch != out,
        scratch != q && scratch != k && scratch != v,
    ensures
        ({
            let after = meaning::run(
                e,
                s.fwd_nodes(c, q, k, v, scratch, out, meta_seq, n),
                mem,
            );
            &&& after[out] == by_heads(s, mem[out], mem[q], mem[k], mem[v], n)
            &&& forall|h: int|
                #![trigger s.buf(c, h, 0)]
                0 <= h < n ==> {
                    &&& after[s.buf(c, h, 0)] == meaning::columns(head_columns(s, h), mem[q])
                    &&& after[s.buf(c, h, 1)] == meaning::columns(head_columns(s, h), mem[k])
                    &&& after[s.buf(c, h, 2)] == meaning::columns(head_columns(s, h), mem[v])
                    &&& after[s.buf(c, h, 3)] == head_probs(s, h, mem[q], mem[k])
                }
            &&& forall|t: Tensor|
                (t.id < c.len() || t.id >= c.len() + 7 * s.num_heads) && t != out && t != scratch
                    ==> #[trigger] after[t] == mem[t]
        }),
    decreases n,
{
    if n > 0 {
        let h = n - 1;
        lemma_heads_forward(e, s, c, q, k, v, scratch, out, meta_seq, mem, h as nat);
        lemma_heads_extend(s, c, h as nat);
        lemma_heads_extend(s, c, n);
        lemma_heads_extend(s, c, s.num_heads as nat);
        lemma_heads_grow(s, c, n, s.num_heads as nat);
        let ch = s.fwd_ctx(c, h as nat);
        let cn = s.fwd_ctx(c, n);
        let at = ch.len() as int;
        assert(cn[at] == Init::Meta(s.slice(h).spec_meta()));
        assert(cn[at + 5] == Init::Meta(s.scores().spec_meta()));
        assert(cn[at + 6] == Init::Meta(s.values().spec_meta()));
        trainer_block_laws::lemma_prefix_trans(cn, s.fwd_ctx(c, s.num_heads as nat), e);
        trainer_laws::lemma_prefix_at(cn, e, at);
        trainer_laws::lemma_prefix_at(cn, e, at + 5);
        trainer_laws::lemma_prefix_at(cn, e, at + 6);
        let prev = s.fwd_nodes(c, q, k, v, scratch, out, meta_seq, h as nat);
        let g = s.fwd_head_nodes(c, q, k, v, scratch, out, meta_seq, h);
        let before = meaning::run(e, prev, mem);
        meaning::run_is_sequential(e, prev, g, mem);
        let own = seq![
            s.buf(c, h, 0),
            s.buf(c, h, 1),
            s.buf(c, h, 2),
            s.buf(c, h, 3),
            scratch,
            out,
        ];
        let ins = seq![q, k, v];
        let mh = g[0].buffers[2];
        let metas = seq![mh, mh, mh, g[3].buffers[3], meta_seq, g[5].buffers[3], mh];
        assert(s.buf(c, h, 0).id == at + 1 && s.buf(c, h, 1).id == at + 2);
        assert(s.buf(c, h, 2).id == at + 3 && s.buf(c, h, 3).id == at + 4);
        assert(mh.id == at && metas[3].id == at + 5 && metas[5].id == at + 6);
        lemma_six(own);
        lemma_head_runs(e, s, h, ins, own, metas, g, before);
        let after = meaning::run(e, g, before);
        assert(own[0] == s.buf(c, h, 0) && own[4] == scratch && own[5] == out);
        assert(own[1] == s.buf(c, h, 1) && own[2] == s.buf(c, h, 2) && own[3] == s.buf(c, h, 3));
        assert forall|i: int|
            #![trigger s.buf(c, i, 0)]
            0 <= i < n implies {
            &&& after[s.buf(c, i, 0)] == meaning::columns(head_columns(s, i), mem[q])
            &&& after[s.buf(c, i, 1)] == meaning::columns(head_columns(s, i), mem[k])
            &&& after[s.buf(c, i, 2)] == meaning::columns(head_columns(s, i), mem[v])
            &&& after[s.buf(c, i, 3)] == head_probs(s, i, mem[q], mem[k])
        } by {
            lemma_heads_extend(s, c, i as nat);
            if i < h {
                let ai = c.len() + 7 * i;
                assert(s.buf(c, i, 0).id == ai + 1 && s.buf(c, i, 1).id == ai + 2);
                assert(s.buf(c, i, 2).id == ai + 3 && s.buf(c, i, 3).id == ai + 4);
                assert(!own.contains(s.buf(c, i, 0)) && !own.contains(s.buf(c, i, 1)));
                assert(!own.contains(s.buf(c, i, 2)) && !own.contains(s.buf(c, i, 3)));
            }
        }
        assert forall|t: Tensor|
            (t.id < c.len() || t.id >= c.len() + 7 * s.num_heads) && t != out && t
                != scratch implies #[trigger] after[t] == mem[t] by {
            assert(!own.contains(t));
        }
    }
}

/// Six buffers with four numbers behind those of the last two, which differ.
proof fn lemma_six(own: Seq<Tensor>)
    requires
        own.len() == 6,
        own[1].id == own[0].id + 1 && own[2].id == own[0].id + 2 && own[3].id == own[0].id + 3,
        own[4].id < own[0].id && own[5].id < own[0].id && own[4] != own[5],
    ensures
        own.no_duplicates(),
{
}

/// Attention by heads leaves the heads' results side by side in its output, and each
/// head's columns and probabilities in the head's buffers.
pub proof fn heads_attend(
    s: Heads,
    c: Seq<Init>,
    e: Seq<Init>,
    q: Tensor,
    k: Tensor,
    v: Tensor,
    mem: Memory,
)
    requires
        ops::causal_fits(s.seq_len, s.dim, s.num_heads),
        s.new_ctx(c).is_prefix_of(e),
        e.len() <= usize::MAX,
        q.id < c.len() && k.id < c.len() && v.id < c.len(),
    ensures
        ({
            let out = s.out(c);
            let after = meaning::run(e, s.forward(s.new_start(c), q, k, v, out), mem);
            &&& after[out] == by_heads(
                s,
                mem[out],
                mem[q],
                mem[k],
                mem[v],
                s.num_heads as nat,
            )
            &&& forall|h: int|
                #![trigger s.buf(s.fwd_start(s.new_start(c)), h, 0)]
                0 <= h < s.num_heads ==> {
                    let f = s.fwd_start(s.new_start(c));
                    &&& after[s.buf(f, h, 0)] == meaning::columns(head_columns(s, h), mem[q])
                    &&& after[s.buf(f, h, 1)] == meaning::columns(head_columns(s, h), mem[k])
                    &&& after[s.buf(f, h, 2)] == meaning::columns(head_columns(s, h), mem[v])
                    &&& after[s.buf(f, h, 3)] == head_probs(s, h, mem[q], mem[k])
                }
            &&& forall|t: Tensor|
                t.id < c.len() || t.id >= s.new_ctx(c).len() ==> #[trigger] after[t] == mem[t]
        }),
{
    let cs = s.new_start(c);
    let start = s.fwd_start(cs);
    let n = s.num_heads as nat;
    lemma_new_extends(s, c);
    lemma_heads_extend(s, start, n);
    let cf = s.forward_ctx(cs);
    trainer_block_laws::lemma_prefix_trans(cf, s.new_ctx(c), e);
    trainer_block_laws::lemma_prefix_trans(start, cf, e);
    assert(start[cs.len() as int] == Init::Meta(s.scale().spec_meta()));
    trainer_laws::lemma_prefix_at(start, e, cs.len() as int);
    let scratch = device::next_zeros(device::push_meta(cs, s.scale().spec_meta()), s.head_size());
    let meta_seq = device::next_meta(cs, s.scale().spec_meta());
    lemma_heads_forward(e, s, start, q, k, v, scratch, s.out(c), meta_seq, mem, n);
}

pub(crate) proof fn lemma_new_extends(s: Heads, c: Seq<Init>)
    ensures
        c.is_prefix_of(s.new_ctx(c)),
        s.forward_ctx(s.new_start(c)).is_prefix_of(s.new_ctx(c)),
        s.new_ctx(c).len() == c.len() + 11 + 12 * s.num_heads,
        s.forward_ctx(s.new_start(c)).len() == c.len() + 4 + 7 * s.num_heads,
{
    let cs = s.new_start(c);
    let start = s.fwd_start(cs);
    let n = s.num_heads as nat;
    let cf = s.forward_ctx(cs);
    let cb = s.scratch_ctx(cf);
    lemma_heads_extend(s, start, n);
    lemma_backs_extend(s, cb, n);
    assert(c.is_prefix_of(start));
    assert(cf.is_prefix_of(cb));
    trainer_block_laws::lemma_prefix_trans(cf, cb, s.new_ctx(c));
    trainer_block_laws::lemma_prefix_trans(start, cf, s.new_ctx(c));
    trainer_block_laws::lemma_prefix_trans(c, start, s.new_ctx(c));
}

// ---- causal attention on its own ----

proof fn lemma_causal_extends(c: Seq<Init>, s: Heads, n: nat, m: nat)
    requires
        n <= m,
    ensures
        ({
            let at = |i: nat| ops::causal_ctx(c, s.seq_len, s.dim, s.num_heads, i);
            &&& at(n).len() == c.len() + 11 * n
            &&& at(m).len() == c.len() + 11 * m
            &&& at(n).is_prefix_of(at(m))
        }),
    decreases m,
{
    if n < m {
        let p = (m - 1) as nat;
        lemma_causal_extends(c, s, n, p);
        trainer_block_laws::lemma_prefix_trans(
            ops::causal_ctx(c, s.seq_len, s.dim, s.num_heads, n),
            ops::causal_ctx(c, s.seq_len, s.dim, s.num_heads, p),
            ops::causal_ctx(c, s.seq_len, s.dim, s.num_heads, m),
        );
    } else if n > 0 {
        lemma_causal_extends(c, s, (n - 1) as nat, (n - 1) as nat);
    }
}

/// The first `n` heads of a causal attention leave their results side by side in its
/// output, `c` being where the heads start and `e` a context that begins with what all
/// of them leave.
#[verifier::rlimit(40)]
pub proof fn causal_heads_attend(
    s: Heads,
    c: Seq<Init>,
    e: Seq<Init>,
    q: Tensor,
    k: Tensor,
    v: Tensor,
    scratch: Tensor,
    out: Tensor,
    mem: Memory,
    n: nat,
)
    requires
        ops::causal_fits(s.seq_len, s.dim, s.num_heads),
        n <= s.num_heads,
        ops::causal_ctx(c, s.seq_len, s.dim, s.num_heads, s.num_heads as nat).is_prefix_of(e),
        e.len() <= usize::MAX,
        q.id < c.len() && k.id < c.len() && v.id < c.len(),
        scratch.id < c.len() && out.id < c.len(),
        out != q && out != k && out != v && scratch != out,
        scratch != q && scratch != k && scratch != v,
    ensures
        ({
            let after = meaning::run(
                e,
                ops::causal_nodes(
                    c,
                    q,
                    k,
                    v,
                    scratch,
                    out,
                    s.seq_len,
                    s.dim,
                    s.num_heads,
                    n,
                ),
                mem,
            );
            &&& after[out] == by_heads(s, mem[out], mem[q], mem[k], mem[v], n)
            &&& forall|t: Tensor|
                t.id < c.len() && t != out && t != scratch ==> #[trigger] after[t] == mem[t]
        }),
    decreases n,
{
    if n > 0 {
        let h = n - 1;
        causal_heads_attend(s, c, e, q, k, v, scratch, out, mem, h as nat);
        let all = ops::causal_ctx(c, s.seq_len, s.dim, s.num_heads, s.num_heads as nat);
        let ch = ops::causal_ctx(c, s.seq_len, s.dim, s.num_heads, h as nat);
        let cn = ops::causal_ctx(c, s.seq_len, s.dim, s.num_heads, n);
        lemma_causal_extends(c, s, h as nat, n);
        lemma_causal_extends(c, s, n, s.num_heads as nat);
        trainer_block_laws::lemma_prefix_trans(cn, all, e);
        let at = ch.len() as int;
        assert(cn[at + 4] == Init::Meta(s.slice(h).spec_meta()));
        assert(cn[at + 5] == Init::Meta(s.slice(h).spec_meta()));
        assert(cn[at + 6] == Init::Meta(s.slice(h).spec_meta()));
        assert(cn[at + 7] == Init::Meta(s.scores().spec_meta()));
        assert(cn[at + 8] == Init::Meta(s.scale().spec_meta()));
        assert(cn[at + 9] == Init::Meta(s.values().spec_meta()));
        assert(cn[at + 10] == Init::Meta(s.slice(h).spec_meta()));
        assert forall|i: int| 4 <= i < 11 implies cn[at + i] == #[trigger] e[at + i] by {
            trainer_laws::lemma_prefix_at(cn, e, at + i);
        }
        let prev = ops::causal_nodes(
            c,
            q,
            k,
            v,
            scratch,
            out,
            s.seq_len,
            s.dim,
            s.num_heads,
            h as nat,
        );
        let g = ops::causal_head_nodes(
            ch,
            q,
            k,
            v,
            scratch,
            out,
            s.seq_len,
            s.dim,
            s.num_heads,
            h,
        );
        let before = meaning::run(e, prev, mem);
        meaning::run_is_sequential(e, prev, g, mem);
        let hd = s.head_dim();
        let own = seq![
            ops::head_buffer(ch, s.seq_len, hd, 0),
            ops::head_buffer(ch, s.seq_len, hd, 1),
            ops::head_buffer(ch, s.seq_len, hd, 2),
            ops::head_buffer(ch, s.seq_len, hd, 3),
            scratch,
            out,
        ];
        assert(own[0].id == at && own[1].id == at + 1 && own[2].id == at + 2);
        assert(own[3].id == at + 3);
        let metas = seq![
            g[0].buffers[2],
            g[1].buffers[2],
            g[2].buffers[2],
            g[3].buffers[3],
            g[4].buffers[1],
            g[5].buffers[3],
            g[6].buffers[2],
        ];
        assert(metas[0].id == at + 4 && metas[1].id == at + 5 && metas[2].id == at + 6);
        assert(metas[3].id == at + 7 && metas[4].id == at + 8 && metas[5].id == at + 9);
        assert(metas[6].id == at + 10);
        assert(e[at + 4] == e[at + 4] && e[at + 5] == e[at + 5] && e[at + 6] == e[at + 6]);
        assert(e[at + 7] == e[at + 7] && e[at + 8] == e[at + 8] && e[at + 9] == e[at + 9]);
        assert(e[at + 10] == e[at + 10]);
        lemma_six(own);
        lemma_head_runs(e, s, h, seq![q, k, v], own, metas, g, before);
        let after = meaning::run(e, g, before);
        assert(own[4] == scratch && own[5] == out);
        assert forall|t: Tensor|
            t.id < c.len() && t != out && t != scratch implies #[trigger] after[t] == mem[t] by {
            assert(!own.contains(t));
        }
    }
}

// ---- backward ----

/// The eleven dispatches that take one head back. `own` holds the shared scratch
/// buffers and the three gradients.
proof fn lemma_head_back(
    e: Seq<Init>,
    s: Heads,
    h: int,
    saved: Seq<Tensor>,
    dy: Tensor,
    own: Seq<Tensor>,
    metas: Seq<Tensor>,
    zero_meta: Tensor,
    len: u32,
    g: Seq<NodeView>,
    q: Term,
    k: Term,
    v: Term,
    mem: Memory,
)
    requires
        ops::causal_fits(s.seq_len, s.dim, s.num_heads),
        0 <= h < s.num_heads,
        saved.len() == 4 && own.len() == 9 && metas.len() == 6,
        own.no_duplicates(),
        !own.contains(dy),
        forall|i: int| 0 <= i < 4 ==> !own.contains(#[trigger] saved[i]),
        meaning::holds(e, metas[0], s.slice(h).spec_meta()),
        meaning::holds(e, metas[1], s.values().spec_meta()),
        meaning::holds(e, metas[2], s.scores().spec_meta()),
        meaning::holds(e, metas[3], s.values().spec_meta()),
        meaning::holds(e, metas[4], s.values().spec_meta()),
        meaning::holds(e, metas[5], s.scale().spec_meta()),
        mem[saved[0]] == meaning::columns(head_columns(s, h), q),
        mem[saved[1]] == meaning::columns(head_columns(s, h), k),
        mem[saved[2]] == meaning::columns(head_columns(s, h), v),
        mem[saved[3]] == head_probs(s, h, q, k),
        g == seq![
            emit::head_gather_node(dy, own[0], s.slice(h), metas[0]),
            ops::zero_node(own[3], len, zero_meta),
            emit::matmul_weight_bwd_node(saved[3], own[0], own[3], s.values(), metas[1]),
            emit::matmul_trp_node(own[0], saved[2], own[4], s.scores(), metas[2]),
            ops::softmax_bwd_node(saved[3], own[4], own[5], s.scale(), metas[5]),
            ops::matmul_node(own[5], saved[1], own[1], s.values(), metas[3]),
            ops::zero_node(own[2], len, zero_meta),
            emit::matmul_weight_bwd_node(own[5], saved[0], own[2], s.values(), metas[4]),
            emit::head_scatter_node(own[1], own[6], s.slice(h), metas[0]),
            emit::head_scatter_node(own[2], own[7], s.slice(h), metas[0]),
            emit::head_scatter_node(own[3], own[8], s.slice(h), metas[0]),
        ],
    ensures
        ({
            let after = meaning::run(e, g, mem);
            let m = head_columns(s, h);
            let grad = |of: int| head_grad(of, s, h, q, k, v, mem[dy]);
            &&& after[own[6]] == meaning::with_columns(m, mem[own[6]], grad(0))
            &&& after[own[7]] == meaning::with_columns(m, mem[own[7]], grad(1))
            &&& after[own[8]] == meaning::with_columns(m, mem[own[8]], grad(2))
            &&& forall|t: Tensor| !own.contains(t) ==> #[trigger] after[t] == mem[t]
        }),
{
    ops::lemma_head_sizes(s.seq_len, s.dim, s.num_heads, h);
    assert(s.slice(h) == head_columns(s, h));
    let m1 = meaning::exec(e, g[0], mem);
    let m2 = meaning::exec(e, g[1], m1);
    let m3 = meaning::exec(e, g[2], m2);
    let m4 = meaning::exec(e, g[3], m3);
    let m5 = meaning::exec(e, g[4], m4);
    let m6 = meaning::exec(e, g[5], m5);
    let m7 = meaning::exec(e, g[6], m6);
    let m8 = meaning::exec(e, g[7], m7);
    let m9 = meaning::exec(e, g[8], m8);
    let m10 = meaning::exec(e, g[9], m9);
    let m11 = meaning::exec(e, g[10], m10);
    assert(meaning::run(e, g, mem) == m11) by {
        let a = seq![g[0], g[1], g[2], g[3], g[4]];
        let b = seq![g[5], g[6], g[7], g[8], g[9]];
        meaning::lemma_run_five(e, a, mem);
        meaning::lemma_run_five(e, b, m5);
        meaning::run_is_sequential(e, a, b, mem);
        meaning::lemma_run_push(e, a + b, g[10], mem);
        assert((a + b).push(g[10]) =~= g);
    }
    lemma_nine(own);
    assert(own.contains(own[0]) && own.contains(own[1]) && own.contains(own[2]));
    assert(own.contains(own[3]) && own.contains(own[4]) && own.contains(own[5]));
    assert(own.contains(own[6]) && own.contains(own[7]) && own.contains(own[8]));
    assert(saved[0] == saved[0] && saved[1] == saved[1] && saved[2] == saved[2]);
    assert(!own.contains(saved[0]) && !own.contains(saved[1]));
    assert(!own.contains(saved[2]) && !own.contains(saved[3]));
    let (n, w) = (s.seq_len as int, s.dim as int / s.num_heads as int);
    let m = head_columns(s, h);
    let probs = head_probs(s, h, q, k);
    let y = meaning::product(n, n, w, probs, meaning::columns(m, v));
    let g_head = meaning::columns(m, mem[dy]);
    let g_probs = meaning::back(y, 0, g_head);
    assert(m1[own[0]] == g_head);
    assert(m3[own[3]] == meaning::sum(Term::Zero, meaning::back(y, 1, g_head)));
    assert(m4[own[4]] == g_probs);
    assert(m5[own[5]] == meaning::back(probs, 0, g_probs));
    assert(m6[own[1]] == head_grad(0, s, h, q, k, v, mem[dy]));
    assert(m8[own[2]] == head_grad(1, s, h, q, k, v, mem[dy]));
    assert(m10[own[3]] == m3[own[3]]);
    assert(m8[own[1]] == m6[own[1]] && m9[own[2]] == m8[own[2]]);
    assert forall|t: Tensor| !own.contains(t) implies #[trigger] m11[t] == mem[t] by {
    }
}

proof fn lemma_nine(own: Seq<Tensor>)
    requires
        own.len() == 9,
        own.no_duplicates(),
    ensures
        own[0] != own[1] && own[0] != own[2] && own[0] != own[3] && own[0] != own[4],
        own[0] != own[5] && own[0] != own[6] && own[0] != own[7] && own[0] != own[8],
        own[1] != own[2] && own[1] != own[3] && own[1] != own[4] && own[1] != own[5],
        own[1] != own[6] && own[1] != own[7] && own[1] != own[8],
        own[2] != own[3] && own[2] != own[4] && own[2] != own[5] && own[2] != own[6],
        own[2] != own[7] && own[2] != own[8],
        own[3] != own[4] && own[3] != own[5] && own[3] != own[6] && own[3] != own[7],
        own[3] != own[8] && own[4] != own[5] && own[4] != own[6] && own[4] != own[7],
        own[4] != own[8] && own[5] != own[6] && own[5] != own[7] && own[5] != own[8],
        own[6] != own[7] && own[6] != own[8] && own[7] != own[8],
{
}

/// The buffers that the backward heads write: scratch, then the three gradients.
spec fn back_bufs(x: Scratch, dq: Tensor, dk: Tensor, dv: Tensor) -> Seq<Tensor> {
    seq![
        x.grad_out_head,
        x.grad_q_head,
        x.grad_k_head,
        x.grad_v_head,
        x.grad_y,
        x.grad_raw,
        dq,
        dk,
        dv,
    ]
}

/// The backward dispatches of the first `n` heads. `f` is where the forward heads
/// started, `c` where these start.
proof fn lemma_heads_backward(
    e: Seq<Init>,
    s: Heads,
    f: Seq<Init>,
    c: Seq<Init>,
    x: Scratch,
    dy: Tensor,
    dq: Tensor,
    dk: Tensor,
    dv: Tensor,
    q: Term,
    k: Term,
    v: Term,
    mem: Memory,
    n: nat,
)
    requires
        ops::causal_fits(s.seq_len, s.dim, s.num_heads),
        n <= s.num_heads,
        s.bwd_ctx(c, s.num_heads as nat).is_prefix_of(e),
        e.len() <= usize::MAX,
        meaning::holds(e, x.meta_seq, s.scale().spec_meta()),
        back_bufs(x, dq, dk, dv).no_duplicates(),
        !back_bufs(x, dq, dk, dv).contains(dy),
        forall|h: int, i: int|
            0 <= h < s.num_heads && 0 <= i < 4 ==> !back_bufs(x, dq, dk, dv).contains(
                #[trigger] s.buf(f, h, i),
            ),
        forall|h: int|
            #![trigger s.buf(f, h, 0)]
            0 <= h < s.num_heads ==> {
                &&& mem[s.buf(f, h, 0)] == meaning::columns(head_columns(s, h), q)
                &&& mem[s.buf(f, h, 1)] == meaning::columns(head_columns(s, h), k)
                &&& mem[s.buf(f, h, 2)] == meaning::columns(head_columns(s, h), v)
                &&& mem[s.buf(f, h, 3)] == head_probs(s, h, q, k)
            },
    ensures
        ({
            let after = meaning::run(e, s.bwd_nodes(f, c, x, dy, dq, dk, dv, n), mem);
            &&& after[dq] == by_heads_back(0, s, mem[dq], q, k, v, mem[dy], n)
            &&& after[dk] == by_heads_back(1, s, mem[dk], q, k, v, mem[dy], n)
            &&& after[dv] == by_heads_back(2, s, mem[dv], q, k, v, mem[dy], n)
            &&& forall|t: Tensor|
                !back_bufs(x, dq, dk, dv).contains(t) ==> #[trigger] after[t] == mem[t]
        }),
    decreases n,
{
    if n > 0 {
        let h = n - 1;
        lemma_heads_backward(e, s, f, c, x, dy, dq, dk, dv, q, k, v, mem, h as nat);
        lemma_backs_extend(s, c, h as nat);
        lemma_backs_extend(s, c, n);
        lemma_backs_grow(s, c, n, s.num_heads as nat);
        lemma_backs_extend(s, c, s.num_heads as nat);
        let ch = s.bwd_ctx(c, h as nat);
        let cn = s.bwd_ctx(c, n);
        let at = ch.len() as int;
        assert(cn[at] == Init::Meta(s.slice(h).spec_meta()));
        assert(cn[at + 1] == Init::Meta(s.values().spec_meta()));
        assert(cn[at + 2] == Init::Meta(s.scores().spec_meta()));
        assert(cn[at + 3] == Init::Meta(s.values().spec_meta()));
        assert(cn[at + 4] == Init::Meta(s.values().spec_meta()));
        trainer_block_laws::lemma_prefix_trans(cn, s.bwd_ctx(c, s.num_heads as nat), e);
        trainer_laws::lemma_prefix_at(cn, e, at);
        trainer_laws::lemma_prefix_at(cn, e, at + 1);
        trainer_laws::lemma_prefix_at(cn, e, at + 2);
        trainer_laws::lemma_prefix_at(cn, e, at + 3);
        trainer_laws::lemma_prefix_at(cn, e, at + 4);
        let prev = s.bwd_nodes(f, c, x, dy, dq, dk, dv, h as nat);
        let saved = seq![s.buf(f, h, 0), s.buf(f, h, 1), s.buf(f, h, 2), s.buf(f, h, 3)];
        let g = s.bwd_head_nodes(
            ch,
            x,
            saved[0],
            saved[1],
            saved[2],
            saved[3],
            dy,
            dq,
            dk,
            dv,
            h,
        );
        let before = meaning::run(e, prev, mem);
        meaning::run_is_sequential(e, prev, g, mem);
        let own = back_bufs(x, dq, dk, dv);
        assert(own[6] == dq && own[7] == dk && own[8] == dv);
        let metas = seq![
            g[0].buffers[2],
            g[2].buffers[3],
            g[3].buffers[3],
            g[5].buffers[3],
            g[7].buffers[3],
            x.meta_seq,
        ];
        assert(metas[0].id == at && metas[1].id == at + 1 && metas[2].id == at + 2);
        assert(metas[3].id == at + 3 && metas[4].id == at + 4);
        assert(!own.contains(s.buf(f, h, 0)) && !own.contains(s.buf(f, h, 1)));
        assert(!own.contains(s.buf(f, h, 2)) && !own.contains(s.buf(f, h, 3)));
        lemma_head_back(
            e,
            s,
            h,
            saved,
            dy,
            own,
            metas,
            x.zero_meta,
            s.head_size() as u32,
            g,
            q,
            k,
            v,
            before,
        );
    }
}

/// The backward pass of attention by heads hands the derivative of every head back to
/// its columns of queries, keys and values, when the heads' buffers hold what the
/// forward pass left there.
pub proof fn heads_hand_back(
    s: Heads,
    c: Seq<Init>,
    e: Seq<Init>,
    dy: Tensor,
    dq: Tensor,
    dk: Tensor,
    dv: Tensor,
    q: Term,
    k: Term,
    v: Term,
    mem: Memory,
)
    requires
        ops::causal_fits(s.seq_len, s.dim, s.num_heads),
        s.new_ctx(c).is_prefix_of(e),
        e.len() <= usize::MAX,
        dy.id < c.len() && dq.id < c.len() && dk.id < c.len() && dv.id < c.len(),
        dq != dk && dq != dv && dk != dv && dy != dq && dy != dk && dy != dv,
        forall|h: int|
            #![trigger s.buf(s.fwd_start(s.new_start(c)), h, 0)]
            0 <= h < s.num_heads ==> {
                let f = s.fwd_start(s.new_start(c));
                &&& mem[s.buf(f, h, 0)] == meaning::columns(head_columns(s, h), q)
                &&& mem[s.buf(f, h, 1)] == meaning::columns(head_columns(s, h), k)
                &&& mem[s.buf(f, h, 2)] == meaning::columns(head_columns(s, h), v)
                &&& mem[s.buf(f, h, 3)] == head_probs(s, h, q, k)
            },
    ensures
        ({
            let after = meaning::run(e, s.backward(c, dy, dq, dk, dv), mem);
            let n = s.num_heads as nat;
            &&& after[dq] == by_heads_back(0, s, mem[dq], q, k, v, mem[dy], n)
            &&& after[dk] == by_heads_back(1, s, mem[dk], q, k, v, mem[dy], n)
            &&& after[dv] == by_heads_back(2, s, mem[dv], q, k, v, mem[dy], n)
            &&& forall|t: Tensor|
                t.id < c.len() && t != dq && t != dk && t != dv ==> #[trigger] after[t] == mem[t]
        }),
{
    let cs = s.new_start(c);
    let f = s.fwd_start(cs);
    let cf = s.forward_ctx(cs);
    let cb = s.scratch_ctx(cf);
    let n = s.num_heads as nat;
    lemma_new_extends(s, c);
    lemma_heads_extend(s, f, n);
    lemma_backs_extend(s, cb, n);
    let meta_seq = device::next_meta(
        device::push_zeros(c, s.seq_len * s.dim),
        s.scale().spec_meta(),
    );
    assert(cs[c.len() as int + 1] == Init::Meta(s.scale().spec_meta()));
    assert(cs.is_prefix_of(f));
    trainer_block_laws::lemma_prefix_trans(cs, f, cf);
    trainer_block_laws::lemma_prefix_trans(cf, s.new_ctx(c), e);
    trainer_block_laws::lemma_prefix_trans(cs, cf, e);
    trainer_laws::lemma_prefix_at(cs, e, c.len() as int + 1);
    let x = s.scratch(cf, meta_seq);
    let own = back_bufs(x, dq, dk, dv);
    assert(x.grad_out_head.id == cf.len() && x.grad_q_head.id == cf.len() + 1);
    assert(x.grad_k_head.id == cf.len() + 2 && x.grad_v_head.id == cf.len() + 3);
    assert(x.grad_y.id == cf.len() + 4 && x.grad_raw.id == cf.len() + 5);
    assert(own.no_duplicates());
    assert(!own.contains(dy));
    assert forall|h: int, i: int| 0 <= h < s.num_heads && 0 <= i < 4 implies !own.contains(
        #[trigger] s.buf(f, h, i),
    ) by {
        lemma_heads_extend(s, f, h as nat);
        assert(s.buf(f, h, i).id == f.len() + 7 * h + 1 + i);
    }
    lemma_heads_backward(e, s, f, cb, x, dy, dq, dk, dv, q, k, v, mem, n);
    let after = meaning::run(e, s.backward(c, dy, dq, dk, dv), mem);
    assert forall|t: Tensor|
        t.id < c.len() && t != dq && t != dk && t != dv implies #[trigger] after[t] == mem[t] by {
        assert(!own.contains(t));
    }
}

} // verus!
