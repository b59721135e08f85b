//! What dispatches compute. A buffer's content is a formula over what the buffers
//! held before; a kernel makes new formulas of those in its slots and of the record
//! in its meta slot. Laws about graphs are stated over the formulas that their
//! buffers end up with.
use super::kernels::meta::{
    AttnCachedMeta, AttnScaleMeta, CacheWriteMeta, CrossEntropyMeta, EmbeddingMeta, FlashAttnMeta,
    GradNormMeta, GradSumSqMeta, HeadMoveMeta, Meta, NormMeta, SoftmaxRectMeta,
};
use crate::device::{Init, Kernel, NodeView, Tensor};
use vstd::prelude::*;

verus! {

/// Which rows are rotated, and from which position on they count.
pub struct Turn {
    pub first: int,
    pub rows: int,
    pub dim: int,
    pub head_dim: int,
    pub pos: int,
}

/// The content of a buffer.
pub enum Term {
    /// Some content, told apart by a number.
    Given(int),
    Zero,
    /// `a + b`, entry by entry.
    Sum(Box<Term>, Box<Term>),
    /// The product of an `m` by `k` matrix and a `k` by `n` matrix.
    Product(int, int, int, Box<Term>, Box<Term>),
    /// The transpose of a matrix with so many rows and columns.
    Transposed(int, int, Box<Term>),
    /// The rows of a matrix, each scaled to unit mean square, times a gain.
    Norm(NormMeta, Box<Term>, Box<Term>),
    /// The scale of each row.
    RowScale(NormMeta, Box<Term>),
    /// What reaches the rows of a norm with this gain when the last reaches its
    /// result.
    NormBack(NormMeta, Box<Term>, Box<Term>, Box<Term>),
    /// What reaches the gain, from the rows, their scales and what reaches the result.
    GainBack(NormMeta, Box<Term>, Box<Term>, Box<Term>),
    /// The rows of a table that the tokens name.
    Lookup(EmbeddingMeta, Box<Term>, Box<Term>),
    /// A table with each row of the second summed up in the row that its token names.
    LookupBack(EmbeddingMeta, Box<Term>, Box<Term>),
    Rotated(Turn, Box<Term>),
    /// Rotated the other way.
    Unrotated(Turn, Box<Term>),
    /// So many columns of a matrix, from an offset on.
    Columns(HeadMoveMeta, Box<Term>),
    /// The first matrix with the second in those columns.
    WithColumns(HeadMoveMeta, Box<Term>, Box<Term>),
    /// Three matrices side by side.
    Joined(HeadMoveMeta, Box<Term>, Box<Term>, Box<Term>),
    Silu(Box<Term>),
    /// What reaches the input of the activation, from the input and what reaches its
    /// result.
    SiluBack(Box<Term>, Box<Term>),
    /// The products of a query row with key rows, head by head.
    Scores(AttnCachedMeta, Box<Term>, Box<Term>),
    Softmax(SoftmaxRectMeta, Box<Term>),
    /// Value rows, weighed by probabilities, head by head.
    Weighed(AttnCachedMeta, Box<Term>, Box<Term>),
    /// The softmax of square scores over the columns up to the row's own.
    CausalSoftmax(AttnScaleMeta, Box<Term>),
    /// What reaches the scores, from the probabilities and what reaches those.
    SoftmaxBack(AttnScaleMeta, Box<Term>, Box<Term>),
    /// The first matrix with rows of the second from a row on.
    WithRows(CacheWriteMeta, Box<Term>, Box<Term>),
    /// The first matrix with the causal attention of queries to keys and values in the
    /// rows of a sequence.
    Attention(FlashAttnMeta, Box<Term>, Box<Term>, Box<Term>, Box<Term>),
    /// The normalizers of that attention, from queries and keys.
    Normalizers(FlashAttnMeta, Box<Term>, Box<Term>),
    /// The products of rows of one matrix with the same rows of another, head by head.
    RowDots(FlashAttnMeta, Box<Term>, Box<Term>),
    /// The first matrix with what reaches queries, keys or values (number 0, 1 or 2) in
    /// the rows of a sequence: from queries, keys, values, row products, what reaches
    /// the result, and normalizers.
    AttentionBack(
        int,
        FlashAttnMeta,
        Box<Term>,
        Box<Term>,
        Box<Term>,
        Box<Term>,
        Box<Term>,
        Box<Term>,
        Box<Term>,
    ),
    /// The probabilities of the rows' logits.
    Probs(CrossEntropyMeta, Box<Term>),
    /// The loss of each row, from logits and targets.
    Losses(CrossEntropyMeta, Box<Term>, Box<Term>),
    /// What reaches the logits, from probabilities, targets and row scales.
    LossBack(CrossEntropyMeta, Box<Term>, Box<Term>, Box<Term>),
    /// The first list with the sums of squares of so many parts of the second.
    WithSquares(GradSumSqMeta, int, Box<Term>, Box<Term>),
    /// The factor that brings the root of the summed list down to a norm.
    ClipFactor(GradNormMeta, Box<Term>),
    /// So many entries, times a factor.
    Scaled(int, Box<Term>, Box<Term>),
}

/// What every buffer holds.
pub type Memory = Map<Tensor, Term>;

// ---- formulas ----

pub open spec fn sum(a: Term, b: Term) -> Term {
    Term::Sum(Box::new(a), Box::new(b))
}

pub open spec fn product(m: int, k: int, n: int, a: Term, b: Term) -> Term {
    Term::Product(m, k, n, Box::new(a), Box::new(b))
}

pub open spec fn transposed(rows: int, cols: int, a: Term) -> Term {
    Term::Transposed(rows, cols, Box::new(a))
}

pub open spec fn norm(s: NormMeta, x: Term, gain: Term) -> Term {
    Term::Norm(s, Box::new(x), Box::new(gain))
}

pub open spec fn row_scale(s: NormMeta, x: Term) -> Term {
    Term::RowScale(s, Box::new(x))
}

pub open spec fn norm_back(s: NormMeta, x: Term, gain: Term, g: Term) -> Term {
    Term::NormBack(s, Box::new(x), Box::new(gain), Box::new(g))
}

pub open spec fn gain_back(s: NormMeta, x: Term, scale: Term, g: Term) -> Term {
    Term::GainBack(s, Box::new(x), Box::new(scale), Box::new(g))
}

pub open spec fn lookup(s: EmbeddingMeta, tokens: Term, table: Term) -> Term {
    Term::Lookup(s, Box::new(tokens), Box::new(table))
}

pub open spec fn lookup_back(s: EmbeddingMeta, tokens: Term, g: Term) -> Term {
    Term::LookupBack(s, Box::new(tokens), Box::new(g))
}

pub open spec fn rotated(t: Turn, x: Term) -> Term {
    Term::Rotated(t, Box::new(x))
}

pub open spec fn unrotated(t: Turn, x: Term) -> Term {
    Term::Unrotated(t, Box::new(x))
}

pub open spec fn columns(s: HeadMoveMeta, x: Term) -> Term {
    Term::Columns(s, Box::new(x))
}

pub open spec fn with_columns(s: HeadMoveMeta, into: Term, x: Term) -> Term {
    Term::WithColumns(s, Box::new(into), Box::new(x))
}

pub open spec fn joined(s: HeadMoveMeta, q: Term, k: Term, v: Term) -> Term {
    Term::Joined(s, Box::new(q), Box::new(k), Box::new(v))
}

pub open spec fn silu(x: Term) -> Term {
    Term::Silu(Box::new(x))
}

pub open spec fn silu_back(x: Term, g: Term) -> Term {
    Term::SiluBack(Box::new(x), Box::new(g))
}

pub open spec fn scores(s: AttnCachedMeta, q: Term, keys: Term) -> Term {
    Term::Scores(s, Box::new(q), Box::new(keys))
}

pub open spec fn softmax(s: SoftmaxRectMeta, x: Term) -> Term {
    Term::Softmax(s, Box::new(x))
}

pub open spec fn weighed(s: AttnCachedMeta, probs: Term, values: Term) -> Term {
    Term::Weighed(s, Box::new(probs), Box::new(values))
}

pub open spec fn causal_softmax(s: AttnScaleMeta, x: Term) -> Term {
    Term::CausalSoftmax(s, Box::new(x))
}

pub open spec fn softmax_back(s: AttnScaleMeta, probs: Term, g: Term) -> Term {
    Term::SoftmaxBack(s, Box::new(probs), Box::new(g))
}

pub open spec fn with_rows(s: CacheWriteMeta, into: Term, rows: Term) -> Term {
    Term::WithRows(s, Box::new(into), Box::new(rows))
}

pub open spec fn attention(s: FlashAttnMeta, into: Term, q: Term, k: Term, v: Term) -> Term {
    Term::Attention(s, Box::new(into), Box::new(q), Box::new(k), Box::new(v))
}

pub open spec fn normalizers(s: FlashAttnMeta, q: Term, k: Term) -> Term {
    Term::Normalizers(s, Box::new(q), Box::new(k))
}

pub open spec fn row_dots(s: FlashAttnMeta, a: Term, b: Term) -> Term {
    Term::RowDots(s, Box::new(a), Box::new(b))
}

pub open spec fn attention_back(
    of: int,
    s: FlashAttnMeta,
    into: Term,
    q: Term,
    k: Term,
    v: Term,
    dots: Term,
    g: Term,
    normalizers: Term,
) -> Term {
    Term::AttentionBack(
        of,
        s,
        Box::new(into),
        Box::new(q),
        Box::new(k),
        Box::new(v),
        Box::new(dots),
        Box::new(g),
        Box::new(normalizers),
    )
}

pub open spec fn probs(s: CrossEntropyMeta, logits: Term) -> Term {
    Term::Probs(s, Box::new(logits))
}

pub open spec fn losses(s: CrossEntropyMeta, logits: Term, targets: Term) -> Term {
    Term::Losses(s, Box::new(logits), Box::new(targets))
}

pub open spec fn loss_back(s: CrossEntropyMeta, probs: Term, targets: Term, scales: Term) -> Term {
    Term::LossBack(s, Box::new(probs), Box::new(targets), Box::new(scales))
}

pub open spec fn with_squares(s: GradSumSqMeta, parts: int, into: Term, x: Term) -> Term {
    Term::WithSquares(s, parts, Box::new(into), Box::new(x))
}

pub open spec fn clip_factor(s: GradNormMeta, squares: Term) -> Term {
    Term::ClipFactor(s, Box::new(squares))
}

pub open spec fn scaled(n: int, x: Term, factor: Term) -> Term {
    Term::Scaled(n, Box::new(x), Box::new(factor))
}

// ---- kernels ----

/// The record in a meta buffer of `c`.
pub open spec fn record(c: Seq<Init>, t: Tensor) -> Meta {
    c[t.id as int]->Meta_0
}

/// `t` is a meta buffer of `c` and holds `m`.
pub open spec fn holds(c: Seq<Init>, t: Tensor, m: Meta) -> bool {
    t.id < c.len() && c[t.id as int] == Init::Meta(m)
}

/// The rows and positions that a rotation's record names.
pub open spec fn turn_of(m: Meta) -> Turn {
    match m {
        Meta::Rope(s) => Turn {
            first: s.row_offset as int,
            rows: s.seq_len as int,
            dim: s.dim as int,
            head_dim: s.head_dim as int,
            pos: 0,
        },
        Meta::RopeLayer(s) => Turn {
            first: 0,
            rows: s.seq_len as int,
            dim: s.dim as int,
            head_dim: s.head_dim as int,
            pos: 0,
        },
        Meta::RopeOffset(s) => Turn {
            first: 0,
            rows: s.seq_len as int,
            dim: s.dim as int,
            head_dim: s.head_dim as int,
            pos: s.pos as int,
        },
        _ => Turn { first: 0, rows: 0, dim: 0, head_dim: 0, pos: 0 },
    }
}

/// The slice `i` of three equal ones, the first of which `s` names.
pub open spec fn slice(s: HeadMoveMeta, i: int) -> HeadMoveMeta {
    HeadMoveMeta { head_offset: (s.head_offset + i * s.head_dim) as u32, ..s }
}

/// What is in memory after a dispatch.
pub open spec fn exec(c: Seq<Init>, n: NodeView, mem: Memory) -> Memory {
    let b = n.buffers;
    let meta = record(c, b.last());
    match n.kernel {
        Kernel::MatMul | Kernel::Gemv => {
            let s = meta->MatMul_0;
            mem.insert(b[2], product(s.m as int, s.k as int, s.n as int, mem[b[0]], mem[b[1]]))
        },
        Kernel::MatMulTrp => {
            let s = meta->MatMul_0;
            mem.insert(
                b[2],
                product(
                    s.m as int,
                    s.k as int,
                    s.n as int,
                    mem[b[0]],
                    transposed(s.n as int, s.k as int, mem[b[1]]),
                ),
            )
        },
        Kernel::MatMulAdd | Kernel::GemvAdd => {
            let s = meta->MatMul_0;
            mem.insert(
                b[2],
                sum(
                    mem[b[2]],
                    product(s.m as int, s.k as int, s.n as int, mem[b[0]], mem[b[1]]),
                ),
            )
        },
        Kernel::MatMulWeightBwd => {
            let s = meta->MatMul_0;
            mem.insert(
                b[2],
                sum(
                    mem[b[2]],
                    product(
                        s.k as int,
                        s.m as int,
                        s.n as int,
                        transposed(s.m as int, s.k as int, mem[b[0]]),
                        mem[b[1]],
                    ),
                ),
            )
        },
        Kernel::ResidualAdd | Kernel::BwdAddInplace => mem.insert(
            b[0],
            sum(mem[b[0]], mem[b[1]]),
        ),
        Kernel::ZeroTensor => mem.insert(b[0], Term::Zero),
        Kernel::RmsNorm => mem.insert(b[2], norm(meta->Norm_0, mem[b[0]], mem[b[1]])),
        Kernel::RmsNormBwd => mem.insert(
            b[3],
            norm_back(meta->Norm_0, mem[b[1]], mem[b[2]], mem[b[0]]),
        ).insert(b[4], row_scale(meta->Norm_0, mem[b[1]])),
        Kernel::RmsNormWeightBwd => mem.insert(
            b[3],
            sum(mem[b[3]], gain_back(meta->Norm_0, mem[b[1]], mem[b[2]], mem[b[0]])),
        ),
        Kernel::Embedding => mem.insert(b[2], lookup(meta->Embedding_0, mem[b[0]], mem[b[1]])),
        Kernel::EmbeddingBwd => mem.insert(
            b[2],
            sum(mem[b[2]], lookup_back(meta->Embedding_0, mem[b[0]], mem[b[1]])),
        ),
        Kernel::Rope | Kernel::RopeOffset => mem.insert(b[0], rotated(turn_of(meta), mem[b[0]])),
        Kernel::RopeBwd => mem.insert(b[0], unrotated(turn_of(meta), mem[b[0]])),
        Kernel::RopeQk => mem.insert(b[0], rotated(turn_of(meta), mem[b[0]])).insert(
            b[1],
            rotated(turn_of(meta), mem[b[1]]),
        ),
        Kernel::RopeBwdQk => mem.insert(b[0], unrotated(turn_of(meta), mem[b[0]])).insert(
            b[1],
            unrotated(turn_of(meta), mem[b[1]]),
        ),
        Kernel::HeadGather => mem.insert(b[1], columns(meta->HeadMove_0, mem[b[0]])),
        Kernel::HeadScatter => mem.insert(
            b[1],
            with_columns(meta->HeadMove_0, mem[b[1]], mem[b[0]]),
        ),
        Kernel::QkvSplit => {
            let s = meta->HeadMove_0;
            mem.insert(b[1], columns(slice(s, 0), mem[b[0]])).insert(
                b[2],
                columns(slice(s, 1), mem[b[0]]),
            ).insert(b[3], columns(slice(s, 2), mem[b[0]]))
        },
        Kernel::QkvScatter => mem.insert(
            b[3],
            joined(meta->HeadMove_0, mem[b[0]], mem[b[1]], mem[b[2]]),
        ),
        Kernel::AttnQkCached => mem.insert(
            b[2],
            scores(meta->AttnCached_0, mem[b[0]], mem[b[1]]),
        ),
        Kernel::AttnAvCached => mem.insert(
            b[2],
            weighed(meta->AttnCached_0, mem[b[0]], mem[b[1]]),
        ),
        Kernel::SoftmaxRect => mem.insert(b[0], softmax(meta->SoftmaxRect_0, mem[b[0]])),
        Kernel::CausalSoftmax => mem.insert(
            b[0],
            causal_softmax(meta->AttnScale_0, mem[b[0]]),
        ),
        Kernel::SoftmaxBwd => mem.insert(
            b[2],
            softmax_back(meta->AttnScale_0, mem[b[0]], mem[b[1]]),
        ),
        Kernel::FlashAttention => {
            let s = meta->FlashAttn_0;
            mem.insert(b[3], attention(s, mem[b[3]], mem[b[0]], mem[b[1]], mem[b[2]])).insert(
                b[4],
                normalizers(s, mem[b[0]], mem[b[1]]),
            )
        },
        Kernel::FlashAttentionBwdD => mem.insert(
            b[2],
            row_dots(meta->FlashAttn_0, mem[b[0]], mem[b[1]]),
        ),
        Kernel::FlashAttentionBwdDq => mem.insert(
            b[6],
            attention_back(
                0,
                meta->FlashAttn_0,
                mem[b[6]],
                mem[b[0]],
                mem[b[1]],
                mem[b[2]],
                mem[b[3]],
                mem[b[4]],
                mem[b[5]],
            ),
        ),
        Kernel::FlashAttentionBwdDkDv => {
            let s = meta->FlashAttn_0;
            mem.insert(
                b[6],
                attention_back(
                    1,
                    s,
                    mem[b[6]],
                    mem[b[0]],
                    mem[b[1]],
                    mem[b[2]],
                    mem[b[3]],
                    mem[b[4]],
                    mem[b[5]],
                ),
            ).insert(
                b[7],
                attention_back(
                    2,
                    s,
                    mem[b[7]],
                    mem[b[0]],
                    mem[b[1]],
                    mem[b[2]],
                    mem[b[3]],
                    mem[b[4]],
                    mem[b[5]],
                ),
            )
        },
        Kernel::FlashAttentionBwdDqFromOut => {
            let s = meta->FlashAttn_0;
            mem.insert(
                b[6],
                attention_back(
                    0,
                    s,
                    mem[b[6]],
                    mem[b[0]],
                    mem[b[1]],
                    mem[b[2]],
                    row_dots(s, mem[b[4]], mem[b[3]]),
                    mem[b[4]],
                    mem[b[5]],
                ),
            )
        },
        Kernel::FlashAttentionBwdDkDvFromOut => {
            let s = meta->FlashAttn_0;
            let dots = row_dots(s, mem[b[4]], mem[b[3]]);
            mem.insert(
                b[6],
                attention_back(
                    1,
                    s,
                    mem[b[6]],
                    mem[b[0]],
                    mem[b[1]],
                    mem[b[2]],
                    dots,
                    mem[b[4]],
                    mem[b[5]],
                ),
            ).insert(
                b[7],
                attention_back(
                    2,
                    s,
                    mem[b[7]],
                    mem[b[0]],
                    mem[b[1]],
                    mem[b[2]],
                    dots,
                    mem[b[4]],
                    mem[b[5]],
                ),
            )
        },
        Kernel::CacheWrite => mem.insert(
            b[1],
            with_rows(meta->CacheWrite_0, mem[b[1]], mem[b[0]]),
        ),
        Kernel::Silu => mem.insert(b[0], silu(mem[b[0]])),
        Kernel::SiluOut => mem.insert(b[1], silu(mem[b[0]])),
        Kernel::SiluBwd => mem.insert(b[2], silu_back(mem[b[0]], mem[b[1]])),
        Kernel::Add => mem.insert(b[2], sum(mem[b[0]], mem[b[1]])),
        Kernel::GradSumSq => mem.insert(
            b[1],
            with_squares(meta->GradSumSq_0, n.grid[0] as int, mem[b[1]], mem[b[0]]),
        ),
        Kernel::GradNormScale => mem.insert(b[1], clip_factor(meta->GradNorm_0, mem[b[0]])),
        Kernel::GradScale => mem.insert(
            b[0],
            scaled((meta->Zero_0).len as int, mem[b[0]], mem[b[1]]),
        ),
        Kernel::CrossEntropy => mem.insert(b[0], probs(meta->CrossEntropy_0, mem[b[0]])).insert(
            b[2],
            losses(meta->CrossEntropy_0, mem[b[0]], mem[b[1]]),
        ),
        Kernel::CrossEntropyBwd => mem.insert(
            b[0],
            loss_back(meta->CrossEntropy_0, mem[b[0]], mem[b[1]], mem[b[2]]),
        ),
        Kernel::CrossEntropyProbs => mem.insert(
            b[2],
            probs(meta->CrossEntropy_0, mem[b[0]]),
        ).insert(b[3], losses(meta->CrossEntropy_0, mem[b[0]], mem[b[1]])),
        Kernel::CrossEntropyProbsBwd => mem.insert(
            b[3],
            loss_back(meta->CrossEntropy_0, mem[b[0]], mem[b[1]], mem[b[2]]),
        ),
    }
}

/// What is in memory after the dispatches of a graph.
pub open spec fn run(c: Seq<Init>, g: Seq<NodeView>, mem: Memory) -> Memory
    decreases g.len(),
{
    if g.len() == 0 {
        mem
    } else {
        exec(c, g.last(), run(c, g.drop_last(), mem))
    }
}

/// Two graphs, one behind the other, run one after the other.
pub proof fn run_is_sequential(c: Seq<Init>, a: Seq<NodeView>, b: Seq<NodeView>, mem: Memory)
    ensures
        run(c, a + b, mem) == run(c, b, run(c, a, mem)),
    decreases b.len(),
{
    if b.len() == 0 {
        assert(a + b =~= a);
    } else {
        assert((a + b).drop_last() =~= a + b.drop_last());
        run_is_sequential(c, a, b.drop_last(), mem);
    }
}

/// A graph of one dispatch.
pub proof fn lemma_run_one(c: Seq<Init>, n: NodeView, mem: Memory)
    ensures
        run(c, seq![n], mem) == exec(c, n, mem),
{
    let g = seq![n];
    assert(g.drop_last() =~= Seq::<NodeView>::empty());
    assert(run(c, g.drop_last(), mem) == mem);
}

/// One more dispatch behind a graph.
pub proof fn lemma_run_push(c: Seq<Init>, g: Seq<NodeView>, n: NodeView, mem: Memory)
    ensures
        run(c, g.push(n), mem) == exec(c, n, run(c, g, mem)),
{
    assert(g.push(n).drop_last() =~= g);
}

/// A graph of two dispatches.
pub proof fn lemma_run_two(c: Seq<Init>, n: NodeView, p: NodeView, mem: Memory)
    ensures
        run(c, seq![n, p], mem) == exec(c, p, exec(c, n, mem)),
{
    assert(seq![n, p] =~= seq![n].push(p));
    lemma_run_one(c, n, mem);
    lemma_run_push(c, seq![n], p, mem);
}

/// A graph of three dispatches.
pub proof fn lemma_run_three(c: Seq<Init>, n: NodeView, p: NodeView, q: NodeView, mem: Memory)
    ensures
        run(c, seq![n, p, q], mem) == exec(c, q, exec(c, p, exec(c, n, mem))),
{
    assert(seq![n, p, q] =~= seq![n, p].push(q));
    lemma_run_two(c, n, p, mem);
    lemma_run_push(c, seq![n, p], q, mem);
}

/// A graph of five dispatches.
pub proof fn lemma_run_five(c: Seq<Init>, g: Seq<NodeView>, mem: Memory)
    requires
        g.len() == 5,
    ensures
        run(c, g, mem) == exec(
            c,
            g[4],
            exec(c, g[3], exec(c, g[2], exec(c, g[1], exec(c, g[0], mem)))),
        ),
{
    let first = seq![g[0], g[1], g[2]];
    lemma_run_three(c, g[0], g[1], g[2], mem);
    lemma_run_push(c, first, g[3], mem);
    lemma_run_push(c, first.push(g[3]), g[4], mem);
    assert(first.push(g[3]).push(g[4]) =~= g);
}

// ---- derivatives ----

/// What reaches operand `i` of the operation that `t` ends with, when `g` reaches
/// its result: for a product the product with the other operand transposed, for a
/// sum `g` itself, for a rotation the rotation back, and so on.
pub open spec fn back(t: Term, i: int, g: Term) -> Term {
    match t {
        Term::Sum(_, _) => g,
        Term::Product(m, k, n, a, b) => if i == 0 {
            product(m, n, k, g, transposed(k, n, *b))
        } else {
            product(k, m, n, transposed(m, k, *a), g)
        },
        Term::Norm(s, x, gain) => if i == 0 {
            norm_back(s, *x, *gain, g)
        } else {
            gain_back(s, *x, row_scale(s, *x), g)
        },
        Term::Lookup(s, tokens, _) => lookup_back(s, *tokens, g),
        Term::Rotated(turn, _) => unrotated(turn, g),
        Term::Silu(x) => silu_back(*x, g),
        Term::CausalSoftmax(s, _) => softmax_back(s, t, g),
        _ => Term::Zero,
    }
}

} // verus!
