//! The trainable tensors of a model.
use crate::config::ModelConfig;
use crate::device::Tensor;
use vstd::prelude::*;

verus! {

/// The weights of one transformer block.
#[derive(Clone, Copy, Debug, PartialEq, Eq, Structural)]
pub struct BlockWeights {
    pub norm_1: Tensor,
    pub qkv_proj: Tensor,
    pub out_proj: Tensor,
    pub norm_2: Tensor,
    pub ffn_up: Tensor,
    pub ffn_down: Tensor,
}

/// The weights of a model.
#[derive(Debug)]
pub struct ModelWeights {
    pub cfg: ModelConfig,
    pub embedding: Tensor,
    pub blocks: Vec<BlockWeights>,
    pub final_norm: Tensor,
    pub lm_head: Tensor,
}

/// The value of a `ModelWeights`.
#[verifier::ext_equal]
pub struct ModelWeightsView {
    pub cfg: ModelConfig,
    pub embedding: Tensor,
    pub blocks: Seq<BlockWeights>,
    pub final_norm: Tensor,
    pub lm_head: Tensor,
}

impl View for ModelWeights {
    type V = ModelWeightsView;

    open spec fn view(&self) -> ModelWeightsView {
        ModelWeightsView {
            cfg: self.cfg,
            embedding: self.embedding,
            blocks: self.blocks@,
            final_norm: self.final_norm,
            lm_head: self.lm_head,
        }
    }
}

/// The weights of a block, in checkpoint order.
pub open spec fn block_order(b: BlockWeights) -> Seq<Tensor> {
    seq![b.norm_1, b.qkv_proj, b.out_proj, b.norm_2, b.ffn_up, b.ffn_down]
}

/// The weights of the first `n` blocks.
pub open spec fn blocks_order(bs: Seq<BlockWeights>, n: nat) -> Seq<Tensor>
    decreases n,
{
    if n == 0 {
        Seq::empty()
    } else {
        blocks_order(bs, (n - 1) as nat) + block_order(bs[n - 1])
    }
}

/// All weights in the order that is the checkpoint format: the embedding, the
/// blocks, the final norm, the head.
pub open spec fn weight_order(w: ModelWeightsView) -> Seq<Tensor> {
    seq![w.embedding] + blocks_order(w.blocks, w.blocks.len()) + seq![w.final_norm, w.lm_head]
}

pub proof fn lemma_blocks_order_len(bs: Seq<BlockWeights>, n: nat)
    ensures
        blocks_order(bs, n).len() == 6 * n,
    decreases n,
{
    if n > 0 {
        lemma_blocks_order_len(bs, (n - 1) as nat);
    }
}

/// A model of `n` blocks has `6 * n + 3` weights.
pub proof fn weight_count(w: ModelWeightsView)
    ensures
        weight_order(w).len() == 6 * w.blocks.len() + 3,
{
    lemma_blocks_order_len(w.blocks, w.blocks.len());
}

impl ModelWeights {
    /// All weights in checkpoint order.
    pub fn params(&self) -> (r: Vec<Tensor>)
        ensures
            r@ == weight_order(self@),
    {
        let mut r: Vec<Tensor> = Vec::new();
        r.push(self.embedding);
        let ghost top = seq![self.embedding];
        assert(r@ =~= top);
        let mut i: usize = 0;
        while i < self.blocks.len()
            invariant
                i <= self.blocks@.len(),
                r@ == top + blocks_order(self.blocks@, i as nat),
            decreases self.blocks@.len() - i,
        {
            let ghost before = r@;
            let b = self.blocks[i];
            r.push(b.norm_1);
            r.push(b.qkv_proj);
            r.push(b.out_proj);
            r.push(b.norm_2);
            r.push(b.ffn_up);
            r.push(b.ffn_down);
            assert(r@ =~= before + block_order(b));
            i = i + 1;
            assert(r@ =~= top + blocks_order(self.blocks@, i as nat));
        }
        let ghost before = r@;
        r.push(self.final_norm);
        r.push(self.lm_head);
        assert(r@ =~= before + seq![self.final_norm, self.lm_head]);
        r
    }
}

// ---- one flat vector of all weights ----

/// Number of elements of the first `n` tensors.
pub open spec fn flat_len(ts: Seq<Tensor>, n: nat) -> int
    decreases n,
{
    if n == 0 {
        0
    } else {
        flat_len(ts, (n - 1) as nat) + ts[n - 1].size as int / 4
    }
}

/// The pieces of `flat` that belong to the first `n` tensors.
pub open spec fn split_flat<T>(ts: Seq<Tensor>, flat: Seq<T>, n: nat) -> Seq<Seq<T>>
    decreases n,
{
    if n == 0 {
        Seq::empty()
    } else {
        split_flat(ts, flat, (n - 1) as nat).push(
            flat.subrange(flat_len(ts, (n - 1) as nat), flat_len(ts, n)),
        )
    }
}

/// The first `n` pieces one after the other.
pub open spec fn join_flat<T>(pieces: Seq<Seq<T>>, n: nat) -> Seq<T>
    decreases n,
{
    if n == 0 {
        Seq::empty()
    } else {
        join_flat(pieces, (n - 1) as nat) + pieces[n - 1]
    }
}

/// The values of a list of pieces.
pub open spec fn piece_views<T>(pieces: Seq<Vec<T>>) -> Seq<Seq<T>> {
    Seq::new(pieces.len(), |i: int| pieces[i]@)
}

proof fn lemma_flat_len(ts: Seq<Tensor>, i: nat, j: nat)
    requires
        i <= j,
    ensures
        0 <= flat_len(ts, i) <= flat_len(ts, j),
    decreases j,
{
    if i < j {
        lemma_flat_len(ts, i, (j - 1) as nat);
    } else if j > 0 {
        lemma_flat_len(ts, (i - 1) as nat, (j - 1) as nat);
    }
}

proof fn lemma_split_join<T>(ts: Seq<Tensor>, flat: Seq<T>, m: nat, n: nat)
    requires
        n <= m <= ts.len(),
        flat_len(ts, m) <= flat.len(),
    ensures
        split_flat(ts, flat, m).len() == m,
        join_flat(split_flat(ts, flat, m), n) == flat.subrange(0, flat_len(ts, n)),
    decreases m, n,
{
    lemma_flat_len(ts, 0, n);
    lemma_flat_len(ts, n, m);
    if m > 0 {
        lemma_flat_len(ts, (m - 1) as nat, m);
        let s = split_flat(ts, flat, m);
        let p = split_flat(ts, flat, (m - 1) as nat);
        if n == 0 {
            lemma_split_join(ts, flat, (m - 1) as nat, 0);
            assert(join_flat(s, 0) =~= flat.subrange(0, 0));
        } else {
            lemma_split_join(ts, flat, m, (n - 1) as nat);
            lemma_flat_len(ts, 0, (n - 1) as nat);
            lemma_flat_len(ts, (n - 1) as nat, n);
            lemma_piece(ts, flat, m, n - 1);
            assert(join_flat(s, n) =~= flat.subrange(0, flat_len(ts, n)));
        }
    } else {
        assert(join_flat(split_flat(ts, flat, m), 0) =~= flat.subrange(0, 0));
    }
}

proof fn lemma_piece<T>(ts: Seq<Tensor>, flat: Seq<T>, m: nat, i: int)
    requires
        0 <= i < m <= ts.len(),
    ensures
        split_flat(ts, flat, m).len() == m,
        split_flat(ts, flat, m)[i] == flat.subrange(
            flat_len(ts, i as nat),
            flat_len(ts, (i + 1) as nat),
        ),
    decreases m,
{
    if i < m - 1 {
        lemma_piece(ts, flat, (m - 1) as nat, i);
    } else if m > 1 {
        lemma_piece(ts, flat, (m - 1) as nat, 0);
    } else {
        assert(split_flat(ts, flat, 0).len() == 0);
    }
}

/// Reading the weights back as one vector gives what was set from one.
pub proof fn flat_round_trip<T>(ts: Seq<Tensor>, flat: Seq<T>)
    requires
        flat.len() == flat_len(ts, ts.len()),
    ensures
        join_flat(split_flat(ts, flat, ts.len()), ts.len()) == flat,
{
    lemma_split_join(ts, flat, ts.len(), ts.len());
    assert(flat.subrange(0, flat.len() as int) =~= flat);
}

impl ModelWeights {
    /// What is written to each weight, in checkpoint order, so that all weights
    /// together hold `flat`.
    pub fn set_flat_weights<T: Copy>(&self, flat: &Vec<T>) -> (r: Vec<(Tensor, Vec<T>)>)
        requires
            flat@.len() == flat_len(weight_order(self@), weight_order(self@).len()),
        ensures
            r@.len() == weight_order(self@).len(),
            forall|i: int|
                0 <= i < r@.len() ==> {
                    &&& (#[trigger] r@[i]).0 == weight_order(self@)[i]
                    &&& r@[i].1@ == split_flat(
                        weight_order(self@),
                        flat@,
                        weight_order(self@).len(),
                    )[i]
                },
    {
        let params = self.params();
        let ghost ts = params@;
        let total: usize = flat.len();
        let mut r: Vec<(Tensor, Vec<T>)> = Vec::new();
        let mut offset: usize = 0;
        let mut i: usize = 0;
        while i < params.len()
            invariant
                i <= params@.len(),
                ts == params@,
                total == flat@.len(),
                flat@.len() == flat_len(ts, ts.len()),
                offset == flat_len(ts, i as nat),
                r@.len() == i,
                forall|k: int|
                    0 <= k < i ==> {
                        &&& (#[trigger] r@[k]).0 == ts[k]
                        &&& r@[k].1@ == split_flat(ts, flat@, ts.len())[k]
                    },
            decreases params@.len() - i,
        {
            proof {
                lemma_flat_len(ts, (i + 1) as nat, ts.len());
                lemma_flat_len(ts, i as nat, (i + 1) as nat);
                lemma_flat_len(ts, 0, i as nat);
                lemma_piece(ts, flat@, ts.len(), i as int);
                assert(offset + params@[i as int].size / 4 <= total);
            }
            let len: usize = (params[i].size / 4) as usize;
            let mut piece: Vec<T> = Vec::new();
            let mut k: usize = 0;
            while k < len
                invariant
                    k <= len,
                    offset + len <= total,
                    total == flat@.len(),
                    piece@ == flat@.subrange(offset as int, offset + k),
                decreases len - k,
            {
                piece.push(flat[offset + k]);
                k = k + 1;
                assert(piece@ =~= flat@.subrange(offset as int, offset + k));
            }
            r.push((params[i], piece));
            offset = offset + len;
            i = i + 1;
        }
        r
    }
}

/// All weights, read in checkpoint order, as one vector.
pub fn to_flat_weights<T: Copy>(pieces: &Vec<Vec<T>>) -> (r: Vec<T>)
    ensures
        r@ == join_flat(piece_views(pieces@), pieces@.len()),
{
    let mut r: Vec<T> = Vec::new();
    let mut i: usize = 0;
    while i < pieces.len()
        invariant
            i <= pieces@.len(),
            r@ == join_flat(piece_views(pieces@), i as nat),
        decreases pieces@.len() - i,
    {
        let ghost before = r@;
        let mut k: usize = 0;
        while k < pieces[i].len()
            invariant
                i < pieces@.len(),
                k <= pieces@[i as int]@.len(),
                r@ == before + pieces@[i as int]@.subrange(0, k as int),
            decreases pieces@[i as int]@.len() - k,
        {
            r.push(pieces[i][k]);
            k = k + 1;
            assert(r@ =~= before + pieces@[i as int]@.subrange(0, k as int));
        }
        i = i + 1;
        assert(r@ =~= join_flat(piece_views(pieces@), i as nat));
    }
    r
}

} // verus!
