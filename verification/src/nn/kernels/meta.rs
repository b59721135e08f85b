//! The constant records that kernels read beside their tensors.
use crate::device::{Context, Scalar, Tensor, Word};
use vstd::prelude::*;

verus! {

/// MatMul family: C is `[m, n]`, contraction length `k`.
#[derive(Clone, Copy, Debug, PartialEq, Eq, Structural)]
pub struct MatMulMeta {
    pub m: u32,
    pub n: u32,
    pub k: u32,
}

/// RMSNorm kernels: `seq_len` rows of `size`.
#[derive(Clone, Copy, Debug, PartialEq, Eq, Structural)]
pub struct NormMeta {
    pub seq_len: u32,
    pub size: u32,
    pub eps: Scalar,
}

/// HeadGather/HeadScatter: `head_dim`-wide slice at `head_offset` in a
/// `full_dim`-wide buffer. Reused for fused-QKV slices (`head_dim = dim`).
#[derive(Clone, Copy, Debug, PartialEq, Eq, Structural)]
pub struct HeadMoveMeta {
    pub seq_len: u32,
    pub full_dim: u32,
    pub head_dim: u32,
    pub head_offset: u32,
}

/// CausalSoftmax/SoftmaxBwd: square `[seq_len, seq_len]` scores.
#[derive(Clone, Copy, Debug, PartialEq, Eq, Structural)]
pub struct AttnScaleMeta {
    pub seq_len: u32,
    pub scale: Scalar,
}

/// SoftmaxRect: rectangular `[num_rows, width]` scores (decode).
#[derive(Clone, Copy, Debug, PartialEq, Eq, Structural)]
pub struct SoftmaxRectMeta {
    pub num_rows: u32,
    pub width: u32,
    pub scale: Scalar,
}

/// RoPE/RoPEBwd: rotate `seq_len` rows at positions `0..seq_len`.
#[derive(Clone, Copy, Debug, PartialEq, Eq, Structural)]
pub struct RopeMeta {
    pub seq_len: u32,
    pub dim: u32,
    pub head_dim: u32,
    pub row_offset: u32,
}

/// RoPE/RoPEBwd as a layer of its own: `seq_len` rows from the first row on.
#[derive(Clone, Copy, Debug, PartialEq, Eq, Structural)]
pub struct RopeLayerMeta {
    pub seq_len: u32,
    pub dim: u32,
    pub head_dim: u32,
}

/// RoPEOffset: one row at absolute position `pos` (decode).
#[derive(Clone, Copy, Debug, PartialEq, Eq, Structural)]
pub struct RopeOffsetMeta {
    pub seq_len: u32,
    pub dim: u32,
    pub head_dim: u32,
    pub pos: u32,
}

/// CacheWrite: `row_count` rows of `width` appended at `dst_row_offset`.
#[derive(Clone, Copy, Debug, PartialEq, Eq, Structural)]
pub struct CacheWriteMeta {
    pub row_count: u32,
    pub width: u32,
    pub dst_row_offset: u32,
}

/// Embedding/EmbeddingBwd: `[vocab_size, dim]` table, `seq_len` token rows.
#[derive(Clone, Copy, Debug, PartialEq, Eq, Structural)]
pub struct EmbeddingMeta {
    pub vocab_size: u32,
    pub dim: u32,
    pub seq_len: u32,
}

/// CrossEntropy kernels: `num_rows` rows of `vocab_size` logits.
#[derive(Clone, Copy, Debug, PartialEq, Eq, Structural)]
pub struct CrossEntropyMeta {
    pub vocab_size: u32,
    pub num_rows: u32,
}

/// ZeroTensor / GradScale: `len` elements, nothing else.
#[derive(Clone, Copy, Debug, PartialEq, Eq, Structural)]
pub struct ZeroMeta {
    pub len: u32,
}

/// GradSumSq: `len` elements, partial sums stored from `out_offset` on.
#[derive(Clone, Copy, Debug, PartialEq, Eq, Structural)]
pub struct GradSumSqMeta {
    pub len: u32,
    pub out_offset: u32,
}

/// GradNormScale: `num_partials` partial sums, norm clipped to `max_norm`.
#[derive(Clone, Copy, Debug, PartialEq, Eq, Structural)]
pub struct GradNormMeta {
    pub num_partials: u32,
    pub max_norm: Scalar,
}

/// FlashAttention kernels: `seq_len` rows of `dim` from row `row_offset` on.
#[derive(Clone, Copy, Debug, PartialEq, Eq, Structural)]
pub struct FlashAttnMeta {
    pub seq_len: u32,
    pub dim: u32,
    pub head_dim: u32,
    pub scale: Scalar,
    pub row_offset: u32,
}

/// AttnQkCached/AttnAvCached: the first `attn_len` rows of a `dim`-wide cache.
#[derive(Clone, Copy, Debug, PartialEq, Eq, Structural)]
pub struct AttnCachedMeta {
    pub attn_len: u32,
    pub dim: u32,
    pub head_dim: u32,
}

/// Any meta record.
#[derive(Clone, Copy, Debug, PartialEq, Eq, Structural)]
pub enum Meta {
    MatMul(MatMulMeta),
    Norm(NormMeta),
    HeadMove(HeadMoveMeta),
    AttnScale(AttnScaleMeta),
    SoftmaxRect(SoftmaxRectMeta),
    Rope(RopeMeta),
    RopeLayer(RopeLayerMeta),
    RopeOffset(RopeOffsetMeta),
    CacheWrite(CacheWriteMeta),
    Embedding(EmbeddingMeta),
    CrossEntropy(CrossEntropyMeta),
    Zero(ZeroMeta),
    GradSumSq(GradSumSqMeta),
    GradNorm(GradNormMeta),
    FlashAttn(FlashAttnMeta),
    AttnCached(AttnCachedMeta),
}

impl Meta {
    /// The record's fields in declaration order, one word each.
    pub open spec fn spec_words(self) -> Seq<Word> {
        match self {
            Meta::MatMul(s) => seq![Word::Int(s.m), Word::Int(s.n), Word::Int(s.k)],
            Meta::Norm(s) => seq![Word::Int(s.seq_len), Word::Int(s.size), Word::Real(s.eps)],
            Meta::HeadMove(s) => seq![
                Word::Int(s.seq_len),
                Word::Int(s.full_dim),
                Word::Int(s.head_dim),
                Word::Int(s.head_offset),
            ],
            Meta::AttnScale(s) => seq![Word::Int(s.seq_len), Word::Real(s.scale)],
            Meta::SoftmaxRect(s) => seq![
                Word::Int(s.num_rows),
                Word::Int(s.width),
                Word::Real(s.scale),
            ],
            Meta::Rope(s) => seq![
                Word::Int(s.seq_len),
                Word::Int(s.dim),
                Word::Int(s.head_dim),
                Word::Int(s.row_offset),
            ],
            Meta::RopeLayer(s) => seq![
                Word::Int(s.seq_len),
                Word::Int(s.dim),
                Word::Int(s.head_dim),
            ],
            Meta::RopeOffset(s) => seq![
                Word::Int(s.seq_len),
                Word::Int(s.dim),
                Word::Int(s.head_dim),
                Word::Int(s.pos),
            ],
            Meta::CacheWrite(s) => seq![
                Word::Int(s.row_count),
                Word::Int(s.width),
                Word::Int(s.dst_row_offset),
            ],
            Meta::Embedding(s) => seq![
                Word::Int(s.vocab_size),
                Word::Int(s.dim),
                Word::Int(s.seq_len),
            ],
            Meta::CrossEntropy(s) => seq![Word::Int(s.vocab_size), Word::Int(s.num_rows)],
            Meta::Zero(s) => seq![Word::Int(s.len)],
            Meta::GradSumSq(s) => seq![Word::Int(s.len), Word::Int(s.out_offset)],
            Meta::GradNorm(s) => seq![Word::Int(s.num_partials), Word::Real(s.max_norm)],
            Meta::FlashAttn(s) => seq![
                Word::Int(s.seq_len),
                Word::Int(s.dim),
                Word::Int(s.head_dim),
                Word::Real(s.scale),
                Word::Int(s.row_offset),
            ],
            Meta::AttnCached(s) => seq![
                Word::Int(s.attn_len),
                Word::Int(s.dim),
                Word::Int(s.head_dim),
            ],
        }
    }

    /// The words that the record occupies in its buffer.
    pub fn words(&self) -> (r: Vec<Word>)
        ensures
            r@ == self.spec_words(),
    {
        match *self {
            Meta::MatMul(s) => vec![Word::Int(s.m), Word::Int(s.n), Word::Int(s.k)],
            Meta::Norm(s) => vec![Word::Int(s.seq_len), Word::Int(s.size), Word::Real(s.eps)],
            Meta::HeadMove(s) => vec![
                Word::Int(s.seq_len),
                Word::Int(s.full_dim),
                Word::Int(s.head_dim),
                Word::Int(s.head_offset),
            ],
            Meta::AttnScale(s) => vec![Word::Int(s.seq_len), Word::Real(s.scale)],
            Meta::SoftmaxRect(s) => vec![
                Word::Int(s.num_rows),
                Word::Int(s.width),
                Word::Real(s.scale),
            ],
            Meta::Rope(s) => vec![
                Word::Int(s.seq_len),
                Word::Int(s.dim),
                Word::Int(s.head_dim),
                Word::Int(s.row_offset),
            ],
            Meta::RopeLayer(s) => vec![
                Word::Int(s.seq_len),
                Word::Int(s.dim),
                Word::Int(s.head_dim),
            ],
            Meta::RopeOffset(s) => vec![
                Word::Int(s.seq_len),
                Word::Int(s.dim),
                Word::Int(s.head_dim),
                Word::Int(s.pos),
            ],
            Meta::CacheWrite(s) => vec![
                Word::Int(s.row_count),
                Word::Int(s.width),
                Word::Int(s.dst_row_offset),
            ],
            Meta::Embedding(s) => vec![
                Word::Int(s.vocab_size),
                Word::Int(s.dim),
                Word::Int(s.seq_len),
            ],
            Meta::CrossEntropy(s) => vec![Word::Int(s.vocab_size), Word::Int(s.num_rows)],
            Meta::Zero(s) => vec![Word::Int(s.len)],
            Meta::GradSumSq(s) => vec![Word::Int(s.len), Word::Int(s.out_offset)],
            Meta::GradNorm(s) => vec![Word::Int(s.num_partials), Word::Real(s.max_norm)],
            Meta::FlashAttn(s) => vec![
                Word::Int(s.seq_len),
                Word::Int(s.dim),
                Word::Int(s.head_dim),
                Word::Real(s.scale),
                Word::Int(s.row_offset),
            ],
            Meta::AttnCached(s) => vec![
                Word::Int(s.attn_len),
                Word::Int(s.dim),
                Word::Int(s.head_dim),
            ],
        }
    }
}

/// A record that a kernel reads from a buffer of its own.
pub trait KernelMeta: Sized + Copy {
    /// The record as one of the known kinds.
    spec fn spec_meta(self) -> Meta;

    fn meta(self) -> (r: Meta)
        ensures
            r == self.spec_meta(),
    ;

    /// Puts the record into a buffer of its own.
    fn upload(self, ctx: &mut Context) -> (r: Tensor)
        ensures
            final(ctx)@ == crate::device::push_meta(old(ctx)@, self.spec_meta()),
            r == crate::device::next_meta(old(ctx)@, self.spec_meta()),
    {
        ctx.meta(self.meta())
    }
}

impl KernelMeta for MatMulMeta {
    open spec fn spec_meta(self) -> Meta {
        Meta::MatMul(self)
    }

    fn meta(self) -> Meta {
        Meta::MatMul(self)
    }
}

impl KernelMeta for NormMeta {
    open spec fn spec_meta(self) -> Meta {
        Meta::Norm(self)
    }

    fn meta(self) -> Meta {
        Meta::Norm(self)
    }
}

impl KernelMeta for HeadMoveMeta {
    open spec fn spec_meta(self) -> Meta {
        Meta::HeadMove(self)
    }

    fn meta(self) -> Meta {
        Meta::HeadMove(self)
    }
}

impl KernelMeta for AttnScaleMeta {
    open spec fn spec_meta(self) -> Meta {
        Meta::AttnScale(self)
    }

    fn meta(self) -> Meta {
        Meta::AttnScale(self)
    }
}

impl KernelMeta for SoftmaxRectMeta {
    open spec fn spec_meta(self) -> Meta {
        Meta::SoftmaxRect(self)
    }

    fn meta(self) -> Meta {
        Meta::SoftmaxRect(self)
    }
}

impl KernelMeta for RopeMeta {
    open spec fn spec_meta(self) -> Meta {
        Meta::Rope(self)
    }

    fn meta(self) -> Meta {
        Meta::Rope(self)
    }
}

impl KernelMeta for RopeLayerMeta {
    open spec fn spec_meta(self) -> Meta {
        Meta::RopeLayer(self)
    }

    fn meta(self) -> Meta {
        Meta::RopeLayer(self)
    }
}

impl KernelMeta for RopeOffsetMeta {
    open spec fn spec_meta(self) -> Meta {
        Meta::RopeOffset(self)
    }

    fn meta(self) -> Meta {
        Meta::RopeOffset(self)
    }
}

impl KernelMeta for CacheWriteMeta {
    open spec fn spec_meta(self) -> Meta {
        Meta::CacheWrite(self)
    }

    fn meta(self) -> Meta {
        Meta::CacheWrite(self)
    }
}

impl KernelMeta for EmbeddingMeta {
    open spec fn spec_meta(self) -> Meta {
        Meta::Embedding(self)
    }

    fn meta(self) -> Meta {
        Meta::Embedding(self)
    }
}

impl KernelMeta for CrossEntropyMeta {
    open spec fn spec_meta(self) -> Meta {
        Meta::CrossEntropy(self)
    }

    fn meta(self) -> Meta {
        Meta::CrossEntropy(self)
    }
}

impl KernelMeta for ZeroMeta {
    open spec fn spec_meta(self) -> Meta {
        Meta::Zero(self)
    }

    fn meta(self) -> Meta {
        Meta::Zero(self)
    }
}

impl KernelMeta for GradSumSqMeta {
    open spec fn spec_meta(self) -> Meta {
        Meta::GradSumSq(self)
    }

    fn meta(self) -> Meta {
        Meta::GradSumSq(self)
    }
}

impl KernelMeta for GradNormMeta {
    open spec fn spec_meta(self) -> Meta {
        Meta::GradNorm(self)
    }

    fn meta(self) -> Meta {
        Meta::GradNorm(self)
    }
}

impl KernelMeta for FlashAttnMeta {
    open spec fn spec_meta(self) -> Meta {
        Meta::FlashAttn(self)
    }

    fn meta(self) -> Meta {
        Meta::FlashAttn(self)
    }
}

impl KernelMeta for AttnCachedMeta {
    open spec fn spec_meta(self) -> Meta {
        Meta::AttnCached(self)
    }

    fn meta(self) -> Meta {
        Meta::AttnCached(self)
    }
}

impl HeadMoveMeta {
    /// One dim-wide Q/K/V role slice of a fused `[seq_len, 3*dim]` QKV buffer.
    pub fn qkv_slice(seq_len: u32, dim: u32, role_offset: u32) -> (r: Self)
        requires
            3 * dim <= u32::MAX,
        ensures
            r == Self::spec_qkv_slice(seq_len, dim, role_offset),
    {
        Self { seq_len, full_dim: 3 * dim, head_dim: dim, head_offset: role_offset }
    }

    pub open spec fn spec_qkv_slice(seq_len: u32, dim: u32, role_offset: u32) -> Self {
        Self { seq_len, full_dim: (3 * dim) as u32, head_dim: dim, head_offset: role_offset }
    }
}

} // verus!
