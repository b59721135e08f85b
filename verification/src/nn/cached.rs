//! The ops that read or write the KV cache, and the op sets of prefill and
//! decode.
use super::full_seq::{
    AddOp, AttentionOp, AttentionOpView, EmbeddingOp, LinearOp, QkvSplitOp, RmsNormOp, RopeQkOp,
    SiluOp, leaf_outputs,
};
use super::kernels::emit;
use super::kernels::meta::{
    AttnCachedMeta, CacheWriteMeta, HeadMoveMeta, KernelMeta, Meta, RopeOffsetMeta, SoftmaxRectMeta,
};
use super::kernels::{CachedPhase, Decode, GraphBuilder, Prefill};
use super::tape;
use super::tape::{Advance, Forward, FromLeaf, Fwd, Leaf, TapeOp, zeros};
use crate::device;
use crate::device::{Context, Init, Scalar, Tensor};
use vstd::prelude::*;

verus! {

// ---- cache write ----

/// Appends rows to the cache and hands its input on.
#[derive(Clone, Copy, Debug, PartialEq, Eq, Structural)]
pub struct CacheWriteOp {
    pub cache: Tensor,
    pub meta: Tensor,
    pub shape: CacheWriteMeta,
}

impl CacheWriteOp {
    pub open spec fn fits(self) -> bool {
        emit::cache_write_fits(self.shape)
    }

    /// The context and the op that `new` leaves when it starts in `c`.
    pub open spec fn build(c: Seq<Init>, cache: Tensor, row_count: u32, width: u32) -> (
        Seq<Init>,
        Self,
    ) {
        let shape = CacheWriteMeta { row_count, width, dst_row_offset: 0 };
        (
            device::push_meta(c, shape.spec_meta()),
            CacheWriteOp { cache, meta: device::next_meta(c, shape.spec_meta()), shape },
        )
    }

    pub fn new(ctx: &mut Context, cache: Tensor, row_count: u32, width: u32) -> (r: Self)
        ensures
            (final(ctx)@, r) == Self::build(old(ctx)@, cache, row_count, width),
    {
        let shape = CacheWriteMeta { row_count, width, dst_row_offset: 0 };
        let meta = shape.upload(ctx);
        Self { cache, meta, shape }
    }

    /// The op that writes from row `step` on.
    pub open spec fn advanced(self, step: u32) -> Self {
        CacheWriteOp { shape: CacheWriteMeta { dst_row_offset: step, ..self.shape }, ..self }
    }

    pub fn advance(&mut self, step: u32) -> (r: (Tensor, Meta))
        ensures
            *final(self) == old(self).advanced(step),
            r == (old(self).meta, Meta::CacheWrite(old(self).advanced(step).shape)),
    {
        self.shape.dst_row_offset = step;
        (self.meta, Meta::CacheWrite(self.shape))
    }

    pub open spec fn fwd(self, c: Seq<Init>, xs: Seq<Tensor>) -> Fwd<Self> {
        Fwd {
            ctx: c,
            nodes: seq![emit::cache_write_node(xs[0], self.cache, self.shape, self.meta)],
            outs: seq![xs[0]],
            next: self,
        }
    }


    pub fn forward<P: CachedPhase>(
        &mut self,
        ctx: &mut Context,
        gb: &mut GraphBuilder<P>,
        xs: &Vec<Tensor>,
    ) -> (r: Vec<Tensor>)
        requires
            old(self).fits(),
            xs@.len() == 1,
        ensures
            ({
                let f = old(self).fwd(old(ctx)@, xs@);
                &&& final(ctx)@ == f.ctx
                &&& final(gb).graph@ == old(gb).graph@ + f.nodes
                &&& r@ == f.outs
                &&& *final(self) == f.next
            }),
    {
        let ghost g = gb.graph@;
        let ghost f = self.fwd(ctx@, xs@);
        emit::cache_write_with(gb, xs[0], self.cache, self.shape, self.meta);
        let r = vec![xs[0]];
        assert(gb.graph@ =~= g + f.nodes);
        assert(r@ =~= f.outs);
        r
    }

}

// ---- rope at a position ----

/// Rotates one row at the decode position, in place.
#[derive(Clone, Copy, Debug, PartialEq, Eq, Structural)]
pub struct RopeOffsetOp {
    pub meta: Tensor,
    pub shape: RopeOffsetMeta,
}

impl RopeOffsetOp {
    pub open spec fn fits(self) -> bool {
        self.shape.head_dim > 0
    }

    /// The context and the op that `new` leaves when it starts in `c`.
    pub open spec fn build(c: Seq<Init>, dim: u32, head_dim: u32) -> (Seq<Init>, Self) {
        let shape = RopeOffsetMeta { seq_len: 1, dim, head_dim, pos: 0 };
        (
            device::push_meta(c, shape.spec_meta()),
            RopeOffsetOp { meta: device::next_meta(c, shape.spec_meta()), shape },
        )
    }

    pub fn new(ctx: &mut Context, dim: u32, head_dim: u32) -> (r: Self)
        ensures
            (final(ctx)@, r) == Self::build(old(ctx)@, dim, head_dim),
    {
        let shape = RopeOffsetMeta { seq_len: 1, dim, head_dim, pos: 0 };
        Self { meta: shape.upload(ctx), shape }
    }

    /// The op at position `step`.
    pub open spec fn advanced(self, step: u32) -> Self {
        RopeOffsetOp { shape: RopeOffsetMeta { pos: step, ..self.shape }, ..self }
    }

    pub fn advance(&mut self, step: u32) -> (r: (Tensor, Meta))
        ensures
            *final(self) == old(self).advanced(step),
            r == (old(self).meta, Meta::RopeOffset(old(self).advanced(step).shape)),
    {
        self.shape.pos = step;
        (self.meta, Meta::RopeOffset(self.shape))
    }

    pub open spec fn fwd(self, c: Seq<Init>, xs: Seq<Tensor>) -> Fwd<Self> {
        Fwd {
            ctx: c,
            nodes: seq![emit::rope_offset_node(xs[0], self.shape, self.meta)],
            outs: seq![xs[0]],
            next: self,
        }
    }


    pub fn forward(
        &mut self,
        ctx: &mut Context,
        gb: &mut GraphBuilder<Decode>,
        xs: &Vec<Tensor>,
    ) -> (r: Vec<Tensor>)
        requires
            old(self).fits(),
            xs@.len() == 1,
        ensures
            ({
                let f = old(self).fwd(old(ctx)@, xs@);
                &&& final(ctx)@ == f.ctx
                &&& final(gb).graph@ == old(gb).graph@ + f.nodes
                &&& r@ == f.outs
                &&& *final(self) == f.next
            }),
    {
        let ghost g = gb.graph@;
        let ghost f = self.fwd(ctx@, xs@);
        emit::rope_offset_with(gb, xs[0], self.shape, self.meta);
        let r = vec![xs[0]];
        assert(gb.graph@ =~= g + f.nodes);
        assert(r@ =~= f.outs);
        r
    }

}

// ---- head gather ----

/// Copies one role slice out of a fused QKV row.
#[derive(Clone, Copy, Debug, PartialEq, Eq, Structural)]
pub struct HeadGatherOp {
    pub dst: Tensor,
    pub meta: Tensor,
    pub shape: HeadMoveMeta,
}

impl HeadGatherOp {
    pub open spec fn fits(self) -> bool {
        emit::head_fits(self.shape)
    }

    /// The context and the op that `new` leaves when it starts in `c`.
    pub open spec fn build(c: Seq<Init>, dim: u32, role_offset: u32) -> (Seq<Init>, Self) {
        let shape = HeadMoveMeta::spec_qkv_slice(1, dim, role_offset);
        let c1 = device::push_zeros(c, dim as int);
        (
            device::push_meta(c1, shape.spec_meta()),
            HeadGatherOp {
                dst: device::next_zeros(c, dim as int),
                meta: device::next_meta(c1, shape.spec_meta()),
                shape,
            },
        )
    }

    pub fn new(ctx: &mut Context, dim: u32, role_offset: u32) -> (r: Self)
        requires
            3 * dim <= u32::MAX,
        ensures
            (final(ctx)@, r) == Self::build(old(ctx)@, dim, role_offset),
    {
        let shape = HeadMoveMeta::qkv_slice(1, dim, role_offset);
        let dst = zeros(ctx, dim);
        let meta = shape.upload(ctx);
        Self { dst, meta, shape }
    }

    pub open spec fn fwd(self, c: Seq<Init>, xs: Seq<Tensor>) -> Fwd<Self> {
        Fwd {
            ctx: c,
            nodes: seq![emit::head_gather_node(xs[0], self.dst, self.shape, self.meta)],
            outs: seq![self.dst],
            next: self,
        }
    }


    pub fn forward(
        &mut self,
        ctx: &mut Context,
        gb: &mut GraphBuilder<Decode>,
        xs: &Vec<Tensor>,
    ) -> (r: Vec<Tensor>)
        requires
            old(self).fits(),
            xs@.len() == 1,
        ensures
            ({
                let f = old(self).fwd(old(ctx)@, xs@);
                &&& final(ctx)@ == f.ctx
                &&& final(gb).graph@ == old(gb).graph@ + f.nodes
                &&& r@ == f.outs
                &&& *final(self) == f.next
            }),
    {
        let ghost g = gb.graph@;
        let ghost f = self.fwd(ctx@, xs@);
        emit::head_gather_with(gb, xs[0], self.dst, self.shape, self.meta);
        let r = vec![self.dst];
        assert(gb.graph@ =~= g + f.nodes);
        assert(r@ =~= f.outs);
        r
    }

}

// ---- cached attention ----

/// Attention of one query row over the valid rows of the cache.
#[derive(Clone, Copy, Debug, PartialEq, Eq, Structural)]
pub struct CachedAttentionOp {
    pub cache_k: Tensor,
    pub cache_v: Tensor,
    pub scores: Tensor,
    pub out: Tensor,
    pub attn_meta: Tensor,
    pub softmax_meta: Tensor,
    pub num_heads: u32,
    pub dim: u32,
    pub max_attn_len: u32,
    pub attn_shape: AttnCachedMeta,
    pub softmax_shape: SoftmaxRectMeta,
}

impl CachedAttentionOp {
    pub open spec fn fits(self) -> bool {
        &&& self.max_attn_len + 255 <= u32::MAX
        &&& self.dim + 255 <= u32::MAX
        &&& self.softmax_shape.num_rows + 255 <= u32::MAX
    }

    /// The context and the op that `new` leaves when it starts in `c`.
    pub open spec fn build(
        c: Seq<Init>,
        cache_k: Tensor,
        cache_v: Tensor,
        num_heads: u32,
        dim: u32,
        head_dim: u32,
        max_context_len: u32,
    ) -> (Seq<Init>, Self) {
        let attn_shape = AttnCachedMeta { attn_len: 1, dim, head_dim };
        let softmax_shape = SoftmaxRectMeta {
            num_rows: num_heads,
            width: 1,
            scale: Scalar::RecipSqrt(head_dim),
        };
        let c1 = device::push_zeros(c, num_heads * max_context_len);
        let c2 = device::push_zeros(c1, dim as int);
        let c3 = device::push_meta(c2, attn_shape.spec_meta());
        (
            device::push_meta(c3, softmax_shape.spec_meta()),
            CachedAttentionOp {
                cache_k,
                cache_v,
                scores: device::next_zeros(c, num_heads * max_context_len),
                out: device::next_zeros(c1, dim as int),
                attn_meta: device::next_meta(c2, attn_shape.spec_meta()),
                softmax_meta: device::next_meta(c3, softmax_shape.spec_meta()),
                num_heads,
                dim,
                max_attn_len: max_context_len,
                attn_shape,
                softmax_shape,
            },
        )
    }

    pub fn new(
        ctx: &mut Context,
        cache_k: Tensor,
        cache_v: Tensor,
        num_heads: u32,
        dim: u32,
        head_dim: u32,
        max_context_len: u32,
    ) -> (r: Self)
        requires
            num_heads * max_context_len <= u32::MAX,
        ensures
            (final(ctx)@, r) == Self::build(
                old(ctx)@,
                cache_k,
                cache_v,
                num_heads,
                dim,
                head_dim,
                max_context_len,
            ),
    {
        let attn_shape = AttnCachedMeta { attn_len: 1, dim, head_dim };
        let softmax_shape = SoftmaxRectMeta {
            num_rows: num_heads,
            width: 1,
            scale: Scalar::RecipSqrt(head_dim),
        };
        let scores = zeros(ctx, num_heads * max_context_len);
        let out = zeros(ctx, dim);
        let attn_meta = attn_shape.upload(ctx);
        let softmax_meta = softmax_shape.upload(ctx);
        Self {
            cache_k,
            cache_v,
            scores,
            out,
            attn_meta,
            softmax_meta,
            num_heads,
            dim,
            max_attn_len: max_context_len,
            attn_shape,
            softmax_shape,
        }
    }

    /// The op after position `step` has been written: the cache is valid for
    /// rows `0..=step`.
    pub open spec fn advanced(self, step: u32) -> Self {
        let attn_len = (step + 1) as u32;
        CachedAttentionOp {
            attn_shape: AttnCachedMeta { attn_len, ..self.attn_shape },
            softmax_shape: SoftmaxRectMeta { width: attn_len, ..self.softmax_shape },
            ..self
        }
    }

    pub fn advance(&mut self, step: u32) -> (r: ((Tensor, Meta), (Tensor, Meta)))
        requires
            step < u32::MAX,
        ensures
            *final(self) == old(self).advanced(step),
            r.0 == (old(self).attn_meta, Meta::AttnCached(old(self).advanced(step).attn_shape)),
            r.1 == (
                old(self).softmax_meta,
                Meta::SoftmaxRect(old(self).advanced(step).softmax_shape),
            ),
    {
        let attn_len: u32 = step + 1;
        self.attn_shape.attn_len = attn_len;
        self.softmax_shape.width = attn_len;
        (
            (self.attn_meta, Meta::AttnCached(self.attn_shape)),
            (self.softmax_meta, Meta::SoftmaxRect(self.softmax_shape)),
        )
    }

    pub open spec fn fwd(self, c: Seq<Init>, xs: Seq<Tensor>) -> Fwd<Self> {
        Fwd {
            ctx: c,
            nodes: seq![
                emit::attn_qk_cached_node(
                    xs[0],
                    self.cache_k,
                    self.scores,
                    self.num_heads,
                    self.max_attn_len,
                    self.attn_meta,
                ),
                emit::softmax_rect_node(self.scores, self.softmax_shape, self.softmax_meta),
                emit::attn_av_cached_node(
                    self.scores,
                    self.cache_v,
                    self.out,
                    self.dim,
                    self.attn_meta,
                ),
            ],
            outs: seq![self.out],
            next: self,
        }
    }


    pub fn forward(
        &mut self,
        ctx: &mut Context,
        gb: &mut GraphBuilder<Decode>,
        xs: &Vec<Tensor>,
    ) -> (r: Vec<Tensor>)
        requires
            old(self).fits(),
            xs@.len() == 1,
        ensures
            ({
                let f = old(self).fwd(old(ctx)@, xs@);
                &&& final(ctx)@ == f.ctx
                &&& final(gb).graph@ == old(gb).graph@ + f.nodes
                &&& r@ == f.outs
                &&& *final(self) == f.next
            }),
    {
        let ghost g = gb.graph@;
        let ghost f = self.fwd(ctx@, xs@);
        emit::attn_qk_cached_with(
            gb,
            xs[0],
            self.cache_k,
            self.scores,
            self.num_heads,
            self.max_attn_len,
            self.attn_meta,
        );
        emit::softmax_rect_with(gb, self.scores, self.softmax_shape, self.softmax_meta);
        emit::attn_av_cached_with(
            gb,
            self.scores,
            self.cache_v,
            self.out,
            self.dim,
            self.attn_meta,
        );
        let r = vec![self.out];
        assert(gb.graph@ =~= g + f.nodes);
        assert(r@ =~= f.outs);
        r
    }

}

// ---- op sets ----

/// The ops of a prefill tape.
pub enum PrefillOp {
    Embedding(EmbeddingOp),
    Linear(LinearOp),
    RmsNorm(RmsNormOp),
    Silu(SiluOp),
    Add(AddOp),
    RopeQk(RopeQkOp),
    QkvSplit(QkvSplitOp),
    Attention(AttentionOp),
    CacheWrite(CacheWriteOp),
    Leaf(Leaf),
}

/// The value of a `PrefillOp`.
pub enum PrefillOpView {
    Embedding(EmbeddingOp),
    Linear(LinearOp),
    RmsNorm(RmsNormOp),
    Silu(SiluOp),
    Add(AddOp),
    RopeQk(RopeQkOp),
    QkvSplit(QkvSplitOp),
    Attention(AttentionOpView),
    CacheWrite(CacheWriteOp),
    Leaf(Leaf),
}

impl TapeOp for PrefillOp {
    type V = PrefillOpView;

    open spec fn v(&self) -> PrefillOpView {
        match *self {
            PrefillOp::Embedding(op) => PrefillOpView::Embedding(op),
            PrefillOp::Linear(op) => PrefillOpView::Linear(op),
            PrefillOp::RmsNorm(op) => PrefillOpView::RmsNorm(op),
            PrefillOp::Silu(op) => PrefillOpView::Silu(op),
            PrefillOp::Add(op) => PrefillOpView::Add(op),
            PrefillOp::RopeQk(op) => PrefillOpView::RopeQk(op),
            PrefillOp::QkvSplit(op) => PrefillOpView::QkvSplit(op),
            PrefillOp::Attention(op) => PrefillOpView::Attention(op@),
            PrefillOp::CacheWrite(op) => PrefillOpView::CacheWrite(op),
            PrefillOp::Leaf(op) => PrefillOpView::Leaf(op),
        }
    }
}

impl FromLeaf for PrefillOp {
    open spec fn spec_leaf(x: Leaf) -> PrefillOpView {
        PrefillOpView::Leaf(x)
    }

    fn from_leaf(x: Leaf) -> Self {
        PrefillOp::Leaf(x)
    }
}

impl Forward<Prefill> for PrefillOp {
    open spec fn fits(v: PrefillOpView) -> bool {
        match v {
            PrefillOpView::Embedding(op) => op.fits(),
            PrefillOpView::Linear(op) => op.fits(),
            PrefillOpView::RmsNorm(op) => op.fits(),
            PrefillOpView::Silu(op) => op.fits(),
            PrefillOpView::Add(op) => op.fits(),
            PrefillOpView::RopeQk(op) => op.fits(),
            PrefillOpView::QkvSplit(op) => op.fits(),
            PrefillOpView::Attention(op) => op.fits(),
            PrefillOpView::CacheWrite(op) => op.fits(),
            PrefillOpView::Leaf(op) => true,
        }
    }

    open spec fn n_in(v: PrefillOpView) -> nat {
        match v {
            PrefillOpView::Embedding(op) => 0,
            PrefillOpView::Linear(op) => 1,
            PrefillOpView::RmsNorm(op) => 1,
            PrefillOpView::Silu(op) => 1,
            PrefillOpView::Add(op) => 2,
            PrefillOpView::RopeQk(op) => 2,
            PrefillOpView::QkvSplit(op) => 1,
            PrefillOpView::Attention(op) => 3,
            PrefillOpView::CacheWrite(op) => 1,
            PrefillOpView::Leaf(op) => 0,
        }
    }

    open spec fn n_out(v: PrefillOpView) -> nat {
        match v {
            PrefillOpView::RopeQk(op) => 2,
            PrefillOpView::QkvSplit(op) => 3,
            _ => 1,
        }
    }

    proof fn fwd_gives_n_out(v: PrefillOpView, c: Seq<Init>, xs: Seq<Tensor>) {
    }

    open spec fn fwd(v: PrefillOpView, c: Seq<Init>, xs: Seq<Tensor>) -> Fwd<PrefillOpView> {
        match v {
            PrefillOpView::Embedding(op) => {
                let f = op.fwd(c, xs);
                Fwd { ctx: f.ctx, nodes: f.nodes, outs: f.outs, next: PrefillOpView::Embedding(f.next) }
            },
            PrefillOpView::Linear(op) => {
                let f = op.fwd(c, xs);
                Fwd { ctx: f.ctx, nodes: f.nodes, outs: f.outs, next: PrefillOpView::Linear(f.next) }
            },
            PrefillOpView::RmsNorm(op) => {
                let f = op.fwd(c, xs);
                Fwd { ctx: f.ctx, nodes: f.nodes, outs: f.outs, next: PrefillOpView::RmsNorm(f.next) }
            },
            PrefillOpView::Silu(op) => {
                let f = op.fwd(c, xs);
                Fwd { ctx: f.ctx, nodes: f.nodes, outs: f.outs, next: PrefillOpView::Silu(f.next) }
            },
            PrefillOpView::Add(op) => {
                let f = op.fwd(c, xs);
                Fwd { ctx: f.ctx, nodes: f.nodes, outs: f.outs, next: PrefillOpView::Add(f.next) }
            },
            PrefillOpView::RopeQk(op) => {
                let f = op.fwd(c, xs);
                Fwd { ctx: f.ctx, nodes: f.nodes, outs: f.outs, next: PrefillOpView::RopeQk(f.next) }
            },
            PrefillOpView::QkvSplit(op) => {
                let f = op.fwd(c, xs);
                Fwd { ctx: f.ctx, nodes: f.nodes, outs: f.outs, next: PrefillOpView::QkvSplit(f.next) }
            },
            PrefillOpView::Attention(op) => {
                let f = op.fwd(c, xs);
                Fwd { ctx: f.ctx, nodes: f.nodes, outs: f.outs, next: PrefillOpView::Attention(f.next) }
            },
            PrefillOpView::CacheWrite(op) => {
                let f = op.fwd(c, xs);
                Fwd { ctx: f.ctx, nodes: f.nodes, outs: f.outs, next: PrefillOpView::CacheWrite(f.next) }
            },
            PrefillOpView::Leaf(op) => Fwd {
                ctx: c,
                nodes: Seq::empty(),
                outs: seq![op.value],
                next: v,
            },
        }
    }

    fn forward(
        &mut self,
        ctx: &mut Context,
        gb: &mut GraphBuilder<Prefill>,
        xs: &Vec<Tensor>,
    ) -> Vec<Tensor> {
        match self {
            PrefillOp::Embedding(op) => op.forward(ctx, gb, xs),
            PrefillOp::Linear(op) => op.forward(ctx, gb, xs),
            PrefillOp::RmsNorm(op) => op.forward(ctx, gb, xs),
            PrefillOp::Silu(op) => op.forward(ctx, gb, xs),
            PrefillOp::Add(op) => op.forward(ctx, gb, xs),
            PrefillOp::RopeQk(op) => op.forward(ctx, gb, xs),
            PrefillOp::QkvSplit(op) => op.forward(ctx, gb, xs),
            PrefillOp::Attention(op) => op.forward(ctx, gb, xs),
            PrefillOp::CacheWrite(op) => op.forward(ctx, gb, xs),
            PrefillOp::Leaf(op) => leaf_outputs(op),
        }
    }
}

/// The ops of a decode tape.
pub enum DecodeOp {
    Embedding(EmbeddingOp),
    Linear(LinearOp),
    RmsNorm(RmsNormOp),
    Silu(SiluOp),
    Add(AddOp),
    RopeOffset(RopeOffsetOp),
    HeadGather(HeadGatherOp),
    CacheWrite(CacheWriteOp),
    CachedAttention(CachedAttentionOp),
    Leaf(Leaf),
}

/// The value of a `DecodeOp`.
pub enum DecodeOpView {
    Embedding(EmbeddingOp),
    Linear(LinearOp),
    RmsNorm(RmsNormOp),
    Silu(SiluOp),
    Add(AddOp),
    RopeOffset(RopeOffsetOp),
    HeadGather(HeadGatherOp),
    CacheWrite(CacheWriteOp),
    CachedAttention(CachedAttentionOp),
    Leaf(Leaf),
}

impl TapeOp for DecodeOp {
    type V = DecodeOpView;

    open spec fn v(&self) -> DecodeOpView {
        match *self {
            DecodeOp::Embedding(op) => DecodeOpView::Embedding(op),
            DecodeOp::Linear(op) => DecodeOpView::Linear(op),
            DecodeOp::RmsNorm(op) => DecodeOpView::RmsNorm(op),
            DecodeOp::Silu(op) => DecodeOpView::Silu(op),
            DecodeOp::Add(op) => DecodeOpView::Add(op),
            DecodeOp::RopeOffset(op) => DecodeOpView::RopeOffset(op),
            DecodeOp::HeadGather(op) => DecodeOpView::HeadGather(op),
            DecodeOp::CacheWrite(op) => DecodeOpView::CacheWrite(op),
            DecodeOp::CachedAttention(op) => DecodeOpView::CachedAttention(op),
            DecodeOp::Leaf(op) => DecodeOpView::Leaf(op),
        }
    }
}

impl FromLeaf for DecodeOp {
    open spec fn spec_leaf(x: Leaf) -> DecodeOpView {
        DecodeOpView::Leaf(x)
    }

    fn from_leaf(x: Leaf) -> Self {
        DecodeOp::Leaf(x)
    }
}

impl Forward<Decode> for DecodeOp {
    open spec fn fits(v: DecodeOpView) -> bool {
        match v {
            DecodeOpView::Embedding(op) => op.fits(),
            DecodeOpView::Linear(op) => op.fits(),
            DecodeOpView::RmsNorm(op) => op.fits(),
            DecodeOpView::Silu(op) => op.fits(),
            DecodeOpView::Add(op) => op.fits(),
            DecodeOpView::RopeOffset(op) => op.fits(),
            DecodeOpView::HeadGather(op) => op.fits(),
            DecodeOpView::CacheWrite(op) => op.fits(),
            DecodeOpView::CachedAttention(op) => op.fits(),
            DecodeOpView::Leaf(op) => true,
        }
    }

    open spec fn n_in(v: DecodeOpView) -> nat {
        match v {
            DecodeOpView::Embedding(op) => 0,
            DecodeOpView::Linear(op) => 1,
            DecodeOpView::RmsNorm(op) => 1,
            DecodeOpView::Silu(op) => 1,
            DecodeOpView::Add(op) => 2,
            DecodeOpView::RopeOffset(op) => 1,
            DecodeOpView::HeadGather(op) => 1,
            DecodeOpView::CacheWrite(op) => 1,
            DecodeOpView::CachedAttention(op) => 1,
            DecodeOpView::Leaf(op) => 0,
        }
    }

    open spec fn n_out(v: DecodeOpView) -> nat {
        match v {
            _ => 1,
        }
    }

    proof fn fwd_gives_n_out(v: DecodeOpView, c: Seq<Init>, xs: Seq<Tensor>) {
    }

    open spec fn fwd(v: DecodeOpView, c: Seq<Init>, xs: Seq<Tensor>) -> Fwd<DecodeOpView> {
        match v {
            DecodeOpView::Embedding(op) => {
                let f = op.fwd(c, xs);
                Fwd { ctx: f.ctx, nodes: f.nodes, outs: f.outs, next: DecodeOpView::Embedding(f.next) }
            },
            DecodeOpView::Linear(op) => {
                let f = op.fwd(c, xs);
                Fwd { ctx: f.ctx, nodes: f.nodes, outs: f.outs, next: DecodeOpView::Linear(f.next) }
            },
            DecodeOpView::RmsNorm(op) => {
                let f = op.fwd(c, xs);
                Fwd { ctx: f.ctx, nodes: f.nodes, outs: f.outs, next: DecodeOpView::RmsNorm(f.next) }
            },
            DecodeOpView::Silu(op) => {
                let f = op.fwd(c, xs);
                Fwd { ctx: f.ctx, nodes: f.nodes, outs: f.outs, next: DecodeOpView::Silu(f.next) }
            },
            DecodeOpView::Add(op) => {
                let f = op.fwd(c, xs);
                Fwd { ctx: f.ctx, nodes: f.nodes, outs: f.outs, next: DecodeOpView::Add(f.next) }
            },
            DecodeOpView::RopeOffset(op) => {
                let f = op.fwd(c, xs);
                Fwd { ctx: f.ctx, nodes: f.nodes, outs: f.outs, next: DecodeOpView::RopeOffset(f.next) }
            },
            DecodeOpView::HeadGather(op) => {
                let f = op.fwd(c, xs);
                Fwd { ctx: f.ctx, nodes: f.nodes, outs: f.outs, next: DecodeOpView::HeadGather(f.next) }
            },
            DecodeOpView::CacheWrite(op) => {
                let f = op.fwd(c, xs);
                Fwd { ctx: f.ctx, nodes: f.nodes, outs: f.outs, next: DecodeOpView::CacheWrite(f.next) }
            },
            DecodeOpView::CachedAttention(op) => {
                let f = op.fwd(c, xs);
                Fwd { ctx: f.ctx, nodes: f.nodes, outs: f.outs, next: DecodeOpView::CachedAttention(f.next) }
            },
            DecodeOpView::Leaf(op) => Fwd {
                ctx: c,
                nodes: Seq::empty(),
                outs: seq![op.value],
                next: v,
            },
        }
    }

    fn forward(
        &mut self,
        ctx: &mut Context,
        gb: &mut GraphBuilder<Decode>,
        xs: &Vec<Tensor>,
    ) -> Vec<Tensor> {
        match self {
            DecodeOp::Embedding(op) => op.forward(ctx, gb, xs),
            DecodeOp::Linear(op) => op.forward(ctx, gb, xs),
            DecodeOp::RmsNorm(op) => op.forward(ctx, gb, xs),
            DecodeOp::Silu(op) => op.forward(ctx, gb, xs),
            DecodeOp::Add(op) => op.forward(ctx, gb, xs),
            DecodeOp::RopeOffset(op) => op.forward(ctx, gb, xs),
            DecodeOp::HeadGather(op) => op.forward(ctx, gb, xs),
            DecodeOp::CacheWrite(op) => op.forward(ctx, gb, xs),
            DecodeOp::CachedAttention(op) => op.forward(ctx, gb, xs),
            DecodeOp::Leaf(op) => leaf_outputs(op),
        }
    }
}

impl Advance for DecodeOp {
    open spec fn advance_ok(v: DecodeOpView, step: u32) -> bool {
        step < u32::MAX
    }

    open spec fn advanced(v: DecodeOpView, step: u32) -> DecodeOpView {
        match v {
            DecodeOpView::RopeOffset(op) => DecodeOpView::RopeOffset(op.advanced(step)),
            DecodeOpView::CacheWrite(op) => DecodeOpView::CacheWrite(op.advanced(step)),
            DecodeOpView::CachedAttention(op) => DecodeOpView::CachedAttention(op.advanced(step)),
            _ => v,
        }
    }

    open spec fn writes(v: DecodeOpView, step: u32) -> Seq<(Tensor, Meta)> {
        match v {
            DecodeOpView::RopeOffset(op) => seq![
                (op.meta, Meta::RopeOffset(op.advanced(step).shape)),
            ],
            DecodeOpView::CacheWrite(op) => seq![
                (op.meta, Meta::CacheWrite(op.advanced(step).shape)),
            ],
            DecodeOpView::CachedAttention(op) => seq![
                (op.attn_meta, Meta::AttnCached(op.advanced(step).attn_shape)),
                (op.softmax_meta, Meta::SoftmaxRect(op.advanced(step).softmax_shape)),
            ],
            _ => Seq::empty(),
        }
    }

    fn advance(&mut self, step: u32) -> (r: Vec<(Tensor, Meta)>) {
        let ghost want = Self::writes(self.v(), step);
        let mut r: Vec<(Tensor, Meta)> = Vec::new();
        match self {
            DecodeOp::RopeOffset(op) => {
                let w = op.advance(step);
                r.push(w);
            },
            DecodeOp::CacheWrite(op) => {
                let w = op.advance(step);
                r.push(w);
            },
            DecodeOp::CachedAttention(op) => {
                let w = op.advance(step);
                r.push(w.0);
                r.push(w.1);
            },
            _ => {},
        }
        assert(r@ =~= want);
        r
    }
}

/// At position `step` the cached attention reads exactly the rows that the
/// cache holds once row `step` is written.
pub proof fn cached_attention_sees_written_rows(w: CacheWriteOp, a: CachedAttentionOp, step: u32)
    requires
        w.shape.row_count == 1,
        step < u32::MAX,
    ensures
        a.advanced(step).attn_shape.attn_len == w.advanced(step).shape.dst_row_offset
            + w.advanced(step).shape.row_count,
        a.advanced(step).softmax_shape.width == a.advanced(step).attn_shape.attn_len,
{
}

/// The rows of the cache that a write covers.
pub open spec fn covers(shape: CacheWriteMeta, row: int) -> bool {
    shape.dst_row_offset <= row < shape.dst_row_offset + shape.row_count
}

/// Behind a prompt of `prompt_len` tokens, every row that the cached attention
/// reads at position `step` has been written: by the prompt's pass, or by the
/// decode step at the row's own position. No row behind them has.
pub proof fn cached_rows_have_been_written(
    c: Seq<Init>,
    cache: Tensor,
    width: u32,
    prompt_len: u32,
    w: CacheWriteOp,
    a: CachedAttentionOp,
    step: u32,
    row: int,
)
    requires
        w.shape.row_count == 1,
        prompt_len <= step < u32::MAX,
    ensures
        ({
            let prompt = CacheWriteOp::build(c, cache, prompt_len, width).1.shape;
            0 <= row < a.advanced(step).attn_shape.attn_len <==> covers(prompt, row) || exists|s: u32|
                prompt_len <= s <= step && covers(#[trigger] w.advanced(s).shape, row)
        }),
{
    let prompt = CacheWriteOp::build(c, cache, prompt_len, width).1.shape;
    if prompt_len <= row <= step {
        assert(covers(w.advanced(row as u32).shape, row));
    }
}

/// Between two decode steps only positions move: where a row is rotated to, which
/// row of the cache is written, and how many rows attention reads. The shapes of
/// the matrix products stay as they were when the graph was built.
pub proof fn only_positions_move(v: DecodeOpView, step: u32)
    ensures
        forall|i: int|
            0 <= i < <DecodeOp as Advance>::writes(v, step).len() ==> {
                let m = (#[trigger] <DecodeOp as Advance>::writes(v, step)[i]).1;
                m is RopeOffset || m is CacheWrite || m is AttnCached || m is SoftmaxRect
            },
        v is Linear ==> <DecodeOp as Advance>::writes(v, step).len() == 0,
        v is Linear ==> <DecodeOp as Advance>::advanced(v, step) == v,
{
}

} // verus!
