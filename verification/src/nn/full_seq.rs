//! The ops of a training tape. Those without an absolute position also serve
//! prefill and decode.
use super::kernels::emit;
use super::kernels::emit::FlashAttnBuffers;
use super::kernels::meta::{
    EmbeddingMeta, FlashAttnMeta, HeadMoveMeta, KernelMeta, MatMulMeta, NormMeta, RopeMeta,
};
use super::kernels::{FullSeqPhase, FwdPhase, GraphBuilder, Train};
use super::tape;
use super::tape::{Backward, Bwd, Forward, FromLeaf, Fwd, Leaf, TapeOp, zeros, zeros_like};
use crate::device;
use crate::device::{Context, Init, NodeView, Scalar, Tensor};
use vstd::prelude::*;

verus! {

// ---- embedding ----

#[derive(Clone, Copy, Debug, PartialEq, Eq, Structural)]
pub struct EmbeddingOp {
    pub tokens: Tensor,
    pub table: Tensor,
    pub grad_table: Tensor,
    pub out: Tensor,
    pub shape: EmbeddingMeta,
}

impl EmbeddingOp {
    pub open spec fn fits(self) -> bool {
        self.shape.dim + 255 <= u32::MAX && tape::small(self.out)
    }

    /// The context and the op that `new` leaves when it starts in `c`.
    pub open spec fn build(c: Seq<Init>, table: Tensor, seq_len: u32, vocab_size: u32, dim: u32) -> (
        Seq<Init>,
        Self,
    ) {
        let c1 = device::push_zeros(c, seq_len as int);
        let c2 = device::push_zeros(c1, tape::elems(table));
        (
            device::push_zeros(c2, seq_len * dim),
            EmbeddingOp {
                tokens: device::next_zeros(c, seq_len as int),
                table,
                grad_table: device::next_zeros(c1, tape::elems(table)),
                out: device::next_zeros(c2, seq_len * dim),
                shape: EmbeddingMeta { vocab_size, dim, seq_len },
            },
        )
    }

    pub fn new(ctx: &mut Context, table: Tensor, seq_len: u32, vocab_size: u32, dim: u32) -> (r: Self)
        requires
            tape::elems(table) <= u32::MAX,
            dim + 255 <= u32::MAX,
            0 <= seq_len * dim,
            seq_len * dim + 255 <= u32::MAX,
        ensures
            (final(ctx)@, r) == Self::build(old(ctx)@, table, seq_len, vocab_size, dim),
            r.fits(),
    {
        let tokens = zeros(ctx, seq_len);
        let grad_table = zeros_like(ctx, table);
        let out = zeros(ctx, seq_len * dim);
        Self { tokens, table, grad_table, out, shape: EmbeddingMeta { vocab_size, dim, seq_len } }
    }

    /// The buffer that the caller writes tokens to.
    pub fn tokens_handle(&self) -> (r: Tensor)
        ensures
            r == self.tokens,
    {
        self.tokens
    }

    pub open spec fn fwd(self, c: Seq<Init>, xs: Seq<Tensor>) -> Fwd<Self> {
        Fwd {
            ctx: device::push_meta(c, self.shape.spec_meta()),
            nodes: seq![
                emit::embedding_node(
                    self.tokens,
                    self.table,
                    self.out,
                    self.shape,
                    device::next_meta(c, self.shape.spec_meta()),
                ),
            ],
            outs: seq![self.out],
            next: self,
        }
    }

    pub open spec fn bwd(self, c: Seq<Init>, gs: Seq<Tensor>) -> Bwd<Self> {
        Bwd {
            ctx: device::push_meta(c, self.shape.spec_meta()),
            nodes: seq![
                emit::embedding_bwd_node(
                    self.tokens,
                    gs[0],
                    self.grad_table,
                    self.shape,
                    device::next_meta(c, self.shape.spec_meta()),
                ),
            ],
            grads: Seq::empty(),
            next: self,
        }
    }


    pub fn forward<P: FwdPhase>(
        &mut self,
        ctx: &mut Context,
        gb: &mut GraphBuilder<P>,
        xs: &Vec<Tensor>,
    ) -> (r: Vec<Tensor>)
        requires
            old(self).fits(),
            xs@.len() == 0,
        ensures
            ({
                let f = old(self).fwd(old(ctx)@, xs@);
                &&& final(ctx)@ == f.ctx
                &&& final(gb).graph@ == old(gb).graph@ + f.nodes
                &&& r@ == f.outs
                &&& *final(self) == f.next
            }),
    {
        let ghost g = gb.graph@;
        let ghost f = self.fwd(ctx@, xs@);
        emit::embedding(ctx, gb, self.tokens, self.table, self.out, self.shape);
        let r = vec![self.out];
        assert(gb.graph@ =~= g + f.nodes);
        assert(r@ =~= f.outs);
        r
    }


    pub fn backward(
        &mut self,
        ctx: &mut Context,
        gb: &mut GraphBuilder<Train>,
        gs: &Vec<Tensor>,
    ) -> (r: Vec<Tensor>)
        requires
            old(self).fits(),
            gs@.len() == 1,
            tape::all_small(gs@),
        ensures
            ({
                let b = old(self).bwd(old(ctx)@, gs@);
                &&& final(ctx)@ == b.ctx
                &&& final(gb).graph@ == old(gb).graph@ + b.nodes
                &&& r@ == b.grads
                &&& *final(self) == b.next
                &&& tape::all_small(b.grads)
            }),
    {
        let ghost g = gb.graph@;
        let ghost b = self.bwd(ctx@, gs@);
        emit::embedding_bwd(ctx, gb, self.tokens, gs[0], self.grad_table, self.shape);
        let r: Vec<Tensor> = Vec::new();
        assert(gb.graph@ =~= g + b.nodes);
        assert(r@ =~= b.grads);
        r
    }

}

// ---- linear ----

/// `y = x @ weight`.
#[derive(Clone, Copy, Debug, PartialEq, Eq, Structural)]
pub struct LinearOp {
    pub weight: Tensor,
    pub grad_weight: Tensor,
    pub out: Tensor,
    pub grad_in: Tensor,
    pub meta: Tensor,
    pub shape: MatMulMeta,
    pub saved_input: Option<Tensor>,
    pub decay: bool,
}

/// The shapes on which a linear op works.
pub open spec fn linear_ok(shape: MatMulMeta) -> bool {
    &&& emit::matmul_fits(shape)
    &&& shape.k + 15 <= u32::MAX
    &&& 0 <= shape.m * shape.n
    &&& shape.m * shape.n + 255 <= u32::MAX
    &&& 0 <= shape.m * shape.k
    &&& shape.m * shape.k + 255 <= u32::MAX
}

impl LinearOp {
    pub open spec fn fits(self) -> bool {
        linear_ok(self.shape) && tape::small(self.grad_in) && tape::small(self.out)
    }

    /// The context and the op that `new` leaves when it starts in `c`.
    pub open spec fn build(c: Seq<Init>, weight: Tensor, shape: MatMulMeta, decay: bool) -> (
        Seq<Init>,
        Self,
    ) {
        let c1 = device::push_zeros(c, tape::elems(weight));
        let c2 = device::push_zeros(c1, shape.m * shape.n);
        let c3 = device::push_zeros(c2, shape.m * shape.k);
        (
            device::push_meta(c3, shape.spec_meta()),
            LinearOp {
                weight,
                grad_weight: device::next_zeros(c, tape::elems(weight)),
                out: device::next_zeros(c1, shape.m * shape.n),
                grad_in: device::next_zeros(c2, shape.m * shape.k),
                meta: device::next_meta(c3, shape.spec_meta()),
                shape,
                saved_input: None,
                decay,
            },
        )
    }

    pub fn new(ctx: &mut Context, weight: Tensor, shape: MatMulMeta, decay: bool) -> (r: Self)
        requires
            tape::elems(weight) <= u32::MAX,
            linear_ok(shape),
        ensures
            (final(ctx)@, r) == Self::build(old(ctx)@, weight, shape, decay),
            r.fits(),
    {
        let grad_weight = zeros_like(ctx, weight);
        let out = zeros(ctx, shape.m * shape.n);
        let grad_in = zeros(ctx, shape.m * shape.k);
        let meta = shape.upload(ctx);
        Self { weight, grad_weight, out, grad_in, meta, shape, saved_input: None, decay }
    }

    pub open spec fn fwd(self, c: Seq<Init>, xs: Seq<Tensor>) -> Fwd<Self> {
        Fwd {
            ctx: c,
            nodes: seq![emit::matmul_node(xs[0], self.weight, self.out, self.shape, self.meta)],
            outs: seq![self.out],
            next: LinearOp { saved_input: Some(xs[0]), ..self },
        }
    }

    /// `dW += x^T @ dY`, then `dX = dY @ W^T`.
    pub open spec fn bwd(self, c: Seq<Init>, gs: Seq<Tensor>) -> Bwd<Self> {
        let x = self.saved_input->0;
        let trp = MatMulMeta { m: self.shape.m, n: self.shape.k, k: self.shape.n };
        let c1 = device::push_meta(c, self.shape.spec_meta());
        Bwd {
            ctx: device::push_meta(c1, trp.spec_meta()),
            nodes: seq![
                emit::matmul_weight_bwd_node(
                    x,
                    gs[0],
                    self.grad_weight,
                    self.shape,
                    device::next_meta(c, self.shape.spec_meta()),
                ),
                emit::matmul_trp_node(
                    gs[0],
                    self.weight,
                    self.grad_in,
                    trp,
                    device::next_meta(c1, trp.spec_meta()),
                ),
            ],
            grads: seq![self.grad_in],
            next: LinearOp { saved_input: None, ..self },
        }
    }


    pub fn forward<P: FwdPhase>(
        &mut self,
        ctx: &mut Context,
        gb: &mut GraphBuilder<P>,
        xs: &Vec<Tensor>,
    ) -> (r: Vec<Tensor>)
        requires
            old(self).fits(),
            xs@.len() == 1,
        ensures
            ({
                let f = old(self).fwd(old(ctx)@, xs@);
                &&& final(ctx)@ == f.ctx
                &&& final(gb).graph@ == old(gb).graph@ + f.nodes
                &&& r@ == f.outs
                &&& *final(self) == f.next
            }),
    {
        let ghost g = gb.graph@;
        let ghost f = self.fwd(ctx@, xs@);
        let x = xs[0];
        emit::matmul_with(gb, x, self.weight, self.out, self.shape, self.meta);
        self.saved_input = Some(x);
        let r = vec![self.out];
        assert(gb.graph@ =~= g + f.nodes);
        assert(r@ =~= f.outs);
        r
    }


    pub fn backward(
        &mut self,
        ctx: &mut Context,
        gb: &mut GraphBuilder<Train>,
        gs: &Vec<Tensor>,
    ) -> (r: Vec<Tensor>)
        requires
            old(self).fits(),
            gs@.len() == 1,
            tape::all_small(gs@),
            old(self).saved_input is Some,
        ensures
            ({
                let b = old(self).bwd(old(ctx)@, gs@);
                &&& final(ctx)@ == b.ctx
                &&& final(gb).graph@ == old(gb).graph@ + b.nodes
                &&& r@ == b.grads
                &&& *final(self) == b.next
                &&& tape::all_small(b.grads)
            }),
    {
        let ghost g = gb.graph@;
        let ghost b = self.bwd(ctx@, gs@);
        let x = self.saved_input.unwrap();
        self.saved_input = None;
        emit::matmul_weight_bwd(ctx, gb, x, gs[0], self.grad_weight, self.shape);
        // n/k swapped vs the forward shape
        let trp = MatMulMeta { m: self.shape.m, n: self.shape.k, k: self.shape.n };
        emit::matmul_trp(ctx, gb, gs[0], self.weight, self.grad_in, trp);
        let r = vec![self.grad_in];
        assert(gb.graph@ =~= g + b.nodes);
        assert(r@ =~= b.grads);
        r
    }

}

// ---- norm ----

#[derive(Clone, Copy, Debug, PartialEq, Eq, Structural)]
pub struct RmsNormOp {
    pub weight: Tensor,
    pub grad_weight: Tensor,
    pub out: Tensor,
    pub grad_in: Tensor,
    pub rsqrt_cache: Tensor,
    pub meta: Tensor,
    pub shape: NormMeta,
    pub saved_input: Option<Tensor>,
}

/// The shapes on which a norm op works.
pub open spec fn norm_ok(shape: NormMeta) -> bool {
    &&& shape.size + 255 <= u32::MAX
    &&& 0 <= shape.seq_len * shape.size
    &&& shape.seq_len * shape.size + 255 <= u32::MAX
}

impl RmsNormOp {
    pub open spec fn fits(self) -> bool {
        norm_ok(self.shape) && tape::small(self.grad_in) && tape::small(self.out)
    }

    /// The context and the op that `new` leaves when it starts in `c`.
    pub open spec fn build(c: Seq<Init>, weight: Tensor, shape: NormMeta) -> (Seq<Init>, Self) {
        let n = shape.seq_len * shape.size;
        let c1 = device::push_zeros(c, tape::elems(weight));
        let c2 = device::push_zeros(c1, n);
        let c3 = device::push_zeros(c2, n);
        let c4 = device::push_zeros(c3, shape.seq_len as int);
        (
            device::push_meta(c4, shape.spec_meta()),
            RmsNormOp {
                weight,
                grad_weight: device::next_zeros(c, tape::elems(weight)),
                out: device::next_zeros(c1, n),
                grad_in: device::next_zeros(c2, n),
                rsqrt_cache: device::next_zeros(c3, shape.seq_len as int),
                meta: device::next_meta(c4, shape.spec_meta()),
                shape,
                saved_input: None,
            },
        )
    }

    pub fn new(ctx: &mut Context, weight: Tensor, shape: NormMeta) -> (r: Self)
        requires
            tape::elems(weight) <= u32::MAX,
            norm_ok(shape),
        ensures
            (final(ctx)@, r) == Self::build(old(ctx)@, weight, shape),
            r.fits(),
    {
        let grad_weight = zeros_like(ctx, weight);
        let out = zeros(ctx, shape.seq_len * shape.size);
        let grad_in = zeros(ctx, shape.seq_len * shape.size);
        let rsqrt_cache = zeros(ctx, shape.seq_len);
        let meta = shape.upload(ctx);
        Self { weight, grad_weight, out, grad_in, rsqrt_cache, meta, shape, saved_input: None }
    }

    pub open spec fn fwd(self, c: Seq<Init>, xs: Seq<Tensor>) -> Fwd<Self> {
        Fwd {
            ctx: c,
            nodes: seq![emit::rmsnorm_node(xs[0], self.weight, self.out, self.shape, self.meta)],
            outs: seq![self.out],
            next: RmsNormOp { saved_input: Some(xs[0]), ..self },
        }
    }

    pub open spec fn bwd(self, c: Seq<Init>, gs: Seq<Tensor>) -> Bwd<Self> {
        let x = self.saved_input->0;
        let meta = device::next_meta(c, self.shape.spec_meta());
        Bwd {
            ctx: device::push_meta(c, self.shape.spec_meta()),
            nodes: seq![
                emit::rmsnorm_input_bwd_node(
                    gs[0],
                    x,
                    self.weight,
                    self.grad_in,
                    self.rsqrt_cache,
                    self.shape,
                    meta,
                ),
                emit::rmsnorm_weight_bwd_node(
                    gs[0],
                    x,
                    self.rsqrt_cache,
                    self.grad_weight,
                    self.shape,
                    meta,
                ),
            ],
            grads: seq![self.grad_in],
            next: RmsNormOp { saved_input: None, ..self },
        }
    }


    pub fn forward<P: FwdPhase>(
        &mut self,
        ctx: &mut Context,
        gb: &mut GraphBuilder<P>,
        xs: &Vec<Tensor>,
    ) -> (r: Vec<Tensor>)
        requires
            old(self).fits(),
            xs@.len() == 1,
        ensures
            ({
                let f = old(self).fwd(old(ctx)@, xs@);
                &&& final(ctx)@ == f.ctx
                &&& final(gb).graph@ == old(gb).graph@ + f.nodes
                &&& r@ == f.outs
                &&& *final(self) == f.next
            }),
    {
        let ghost g = gb.graph@;
        let ghost f = self.fwd(ctx@, xs@);
        let x = xs[0];
        emit::rmsnorm_with(gb, x, self.weight, self.out, self.shape, self.meta);
        self.saved_input = Some(x);
        let r = vec![self.out];
        assert(gb.graph@ =~= g + f.nodes);
        assert(r@ =~= f.outs);
        r
    }


    pub fn backward(
        &mut self,
        ctx: &mut Context,
        gb: &mut GraphBuilder<Train>,
        gs: &Vec<Tensor>,
    ) -> (r: Vec<Tensor>)
        requires
            old(self).fits(),
            gs@.len() == 1,
            tape::all_small(gs@),
            old(self).saved_input is Some,
        ensures
            ({
                let b = old(self).bwd(old(ctx)@, gs@);
                &&& final(ctx)@ == b.ctx
                &&& final(gb).graph@ == old(gb).graph@ + b.nodes
                &&& r@ == b.grads
                &&& *final(self) == b.next
                &&& tape::all_small(b.grads)
            }),
    {
        let ghost g = gb.graph@;
        let ghost b = self.bwd(ctx@, gs@);
        let x = self.saved_input.unwrap();
        self.saved_input = None;
        emit::rmsnorm_bwd(
            ctx,
            gb,
            gs[0],
            x,
            self.weight,
            self.grad_in,
            self.rsqrt_cache,
            self.grad_weight,
            self.shape,
        );
        let r = vec![self.grad_in];
        assert(gb.graph@ =~= g + b.nodes);
        assert(r@ =~= b.grads);
        r
    }

}

// ---- silu ----

/// Weightless; not in place, because backward needs the pre-activation.
#[derive(Clone, Copy, Debug, PartialEq, Eq, Structural)]
pub struct SiluOp {
    pub out: Tensor,
    pub grad_in: Tensor,
    pub len: u32,
    pub saved_input: Option<Tensor>,
}

impl SiluOp {
    pub open spec fn fits(self) -> bool {
        self.len + 255 <= u32::MAX && tape::small(self.grad_in) && tape::small(self.out)
    }

    /// The context and the op that `new` leaves when it starts in `c`.
    pub open spec fn build(c: Seq<Init>, len: u32) -> (Seq<Init>, Self) {
        let c1 = device::push_zeros(c, len as int);
        (
            device::push_zeros(c1, len as int),
            SiluOp {
                out: device::next_zeros(c, len as int),
                grad_in: device::next_zeros(c1, len as int),
                len,
                saved_input: None,
            },
        )
    }

    pub fn new(ctx: &mut Context, len: u32) -> (r: Self)
        ensures
            (final(ctx)@, r) == Self::build(old(ctx)@, len),
            len + 255 <= u32::MAX ==> r.fits(),
    {
        let out = zeros(ctx, len);
        let grad_in = zeros(ctx, len);
        Self { out, grad_in, len, saved_input: None }
    }

    pub open spec fn fwd(self, c: Seq<Init>, xs: Seq<Tensor>) -> Fwd<Self> {
        Fwd {
            ctx: c,
            nodes: seq![emit::silu_out_node(xs[0], self.out, self.len)],
            outs: seq![self.out],
            next: SiluOp { saved_input: Some(xs[0]), ..self },
        }
    }

    pub open spec fn bwd(self, c: Seq<Init>, gs: Seq<Tensor>) -> Bwd<Self> {
        Bwd {
            ctx: c,
            nodes: seq![emit::silu_bwd_node(self.saved_input->0, gs[0], self.grad_in, self.len)],
            grads: seq![self.grad_in],
            next: SiluOp { saved_input: None, ..self },
        }
    }


    pub fn forward<P: FwdPhase>(
        &mut self,
        ctx: &mut Context,
        gb: &mut GraphBuilder<P>,
        xs: &Vec<Tensor>,
    ) -> (r: Vec<Tensor>)
        requires
            old(self).fits(),
            xs@.len() == 1,
        ensures
            ({
                let f = old(self).fwd(old(ctx)@, xs@);
                &&& final(ctx)@ == f.ctx
                &&& final(gb).graph@ == old(gb).graph@ + f.nodes
                &&& r@ == f.outs
                &&& *final(self) == f.next
            }),
    {
        let ghost g = gb.graph@;
        let ghost f = self.fwd(ctx@, xs@);
        let x = xs[0];
        emit::silu_out(gb, x, self.out, self.len);
        self.saved_input = Some(x);
        let r = vec![self.out];
        assert(gb.graph@ =~= g + f.nodes);
        assert(r@ =~= f.outs);
        r
    }


    pub fn backward(
        &mut self,
        ctx: &mut Context,
        gb: &mut GraphBuilder<Train>,
        gs: &Vec<Tensor>,
    ) -> (r: Vec<Tensor>)
        requires
            old(self).fits(),
            gs@.len() == 1,
            tape::all_small(gs@),
            old(self).saved_input is Some,
        ensures
            ({
                let b = old(self).bwd(old(ctx)@, gs@);
                &&& final(ctx)@ == b.ctx
                &&& final(gb).graph@ == old(gb).graph@ + b.nodes
                &&& r@ == b.grads
                &&& *final(self) == b.next
                &&& tape::all_small(b.grads)
            }),
    {
        let ghost g = gb.graph@;
        let ghost b = self.bwd(ctx@, gs@);
        let x = self.saved_input.unwrap();
        self.saved_input = None;
        emit::silu_bwd(gb, x, gs[0], self.grad_in, self.len);
        let r = vec![self.grad_in];
        assert(gb.graph@ =~= g + b.nodes);
        assert(r@ =~= b.grads);
        r
    }

}

// ---- add ----

/// `y = a + b` (residual). Backward hands the same gradient to both inputs.
#[derive(Clone, Copy, Debug, PartialEq, Eq, Structural)]
pub struct AddOp {
    pub out: Tensor,
    pub len: u32,
}

impl AddOp {
    pub open spec fn fits(self) -> bool {
        self.len + 255 <= u32::MAX && tape::small(self.out)
    }

    /// The context and the op that `new` leaves when it starts in `c`.
    pub open spec fn build(c: Seq<Init>, len: u32) -> (Seq<Init>, Self) {
        (
            device::push_zeros(c, len as int),
            AddOp { out: device::next_zeros(c, len as int), len },
        )
    }

    pub fn new(ctx: &mut Context, len: u32) -> (r: Self)
        ensures
            (final(ctx)@, r) == Self::build(old(ctx)@, len),
            len + 255 <= u32::MAX ==> r.fits(),
    {
        Self { out: zeros(ctx, len), len }
    }

    pub open spec fn fwd(self, c: Seq<Init>, xs: Seq<Tensor>) -> Fwd<Self> {
        Fwd {
            ctx: c,
            nodes: seq![emit::add_out_node(xs[0], xs[1], self.out, self.len)],
            outs: seq![self.out],
            next: self,
        }
    }

    pub open spec fn bwd(self, c: Seq<Init>, gs: Seq<Tensor>) -> Bwd<Self> {
        Bwd { ctx: c, nodes: Seq::empty(), grads: seq![gs[0], gs[0]], next: self }
    }


    pub fn forward<P: FwdPhase>(
        &mut self,
        ctx: &mut Context,
        gb: &mut GraphBuilder<P>,
        xs: &Vec<Tensor>,
    ) -> (r: Vec<Tensor>)
        requires
            old(self).fits(),
            xs@.len() == 2,
        ensures
            ({
                let f = old(self).fwd(old(ctx)@, xs@);
                &&& final(ctx)@ == f.ctx
                &&& final(gb).graph@ == old(gb).graph@ + f.nodes
                &&& r@ == f.outs
                &&& *final(self) == f.next
            }),
    {
        let ghost g = gb.graph@;
        let ghost f = self.fwd(ctx@, xs@);
        emit::add_out(gb, xs[0], xs[1], self.out, self.len);
        let r = vec![self.out];
        assert(gb.graph@ =~= g + f.nodes);
        assert(r@ =~= f.outs);
        r
    }


    pub fn backward(
        &mut self,
        ctx: &mut Context,
        gb: &mut GraphBuilder<Train>,
        gs: &Vec<Tensor>,
    ) -> (r: Vec<Tensor>)
        requires
            old(self).fits(),
            gs@.len() == 1,
            tape::all_small(gs@),
        ensures
            ({
                let b = old(self).bwd(old(ctx)@, gs@);
                &&& final(ctx)@ == b.ctx
                &&& final(gb).graph@ == old(gb).graph@ + b.nodes
                &&& r@ == b.grads
                &&& *final(self) == b.next
                &&& tape::all_small(b.grads)
            }),
    {
        let ghost g = gb.graph@;
        let ghost b = self.bwd(ctx@, gs@);
        let r = vec![gs[0], gs[0]];
        assert(gb.graph@ =~= g + b.nodes);
        assert(r@ =~= b.grads);
        r
    }

}

// ---- rope ----

/// Fused RoPE on Q and K, one dispatch per sequence of the batch, in place.
#[derive(Clone, Copy, Debug, PartialEq, Eq, Structural)]
pub struct RopeQkOp {
    pub shape: RopeMeta,
    pub batch_size: u32,
}

impl RopeQkOp {
    pub open spec fn fits(self) -> bool {
        emit::rope_fits(self.shape) && self.batch_size * self.shape.seq_len <= u32::MAX
    }

    pub open spec fn build(seq_len: u32, dim: u32, head_dim: u32, batch_size: u32) -> Self {
        RopeQkOp { shape: RopeMeta { seq_len, dim, head_dim, row_offset: 0 }, batch_size }
    }

    pub fn new(seq_len: u32, dim: u32, head_dim: u32, batch_size: u32) -> (r: Self)
        ensures
            r == Self::build(seq_len, dim, head_dim, batch_size),
    {
        Self { shape: RopeMeta { seq_len, dim, head_dim, row_offset: 0 }, batch_size }
    }

    /// The shape of sequence `b`: it starts at row `b * seq_len`.
    pub open spec fn spec_shape_for(self, b: int) -> RopeMeta {
        RopeMeta { row_offset: (b * self.shape.seq_len) as u32, ..self.shape }
    }

    pub fn shape_for(&self, b: u32) -> (r: RopeMeta)
        requires
            b * self.shape.seq_len <= u32::MAX,
        ensures
            r == self.spec_shape_for(b as int),
    {
        RopeMeta { row_offset: b * self.shape.seq_len, ..self.shape }
    }

    /// One meta for each of the first `n` sequences.
    pub open spec fn batch_ctx(self, c: Seq<Init>, n: nat) -> Seq<Init>
        decreases n,
    {
        if n == 0 {
            c
        } else {
            device::push_meta(
                self.batch_ctx(c, (n - 1) as nat),
                self.spec_shape_for(n - 1).spec_meta(),
            )
        }
    }

    /// The rotations of the first `n` sequences.
    pub open spec fn batch_nodes(self, c: Seq<Init>, q: Tensor, k: Tensor, n: nat) -> Seq<NodeView>
        decreases n,
    {
        if n == 0 {
            Seq::empty()
        } else {
            let shape = self.spec_shape_for(n - 1);
            self.batch_nodes(c, q, k, (n - 1) as nat).push(
                emit::rope_qk_node(
                    q,
                    k,
                    shape,
                    device::next_meta(self.batch_ctx(c, (n - 1) as nat), shape.spec_meta()),
                ),
            )
        }
    }

    /// The rotations back of the first `n` sequences.
    pub open spec fn batch_bwd_nodes(self, c: Seq<Init>, gq: Tensor, gk: Tensor, n: nat) -> Seq<
        NodeView,
    >
        decreases n,
    {
        if n == 0 {
            Seq::empty()
        } else {
            let shape = self.spec_shape_for(n - 1);
            self.batch_bwd_nodes(c, gq, gk, (n - 1) as nat).push(
                emit::rope_bwd_qk_node(
                    gq,
                    gk,
                    shape,
                    device::next_meta(self.batch_ctx(c, (n - 1) as nat), shape.spec_meta()),
                ),
            )
        }
    }

    pub open spec fn fwd(self, c: Seq<Init>, xs: Seq<Tensor>) -> Fwd<Self> {
        Fwd {
            ctx: self.batch_ctx(c, self.batch_size as nat),
            nodes: self.batch_nodes(c, xs[0], xs[1], self.batch_size as nat),
            outs: seq![xs[0], xs[1]],
            next: self,
        }
    }

    pub open spec fn bwd(self, c: Seq<Init>, gs: Seq<Tensor>) -> Bwd<Self> {
        Bwd {
            ctx: self.batch_ctx(c, self.batch_size as nat),
            nodes: self.batch_bwd_nodes(c, gs[0], gs[1], self.batch_size as nat),
            grads: seq![gs[0], gs[1]],
            next: self,
        }
    }


    pub fn forward<P: FullSeqPhase>(
        &mut self,
        ctx: &mut Context,
        gb: &mut GraphBuilder<P>,
        xs: &Vec<Tensor>,
    ) -> (r: Vec<Tensor>)
        requires
            old(self).fits(),
            xs@.len() == 2,
        ensures
            ({
                let f = old(self).fwd(old(ctx)@, xs@);
                &&& final(ctx)@ == f.ctx
                &&& final(gb).graph@ == old(gb).graph@ + f.nodes
                &&& r@ == f.outs
                &&& *final(self) == f.next
            }),
    {
        let ghost g = gb.graph@;
        let ghost f = self.fwd(ctx@, xs@);
        let ghost c = ctx@;
        let op = *self;
        let mut i: u32 = 0;
        while i < op.batch_size
            invariant
                i <= op.batch_size,
                op.fits(),
                xs@.len() == 2,
                ctx@ == op.batch_ctx(c, i as nat),
                gb.graph@ == g + op.batch_nodes(c, xs@[0], xs@[1], i as nat),
            decreases op.batch_size - i,
        {
            proof {
                lemma_offset(op.batch_size, op.shape.seq_len, i as int);
            }
            let shape = op.shape_for(i);
            emit::rope_qk(ctx, gb, xs[0], xs[1], shape);
            i = i + 1;
        }
        let r = vec![xs[0], xs[1]];
        assert(gb.graph@ =~= g + f.nodes);
        assert(r@ =~= f.outs);
        r
    }


    pub fn backward(
        &mut self,
        ctx: &mut Context,
        gb: &mut GraphBuilder<Train>,
        gs: &Vec<Tensor>,
    ) -> (r: Vec<Tensor>)
        requires
            old(self).fits(),
            gs@.len() == 2,
            tape::all_small(gs@),
        ensures
            ({
                let b = old(self).bwd(old(ctx)@, gs@);
                &&& final(ctx)@ == b.ctx
                &&& final(gb).graph@ == old(gb).graph@ + b.nodes
                &&& r@ == b.grads
                &&& *final(self) == b.next
                &&& tape::all_small(b.grads)
            }),
    {
        let ghost g = gb.graph@;
        let ghost b = self.bwd(ctx@, gs@);
        let ghost c = ctx@;
        let op = *self;
        let mut i: u32 = 0;
        while i < op.batch_size
            invariant
                i <= op.batch_size,
                op.fits(),
                gs@.len() == 2,
                ctx@ == op.batch_ctx(c, i as nat),
                gb.graph@ == g + op.batch_bwd_nodes(c, gs@[0], gs@[1], i as nat),
            decreases op.batch_size - i,
        {
            proof {
                lemma_offset(op.batch_size, op.shape.seq_len, i as int);
            }
            let shape = op.shape_for(i);
            emit::rope_bwd_qk(ctx, gb, gs[0], gs[1], shape);
            i = i + 1;
        }
        let r = vec![gs[0], gs[1]];
        assert(gb.graph@ =~= g + b.nodes);
        assert(r@ =~= b.grads);
        r
    }

}

pub proof fn lemma_offset(batch_size: u32, seq_len: u32, b: int)
    requires
        batch_size * seq_len <= u32::MAX,
        0 <= b < batch_size,
    ensures
        0 <= b * seq_len <= u32::MAX,
{
    assert(0 <= b * seq_len <= batch_size * seq_len) by (nonlinear_arith)
        requires
            0 <= b < batch_size,
            seq_len >= 0,
    ;
}

// ---- qkv split ----

/// One `[rows, 3*dim]` input -> three `[rows, dim]` outputs; backward is the
/// mirror.
#[derive(Clone, Copy, Debug, PartialEq, Eq, Structural)]
pub struct QkvSplitOp {
    pub q: Tensor,
    pub k: Tensor,
    pub v: Tensor,
    pub grad_qkv: Tensor,
    pub shape: HeadMoveMeta,
}

impl QkvSplitOp {
    pub open spec fn fits(self) -> bool {
        &&& emit::head_fits(self.shape)
        &&& tape::small(self.grad_qkv)
        &&& tape::small(self.q)
        &&& tape::small(self.k)
        &&& tape::small(self.v)
    }

    /// The context and the op that `new` leaves when it starts in `c`.
    pub open spec fn build(c: Seq<Init>, rows: u32, dim: u32) -> (Seq<Init>, Self) {
        let n = rows * dim;
        let c1 = device::push_zeros(c, n);
        let c2 = device::push_zeros(c1, n);
        let c3 = device::push_zeros(c2, n);
        (
            device::push_zeros(c3, n * 3),
            QkvSplitOp {
                q: device::next_zeros(c, n),
                k: device::next_zeros(c1, n),
                v: device::next_zeros(c2, n),
                grad_qkv: device::next_zeros(c3, n * 3),
                shape: HeadMoveMeta::spec_qkv_slice(rows, dim, 0),
            },
        )
    }

    pub fn new(ctx: &mut Context, rows: u32, dim: u32) -> (r: Self)
        requires
            3 * dim <= u32::MAX,
            dim + 15 <= u32::MAX,
            rows + 15 <= u32::MAX,
            0 <= rows * dim,
            rows * dim * 3 + 255 <= u32::MAX,
        ensures
            (final(ctx)@, r) == Self::build(old(ctx)@, rows, dim),
            r.fits(),
    {
        let n: u32 = rows * dim;
        let q = zeros(ctx, n);
        let k = zeros(ctx, n);
        let v = zeros(ctx, n);
        let grad_qkv = zeros(ctx, n * 3);
        Self { q, k, v, grad_qkv, shape: HeadMoveMeta::qkv_slice(rows, dim, 0) }
    }

    pub open spec fn fwd(self, c: Seq<Init>, xs: Seq<Tensor>) -> Fwd<Self> {
        Fwd {
            ctx: device::push_meta(c, self.shape.spec_meta()),
            nodes: seq![
                emit::qkv_split_node(
                    xs[0],
                    self.q,
                    self.k,
                    self.v,
                    self.shape,
                    device::next_meta(c, self.shape.spec_meta()),
                ),
            ],
            outs: seq![self.q, self.k, self.v],
            next: self,
        }
    }

    pub open spec fn bwd(self, c: Seq<Init>, gs: Seq<Tensor>) -> Bwd<Self> {
        Bwd {
            ctx: device::push_meta(c, self.shape.spec_meta()),
            nodes: seq![
                emit::qkv_scatter_node(
                    gs[0],
                    gs[1],
                    gs[2],
                    self.grad_qkv,
                    self.shape,
                    device::next_meta(c, self.shape.spec_meta()),
                ),
            ],
            grads: seq![self.grad_qkv],
            next: self,
        }
    }


    pub fn forward<P: FullSeqPhase>(
        &mut self,
        ctx: &mut Context,
        gb: &mut GraphBuilder<P>,
        xs: &Vec<Tensor>,
    ) -> (r: Vec<Tensor>)
        requires
            old(self).fits(),
            xs@.len() == 1,
        ensures
            ({
                let f = old(self).fwd(old(ctx)@, xs@);
                &&& final(ctx)@ == f.ctx
                &&& final(gb).graph@ == old(gb).graph@ + f.nodes
                &&& r@ == f.outs
                &&& *final(self) == f.next
            }),
    {
        let ghost g = gb.graph@;
        let ghost f = self.fwd(ctx@, xs@);
        emit::qkv_split(ctx, gb, xs[0], self.q, self.k, self.v, self.shape);
        let r = vec![self.q, self.k, self.v];
        assert(gb.graph@ =~= g + f.nodes);
        assert(r@ =~= f.outs);
        r
    }


    pub fn backward(
        &mut self,
        ctx: &mut Context,
        gb: &mut GraphBuilder<Train>,
        gs: &Vec<Tensor>,
    ) -> (r: Vec<Tensor>)
        requires
            old(self).fits(),
            gs@.len() == 3,
            tape::all_small(gs@),
        ensures
            ({
                let b = old(self).bwd(old(ctx)@, gs@);
                &&& final(ctx)@ == b.ctx
                &&& final(gb).graph@ == old(gb).graph@ + b.nodes
                &&& r@ == b.grads
                &&& *final(self) == b.next
                &&& tape::all_small(b.grads)
            }),
    {
        let ghost g = gb.graph@;
        let ghost b = self.bwd(ctx@, gs@);
        emit::qkv_scatter(ctx, gb, gs[0], gs[1], gs[2], self.grad_qkv, self.shape);
        let r = vec![self.grad_qkv];
        assert(gb.graph@ =~= g + b.nodes);
        assert(r@ =~= b.grads);
        r
    }

}

// ---- attention ----

/// Flash attention: `[q, k, v] -> out` forward; `d_out -> [dq, dk, dv]` backward.
pub struct AttentionOp {
    pub out: Tensor,
    pub grad_q: Tensor,
    pub grad_k: Tensor,
    pub grad_v: Tensor,
    pub seq_len: u32,
    pub dim: u32,
    pub head_dim: u32,
    pub batch_size: u32,
    pub saved: Option<(Tensor, Tensor, Tensor, Vec<FlashAttnBuffers>)>,
}

/// The value of an `AttentionOp`.
#[verifier::ext_equal]
pub struct AttentionOpView {
    pub out: Tensor,
    pub grad_q: Tensor,
    pub grad_k: Tensor,
    pub grad_v: Tensor,
    pub seq_len: u32,
    pub dim: u32,
    pub head_dim: u32,
    pub batch_size: u32,
    pub saved: Option<(Tensor, Tensor, Tensor, Seq<FlashAttnBuffers>)>,
}

impl View for AttentionOp {
    type V = AttentionOpView;

    open spec fn view(&self) -> AttentionOpView {
        AttentionOpView {
            out: self.out,
            grad_q: self.grad_q,
            grad_k: self.grad_k,
            grad_v: self.grad_v,
            seq_len: self.seq_len,
            dim: self.dim,
            head_dim: self.head_dim,
            batch_size: self.batch_size,
            saved: match self.saved {
                Some(s) => Some((s.0, s.1, s.2, s.3@)),
                None => None,
            },
        }
    }
}

impl AttentionOpView {
    pub open spec fn shape_for(self, b: int) -> FlashAttnMeta {
        FlashAttnMeta {
            seq_len: self.seq_len,
            dim: self.dim,
            head_dim: self.head_dim,
            scale: Scalar::RecipSqrt(self.head_dim),
            row_offset: (b * self.seq_len) as u32,
        }
    }

    pub open spec fn fits(self) -> bool {
        &&& emit::flash_fits(self.shape_for(0))
        &&& self.batch_size * self.seq_len <= u32::MAX
        &&& tape::small(self.grad_q)
        &&& tape::small(self.grad_k)
        &&& tape::small(self.grad_v)
        &&& tape::small(self.out)
    }

    /// The context and the op that `new` leaves when it starts in `c`.
    pub open spec fn build(c: Seq<Init>, seq_len: u32, dim: u32, head_dim: u32, batch_size: u32) -> (
        Seq<Init>,
        Self,
    ) {
        let n = seq_len * batch_size * dim;
        let c1 = device::push_zeros(c, n);
        let c2 = device::push_zeros(c1, n);
        let c3 = device::push_zeros(c2, n);
        (
            device::push_zeros(c3, n),
            AttentionOpView {
                out: device::next_zeros(c, n),
                grad_q: device::next_zeros(c1, n),
                grad_k: device::next_zeros(c2, n),
                grad_v: device::next_zeros(c3, n),
                seq_len,
                dim,
                head_dim,
                batch_size,
                saved: None,
            },
        )
    }

    /// The context after the forward passes of the first `n` sequences.
    pub open spec fn fwd_ctx(self, c: Seq<Init>, n: nat) -> Seq<Init>
        decreases n,
    {
        if n == 0 {
            c
        } else {
            emit::flash_ctx(self.fwd_ctx(c, (n - 1) as nat), self.shape_for(n - 1))
        }
    }

    /// What the forward passes of the first `n` sequences leave.
    pub open spec fn fwd_saved(self, c: Seq<Init>, n: nat) -> Seq<FlashAttnBuffers> {
        Seq::new(
            n,
            |b: int|
                FlashAttnBuffers {
                    out: self.out,
                    l_cache: emit::flash_l_cache(self.fwd_ctx(c, b as nat), self.shape_for(b)),
                },
        )
    }

    /// One forward dispatch for each of the first `n` sequences.
    pub open spec fn fwd_nodes(self, c: Seq<Init>, q: Tensor, k: Tensor, v: Tensor, n: nat) -> Seq<
        NodeView,
    >
        decreases n,
    {
        if n == 0 {
            Seq::empty()
        } else {
            let prev = self.fwd_ctx(c, (n - 1) as nat);
            let shape = self.shape_for(n - 1);
            self.fwd_nodes(c, q, k, v, (n - 1) as nat).push(
                emit::flash_attention_node(
                    q,
                    k,
                    v,
                    self.out,
                    emit::flash_l_cache(prev, shape),
                    shape,
                    emit::flash_meta(prev, shape),
                ),
            )
        }
    }

    pub open spec fn fwd(self, c: Seq<Init>, xs: Seq<Tensor>) -> Fwd<Self> {
        let n = self.batch_size as nat;
        Fwd {
            ctx: self.fwd_ctx(c, n),
            nodes: self.fwd_nodes(c, xs[0], xs[1], xs[2], n),
            outs: seq![self.out],
            next: AttentionOpView {
                saved: Some((xs[0], xs[1], xs[2], self.fwd_saved(c, n))),
                ..self
            },
        }
    }

    /// The context after the backward passes of the first `n` sequences.
    pub open spec fn bwd_ctx(self, c: Seq<Init>, n: nat) -> Seq<Init>
        decreases n,
    {
        if n == 0 {
            c
        } else {
            emit::flash_bwd_ctx(self.bwd_ctx(c, (n - 1) as nat), self.shape_for(n - 1))
        }
    }

    /// The backward dispatches of the first `n` sequences.
    pub open spec fn bwd_nodes(self, c: Seq<Init>, g: Tensor, n: nat) -> Seq<NodeView>
        decreases n,
    {
        if n == 0 {
            Seq::empty()
        } else {
            let s = self.saved->0;
            self.bwd_nodes(c, g, (n - 1) as nat) + emit::flash_bwd_nodes(
                self.bwd_ctx(c, (n - 1) as nat),
                s.0,
                s.1,
                s.2,
                s.3[n - 1],
                g,
                self.grad_q,
                self.grad_k,
                self.grad_v,
                self.shape_for(n - 1),
            )
        }
    }

    pub open spec fn bwd(self, c: Seq<Init>, gs: Seq<Tensor>) -> Bwd<Self> {
        let n = (self.saved->0).3.len();
        Bwd {
            ctx: self.bwd_ctx(c, n),
            nodes: self.bwd_nodes(c, gs[0], n),
            grads: seq![self.grad_q, self.grad_k, self.grad_v],
            next: AttentionOpView { saved: None, ..self },
        }
    }
}

impl AttentionOp {
    pub fn new(ctx: &mut Context, seq_len: u32, dim: u32, head_dim: u32, batch_size: u32) -> (r: Self)
        requires
            seq_len * batch_size <= u32::MAX,
            0 <= seq_len * batch_size * dim,
            seq_len * batch_size * dim + 255 <= u32::MAX,
        ensures
            (final(ctx)@, r@) == AttentionOpView::build(
                old(ctx)@,
                seq_len,
                dim,
                head_dim,
                batch_size,
            ),
            emit::flash_fits(r@.shape_for(0)) && batch_size * seq_len <= u32::MAX ==> r@.fits(),
    {
        let rows_size: u32 = seq_len * batch_size * dim;
        let out = zeros(ctx, rows_size);
        let grad_q = zeros(ctx, rows_size);
        let grad_k = zeros(ctx, rows_size);
        let grad_v = zeros(ctx, rows_size);
        Self { out, grad_q, grad_k, grad_v, seq_len, dim, head_dim, batch_size, saved: None }
    }

    /// The shape of sequence `b`: it starts at row `b * seq_len`.
    pub fn shape_for(&self, b: u32) -> (r: FlashAttnMeta)
        requires
            b * self.seq_len <= u32::MAX,
        ensures
            r == self@.shape_for(b as int),
    {
        FlashAttnMeta {
            seq_len: self.seq_len,
            dim: self.dim,
            head_dim: self.head_dim,
            scale: Scalar::RecipSqrt(self.head_dim),
            row_offset: b * self.seq_len,
        }
    }

    pub fn forward<P: FullSeqPhase>(
        &mut self,
        ctx: &mut Context,
        gb: &mut GraphBuilder<P>,
        xs: &Vec<Tensor>,
    ) -> (r: Vec<Tensor>)
        requires
            old(self)@.fits(),
            xs@.len() == 3,
        ensures
            ({
                let f = old(self)@.fwd(old(ctx)@, xs@);
                &&& final(ctx)@ == f.ctx
                &&& final(gb).graph@ == old(gb).graph@ + f.nodes
                &&& r@ == f.outs
                &&& final(self)@ == f.next
            }),
    {
        let ghost op = self@;
        let ghost c = ctx@;
        let ghost g = gb.graph@;
        let (q, k, v) = (xs[0], xs[1], xs[2]);
        let mut bufs: Vec<FlashAttnBuffers> = Vec::new();
        let mut b: u32 = 0;
        while b < self.batch_size
            invariant
                b <= self.batch_size,
                self@ == op,
                op.fits(),
                ctx@ == op.fwd_ctx(c, b as nat),
                gb.graph@ == g + op.fwd_nodes(c, q, k, v, b as nat),
                bufs@ == op.fwd_saved(c, b as nat),
            decreases self.batch_size - b,
        {
            proof {
                lemma_offset(op.batch_size, op.seq_len, b as int);
            }
            let shape = self.shape_for(b);
            let saved_b = emit::flash_attention(ctx, gb, q, k, v, self.out, shape);
            bufs.push(saved_b);
            b = b + 1;
            assert(bufs@ =~= op.fwd_saved(c, b as nat));
        }
        self.saved = Some((q, k, v, bufs));
        let r = vec![self.out];
        assert(r@ =~= seq![self.out]);
        r
    }

    pub fn backward(
        &mut self,
        ctx: &mut Context,
        gb: &mut GraphBuilder<Train>,
        gs: &Vec<Tensor>,
    ) -> (r: Vec<Tensor>)
        requires
            old(self)@.fits(),
            gs@.len() == 1,
            old(self)@.saved is Some,
            (old(self)@.saved->0).3.len() == old(self)@.batch_size,
        ensures
            ({
                let b = old(self)@.bwd(old(ctx)@, gs@);
                &&& final(ctx)@ == b.ctx
                &&& final(gb).graph@ == old(gb).graph@ + b.nodes
                &&& r@ == b.grads
                &&& final(self)@ == b.next
                &&& tape::all_small(b.grads)
            }),
    {
        let ghost op = self@;
        let ghost c = ctx@;
        let ghost g = gb.graph@;
        let mut taken: Option<(Tensor, Tensor, Tensor, Vec<FlashAttnBuffers>)> = None;
        std::mem::swap(&mut taken, &mut self.saved);
        let (q, k, v, bufs) = taken.unwrap();
        let mut b: u32 = 0;
        while b < self.batch_size
            invariant
                b <= self.batch_size == bufs@.len(),
                self@ == (AttentionOpView { saved: None, ..op }),
                op.saved == Some((q, k, v, bufs@)),
                op.fits(),
                gs@.len() == 1,
                ctx@ == op.bwd_ctx(c, b as nat),
                gb.graph@ == g + op.bwd_nodes(c, gs@[0], b as nat),
            decreases self.batch_size - b,
        {
            proof {
                lemma_offset(op.batch_size, op.seq_len, b as int);
            }
            let shape = self.shape_for(b);
            emit::flash_attention_bwd(
                ctx,
                gb,
                q,
                k,
                v,
                bufs[b as usize],
                gs[0],
                self.grad_q,
                self.grad_k,
                self.grad_v,
                shape,
            );
            b = b + 1;
        }
        vec![self.grad_q, self.grad_k, self.grad_v]
    }
}

// ---- op sets ----

/// The ops of a training tape.
pub enum TrainOp {
    Embedding(EmbeddingOp),
    Linear(LinearOp),
    RmsNorm(RmsNormOp),
    Silu(SiluOp),
    Add(AddOp),
    RopeQk(RopeQkOp),
    QkvSplit(QkvSplitOp),
    Attention(AttentionOp),
    Leaf(Leaf),
}

/// The value of a `TrainOp`.
pub enum TrainOpView {
    Embedding(EmbeddingOp),
    Linear(LinearOp),
    RmsNorm(RmsNormOp),
    Silu(SiluOp),
    Add(AddOp),
    RopeQk(RopeQkOp),
    QkvSplit(QkvSplitOp),
    Attention(AttentionOpView),
    Leaf(Leaf),
}

impl TapeOp for TrainOp {
    type V = TrainOpView;

    open spec fn v(&self) -> TrainOpView {
        match *self {
            TrainOp::Embedding(op) => TrainOpView::Embedding(op),
            TrainOp::Linear(op) => TrainOpView::Linear(op),
            TrainOp::RmsNorm(op) => TrainOpView::RmsNorm(op),
            TrainOp::Silu(op) => TrainOpView::Silu(op),
            TrainOp::Add(op) => TrainOpView::Add(op),
            TrainOp::RopeQk(op) => TrainOpView::RopeQk(op),
            TrainOp::QkvSplit(op) => TrainOpView::QkvSplit(op),
            TrainOp::Attention(op) => TrainOpView::Attention(op@),
            TrainOp::Leaf(op) => TrainOpView::Leaf(op),
        }
    }
}

impl FromLeaf for TrainOp {
    open spec fn spec_leaf(x: Leaf) -> TrainOpView {
        TrainOpView::Leaf(x)
    }

    fn from_leaf(x: Leaf) -> Self {
        TrainOp::Leaf(x)
    }
}

impl Forward<Train> for TrainOp {
    open spec fn fits(v: TrainOpView) -> bool {
        match v {
            TrainOpView::Embedding(op) => op.fits(),
            TrainOpView::Linear(op) => op.fits(),
            TrainOpView::RmsNorm(op) => op.fits(),
            TrainOpView::Silu(op) => op.fits(),
            TrainOpView::Add(op) => op.fits(),
            TrainOpView::RopeQk(op) => op.fits(),
            TrainOpView::QkvSplit(op) => op.fits(),
            TrainOpView::Attention(op) => op.fits(),
            TrainOpView::Leaf(op) => tape::small(op.value),
        }
    }

    open spec fn n_in(v: TrainOpView) -> nat {
        match v {
            TrainOpView::Embedding(op) => 0,
            TrainOpView::Linear(op) => 1,
            TrainOpView::RmsNorm(op) => 1,
            TrainOpView::Silu(op) => 1,
            TrainOpView::Add(op) => 2,
            TrainOpView::RopeQk(op) => 2,
            TrainOpView::QkvSplit(op) => 1,
            TrainOpView::Attention(op) => 3,
            TrainOpView::Leaf(op) => 0,
        }
    }

    open spec fn n_out(v: TrainOpView) -> nat {
        match v {
            TrainOpView::RopeQk(op) => 2,
            TrainOpView::QkvSplit(op) => 3,
            _ => 1,
        }
    }

    proof fn fwd_gives_n_out(v: TrainOpView, c: Seq<Init>, xs: Seq<Tensor>) {
    }

    open spec fn fwd(v: TrainOpView, c: Seq<Init>, xs: Seq<Tensor>) -> Fwd<TrainOpView> {
        match v {
            TrainOpView::Embedding(op) => {
                let f = op.fwd(c, xs);
                Fwd { ctx: f.ctx, nodes: f.nodes, outs: f.outs, next: TrainOpView::Embedding(f.next) }
            },
            TrainOpView::Linear(op) => {
                let f = op.fwd(c, xs);
                Fwd { ctx: f.ctx, nodes: f.nodes, outs: f.outs, next: TrainOpView::Linear(f.next) }
            },
            TrainOpView::RmsNorm(op) => {
                let f = op.fwd(c, xs);
                Fwd { ctx: f.ctx, nodes: f.nodes, outs: f.outs, next: TrainOpView::RmsNorm(f.next) }
            },
            TrainOpView::Silu(op) => {
                let f = op.fwd(c, xs);
                Fwd { ctx: f.ctx, nodes: f.nodes, outs: f.outs, next: TrainOpView::Silu(f.next) }
            },
            TrainOpView::Add(op) => {
                let f = op.fwd(c, xs);
                Fwd { ctx: f.ctx, nodes: f.nodes, outs: f.outs, next: TrainOpView::Add(f.next) }
            },
            TrainOpView::RopeQk(op) => {
                let f = op.fwd(c, xs);
                Fwd { ctx: f.ctx, nodes: f.nodes, outs: f.outs, next: TrainOpView::RopeQk(f.next) }
            },
            TrainOpView::QkvSplit(op) => {
                let f = op.fwd(c, xs);
                Fwd { ctx: f.ctx, nodes: f.nodes, outs: f.outs, next: TrainOpView::QkvSplit(f.next) }
            },
            TrainOpView::Attention(op) => {
                let f = op.fwd(c, xs);
                Fwd { ctx: f.ctx, nodes: f.nodes, outs: f.outs, next: TrainOpView::Attention(f.next) }
            },
            TrainOpView::Leaf(op) => Fwd {
                ctx: c,
                nodes: Seq::empty(),
                outs: seq![op.value],
                next: v,
            },
        }
    }

    fn forward(&mut self, ctx: &mut Context, gb: &mut GraphBuilder<Train>, xs: &Vec<Tensor>) -> Vec<
        Tensor,
    > {
        match self {
            TrainOp::Embedding(op) => op.forward(ctx, gb, xs),
            TrainOp::Linear(op) => op.forward(ctx, gb, xs),
            TrainOp::RmsNorm(op) => op.forward(ctx, gb, xs),
            TrainOp::Silu(op) => op.forward(ctx, gb, xs),
            TrainOp::Add(op) => op.forward(ctx, gb, xs),
            TrainOp::RopeQk(op) => op.forward(ctx, gb, xs),
            TrainOp::QkvSplit(op) => op.forward(ctx, gb, xs),
            TrainOp::Attention(op) => op.forward(ctx, gb, xs),
            TrainOp::Leaf(op) => leaf_outputs(op),
        }
    }
}

/// The output of a leaf is its value.
pub fn leaf_outputs(op: &Leaf) -> (r: Vec<Tensor>)
    ensures
        r@ == seq![op.value],
{
    let r = vec![op.value];
    assert(r@ =~= seq![op.value]);
    r
}

impl Backward for TrainOp {
    open spec fn bwd_ready(v: TrainOpView, n: nat) -> bool {
        match v {
            TrainOpView::Embedding(op) => op.fits() && n == 1,
            TrainOpView::Linear(op) => op.fits() && n == 1 && op.saved_input is Some,
            TrainOpView::RmsNorm(op) => op.fits() && n == 1 && op.saved_input is Some,
            TrainOpView::Silu(op) => op.fits() && n == 1 && op.saved_input is Some,
            TrainOpView::Add(op) => op.fits() && n == 1,
            TrainOpView::RopeQk(op) => op.fits() && n == 2,
            TrainOpView::QkvSplit(op) => op.fits() && n == 3,
            TrainOpView::Attention(op) => op.fits() && n == 1 && op.saved is Some && (op.saved->0).3.len()
                == op.batch_size,
            TrainOpView::Leaf(op) => true,
        }
    }

    open spec fn bwd(v: TrainOpView, c: Seq<Init>, gs: Seq<Tensor>) -> Bwd<TrainOpView> {
        match v {
            TrainOpView::Embedding(op) => {
                let b = op.bwd(c, gs);
                Bwd { ctx: b.ctx, nodes: b.nodes, grads: b.grads, next: TrainOpView::Embedding(b.next) }
            },
            TrainOpView::Linear(op) => {
                let b = op.bwd(c, gs);
                Bwd { ctx: b.ctx, nodes: b.nodes, grads: b.grads, next: TrainOpView::Linear(b.next) }
            },
            TrainOpView::RmsNorm(op) => {
                let b = op.bwd(c, gs);
                Bwd { ctx: b.ctx, nodes: b.nodes, grads: b.grads, next: TrainOpView::RmsNorm(b.next) }
            },
            TrainOpView::Silu(op) => {
                let b = op.bwd(c, gs);
                Bwd { ctx: b.ctx, nodes: b.nodes, grads: b.grads, next: TrainOpView::Silu(b.next) }
            },
            TrainOpView::Add(op) => {
                let b = op.bwd(c, gs);
                Bwd { ctx: b.ctx, nodes: b.nodes, grads: b.grads, next: TrainOpView::Add(b.next) }
            },
            TrainOpView::RopeQk(op) => {
                let b = op.bwd(c, gs);
                Bwd { ctx: b.ctx, nodes: b.nodes, grads: b.grads, next: TrainOpView::RopeQk(b.next) }
            },
            TrainOpView::QkvSplit(op) => {
                let b = op.bwd(c, gs);
                Bwd { ctx: b.ctx, nodes: b.nodes, grads: b.grads, next: TrainOpView::QkvSplit(b.next) }
            },
            TrainOpView::Attention(op) => {
                let b = op.bwd(c, gs);
                Bwd { ctx: b.ctx, nodes: b.nodes, grads: b.grads, next: TrainOpView::Attention(b.next) }
            },
            TrainOpView::Leaf(op) => Bwd {
                ctx: c,
                nodes: Seq::empty(),
                grads: Seq::empty(),
                next: v,
            },
        }
    }

    open spec fn n_grads(v: TrainOpView) -> nat {
        match v {
            TrainOpView::Embedding(op) => 0,
            TrainOpView::Linear(op) => 1,
            TrainOpView::RmsNorm(op) => 1,
            TrainOpView::Silu(op) => 1,
            TrainOpView::Add(op) => 2,
            TrainOpView::RopeQk(op) => 2,
            TrainOpView::QkvSplit(op) => 1,
            TrainOpView::Attention(op) => 3,
            TrainOpView::Leaf(op) => 0,
        }
    }

    proof fn bwd_gives_n_grads(v: TrainOpView, c: Seq<Init>, gs: Seq<Tensor>) {
    }

    proof fn bwd_keeps_param(v: TrainOpView, c: Seq<Init>, gs: Seq<Tensor>) {
    }

    /// Linear weights decay; norm gains and the embedding do not.
    open spec fn spec_param(v: TrainOpView) -> Option<(Tensor, Tensor, bool)> {
        match v {
            TrainOpView::Embedding(op) => Some((op.table, op.grad_table, false)),
            TrainOpView::Linear(op) => Some((op.weight, op.grad_weight, op.decay)),
            TrainOpView::RmsNorm(op) => Some((op.weight, op.grad_weight, false)),
            _ => None,
        }
    }

    fn backward(
        &mut self,
        ctx: &mut Context,
        gb: &mut GraphBuilder<Train>,
        grad_outputs: &Vec<Tensor>,
    ) -> Vec<Tensor> {
        match self {
            TrainOp::Embedding(op) => op.backward(ctx, gb, grad_outputs),
            TrainOp::Linear(op) => op.backward(ctx, gb, grad_outputs),
            TrainOp::RmsNorm(op) => op.backward(ctx, gb, grad_outputs),
            TrainOp::Silu(op) => op.backward(ctx, gb, grad_outputs),
            TrainOp::Add(op) => op.backward(ctx, gb, grad_outputs),
            TrainOp::RopeQk(op) => op.backward(ctx, gb, grad_outputs),
            TrainOp::QkvSplit(op) => op.backward(ctx, gb, grad_outputs),
            TrainOp::Attention(op) => op.backward(ctx, gb, grad_outputs),
            TrainOp::Leaf(op) => Vec::new(),
        }
    }

    fn param(&self) -> Option<(Tensor, Tensor, bool)> {
        match self {
            TrainOp::Embedding(op) => Some((op.table, op.grad_table, false)),
            TrainOp::Linear(op) => Some((op.weight, op.grad_weight, op.decay)),
            TrainOp::RmsNorm(op) => Some((op.weight, op.grad_weight, false)),
            _ => None,
        }
    }
}

/// An op that has run forward is ready for backward.
pub proof fn forward_makes_ready(v: TrainOpView, c: Seq<Init>, xs: Seq<Tensor>)
    requires
        tape::fwd_ok::<Train, TrainOp>(v, xs),
        tape::all_small(xs),
    ensures
        ({
            let f = <TrainOp as Forward<Train>>::fwd(v, c, xs);
            &&& <TrainOp as Backward>::bwd_ready(f.next, f.outs.len())
            &&& tape::all_small(f.outs)
        }),
{
}

} // verus!
