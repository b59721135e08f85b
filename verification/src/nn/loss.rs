//! The training loss. It stays outside the tape on purpose: logits,
//! probabilities and logit gradients share one buffer, which is no plain
//! N-in/M-out op.
use super::kernels::emit;
use super::kernels::meta::{CrossEntropyMeta, KernelMeta};
use super::kernels::{GraphBuilder, Train};
use crate::device;
use crate::device::{Context, Init, NodeView, Scalar, Tensor};
use vstd::prelude::*;

verus! {

#[derive(Clone, Copy, Debug, PartialEq, Eq, Structural)]
pub struct CrossEntropyOp {
    pub target_tokens: Tensor,
    pub losses: Tensor,
    pub d_losses: Tensor,
    pub shape: CrossEntropyMeta,
}

impl CrossEntropyOp {
    /// The context and the op that `new` leaves when it starts in `c`.
    pub open spec fn build(c: Seq<Init>, vocab_size: u32, rows: u32) -> (Seq<Init>, Self) {
        let c1 = device::push_zeros(c, rows as int);
        let c2 = device::push_zeros(c1, rows as int);
        let scale = Init::Fill(rows, Scalar::Recip(rows as u64));
        (
            c2.push(scale),
            CrossEntropyOp {
                target_tokens: device::next_zeros(c, rows as int),
                losses: device::next_zeros(c1, rows as int),
                d_losses: device::next_tensor(c2, scale),
                shape: CrossEntropyMeta { vocab_size, num_rows: rows },
            },
        )
    }

    pub fn new(ctx: &mut Context, vocab_size: u32, seq_len: u32) -> (r: Self)
        ensures
            (final(ctx)@, r) == Self::build(old(ctx)@, vocab_size, seq_len),
    {
        let target_tokens = ctx.zeros(seq_len);
        let losses = ctx.zeros(seq_len);
        let d_losses = ctx.fill(seq_len, Scalar::Recip(seq_len as u64));
        Self {
            target_tokens,
            losses,
            d_losses,
            shape: CrossEntropyMeta { vocab_size, num_rows: seq_len },
        }
    }

    /// What `d_losses` is overwritten with so that every row's gradient is
    /// scaled by `scale`.
    pub fn set_grad_scale(&self, scale: Scalar) -> (r: (Tensor, Init))
        ensures
            r == (self.d_losses, Init::Fill(self.shape.num_rows, scale)),
    {
        (self.d_losses, Init::Fill(self.shape.num_rows, scale))
    }

    /// The buffer that the targets of a step are written to.
    pub fn set_targets(&self) -> (r: Tensor)
        ensures
            r == self.target_tokens,
    {
        self.target_tokens
    }

    pub open spec fn fwd_node(self, c: Seq<Init>, logits: Tensor) -> NodeView {
        emit::cross_entropy_node(
            logits,
            self.target_tokens,
            self.losses,
            self.shape,
            device::next_meta(c, self.shape.spec_meta()),
        )
    }

    /// `logits` becomes probs in place.
    pub fn forward(&self, ctx: &mut Context, gb: &mut GraphBuilder<Train>, logits: Tensor)
        ensures
            final(ctx)@ == device::push_meta(old(ctx)@, self.shape.spec_meta()),
            final(gb).graph@ == old(gb).graph@.push(self.fwd_node(old(ctx)@, logits)),
    {
        emit::cross_entropy(ctx, gb, logits, self.target_tokens, self.losses, self.shape);
    }

    pub open spec fn bwd_node(self, c: Seq<Init>, logits: Tensor) -> NodeView {
        emit::cross_entropy_bwd_node(
            logits,
            self.target_tokens,
            self.d_losses,
            self.shape,
            device::next_meta(c, self.shape.spec_meta()),
        )
    }

    /// `logits` (currently holding probs) becomes grad_logits in place.
    pub fn backward(&self, ctx: &mut Context, gb: &mut GraphBuilder<Train>, logits: Tensor)
        requires
            self.shape.vocab_size + 255 <= u32::MAX,
        ensures
            final(ctx)@ == device::push_meta(old(ctx)@, self.shape.spec_meta()),
            final(gb).graph@ == old(gb).graph@.push(self.bwd_node(old(ctx)@, logits)),
    {
        emit::cross_entropy_bwd(ctx, gb, logits, self.target_tokens, self.d_losses, self.shape);
    }
}

/// The losses a model can be trained with.
#[derive(Clone, Copy, Debug, PartialEq, Eq, Structural)]
pub enum AnyLoss {
    CrossEntropy(CrossEntropyOp),
}

impl AnyLoss {
    pub open spec fn op(self) -> CrossEntropyOp {
        match self {
            AnyLoss::CrossEntropy(op) => op,
        }
    }

    pub fn set_targets(&self) -> (r: Tensor)
        ensures
            r == self.op().target_tokens,
    {
        match self {
            AnyLoss::CrossEntropy(op) => op.set_targets(),
        }
    }

    pub fn forward(&self, ctx: &mut Context, gb: &mut GraphBuilder<Train>, logits: Tensor)
        ensures
            final(ctx)@ == device::push_meta(old(ctx)@, self.op().shape.spec_meta()),
            final(gb).graph@ == old(gb).graph@.push(self.op().fwd_node(old(ctx)@, logits)),
    {
        match self {
            AnyLoss::CrossEntropy(op) => op.forward(ctx, gb, logits),
        }
    }

    pub fn backward(&self, ctx: &mut Context, gb: &mut GraphBuilder<Train>, logits: Tensor)
        requires
            self.op().shape.vocab_size + 255 <= u32::MAX,
        ensures
            final(ctx)@ == device::push_meta(old(ctx)@, self.op().shape.spec_meta()),
            final(gb).graph@ == old(gb).graph@.push(self.op().bwd_node(old(ctx)@, logits)),
    {
        match self {
            AnyLoss::CrossEntropy(op) => op.backward(ctx, gb, logits),
        }
    }

    pub fn set_grad_scale(&self, scale: Scalar) -> (r: (Tensor, Init))
        ensures
            r == (self.op().d_losses, Init::Fill(self.op().shape.num_rows, scale)),
    {
        match self {
            AnyLoss::CrossEntropy(op) => op.set_grad_scale(scale),
        }
    }
}

} // verus!
