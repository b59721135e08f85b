//! Self-attention head by head: every head is gathered into buffers of its own,
//! and its activations are kept for the backward pass.
use super::kernels::emit;
use super::kernels::meta::{AttnScaleMeta, HeadMoveMeta, KernelMeta, MatMulMeta, ZeroMeta};
use super::kernels::{FullSeqPhase, GraphBuilder};
use super::layers::Layer;
use super::ops;
use crate::device;
use crate::device::{ComputeGraph, Context, Init, NodeView, Scalar, Tensor};
use vstd::prelude::*;

verus! {

pub struct SelfAttention {
    pub out_buffer: Tensor,
    pub forward_graph: ComputeGraph,
    pub backward_graph: ComputeGraph,
}

/// Sizes of an attention, for its specification.
pub struct Heads {
    pub seq_len: u32,
    pub dim: u32,
    pub num_heads: u32,
}

impl Heads {
    pub open spec fn head_dim(self) -> u32 {
        ops::spec_head_dim(self.dim, self.num_heads)
    }

    pub open spec fn slice(self, h: int) -> HeadMoveMeta {
        ops::head_slice(self.seq_len, self.dim, self.num_heads, h)
    }

    pub open spec fn scale(self) -> AttnScaleMeta {
        AttnScaleMeta { seq_len: self.seq_len, scale: Scalar::RecipSqrt(self.head_dim()) }
    }

    /// Scores of one head: `[seq_len, seq_len]`.
    pub open spec fn scores(self) -> MatMulMeta {
        MatMulMeta { m: self.seq_len, n: self.seq_len, k: self.head_dim() }
    }

    /// Values of one head: `[seq_len, head_dim]`.
    pub open spec fn values(self) -> MatMulMeta {
        MatMulMeta { m: self.seq_len, n: self.head_dim(), k: self.seq_len }
    }

    pub open spec fn head_size(self) -> int {
        self.seq_len * self.head_dim()
    }

    /// The context after one forward head that starts in `c`.
    pub open spec fn fwd_head_ctx(self, c: Seq<Init>, h: int) -> Seq<Init> {
        ops::head_buffers_ctx(
            device::push_meta(c, self.slice(h).spec_meta()),
            self.seq_len,
            self.head_dim(),
        ).push(Init::Meta(self.scores().spec_meta())).push(Init::Meta(self.values().spec_meta()))
    }

    /// The context after the first `n` forward heads.
    pub open spec fn fwd_ctx(self, c: Seq<Init>, n: nat) -> Seq<Init>
        decreases n,
    {
        if n == 0 {
            c
        } else {
            self.fwd_head_ctx(self.fwd_ctx(c, (n - 1) as nat), n - 1)
        }
    }

    /// Buffer `i` of head `h`: 0 for Q, 1 for K, 2 for V, 3 for the scores.
    pub open spec fn buf(self, c: Seq<Init>, h: int, i: int) -> Tensor {
        ops::head_buffer(
            device::push_meta(self.fwd_ctx(c, h as nat), self.slice(h).spec_meta()),
            self.seq_len,
            self.head_dim(),
            i,
        )
    }

    /// The seven dispatches of forward head `h`.
    pub open spec fn fwd_head_nodes(
        self,
        c: Seq<Init>,
        q_buf: Tensor,
        k_buf: Tensor,
        v_buf: Tensor,
        out_head: Tensor,
        out_buffer: Tensor,
        meta_seq: Tensor,
        h: int,
    ) -> Seq<NodeView> {
        let ch = self.fwd_ctx(c, h as nat);
        let m = self.slice(h);
        let meta_head = device::next_meta(ch, m.spec_meta());
        let (q, k, v, s) = (
            self.buf(c, h, 0),
            self.buf(c, h, 1),
            self.buf(c, h, 2),
            self.buf(c, h, 3),
        );
        let c1 = ops::head_buffers_ctx(
            device::push_meta(ch, m.spec_meta()),
            self.seq_len,
            self.head_dim(),
        );
        let c2 = device::push_meta(c1, self.scores().spec_meta());
        seq![
            emit::head_gather_node(q_buf, q, m, meta_head),
            emit::head_gather_node(k_buf, k, m, meta_head),
            emit::head_gather_node(v_buf, v, m, meta_head),
            emit::matmul_trp_node(
                q,
                k,
                s,
                self.scores(),
                device::next_meta(c1, self.scores().spec_meta()),
            ),
            ops::causal_softmax_node(s, self.scale(), meta_seq),
            ops::matmul_node(
                s,
                v,
                out_head,
                self.values(),
                device::next_meta(c2, self.values().spec_meta()),
            ),
            emit::head_scatter_node(out_head, out_buffer, m, meta_head),
        ]
    }

    /// The dispatches of the first `n` forward heads.
    pub open spec fn fwd_nodes(
        self,
        c: Seq<Init>,
        q_buf: Tensor,
        k_buf: Tensor,
        v_buf: Tensor,
        out_head: Tensor,
        out_buffer: Tensor,
        meta_seq: Tensor,
        n: nat,
    ) -> Seq<NodeView>
        decreases n,
    {
        if n == 0 {
            Seq::empty()
        } else {
            self.fwd_nodes(
                c,
                q_buf,
                k_buf,
                v_buf,
                out_head,
                out_buffer,
                meta_seq,
                (n - 1) as nat,
            ) + self.fwd_head_nodes(c, q_buf, k_buf, v_buf, out_head, out_buffer, meta_seq, n - 1)
        }
    }

    /// The context in which the heads of `forward_nodes` start, when it is
    /// called in `c`: softmax meta, then one scratch head.
    pub open spec fn fwd_start(self, c: Seq<Init>) -> Seq<Init> {
        device::push_zeros(device::push_meta(c, self.scale().spec_meta()), self.head_size())
    }

    /// The dispatches of `forward_nodes`, called in `c`.
    pub open spec fn forward(
        self,
        c: Seq<Init>,
        q_buf: Tensor,
        k_buf: Tensor,
        v_buf: Tensor,
        out_buffer: Tensor,
    ) -> Seq<NodeView> {
        self.fwd_nodes(
            self.fwd_start(c),
            q_buf,
            k_buf,
            v_buf,
            device::next_zeros(device::push_meta(c, self.scale().spec_meta()), self.head_size()),
            out_buffer,
            device::next_meta(c, self.scale().spec_meta()),
            self.num_heads as nat,
        )
    }

    /// Buffer `i` of every head of `forward_nodes`, called in `c`.
    pub open spec fn saved(self, c: Seq<Init>, n: nat, i: int) -> Seq<Tensor> {
        Seq::new(n, |h: int| self.buf(self.fwd_start(c), h, i))
    }

    /// The context after one backward head.
    pub open spec fn bwd_head_ctx(self, c: Seq<Init>, h: int) -> Seq<Init> {
        c.push(Init::Meta(self.slice(h).spec_meta())).push(
            Init::Meta(self.values().spec_meta()),
        ).push(Init::Meta(self.scores().spec_meta())).push(
            Init::Meta(self.values().spec_meta()),
        ).push(Init::Meta(self.values().spec_meta()))
    }

    /// The context after the first `n` backward heads.
    pub open spec fn bwd_ctx(self, c: Seq<Init>, n: nat) -> Seq<Init>
        decreases n,
    {
        if n == 0 {
            c
        } else {
            self.bwd_head_ctx(self.bwd_ctx(c, (n - 1) as nat), n - 1)
        }
    }
}

/// The buffers that the backward heads share.
#[derive(Clone, Copy)]
pub struct Scratch {
    pub grad_out_head: Tensor,
    pub grad_q_head: Tensor,
    pub grad_k_head: Tensor,
    pub grad_v_head: Tensor,
    pub grad_y: Tensor,
    pub grad_raw: Tensor,
    pub zero_meta: Tensor,
    pub meta_seq: Tensor,
}

impl Heads {
    /// The scratch buffers that `new` creates in `c`, after the softmax meta.
    pub open spec fn scratch(self, c: Seq<Init>, meta_seq: Tensor) -> Scratch {
        let n = self.head_size();
        let s = self.seq_len * self.seq_len;
        let at = |i: int, elems: int| Tensor { id: (c.len() + i) as usize, size: (4 * elems) as u64 };
        Scratch {
            grad_out_head: at(0, n),
            grad_q_head: at(1, n),
            grad_k_head: at(2, n),
            grad_v_head: at(3, n),
            grad_y: at(4, s),
            grad_raw: at(5, s),
            zero_meta: at(6, 1),
            meta_seq,
        }
    }

    /// The context with those buffers.
    pub open spec fn scratch_ctx(self, c: Seq<Init>) -> Seq<Init> {
        let n = self.head_size() as u32;
        let s = (self.seq_len * self.seq_len) as u32;
        c.push(Init::Zeros(n)).push(Init::Zeros(n)).push(Init::Zeros(n)).push(Init::Zeros(n)).push(
            Init::Zeros(s),
        ).push(Init::Zeros(s)).push(Init::Meta((ZeroMeta { len: n }).spec_meta()))
    }

    /// The eleven dispatches of backward head `h`, started in `c`. The weight
    /// kernel accumulates, so each of its targets is zeroed first.
    pub open spec fn bwd_head_nodes(
        self,
        c: Seq<Init>,
        s: Scratch,
        q: Tensor,
        k: Tensor,
        v: Tensor,
        scores: Tensor,
        grad_output: Tensor,
        grad_q: Tensor,
        grad_k: Tensor,
        grad_v: Tensor,
        h: int,
    ) -> Seq<NodeView> {
        let m = self.slice(h);
        let len = self.head_size() as u32;
        let meta_head = device::next_meta(c, m.spec_meta());
        let c1 = device::push_meta(c, m.spec_meta());
        let c2 = device::push_meta(c1, self.values().spec_meta());
        let c3 = device::push_meta(c2, self.scores().spec_meta());
        let c4 = device::push_meta(c3, self.values().spec_meta());
        seq![
            emit::head_gather_node(grad_output, s.grad_out_head, m, meta_head),
            ops::zero_node(s.grad_v_head, len, s.zero_meta),
            emit::matmul_weight_bwd_node(
                scores,
                s.grad_out_head,
                s.grad_v_head,
                self.values(),
                device::next_meta(c1, self.values().spec_meta()),
            ),
            emit::matmul_trp_node(
                s.grad_out_head,
                v,
                s.grad_y,
                self.scores(),
                device::next_meta(c2, self.scores().spec_meta()),
            ),
            ops::softmax_bwd_node(scores, s.grad_y, s.grad_raw, self.scale(), s.meta_seq),
            ops::matmul_node(
                s.grad_raw,
                k,
                s.grad_q_head,
                self.values(),
                device::next_meta(c3, self.values().spec_meta()),
            ),
            ops::zero_node(s.grad_k_head, len, s.zero_meta),
            emit::matmul_weight_bwd_node(
                s.grad_raw,
                q,
                s.grad_k_head,
                self.values(),
                device::next_meta(c4, self.values().spec_meta()),
            ),
            emit::head_scatter_node(s.grad_q_head, grad_q, m, meta_head),
            emit::head_scatter_node(s.grad_k_head, grad_k, m, meta_head),
            emit::head_scatter_node(s.grad_v_head, grad_v, m, meta_head),
        ]
    }

    /// The dispatches of the first `n` backward heads. `f` is the context in
    /// which the forward heads started, `c` the one in which these start.
    pub open spec fn bwd_nodes(
        self,
        f: Seq<Init>,
        c: Seq<Init>,
        s: Scratch,
        grad_output: Tensor,
        grad_q: Tensor,
        grad_k: Tensor,
        grad_v: Tensor,
        n: nat,
    ) -> Seq<NodeView>
        decreases n,
    {
        if n == 0 {
            Seq::empty()
        } else {
            let h = n - 1;
            self.bwd_nodes(f, c, s, grad_output, grad_q, grad_k, grad_v, (n - 1) as nat)
                + self.bwd_head_nodes(
                self.bwd_ctx(c, (n - 1) as nat),
                s,
                self.buf(f, h, 0),
                self.buf(f, h, 1),
                self.buf(f, h, 2),
                self.buf(f, h, 3),
                grad_output,
                grad_q,
                grad_k,
                grad_v,
                h,
            )
        }
    }

    /// The context after `forward_nodes`, called in `c`.
    pub open spec fn forward_ctx(self, c: Seq<Init>) -> Seq<Init> {
        self.fwd_ctx(self.fwd_start(c), self.num_heads as nat)
    }

    /// The context in which `new`, called in `c`, calls `forward_nodes`: the
    /// output, then the softmax meta of the backward pass.
    pub open spec fn new_start(self, c: Seq<Init>) -> Seq<Init> {
        device::push_meta(device::push_zeros(c, self.seq_len * self.dim), self.scale().spec_meta())
    }

    /// The context after `new`, called in `c`.
    pub open spec fn new_ctx(self, c: Seq<Init>) -> Seq<Init> {
        self.bwd_ctx(
            self.scratch_ctx(self.forward_ctx(self.new_start(c))),
            self.num_heads as nat,
        )
    }

    /// The output of `new`, called in `c`.
    pub open spec fn out(self, c: Seq<Init>) -> Tensor {
        device::next_zeros(c, self.seq_len * self.dim)
    }

    /// The backward dispatches of `new`, called in `c`.
    pub open spec fn backward(
        self,
        c: Seq<Init>,
        grad_output: Tensor,
        grad_q: Tensor,
        grad_k: Tensor,
        grad_v: Tensor,
    ) -> Seq<NodeView> {
        let cs = self.new_start(c);
        let cf = self.forward_ctx(cs);
        let meta_seq = device::next_meta(
            device::push_zeros(c, self.seq_len * self.dim),
            self.scale().spec_meta(),
        );
        self.bwd_nodes(
            self.fwd_start(cs),
            self.scratch_ctx(cf),
            self.scratch(cf, meta_seq),
            grad_output,
            grad_q,
            grad_k,
            grad_v,
            self.num_heads as nat,
        )
    }
}

impl SelfAttention {
    /// The forward pass of every head; the per-head buffers are appended to the
    /// four lists.
    pub fn forward_nodes<P: FullSeqPhase>(
        ctx: &mut Context,
        gb: &mut GraphBuilder<P>,
        seq_len: u32,
        dim: u32,
        num_heads: u32,
        q_buf: Tensor,
        k_buf: Tensor,
        v_buf: Tensor,
        out_buffer: Tensor,
        q_heads: &mut Vec<Tensor>,
        k_heads: &mut Vec<Tensor>,
        v_heads: &mut Vec<Tensor>,
        t_scores_heads: &mut Vec<Tensor>,
    )
        requires
            ops::causal_fits(seq_len, dim, num_heads),
        ensures
            ({
                let s = Heads { seq_len, dim, num_heads };
                let n = num_heads as nat;
                &&& final(ctx)@ == s.forward_ctx(old(ctx)@)
                &&& final(gb).graph@ == old(gb).graph@ + s.forward(
                    old(ctx)@,
                    q_buf,
                    k_buf,
                    v_buf,
                    out_buffer,
                )
                &&& final(q_heads)@ == old(q_heads)@ + s.saved(old(ctx)@, n, 0)
                &&& final(k_heads)@ == old(k_heads)@ + s.saved(old(ctx)@, n, 1)
                &&& final(v_heads)@ == old(v_heads)@ + s.saved(old(ctx)@, n, 2)
                &&& final(t_scores_heads)@ == old(t_scores_heads)@ + s.saved(old(ctx)@, n, 3)
            }),
    {
        let ghost s = Heads { seq_len, dim, num_heads };
        let ghost c_in = ctx@;
        let ghost (g_in, q_in, k_in, v_in, t_in) = (
            gb.graph@,
            q_heads@,
            k_heads@,
            v_heads@,
            t_scores_heads@,
        );
        let head_dim: u32 = dim / num_heads;
        proof {
            ops::lemma_head_sizes(seq_len, dim, num_heads, 0);
        }
        let scale = Scalar::RecipSqrt(head_dim);
        let head_size: u32 = seq_len * head_dim;
        let scores_size: u32 = seq_len * seq_len;
        let scale_shape = AttnScaleMeta { seq_len, scale };
        let t_meta_seq = scale_shape.upload(ctx);
        // Shared scratch: reused/overwritten sequentially per head
        let out_head = ctx.zeros(head_size);
        let ghost f = ctx@;
        assert(f == s.fwd_start(c_in));
        let mut h: u32 = 0;
        while h < num_heads
            invariant
                h <= num_heads,
                ops::causal_fits(seq_len, dim, num_heads),
                s == (Heads { seq_len, dim, num_heads }),
                head_dim == s.head_dim(),
                head_size == s.head_size(),
                scores_size == seq_len * seq_len,
                scale_shape == s.scale(),
                f == s.fwd_start(c_in),
                ctx@ == s.fwd_ctx(f, h as nat),
                gb.graph@ == g_in + s.fwd_nodes(
                    f,
                    q_buf,
                    k_buf,
                    v_buf,
                    out_head,
                    out_buffer,
                    t_meta_seq,
                    h as nat,
                ),
                q_heads@ == q_in + s.saved(c_in, h as nat, 0),
                k_heads@ == k_in + s.saved(c_in, h as nat, 1),
                v_heads@ == v_in + s.saved(c_in, h as nat, 2),
                t_scores_heads@ == t_in + s.saved(c_in, h as nat, 3),
            decreases num_heads - h,
        {
            proof {
                ops::lemma_head_sizes(seq_len, dim, num_heads, h as int);
            }
            let head_move = HeadMoveMeta {
                seq_len,
                full_dim: dim,
                head_dim,
                head_offset: h * head_dim,
            };
            assert(head_move == s.slice(h as int));
            let t_meta_head = head_move.upload(ctx);
            let q_head = ctx.zeros(head_size);
            let k_head = ctx.zeros(head_size);
            let v_head = ctx.zeros(head_size);
            let t_scores = ctx.zeros(scores_size);
            emit::head_gather_with(gb, q_buf, q_head, head_move, t_meta_head);
            emit::head_gather_with(gb, k_buf, k_head, head_move, t_meta_head);
            emit::head_gather_with(gb, v_buf, v_head, head_move, t_meta_head);
            emit::matmul_trp(
                ctx,
                gb,
                q_head,
                k_head,
                t_scores,
                MatMulMeta { m: seq_len, n: seq_len, k: head_dim },
            );
            ops::causal_softmax_with(gb, t_scores, scale_shape, t_meta_seq);
            ops::matmul(
                ctx,
                gb,
                t_scores,
                v_head,
                out_head,
                MatMulMeta { m: seq_len, n: head_dim, k: seq_len },
            );
            emit::head_scatter_with(gb, out_head, out_buffer, head_move, t_meta_head);
            t_scores_heads.push(t_scores);
            q_heads.push(q_head);
            k_heads.push(k_head);
            v_heads.push(v_head);
            h = h + 1;
        }
    }

    pub fn new(
        ctx: &mut Context,
        seq_len: u32,
        dim: u32,
        num_heads: u32,
        q_buf: Tensor,
        k_buf: Tensor,
        v_buf: Tensor,
        grad_output: Tensor,
        grad_q: Tensor,
        grad_k: Tensor,
        grad_v: Tensor,
    ) -> (r: Self)
        requires
            ops::causal_fits(seq_len, dim, num_heads),
        ensures
            ({
                let s = Heads { seq_len, dim, num_heads };
                &&& final(ctx)@ == s.new_ctx(old(ctx)@)
                &&& r.out_buffer == s.out(old(ctx)@)
                &&& r.forward_graph@ == s.forward(
                    s.new_start(old(ctx)@),
                    q_buf,
                    k_buf,
                    v_buf,
                    s.out(old(ctx)@),
                )
                &&& r.backward_graph@ == s.backward(
                    old(ctx)@,
                    grad_output,
                    grad_q,
                    grad_k,
                    grad_v,
                )
            }),
    {
        let ghost s = Heads { seq_len, dim, num_heads };
        let ghost c = ctx@;
        let head_dim: u32 = dim / num_heads;
        proof {
            ops::lemma_head_sizes(seq_len, dim, num_heads, 0);
        }
        let scale = Scalar::RecipSqrt(head_dim);
        let out_buffer = ctx.zeros(seq_len * dim);
        let head_size: u32 = seq_len * head_dim;
        let scores_size: u32 = seq_len * seq_len;
        let scale_shape = AttnScaleMeta { seq_len, scale };
        let t_meta_seq = scale_shape.upload(ctx);
        let ghost cs = ctx@;
        assert(cs == s.new_start(c));
        let mut t_scores_heads: Vec<Tensor> = Vec::new();
        let mut q_heads: Vec<Tensor> = Vec::new();
        let mut k_heads: Vec<Tensor> = Vec::new();
        let mut v_heads: Vec<Tensor> = Vec::new();
        let mut gb = GraphBuilder::train(ComputeGraph::new());
        Self::forward_nodes(
            ctx,
            &mut gb,
            seq_len,
            dim,
            num_heads,
            q_buf,
            k_buf,
            v_buf,
            out_buffer,
            &mut q_heads,
            &mut k_heads,
            &mut v_heads,
            &mut t_scores_heads,
        );
        let forward_graph = gb.graph;
        let ghost cf = ctx@;
        assert(forward_graph@ =~= s.forward(cs, q_buf, k_buf, v_buf, out_buffer));
        let ghost n = num_heads as nat;
        assert(q_heads@ =~= s.saved(cs, n, 0));
        assert(k_heads@ =~= s.saved(cs, n, 1));
        assert(v_heads@ =~= s.saved(cs, n, 2));
        assert(t_scores_heads@ =~= s.saved(cs, n, 3));
        let grad_out_head = ctx.zeros(head_size);
        let grad_q_head = ctx.zeros(head_size);
        let grad_k_head = ctx.zeros(head_size);
        let grad_v_head = ctx.zeros(head_size);
        let grad_y = ctx.zeros(scores_size);
        let grad_raw = ctx.zeros(scores_size);
        let zero_meta = (ZeroMeta { len: head_size }).upload(ctx);
        let ghost cb = ctx@;
        let ghost scr = s.scratch(cf, t_meta_seq);
        let ghost f = s.fwd_start(cs);
        assert(cb == s.scratch_ctx(cf));
        let mut gb = GraphBuilder::train(ComputeGraph::new());
        let mut h: u32 = 0;
        while h < num_heads
            invariant
                h <= num_heads,
                n == num_heads,
                ops::causal_fits(seq_len, dim, num_heads),
                s == (Heads { seq_len, dim, num_heads }),
                head_dim == s.head_dim(),
                head_size == s.head_size(),
                scale_shape == s.scale(),
                f == s.fwd_start(cs),
                q_heads@ == s.saved(cs, n, 0),
                k_heads@ == s.saved(cs, n, 1),
                v_heads@ == s.saved(cs, n, 2),
                t_scores_heads@ == s.saved(cs, n, 3),
                scr.grad_out_head == grad_out_head,
                scr.grad_q_head == grad_q_head,
                scr.grad_k_head == grad_k_head,
                scr.grad_v_head == grad_v_head,
                scr.grad_y == grad_y,
                scr.grad_raw == grad_raw,
                scr.zero_meta == zero_meta,
                scr.meta_seq == t_meta_seq,
                ctx@ == s.bwd_ctx(cb, h as nat),
                gb.graph@ == s.bwd_nodes(
                    f,
                    cb,
                    scr,
                    grad_output,
                    grad_q,
                    grad_k,
                    grad_v,
                    h as nat,
                ),
            decreases num_heads - h,
        {
            proof {
                ops::lemma_head_sizes(seq_len, dim, num_heads, h as int);
            }
            let head_move = HeadMoveMeta {
                seq_len,
                full_dim: dim,
                head_dim,
                head_offset: h * head_dim,
            };
            assert(head_move == s.slice(h as int));
            let i: usize = h as usize;
            let values = MatMulMeta { m: seq_len, n: head_dim, k: seq_len };
            let t_meta_head = head_move.upload(ctx);
            emit::head_gather_with(&mut gb, grad_output, grad_out_head, head_move, t_meta_head);
            // dV_h = Y^T @ dOut_h  (accumulating MatMulWeightBwd -- zero first)
            ops::zero_with(&mut gb, grad_v_head, head_size, zero_meta);
            emit::matmul_weight_bwd(
                ctx,
                &mut gb,
                t_scores_heads[i],
                grad_out_head,
                grad_v_head,
                values,
            );
            // dY_h = dOut_h @ V_h^T
            emit::matmul_trp(
                ctx,
                &mut gb,
                grad_out_head,
                v_heads[i],
                grad_y,
                MatMulMeta { m: seq_len, n: seq_len, k: head_dim },
            );
            ops::softmax_bwd_with(
                &mut gb,
                t_scores_heads[i],
                grad_y,
                grad_raw,
                scale_shape,
                t_meta_seq,
            );
            ops::matmul(ctx, &mut gb, grad_raw, k_heads[i], grad_q_head, values);
            ops::zero_with(&mut gb, grad_k_head, head_size, zero_meta);
            emit::matmul_weight_bwd(ctx, &mut gb, grad_raw, q_heads[i], grad_k_head, values);
            emit::head_scatter_with(&mut gb, grad_q_head, grad_q, head_move, t_meta_head);
            emit::head_scatter_with(&mut gb, grad_k_head, grad_k, head_move, t_meta_head);
            emit::head_scatter_with(&mut gb, grad_v_head, grad_v, head_move, t_meta_head);
            h = h + 1;
        }
        Self { out_buffer, forward_graph, backward_graph: gb.graph }
    }
}

impl Layer for SelfAttention {
    open spec fn forward_nodes(&self) -> Seq<NodeView> {
        self.forward_graph@
    }

    open spec fn backward_nodes(&self) -> Seq<NodeView> {
        self.backward_graph@
    }

    fn forward(&self) -> ComputeGraph {
        let mut g = ComputeGraph::new();
        g.append(&self.forward_graph);
        assert(g@ =~= self.forward_graph@);
        g
    }

    fn backward(&self) -> ComputeGraph {
        let mut g = ComputeGraph::new();
        g.append(&self.backward_graph);
        assert(g@ =~= self.backward_graph@);
        g
    }
}

} // verus!
