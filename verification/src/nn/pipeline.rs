//! A transformer block for single sequences whose attention runs head by head:
//! Q, K and V are moved and rotated one by one.
use super::kernels::emit;
use super::kernels::meta::{HeadMoveMeta, KernelMeta, RopeMeta};
use super::kernels::GraphBuilder;
use super::layers;
use super::attention::{Heads, SelfAttention};
use super::layers::{Add, Layer, Linear, RMSNorm, SelfAttentionView, SiLU};
use super::transformer;
use super::transformer::TransformerBlockView;
use super::ops;
use super::weights::BlockWeights;
use crate::config::ModelConfig;
use crate::device;
use crate::device::{ComputeGraph, Context, Init, NodeView, Tensor};
use vstd::prelude::*;

verus! {

pub struct TransformerBlock {
    pub norm_1: RMSNorm,
    pub qkv_proj: Linear,
    pub q_buf: Tensor,
    pub k_buf: Tensor,
    pub v_buf: Tensor,
    pub qkv_split_forward: ComputeGraph,
    pub out_proj: Linear,
    pub attention: SelfAttention,
    pub add_1: Add,
    pub norm_2: RMSNorm,
    pub ffn_up: Linear,
    pub silu: SiLU,
    pub ffn_down: Linear,
    pub add_2: Add,
    pub grad_input: Tensor,
    pub rope_forward: ComputeGraph,
    pub backward_graph: ComputeGraph,
}

impl View for TransformerBlock {
    type V = TransformerBlockView;

    open spec fn view(&self) -> TransformerBlockView {
        TransformerBlockView {
            norm_1: self.norm_1@,
            qkv_proj: self.qkv_proj@,
            q_buf: self.q_buf,
            k_buf: self.k_buf,
            v_buf: self.v_buf,
            qkv_split_forward: self.qkv_split_forward@,
            out_proj: self.out_proj@,
            attention: SelfAttentionView {
                out_buffer: self.attention.out_buffer,
                forward_graph: self.attention.forward_graph@,
                backward_graph: self.attention.backward_graph@,
            },
            add_1: self.add_1@,
            norm_2: self.norm_2@,
            ffn_up: self.ffn_up@,
            silu: self.silu@,
            ffn_down: self.ffn_down@,
            add_2: self.add_2@,
            grad_input: self.grad_input,
            rope_forward: self.rope_forward@,
            backward_graph: self.backward_graph@,
        }
    }
}

/// One dim-wide Q/K/V role slice of a fused `[seq_len, 3*dim]` QKV buffer.
pub fn qkv_slice(seq_len: u32, dim: u32, role_offset: u32) -> (r: HeadMoveMeta)
    requires
        3 * dim <= u32::MAX,
    ensures
        r == HeadMoveMeta::spec_qkv_slice(seq_len, dim, role_offset),
{
    HeadMoveMeta { seq_len, full_dim: 3 * dim, head_dim: dim, head_offset: role_offset }
}

/// The configurations whose buffers can be counted in 32 bits.
pub open spec fn block_fits(cfg: ModelConfig) -> bool {
    let rows = cfg.seq_len;
    &&& ops::causal_fits(cfg.seq_len, cfg.dim, cfg.num_heads)
    &&& cfg.dim > 0
    &&& cfg.dim + 255 <= u32::MAX
    &&& 3 * cfg.dim + 15 <= u32::MAX
    &&& cfg.ffn_hidden + 15 <= u32::MAX
    &&& rows * cfg.dim + 255 <= u32::MAX
    &&& rows * (3 * cfg.dim) <= u32::MAX
    &&& rows * cfg.ffn_hidden + 255 <= u32::MAX
    &&& cfg.dim * cfg.dim <= u32::MAX
    &&& cfg.dim * (3 * cfg.dim) <= u32::MAX
    &&& cfg.dim * cfg.ffn_hidden <= u32::MAX
}

/// Positional rotation of the sequence.
pub open spec fn rope_shape(cfg: ModelConfig) -> RopeMeta {
    RopeMeta { seq_len: cfg.seq_len, dim: cfg.dim, head_dim: cfg.spec_head_dim(), row_offset: 0 }
}

/// The slices of Q, K and V in a fused row.
pub open spec fn role(cfg: ModelConfig, i: int) -> HeadMoveMeta {
    HeadMoveMeta::spec_qkv_slice(cfg.seq_len, cfg.dim, (i * cfg.dim) as u32)
}

/// One meta for each of the three slices.
pub open spec fn roles_ctx(c: Seq<Init>, cfg: ModelConfig) -> Seq<Init> {
    c.push(Init::Meta(role(cfg, 0).spec_meta())).push(Init::Meta(role(cfg, 1).spec_meta())).push(
        Init::Meta(role(cfg, 2).spec_meta()),
    )
}

/// The meta of slice `i`, started in `c`.
pub open spec fn role_meta(c: Seq<Init>, i: int) -> Tensor {
    Tensor { id: (c.len() + i) as usize, size: 16 }
}

/// The context and the block that `TransformerBlock::new` leaves when it starts
/// in a context holding `c`.
#[verifier::opaque]
pub open spec fn block_build(
    c: Seq<Init>,
    cfg: ModelConfig,
    bw: BlockWeights,
    input: Tensor,
    grad_output: Tensor,
    grad_input: Tensor,
) -> (Seq<Init>, TransformerBlockView) {
    let rows = cfg.seq_len;
    let (dim, hidden) = (cfg.dim, cfg.ffn_hidden);
    let d = rows * dim;
    let h = rows * hidden;
    let g_add2_a = transformer::grad_buf(c, 0, d);
    let g_add2_b = transformer::grad_buf(c, 1, d);
    let g_ffndown_in = transformer::grad_buf(c, 2, h);
    let g_silu_in = transformer::grad_buf(c, 3, h);
    let g_ffnup_in = transformer::grad_buf(c, 4, d);
    let g_norm2_in = transformer::grad_buf(c, 5, d);
    let g_add1_b = transformer::grad_buf(c, 6, d);
    let g_outproj_in = transformer::grad_buf(c, 7, d);
    let g_attn_q = transformer::grad_buf(c, 8, d);
    let g_attn_k = transformer::grad_buf(c, 9, d);
    let g_attn_v = transformer::grad_buf(c, 10, d);
    let g_attn_qkv = transformer::grad_buf(c, 11, 3 * d);
    let g_qkvproj_in = transformer::grad_buf(c, 12, d);
    let g_norm1_in = transformer::grad_buf(c, 13, d);
    let c1 = transformer::grads_ctx(c, d, h);
    let norm_1 = layers::rmsnorm_view(c1, dim, rows, bw.norm_1, input, g_qkvproj_in, g_norm1_in);
    let c2 = layers::rmsnorm_ctx(c1, dim, rows);
    let qkv_proj = layers::linear_view(
        c2,
        dim,
        (dim * 3) as u32,
        rows,
        bw.qkv_proj,
        norm_1.out_buffer,
        g_attn_qkv,
        g_qkvproj_in,
    );
    let c3 = layers::linear_ctx(c2, dim, (dim * 3) as u32, rows);
    let q_buf = transformer::grad_buf(c3, 0, d);
    let k_buf = transformer::grad_buf(c3, 1, d);
    let v_buf = transformer::grad_buf(c3, 2, d);
    let c4 = c3.push(Init::Zeros(d as u32)).push(Init::Zeros(d as u32)).push(Init::Zeros(d as u32));
    let qkv_split_forward = seq![
        emit::head_gather_node(qkv_proj.out_buffer, q_buf, role(cfg, 0), role_meta(c4, 0)),
        emit::head_gather_node(qkv_proj.out_buffer, k_buf, role(cfg, 1), role_meta(c4, 1)),
        emit::head_gather_node(qkv_proj.out_buffer, v_buf, role(cfg, 2), role_meta(c4, 2)),
    ];
    let c5 = roles_ctx(c4, cfg);
    let rope = rope_shape(cfg);
    let c5k = device::push_meta(c5, rope.spec_meta());
    let rope_forward = seq![
        emit::rope_node(q_buf, rope, device::next_meta(c5, rope.spec_meta())),
        emit::rope_node(k_buf, rope, device::next_meta(c5k, rope.spec_meta())),
    ];
    let c6 = device::push_meta(c5k, rope.spec_meta());
    let heads = Heads { seq_len: cfg.seq_len, dim, num_heads: cfg.num_heads };
    let attention = SelfAttentionView {
        out_buffer: heads.out(c6),
        forward_graph: heads.forward(heads.new_start(c6), q_buf, k_buf, v_buf, heads.out(c6)),
        backward_graph: heads.backward(c6, g_outproj_in, g_attn_q, g_attn_k, g_attn_v),
    };
    let c7 = heads.new_ctx(c6);
    let out_proj = layers::linear_view(
        c7,
        dim,
        dim,
        rows,
        bw.out_proj,
        attention.out_buffer,
        g_add1_b,
        g_outproj_in,
    );
    let c8 = layers::linear_ctx(c7, dim, dim, rows);
    let add_1 = layers::add_view(d as u32, input, out_proj.out_buffer, g_add2_a, grad_input, g_add1_b);
    let norm_2 = layers::rmsnorm_view(c8, dim, rows, bw.norm_2, input, g_ffnup_in, g_norm2_in);
    let c9 = layers::rmsnorm_ctx(c8, dim, rows);
    let ffn_up = layers::linear_view(
        c9,
        dim,
        hidden,
        rows,
        bw.ffn_up,
        norm_2.out_buffer,
        g_silu_in,
        g_ffnup_in,
    );
    let c10 = layers::linear_ctx(c9, dim, hidden, rows);
    let silu = layers::silu_view(h as u32, ffn_up.out_buffer, g_ffndown_in, g_silu_in);
    let ffn_down = layers::linear_view(
        c10,
        hidden,
        dim,
        rows,
        bw.ffn_down,
        ffn_up.out_buffer,
        g_add2_b,
        g_ffndown_in,
    );
    let c11 = layers::linear_ctx(c10, hidden, dim, rows);
    let add_2 = layers::add_view(d as u32, input, ffn_down.out_buffer, grad_output, g_add2_a, g_add2_b);
    let c11k = device::push_meta(c11, rope.spec_meta());
    let rope_backward = seq![
        emit::rope_bwd_node(g_attn_q, rope, device::next_meta(c11, rope.spec_meta())),
        emit::rope_bwd_node(g_attn_k, rope, device::next_meta(c11k, rope.spec_meta())),
    ];
    let c12 = device::push_meta(c11k, rope.spec_meta());
    let qkv_gather = seq![
        emit::head_scatter_node(g_attn_q, g_attn_qkv, role(cfg, 0), role_meta(c12, 0)),
        emit::head_scatter_node(g_attn_k, g_attn_qkv, role(cfg, 1), role_meta(c12, 1)),
        emit::head_scatter_node(g_attn_v, g_attn_qkv, role(cfg, 2), role_meta(c12, 2)),
    ];
    let c13 = roles_ctx(c12, cfg);
    let backward_graph = add_2.backward_graph + ffn_down.backward_graph + silu.backward_graph
        + ffn_up.backward_graph + norm_2.backward_graph + seq![
        ops::add_inplace_bwd_node(g_add2_a, g_norm2_in, d as u32),
    ] + add_1.backward_graph + out_proj.backward_graph + attention.backward_graph + rope_backward
        + qkv_gather + qkv_proj.backward_graph + norm_1.backward_graph + seq![
        ops::add_inplace_bwd_node(grad_input, g_norm1_in, d as u32),
    ];
    (
        c13,
        TransformerBlockView {
            norm_1,
            qkv_proj,
            q_buf,
            k_buf,
            v_buf,
            qkv_split_forward,
            out_proj,
            attention,
            add_1,
            norm_2,
            ffn_up,
            silu,
            ffn_down,
            add_2,
            grad_input,
            rope_forward,
            backward_graph,
        },
    )
}

pub(crate) proof fn lemma_block_sizes(cfg: ModelConfig)
    requires
        block_fits(cfg),
    ensures
        cfg.dim * cfg.seq_len == cfg.seq_len * cfg.dim,
        cfg.spec_head_dim() > 0,
        cfg.seq_len * (cfg.dim * 3) == 3 * (cfg.seq_len * cfg.dim),
        layers::linear_fits(cfg.dim as int, cfg.dim * 3, cfg.seq_len as int),
        layers::linear_fits(cfg.dim as int, cfg.dim as int, cfg.seq_len as int),
        layers::linear_fits(cfg.dim as int, cfg.ffn_hidden as int, cfg.seq_len as int),
        layers::linear_fits(cfg.ffn_hidden as int, cfg.dim as int, cfg.seq_len as int),
        0 <= cfg.seq_len * cfg.dim,
        0 <= cfg.seq_len * cfg.ffn_hidden,
{
    let rows = cfg.seq_len as int;
    let dim = cfg.dim as int;
    let hidden = cfg.ffn_hidden as int;
    ops::lemma_head_sizes(cfg.seq_len, cfg.dim, cfg.num_heads, 0);
    if cfg.spec_head_dim() == 0 {
        assert(cfg.num_heads * cfg.spec_head_dim() == 0) by (nonlinear_arith)
            requires
                cfg.spec_head_dim() == 0,
        ;
    }
    assert(0 <= rows * dim && 0 <= rows * hidden && 0 <= dim * dim && 0 <= dim * hidden && dim
        * rows == rows * dim && rows * (dim * 3) == 3 * (rows * dim) && rows * (3 * dim) == rows * (
    dim * 3) && dim * (3 * dim) == dim * (dim * 3) && dim * hidden == hidden * dim && 0 <= dim * (
    dim * 3)) by (nonlinear_arith)
        requires
            0 <= rows,
            0 <= dim,
            0 <= hidden,
    ;
}

impl TransformerBlock {
    #[verifier::rlimit(60)]
    pub fn new(
        ctx: &mut Context,
        cfg: &ModelConfig,
        bw: &BlockWeights,
        input_tensor: Tensor,
        grad_output: Tensor,
        grad_input: Tensor,
    ) -> (r: Self)
        requires
            block_fits(*cfg),
            bw.norm_1.size == cfg.dim * 4,
            bw.norm_2.size == cfg.dim * 4,
        ensures
            (final(ctx)@, r@) == block_build(
                old(ctx)@,
                *cfg,
                *bw,
                input_tensor,
                grad_output,
                grad_input,
            ),
    {
        proof {
            lemma_block_sizes(*cfg);
        }
        let dim: u32 = cfg.dim;
        let seq_len: u32 = cfg.seq_len;
        let num_heads: u32 = cfg.num_heads;
        let hidden_dim: u32 = cfg.ffn_hidden;
        let rows: u32 = seq_len;
        let dim_size: u32 = rows * dim;
        let hidden_size: u32 = rows * hidden_dim;
        let g_add2_a = ctx.zeros(dim_size);
        let g_add2_b = ctx.zeros(dim_size);
        let g_ffndown_in = ctx.zeros(hidden_size);
        let g_silu_in = ctx.zeros(hidden_size);
        let g_ffnup_in = ctx.zeros(dim_size);
        let g_norm2_in = ctx.zeros(dim_size);
        let g_add1_b = ctx.zeros(dim_size);
        let g_outproj_in = ctx.zeros(dim_size);
        let g_attn_q = ctx.zeros(dim_size);
        let g_attn_k = ctx.zeros(dim_size);
        let g_attn_v = ctx.zeros(dim_size);
        let g_attn_qkv = ctx.zeros(3 * dim_size);
        let g_qkvproj_in = ctx.zeros(dim_size);
        let g_norm1_in = ctx.zeros(dim_size);
        let elems: u32 = rows * dim;
        let norm_1 = RMSNorm::new(ctx, dim, rows, bw.norm_1, input_tensor, g_qkvproj_in, g_norm1_in);
        // one [dim, 3*dim] matmul instead of three [dim,dim] matmuls
        let qkv_proj = Linear::new(
            ctx,
            dim,
            dim * 3,
            rows,
            bw.qkv_proj,
            norm_1.out_buffer,
            g_attn_qkv,
            g_qkvproj_in,
        );
        let q_buf = ctx.zeros(dim_size);
        let k_buf = ctx.zeros(dim_size);
        let v_buf = ctx.zeros(dim_size);
        let ghost c4 = ctx@;
        let mut gb = GraphBuilder::train(ComputeGraph::new());
        emit::head_gather(ctx, &mut gb, qkv_proj.out_buffer, q_buf, qkv_slice(rows, dim, 0));
        emit::head_gather(ctx, &mut gb, qkv_proj.out_buffer, k_buf, qkv_slice(rows, dim, dim));
        emit::head_gather(ctx, &mut gb, qkv_proj.out_buffer, v_buf, qkv_slice(rows, dim, 2 * dim));
        let qkv_split_forward = gb.graph;
        assert(qkv_split_forward@ =~= seq![
            emit::head_gather_node(qkv_proj.out_buffer, q_buf, role(*cfg, 0), role_meta(c4, 0)),
            emit::head_gather_node(qkv_proj.out_buffer, k_buf, role(*cfg, 1), role_meta(c4, 1)),
            emit::head_gather_node(qkv_proj.out_buffer, v_buf, role(*cfg, 2), role_meta(c4, 2)),
        ]);
        assert(ctx@ == roles_ctx(c4, *cfg));
        let ghost c5 = ctx@;
        let head_dim: u32 = cfg.head_dim();
        let shape = RopeMeta { seq_len, dim, head_dim, row_offset: 0 };
        let mut gb = GraphBuilder::train(ComputeGraph::new());
        emit::rope(ctx, &mut gb, q_buf, shape);
        emit::rope(ctx, &mut gb, k_buf, shape);
        let rope_forward = gb.graph;
        let ghost c5k = device::push_meta(c5, shape.spec_meta());
        assert(rope_forward@ =~= seq![
            emit::rope_node(q_buf, shape, device::next_meta(c5, shape.spec_meta())),
            emit::rope_node(k_buf, shape, device::next_meta(c5k, shape.spec_meta())),
        ]);
        let attention = SelfAttention::new(
            ctx,
            seq_len,
            dim,
            num_heads,
            q_buf,
            k_buf,
            v_buf,
            g_outproj_in,
            g_attn_q,
            g_attn_k,
            g_attn_v,
        );
        let out_proj = Linear::new(
            ctx,
            dim,
            dim,
            rows,
            bw.out_proj,
            attention.out_buffer,
            g_add1_b,
            g_outproj_in,
        );
        let add_1 = Add::new(
            dim * rows,
            input_tensor,
            out_proj.out_buffer,
            g_add2_a,
            grad_input,
            g_add1_b,
        );
        let norm_2 = RMSNorm::new(
            ctx,
            dim,
            rows,
            bw.norm_2,
            add_1.in_out_buffer,
            g_ffnup_in,
            g_norm2_in,
        );
        let ffn_up = Linear::new(
            ctx,
            dim,
            hidden_dim,
            rows,
            bw.ffn_up,
            norm_2.out_buffer,
            g_silu_in,
            g_ffnup_in,
        );
        let silu = SiLU::new(rows * hidden_dim, ffn_up.out_buffer, g_ffndown_in, g_silu_in);
        let ffn_down = Linear::new(
            ctx,
            hidden_dim,
            dim,
            rows,
            bw.ffn_down,
            silu.in_out_buffer,
            g_add2_b,
            g_ffndown_in,
        );
        let add_2 = Add::new(
            dim * rows,
            add_1.in_out_buffer,
            ffn_down.out_buffer,
            grad_output,
            g_add2_a,
            g_add2_b,
        );
        let mut gb = GraphBuilder::train(ComputeGraph::new());
        ops::add_inplace_bwd(&mut gb, add_2.grad_a, norm_2.grad_input, elems);
        let barrier_1 = gb.graph;
        let mut gb = GraphBuilder::train(ComputeGraph::new());
        ops::add_inplace_bwd(&mut gb, grad_input, norm_1.grad_input, elems);
        let barrier_3 = gb.graph;
        let mut gb = GraphBuilder::train(ComputeGraph::new());
        emit::rope_bwd(ctx, &mut gb, g_attn_q, shape);
        emit::rope_bwd(ctx, &mut gb, g_attn_k, shape);
        let rope_backward = gb.graph;
        // dL/dQ + dL/dK + dL/dV -> one fused grad_output for qkv_proj's backward
        let mut gb = GraphBuilder::train(ComputeGraph::new());
        emit::head_scatter(ctx, &mut gb, g_attn_q, g_attn_qkv, qkv_slice(rows, dim, 0));
        emit::head_scatter(ctx, &mut gb, g_attn_k, g_attn_qkv, qkv_slice(rows, dim, dim));
        emit::head_scatter(ctx, &mut gb, g_attn_v, g_attn_qkv, qkv_slice(rows, dim, 2 * dim));
        let qkv_gather_backward = gb.graph;
        let mut backward_graph = ComputeGraph::new();
        backward_graph.append(&add_2.backward_graph);
        assert(backward_graph@ =~= add_2.backward_graph@);
        backward_graph.append(&ffn_down.backward_graph);
        backward_graph.append(&silu.backward_graph);
        backward_graph.append(&ffn_up.backward_graph);
        backward_graph.append(&norm_2.backward_graph);
        backward_graph.append(&barrier_1);
        backward_graph.append(&add_1.backward_graph);
        backward_graph.append(&out_proj.backward_graph);
        backward_graph.append(&attention.backward_graph);
        backward_graph.append(&rope_backward);
        backward_graph.append(&qkv_gather_backward);
        backward_graph.append(&qkv_proj.backward_graph);
        backward_graph.append(&norm_1.backward_graph);
        backward_graph.append(&barrier_3);
        proof {
            reveal(block_build);
        }
        Self {
            norm_1,
            qkv_proj,
            q_buf,
            k_buf,
            v_buf,
            qkv_split_forward,
            out_proj,
            attention,
            add_1,
            norm_2,
            ffn_up,
            silu,
            ffn_down,
            add_2,
            grad_input,
            rope_forward,
            backward_graph,
        }
    }

    /// The buffers to zero before a new accumulation of gradients.
    pub fn zero_grad(&self) -> (r: Vec<Tensor>)
        ensures
            r@ == transformer::block_weight_grads(self@) + transformer::block_transient_grads(self@),
    {
        let r = vec![
            self.norm_1.grad_weight,
            self.qkv_proj.grad_weight,
            self.out_proj.grad_weight,
            self.norm_2.grad_weight,
            self.ffn_up.grad_weight,
            self.ffn_down.grad_weight,
            self.add_1.grad_a,
            self.add_1.grad_b,
            self.add_2.grad_a,
            self.add_2.grad_b,
        ];
        assert(r@ =~= transformer::block_weight_grads(self@) + transformer::block_transient_grads(self@));
        r
    }

    /// The buffers to zero before every backward pass.
    pub fn zero_transient_grads(&self) -> (r: Vec<Tensor>)
        ensures
            r@ == transformer::block_transient_grads(self@),
    {
        vec![self.add_1.grad_a, self.add_1.grad_b, self.add_2.grad_a, self.add_2.grad_b]
    }
}

impl Layer for TransformerBlock {
    open spec fn forward_nodes(&self) -> Seq<NodeView> {
        transformer::block_forward(self@)
    }

    open spec fn backward_nodes(&self) -> Seq<NodeView> {
        self.backward_graph@
    }

    fn forward(&self) -> ComputeGraph {
        let mut g = self.norm_1.forward();
        g.append(&self.qkv_proj.forward_graph);
        g.append(&self.qkv_split_forward);
        g.append(&self.rope_forward);
        g.append(&self.attention.forward_graph);
        g.append(&self.out_proj.forward_graph);
        g.append(&self.add_1.forward_graph);
        g.append(&self.norm_2.forward_graph);
        g.append(&self.ffn_up.forward_graph);
        g.append(&self.silu.forward_graph);
        g.append(&self.ffn_down.forward_graph);
        g.append(&self.add_2.forward_graph);
        g
    }

    fn backward(&self) -> ComputeGraph {
        let mut g = ComputeGraph::new();
        g.append(&self.backward_graph);
        assert(g@ =~= self.backward_graph@);
        g
    }
}

} // verus!
