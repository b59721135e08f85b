//! One transformer block of the trainer, with its forward graphs and its fused
//! backward graph.
use super::kernels::emit;
use super::kernels::meta::{HeadMoveMeta, KernelMeta, RopeMeta};
use super::kernels::GraphBuilder;
use super::layers;
use super::layers::{
    Add, AddView, Layer, Linear, LinearView, RMSNorm, RMSNormView, SelfAttention,
    SelfAttentionView, SiLU, SiLUView,
};
use super::ops;
use super::weights::BlockWeights;
use crate::config::ModelConfig;
use crate::device;
use crate::device::{ComputeGraph, Context, Init, NodeView, Tensor};
use vstd::prelude::*;

verus! {

pub struct TransformerBlock {
    pub norm_1: RMSNorm,
    pub qkv_proj: Linear,
    pub q_buf: Tensor,
    pub k_buf: Tensor,
    pub v_buf: Tensor,
    pub qkv_split_forward: ComputeGraph,
    pub out_proj: Linear,
    pub attention: SelfAttention,
    pub add_1: Add,
    pub norm_2: RMSNorm,
    pub ffn_up: Linear,
    pub silu: SiLU,
    pub ffn_down: Linear,
    pub add_2: Add,
    pub grad_input: Tensor,
    pub rope_forward: ComputeGraph,
    pub backward_graph: ComputeGraph,
}

/// The value of a `TransformerBlock`.
#[verifier::ext_equal]
pub struct TransformerBlockView {
    pub norm_1: RMSNormView,
    pub qkv_proj: LinearView,
    pub q_buf: Tensor,
    pub k_buf: Tensor,
    pub v_buf: Tensor,
    pub qkv_split_forward: Seq<NodeView>,
    pub out_proj: LinearView,
    pub attention: SelfAttentionView,
    pub add_1: AddView,
    pub norm_2: RMSNormView,
    pub ffn_up: LinearView,
    pub silu: SiLUView,
    pub ffn_down: LinearView,
    pub add_2: AddView,
    pub grad_input: Tensor,
    pub rope_forward: Seq<NodeView>,
    pub backward_graph: Seq<NodeView>,
}

impl View for TransformerBlock {
    type V = TransformerBlockView;

    open spec fn view(&self) -> TransformerBlockView {
        TransformerBlockView {
            norm_1: self.norm_1@,
            qkv_proj: self.qkv_proj@,
            q_buf: self.q_buf,
            k_buf: self.k_buf,
            v_buf: self.v_buf,
            qkv_split_forward: self.qkv_split_forward@,
            out_proj: self.out_proj@,
            attention: self.attention@,
            add_1: self.add_1@,
            norm_2: self.norm_2@,
            ffn_up: self.ffn_up@,
            silu: self.silu@,
            ffn_down: self.ffn_down@,
            add_2: self.add_2@,
            grad_input: self.grad_input,
            rope_forward: self.rope_forward@,
            backward_graph: self.backward_graph@,
        }
    }
}

/// Rows of a batch.
pub open spec fn batch_rows(cfg: ModelConfig) -> u32 {
    (cfg.batch_size * cfg.seq_len) as u32
}

/// The configurations whose buffers can be counted in 32 bits and whose heads
/// the attention kernels accept.
pub open spec fn block_fits(cfg: ModelConfig) -> bool {
    let rows = cfg.batch_size * cfg.seq_len;
    &&& layers::attention_fits(cfg.seq_len, cfg.dim, cfg.num_heads, cfg.batch_size)
    &&& rows + 15 <= u32::MAX
    &&& cfg.dim + 255 <= u32::MAX
    &&& 3 * cfg.dim + 15 <= u32::MAX
    &&& cfg.ffn_hidden + 15 <= u32::MAX
    &&& rows * cfg.dim + 255 <= u32::MAX
    &&& rows * (3 * cfg.dim) <= u32::MAX
    &&& rows * cfg.ffn_hidden + 255 <= u32::MAX
    &&& cfg.dim * cfg.dim <= u32::MAX
    &&& cfg.dim * (3 * cfg.dim) <= u32::MAX
    &&& cfg.dim * cfg.ffn_hidden <= u32::MAX
}

/// Positional rotation of sequence `b` of a batch.
pub open spec fn rope_shape(cfg: ModelConfig, b: int) -> RopeMeta {
    RopeMeta {
        seq_len: cfg.seq_len,
        dim: cfg.dim,
        head_dim: cfg.spec_head_dim(),
        row_offset: (b * cfg.seq_len) as u32,
    }
}

/// One rope meta per sequence.
pub open spec fn rope_ctx(c: Seq<Init>, cfg: ModelConfig, n: nat) -> Seq<Init>
    decreases n,
{
    if n == 0 {
        c
    } else {
        device::push_meta(
            rope_ctx(c, cfg, (n - 1) as nat),
            rope_shape(cfg, n - 1).spec_meta(),
        )
    }
}

/// The rotations of Q and K, one dispatch per sequence.
pub open spec fn rope_nodes(c: Seq<Init>, cfg: ModelConfig, q: Tensor, k: Tensor, n: nat) -> Seq<NodeView>
    decreases n,
{
    if n == 0 {
        Seq::empty()
    } else {
        let shape = rope_shape(cfg, n - 1);
        rope_nodes(c, cfg, q, k, (n - 1) as nat).push(
            emit::rope_qk_node(
                q,
                k,
                shape,
                device::next_meta(rope_ctx(c, cfg, (n - 1) as nat), shape.spec_meta()),
            ),
        )
    }
}

/// The rotations back of both gradients, one dispatch per sequence.
pub open spec fn rope_bwd_nodes(
    c: Seq<Init>,
    cfg: ModelConfig,
    grad_q: Tensor,
    grad_k: Tensor,
    n: nat,
) -> Seq<NodeView>
    decreases n,
{
    if n == 0 {
        Seq::empty()
    } else {
        let shape = rope_shape(cfg, n - 1);
        rope_bwd_nodes(c, cfg, grad_q, grad_k, (n - 1) as nat).push(
            emit::rope_bwd_qk_node(
                grad_q,
                grad_k,
                shape,
                device::next_meta(rope_ctx(c, cfg, (n - 1) as nat), shape.spec_meta()),
            ),
        )
    }
}

/// Gradient buffer `i` of a block whose buffers start after those of `c`.
pub open spec fn grad_buf(c: Seq<Init>, i: int, elems: int) -> Tensor {
    Tensor { id: (c.len() + i) as usize, size: (4 * elems) as u64 }
}

/// The block's own gradient buffers: `d` elements each, but for two of `h`
/// elements around the activation and one fused QKV gradient of `3 * d`.
pub open spec fn grads_ctx(c: Seq<Init>, d: int, h: int) -> Seq<Init> {
    c.push(Init::Zeros(d as u32)).push(Init::Zeros(d as u32)).push(Init::Zeros(h as u32)).push(
        Init::Zeros(h as u32),
    ).push(Init::Zeros(d as u32)).push(Init::Zeros(d as u32)).push(Init::Zeros(d as u32)).push(
        Init::Zeros(d as u32),
    ).push(Init::Zeros(d as u32)).push(Init::Zeros(d as u32)).push(Init::Zeros(d as u32)).push(
        Init::Zeros((3 * d) as u32),
    ).push(Init::Zeros(d as u32)).push(Init::Zeros(d as u32))
}

/// The context and the block that `TransformerBlock::new` leaves when it starts
/// in a context holding `c`.
#[verifier::opaque]
pub open spec fn block_build(
    c: Seq<Init>,
    cfg: ModelConfig,
    bw: BlockWeights,
    input: Tensor,
    grad_output: Tensor,
    grad_input: Tensor,
) -> (Seq<Init>, TransformerBlockView) {
    let rows = batch_rows(cfg);
    let (dim, hidden) = (cfg.dim, cfg.ffn_hidden);
    let batch = cfg.batch_size as nat;
    let d = rows * dim;
    let h = rows * hidden;
    let g_add2_a = grad_buf(c, 0, d);
    let g_add2_b = grad_buf(c, 1, d);
    let g_ffndown_in = grad_buf(c, 2, h);
    let g_silu_in = grad_buf(c, 3, h);
    let g_ffnup_in = grad_buf(c, 4, d);
    let g_norm2_in = grad_buf(c, 5, d);
    let g_add1_b = grad_buf(c, 6, d);
    let g_outproj_in = grad_buf(c, 7, d);
    let g_attn_q = grad_buf(c, 8, d);
    let g_attn_k = grad_buf(c, 9, d);
    let g_attn_v = grad_buf(c, 10, d);
    let g_attn_qkv = grad_buf(c, 11, 3 * d);
    let g_qkvproj_in = grad_buf(c, 12, d);
    let g_norm1_in = grad_buf(c, 13, d);
    let c1 = grads_ctx(c, d, h);
    let norm_1 = layers::rmsnorm_view(c1, dim, rows, bw.norm_1, input, g_qkvproj_in, g_norm1_in);
    let c2 = layers::rmsnorm_ctx(c1, dim, rows);
    let qkv_proj = layers::linear_view(
        c2,
        dim,
        (dim * 3) as u32,
        rows,
        bw.qkv_proj,
        norm_1.out_buffer,
        g_attn_qkv,
        g_qkvproj_in,
    );
    let c3 = layers::linear_ctx(c2, dim, (dim * 3) as u32, rows);
    let q_buf = grad_buf(c3, 0, d);
    let k_buf = grad_buf(c3, 1, d);
    let v_buf = grad_buf(c3, 2, d);
    let c4 = c3.push(Init::Zeros(d as u32)).push(Init::Zeros(d as u32)).push(Init::Zeros(d as u32));
    let split = HeadMoveMeta::spec_qkv_slice(rows, dim, 0);
    let qkv_split_forward = seq![
        emit::qkv_split_node(
            qkv_proj.out_buffer,
            q_buf,
            k_buf,
            v_buf,
            split,
            device::next_meta(c4, split.spec_meta()),
        ),
    ];
    let c5 = device::push_meta(c4, split.spec_meta());
    let rope_forward = rope_nodes(c5, cfg, q_buf, k_buf, batch);
    let c6 = rope_ctx(c5, cfg, batch);
    let attention = layers::attention_view(
        c6,
        cfg.seq_len,
        dim,
        cfg.num_heads,
        cfg.batch_size,
        q_buf,
        k_buf,
        v_buf,
        g_outproj_in,
        g_attn_q,
        g_attn_k,
        g_attn_v,
    );
    let c7 = layers::attention_ctx(c6, cfg.seq_len, dim, cfg.num_heads, cfg.batch_size);
    let out_proj = layers::linear_view(
        c7,
        dim,
        dim,
        rows,
        bw.out_proj,
        attention.out_buffer,
        g_add1_b,
        g_outproj_in,
    );
    let c8 = layers::linear_ctx(c7, dim, dim, rows);
    let add_1 = layers::add_view(d as u32, input, out_proj.out_buffer, g_add2_a, grad_input, g_add1_b);
    let norm_2 = layers::rmsnorm_view(c8, dim, rows, bw.norm_2, input, g_ffnup_in, g_norm2_in);
    let c9 = layers::rmsnorm_ctx(c8, dim, rows);
    let ffn_up = layers::linear_view(
        c9,
        dim,
        hidden,
        rows,
        bw.ffn_up,
        norm_2.out_buffer,
        g_silu_in,
        g_ffnup_in,
    );
    let c10 = layers::linear_ctx(c9, dim, hidden, rows);
    let silu = layers::silu_view(h as u32, ffn_up.out_buffer, g_ffndown_in, g_silu_in);
    let ffn_down = layers::linear_view(
        c10,
        hidden,
        dim,
        rows,
        bw.ffn_down,
        ffn_up.out_buffer,
        g_add2_b,
        g_ffndown_in,
    );
    let c11 = layers::linear_ctx(c10, hidden, dim, rows);
    let add_2 = layers::add_view(d as u32, input, ffn_down.out_buffer, grad_output, g_add2_a, g_add2_b);
    let rope_backward = rope_bwd_nodes(c11, cfg, g_attn_q, g_attn_k, batch);
    let c12 = rope_ctx(c11, cfg, batch);
    let qkv_gather = emit::qkv_scatter_node(
        g_attn_q,
        g_attn_k,
        g_attn_v,
        g_attn_qkv,
        split,
        device::next_meta(c12, split.spec_meta()),
    );
    let c13 = device::push_meta(c12, split.spec_meta());
    let backward_graph = add_2.backward_graph + ffn_down.backward_graph + silu.backward_graph
        + ffn_up.backward_graph + norm_2.backward_graph + seq![
        ops::add_inplace_bwd_node(g_add2_a, g_norm2_in, d as u32),
    ] + add_1.backward_graph + out_proj.backward_graph + attention.backward_graph + rope_backward
        + seq![qkv_gather] + qkv_proj.backward_graph + norm_1.backward_graph + seq![
        ops::add_inplace_bwd_node(grad_input, g_norm1_in, d as u32),
    ];
    (
        c13,
        TransformerBlockView {
            norm_1,
            qkv_proj,
            q_buf,
            k_buf,
            v_buf,
            qkv_split_forward,
            out_proj,
            attention,
            add_1,
            norm_2,
            ffn_up,
            silu,
            ffn_down,
            add_2,
            grad_input,
            rope_forward,
            backward_graph,
        },
    )
}

/// The dispatches of a block's forward pass.
pub open spec fn block_forward(b: TransformerBlockView) -> Seq<NodeView> {
    b.norm_1.forward_graph + b.qkv_proj.forward_graph + b.qkv_split_forward + b.rope_forward
        + b.attention.forward_graph + b.out_proj.forward_graph + b.add_1.forward_graph
        + b.norm_2.forward_graph + b.ffn_up.forward_graph + b.silu.forward_graph
        + b.ffn_down.forward_graph + b.add_2.forward_graph
}

/// The weight gradients of a block, in the order in which they are zeroed.
pub open spec fn block_weight_grads(b: TransformerBlockView) -> Seq<Tensor> {
    seq![
        b.norm_1.grad_weight,
        b.qkv_proj.grad_weight,
        b.out_proj.grad_weight,
        b.norm_2.grad_weight,
        b.ffn_up.grad_weight,
        b.ffn_down.grad_weight,
    ]
}

/// The gradients that accumulate within one backward pass only.
pub open spec fn block_transient_grads(b: TransformerBlockView) -> Seq<Tensor> {
    seq![b.add_1.grad_a, b.add_1.grad_b, b.add_2.grad_a, b.add_2.grad_b]
}

pub(crate) proof fn lemma_block_sizes(cfg: ModelConfig)
    requires
        block_fits(cfg),
    ensures
        batch_rows(cfg) == cfg.batch_size * cfg.seq_len,
        cfg.dim * batch_rows(cfg) == batch_rows(cfg) * cfg.dim,
        cfg.spec_head_dim() > 0,
        batch_rows(cfg) * (cfg.dim * 3) == 3 * (batch_rows(cfg) * cfg.dim),
        layers::linear_fits(cfg.dim as int, cfg.dim * 3, batch_rows(cfg) as int),
        layers::linear_fits(cfg.dim as int, cfg.dim as int, batch_rows(cfg) as int),
        layers::linear_fits(cfg.dim as int, cfg.ffn_hidden as int, batch_rows(cfg) as int),
        layers::linear_fits(cfg.ffn_hidden as int, cfg.dim as int, batch_rows(cfg) as int),
        0 <= batch_rows(cfg) * cfg.dim,
        0 <= batch_rows(cfg) * cfg.ffn_hidden,
{
    let rows = cfg.batch_size * cfg.seq_len;
    let dim = cfg.dim as int;
    let hidden = cfg.ffn_hidden as int;
    assert(0 <= rows) by (nonlinear_arith)
        requires
            rows == cfg.batch_size * cfg.seq_len,
    ;
    assert(0 <= rows * dim && 0 <= rows * hidden && 0 <= dim * dim && 0 <= dim * hidden && dim
        * rows == rows * dim && rows * (dim * 3) == 3 * (rows * dim) && rows * (3 * dim) == rows * (
    dim * 3) && dim * (3 * dim) == dim * (dim * 3) && dim * hidden == hidden * dim && 0 <= dim * (
    dim * 3)) by (nonlinear_arith)
        requires
            0 <= rows,
            0 <= dim,
            0 <= hidden,
    ;
}

impl TransformerBlock {
    pub fn new(
        ctx: &mut Context,
        cfg: &ModelConfig,
        bw: &BlockWeights,
        input_tensor: Tensor,
        grad_output: Tensor,
        grad_input: Tensor,
    ) -> (r: Self)
        requires
            block_fits(*cfg),
            bw.norm_1.size == cfg.dim * 4,
            bw.norm_2.size == cfg.dim * 4,
        ensures
            (final(ctx)@, r@) == block_build(
                old(ctx)@,
                *cfg,
                *bw,
                input_tensor,
                grad_output,
                grad_input,
            ),
    {
        proof {
            lemma_block_sizes(*cfg);
        }
        let dim: u32 = cfg.dim;
        let seq_len: u32 = cfg.seq_len;
        let num_heads: u32 = cfg.num_heads;
        let hidden_dim: u32 = cfg.ffn_hidden;
        let batch_size: u32 = cfg.batch_size;
        let rows: u32 = batch_size * seq_len;
        let dim_size: u32 = rows * dim;
        let hidden_size: u32 = rows * hidden_dim;
        let g_add2_a = ctx.zeros(dim_size);
        let g_add2_b = ctx.zeros(dim_size);
        let g_ffndown_in = ctx.zeros(hidden_size);
        let g_silu_in = ctx.zeros(hidden_size);
        let g_ffnup_in = ctx.zeros(dim_size);
        let g_norm2_in = ctx.zeros(dim_size);
        let g_add1_b = ctx.zeros(dim_size);
        let g_outproj_in = ctx.zeros(dim_size);
        let g_attn_q = ctx.zeros(dim_size);
        let g_attn_k = ctx.zeros(dim_size);
        let g_attn_v = ctx.zeros(dim_size);
        let g_attn_qkv = ctx.zeros(3 * dim_size);
        let g_qkvproj_in = ctx.zeros(dim_size);
        let g_norm1_in = ctx.zeros(dim_size);
        let elems: u32 = rows * dim;
        let norm_1 = RMSNorm::new(ctx, dim, rows, bw.norm_1, input_tensor, g_qkvproj_in, g_norm1_in);
        // one [dim, 3*dim] matmul instead of three [dim,dim] matmuls
        let qkv_proj = Linear::new(
            ctx,
            dim,
            dim * 3,
            rows,
            bw.qkv_proj,
            norm_1.out_buffer,
            g_attn_qkv,
            g_qkvproj_in,
        );
        let ghost c3 = ctx@;
        let q_buf = ctx.zeros(dim_size);
        let k_buf = ctx.zeros(dim_size);
        let v_buf = ctx.zeros(dim_size);
        let split = HeadMoveMeta::qkv_slice(rows, dim, 0);
        let mut gb = GraphBuilder::train(ComputeGraph::new());
        emit::qkv_split(ctx, &mut gb, qkv_proj.out_buffer, q_buf, k_buf, v_buf, split);
        let qkv_split_forward = gb.graph;
        let head_dim: u32 = cfg.head_dim();
        let ghost c5 = ctx@;
        let mut gb = GraphBuilder::train(ComputeGraph::new());
        let mut b: u32 = 0;
        while b < batch_size
            invariant
                b <= batch_size == cfg.batch_size,
                block_fits(*cfg),
                seq_len == cfg.seq_len,
                dim == cfg.dim,
                head_dim == cfg.spec_head_dim(),
                head_dim > 0,
                ctx@ == rope_ctx(c5, *cfg, b as nat),
                gb.graph@ == rope_nodes(c5, *cfg, q_buf, k_buf, b as nat),
            decreases batch_size - b,
        {
            proof {
                layers::lemma_row_offset(batch_size, seq_len, b as int);
            }
            let shape = RopeMeta { seq_len, dim, head_dim, row_offset: b * seq_len };
            assert(shape == rope_shape(*cfg, b as int));
            emit::rope_qk(ctx, &mut gb, q_buf, k_buf, shape);
            b = b + 1;
        }
        let rope_forward = gb.graph;
        let attention = SelfAttention::new(
            ctx,
            seq_len,
            dim,
            num_heads,
            batch_size,
            q_buf,
            k_buf,
            v_buf,
            g_outproj_in,
            g_attn_q,
            g_attn_k,
            g_attn_v,
        );
        let out_proj = Linear::new(
            ctx,
            dim,
            dim,
            rows,
            bw.out_proj,
            attention.out_buffer,
            g_add1_b,
            g_outproj_in,
        );
        let add_1 = Add::new(
            dim * rows,
            input_tensor,
            out_proj.out_buffer,
            g_add2_a,
            grad_input,
            g_add1_b,
        );
        let norm_2 = RMSNorm::new(
            ctx,
            dim,
            rows,
            bw.norm_2,
            add_1.in_out_buffer,
            g_ffnup_in,
            g_norm2_in,
        );
        let ffn_up = Linear::new(
            ctx,
            dim,
            hidden_dim,
            rows,
            bw.ffn_up,
            norm_2.out_buffer,
            g_silu_in,
            g_ffnup_in,
        );
        let silu = SiLU::new(rows * hidden_dim, ffn_up.out_buffer, g_ffndown_in, g_silu_in);
        let ffn_down = Linear::new(
            ctx,
            hidden_dim,
            dim,
            rows,
            bw.ffn_down,
            silu.in_out_buffer,
            g_add2_b,
            g_ffndown_in,
        );
        let add_2 = Add::new(
            dim * rows,
            add_1.in_out_buffer,
            ffn_down.out_buffer,
            grad_output,
            g_add2_a,
            g_add2_b,
        );
        let mut gb = GraphBuilder::train(ComputeGraph::new());
        ops::add_inplace_bwd(&mut gb, add_2.grad_a, norm_2.grad_input, elems);
        let barrier_1 = gb.graph;
        let mut gb = GraphBuilder::train(ComputeGraph::new());
        ops::add_inplace_bwd(&mut gb, grad_input, norm_1.grad_input, elems);
        let barrier_3 = gb.graph;
        let ghost c11 = ctx@;
        let mut gb = GraphBuilder::train(ComputeGraph::new());
        let mut b: u32 = 0;
        while b < batch_size
            invariant
                b <= batch_size == cfg.batch_size,
                block_fits(*cfg),
                seq_len == cfg.seq_len,
                dim == cfg.dim,
                head_dim == cfg.spec_head_dim(),
                head_dim > 0,
                ctx@ == rope_ctx(c11, *cfg, b as nat),
                gb.graph@ == rope_bwd_nodes(c11, *cfg, g_attn_q, g_attn_k, b as nat),
            decreases batch_size - b,
        {
            proof {
                layers::lemma_row_offset(batch_size, seq_len, b as int);
            }
            let shape = RopeMeta { seq_len, dim, head_dim, row_offset: b * seq_len };
            assert(shape == rope_shape(*cfg, b as int));
            emit::rope_bwd_qk(ctx, &mut gb, g_attn_q, g_attn_k, shape);
            b = b + 1;
        }
        let rope_backward = gb.graph;
        // dL/dQ + dL/dK + dL/dV -> one fused grad_output for qkv_proj's backward
        let mut gb = GraphBuilder::train(ComputeGraph::new());
        emit::qkv_scatter(ctx, &mut gb, g_attn_q, g_attn_k, g_attn_v, g_attn_qkv, split);
        let qkv_gather_backward = gb.graph;
        let mut backward_graph = ComputeGraph::new();
        backward_graph.append(&add_2.backward_graph);
        assert(backward_graph@ =~= add_2.backward_graph@);
        backward_graph.append(&ffn_down.backward_graph);
        backward_graph.append(&silu.backward_graph);
        backward_graph.append(&ffn_up.backward_graph);
        backward_graph.append(&norm_2.backward_graph);
        backward_graph.append(&barrier_1);
        backward_graph.append(&add_1.backward_graph);
        backward_graph.append(&out_proj.backward_graph);
        backward_graph.append(&attention.backward_graph);
        backward_graph.append(&rope_backward);
        backward_graph.append(&qkv_gather_backward);
        backward_graph.append(&qkv_proj.backward_graph);
        backward_graph.append(&norm_1.backward_graph);
        backward_graph.append(&barrier_3);
        proof {
            reveal(block_build);
        }
        Self {
            norm_1,
            qkv_proj,
            q_buf,
            k_buf,
            v_buf,
            qkv_split_forward,
            out_proj,
            attention,
            add_1,
            norm_2,
            ffn_up,
            silu,
            ffn_down,
            add_2,
            grad_input,
            rope_forward,
            backward_graph,
        }
    }

    /// The buffers to zero before a new accumulation of gradients.
    pub fn zero_grad(&self) -> (r: Vec<Tensor>)
        ensures
            r@ == block_weight_grads(self@) + block_transient_grads(self@),
    {
        let r = vec![
            self.norm_1.grad_weight,
            self.qkv_proj.grad_weight,
            self.out_proj.grad_weight,
            self.norm_2.grad_weight,
            self.ffn_up.grad_weight,
            self.ffn_down.grad_weight,
            self.add_1.grad_a,
            self.add_1.grad_b,
            self.add_2.grad_a,
            self.add_2.grad_b,
        ];
        assert(r@ =~= block_weight_grads(self@) + block_transient_grads(self@));
        r
    }

    /// The buffers to zero before every backward pass.
    pub fn zero_transient_grads(&self) -> (r: Vec<Tensor>)
        ensures
            r@ == block_transient_grads(self@),
    {
        vec![self.add_1.grad_a, self.add_1.grad_b, self.add_2.grad_a, self.add_2.grad_b]
    }
}

impl Layer for TransformerBlock {
    open spec fn forward_nodes(&self) -> Seq<NodeView> {
        block_forward(self@)
    }

    open spec fn backward_nodes(&self) -> Seq<NodeView> {
        self.backward_graph@
    }

    fn forward(&self) -> ComputeGraph {
        let mut g = self.norm_1.forward();
        g.append(&self.qkv_proj.forward_graph);
        g.append(&self.qkv_split_forward);
        g.append(&self.rope_forward);
        g.append(&self.attention.forward_graph);
        g.append(&self.out_proj.forward_graph);
        g.append(&self.add_1.forward_graph);
        g.append(&self.norm_2.forward_graph);
        g.append(&self.ffn_up.forward_graph);
        g.append(&self.silu.forward_graph);
        g.append(&self.ffn_down.forward_graph);
        g.append(&self.add_2.forward_graph);
        g
    }

    fn backward(&self) -> ComputeGraph {
        let mut g = ComputeGraph::new();
        g.append(&self.backward_graph);
        assert(g@ =~= self.backward_graph@);
        g
    }
}

} // verus!
