//! Trainer-only layers: each struct owns its grad buffers and its forward and
//! backward graphs.
use super::kernels::emit;
use super::kernels::emit::FlashAttnBuffers;
use super::kernels::meta::{
    CrossEntropyMeta, EmbeddingMeta, FlashAttnMeta, KernelMeta, MatMulMeta, NormMeta,
};
use super::kernels::GraphBuilder;
use super::ops;
use crate::device;
use crate::device::{ComputeGraph, Context, Init, NodeView, Scalar, Tensor};
use vstd::prelude::*;

verus! {

/// A layer's passes, as the dispatches that a runtime executes in order.
pub trait Layer {
    spec fn forward_nodes(&self) -> Seq<NodeView>;

    spec fn backward_nodes(&self) -> Seq<NodeView>;

    /// The dispatches of a forward pass.
    fn forward(&self) -> (r: ComputeGraph)
        ensures
            r@ == self.forward_nodes(),
    ;

    /// The dispatches of a backward pass.
    fn backward(&self) -> (r: ComputeGraph)
        ensures
            r@ == self.backward_nodes(),
    ;
}

/// A graph with the dispatches of `g`.
pub(crate) fn copy_graph(g: &ComputeGraph) -> (r: ComputeGraph)
    ensures
        r@ == g@,
{
    let mut r = ComputeGraph::new();
    r.append(g);
    assert(r@ =~= g@);
    r
}

// ---- linear ----

pub struct Linear {
    pub weight: Tensor,
    pub out_buffer: Tensor,
    pub grad_weight: Tensor,
    pub grad_input: Tensor,
    pub forward_graph: ComputeGraph,
    pub backward_graph: ComputeGraph,
}

/// The value of a `Linear`.
#[verifier::ext_equal]
pub struct LinearView {
    pub weight: Tensor,
    pub out_buffer: Tensor,
    pub grad_weight: Tensor,
    pub grad_input: Tensor,
    pub forward_graph: Seq<NodeView>,
    pub backward_graph: Seq<NodeView>,
}

impl View for Linear {
    type V = LinearView;

    open spec fn view(&self) -> LinearView {
        LinearView {
            weight: self.weight,
            out_buffer: self.out_buffer,
            grad_weight: self.grad_weight,
            grad_input: self.grad_input,
            forward_graph: self.forward_graph@,
            backward_graph: self.backward_graph@,
        }
    }
}

/// The sizes on which a linear layer works.
pub open spec fn linear_fits(in_features: int, out_features: int, rows: int) -> bool {
    &&& 0 <= in_features && in_features + 15 <= u32::MAX
    &&& 0 <= out_features && out_features + 15 <= u32::MAX
    &&& 0 <= rows && rows + 15 <= u32::MAX
    &&& 0 <= rows * out_features <= u32::MAX
    &&& 0 <= in_features * out_features <= u32::MAX
}

/// The buffers of a linear layer, after those of `c`: output, weight gradient,
/// and one meta for each of the three matmuls.
pub open spec fn linear_ctx(c: Seq<Init>, in_features: u32, out_features: u32, rows: u32) -> Seq<Init> {
    c.push(Init::Zeros((rows * out_features) as u32)).push(
        Init::Zeros((in_features * out_features) as u32),
    ).push(
        Init::Meta((MatMulMeta { m: rows, n: out_features, k: in_features }).spec_meta()),
    ).push(
        Init::Meta((MatMulMeta { m: rows, n: out_features, k: in_features }).spec_meta()),
    ).push(Init::Meta((MatMulMeta { m: rows, n: in_features, k: out_features }).spec_meta()))
}

/// The linear layer that `Linear::new` builds in a context holding `c`:
/// `out = input @ weight`, `grad_weight += input^T @ grad_output`, and
/// `grad_input = grad_output @ weight^T`.
pub open spec fn linear_view(
    c: Seq<Init>,
    in_features: u32,
    out_features: u32,
    rows: u32,
    weight: Tensor,
    input_buffer: Tensor,
    grad_output: Tensor,
    grad_input: Tensor,
) -> LinearView {
    let fwd = MatMulMeta { m: rows, n: out_features, k: in_features };
    let trp = MatMulMeta { m: rows, n: in_features, k: out_features };
    let out_buffer = device::next_zeros(c, rows * out_features);
    let c1 = device::push_zeros(c, rows * out_features);
    let grad_weight = device::next_zeros(c1, in_features * out_features);
    let c2 = device::push_zeros(c1, in_features * out_features);
    let c3 = device::push_meta(c2, fwd.spec_meta());
    let c4 = device::push_meta(c3, fwd.spec_meta());
    LinearView {
        weight,
        out_buffer,
        grad_weight,
        grad_input,
        forward_graph: seq![
            ops::matmul_node(
                input_buffer,
                weight,
                out_buffer,
                fwd,
                device::next_meta(c2, fwd.spec_meta()),
            ),
        ],
        backward_graph: seq![
            emit::matmul_weight_bwd_node(
                input_buffer,
                grad_output,
                grad_weight,
                fwd,
                device::next_meta(c3, fwd.spec_meta()),
            ),
            emit::matmul_trp_node(
                grad_output,
                weight,
                grad_input,
                trp,
                device::next_meta(c4, trp.spec_meta()),
            ),
        ],
    }
}

impl Linear {
    pub fn new(
        ctx: &mut Context,
        in_features: u32,
        out_features: u32,
        seq_len: u32,
        weight: Tensor,
        input_buffer: Tensor,
        grad_output: Tensor,
        grad_input: Tensor,
    ) -> (r: Self)
        requires
            linear_fits(in_features as int, out_features as int, seq_len as int),
        ensures
            final(ctx)@ == linear_ctx(old(ctx)@, in_features, out_features, seq_len),
            r@ == linear_view(
                old(ctx)@,
                in_features,
                out_features,
                seq_len,
                weight,
                input_buffer,
                grad_output,
                grad_input,
            ),
    {
        let out_buffer = ctx.zeros(seq_len * out_features);
        let grad_weight = ctx.zeros(in_features * out_features);
        let fwd = MatMulMeta { m: seq_len, n: out_features, k: in_features };
        let mut gb = GraphBuilder::train(ComputeGraph::new());
        ops::matmul(ctx, &mut gb, input_buffer, weight, out_buffer, fwd);
        let forward_graph = gb.graph;
        let mut gb = GraphBuilder::train(ComputeGraph::new());
        emit::matmul_weight_bwd(ctx, &mut gb, input_buffer, grad_output, grad_weight, fwd);
        emit::matmul_trp(
            ctx,
            &mut gb,
            grad_output,
            weight,
            grad_input,
            MatMulMeta { m: seq_len, n: in_features, k: out_features },
        );
        let backward_graph = gb.graph;
        let r = Self { weight, out_buffer, grad_weight, grad_input, forward_graph, backward_graph };
        assert(r@ =~= linear_view(
            old(ctx)@,
            in_features,
            out_features,
            seq_len,
            weight,
            input_buffer,
            grad_output,
            grad_input,
        ));
        r
    }
}

impl Layer for Linear {
    open spec fn forward_nodes(&self) -> Seq<NodeView> {
        self.forward_graph@
    }

    open spec fn backward_nodes(&self) -> Seq<NodeView> {
        self.backward_graph@
    }

    fn forward(&self) -> ComputeGraph {
        copy_graph(&self.forward_graph)
    }

    fn backward(&self) -> ComputeGraph {
        copy_graph(&self.backward_graph)
    }
}

// ---- rmsnorm ----

pub struct RMSNorm {
    pub weight: Tensor,
    pub out_buffer: Tensor,
    pub grad_weight: Tensor,
    pub grad_input: Tensor,
    pub rsqrt_cache: Tensor,
    pub forward_graph: ComputeGraph,
    pub backward_graph: ComputeGraph,
}

/// The value of an `RMSNorm`.
#[verifier::ext_equal]
pub struct RMSNormView {
    pub weight: Tensor,
    pub out_buffer: Tensor,
    pub grad_weight: Tensor,
    pub grad_input: Tensor,
    pub rsqrt_cache: Tensor,
    pub forward_graph: Seq<NodeView>,
    pub backward_graph: Seq<NodeView>,
}

impl View for RMSNorm {
    type V = RMSNormView;

    open spec fn view(&self) -> RMSNormView {
        RMSNormView {
            weight: self.weight,
            out_buffer: self.out_buffer,
            grad_weight: self.grad_weight,
            grad_input: self.grad_input,
            rsqrt_cache: self.rsqrt_cache,
            forward_graph: self.forward_graph@,
            backward_graph: self.backward_graph@,
        }
    }
}

/// The norm shape of the trainer's layers: epsilon `1e-5`.
pub open spec fn norm_shape(dim: u32, rows: u32) -> NormMeta {
    NormMeta { seq_len: rows, size: dim, eps: Scalar::Dec { digits: 1, places: 5 } }
}

/// The buffers of a norm, after those of `c`: weight gradient, output,
/// reciprocal roots, and one meta for each pass.
pub open spec fn rmsnorm_ctx(c: Seq<Init>, dim: u32, rows: u32) -> Seq<Init> {
    c.push(Init::Zeros(dim)).push(Init::Zeros((rows * dim) as u32)).push(Init::Zeros(rows)).push(
        Init::Meta(norm_shape(dim, rows).spec_meta()),
    ).push(Init::Meta(norm_shape(dim, rows).spec_meta()))
}

/// The norm that `RMSNorm::new` builds in a context holding `c`.
pub open spec fn rmsnorm_view(
    c: Seq<Init>,
    dim: u32,
    rows: u32,
    weight: Tensor,
    input_buffer: Tensor,
    grad_output: Tensor,
    grad_input: Tensor,
) -> RMSNormView {
    let shape = norm_shape(dim, rows);
    let grad_weight = device::next_zeros(c, dim as int);
    let c1 = device::push_zeros(c, dim as int);
    let out_buffer = device::next_zeros(c1, rows * dim);
    let c2 = device::push_zeros(c1, rows * dim);
    let rsqrt_cache = device::next_zeros(c2, rows as int);
    let c3 = device::push_zeros(c2, rows as int);
    let c4 = device::push_meta(c3, shape.spec_meta());
    let bwd = device::next_meta(c4, shape.spec_meta());
    RMSNormView {
        weight,
        out_buffer,
        grad_weight,
        grad_input,
        rsqrt_cache,
        forward_graph: seq![
            emit::rmsnorm_node(
                input_buffer,
                weight,
                out_buffer,
                shape,
                device::next_meta(c3, shape.spec_meta()),
            ),
        ],
        backward_graph: seq![
            emit::rmsnorm_input_bwd_node(
                grad_output,
                input_buffer,
                weight,
                grad_input,
                rsqrt_cache,
                shape,
                bwd,
            ),
            emit::rmsnorm_weight_bwd_node(
                grad_output,
                input_buffer,
                rsqrt_cache,
                grad_weight,
                shape,
                bwd,
            ),
        ],
    }
}

impl RMSNorm {
    pub fn new(
        ctx: &mut Context,
        dim: u32,
        seq_len: u32,
        weight: Tensor,
        input_buffer: Tensor,
        grad_output: Tensor,
        grad_input: Tensor,
    ) -> (r: Self)
        requires
            weight.size == dim * 4,
            dim + 255 <= u32::MAX,
            seq_len * dim <= u32::MAX,
        ensures
            final(ctx)@ == rmsnorm_ctx(old(ctx)@, dim, seq_len),
            r@ == rmsnorm_view(
                old(ctx)@,
                dim,
                seq_len,
                weight,
                input_buffer,
                grad_output,
                grad_input,
            ),
    {
        let shape = NormMeta {
            seq_len,
            size: dim,
            eps: Scalar::Dec { digits: 1, places: 5 },
        };
        let grad_weight = ctx.zeros(dim);
        let out_buffer = ctx.zeros(seq_len * dim);
        let rsqrt_cache = ctx.zeros(seq_len);
        let mut gb = GraphBuilder::train(ComputeGraph::new());
        emit::rmsnorm(ctx, &mut gb, input_buffer, weight, out_buffer, shape);
        let forward_graph = gb.graph;
        let mut gb = GraphBuilder::train(ComputeGraph::new());
        emit::rmsnorm_bwd(
            ctx,
            &mut gb,
            grad_output,
            input_buffer,
            weight,
            grad_input,
            rsqrt_cache,
            grad_weight,
            shape,
        );
        let backward_graph = gb.graph;
        let r = Self {
            weight,
            out_buffer,
            grad_weight,
            grad_input,
            rsqrt_cache,
            forward_graph,
            backward_graph,
        };
        assert(r@ =~= rmsnorm_view(
            old(ctx)@,
            dim,
            seq_len,
            weight,
            input_buffer,
            grad_output,
            grad_input,
        ));
        r
    }
}

impl Layer for RMSNorm {
    open spec fn forward_nodes(&self) -> Seq<NodeView> {
        self.forward_graph@
    }

    open spec fn backward_nodes(&self) -> Seq<NodeView> {
        self.backward_graph@
    }

    fn forward(&self) -> ComputeGraph {
        copy_graph(&self.forward_graph)
    }

    fn backward(&self) -> ComputeGraph {
        copy_graph(&self.backward_graph)
    }
}

// ---- embedding ----

pub struct Embedding {
    pub table: Tensor,
    pub grad_table: Tensor,
    pub out_buffer: Tensor,
    pub forward_graph: ComputeGraph,
    pub backward_graph: ComputeGraph,
}

/// The value of an `Embedding`.
#[verifier::ext_equal]
pub struct EmbeddingView {
    pub table: Tensor,
    pub grad_table: Tensor,
    pub out_buffer: Tensor,
    pub forward_graph: Seq<NodeView>,
    pub backward_graph: Seq<NodeView>,
}

impl View for Embedding {
    type V = EmbeddingView;

    open spec fn view(&self) -> EmbeddingView {
        EmbeddingView {
            table: self.table,
            grad_table: self.grad_table,
            out_buffer: self.out_buffer,
            forward_graph: self.forward_graph@,
            backward_graph: self.backward_graph@,
        }
    }
}

/// The buffers of an embedding, after those of `c`: table gradient, output,
/// and one meta for each pass.
pub open spec fn embedding_ctx(c: Seq<Init>, vocab_size: u32, dim: u32, rows: u32) -> Seq<Init> {
    let shape = EmbeddingMeta { vocab_size, dim, seq_len: rows };
    c.push(Init::Zeros((vocab_size * dim) as u32)).push(Init::Zeros((rows * dim) as u32)).push(
        Init::Meta(shape.spec_meta()),
    ).push(Init::Meta(shape.spec_meta()))
}

/// The embedding that `Embedding::new` builds in a context holding `c`.
pub open spec fn embedding_view(
    c: Seq<Init>,
    vocab_size: u32,
    dim: u32,
    rows: u32,
    table: Tensor,
    tokens_buffer: Tensor,
    grad_output: Tensor,
) -> EmbeddingView {
    let shape = EmbeddingMeta { vocab_size, dim, seq_len: rows };
    let grad_table = device::next_zeros(c, vocab_size * dim);
    let c1 = device::push_zeros(c, vocab_size * dim);
    let out_buffer = device::next_zeros(c1, rows * dim);
    let c2 = device::push_zeros(c1, rows * dim);
    let c3 = device::push_meta(c2, shape.spec_meta());
    EmbeddingView {
        table,
        grad_table,
        out_buffer,
        forward_graph: seq![
            emit::embedding_node(
                tokens_buffer,
                table,
                out_buffer,
                shape,
                device::next_meta(c2, shape.spec_meta()),
            ),
        ],
        backward_graph: seq![
            emit::embedding_bwd_node(
                tokens_buffer,
                grad_output,
                grad_table,
                shape,
                device::next_meta(c3, shape.spec_meta()),
            ),
        ],
    }
}

impl Embedding {
    pub fn new(
        ctx: &mut Context,
        vocab_size: u32,
        dim: u32,
        seq_len: u32,
        table: Tensor,
        tokens_buffer: Tensor,
        grad_output: Tensor,
    ) -> (r: Self)
        requires
            vocab_size * dim <= u32::MAX,
            table.size == vocab_size * dim * 4,
            dim + 255 <= u32::MAX,
            seq_len * dim <= u32::MAX,
        ensures
            final(ctx)@ == embedding_ctx(old(ctx)@, vocab_size, dim, seq_len),
            r@ == embedding_view(
                old(ctx)@,
                vocab_size,
                dim,
                seq_len,
                table,
                tokens_buffer,
                grad_output,
            ),
    {
        let shape = EmbeddingMeta { vocab_size, dim, seq_len };
        let grad_table = ctx.zeros(vocab_size * dim);
        let out_buffer = ctx.zeros(seq_len * dim);
        let mut gb = GraphBuilder::train(ComputeGraph::new());
        emit::embedding(ctx, &mut gb, tokens_buffer, table, out_buffer, shape);
        let forward_graph = gb.graph;
        let mut gb = GraphBuilder::train(ComputeGraph::new());
        emit::embedding_bwd(ctx, &mut gb, tokens_buffer, grad_output, grad_table, shape);
        let backward_graph = gb.graph;
        let r = Self { table, grad_table, out_buffer, forward_graph, backward_graph };
        assert(r@ =~= embedding_view(
            old(ctx)@,
            vocab_size,
            dim,
            seq_len,
            table,
            tokens_buffer,
            grad_output,
        ));
        r
    }
}

impl Layer for Embedding {
    open spec fn forward_nodes(&self) -> Seq<NodeView> {
        self.forward_graph@
    }

    open spec fn backward_nodes(&self) -> Seq<NodeView> {
        self.backward_graph@
    }

    fn forward(&self) -> ComputeGraph {
        copy_graph(&self.forward_graph)
    }

    fn backward(&self) -> ComputeGraph {
        copy_graph(&self.backward_graph)
    }
}

// ---- add ----

pub struct Add {
    pub in_out_buffer: Tensor,
    pub grad_a: Tensor,
    pub grad_b: Tensor,
    pub forward_graph: ComputeGraph,
    pub backward_graph: ComputeGraph,
}

/// The value of an `Add`.
#[verifier::ext_equal]
pub struct AddView {
    pub in_out_buffer: Tensor,
    pub grad_a: Tensor,
    pub grad_b: Tensor,
    pub forward_graph: Seq<NodeView>,
    pub backward_graph: Seq<NodeView>,
}

impl View for Add {
    type V = AddView;

    open spec fn view(&self) -> AddView {
        AddView {
            in_out_buffer: self.in_out_buffer,
            grad_a: self.grad_a,
            grad_b: self.grad_b,
            forward_graph: self.forward_graph@,
            backward_graph: self.backward_graph@,
        }
    }
}

/// `a += b` in place; both gradients accumulate the output's.
pub open spec fn add_view(
    length: u32,
    buf_a: Tensor,
    buf_b: Tensor,
    grad_output: Tensor,
    grad_a: Tensor,
    grad_b: Tensor,
) -> AddView {
    AddView {
        in_out_buffer: buf_a,
        grad_a,
        grad_b,
        forward_graph: seq![ops::residual_add_node(buf_a, buf_b, length)],
        backward_graph: seq![
            ops::residual_add_node(grad_a, grad_output, length),
            ops::residual_add_node(grad_b, grad_output, length),
        ],
    }
}

impl Add {
    pub fn new(
        length: u32,
        buf_a: Tensor,
        buf_b: Tensor,
        grad_output: Tensor,
        grad_a: Tensor,
        grad_b: Tensor,
    ) -> (r: Self)
        requires
            length + 255 <= u32::MAX,
        ensures
            r@ == add_view(length, buf_a, buf_b, grad_output, grad_a, grad_b),
    {
        let mut gb = GraphBuilder::train(ComputeGraph::new());
        ops::residual_add(&mut gb, buf_a, buf_b, length);
        let forward_graph = gb.graph;
        let mut gb = GraphBuilder::train(ComputeGraph::new());
        ops::residual_add(&mut gb, grad_a, grad_output, length);
        ops::residual_add(&mut gb, grad_b, grad_output, length);
        let backward_graph = gb.graph;
        let r = Self { in_out_buffer: buf_a, grad_a, grad_b, forward_graph, backward_graph };
        assert(r@ =~= add_view(length, buf_a, buf_b, grad_output, grad_a, grad_b));
        r
    }
}

impl Layer for Add {
    open spec fn forward_nodes(&self) -> Seq<NodeView> {
        self.forward_graph@
    }

    open spec fn backward_nodes(&self) -> Seq<NodeView> {
        self.backward_graph@
    }

    fn forward(&self) -> ComputeGraph {
        copy_graph(&self.forward_graph)
    }

    fn backward(&self) -> ComputeGraph {
        copy_graph(&self.backward_graph)
    }
}

// ---- silu ----

pub struct SiLU {
    pub in_out_buffer: Tensor,
    pub grad_input: Tensor,
    pub forward_graph: ComputeGraph,
    pub backward_graph: ComputeGraph,
}

/// The value of a `SiLU`.
#[verifier::ext_equal]
pub struct SiLUView {
    pub in_out_buffer: Tensor,
    pub grad_input: Tensor,
    pub forward_graph: Seq<NodeView>,
    pub backward_graph: Seq<NodeView>,
}

impl View for SiLU {
    type V = SiLUView;

    open spec fn view(&self) -> SiLUView {
        SiLUView {
            in_out_buffer: self.in_out_buffer,
            grad_input: self.grad_input,
            forward_graph: self.forward_graph@,
            backward_graph: self.backward_graph@,
        }
    }
}

pub open spec fn silu_view(
    total_elements: u32,
    input_buffer: Tensor,
    grad_output: Tensor,
    grad_input: Tensor,
) -> SiLUView {
    SiLUView {
        in_out_buffer: input_buffer,
        grad_input,
        forward_graph: seq![ops::silu_node(input_buffer, total_elements)],
        backward_graph: seq![
            ops::silu_bwd_node(input_buffer, grad_output, grad_input, total_elements),
        ],
    }
}

impl SiLU {
    pub fn new(
        total_elements: u32,
        input_buffer: Tensor,
        grad_output: Tensor,
        grad_input: Tensor,
    ) -> (r: Self)
        requires
            total_elements + 255 <= u32::MAX,
        ensures
            r@ == silu_view(total_elements, input_buffer, grad_output, grad_input),
    {
        let mut gb = GraphBuilder::train(ComputeGraph::new());
        ops::silu(&mut gb, input_buffer, total_elements);
        let forward_graph = gb.graph;
        let mut gb = GraphBuilder::train(ComputeGraph::new());
        ops::silu_bwd(&mut gb, input_buffer, grad_output, grad_input, total_elements);
        let backward_graph = gb.graph;
        let r = Self { in_out_buffer: input_buffer, grad_input, forward_graph, backward_graph };
        assert(r@ =~= silu_view(total_elements, input_buffer, grad_output, grad_input));
        r
    }
}

impl Layer for SiLU {
    open spec fn forward_nodes(&self) -> Seq<NodeView> {
        self.forward_graph@
    }

    open spec fn backward_nodes(&self) -> Seq<NodeView> {
        self.backward_graph@
    }

    fn forward(&self) -> ComputeGraph {
        copy_graph(&self.forward_graph)
    }

    fn backward(&self) -> ComputeGraph {
        copy_graph(&self.backward_graph)
    }
}

// ---- attention ----

pub struct SelfAttention {
    pub out_buffer: Tensor,
    pub forward_graph: ComputeGraph,
    pub backward_graph: ComputeGraph,
}

/// The value of a `SelfAttention`.
#[verifier::ext_equal]
pub struct SelfAttentionView {
    pub out_buffer: Tensor,
    pub forward_graph: Seq<NodeView>,
    pub backward_graph: Seq<NodeView>,
}

impl View for SelfAttention {
    type V = SelfAttentionView;

    open spec fn view(&self) -> SelfAttentionView {
        SelfAttentionView {
            out_buffer: self.out_buffer,
            forward_graph: self.forward_graph@,
            backward_graph: self.backward_graph@,
        }
    }
}

/// The attention shape of sequence `b` in a batch: it starts at row `b * seq_len`.
pub open spec fn attn_shape(seq_len: u32, dim: u32, num_heads: u32, b: int) -> FlashAttnMeta {
    let head_dim = (dim as int / num_heads as int) as u32;
    FlashAttnMeta {
        seq_len,
        dim,
        head_dim,
        scale: Scalar::RecipSqrt(head_dim),
        row_offset: (b * seq_len) as u32,
    }
}

/// The context after the forward passes of the first `n` sequences.
pub open spec fn attn_fwd_ctx(c: Seq<Init>, seq_len: u32, dim: u32, num_heads: u32, n: nat) -> Seq<Init>
    decreases n,
{
    if n == 0 {
        c
    } else {
        emit::flash_ctx(
            attn_fwd_ctx(c, seq_len, dim, num_heads, (n - 1) as nat),
            attn_shape(seq_len, dim, num_heads, n - 1),
        )
    }
}

/// What the forward pass of sequence `b` leaves for its backward pass.
pub open spec fn attn_saved(
    c: Seq<Init>,
    out: Tensor,
    seq_len: u32,
    dim: u32,
    num_heads: u32,
    b: int,
) -> FlashAttnBuffers {
    FlashAttnBuffers {
        out,
        l_cache: emit::flash_l_cache(
            attn_fwd_ctx(c, seq_len, dim, num_heads, b as nat),
            attn_shape(seq_len, dim, num_heads, b),
        ),
    }
}

/// One forward dispatch per sequence.
pub open spec fn attn_fwd_nodes(
    c: Seq<Init>,
    q_buf: Tensor,
    k_buf: Tensor,
    v_buf: Tensor,
    out: Tensor,
    seq_len: u32,
    dim: u32,
    num_heads: u32,
    n: nat,
) -> Seq<NodeView>
    decreases n,
{
    if n == 0 {
        Seq::empty()
    } else {
        let prev = attn_fwd_ctx(c, seq_len, dim, num_heads, (n - 1) as nat);
        let shape = attn_shape(seq_len, dim, num_heads, n - 1);
        attn_fwd_nodes(c, q_buf, k_buf, v_buf, out, seq_len, dim, num_heads, (n - 1) as nat).push(
            emit::flash_attention_node(
                q_buf,
                k_buf,
                v_buf,
                out,
                emit::flash_l_cache(prev, shape),
                shape,
                emit::flash_meta(prev, shape),
            ),
        )
    }
}

/// The context after the backward passes of the first `n` sequences.
pub open spec fn attn_bwd_ctx(c: Seq<Init>, seq_len: u32, dim: u32, num_heads: u32, n: nat) -> Seq<Init>
    decreases n,
{
    if n == 0 {
        c
    } else {
        device::push_meta(
            attn_bwd_ctx(c, seq_len, dim, num_heads, (n - 1) as nat),
            attn_shape(seq_len, dim, num_heads, n - 1).spec_meta(),
        )
    }
}

/// The backward dispatches of the first `n` sequences. `fwd` is the context in
/// which the forward passes started, `c` the one in which these start.
pub open spec fn attn_bwd_nodes(
    fwd: Seq<Init>,
    c: Seq<Init>,
    q_buf: Tensor,
    k_buf: Tensor,
    v_buf: Tensor,
    out: Tensor,
    grad_output: Tensor,
    grad_q: Tensor,
    grad_k: Tensor,
    grad_v: Tensor,
    seq_len: u32,
    dim: u32,
    num_heads: u32,
    n: nat,
) -> Seq<NodeView>
    decreases n,
{
    if n == 0 {
        Seq::empty()
    } else {
        attn_bwd_nodes(
            fwd,
            c,
            q_buf,
            k_buf,
            v_buf,
            out,
            grad_output,
            grad_q,
            grad_k,
            grad_v,
            seq_len,
            dim,
            num_heads,
            (n - 1) as nat,
        ) + ops::flash_bwd_nodes(
            attn_bwd_ctx(c, seq_len, dim, num_heads, (n - 1) as nat),
            q_buf,
            k_buf,
            v_buf,
            attn_saved(fwd, out, seq_len, dim, num_heads, n - 1),
            grad_output,
            grad_q,
            grad_k,
            grad_v,
            attn_shape(seq_len, dim, num_heads, n - 1),
        )
    }
}

/// The context after `SelfAttention::new`.
pub open spec fn attention_ctx(
    c: Seq<Init>,
    seq_len: u32,
    dim: u32,
    num_heads: u32,
    batch_size: u32,
) -> Seq<Init> {
    attn_bwd_ctx(
        attn_fwd_ctx(
            device::push_zeros(c, batch_size * seq_len * dim),
            seq_len,
            dim,
            num_heads,
            batch_size as nat,
        ),
        seq_len,
        dim,
        num_heads,
        batch_size as nat,
    )
}

/// The attention that `SelfAttention::new` builds in a context holding `c`.
pub open spec fn attention_view(
    c: Seq<Init>,
    seq_len: u32,
    dim: u32,
    num_heads: u32,
    batch_size: u32,
    q_buf: Tensor,
    k_buf: Tensor,
    v_buf: Tensor,
    grad_output: Tensor,
    grad_q: Tensor,
    grad_k: Tensor,
    grad_v: Tensor,
) -> SelfAttentionView {
    let out = device::next_zeros(c, batch_size * seq_len * dim);
    let c1 = device::push_zeros(c, batch_size * seq_len * dim);
    let c2 = attn_fwd_ctx(c1, seq_len, dim, num_heads, batch_size as nat);
    SelfAttentionView {
        out_buffer: out,
        forward_graph: attn_fwd_nodes(
            c1,
            q_buf,
            k_buf,
            v_buf,
            out,
            seq_len,
            dim,
            num_heads,
            batch_size as nat,
        ),
        backward_graph: attn_bwd_nodes(
            c1,
            c2,
            q_buf,
            k_buf,
            v_buf,
            out,
            grad_output,
            grad_q,
            grad_k,
            grad_v,
            seq_len,
            dim,
            num_heads,
            batch_size as nat,
        ),
    }
}

/// The sizes on which the batched attention works. Its kernels hold a head in an
/// accumulator of 128 values and take any width up to that. The kernel that `kernels::emit`
/// dispatches for prefill is another one, written for heads of 64 alone, and asks
/// for exactly that.
pub open spec fn attention_fits(seq_len: u32, dim: u32, num_heads: u32, batch_size: u32) -> bool {
    &&& num_heads > 0
    &&& dim % num_heads == 0
    &&& batch_size * seq_len <= u32::MAX
    &&& batch_size * seq_len * dim <= u32::MAX
    &&& ops::flash_fits(attn_shape(seq_len, dim, num_heads, 0))
}

pub proof fn lemma_row_offset(batch_size: u32, seq_len: u32, b: int)
    requires
        batch_size * seq_len <= u32::MAX,
        0 <= b < batch_size,
    ensures
        0 <= b * seq_len <= u32::MAX,
{
    assert(0 <= b * seq_len <= batch_size * seq_len) by (nonlinear_arith)
        requires
            0 <= b < batch_size,
            seq_len >= 0,
    ;
}

impl SelfAttention {
    pub fn new(
        ctx: &mut Context,
        seq_len: u32,
        dim: u32,
        num_heads: u32,
        batch_size: u32,
        q_buf: Tensor,
        k_buf: Tensor,
        v_buf: Tensor,
        grad_output: Tensor,
        grad_q: Tensor,
        grad_k: Tensor,
        grad_v: Tensor,
    ) -> (r: Self)
        requires
            attention_fits(seq_len, dim, num_heads, batch_size),
        ensures
            final(ctx)@ == attention_ctx(old(ctx)@, seq_len, dim, num_heads, batch_size),
            r@ == attention_view(
                old(ctx)@,
                seq_len,
                dim,
                num_heads,
                batch_size,
                q_buf,
                k_buf,
                v_buf,
                grad_output,
                grad_q,
                grad_k,
                grad_v,
            ),
    {
        let head_dim: u32 = dim / num_heads;
        let scale = Scalar::RecipSqrt(head_dim);
        let rows: u32 = batch_size * seq_len;
        let out_buffer = ctx.zeros(rows * dim);
        let ghost c1 = ctx@;
        let mut saved: Vec<FlashAttnBuffers> = Vec::new();
        let mut gb = GraphBuilder::train(ComputeGraph::new());
        let mut b: u32 = 0;
        while b < batch_size
            invariant
                b <= batch_size,
                attention_fits(seq_len, dim, num_heads, batch_size),
                head_dim == (dim as int / num_heads as int) as u32,
                scale == Scalar::RecipSqrt(head_dim),
                ctx@ == attn_fwd_ctx(c1, seq_len, dim, num_heads, b as nat),
                gb.graph@ == attn_fwd_nodes(
                    c1,
                    q_buf,
                    k_buf,
                    v_buf,
                    out_buffer,
                    seq_len,
                    dim,
                    num_heads,
                    b as nat,
                ),
                saved@.len() == b,
                forall|i: int|
                    0 <= i < b ==> saved@[i] == attn_saved(
                        c1,
                        out_buffer,
                        seq_len,
                        dim,
                        num_heads,
                        i,
                    ),
            decreases batch_size - b,
        {
            proof {
                lemma_row_offset(batch_size, seq_len, b as int);
            }
            let shape = FlashAttnMeta { seq_len, dim, head_dim, scale, row_offset: b * seq_len };
            assert(shape == attn_shape(seq_len, dim, num_heads, b as int));
            let saved_b = ops::flash_attention(ctx, &mut gb, q_buf, k_buf, v_buf, out_buffer, shape);
            saved.push(saved_b);
            b = b + 1;
        }
        let forward_graph = gb.graph;
        let ghost c2 = ctx@;
        let mut gb = GraphBuilder::train(ComputeGraph::new());
        let mut b: u32 = 0;
        while b < batch_size
            invariant
                b <= batch_size,
                attention_fits(seq_len, dim, num_heads, batch_size),
                head_dim == (dim as int / num_heads as int) as u32,
                scale == Scalar::RecipSqrt(head_dim),
                ctx@ == attn_bwd_ctx(c2, seq_len, dim, num_heads, b as nat),
                gb.graph@ == attn_bwd_nodes(
                    c1,
                    c2,
                    q_buf,
                    k_buf,
                    v_buf,
                    out_buffer,
                    grad_output,
                    grad_q,
                    grad_k,
                    grad_v,
                    seq_len,
                    dim,
                    num_heads,
                    b as nat,
                ),
                saved@.len() == batch_size,
                forall|i: int|
                    0 <= i < batch_size ==> saved@[i] == attn_saved(
                        c1,
                        out_buffer,
                        seq_len,
                        dim,
                        num_heads,
                        i,
                    ),
            decreases batch_size - b,
        {
            proof {
                lemma_row_offset(batch_size, seq_len, b as int);
            }
            let shape = FlashAttnMeta { seq_len, dim, head_dim, scale, row_offset: b * seq_len };
            assert(shape == attn_shape(seq_len, dim, num_heads, b as int));
            ops::flash_attention_bwd(
                ctx,
                &mut gb,
                q_buf,
                k_buf,
                v_buf,
                saved[b as usize],
                grad_output,
                grad_q,
                grad_k,
                grad_v,
                shape,
            );
            b = b + 1;
        }
        Self { out_buffer, forward_graph, backward_graph: gb.graph }
    }
}

impl Layer for SelfAttention {
    open spec fn forward_nodes(&self) -> Seq<NodeView> {
        self.forward_graph@
    }

    open spec fn backward_nodes(&self) -> Seq<NodeView> {
        self.backward_graph@
    }

    fn forward(&self) -> ComputeGraph {
        copy_graph(&self.forward_graph)
    }

    fn backward(&self) -> ComputeGraph {
        copy_graph(&self.backward_graph)
    }
}

// ---- cross entropy ----

pub struct CrossEntropy {
    pub seq_len: u32,
    pub target_tokens: Tensor,
    pub probs: Tensor,
    pub losses: Tensor,
    pub d_losses: Tensor,
    pub grad_logits: Tensor,
    pub forward_graph: ComputeGraph,
    pub backward_graph: ComputeGraph,
}

/// The value of a `CrossEntropy`.
#[verifier::ext_equal]
pub struct CrossEntropyView {
    pub seq_len: u32,
    pub target_tokens: Tensor,
    pub probs: Tensor,
    pub losses: Tensor,
    pub d_losses: Tensor,
    pub grad_logits: Tensor,
    pub forward_graph: Seq<NodeView>,
    pub backward_graph: Seq<NodeView>,
}

impl View for CrossEntropy {
    type V = CrossEntropyView;

    open spec fn view(&self) -> CrossEntropyView {
        CrossEntropyView {
            seq_len: self.seq_len,
            target_tokens: self.target_tokens,
            probs: self.probs,
            losses: self.losses,
            d_losses: self.d_losses,
            grad_logits: self.grad_logits,
            forward_graph: self.forward_graph@,
            backward_graph: self.backward_graph@,
        }
    }
}

/// The buffers of the loss, after those of `c`: targets, probabilities, losses,
/// loss gradients of `1 / rows` each, and one meta for each pass.
pub open spec fn cross_entropy_ctx(c: Seq<Init>, vocab_size: u32, rows: u32) -> Seq<Init> {
    let shape = CrossEntropyMeta { vocab_size, num_rows: rows };
    c.push(Init::Zeros(rows)).push(Init::Zeros((rows * vocab_size) as u32)).push(
        Init::Zeros(rows),
    ).push(Init::Fill(rows, Scalar::Recip(rows as u64))).push(Init::Meta(shape.spec_meta())).push(
        Init::Meta(shape.spec_meta()),
    )
}

/// The loss that `CrossEntropy::new` builds in a context holding `c`.
pub open spec fn cross_entropy_view(
    c: Seq<Init>,
    vocab_size: u32,
    rows: u32,
    logits: Tensor,
    grad_logits: Tensor,
) -> CrossEntropyView {
    let shape = CrossEntropyMeta { vocab_size, num_rows: rows };
    let target_tokens = device::next_zeros(c, rows as int);
    let c1 = device::push_zeros(c, rows as int);
    let probs = device::next_zeros(c1, rows * vocab_size);
    let c2 = device::push_zeros(c1, rows * vocab_size);
    let losses = device::next_zeros(c2, rows as int);
    let c3 = device::push_zeros(c2, rows as int);
    let d_losses = device::next_tensor(c3, Init::Fill(rows, Scalar::Recip(rows as u64)));
    let c4 = c3.push(Init::Fill(rows, Scalar::Recip(rows as u64)));
    let c5 = device::push_meta(c4, shape.spec_meta());
    CrossEntropyView {
        seq_len: rows,
        target_tokens,
        probs,
        losses,
        d_losses,
        grad_logits,
        forward_graph: seq![
            ops::cross_entropy_node(
                logits,
                target_tokens,
                probs,
                losses,
                shape,
                device::next_meta(c4, shape.spec_meta()),
            ),
        ],
        backward_graph: seq![
            ops::cross_entropy_bwd_node(
                probs,
                target_tokens,
                d_losses,
                grad_logits,
                shape,
                device::next_meta(c5, shape.spec_meta()),
            ),
        ],
    }
}

impl CrossEntropy {
    pub fn new(
        ctx: &mut Context,
        vocab_size: u32,
        seq_len: u32,
        logits: Tensor,
        grad_logits: Tensor,
    ) -> (r: Self)
        requires
            seq_len * vocab_size <= u32::MAX,
            seq_len + 255 <= u32::MAX,
        ensures
            final(ctx)@ == cross_entropy_ctx(old(ctx)@, vocab_size, seq_len),
            r@ == cross_entropy_view(old(ctx)@, vocab_size, seq_len, logits, grad_logits),
    {
        let target_tokens = ctx.zeros(seq_len);
        let probs = ctx.zeros(seq_len * vocab_size);
        let losses = ctx.zeros(seq_len);
        let d_losses = ctx.fill(seq_len, Scalar::Recip(seq_len as u64));
        let shape = CrossEntropyMeta { vocab_size, num_rows: seq_len };
        let mut gb = GraphBuilder::train(ComputeGraph::new());
        ops::cross_entropy(ctx, &mut gb, logits, target_tokens, probs, losses, shape);
        let forward_graph = gb.graph;
        let mut gb = GraphBuilder::train(ComputeGraph::new());
        ops::cross_entropy_bwd(ctx, &mut gb, probs, target_tokens, d_losses, grad_logits, shape);
        let backward_graph = gb.graph;
        let r = Self {
            seq_len,
            target_tokens,
            probs,
            losses,
            d_losses,
            grad_logits,
            forward_graph,
            backward_graph,
        };
        assert(r@ =~= cross_entropy_view(old(ctx)@, vocab_size, seq_len, logits, grad_logits));
        r
    }

    /// What `d_losses` is overwritten with so that every row's gradient is
    /// scaled by `scale`.
    pub fn set_grad_scale(&self, scale: Scalar) -> (r: Init)
        ensures
            r == Init::Fill(self.seq_len, scale),
    {
        Init::Fill(self.seq_len, scale)
    }
}

impl Layer for CrossEntropy {
    open spec fn forward_nodes(&self) -> Seq<NodeView> {
        self.forward_graph@
    }

    open spec fn backward_nodes(&self) -> Seq<NodeView> {
        self.backward_graph@
    }

    fn forward(&self) -> ComputeGraph {
        copy_graph(&self.forward_graph)
    }

    fn backward(&self) -> ComputeGraph {
        copy_graph(&self.backward_graph)
    }
}

} // verus!
