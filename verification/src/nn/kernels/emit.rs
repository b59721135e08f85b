//! One emitter per kernel: each appends its dispatch to a graph.
use super::meta::{
    CacheWriteMeta, CrossEntropyMeta, EmbeddingMeta, FlashAttnMeta, GradNormMeta, GradSumSqMeta,
    HeadMoveMeta, KernelMeta, MatMulMeta, NormMeta, RopeMeta, RopeOffsetMeta, SoftmaxRectMeta,
    ZeroMeta,
};
use super::{CachedPhase, Decode, FullSeqPhase, FwdPhase, GraphBuilder, Phase, Train};
use crate::device;
use crate::device::{Context, Kernel, NodeView, Tensor};
use vstd::prelude::*;

verus! {

/// Number of `w`-wide tiles that cover `n` elements.
pub open spec fn tiles(n: int, w: int) -> u32 {
    ((n + w - 1) / w) as u32
}

// ---- matmul ----

pub open spec fn spec_grid_nm(shape: MatMulMeta) -> Seq<u32> {
    seq![tiles(shape.n as int, 16), tiles(shape.m as int, 16), 1u32]
}

/// The sizes whose tile counts can be computed in 32 bits.
pub open spec fn matmul_fits(shape: MatMulMeta) -> bool {
    shape.n + 255 <= u32::MAX && shape.m + 15 <= u32::MAX
}

pub fn grid_nm(shape: MatMulMeta) -> (r: [u32; 3])
    requires
        shape.n + 15 <= u32::MAX,
        shape.m + 15 <= u32::MAX,
    ensures
        r@ == spec_grid_nm(shape),
{
    [(shape.n + 15) / 16, (shape.m + 15) / 16, 1]
}

/// The dispatch of `C = A @ B`: a single row goes to the flat GEMV kernel.
pub open spec fn matmul_node(
    a: Tensor,
    b: Tensor,
    c: Tensor,
    shape: MatMulMeta,
    meta: Tensor,
) -> NodeView {
    if shape.m == 1 {
        NodeView {
            kernel: Kernel::Gemv,
            buffers: seq![a, b, c, meta],
            grid: seq![tiles(shape.n as int, 256), 1u32, 1u32],
        }
    } else {
        NodeView {
            kernel: Kernel::MatMul,
            buffers: seq![a, b, c, meta],
            grid: spec_grid_nm(shape),
        }
    }
}

/// `C[m,n] = A[m,k] @ B[k,n]`. m=1 (decode) routes to the flat GEMV kernel;
/// the tiled matmul would idle 15/16 of every workgroup on a single row.
pub fn matmul_with<P: FwdPhase>(
    gb: &mut GraphBuilder<P>,
    a: Tensor,
    b: Tensor,
    c: Tensor,
    shape: MatMulMeta,
    meta: Tensor,
)
    requires
        matmul_fits(shape),
    ensures
        final(gb).graph@ == old(gb).graph@.push(matmul_node(a, b, c, shape, meta)),
{
    if shape.m == 1 {
        gb.graph.add_node(Kernel::Gemv, vec![a, b, c, meta], [(shape.n + 255) / 256, 1, 1]);
    } else {
        gb.graph.add_node(Kernel::MatMul, vec![a, b, c, meta], grid_nm(shape));
    }
}

/// `C[m,n] = A[m,k] @ B[k,n]`
pub fn matmul<P: FwdPhase>(
    ctx: &mut Context,
    gb: &mut GraphBuilder<P>,
    a: Tensor,
    b: Tensor,
    c: Tensor,
    shape: MatMulMeta,
)
    requires
        matmul_fits(shape),
    ensures
        final(ctx)@ == device::push_meta(old(ctx)@, shape.spec_meta()),
        final(gb).graph@ == old(gb).graph@.push(
            matmul_node(a, b, c, shape, device::next_meta(old(ctx)@, shape.spec_meta())),
        ),
{
    let meta = shape.upload(ctx);
    matmul_with(gb, a, b, c, shape, meta);
}

/// The dispatch of `C = A @ B^T`.
pub open spec fn matmul_trp_node(
    a: Tensor,
    b: Tensor,
    c: Tensor,
    shape: MatMulMeta,
    meta: Tensor,
) -> NodeView {
    NodeView {
        kernel: Kernel::MatMulTrp,
        buffers: seq![a, b, c, meta],
        grid: spec_grid_nm(shape),
    }
}

/// `C[m,n] = A[m,k] @ B[n,k]^T`
pub fn matmul_trp_with<P: FwdPhase>(
    gb: &mut GraphBuilder<P>,
    a: Tensor,
    b: Tensor,
    c: Tensor,
    shape: MatMulMeta,
    meta: Tensor,
)
    requires
        shape.n + 15 <= u32::MAX,
        shape.m + 15 <= u32::MAX,
    ensures
        final(gb).graph@ == old(gb).graph@.push(matmul_trp_node(a, b, c, shape, meta)),
{
    gb.graph.add_node(Kernel::MatMulTrp, vec![a, b, c, meta], grid_nm(shape));
}

/// `C[m,n] = A[m,k] @ B[n,k]^T`
pub fn matmul_trp<P: FwdPhase>(
    ctx: &mut Context,
    gb: &mut GraphBuilder<P>,
    a: Tensor,
    b: Tensor,
    c: Tensor,
    shape: MatMulMeta,
)
    requires
        shape.n + 15 <= u32::MAX,
        shape.m + 15 <= u32::MAX,
    ensures
        final(ctx)@ == device::push_meta(old(ctx)@, shape.spec_meta()),
        final(gb).graph@ == old(gb).graph@.push(
            matmul_trp_node(a, b, c, shape, device::next_meta(old(ctx)@, shape.spec_meta())),
        ),
{
    let meta = shape.upload(ctx);
    matmul_trp_with(gb, a, b, c, shape, meta);
}

/// The dispatch of `C += A @ B`: a single row goes to the flat GEMV kernel.
pub open spec fn matmul_add_node(
    a: Tensor,
    b: Tensor,
    c: Tensor,
    shape: MatMulMeta,
    meta: Tensor,
) -> NodeView {
    if shape.m == 1 {
        NodeView {
            kernel: Kernel::GemvAdd,
            buffers: seq![a, b, c, meta],
            grid: seq![tiles(shape.n as int, 256), 1u32, 1u32],
        }
    } else {
        NodeView {
            kernel: Kernel::MatMulAdd,
            buffers: seq![a, b, c, meta],
            grid: spec_grid_nm(shape),
        }
    }
}

/// `C[m,n] += A[m,k] @ B[k,n]` (fused residual, `c` accumulates).
pub fn matmul_add_with<P: FwdPhase>(
    gb: &mut GraphBuilder<P>,
    a: Tensor,
    b: Tensor,
    c: Tensor,
    shape: MatMulMeta,
    meta: Tensor,
)
    requires
        matmul_fits(shape),
    ensures
        final(gb).graph@ == old(gb).graph@.push(matmul_add_node(a, b, c, shape, meta)),
{
    if shape.m == 1 {
        gb.graph.add_node(Kernel::GemvAdd, vec![a, b, c, meta], [(shape.n + 255) / 256, 1, 1]);
    } else {
        gb.graph.add_node(Kernel::MatMulAdd, vec![a, b, c, meta], grid_nm(shape));
    }
}

/// `C[m,n] += A[m,k] @ B[k,n]`
pub fn matmul_add<P: FwdPhase>(
    ctx: &mut Context,
    gb: &mut GraphBuilder<P>,
    a: Tensor,
    b: Tensor,
    c: Tensor,
    shape: MatMulMeta,
)
    requires
        matmul_fits(shape),
    ensures
        final(ctx)@ == device::push_meta(old(ctx)@, shape.spec_meta()),
        final(gb).graph@ == old(gb).graph@.push(
            matmul_add_node(a, b, c, shape, device::next_meta(old(ctx)@, shape.spec_meta())),
        ),
{
    let meta = shape.upload(ctx);
    matmul_add_with(gb, a, b, c, shape, meta);
}

/// The dispatch of `dW += A^T @ dY`.
pub open spec fn matmul_weight_bwd_node(
    input: Tensor,
    grad_output: Tensor,
    grad_weight: Tensor,
    shape: MatMulMeta,
    meta: Tensor,
) -> NodeView {
    NodeView {
        kernel: Kernel::MatMulWeightBwd,
        buffers: seq![input, grad_output, grad_weight, meta],
        grid: seq![tiles(shape.n as int, 16), tiles(shape.k as int, 16), 1u32],
    }
}

/// `dW[k,n] += A[m,k]^T @ dY[m,n]` -- accumulates, zero `grad_weight` first.
pub fn matmul_weight_bwd(
    ctx: &mut Context,
    gb: &mut GraphBuilder<Train>,
    input: Tensor,
    grad_output: Tensor,
    grad_weight: Tensor,
    shape: MatMulMeta,
)
    requires
        shape.n + 15 <= u32::MAX,
        shape.k + 15 <= u32::MAX,
    ensures
        final(ctx)@ == device::push_meta(old(ctx)@, shape.spec_meta()),
        final(gb).graph@ == old(gb).graph@.push(
            matmul_weight_bwd_node(input, grad_output, grad_weight, shape, device::next_meta(old(ctx)@, shape.spec_meta())),
        ),
{
    let meta = shape.upload(ctx);
    gb.graph.add_node(
        Kernel::MatMulWeightBwd,
        vec![input, grad_output, grad_weight, meta],
        [(shape.n + 15) / 16, (shape.k + 15) / 16, 1],
    );
}

// ---- norm ----

pub open spec fn rmsnorm_node(
    input: Tensor,
    weight: Tensor,
    output: Tensor,
    shape: NormMeta,
    meta: Tensor,
) -> NodeView {
    NodeView {
        kernel: Kernel::RmsNorm,
        buffers: seq![input, weight, output, meta],
        grid: seq![shape.seq_len, 1u32, 1u32],
    }
}

/// One workgroup per row.
pub fn rmsnorm_with<P: FwdPhase>(
    gb: &mut GraphBuilder<P>,
    input: Tensor,
    weight: Tensor,
    output: Tensor,
    shape: NormMeta,
    meta: Tensor,
)
    ensures
        final(gb).graph@ == old(gb).graph@.push(rmsnorm_node(input, weight, output, shape, meta)),
{
    gb.graph.add_node(Kernel::RmsNorm, vec![input, weight, output, meta], [shape.seq_len, 1, 1]);
}

/// One workgroup per row.
pub fn rmsnorm<P: FwdPhase>(
    ctx: &mut Context,
    gb: &mut GraphBuilder<P>,
    input: Tensor,
    weight: Tensor,
    output: Tensor,
    shape: NormMeta,
)
    ensures
        final(ctx)@ == device::push_meta(old(ctx)@, shape.spec_meta()),
        final(gb).graph@ == old(gb).graph@.push(
            rmsnorm_node(input, weight, output, shape, device::next_meta(old(ctx)@, shape.spec_meta())),
        ),
{
    let meta = shape.upload(ctx);
    rmsnorm_with(gb, input, weight, output, shape, meta);
}

pub open spec fn rmsnorm_input_bwd_node(
    grad_output: Tensor,
    input: Tensor,
    weight: Tensor,
    grad_input: Tensor,
    rsqrt_cache: Tensor,
    shape: NormMeta,
    meta: Tensor,
) -> NodeView {
    NodeView {
        kernel: Kernel::RmsNormBwd,
        buffers: seq![grad_output, input, weight, grad_input, rsqrt_cache, meta],
        grid: seq![shape.seq_len, 1u32, 1u32],
    }
}

pub open spec fn rmsnorm_weight_bwd_node(
    grad_output: Tensor,
    input: Tensor,
    rsqrt_cache: Tensor,
    grad_weight: Tensor,
    shape: NormMeta,
    meta: Tensor,
) -> NodeView {
    NodeView {
        kernel: Kernel::RmsNormWeightBwd,
        buffers: seq![grad_output, input, rsqrt_cache, grad_weight, meta],
        grid: seq![tiles(shape.size as int, 256), 1u32, 1u32],
    }
}

/// Both backward nodes (input grad + weight grad, linked by `rsqrt_cache`).
pub fn rmsnorm_bwd(
    ctx: &mut Context,
    gb: &mut GraphBuilder<Train>,
    grad_output: Tensor,
    input: Tensor,
    weight: Tensor,
    grad_input: Tensor,
    rsqrt_cache: Tensor,
    grad_weight: Tensor,
    shape: NormMeta,
)
    requires
        shape.size + 255 <= u32::MAX,
    ensures
        final(ctx)@ == device::push_meta(old(ctx)@, shape.spec_meta()),
        ({
            let meta = device::next_meta(old(ctx)@, shape.spec_meta());
            final(gb).graph@ == old(gb).graph@.push(
                rmsnorm_input_bwd_node(grad_output, input, weight, grad_input, rsqrt_cache, shape, meta),
            ).push(
                rmsnorm_weight_bwd_node(grad_output, input, rsqrt_cache, grad_weight, shape, meta),
            )
        }),
{
    let meta = shape.upload(ctx);
    gb.graph.add_node(
        Kernel::RmsNormBwd,
        vec![grad_output, input, weight, grad_input, rsqrt_cache, meta],
        [shape.seq_len, 1, 1],
    );
    gb.graph.add_node(
        Kernel::RmsNormWeightBwd,
        vec![grad_output, input, rsqrt_cache, grad_weight, meta],
        [(shape.size + 255) / 256, 1, 1],
    );
}

// ---- embedding ----

pub open spec fn spec_grid_embedding(shape: EmbeddingMeta) -> Seq<u32> {
    seq![tiles(shape.dim as int, 256), shape.seq_len, 1u32]
}

pub fn grid_embedding(shape: EmbeddingMeta) -> (r: [u32; 3])
    requires
        shape.dim + 255 <= u32::MAX,
    ensures
        r@ == spec_grid_embedding(shape),
{
    [(shape.dim + 255) / 256, shape.seq_len, 1]
}

pub open spec fn embedding_node(
    tokens: Tensor,
    table: Tensor,
    output: Tensor,
    shape: EmbeddingMeta,
    meta: Tensor,
) -> NodeView {
    NodeView {
        kernel: Kernel::Embedding,
        buffers: seq![tokens, table, output, meta],
        grid: spec_grid_embedding(shape),
    }
}

/// Looks up one table row per token.
pub fn embedding_with<P: FwdPhase>(
    gb: &mut GraphBuilder<P>,
    tokens: Tensor,
    table: Tensor,
    output: Tensor,
    shape: EmbeddingMeta,
    meta: Tensor,
)
    requires
        shape.dim + 255 <= u32::MAX,
    ensures
        final(gb).graph@ == old(gb).graph@.push(embedding_node(tokens, table, output, shape, meta)),
{
    gb.graph.add_node(Kernel::Embedding, vec![tokens, table, output, meta], grid_embedding(shape));
}

/// Looks up one table row per token.
pub fn embedding<P: FwdPhase>(
    ctx: &mut Context,
    gb: &mut GraphBuilder<P>,
    tokens: Tensor,
    table: Tensor,
    output: Tensor,
    shape: EmbeddingMeta,
)
    requires
        shape.dim + 255 <= u32::MAX,
    ensures
        final(ctx)@ == device::push_meta(old(ctx)@, shape.spec_meta()),
        final(gb).graph@ == old(gb).graph@.push(
            embedding_node(tokens, table, output, shape, device::next_meta(old(ctx)@, shape.spec_meta())),
        ),
{
    let meta = shape.upload(ctx);
    embedding_with(gb, tokens, table, output, shape, meta);
}

pub open spec fn embedding_bwd_node(
    tokens: Tensor,
    grad_output: Tensor,
    grad_table: Tensor,
    shape: EmbeddingMeta,
    meta: Tensor,
) -> NodeView {
    NodeView {
        kernel: Kernel::EmbeddingBwd,
        buffers: seq![tokens, grad_output, grad_table, meta],
        grid: spec_grid_embedding(shape),
    }
}

/// Adds each row's gradient to its token's table row.
pub fn embedding_bwd(
    ctx: &mut Context,
    gb: &mut GraphBuilder<Train>,
    tokens: Tensor,
    grad_output: Tensor,
    grad_table: Tensor,
    shape: EmbeddingMeta,
)
    requires
        shape.dim + 255 <= u32::MAX,
    ensures
        final(ctx)@ == device::push_meta(old(ctx)@, shape.spec_meta()),
        final(gb).graph@ == old(gb).graph@.push(
            embedding_bwd_node(tokens, grad_output, grad_table, shape, device::next_meta(old(ctx)@, shape.spec_meta())),
        ),
{
    let meta = shape.upload(ctx);
    gb.graph.add_node(
        Kernel::EmbeddingBwd,
        vec![tokens, grad_output, grad_table, meta],
        grid_embedding(shape),
    );
}

// ---- rope ----

fn inout_meta_node<P: Phase>(
    gb: &mut GraphBuilder<P>,
    kernel: Kernel,
    buf: Tensor,
    meta: Tensor,
    grid: [u32; 3],
)
    requires
        device::layout(kernel).len() == 2,
    ensures
        final(gb).graph@ == old(gb).graph@.push(
            (NodeView { kernel, buffers: seq![buf, meta], grid: grid@ }),
        ),
{
    gb.graph.add_node(kernel, vec![buf, meta], grid);
}

/// The shapes on which full-sequence rope works.
pub open spec fn rope_fits(shape: RopeMeta) -> bool {
    shape.head_dim > 0 && shape.seq_len + 15 <= u32::MAX
}

pub open spec fn spec_grid_full(shape: RopeMeta) -> Seq<u32> {
    seq![
        tiles(shape.head_dim as int / 2, 16),
        tiles(shape.seq_len as int, 16),
        (shape.dim as int / shape.head_dim as int) as u32,
    ]
}

pub fn grid_full(shape: RopeMeta) -> (r: [u32; 3])
    requires
        rope_fits(shape),
    ensures
        r@ == spec_grid_full(shape),
{
    [(shape.head_dim / 2 + 15) / 16, (shape.seq_len + 15) / 16, shape.dim / shape.head_dim]
}

pub open spec fn rope_node(buf: Tensor, shape: RopeMeta, meta: Tensor) -> NodeView {
    NodeView { kernel: Kernel::Rope, buffers: seq![buf, meta], grid: spec_grid_full(shape) }
}

pub open spec fn rope_bwd_node(grad: Tensor, shape: RopeMeta, meta: Tensor) -> NodeView {
    NodeView { kernel: Kernel::RopeBwd, buffers: seq![grad, meta], grid: spec_grid_full(shape) }
}

/// Rotates every row of `buf` in place.
pub fn rope<P: FullSeqPhase>(
    ctx: &mut Context,
    gb: &mut GraphBuilder<P>,
    buf: Tensor,
    shape: RopeMeta,
)
    requires
        rope_fits(shape),
    ensures
        final(ctx)@ == device::push_meta(old(ctx)@, shape.spec_meta()),
        final(gb).graph@ == old(gb).graph@.push(
            rope_node(buf, shape, device::next_meta(old(ctx)@, shape.spec_meta())),
        ),
{
    let meta = shape.upload(ctx);
    inout_meta_node(gb, Kernel::Rope, buf, meta, grid_full(shape));
}

/// Rotates every row of `grad` back in place.
pub fn rope_bwd(
    ctx: &mut Context,
    gb: &mut GraphBuilder<Train>,
    grad: Tensor,
    shape: RopeMeta,
)
    requires
        rope_fits(shape),
    ensures
        final(ctx)@ == device::push_meta(old(ctx)@, shape.spec_meta()),
        final(gb).graph@ == old(gb).graph@.push(
            rope_bwd_node(grad, shape, device::next_meta(old(ctx)@, shape.spec_meta())),
        ),
{
    let meta = shape.upload(ctx);
    inout_meta_node(gb, Kernel::RopeBwd, grad, meta, grid_full(shape));
}

pub open spec fn rope_offset_node(buf: Tensor, shape: RopeOffsetMeta, meta: Tensor) -> NodeView {
    NodeView {
        kernel: Kernel::RopeOffset,
        buffers: seq![buf, meta],
        grid: seq![
            tiles(shape.head_dim as int / 2, 16),
            1u32,
            (shape.dim as int / shape.head_dim as int) as u32,
        ],
    }
}

/// Rotates one row at an absolute position.
pub fn rope_offset_with(
    gb: &mut GraphBuilder<Decode>,
    buf: Tensor,
    shape: RopeOffsetMeta,
    meta: Tensor,
)
    requires
        shape.head_dim > 0,
    ensures
        final(gb).graph@ == old(gb).graph@.push(rope_offset_node(buf, shape, meta)),
{
    inout_meta_node(
        gb,
        Kernel::RopeOffset,
        buf,
        meta,
        [(shape.head_dim / 2 + 15) / 16, 1, shape.dim / shape.head_dim],
    );
}

pub open spec fn rope_qk_node(q_buf: Tensor, k_buf: Tensor, shape: RopeMeta, meta: Tensor) -> NodeView {
    NodeView {
        kernel: Kernel::RopeQk,
        buffers: seq![q_buf, k_buf, meta],
        grid: spec_grid_full(shape),
    }
}

pub open spec fn rope_bwd_qk_node(
    grad_q: Tensor,
    grad_k: Tensor,
    shape: RopeMeta,
    meta: Tensor,
) -> NodeView {
    NodeView {
        kernel: Kernel::RopeBwdQk,
        buffers: seq![grad_q, grad_k, meta],
        grid: spec_grid_full(shape),
    }
}

/// Rotates Q and K in one dispatch.
pub fn rope_qk<P: FullSeqPhase>(
    ctx: &mut Context,
    gb: &mut GraphBuilder<P>,
    q_buf: Tensor,
    k_buf: Tensor,
    shape: RopeMeta,
)
    requires
        rope_fits(shape),
    ensures
        final(ctx)@ == device::push_meta(old(ctx)@, shape.spec_meta()),
        final(gb).graph@ == old(gb).graph@.push(
            rope_qk_node(q_buf, k_buf, shape, device::next_meta(old(ctx)@, shape.spec_meta())),
        ),
{
    let meta = shape.upload(ctx);
    gb.graph.add_node(Kernel::RopeQk, vec![q_buf, k_buf, meta], grid_full(shape));
}

/// Rotates both gradients back in one dispatch.
pub fn rope_bwd_qk(
    ctx: &mut Context,
    gb: &mut GraphBuilder<Train>,
    grad_q: Tensor,
    grad_k: Tensor,
    shape: RopeMeta,
)
    requires
        rope_fits(shape),
    ensures
        final(ctx)@ == device::push_meta(old(ctx)@, shape.spec_meta()),
        final(gb).graph@ == old(gb).graph@.push(
            rope_bwd_qk_node(grad_q, grad_k, shape, device::next_meta(old(ctx)@, shape.spec_meta())),
        ),
{
    let meta = shape.upload(ctx);
    gb.graph.add_node(Kernel::RopeBwdQk, vec![grad_q, grad_k, meta], grid_full(shape));
}

// ---- head_move ----

pub open spec fn spec_grid_head(shape: HeadMoveMeta) -> Seq<u32> {
    seq![tiles(shape.head_dim as int, 16), tiles(shape.seq_len as int, 16), 1u32]
}

/// The shapes whose tile counts can be computed in 32 bits.
pub open spec fn head_fits(shape: HeadMoveMeta) -> bool {
    shape.head_dim + 15 <= u32::MAX && shape.seq_len + 15 <= u32::MAX
}

pub fn grid_head(shape: HeadMoveMeta) -> (r: [u32; 3])
    requires
        head_fits(shape),
    ensures
        r@ == spec_grid_head(shape),
{
    [(shape.head_dim + 15) / 16, (shape.seq_len + 15) / 16, 1]
}

pub open spec fn spec_move_node(
    kernel: Kernel,
    src: Tensor,
    dst: Tensor,
    shape: HeadMoveMeta,
    meta: Tensor,
) -> NodeView {
    NodeView { kernel, buffers: seq![src, dst, meta], grid: spec_grid_head(shape) }
}

pub open spec fn head_gather_node(
    src: Tensor,
    dst: Tensor,
    shape: HeadMoveMeta,
    meta: Tensor,
) -> NodeView {
    spec_move_node(Kernel::HeadGather, src, dst, shape, meta)
}

pub open spec fn head_scatter_node(
    src: Tensor,
    dst: Tensor,
    shape: HeadMoveMeta,
    meta: Tensor,
) -> NodeView {
    spec_move_node(Kernel::HeadScatter, src, dst, shape, meta)
}

fn move_node<P: Phase>(
    gb: &mut GraphBuilder<P>,
    kernel: Kernel,
    src: Tensor,
    dst: Tensor,
    shape: HeadMoveMeta,
    meta: Tensor,
)
    requires
        head_fits(shape),
        device::layout(kernel).len() == 3,
    ensures
        final(gb).graph@ == old(gb).graph@.push(spec_move_node(kernel, src, dst, shape, meta)),
{
    gb.graph.add_node(kernel, vec![src, dst, meta], grid_head(shape));
}

/// wide `src` -> compact `dst`
pub fn head_gather_with<P: FwdPhase>(
    gb: &mut GraphBuilder<P>,
    src: Tensor,
    dst: Tensor,
    shape: HeadMoveMeta,
    meta: Tensor,
)
    requires
        head_fits(shape),
    ensures
        final(gb).graph@ == old(gb).graph@.push(head_gather_node(src, dst, shape, meta)),
{
    move_node(gb, Kernel::HeadGather, src, dst, shape, meta);
}

/// compact `src` -> wide `dst`
pub fn head_scatter_with<P: FwdPhase>(
    gb: &mut GraphBuilder<P>,
    src: Tensor,
    dst: Tensor,
    shape: HeadMoveMeta,
    meta: Tensor,
)
    requires
        head_fits(shape),
    ensures
        final(gb).graph@ == old(gb).graph@.push(head_scatter_node(src, dst, shape, meta)),
{
    move_node(gb, Kernel::HeadScatter, src, dst, shape, meta);
}

/// wide `src` -> compact `dst`
pub fn head_gather<P: FwdPhase>(
    ctx: &mut Context,
    gb: &mut GraphBuilder<P>,
    src: Tensor,
    dst: Tensor,
    shape: HeadMoveMeta,
)
    requires
        head_fits(shape),
    ensures
        final(ctx)@ == device::push_meta(old(ctx)@, shape.spec_meta()),
        final(gb).graph@ == old(gb).graph@.push(
            head_gather_node(src, dst, shape, device::next_meta(old(ctx)@, shape.spec_meta())),
        ),
{
    let meta = shape.upload(ctx);
    head_gather_with(gb, src, dst, shape, meta);
}

/// compact `src` -> wide `dst`
pub fn head_scatter<P: FwdPhase>(
    ctx: &mut Context,
    gb: &mut GraphBuilder<P>,
    src: Tensor,
    dst: Tensor,
    shape: HeadMoveMeta,
)
    requires
        head_fits(shape),
    ensures
        final(ctx)@ == device::push_meta(old(ctx)@, shape.spec_meta()),
        final(gb).graph@ == old(gb).graph@.push(
            head_scatter_node(src, dst, shape, device::next_meta(old(ctx)@, shape.spec_meta())),
        ),
{
    let meta = shape.upload(ctx);
    head_scatter_with(gb, src, dst, shape, meta);
}

pub open spec fn qkv_split_node(
    src: Tensor,
    q_buf: Tensor,
    k_buf: Tensor,
    v_buf: Tensor,
    shape: HeadMoveMeta,
    meta: Tensor,
) -> NodeView {
    NodeView {
        kernel: Kernel::QkvSplit,
        buffers: seq![src, q_buf, k_buf, v_buf, meta],
        grid: spec_grid_head(shape),
    }
}

pub open spec fn qkv_scatter_node(
    grad_q: Tensor,
    grad_k: Tensor,
    grad_v: Tensor,
    dst: Tensor,
    shape: HeadMoveMeta,
    meta: Tensor,
) -> NodeView {
    NodeView {
        kernel: Kernel::QkvScatter,
        buffers: seq![grad_q, grad_k, grad_v, dst, meta],
        grid: spec_grid_head(shape),
    }
}

/// Splits a fused QKV buffer into its three roles.
pub fn qkv_split<P: FwdPhase>(
    ctx: &mut Context,
    gb: &mut GraphBuilder<P>,
    src: Tensor,
    q_buf: Tensor,
    k_buf: Tensor,
    v_buf: Tensor,
    shape: HeadMoveMeta,
)
    requires
        head_fits(shape),
    ensures
        final(ctx)@ == device::push_meta(old(ctx)@, shape.spec_meta()),
        final(gb).graph@ == old(gb).graph@.push(
            qkv_split_node(src, q_buf, k_buf, v_buf, shape, device::next_meta(old(ctx)@, shape.spec_meta())),
        ),
{
    let meta = shape.upload(ctx);
    gb.graph.add_node(Kernel::QkvSplit, vec![src, q_buf, k_buf, v_buf, meta], grid_head(shape));
}

/// Joins the three role gradients into one fused buffer.
pub fn qkv_scatter<P: FwdPhase>(
    ctx: &mut Context,
    gb: &mut GraphBuilder<P>,
    grad_q: Tensor,
    grad_k: Tensor,
    grad_v: Tensor,
    dst: Tensor,
    shape: HeadMoveMeta,
)
    requires
        head_fits(shape),
    ensures
        final(ctx)@ == device::push_meta(old(ctx)@, shape.spec_meta()),
        final(gb).graph@ == old(gb).graph@.push(
            qkv_scatter_node(grad_q, grad_k, grad_v, dst, shape, device::next_meta(old(ctx)@, shape.spec_meta())),
        ),
{
    let meta = shape.upload(ctx);
    gb.graph.add_node(Kernel::QkvScatter, vec![grad_q, grad_k, grad_v, dst, meta], grid_head(shape));
}

// ---- attention ----

pub open spec fn attn_qk_cached_node(
    q: Tensor,
    k_cache: Tensor,
    scores: Tensor,
    num_heads: u32,
    max_attn_len: u32,
    meta: Tensor,
) -> NodeView {
    NodeView {
        kernel: Kernel::AttnQkCached,
        buffers: seq![q, k_cache, scores, meta],
        grid: seq![tiles(max_attn_len as int, 256), num_heads, 1u32],
    }
}

/// Decode QK^T for all heads in one dispatch, K read strided from the cache.
pub fn attn_qk_cached_with(
    gb: &mut GraphBuilder<Decode>,
    q: Tensor,
    k_cache: Tensor,
    scores: Tensor,
    num_heads: u32,
    max_attn_len: u32,
    meta: Tensor,
)
    requires
        max_attn_len + 255 <= u32::MAX,
    ensures
        final(gb).graph@ == old(gb).graph@.push(
            attn_qk_cached_node(q, k_cache, scores, num_heads, max_attn_len, meta),
        ),
{
    gb.graph.add_node(
        Kernel::AttnQkCached,
        vec![q, k_cache, scores, meta],
        [(max_attn_len + 255) / 256, num_heads, 1],
    );
}

pub open spec fn attn_av_cached_node(
    scores: Tensor,
    v_cache: Tensor,
    out: Tensor,
    dim: u32,
    meta: Tensor,
) -> NodeView {
    NodeView {
        kernel: Kernel::AttnAvCached,
        buffers: seq![scores, v_cache, out, meta],
        grid: seq![tiles(dim as int, 256), 1u32, 1u32],
    }
}

/// Decode P@V for all heads in one dispatch, V read strided from the cache.
pub fn attn_av_cached_with(
    gb: &mut GraphBuilder<Decode>,
    scores: Tensor,
    v_cache: Tensor,
    out: Tensor,
    dim: u32,
    meta: Tensor,
)
    requires
        dim + 255 <= u32::MAX,
    ensures
        final(gb).graph@ == old(gb).graph@.push(
            attn_av_cached_node(scores, v_cache, out, dim, meta),
        ),
{
    gb.graph.add_node(
        Kernel::AttnAvCached,
        vec![scores, v_cache, out, meta],
        [(dim + 255) / 256, 1, 1],
    );
}

pub open spec fn softmax_rect_node(scores: Tensor, shape: SoftmaxRectMeta, meta: Tensor) -> NodeView {
    NodeView {
        kernel: Kernel::SoftmaxRect,
        buffers: seq![scores, meta],
        grid: seq![tiles(shape.num_rows as int, 256), 1u32, 1u32],
    }
}

/// Scaled softmax, in place; no mask (decode cache only contains past).
pub fn softmax_rect_with(
    gb: &mut GraphBuilder<Decode>,
    scores: Tensor,
    shape: SoftmaxRectMeta,
    meta: Tensor,
)
    requires
        shape.num_rows + 255 <= u32::MAX,
    ensures
        final(gb).graph@ == old(gb).graph@.push(softmax_rect_node(scores, shape, meta)),
{
    inout_meta_node(gb, Kernel::SoftmaxRect, scores, meta, [(shape.num_rows + 255) / 256, 1, 1]);
}

// ---- flash attention ----

/// Number of heads of the shape.
pub open spec fn flash_heads(shape: FlashAttnMeta) -> int {
    shape.dim as int / shape.head_dim as int
}

pub open spec fn spec_grid_flash(shape: FlashAttnMeta) -> Seq<u32> {
    seq![tiles(shape.seq_len as int, 64), flash_heads(shape) as u32, 1u32]
}

/// The shapes that the flash kernels accept: 64-wide heads that divide `dim`,
/// and sizes that fit in 32 bits. The width is fixed in the kernels, which would
/// read other widths wrongly without a sign of it.
pub open spec fn flash_fits(shape: FlashAttnMeta) -> bool {
    &&& shape.head_dim == 64
    &&& shape.dim % 64 == 0
    &&& shape.seq_len + 63 <= u32::MAX
    &&& shape.seq_len * flash_heads(shape) <= u32::MAX
}

pub fn grid_flash(shape: FlashAttnMeta) -> (r: [u32; 3])
    requires
        shape.head_dim > 0,
        shape.seq_len + 63 <= u32::MAX,
    ensures
        r@ == spec_grid_flash(shape),
{
    let num_heads: u32 = shape.dim / shape.head_dim;
    [(shape.seq_len + 63) / 64, num_heads, 1]
}

/// What the forward kernel leaves for the backward one.
#[derive(Clone, Copy, Debug, PartialEq, Eq, Structural)]
pub struct FlashAttnBuffers {
    pub out: Tensor,
    pub l_cache: Tensor,
}

pub open spec fn flash_attention_node(
    q_buf: Tensor,
    k_buf: Tensor,
    v_buf: Tensor,
    out: Tensor,
    l_cache: Tensor,
    shape: FlashAttnMeta,
    meta: Tensor,
) -> NodeView {
    NodeView {
        kernel: Kernel::FlashAttention,
        buffers: seq![q_buf, k_buf, v_buf, out, l_cache, meta],
        grid: spec_grid_flash(shape),
    }
}

/// The context after a flash forward: a log-sum row per head, then the meta.
pub open spec fn flash_ctx(c: Seq<device::Init>, shape: FlashAttnMeta) -> Seq<device::Init> {
    device::push_meta(
        device::push_zeros(c, shape.seq_len * flash_heads(shape)),
        shape.spec_meta(),
    )
}

/// The log-sum buffer of a flash forward that starts in `c`.
pub open spec fn flash_l_cache(c: Seq<device::Init>, shape: FlashAttnMeta) -> Tensor {
    device::next_zeros(c, shape.seq_len * flash_heads(shape))
}

/// The meta buffer of a flash forward that starts in `c`.
pub open spec fn flash_meta(c: Seq<device::Init>, shape: FlashAttnMeta) -> Tensor {
    device::next_meta(
        device::push_zeros(c, shape.seq_len * flash_heads(shape)),
        shape.spec_meta(),
    )
}

/// Causal attention of every head in one dispatch.
pub fn flash_attention<P: FullSeqPhase>(
    ctx: &mut Context,
    gb: &mut GraphBuilder<P>,
    q_buf: Tensor,
    k_buf: Tensor,
    v_buf: Tensor,
    out_buffer: Tensor,
    shape: FlashAttnMeta,
) -> (r: FlashAttnBuffers)
    requires
        flash_fits(shape),
    ensures
        final(ctx)@ == flash_ctx(old(ctx)@, shape),
        r == (FlashAttnBuffers { out: out_buffer, l_cache: flash_l_cache(old(ctx)@, shape) }),
        final(gb).graph@ == old(gb).graph@.push(
            flash_attention_node(
                q_buf,
                k_buf,
                v_buf,
                out_buffer,
                flash_l_cache(old(ctx)@, shape),
                shape,
                flash_meta(old(ctx)@, shape),
            ),
        ),
{
    let num_heads: u32 = shape.dim / shape.head_dim;
    let l_cache = ctx.zeros(shape.seq_len * num_heads);
    let meta = shape.upload(ctx);
    gb.graph.add_node(
        Kernel::FlashAttention,
        vec![q_buf, k_buf, v_buf, out_buffer, l_cache, meta],
        grid_flash(shape),
    );
    FlashAttnBuffers { out: out_buffer, l_cache }
}

/// The context after a flash backward: the meta, then a row sum per head.
pub open spec fn flash_bwd_ctx(c: Seq<device::Init>, shape: FlashAttnMeta) -> Seq<device::Init> {
    device::push_zeros(
        device::push_meta(c, shape.spec_meta()),
        shape.seq_len * flash_heads(shape),
    )
}

/// The three dispatches of a flash backward that starts in `c`: the row sums
/// `D = sum(dO * O)` first, then the two kernels that read them.
pub open spec fn flash_bwd_nodes(
    c: Seq<device::Init>,
    q_buf: Tensor,
    k_buf: Tensor,
    v_buf: Tensor,
    saved: FlashAttnBuffers,
    grad_output: Tensor,
    grad_q: Tensor,
    grad_k: Tensor,
    grad_v: Tensor,
    shape: FlashAttnMeta,
) -> Seq<NodeView> {
    let meta = device::next_meta(c, shape.spec_meta());
    let d_sum = device::next_zeros(
        device::push_meta(c, shape.spec_meta()),
        shape.seq_len * flash_heads(shape),
    );
    seq![
        NodeView {
            kernel: Kernel::FlashAttentionBwdD,
            buffers: seq![grad_output, saved.out, d_sum, meta],
            grid: spec_grid_flash(shape),
        },
        NodeView {
            kernel: Kernel::FlashAttentionBwdDq,
            buffers: seq![q_buf, k_buf, v_buf, d_sum, grad_output, saved.l_cache, grad_q, meta],
            grid: spec_grid_flash(shape),
        },
        NodeView {
            kernel: Kernel::FlashAttentionBwdDkDv,
            buffers: seq![
                q_buf,
                k_buf,
                v_buf,
                d_sum,
                grad_output,
                saved.l_cache,
                grad_k,
                grad_v,
                meta,
            ],
            grid: spec_grid_flash(shape),
        },
    ]
}

/// Gradients of Q, K and V.
pub fn flash_attention_bwd(
    ctx: &mut Context,
    gb: &mut GraphBuilder<Train>,
    q_buf: Tensor,
    k_buf: Tensor,
    v_buf: Tensor,
    saved: FlashAttnBuffers,
    grad_output: Tensor,
    grad_q: Tensor,
    grad_k: Tensor,
    grad_v: Tensor,
    shape: FlashAttnMeta,
)
    requires
        flash_fits(shape),
    ensures
        final(ctx)@ == flash_bwd_ctx(old(ctx)@, shape),
        final(gb).graph@ == old(gb).graph@ + flash_bwd_nodes(
            old(ctx)@,
            q_buf,
            k_buf,
            v_buf,
            saved,
            grad_output,
            grad_q,
            grad_k,
            grad_v,
            shape,
        ),
{
    let meta = shape.upload(ctx);
    let grid = grid_flash(shape);
    let num_heads: u32 = shape.dim / shape.head_dim;
    let d_sum = ctx.zeros(shape.seq_len * num_heads);
    gb.graph.add_node(
        Kernel::FlashAttentionBwdD,
        vec![grad_output, saved.out, d_sum, meta],
        grid,
    );
    gb.graph.add_node(
        Kernel::FlashAttentionBwdDq,
        vec![q_buf, k_buf, v_buf, d_sum, grad_output, saved.l_cache, grad_q, meta],
        grid,
    );
    gb.graph.add_node(
        Kernel::FlashAttentionBwdDkDv,
        vec![q_buf, k_buf, v_buf, d_sum, grad_output, saved.l_cache, grad_k, grad_v, meta],
        grid,
    );
}

// ---- cache ----

pub open spec fn cache_write_node(
    src: Tensor,
    cache: Tensor,
    shape: CacheWriteMeta,
    meta: Tensor,
) -> NodeView {
    NodeView {
        kernel: Kernel::CacheWrite,
        buffers: seq![src, cache, meta],
        grid: seq![tiles(shape.width as int, 16), tiles(shape.row_count as int, 16), 1u32],
    }
}

pub open spec fn cache_write_fits(shape: CacheWriteMeta) -> bool {
    shape.width + 15 <= u32::MAX && shape.row_count + 15 <= u32::MAX
}

/// Appends the rows of `src` to `cache`.
pub fn cache_write_with<P: CachedPhase>(
    gb: &mut GraphBuilder<P>,
    src: Tensor,
    cache: Tensor,
    shape: CacheWriteMeta,
    meta: Tensor,
)
    requires
        cache_write_fits(shape),
    ensures
        final(gb).graph@ == old(gb).graph@.push(cache_write_node(src, cache, shape, meta)),
{
    gb.graph.add_node(Kernel::CacheWrite, vec![src, cache, meta], [(shape.width + 15) / 16, (shape.row_count + 15) / 16, 1]);
}

/// Appends the rows of `src` to `cache`.
pub fn cache_write<P: CachedPhase>(
    ctx: &mut Context,
    gb: &mut GraphBuilder<P>,
    src: Tensor,
    cache: Tensor,
    shape: CacheWriteMeta,
)
    requires
        cache_write_fits(shape),
    ensures
        final(ctx)@ == device::push_meta(old(ctx)@, shape.spec_meta()),
        final(gb).graph@ == old(gb).graph@.push(
            cache_write_node(src, cache, shape, device::next_meta(old(ctx)@, shape.spec_meta())),
        ),
{
    let meta = shape.upload(ctx);
    cache_write_with(gb, src, cache, shape, meta);
}

// ---- elementwise ----

/// Most workgroups that one grid row holds.
pub const MAX_GRID_X: u32 = 8192;

/// A grid of at least `ceil(len / 256)` workgroups, at most `MAX_GRID_X` wide.
pub open spec fn spec_grid256_2d(len: u32) -> Seq<u32> {
    let total = tiles(len as int, 256) as int;
    let x = if total < 1 {
        1int
    } else if total > MAX_GRID_X {
        MAX_GRID_X as int
    } else {
        total
    };
    seq![x as u32, tiles(total, x), 1u32]
}

/// The kernel linearizes its workgroup as `wg.y * num_wg.x + wg.x`.
pub fn grid256_2d(len: u32) -> (r: [u32; 3])
    requires
        len + 255 <= u32::MAX,
    ensures
        r@ == spec_grid256_2d(len),
{
    let total: u32 = (len + 255) / 256;
    let x: u32 = if total < 1 {
        1
    } else if total > MAX_GRID_X {
        MAX_GRID_X
    } else {
        total
    };
    [x, (total + x - 1) / x, 1]
}

pub open spec fn silu_node(buf: Tensor, len: u32) -> NodeView {
    NodeView {
        kernel: Kernel::Silu,
        buffers: seq![buf],
        grid: spec_grid256_2d(len),
    }
}

/// SiLU in place.
pub fn silu<P: FwdPhase>(
    gb: &mut GraphBuilder<P>,
    buf: Tensor,
    len: u32,
)
    requires
        len + 255 <= u32::MAX,
    ensures
        final(gb).graph@ == old(gb).graph@.push(silu_node(buf, len)),
{
    let buffers = vec![buf];
    assert(buffers@ =~= seq![buf]);
    gb.graph.add_node(Kernel::Silu, buffers, grid256_2d(len));
}

pub open spec fn silu_out_node(input: Tensor, out: Tensor, len: u32) -> NodeView {
    NodeView {
        kernel: Kernel::SiluOut,
        buffers: seq![input, out],
        grid: spec_grid256_2d(len),
    }
}

/// `out = silu(input)`
pub fn silu_out<P: FwdPhase>(
    gb: &mut GraphBuilder<P>,
    input: Tensor,
    out: Tensor,
    len: u32,
)
    requires
        len + 255 <= u32::MAX,
    ensures
        final(gb).graph@ == old(gb).graph@.push(silu_out_node(input, out, len)),
{
    gb.graph.add_node(Kernel::SiluOut, vec![input, out], grid256_2d(len));
}

pub open spec fn silu_bwd_node(input: Tensor, grad_output: Tensor, grad_input: Tensor, len: u32) -> NodeView {
    NodeView {
        kernel: Kernel::SiluBwd,
        buffers: seq![input, grad_output, grad_input],
        grid: spec_grid256_2d(len),
    }
}

/// `input` is the pre-activation buffer saved by the forward pass.
pub fn silu_bwd(
    gb: &mut GraphBuilder<Train>,
    input: Tensor,
    grad_output: Tensor,
    grad_input: Tensor,
    len: u32,
)
    requires
        len + 255 <= u32::MAX,
    ensures
        final(gb).graph@ == old(gb).graph@.push(silu_bwd_node(input, grad_output, grad_input, len)),
{
    gb.graph.add_node(Kernel::SiluBwd, vec![input, grad_output, grad_input], grid256_2d(len));
}

pub open spec fn residual_add_node(target: Tensor, source: Tensor, len: u32) -> NodeView {
    NodeView {
        kernel: Kernel::ResidualAdd,
        buffers: seq![target, source],
        grid: spec_grid256_2d(len),
    }
}

/// `target += source`
pub fn residual_add<P: FwdPhase>(
    gb: &mut GraphBuilder<P>,
    target: Tensor,
    source: Tensor,
    len: u32,
)
    requires
        len + 255 <= u32::MAX,
    ensures
        final(gb).graph@ == old(gb).graph@.push(residual_add_node(target, source, len)),
{
    gb.graph.add_node(Kernel::ResidualAdd, vec![target, source], grid256_2d(len));
}

pub open spec fn add_out_node(a: Tensor, b: Tensor, out: Tensor, len: u32) -> NodeView {
    NodeView {
        kernel: Kernel::Add,
        buffers: seq![a, b, out],
        grid: spec_grid256_2d(len),
    }
}

/// `out = a + b`
pub fn add_out<P: FwdPhase>(
    gb: &mut GraphBuilder<P>,
    a: Tensor,
    b: Tensor,
    out: Tensor,
    len: u32,
)
    requires
        len + 255 <= u32::MAX,
    ensures
        final(gb).graph@ == old(gb).graph@.push(add_out_node(a, b, out, len)),
{
    gb.graph.add_node(Kernel::Add, vec![a, b, out], grid256_2d(len));
}

pub open spec fn add_inplace_bwd_node(target: Tensor, source: Tensor, len: u32) -> NodeView {
    NodeView {
        kernel: Kernel::BwdAddInplace,
        buffers: seq![target, source],
        grid: spec_grid256_2d(len),
    }
}

/// `target += source`, backward kernel (keeps a fusion barrier).
pub fn add_inplace_bwd(
    gb: &mut GraphBuilder<Train>,
    target: Tensor,
    source: Tensor,
    len: u32,
)
    requires
        len + 255 <= u32::MAX,
    ensures
        final(gb).graph@ == old(gb).graph@.push(add_inplace_bwd_node(target, source, len)),
{
    gb.graph.add_node(Kernel::BwdAddInplace, vec![target, source], grid256_2d(len));
}

// ---- grad clip ----

/// Number of partial sums that `len` elements give: one per 256, from 1 to 256.
pub open spec fn spec_grad_sumsq_wgs(len: u32) -> u32 {
    let t = tiles(len as int, 256);
    if t < 1 {
        1u32
    } else if t > 256 {
        256u32
    } else {
        t
    }
}

pub fn grad_sumsq_wgs(len: u32) -> (r: u32)
    requires
        len + 255 <= u32::MAX,
    ensures
        r == spec_grad_sumsq_wgs(len),
{
    let t: u32 = (len + 255) / 256;
    if t < 1 {
        1
    } else if t > 256 {
        256
    } else {
        t
    }
}

pub open spec fn grad_sumsq_node(
    grad: Tensor,
    partials: Tensor,
    shape: GradSumSqMeta,
    meta: Tensor,
) -> NodeView {
    NodeView {
        kernel: Kernel::GradSumSq,
        buffers: seq![grad, partials, meta],
        grid: seq![spec_grad_sumsq_wgs(shape.len), 1u32, 1u32],
    }
}

pub open spec fn grad_norm_scale_node(
    partials: Tensor,
    scale: Tensor,
    shape: GradNormMeta,
    meta: Tensor,
) -> NodeView {
    NodeView {
        kernel: Kernel::GradNormScale,
        buffers: seq![partials, scale, meta],
        grid: seq![1u32, 1u32, 1u32],
    }
}

pub open spec fn grad_scale_node(grad: Tensor, scale: Tensor, len: u32, meta: Tensor) -> NodeView {
    NodeView {
        kernel: Kernel::GradScale,
        buffers: seq![grad, scale, meta],
        grid: spec_grid256_2d(len),
    }
}

/// Partial sums of squares of one gradient.
pub fn grad_sumsq(
    ctx: &mut Context,
    gb: &mut GraphBuilder<Train>,
    grad: Tensor,
    partials: Tensor,
    shape: GradSumSqMeta,
)
    requires
        shape.len + 255 <= u32::MAX,
    ensures
        final(ctx)@ == device::push_meta(old(ctx)@, shape.spec_meta()),
        final(gb).graph@ == old(gb).graph@.push(
            grad_sumsq_node(grad, partials, shape, device::next_meta(old(ctx)@, shape.spec_meta())),
        ),
{
    let meta = shape.upload(ctx);
    gb.graph.add_node(Kernel::GradSumSq, vec![grad, partials, meta], [grad_sumsq_wgs(shape.len), 1, 1]);
}

/// The factor that clips the total norm.
pub fn grad_norm_scale(
    ctx: &mut Context,
    gb: &mut GraphBuilder<Train>,
    partials: Tensor,
    scale: Tensor,
    shape: GradNormMeta,
)
    ensures
        final(ctx)@ == device::push_meta(old(ctx)@, shape.spec_meta()),
        final(gb).graph@ == old(gb).graph@.push(
            grad_norm_scale_node(partials, scale, shape, device::next_meta(old(ctx)@, shape.spec_meta())),
        ),
{
    let meta = shape.upload(ctx);
    gb.graph.add_node(Kernel::GradNormScale, vec![partials, scale, meta], [1, 1, 1]);
}

/// Multiplies one gradient by the clip factor.
pub fn grad_scale(
    ctx: &mut Context,
    gb: &mut GraphBuilder<Train>,
    grad: Tensor,
    scale: Tensor,
    len: u32,
)
    requires
        len + 255 <= u32::MAX,
    ensures
        final(ctx)@ == device::push_meta(old(ctx)@, (ZeroMeta { len }).spec_meta()),
        final(gb).graph@ == old(gb).graph@.push(
            grad_scale_node(
                grad,
                scale,
                len,
                device::next_meta(old(ctx)@, (ZeroMeta { len }).spec_meta()),
            ),
        ),
{
    let meta = (ZeroMeta { len }).upload(ctx);
    gb.graph.add_node(Kernel::GradScale, vec![grad, scale, meta], grid256_2d(len));
}

// ---- loss ----

pub open spec fn cross_entropy_node(
    logits: Tensor,
    target_tokens: Tensor,
    losses: Tensor,
    shape: CrossEntropyMeta,
    meta: Tensor,
) -> NodeView {
    NodeView {
        kernel: Kernel::CrossEntropy,
        buffers: seq![logits, target_tokens, losses, meta],
        grid: seq![shape.num_rows, 1u32, 1u32],
    }
}

pub open spec fn cross_entropy_bwd_node(
    probs: Tensor,
    target_tokens: Tensor,
    d_losses: Tensor,
    shape: CrossEntropyMeta,
    meta: Tensor,
) -> NodeView {
    NodeView {
        kernel: Kernel::CrossEntropyBwd,
        buffers: seq![probs, target_tokens, d_losses, meta],
        grid: seq![tiles(shape.vocab_size as int, 256), shape.num_rows, 1u32],
    }
}

/// Per-row losses; `logits` become probabilities in place.
pub fn cross_entropy(
    ctx: &mut Context,
    gb: &mut GraphBuilder<Train>,
    logits: Tensor,
    target_tokens: Tensor,
    losses: Tensor,
    shape: CrossEntropyMeta,
)
    ensures
        final(ctx)@ == device::push_meta(old(ctx)@, shape.spec_meta()),
        final(gb).graph@ == old(gb).graph@.push(
            cross_entropy_node(logits, target_tokens, losses, shape, device::next_meta(old(ctx)@, shape.spec_meta())),
        ),
{
    let meta = shape.upload(ctx);
    gb.graph.add_node(
        Kernel::CrossEntropy,
        vec![logits, target_tokens, losses, meta],
        [shape.num_rows, 1, 1],
    );
}

/// `probs` become logit gradients in place.
pub fn cross_entropy_bwd(
    ctx: &mut Context,
    gb: &mut GraphBuilder<Train>,
    probs: Tensor,
    target_tokens: Tensor,
    d_losses: Tensor,
    shape: CrossEntropyMeta,
)
    requires
        shape.vocab_size + 255 <= u32::MAX,
    ensures
        final(ctx)@ == device::push_meta(old(ctx)@, shape.spec_meta()),
        final(gb).graph@ == old(gb).graph@.push(
            cross_entropy_bwd_node(probs, target_tokens, d_losses, shape, device::next_meta(old(ctx)@, shape.spec_meta())),
        ),
{
    let meta = shape.upload(ctx);
    gb.graph.add_node(
        Kernel::CrossEntropyBwd,
        vec![probs, target_tokens, d_losses, meta],
        [(shape.vocab_size + 255) / 256, shape.num_rows, 1],
    );
}

} // verus!
