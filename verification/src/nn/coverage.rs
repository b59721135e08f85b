//! Grids reach every element that their kernel writes, and slices of a row neither
//! overlap nor leave a gap.
use super::kernels::emit;
use super::kernels::meta::{
    CacheWriteMeta, CrossEntropyMeta, EmbeddingMeta, FlashAttnMeta, HeadMoveMeta, MatMulMeta, NormMeta,
    RopeMeta, SoftmaxRectMeta,
};
use super::ops;
use super::pipeline;
use crate::config::ModelConfig;
use crate::device::{Kernel, Tensor};
use vstd::prelude::*;

verus! {

/// Tiles cover what they are counted for, and none is empty.
pub proof fn tiles_cover(n: int, w: int)
    requires
        0 <= n,
        0 < w,
        n + w - 1 <= u32::MAX,
    ensures
        emit::tiles(n, w) * w >= n,
        n > 0 ==> (emit::tiles(n, w) - 1) * w < n,
        n == 0 ==> emit::tiles(n, w) == 0,
{
    let q = (n + w - 1) / w;
    vstd::arithmetic::div_mod::lemma_fundamental_div_mod(n + w - 1, w);
    vstd::arithmetic::div_mod::lemma_div_pos_is_pos(n + w - 1, w);
    assert(q <= n + w - 1) by (nonlinear_arith)
        requires
            w * q <= n + w - 1,
            w >= 1,
            q >= 0,
    ;
    assert(w * q == q * w) by (nonlinear_arith);
    assert((q - 1) * w == q * w - w) by (nonlinear_arith);
    if n == 0 {
        vstd::arithmetic::div_mod::lemma_basic_div(w - 1, w);
    }
}

/// The dispatch of a matrix product reaches every entry of the `m * n` result.
pub proof fn matmul_covers(a: Tensor, b: Tensor, c: Tensor, shape: MatMulMeta, meta: Tensor)
    requires
        emit::matmul_fits(shape),
    ensures
        shape.m == 1 ==> emit::matmul_node(a, b, c, shape, meta).grid[0] * 256 >= shape.n,
        shape.m != 1 ==> emit::matmul_node(a, b, c, shape, meta).grid[0] * 16 >= shape.n
            && emit::matmul_node(a, b, c, shape, meta).grid[1] * 16 >= shape.m,
{
    tiles_cover(shape.n as int, 256);
    tiles_cover(shape.n as int, 16);
    tiles_cover(shape.m as int, 16);
}

/// The dispatches of products reach every entry of their results: `m` by `n`, and `k`
/// by `n` for a weight's gradient.
pub proof fn products_cover(a: Tensor, b: Tensor, c: Tensor, shape: MatMulMeta, meta: Tensor)
    requires
        emit::matmul_fits(shape),
        shape.k + 15 <= u32::MAX,
    ensures
        ({
            let g = emit::matmul_trp_node(a, b, c, shape, meta).grid;
            g[0] * 16 >= shape.n && g[1] * 16 >= shape.m
        }),
        ({
            let g = ops::matmul_node(a, b, c, shape, meta).grid;
            g[0] * 16 >= shape.n && g[1] * 16 >= shape.m
        }),
        ({
            let node = emit::matmul_add_node(a, b, c, shape, meta);
            &&& node.kernel == Kernel::GemvAdd ==> shape.m == 1 && node.grid[0] * 256 >= shape.n
            &&& node.kernel != Kernel::GemvAdd ==> node.grid[0] * 16 >= shape.n && node.grid[1]
                * 16 >= shape.m
        }),
        ({
            let g = emit::matmul_weight_bwd_node(a, b, c, shape, meta).grid;
            g[0] * 16 >= shape.n && g[1] * 16 >= shape.k
        }),
{
    tiles_cover(shape.n as int, 256);
    tiles_cover(shape.n as int, 16);
    tiles_cover(shape.m as int, 16);
    tiles_cover(shape.k as int, 16);
}

/// The dispatches of a norm reach every row, and every entry of its gain's gradient.
pub proof fn norms_cover(
    a: Tensor,
    b: Tensor,
    c: Tensor,
    d: Tensor,
    r: Tensor,
    shape: NormMeta,
    meta: Tensor,
)
    requires
        shape.size + 255 <= u32::MAX,
    ensures
        emit::rmsnorm_node(a, b, c, shape, meta).grid[0] == shape.seq_len,
        emit::rmsnorm_input_bwd_node(a, b, c, d, r, shape, meta).grid[0] == shape.seq_len,
        emit::rmsnorm_weight_bwd_node(a, b, r, d, shape, meta).grid[0] * 256 >= shape.size,
{
    tiles_cover(shape.size as int, 256);
}

/// The dispatches of an embedding reach every column of every row.
pub proof fn embeddings_cover(a: Tensor, b: Tensor, c: Tensor, shape: EmbeddingMeta, meta: Tensor)
    requires
        shape.dim + 255 <= u32::MAX,
    ensures
        ({
            let f = emit::embedding_node(a, b, c, shape, meta).grid;
            let g = emit::embedding_bwd_node(a, b, c, shape, meta).grid;
            &&& f[0] * 256 >= shape.dim && f[1] == shape.seq_len
            &&& g[0] * 256 >= shape.dim && g[1] == shape.seq_len
        }),
{
    tiles_cover(shape.dim as int, 256);
}

/// The dispatches that move columns reach every column of the slice in every row.
pub proof fn moves_cover(
    a: Tensor,
    b: Tensor,
    c: Tensor,
    d: Tensor,
    shape: HeadMoveMeta,
    meta: Tensor,
)
    requires
        emit::head_fits(shape),
    ensures
        ({
            let f = emit::head_gather_node(a, b, shape, meta).grid;
            f[0] * 16 >= shape.head_dim && f[1] * 16 >= shape.seq_len
        }),
        ({
            let f = emit::head_scatter_node(a, b, shape, meta).grid;
            f[0] * 16 >= shape.head_dim && f[1] * 16 >= shape.seq_len
        }),
        ({
            let f = emit::qkv_split_node(a, b, c, d, shape, meta).grid;
            f[0] * 16 >= shape.head_dim && f[1] * 16 >= shape.seq_len
        }),
        ({
            let f = emit::qkv_scatter_node(a, b, c, d, shape, meta).grid;
            f[0] * 16 >= shape.head_dim && f[1] * 16 >= shape.seq_len
        }),
{
    tiles_cover(shape.head_dim as int, 16);
    tiles_cover(shape.seq_len as int, 16);
}

/// A cache write reaches every column of every row that it writes, and a softmax every
/// row.
pub proof fn cache_dispatches_cover(
    a: Tensor,
    b: Tensor,
    write: CacheWriteMeta,
    softmax: SoftmaxRectMeta,
    meta: Tensor,
)
    requires
        emit::cache_write_fits(write),
        softmax.num_rows + 255 <= u32::MAX,
    ensures
        ({
            let g = emit::cache_write_node(a, b, write, meta).grid;
            g[0] * 16 >= write.width && g[1] * 16 >= write.row_count
        }),
        emit::softmax_rect_node(a, softmax, meta).grid[0] * 256 >= softmax.num_rows,
{
    tiles_cover(write.width as int, 16);
    tiles_cover(write.row_count as int, 16);
    tiles_cover(softmax.num_rows as int, 256);
}

/// The loss reaches every row, and its backward pass every logit of every row.
pub proof fn losses_cover(a: Tensor, b: Tensor, c: Tensor, shape: CrossEntropyMeta, meta: Tensor)
    requires
        shape.vocab_size + 255 <= u32::MAX,
    ensures
        emit::cross_entropy_node(a, b, c, shape, meta).grid[0] == shape.num_rows,
        ({
            let g = emit::cross_entropy_bwd_node(a, b, c, shape, meta).grid;
            g[0] * 256 >= shape.vocab_size && g[1] == shape.num_rows
        }),
{
    tiles_cover(shape.vocab_size as int, 256);
}

/// The rotation reaches every pair of columns of every head in every row.
pub proof fn rope_covers(shape: RopeMeta)
    requires
        emit::rope_fits(shape),
        shape.dim % shape.head_dim == 0,
    ensures
        emit::spec_grid_full(shape)[0] * 16 >= shape.head_dim as int / 2,
        emit::spec_grid_full(shape)[1] * 16 >= shape.seq_len,
        emit::spec_grid_full(shape)[2] * shape.head_dim == shape.dim,
{
    tiles_cover(shape.head_dim as int / 2, 16);
    tiles_cover(shape.seq_len as int, 16);
    let (d, h) = (shape.dim as int, shape.head_dim as int);
    vstd::arithmetic::div_mod::lemma_fundamental_div_mod(d, h);
    assert(0 <= d / h <= d) by (nonlinear_arith)
        requires
            h * (d / h) == d,
            h >= 1,
            d >= 0,
    ;
    assert(h * (d / h) == (d / h) * h) by (nonlinear_arith);
}

/// Attention reaches every row of every head.
pub proof fn flash_covers(shape: FlashAttnMeta)
    requires
        emit::flash_fits(shape),
    ensures
        emit::spec_grid_flash(shape)[0] * 64 >= shape.seq_len,
        emit::spec_grid_flash(shape)[1] * shape.head_dim == shape.dim,
{
    tiles_cover(shape.seq_len as int, 64);
}

/// An elementwise grid is at most `MAX_GRID_X` wide and reaches every element.
pub proof fn elementwise_covers(len: u32)
    requires
        len + 255 <= u32::MAX,
    ensures
        1 <= emit::spec_grid256_2d(len)[0] <= emit::MAX_GRID_X,
        emit::spec_grid256_2d(len)[0] * emit::spec_grid256_2d(len)[1] * 256 >= len,
{
    let total = emit::tiles(len as int, 256) as int;
    tiles_cover(len as int, 256);
    let x = emit::spec_grid256_2d(len)[0] as int;
    let y = emit::spec_grid256_2d(len)[1] as int;
    tiles_cover(total, x);
    assert(x * y == y * x) by (nonlinear_arith);
}

/// Every column of a row belongs to exactly one head.
pub proof fn heads_partition_columns(seq_len: u32, dim: u32, num_heads: u32, col: int)
    requires
        ops::causal_fits(seq_len, dim, num_heads),
        0 <= col < dim,
    ensures
        ({
            let hd = ops::spec_head_dim(dim, num_heads) as int;
            let h = col / hd;
            &&& 0 <= h < num_heads
            &&& in_slice(ops::head_slice(seq_len, dim, num_heads, h), col)
            &&& forall|g: int|
                0 <= g < num_heads && #[trigger] in_slice(
                    ops::head_slice(seq_len, dim, num_heads, g),
                    col,
                ) ==> g == h
        }),
{
    ops::lemma_head_sizes(seq_len, dim, num_heads, 0);
    let hd = ops::spec_head_dim(dim, num_heads) as int;
    let n = num_heads as int;
    assert(hd > 0) by (nonlinear_arith)
        requires
            n * hd == dim as int,
            dim > 0,
            hd >= 0,
    ;
    let h = col / hd;
    vstd::arithmetic::div_mod::lemma_fundamental_div_mod(col, hd);
    assert(0 <= h < n) by (nonlinear_arith)
        requires
            0 <= col < n * hd,
            col == hd * h + col % hd,
            0 <= col % hd < hd,
            hd > 0,
    ;
    assert(hd * h == h * hd) by (nonlinear_arith);
    ops::lemma_head_sizes(seq_len, dim, num_heads, h);
    assert forall|g: int|
        0 <= g < num_heads && #[trigger] in_slice(
            ops::head_slice(seq_len, dim, num_heads, g),
            col,
        ) implies g == h by {
        ops::lemma_head_sizes(seq_len, dim, num_heads, g);
        assert(g == h) by (nonlinear_arith)
            requires
                g * hd <= col < g * hd + hd,
                h * hd <= col < h * hd + hd,
                hd > 0,
        ;
    }
}

/// Column `col` of a row lies in the slice.
pub open spec fn in_slice(m: HeadMoveMeta, col: int) -> bool {
    m.head_offset <= col < m.head_offset + m.head_dim
}

/// Every column of a fused row belongs to exactly one of Q, K and V.
pub proof fn roles_partition_columns(cfg: ModelConfig, col: int)
    requires
        3 * cfg.dim <= u32::MAX,
        0 <= col < 3 * cfg.dim,
    ensures
        exists|i: int| 0 <= i < 3 && #[trigger] in_slice(pipeline::role(cfg, i), col),
        forall|i: int, j: int|
            0 <= i < 3 && 0 <= j < 3 && #[trigger] in_slice(pipeline::role(cfg, i), col)
                && #[trigger] in_slice(pipeline::role(cfg, j), col) ==> i == j,
{
    let d = cfg.dim as int;
    if col < d {
        assert(in_slice(pipeline::role(cfg, 0), col));
    } else if col < 2 * d {
        assert(in_slice(pipeline::role(cfg, 1), col));
    } else {
        assert(in_slice(pipeline::role(cfg, 2), col));
    }
}

} // verus!
