//! Emitters of the trainer's layers. They differ from the shared kernels in
//! their grids (elementwise kernels run on one grid row), in the tiled matmul
//! for every row count, and in keeping probabilities and logits apart.
use super::kernels::emit;
use super::kernels::emit::{head_gather, head_scatter, matmul_trp, FlashAttnBuffers};
use super::kernels::meta::{
    AttnScaleMeta, CrossEntropyMeta, FlashAttnMeta, HeadMoveMeta, KernelMeta, MatMulMeta, ZeroMeta,
};
use super::kernels::{FullSeqPhase, FwdPhase, GraphBuilder, Train};
use crate::device;
use crate::device::{Context, Init, Kernel, NodeView, Scalar, Tensor};
use vstd::prelude::*;

verus! {

// ---- matmul ----

/// The dispatch of `C = A @ B` on the tiled kernel.
pub open spec fn matmul_node(
    a: Tensor,
    b: Tensor,
    c: Tensor,
    shape: MatMulMeta,
    meta: Tensor,
) -> NodeView {
    NodeView {
        kernel: Kernel::MatMul,
        buffers: seq![a, b, c, meta],
        grid: emit::spec_grid_nm(shape),
    }
}

/// `C[m,n] = A[m,k] @ B[k,n]`
pub fn matmul_with<P: FwdPhase>(
    gb: &mut GraphBuilder<P>,
    a: Tensor,
    b: Tensor,
    c: Tensor,
    shape: MatMulMeta,
    meta: Tensor,
)
    requires
        shape.n + 15 <= u32::MAX,
        shape.m + 15 <= u32::MAX,
    ensures
        final(gb).graph@ == old(gb).graph@.push(matmul_node(a, b, c, shape, meta)),
{
    gb.graph.add_node(Kernel::MatMul, vec![a, b, c, meta], emit::grid_nm(shape));
}

/// `C[m,n] = A[m,k] @ B[k,n]`
pub fn matmul<P: FwdPhase>(
    ctx: &mut Context,
    gb: &mut GraphBuilder<P>,
    a: Tensor,
    b: Tensor,
    c: Tensor,
    shape: MatMulMeta,
)
    requires
        shape.n + 15 <= u32::MAX,
        shape.m + 15 <= u32::MAX,
    ensures
        final(ctx)@ == device::push_meta(old(ctx)@, shape.spec_meta()),
        final(gb).graph@ == old(gb).graph@.push(
            matmul_node(a, b, c, shape, device::next_meta(old(ctx)@, shape.spec_meta())),
        ),
{
    let meta = shape.upload(ctx);
    matmul_with(gb, a, b, c, shape, meta);
}

// ---- attention ----

pub open spec fn causal_softmax_node(scores: Tensor, shape: AttnScaleMeta, meta: Tensor) -> NodeView {
    NodeView {
        kernel: Kernel::CausalSoftmax,
        buffers: seq![scores, meta],
        grid: seq![emit::tiles(shape.seq_len as int, 256), 1u32, 1u32],
    }
}

/// Fused causal-mask + scale + softmax, in place.
pub fn causal_softmax_with<P: FullSeqPhase>(
    gb: &mut GraphBuilder<P>,
    scores: Tensor,
    shape: AttnScaleMeta,
    meta: Tensor,
)
    requires
        shape.seq_len + 255 <= u32::MAX,
    ensures
        final(gb).graph@ == old(gb).graph@.push(causal_softmax_node(scores, shape, meta)),
{
    gb.graph.add_node(
        Kernel::CausalSoftmax,
        vec![scores, meta],
        [(shape.seq_len + 255) / 256, 1, 1],
    );
}

/// Fused causal-mask + scale + softmax, in place.
pub fn causal_softmax<P: FullSeqPhase>(
    ctx: &mut Context,
    gb: &mut GraphBuilder<P>,
    scores: Tensor,
    shape: AttnScaleMeta,
)
    requires
        shape.seq_len + 255 <= u32::MAX,
    ensures
        final(ctx)@ == device::push_meta(old(ctx)@, shape.spec_meta()),
        final(gb).graph@ == old(gb).graph@.push(
            causal_softmax_node(scores, shape, device::next_meta(old(ctx)@, shape.spec_meta())),
        ),
{
    let meta = shape.upload(ctx);
    causal_softmax_with(gb, scores, shape, meta);
}

pub open spec fn softmax_bwd_node(
    y: Tensor,
    grad_y: Tensor,
    grad_raw: Tensor,
    shape: AttnScaleMeta,
    meta: Tensor,
) -> NodeView {
    NodeView {
        kernel: Kernel::SoftmaxBwd,
        buffers: seq![y, grad_y, grad_raw, meta],
        grid: seq![emit::tiles(shape.seq_len as int, 256), 1u32, 1u32],
    }
}

/// Gradient of the scaled softmax.
pub fn softmax_bwd_with(
    gb: &mut GraphBuilder<Train>,
    y: Tensor,
    grad_y: Tensor,
    grad_raw: Tensor,
    shape: AttnScaleMeta,
    meta: Tensor,
)
    requires
        shape.seq_len + 255 <= u32::MAX,
    ensures
        final(gb).graph@ == old(gb).graph@.push(
            softmax_bwd_node(y, grad_y, grad_raw, shape, meta),
        ),
{
    gb.graph.add_node(
        Kernel::SoftmaxBwd,
        vec![y, grad_y, grad_raw, meta],
        [(shape.seq_len + 255) / 256, 1, 1],
    );
}

/// Gradient of the scaled softmax.
pub fn softmax_bwd(
    ctx: &mut Context,
    gb: &mut GraphBuilder<Train>,
    y: Tensor,
    grad_y: Tensor,
    grad_raw: Tensor,
    shape: AttnScaleMeta,
)
    requires
        shape.seq_len + 255 <= u32::MAX,
    ensures
        final(ctx)@ == device::push_meta(old(ctx)@, shape.spec_meta()),
        final(gb).graph@ == old(gb).graph@.push(
            softmax_bwd_node(
                y,
                grad_y,
                grad_raw,
                shape,
                device::next_meta(old(ctx)@, shape.spec_meta()),
            ),
        ),
{
    let meta = shape.upload(ctx);
    softmax_bwd_with(gb, y, grad_y, grad_raw, shape, meta);
}

/// Saved per-head activations; the train backward pass reads these.
pub struct CausalAttnBuffers {
    pub q_heads: Vec<Tensor>,
    pub k_heads: Vec<Tensor>,
    pub v_heads: Vec<Tensor>,
    pub scores_heads: Vec<Tensor>,
}

/// The sizes on which per-head attention works.
pub open spec fn causal_fits(seq_len: u32, dim: u32, num_heads: u32) -> bool {
    &&& num_heads > 0
    &&& dim % num_heads == 0
    &&& dim + 15 <= u32::MAX
    &&& seq_len + 255 <= u32::MAX
    &&& seq_len * seq_len <= u32::MAX
    &&& seq_len * dim + 255 <= u32::MAX
}

/// Width of one head.
pub open spec fn spec_head_dim(dim: u32, num_heads: u32) -> u32 {
    (dim as int / num_heads as int) as u32
}

/// Where head `h` lies in a `dim`-wide row.
pub open spec fn head_slice(seq_len: u32, dim: u32, num_heads: u32, h: int) -> HeadMoveMeta {
    HeadMoveMeta {
        seq_len,
        full_dim: dim,
        head_dim: spec_head_dim(dim, num_heads),
        head_offset: (h * spec_head_dim(dim, num_heads)) as u32,
    }
}

/// The sizes of one head are within those of the whole row.
pub proof fn lemma_head_sizes(seq_len: u32, dim: u32, num_heads: u32, h: int)
    requires
        causal_fits(seq_len, dim, num_heads),
        0 <= h < num_heads,
    ensures
        spec_head_dim(dim, num_heads) == dim as int / num_heads as int,
        num_heads * spec_head_dim(dim, num_heads) == dim,
        spec_head_dim(dim, num_heads) <= dim,
        0 <= h * spec_head_dim(dim, num_heads),
        h * spec_head_dim(dim, num_heads) + spec_head_dim(dim, num_heads) <= dim,
        seq_len * spec_head_dim(dim, num_heads) + 255 <= u32::MAX,
        0 <= seq_len * spec_head_dim(dim, num_heads),
{
    let hd = dim as int / num_heads as int;
    let n = num_heads as int;
    vstd::arithmetic::div_mod::lemma_fundamental_div_mod(dim as int, n);
    assert(n * hd == dim as int);
    assert(hd <= dim) by (nonlinear_arith)
        requires
            n * hd == dim as int,
            n >= 1,
            hd >= 0,
    ;
    assert(0 <= h * hd && h * hd + hd <= n * hd) by (nonlinear_arith)
        requires
            0 <= h < n,
            hd >= 0,
    ;
    assert(0 <= seq_len * hd <= seq_len * dim) by (nonlinear_arith)
        requires
            0 <= hd <= dim,
    ;
}

/// The four buffers of one head, in order of creation: Q, K, V and scores.
pub open spec fn head_buffers_ctx(c: Seq<Init>, seq_len: u32, hd: u32) -> Seq<Init> {
    device::push_zeros(
        device::push_zeros(
            device::push_zeros(device::push_zeros(c, seq_len * hd), seq_len * hd),
            seq_len * hd,
        ),
        seq_len * seq_len,
    )
}

/// Buffer `i` of the four that `head_buffers_ctx` creates.
pub open spec fn head_buffer(c: Seq<Init>, seq_len: u32, hd: u32, i: int) -> Tensor {
    Tensor {
        id: (c.len() + i) as usize,
        size: (4 * (if i == 3 {
            seq_len * seq_len
        } else {
            seq_len * hd
        })) as u64,
    }
}

/// One head of `causal_attention`, started in context `c`: gather Q, K and V,
/// score, mask and normalise, weigh V, scatter the result.
pub open spec fn causal_head_nodes(
    c: Seq<Init>,
    q_buf: Tensor,
    k_buf: Tensor,
    v_buf: Tensor,
    out_head: Tensor,
    out_buffer: Tensor,
    seq_len: u32,
    dim: u32,
    num_heads: u32,
    h: int,
) -> Seq<NodeView> {
    let hd = spec_head_dim(dim, num_heads);
    let m = head_slice(seq_len, dim, num_heads, h);
    let qk = MatMulMeta { m: seq_len, n: seq_len, k: hd };
    let av = MatMulMeta { m: seq_len, n: hd, k: seq_len };
    let sm = AttnScaleMeta { seq_len, scale: Scalar::RecipSqrt(hd) };
    let q = head_buffer(c, seq_len, hd, 0);
    let k = head_buffer(c, seq_len, hd, 1);
    let v = head_buffer(c, seq_len, hd, 2);
    let s = head_buffer(c, seq_len, hd, 3);
    let c0 = head_buffers_ctx(c, seq_len, hd);
    let c1 = device::push_meta(c0, m.spec_meta());
    let c2 = device::push_meta(c1, m.spec_meta());
    let c3 = device::push_meta(c2, m.spec_meta());
    let c4 = device::push_meta(c3, qk.spec_meta());
    let c5 = device::push_meta(c4, sm.spec_meta());
    let c6 = device::push_meta(c5, av.spec_meta());
    seq![
        emit::head_gather_node(q_buf, q, m, device::next_meta(c0, m.spec_meta())),
        emit::head_gather_node(k_buf, k, m, device::next_meta(c1, m.spec_meta())),
        emit::head_gather_node(v_buf, v, m, device::next_meta(c2, m.spec_meta())),
        emit::matmul_trp_node(q, k, s, qk, device::next_meta(c3, qk.spec_meta())),
        causal_softmax_node(s, sm, device::next_meta(c4, sm.spec_meta())),
        matmul_node(s, v, out_head, av, device::next_meta(c5, av.spec_meta())),
        emit::head_scatter_node(out_head, out_buffer, m, device::next_meta(c6, m.spec_meta())),
    ]
}

/// The context after one head of `causal_attention`.
pub open spec fn causal_head_ctx(
    c: Seq<Init>,
    seq_len: u32,
    dim: u32,
    num_heads: u32,
    h: int,
) -> Seq<Init> {
    let hd = spec_head_dim(dim, num_heads);
    let m = head_slice(seq_len, dim, num_heads, h);
    head_buffers_ctx(c, seq_len, hd)
        .push(Init::Meta(m.spec_meta()))
        .push(Init::Meta(m.spec_meta()))
        .push(Init::Meta(m.spec_meta()))
        .push(Init::Meta((MatMulMeta { m: seq_len, n: seq_len, k: hd }).spec_meta()))
        .push(Init::Meta((AttnScaleMeta { seq_len, scale: Scalar::RecipSqrt(hd) }).spec_meta()))
        .push(Init::Meta((MatMulMeta { m: seq_len, n: hd, k: seq_len }).spec_meta()))
        .push(Init::Meta(m.spec_meta()))
}

/// The context after the first `n` heads, started in `c`.
pub open spec fn causal_ctx(c: Seq<Init>, seq_len: u32, dim: u32, num_heads: u32, n: nat) -> Seq<Init>
    decreases n,
{
    if n == 0 {
        c
    } else {
        causal_head_ctx(
            causal_ctx(c, seq_len, dim, num_heads, (n - 1) as nat),
            seq_len,
            dim,
            num_heads,
            n - 1,
        )
    }
}

/// The dispatches of the first `n` heads, one head after the other.
pub open spec fn causal_nodes(
    c: Seq<Init>,
    q_buf: Tensor,
    k_buf: Tensor,
    v_buf: Tensor,
    out_head: Tensor,
    out_buffer: Tensor,
    seq_len: u32,
    dim: u32,
    num_heads: u32,
    n: nat,
) -> Seq<NodeView>
    decreases n,
{
    if n == 0 {
        Seq::empty()
    } else {
        causal_nodes(
            c,
            q_buf,
            k_buf,
            v_buf,
            out_head,
            out_buffer,
            seq_len,
            dim,
            num_heads,
            (n - 1) as nat,
        ) + causal_head_nodes(
            causal_ctx(c, seq_len, dim, num_heads, (n - 1) as nat),
            q_buf,
            k_buf,
            v_buf,
            out_head,
            out_buffer,
            seq_len,
            dim,
            num_heads,
            n - 1,
        )
    }
}

/// Multi-head causal attention forward, shared verbatim by train and prefill.
pub fn causal_attention<P: FullSeqPhase>(
    ctx: &mut Context,
    gb: &mut GraphBuilder<P>,
    q_buf: Tensor,
    k_buf: Tensor,
    v_buf: Tensor,
    out_buffer: Tensor,
    seq_len: u32,
    dim: u32,
    num_heads: u32,
) -> (r: CausalAttnBuffers)
    requires
        causal_fits(seq_len, dim, num_heads),
    ensures
        ({
            let hd = spec_head_dim(dim, num_heads);
            let out_head = device::next_zeros(old(ctx)@, seq_len * hd);
            let c = device::push_zeros(old(ctx)@, seq_len * hd);
            let buf = |h: int, i: int|
                head_buffer(causal_ctx(c, seq_len, dim, num_heads, h as nat), seq_len, hd, i);
            &&& final(ctx)@ == causal_ctx(c, seq_len, dim, num_heads, num_heads as nat)
            &&& final(gb).graph@ == old(gb).graph@ + causal_nodes(
                c,
                q_buf,
                k_buf,
                v_buf,
                out_head,
                out_buffer,
                seq_len,
                dim,
                num_heads,
                num_heads as nat,
            )
            &&& r.q_heads@ == Seq::new(num_heads as nat, |h: int| buf(h, 0))
            &&& r.k_heads@ == Seq::new(num_heads as nat, |h: int| buf(h, 1))
            &&& r.v_heads@ == Seq::new(num_heads as nat, |h: int| buf(h, 2))
            &&& r.scores_heads@ == Seq::new(num_heads as nat, |h: int| buf(h, 3))
        }),
{
    let ghost c_in = ctx@;
    let ghost g_in = gb.graph@;
    let head_dim: u32 = dim / num_heads;
    proof {
        lemma_head_sizes(seq_len, dim, num_heads, 0);
    }
    let scale = Scalar::RecipSqrt(head_dim);
    let head_size: u32 = seq_len * head_dim;
    let scores_size: u32 = seq_len * seq_len;
    let mut bufs = CausalAttnBuffers {
        q_heads: Vec::new(),
        k_heads: Vec::new(),
        v_heads: Vec::new(),
        scores_heads: Vec::new(),
    };
    // Shared scratch: reused/overwritten sequentially per head
    let out_head = ctx.zeros(head_size);
    let ghost c = ctx@;
    let ghost buf = |h: int, i: int|
        head_buffer(causal_ctx(c, seq_len, dim, num_heads, h as nat), seq_len, head_dim, i);
    let mut h: u32 = 0;
    while h < num_heads
        invariant
            h <= num_heads,
            causal_fits(seq_len, dim, num_heads),
            head_dim == spec_head_dim(dim, num_heads),
            head_size == seq_len * head_dim,
            scores_size == seq_len * seq_len,
            scale == Scalar::RecipSqrt(head_dim),
            out_head == device::next_zeros(c_in, seq_len * head_dim),
            buf == (|h: int, i: int|
                head_buffer(causal_ctx(c, seq_len, dim, num_heads, h as nat), seq_len, head_dim, i)),
            ctx@ == causal_ctx(c, seq_len, dim, num_heads, h as nat),
            gb.graph@ == g_in + causal_nodes(
                c,
                q_buf,
                k_buf,
                v_buf,
                out_head,
                out_buffer,
                seq_len,
                dim,
                num_heads,
                h as nat,
            ),
            bufs.q_heads@ == Seq::new(h as nat, |h: int| buf(h, 0)),
            bufs.k_heads@ == Seq::new(h as nat, |h: int| buf(h, 1)),
            bufs.v_heads@ == Seq::new(h as nat, |h: int| buf(h, 2)),
            bufs.scores_heads@ == Seq::new(h as nat, |h: int| buf(h, 3)),
        decreases num_heads - h,
    {
        proof {
            lemma_head_sizes(seq_len, dim, num_heads, h as int);
        }
        let ghost ch = ctx@;
        let ghost gh = gb.graph@;
        let head_move = HeadMoveMeta { seq_len, full_dim: dim, head_dim, head_offset: h * head_dim };
        assert(head_move == head_slice(seq_len, dim, num_heads, h as int));
        let q_head = ctx.zeros(head_size);
        let k_head = ctx.zeros(head_size);
        let v_head = ctx.zeros(head_size);
        let t_scores = ctx.zeros(scores_size);
        head_gather(ctx, gb, q_buf, q_head, head_move);
        head_gather(ctx, gb, k_buf, k_head, head_move);
        head_gather(ctx, gb, v_buf, v_head, head_move);
        matmul_trp(ctx, gb, q_head, k_head, t_scores, MatMulMeta { m: seq_len, n: seq_len, k: head_dim });
        causal_softmax(ctx, gb, t_scores, AttnScaleMeta { seq_len, scale });
        matmul(ctx, gb, t_scores, v_head, out_head, MatMulMeta { m: seq_len, n: head_dim, k: seq_len });
        head_scatter(ctx, gb, out_head, out_buffer, head_move);
        bufs.q_heads.push(q_head);
        bufs.k_heads.push(k_head);
        bufs.v_heads.push(v_head);
        bufs.scores_heads.push(t_scores);
        h = h + 1;
    }
    bufs
}

// ---- flash attention ----

/// The shapes that these flash kernels accept: heads of at most 128 that divide
/// `dim`, and sizes that fit in 32 bits.
pub open spec fn flash_fits(shape: FlashAttnMeta) -> bool {
    &&& 0 < shape.head_dim <= 128
    &&& shape.dim % shape.head_dim == 0
    &&& shape.seq_len + 63 <= u32::MAX
    &&& shape.seq_len * emit::flash_heads(shape) <= u32::MAX
}

/// Causal attention of every head in one dispatch.
pub fn flash_attention<P: FullSeqPhase>(
    ctx: &mut Context,
    gb: &mut GraphBuilder<P>,
    q_buf: Tensor,
    k_buf: Tensor,
    v_buf: Tensor,
    out_buffer: Tensor,
    shape: FlashAttnMeta,
) -> (r: FlashAttnBuffers)
    requires
        flash_fits(shape),
    ensures
        final(ctx)@ == emit::flash_ctx(old(ctx)@, shape),
        r == (FlashAttnBuffers { out: out_buffer, l_cache: emit::flash_l_cache(old(ctx)@, shape) }),
        final(gb).graph@ == old(gb).graph@.push(
            emit::flash_attention_node(
                q_buf,
                k_buf,
                v_buf,
                out_buffer,
                emit::flash_l_cache(old(ctx)@, shape),
                shape,
                emit::flash_meta(old(ctx)@, shape),
            ),
        ),
{
    let num_heads: u32 = shape.dim / shape.head_dim;
    let l_cache = ctx.zeros(shape.seq_len * num_heads);
    let meta = shape.upload(ctx);
    gb.graph.add_node(
        Kernel::FlashAttention,
        vec![q_buf, k_buf, v_buf, out_buffer, l_cache, meta],
        emit::grid_flash(shape),
    );
    FlashAttnBuffers { out: out_buffer, l_cache }
}

/// The two dispatches of a flash backward that recomputes its row sums from
/// the saved output.
pub open spec fn flash_bwd_nodes(
    c: Seq<Init>,
    q_buf: Tensor,
    k_buf: Tensor,
    v_buf: Tensor,
    saved: FlashAttnBuffers,
    grad_output: Tensor,
    grad_q: Tensor,
    grad_k: Tensor,
    grad_v: Tensor,
    shape: FlashAttnMeta,
) -> Seq<NodeView> {
    let meta = device::next_meta(c, shape.spec_meta());
    seq![
        NodeView {
            kernel: Kernel::FlashAttentionBwdDqFromOut,
            buffers: seq![q_buf, k_buf, v_buf, saved.out, grad_output, saved.l_cache, grad_q, meta],
            grid: emit::spec_grid_flash(shape),
        },
        NodeView {
            kernel: Kernel::FlashAttentionBwdDkDvFromOut,
            buffers: seq![
                q_buf,
                k_buf,
                v_buf,
                saved.out,
                grad_output,
                saved.l_cache,
                grad_k,
                grad_v,
                meta,
            ],
            grid: emit::spec_grid_flash(shape),
        },
    ]
}

/// Gradients of Q, K and V.
pub fn flash_attention_bwd(
    ctx: &mut Context,
    gb: &mut GraphBuilder<Train>,
    q_buf: Tensor,
    k_buf: Tensor,
    v_buf: Tensor,
    saved: FlashAttnBuffers,
    grad_output: Tensor,
    grad_q: Tensor,
    grad_k: Tensor,
    grad_v: Tensor,
    shape: FlashAttnMeta,
)
    requires
        shape.head_dim > 0,
        shape.seq_len + 63 <= u32::MAX,
    ensures
        final(ctx)@ == device::push_meta(old(ctx)@, shape.spec_meta()),
        final(gb).graph@ == old(gb).graph@ + flash_bwd_nodes(
            old(ctx)@,
            q_buf,
            k_buf,
            v_buf,
            saved,
            grad_output,
            grad_q,
            grad_k,
            grad_v,
            shape,
        ),
{
    let meta = shape.upload(ctx);
    let grid = emit::grid_flash(shape);
    gb.graph.add_node(
        Kernel::FlashAttentionBwdDqFromOut,
        vec![q_buf, k_buf, v_buf, saved.out, grad_output, saved.l_cache, grad_q, meta],
        grid,
    );
    gb.graph.add_node(
        Kernel::FlashAttentionBwdDkDvFromOut,
        vec![q_buf, k_buf, v_buf, saved.out, grad_output, saved.l_cache, grad_k, grad_v, meta],
        grid,
    );
}

// ---- elementwise ----

pub open spec fn spec_grid256(len: u32) -> Seq<u32> {
    seq![emit::tiles(len as int, 256), 1u32, 1u32]
}

pub fn grid256(len: u32) -> (r: [u32; 3])
    requires
        len + 255 <= u32::MAX,
    ensures
        r@ == spec_grid256(len),
{
    [(len + 255) / 256, 1, 1]
}

pub open spec fn silu_node(buf: Tensor, len: u32) -> NodeView {
    NodeView { kernel: Kernel::Silu, buffers: seq![buf], grid: spec_grid256(len) }
}

/// SiLU in place.
pub fn silu<P: FwdPhase>(
    gb: &mut GraphBuilder<P>,
    buf: Tensor,
    len: u32,
)
    requires
        len + 255 <= u32::MAX,
    ensures
        final(gb).graph@ == old(gb).graph@.push(silu_node(buf, len)),
{
    let buffers = vec![buf];
    assert(buffers@ =~= seq![buf]);
    gb.graph.add_node(Kernel::Silu, buffers, grid256(len));
}

pub open spec fn silu_bwd_node(input: Tensor, grad_output: Tensor, grad_input: Tensor, len: u32) -> NodeView {
    NodeView { kernel: Kernel::SiluBwd, buffers: seq![input, grad_output, grad_input], grid: spec_grid256(len) }
}

/// `input` is the pre-activation buffer saved by the forward pass.
pub fn silu_bwd(
    gb: &mut GraphBuilder<Train>,
    input: Tensor,
    grad_output: Tensor,
    grad_input: Tensor,
    len: u32,
)
    requires
        len + 255 <= u32::MAX,
    ensures
        final(gb).graph@ == old(gb).graph@.push(silu_bwd_node(input, grad_output, grad_input, len)),
{
    gb.graph.add_node(Kernel::SiluBwd, vec![input, grad_output, grad_input], grid256(len));
}

pub open spec fn residual_add_node(target: Tensor, source: Tensor, len: u32) -> NodeView {
    NodeView { kernel: Kernel::ResidualAdd, buffers: seq![target, source], grid: spec_grid256(len) }
}

/// `target += source`
pub fn residual_add<P: FwdPhase>(
    gb: &mut GraphBuilder<P>,
    target: Tensor,
    source: Tensor,
    len: u32,
)
    requires
        len + 255 <= u32::MAX,
    ensures
        final(gb).graph@ == old(gb).graph@.push(residual_add_node(target, source, len)),
{
    gb.graph.add_node(Kernel::ResidualAdd, vec![target, source], grid256(len));
}

pub open spec fn add_inplace_bwd_node(target: Tensor, source: Tensor, len: u32) -> NodeView {
    NodeView { kernel: Kernel::BwdAddInplace, buffers: seq![target, source], grid: spec_grid256(len) }
}

/// `target += source`, backward kernel (keeps a fusion barrier).
pub fn add_inplace_bwd(
    gb: &mut GraphBuilder<Train>,
    target: Tensor,
    source: Tensor,
    len: u32,
)
    requires
        len + 255 <= u32::MAX,
    ensures
        final(gb).graph@ == old(gb).graph@.push(add_inplace_bwd_node(target, source, len)),
{
    gb.graph.add_node(Kernel::BwdAddInplace, vec![target, source], grid256(len));
}

pub open spec fn zero_node(buf: Tensor, len: u32, meta: Tensor) -> NodeView {
    NodeView { kernel: Kernel::ZeroTensor, buffers: seq![buf, meta], grid: spec_grid256(len) }
}

/// On-device zeroing, as a graph node.
pub fn zero_with<P: FwdPhase>(gb: &mut GraphBuilder<P>, buf: Tensor, len: u32, meta: Tensor)
    requires
        len + 255 <= u32::MAX,
    ensures
        final(gb).graph@ == old(gb).graph@.push(zero_node(buf, len, meta)),
{
    gb.graph.add_node(Kernel::ZeroTensor, vec![buf, meta], grid256(len));
}

/// On-device zeroing, as a graph node.
pub fn zero<P: FwdPhase>(ctx: &mut Context, gb: &mut GraphBuilder<P>, buf: Tensor, len: u32)
    requires
        len + 255 <= u32::MAX,
    ensures
        final(ctx)@ == device::push_meta(old(ctx)@, (ZeroMeta { len }).spec_meta()),
        final(gb).graph@ == old(gb).graph@.push(
            zero_node(buf, len, device::next_meta(old(ctx)@, (ZeroMeta { len }).spec_meta())),
        ),
{
    let meta = (ZeroMeta { len }).upload(ctx);
    zero_with(gb, buf, len, meta);
}

/// Host-side zeroing: the number of zero words to write into `t`.
pub fn zero_tensor(t: Tensor) -> (r: u64)
    ensures
        r == t.size as int / 4,
{
    t.size / 4
}

// ---- loss ----

pub open spec fn cross_entropy_node(
    logits: Tensor,
    target_tokens: Tensor,
    probs: Tensor,
    losses: Tensor,
    shape: CrossEntropyMeta,
    meta: Tensor,
) -> NodeView {
    NodeView {
        kernel: Kernel::CrossEntropyProbs,
        buffers: seq![logits, target_tokens, probs, losses, meta],
        grid: seq![emit::tiles(shape.num_rows as int, 256), 1u32, 1u32],
    }
}

/// Per-row probabilities and losses.
pub fn cross_entropy(
    ctx: &mut Context,
    gb: &mut GraphBuilder<Train>,
    logits: Tensor,
    target_tokens: Tensor,
    probs: Tensor,
    losses: Tensor,
    shape: CrossEntropyMeta,
)
    requires
        shape.num_rows + 255 <= u32::MAX,
    ensures
        final(ctx)@ == device::push_meta(old(ctx)@, shape.spec_meta()),
        final(gb).graph@ == old(gb).graph@.push(
            cross_entropy_node(
                logits,
                target_tokens,
                probs,
                losses,
                shape,
                device::next_meta(old(ctx)@, shape.spec_meta()),
            ),
        ),
{
    let meta = shape.upload(ctx);
    gb.graph.add_node(
        Kernel::CrossEntropyProbs,
        vec![logits, target_tokens, probs, losses, meta],
        [(shape.num_rows + 255) / 256, 1, 1],
    );
}

pub open spec fn cross_entropy_bwd_node(
    probs: Tensor,
    target_tokens: Tensor,
    d_losses: Tensor,
    grad_logits: Tensor,
    shape: CrossEntropyMeta,
    meta: Tensor,
) -> NodeView {
    NodeView {
        kernel: Kernel::CrossEntropyProbsBwd,
        buffers: seq![probs, target_tokens, d_losses, grad_logits, meta],
        grid: seq![emit::tiles(shape.num_rows as int, 256), 1u32, 1u32],
    }
}

/// Gradient of the losses with respect to the logits.
pub fn cross_entropy_bwd(
    ctx: &mut Context,
    gb: &mut GraphBuilder<Train>,
    probs: Tensor,
    target_tokens: Tensor,
    d_losses: Tensor,
    grad_logits: Tensor,
    shape: CrossEntropyMeta,
)
    requires
        shape.num_rows + 255 <= u32::MAX,
    ensures
        final(ctx)@ == device::push_meta(old(ctx)@, shape.spec_meta()),
        final(gb).graph@ == old(gb).graph@.push(
            cross_entropy_bwd_node(
                probs,
                target_tokens,
                d_losses,
                grad_logits,
                shape,
                device::next_meta(old(ctx)@, shape.spec_meta()),
            ),
        ),
{
    let meta = shape.upload(ctx);
    gb.graph.add_node(
        Kernel::CrossEntropyProbsBwd,
        vec![probs, target_tokens, d_losses, grad_logits, meta],
        [(shape.num_rows + 255) / 256, 1, 1],
    );
}

} // verus!
