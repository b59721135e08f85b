//! Kernels that add into a buffer need it cleared first. What a backward pass adds
//! into is either cleared inside the pass or on the lists of what to zero before.
use super::akasha_model;
use super::akasha_model::AkashaModelView;
use super::attention::{Heads, Scratch};
use super::kernels::emit;
use super::kernels::meta::{KernelMeta, RopeMeta};
use super::layers;
use super::layers::{AddView, LinearView, RMSNormView};
use super::ops;
use super::pipeline;
use super::transformer;
use super::transformer::TransformerBlockView;
use super::weights::BlockWeights;
use crate::config::ModelConfig;
use crate::device;
use crate::device::{Init, Kernel, NodeView, Scalar, Tensor, TensorMode};
use vstd::prelude::*;

verus! {

/// Some dispatch before the `i`-th clears `t`.
pub open spec fn cleared_before(nodes: Seq<NodeView>, i: int, t: Tensor) -> bool {
    exists|k: int|
        0 <= k < i && (#[trigger] nodes[k]).kernel == Kernel::ZeroTensor && nodes[k].buffers[0] == t
}

/// Slot `j` of a dispatch adds into its buffer.
pub open spec fn adds(n: NodeView, j: int) -> bool {
    0 <= j < device::layout(n.kernel).len() && device::layout(n.kernel)[j] == TensorMode::Accumulate
}

/// Every buffer that a dispatch adds into is in `z`, or cleared earlier on.
pub open spec fn clean(nodes: Seq<NodeView>, z: Set<Tensor>) -> bool {
    forall|i: int, j: int|
        0 <= i < nodes.len() && #[trigger] adds(nodes[i], j) ==> z.contains(nodes[i].buffers[j])
            || cleared_before(nodes, i, nodes[i].buffers[j])
}

proof fn lemma_concat(a: Seq<NodeView>, b: Seq<NodeView>, z: Set<Tensor>)
    requires
        clean(a, z),
        clean(b, z),
    ensures
        clean(a + b, z),
{
    let s = a + b;
    assert forall|i: int, j: int| 0 <= i < s.len() && #[trigger] adds(s[i], j) implies z.contains(
        s[i].buffers[j],
    ) || cleared_before(s, i, s[i].buffers[j]) by {
        let t = s[i].buffers[j];
        if i < a.len() {
            assert(adds(a[i], j));
            if cleared_before(a, i, t) {
                let k = choose|k: int|
                    0 <= k < i && (#[trigger] a[k]).kernel == Kernel::ZeroTensor && a[k].buffers[0]
                        == t;
                assert(s[k] == a[k]);
            }
        } else {
            let n = a.len() as int;
            assert(s[i] == b[i - n]);
            assert(adds(b[i - n], j));
            if cleared_before(b, i - n, t) {
                let k = choose|k: int|
                    0 <= k < i - n && (#[trigger] b[k]).kernel == Kernel::ZeroTensor
                        && b[k].buffers[0] == t;
                assert(s[k + n] == b[k]);
            }
        }
    }
}

proof fn lemma_more(a: Seq<NodeView>, y: Set<Tensor>, z: Set<Tensor>)
    requires
        clean(a, y),
        y.subset_of(z),
    ensures
        clean(a, z),
{
}

/// A linear layer's backward pass adds into its weight gradient only.
spec fn linear_adds(l: LinearView) -> bool {
    &&& l.backward_graph.len() == 2
    &&& l.backward_graph[0].kernel == Kernel::MatMulWeightBwd
    &&& l.backward_graph[0].buffers[2] == l.grad_weight
    &&& l.backward_graph[1].kernel == Kernel::MatMulTrp
}

/// A norm's backward pass adds into its weight gradient only.
spec fn norm_adds(n: RMSNormView) -> bool {
    &&& n.backward_graph.len() == 2
    &&& n.backward_graph[0].kernel == Kernel::RmsNormBwd
    &&& n.backward_graph[1].kernel == Kernel::RmsNormWeightBwd
    &&& n.backward_graph[1].buffers[3] == n.grad_weight
}

/// A residual sum's backward pass adds into both gradients.
spec fn sum_adds(a: AddView) -> bool {
    &&& a.backward_graph.len() == 2
    &&& a.backward_graph[0].kernel == Kernel::ResidualAdd
    &&& a.backward_graph[0].buffers[0] == a.grad_a
    &&& a.backward_graph[1].kernel == Kernel::ResidualAdd
    &&& a.backward_graph[1].buffers[0] == a.grad_b
}

proof fn lemma_linear(l: LinearView, z: Set<Tensor>)
    requires
        linear_adds(l),
        z.contains(l.grad_weight),
    ensures
        clean(l.backward_graph, z),
{
}

proof fn lemma_norm(n: RMSNormView, z: Set<Tensor>)
    requires
        norm_adds(n),
        z.contains(n.grad_weight),
    ensures
        clean(n.backward_graph, z),
{
}

proof fn lemma_sum(a: AddView, z: Set<Tensor>)
    requires
        sum_adds(a),
        z.contains(a.grad_a),
        z.contains(a.grad_b),
    ensures
        clean(a.backward_graph, z),
{
}

proof fn lemma_one(n: NodeView, z: Set<Tensor>)
    requires
        forall|j: int| #[trigger] adds(n, j) ==> z.contains(n.buffers[j]),
    ensures
        clean(seq![n], z),
{
}

proof fn lemma_head(
    heads: Heads,
    c: Seq<Init>,
    s: Scratch,
    q: Tensor,
    k: Tensor,
    v: Tensor,
    scores: Tensor,
    grad_output: Tensor,
    grad_q: Tensor,
    grad_k: Tensor,
    grad_v: Tensor,
    h: int,
    z: Set<Tensor>,
)
    ensures
        clean(
            heads.bwd_head_nodes(
                c,
                s,
                q,
                k,
                v,
                scores,
                grad_output,
                grad_q,
                grad_k,
                grad_v,
                h,
            ),
            z,
        ),
{
    let n = heads.bwd_head_nodes(c, s, q, k, v, scores, grad_output, grad_q, grad_k, grad_v, h);
    assert(n[1].kernel == Kernel::ZeroTensor && n[1].buffers[0] == s.grad_v_head);
    assert(cleared_before(n, 2, s.grad_v_head));
    assert(n[6].kernel == Kernel::ZeroTensor && n[6].buffers[0] == s.grad_k_head);
    assert(cleared_before(n, 7, s.grad_k_head));
}

proof fn lemma_heads(
    heads: Heads,
    f: Seq<Init>,
    c: Seq<Init>,
    s: Scratch,
    grad_output: Tensor,
    grad_q: Tensor,
    grad_k: Tensor,
    grad_v: Tensor,
    n: nat,
    z: Set<Tensor>,
)
    ensures
        clean(heads.bwd_nodes(f, c, s, grad_output, grad_q, grad_k, grad_v, n), z),
    decreases n,
{
    if n > 0 {
        let h = n - 1;
        lemma_heads(heads, f, c, s, grad_output, grad_q, grad_k, grad_v, (n - 1) as nat, z);
        let ch = heads.bwd_ctx(c, (n - 1) as nat);
        lemma_head(
            heads,
            ch,
            s,
            heads.buf(f, h, 0),
            heads.buf(f, h, 1),
            heads.buf(f, h, 2),
            heads.buf(f, h, 3),
            grad_output,
            grad_q,
            grad_k,
            grad_v,
            h,
            z,
        );
        lemma_concat(
            heads.bwd_nodes(f, c, s, grad_output, grad_q, grad_k, grad_v, (n - 1) as nat),
            heads.bwd_head_nodes(
                ch,
                s,
                heads.buf(f, h, 0),
                heads.buf(f, h, 1),
                heads.buf(f, h, 2),
                heads.buf(f, h, 3),
                grad_output,
                grad_q,
                grad_k,
                grad_v,
                h,
            ),
            z,
        );
    }
}


/// The gradients of a block that are cleared before a pass.
pub open spec fn block_cleared(b: TransformerBlockView) -> Set<Tensor> {
    (transformer::block_weight_grads(b) + transformer::block_transient_grads(b)).to_set()
}

/// What a block's backward pass is made of.
spec fn block_parts(
    b: TransformerBlockView,
    attention: Seq<NodeView>,
    turned: Seq<NodeView>,
    fused: Seq<NodeView>,
    first: NodeView,
    second: NodeView,
) -> bool {
    &&& linear_adds(b.qkv_proj)
    &&& linear_adds(b.out_proj)
    &&& linear_adds(b.ffn_up)
    &&& linear_adds(b.ffn_down)
    &&& norm_adds(b.norm_1)
    &&& norm_adds(b.norm_2)
    &&& sum_adds(b.add_1)
    &&& sum_adds(b.add_2)
    &&& b.silu.backward_graph.len() == 1
    &&& b.silu.backward_graph[0].kernel == Kernel::SiluBwd
    &&& first.kernel == Kernel::BwdAddInplace
    &&& first.buffers[0] == b.add_2.grad_a
    &&& second.kernel == Kernel::BwdAddInplace
    &&& second.buffers[0] == b.add_1.grad_a
    &&& b.backward_graph == b.add_2.backward_graph + b.ffn_down.backward_graph
        + b.silu.backward_graph + b.ffn_up.backward_graph + b.norm_2.backward_graph + seq![first]
        + b.add_1.backward_graph + b.out_proj.backward_graph + attention + turned + fused
        + b.qkv_proj.backward_graph + b.norm_1.backward_graph + seq![second]
}

/// A block's backward pass is clean if its parts are.
proof fn lemma_block(
    b: TransformerBlockView,
    attention: Seq<NodeView>,
    turned: Seq<NodeView>,
    fused: Seq<NodeView>,
    first: NodeView,
    second: NodeView,
    z: Set<Tensor>,
)
    requires
        block_parts(b, attention, turned, fused, first, second),
        block_cleared(b).subset_of(z),
        clean(attention, z),
        clean(turned, z),
        clean(fused, z),
    ensures
        clean(b.backward_graph, z),
{
    lemma_block_cleared(b);
    lemma_sum(b.add_2, z);
    lemma_linear(b.ffn_down, z);
    assert(clean(b.silu.backward_graph, z));
    lemma_linear(b.ffn_up, z);
    lemma_norm(b.norm_2, z);
    lemma_one(first, z);
    lemma_sum(b.add_1, z);
    lemma_linear(b.out_proj, z);
    lemma_linear(b.qkv_proj, z);
    lemma_norm(b.norm_1, z);
    lemma_one(second, z);
    let s1 = b.add_2.backward_graph + b.ffn_down.backward_graph;
    lemma_concat(b.add_2.backward_graph, b.ffn_down.backward_graph, z);
    let s2 = s1 + b.silu.backward_graph;
    lemma_concat(s1, b.silu.backward_graph, z);
    let s3 = s2 + b.ffn_up.backward_graph;
    lemma_concat(s2, b.ffn_up.backward_graph, z);
    let s4 = s3 + b.norm_2.backward_graph;
    lemma_concat(s3, b.norm_2.backward_graph, z);
    let s5 = s4 + seq![first];
    lemma_concat(s4, seq![first], z);
    let s6 = s5 + b.add_1.backward_graph;
    lemma_concat(s5, b.add_1.backward_graph, z);
    let s7 = s6 + b.out_proj.backward_graph;
    lemma_concat(s6, b.out_proj.backward_graph, z);
    let s8 = s7 + attention;
    lemma_concat(s7, attention, z);
    let s9 = s8 + turned;
    lemma_concat(s8, turned, z);
    let s10 = s9 + fused;
    lemma_concat(s9, fused, z);
    let s11 = s10 + b.qkv_proj.backward_graph;
    lemma_concat(s10, b.qkv_proj.backward_graph, z);
    let s12 = s11 + b.norm_1.backward_graph;
    lemma_concat(s11, b.norm_1.backward_graph, z);
    lemma_concat(s12, seq![second], z);
}

proof fn lemma_block_cleared(b: TransformerBlockView)
    ensures
        block_cleared(b).contains(b.norm_1.grad_weight),
        block_cleared(b).contains(b.qkv_proj.grad_weight),
        block_cleared(b).contains(b.out_proj.grad_weight),
        block_cleared(b).contains(b.norm_2.grad_weight),
        block_cleared(b).contains(b.ffn_up.grad_weight),
        block_cleared(b).contains(b.ffn_down.grad_weight),
        block_cleared(b).contains(b.add_1.grad_a),
        block_cleared(b).contains(b.add_1.grad_b),
        block_cleared(b).contains(b.add_2.grad_a),
        block_cleared(b).contains(b.add_2.grad_b),
{
    let s = transformer::block_weight_grads(b) + transformer::block_transient_grads(b);
    assert(s[0] == b.norm_1.grad_weight);
    assert(s[1] == b.qkv_proj.grad_weight);
    assert(s[2] == b.out_proj.grad_weight);
    assert(s[3] == b.norm_2.grad_weight);
    assert(s[4] == b.ffn_up.grad_weight);
    assert(s[5] == b.ffn_down.grad_weight);
    assert(s[6] == b.add_1.grad_a);
    assert(s[7] == b.add_1.grad_b);
    assert(s[8] == b.add_2.grad_a);
    assert(s[9] == b.add_2.grad_b);
}

/// What a block's backward pass adds into is cleared in the pass itself, or one of
/// the block's weight gradients and transient gradients.
pub proof fn block_adds_into_cleared(
    c: Seq<Init>,
    cfg: ModelConfig,
    bw: BlockWeights,
    input: Tensor,
    grad_output: Tensor,
    grad_input: Tensor,
)
    ensures
        clean(
            pipeline::block_build(c, cfg, bw, input, grad_output, grad_input).1.backward_graph,
            block_cleared(pipeline::block_build(c, cfg, bw, input, grad_output, grad_input).1),
        ),
{
    let b = pipeline::block_build(c, cfg, bw, input, grad_output, grad_input).1;
    let z = block_cleared(b);
    let (attention, turned, fused, first, second) = lemma_block_parts(
        c,
        cfg,
        bw,
        input,
        grad_output,
        grad_input,
        z,
    );
    lemma_block(b, attention, turned, fused, first, second, z);
}

spec fn spec_turned(q: Tensor, k: Tensor, rope: RopeMeta, c: Seq<Init>, ck: Seq<Init>) -> Seq<NodeView> {
    seq![
        emit::rope_bwd_node(q, rope, device::next_meta(c, rope.spec_meta())),
        emit::rope_bwd_node(k, rope, device::next_meta(ck, rope.spec_meta())),
    ]
}

spec fn spec_fused(
    q: Tensor,
    k: Tensor,
    v: Tensor,
    qkv: Tensor,
    cfg: ModelConfig,
    c: Seq<Init>,
) -> Seq<NodeView> {
    seq![
        emit::head_scatter_node(q, qkv, pipeline::role(cfg, 0), pipeline::role_meta(c, 0)),
        emit::head_scatter_node(k, qkv, pipeline::role(cfg, 1), pipeline::role_meta(c, 1)),
        emit::head_scatter_node(v, qkv, pipeline::role(cfg, 2), pipeline::role_meta(c, 2)),
    ]
}

proof fn lemma_turned(
    q: Tensor,
    k: Tensor,
    rope: RopeMeta,
    c: Seq<Init>,
    ck: Seq<Init>,
    z: Set<Tensor>,
)
    ensures
        clean(spec_turned(q, k, rope, c, ck), z),
{
}

proof fn lemma_fused(
    q: Tensor,
    k: Tensor,
    v: Tensor,
    qkv: Tensor,
    cfg: ModelConfig,
    c: Seq<Init>,
    z: Set<Tensor>,
)
    ensures
        clean(spec_fused(q, k, v, qkv, cfg, c), z),
{
}

proof fn lemma_attention(
    heads: Heads,
    c: Seq<Init>,
    grad_output: Tensor,
    grad_q: Tensor,
    grad_k: Tensor,
    grad_v: Tensor,
    z: Set<Tensor>,
)
    ensures
        clean(heads.backward(c, grad_output, grad_q, grad_k, grad_v), z),
{
    let cs = heads.new_start(c);
    let cf = heads.forward_ctx(cs);
    let meta_seq = device::next_meta(
        device::push_zeros(c, heads.seq_len * heads.dim),
        heads.scale().spec_meta(),
    );
    lemma_heads(
        heads,
        heads.fwd_start(cs),
        heads.scratch_ctx(cf),
        heads.scratch(cf, meta_seq),
        grad_output,
        grad_q,
        grad_k,
        grad_v,
        heads.num_heads as nat,
        z,
    );
}

#[verifier::rlimit(40)]
proof fn lemma_block_parts(
    c: Seq<Init>,
    cfg: ModelConfig,
    bw: BlockWeights,
    input: Tensor,
    grad_output: Tensor,
    grad_input: Tensor,
    z: Set<Tensor>,
) -> (r: (Seq<NodeView>, Seq<NodeView>, Seq<NodeView>, NodeView, NodeView))
    ensures
        block_parts(
            pipeline::block_build(c, cfg, bw, input, grad_output, grad_input).1,
            r.0,
            r.1,
            r.2,
            r.3,
            r.4,
        ),
        clean(r.0, z),
        clean(r.1, z),
        clean(r.2, z),
{
    reveal(pipeline::block_build);
    let b = pipeline::block_build(c, cfg, bw, input, grad_output, grad_input).1;
    let (rows, dim, hidden) = (cfg.seq_len, cfg.dim, cfg.ffn_hidden);
    let d = rows * dim;
    let h = rows * hidden;
    let c2 = layers::rmsnorm_ctx(transformer::grads_ctx(c, d, h), dim, rows);
    let c3 = layers::linear_ctx(c2, dim, (dim * 3) as u32, rows);
    let c4 = c3.push(Init::Zeros(d as u32)).push(Init::Zeros(d as u32)).push(Init::Zeros(d as u32));
    let rope = pipeline::rope_shape(cfg);
    let c6 = device::push_meta(
        device::push_meta(pipeline::roles_ctx(c4, cfg), rope.spec_meta()),
        rope.spec_meta(),
    );
    let heads = Heads { seq_len: cfg.seq_len, dim, num_heads: cfg.num_heads };
    let c8 = layers::linear_ctx(heads.new_ctx(c6), dim, dim, rows);
    let c10 = layers::linear_ctx(layers::rmsnorm_ctx(c8, dim, rows), dim, hidden, rows);
    let c11 = layers::linear_ctx(c10, hidden, dim, rows);
    let c11k = device::push_meta(c11, rope.spec_meta());
    let c12 = device::push_meta(c11k, rope.spec_meta());
    let g_attn_q = transformer::grad_buf(c, 8, d);
    let g_attn_k = transformer::grad_buf(c, 9, d);
    let g_attn_v = transformer::grad_buf(c, 10, d);
    let g_attn_qkv = transformer::grad_buf(c, 11, 3 * d);
    let turned = spec_turned(g_attn_q, g_attn_k, rope, c11, c11k);
    let fused = spec_fused(g_attn_q, g_attn_k, g_attn_v, g_attn_qkv, cfg, c12);
    let first = ops::add_inplace_bwd_node(
        transformer::grad_buf(c, 0, d),
        transformer::grad_buf(c, 5, d),
        d as u32,
    );
    let second = ops::add_inplace_bwd_node(grad_input, transformer::grad_buf(c, 13, d), d as u32);
    let attention = b.attention.backward_graph;
    assert(attention == heads.backward(
        c6,
        transformer::grad_buf(c, 7, d),
        g_attn_q,
        g_attn_k,
        g_attn_v,
    ));
    lemma_attention(
        heads,
        c6,
        transformer::grad_buf(c, 7, d),
        g_attn_q,
        g_attn_k,
        g_attn_v,
        z,
    );
    lemma_turned(g_attn_q, g_attn_k, rope, c11, c11k, z);
    lemma_fused(g_attn_q, g_attn_k, g_attn_v, g_attn_qkv, cfg, c12, z);
    (attention, turned, fused, first, second)
}


// ---- the whole model ----

/// `t` is the gradient of some pair.
pub open spec fn is_grad(params: Seq<(Tensor, Tensor)>, t: Tensor) -> bool {
    exists|i: int| 0 <= i < params.len() && (#[trigger] params[i]).1 == t
}

/// The gradients that a model's backward pass may add into: those of its trainable
/// tensors, and the transient ones.
pub open spec fn model_cleared(m: AkashaModelView) -> Set<Tensor> {
    Set::new(
        |t: Tensor|
            is_grad(akasha_model::model_params(m), t) || akasha_model::stack_transient(
                m.layers,
                m.layers.len(),
            ).contains(t),
    )
}

/// What a training step zeroes when a cycle begins.
pub open spec fn zero_list(m: AkashaModelView) -> Seq<Tensor> {
    seq![m.embedding.grad_table, m.final_norm.grad_weight, m.lm_head.grad_weight]
        + akasha_model::stack_zeroed(m.layers, m.layers.len())
}

proof fn lemma_stack_params(vs: Seq<TransformerBlockView>, n: nat, i: int, t: Tensor)
    requires
        0 <= i < n <= vs.len(),
        transformer::block_weight_grads(vs[i]).contains(t),
    ensures
        is_grad(akasha_model::stack_params(vs, n), t),
    decreases n,
{
    let before = akasha_model::stack_params(vs, (n - 1) as nat);
    let own = akasha_model::block_params(vs[n - 1]);
    let all = akasha_model::stack_params(vs, n);
    if i < n - 1 {
        lemma_stack_params(vs, (n - 1) as nat, i, t);
        let k = choose|k: int| 0 <= k < before.len() && (#[trigger] before[k]).1 == t;
        assert(all[k] == before[k]);
    } else {
        let g = transformer::block_weight_grads(vs[i]);
        let k = choose|k: int| 0 <= k < g.len() && g[k] == t;
        assert(own[k].1 == t);
        assert(all[before.len() + k] == own[k]);
    }
}

proof fn lemma_stack_transient(vs: Seq<TransformerBlockView>, n: nat, i: int, t: Tensor)
    requires
        0 <= i < n <= vs.len(),
        transformer::block_transient_grads(vs[i]).contains(t),
    ensures
        akasha_model::stack_transient(vs, n).contains(t),
    decreases n,
{
    let before = akasha_model::stack_transient(vs, (n - 1) as nat);
    let own = transformer::block_transient_grads(vs[n - 1]);
    let all = akasha_model::stack_transient(vs, n);
    if i < n - 1 {
        lemma_stack_transient(vs, (n - 1) as nat, i, t);
        let k = choose|k: int| 0 <= k < before.len() && before[k] == t;
        assert(all[k] == t);
    } else {
        let k = choose|k: int| 0 <= k < own.len() && own[k] == t;
        assert(all[before.len() + k] == t);
    }
}

proof fn lemma_model_cleared(m: AkashaModelView, i: int)
    requires
        0 <= i < m.layers.len(),
    ensures
        block_cleared(m.layers[i]).subset_of(model_cleared(m)),
{
    let w = transformer::block_weight_grads(m.layers[i]);
    let t4 = transformer::block_transient_grads(m.layers[i]);
    let p = akasha_model::model_params(m);
    let s = akasha_model::stack_params(m.layers, m.layers.len());
    assert forall|t: Tensor| block_cleared(m.layers[i]).contains(t) implies model_cleared(
        m,
    ).contains(t) by {
        assert((w + t4).contains(t));
        let k = choose|k: int| 0 <= k < (w + t4).len() && (w + t4)[k] == t;
        if k < w.len() {
            assert(w[k] == t);
            lemma_stack_params(m.layers, m.layers.len(), i, t);
            let q = choose|q: int| 0 <= q < s.len() && (#[trigger] s[q]).1 == t;
            assert(p[q + 1] == s[q]);
        } else {
            assert(t4[k - w.len()] == t);
            lemma_stack_transient(m.layers, m.layers.len(), i, t);
        }
    }
}

proof fn lemma_stack(
    c: Seq<Init>,
    e: Seq<Init>,
    cfg: ModelConfig,
    blocks: Seq<BlockWeights>,
    input: Tensor,
    n: nat,
    i: int,
)
    requires
        0 <= i < n,
    ensures
        akasha_model::stack(c, e, cfg, blocks, input, n).1.len() == n,
        clean(
            akasha_model::stack(c, e, cfg, blocks, input, n).1[i].backward_graph,
            block_cleared(akasha_model::stack(c, e, cfg, blocks, input, n).1[i]),
        ),
    decreases n,
{
    let p = akasha_model::stack(c, e, cfg, blocks, input, (n - 1) as nat);
    if i < n - 1 {
        lemma_stack(c, e, cfg, blocks, input, (n - 1) as nat, i);
    } else {
        akasha_model::lemma_stack_len(c, e, cfg, blocks, input, (n - 1) as nat);
        let d = cfg.seq_len * cfg.dim;
        block_adds_into_cleared(
            p.0,
            cfg,
            blocks[n - 1],
            p.2,
            transformer::grad_buf(e, n as int, d),
            transformer::grad_buf(e, n - 1, d),
        );
    }
}

proof fn lemma_stack_backward(vs: Seq<TransformerBlockView>, n: nat, z: Set<Tensor>)
    requires
        n <= vs.len(),
        forall|i: int| 0 <= i < vs.len() ==> clean((#[trigger] vs[i]).backward_graph, z),
    ensures
        clean(akasha_model::stack_backward(vs, n), z),
    decreases n,
{
    if n > 0 {
        lemma_stack_backward(vs, (n - 1) as nat, z);
        lemma_concat(
            akasha_model::stack_backward(vs, (n - 1) as nat),
            vs[vs.len() - n].backward_graph,
            z,
        );
    }
}

/// A model's backward pass adds only into buffers that it has cleared itself, into
/// the gradients of trainable tensors, and into transient gradients.
pub proof fn model_adds_into_cleared(
    c: Seq<Init>,
    cfg: ModelConfig,
    blocks: Seq<BlockWeights>,
    std: Scalar,
    input_tokens: Tensor,
)
    ensures
        clean(
            akasha_model::model_build(c, cfg, blocks, std, input_tokens).1.fused_backward_graph,
            model_cleared(akasha_model::model_build(c, cfg, blocks, std, input_tokens).1),
        ),
{
    reveal(akasha_model::model_build);
    let m = akasha_model::model_build(c, cfg, blocks, std, input_tokens).1;
    let z = model_cleared(m);
    let p = akasha_model::model_params(m);
    let k: int = akasha_model::stack_params(m.layers, m.layers.len()).len() as int;
    assert(p[0].1 == m.embedding.grad_table);
    assert(p[k + 1].1 == m.final_norm.grad_weight);
    assert(p[k + 2].1 == m.lm_head.grad_weight);
    lemma_parts(c, cfg, blocks, std, input_tokens);
    assert forall|i: int| 0 <= i < m.layers.len() implies clean(
        (#[trigger] m.layers[i]).backward_graph,
        z,
    ) by {
        lemma_model_layer(c, cfg, blocks, std, input_tokens, i);
        lemma_model_cleared(m, i);
        lemma_more(m.layers[i].backward_graph, block_cleared(m.layers[i]), z);
    }
    lemma_stack_backward(m.layers, m.layers.len(), z);
    lemma_linear(m.lm_head, z);
    lemma_norm(m.final_norm, z);
    lemma_one(m.embedding.backward_graph[0], z);
    assert(m.embedding.backward_graph =~= seq![m.embedding.backward_graph[0]]);
    let g0 = m.cross_entropy.backward_graph;
    let g1 = g0 + m.lm_head.backward_graph;
    lemma_concat(g0, m.lm_head.backward_graph, z);
    let g2 = g1 + m.final_norm.backward_graph;
    lemma_concat(g1, m.final_norm.backward_graph, z);
    let back = akasha_model::stack_backward(m.layers, m.layers.len());
    let g3 = g2 + back;
    lemma_concat(g2, back, z);
    lemma_concat(g3, m.embedding.backward_graph, z);
}

/// The parts of a model around its blocks.
proof fn lemma_parts(
    c: Seq<Init>,
    cfg: ModelConfig,
    blocks: Seq<BlockWeights>,
    std: Scalar,
    input_tokens: Tensor,
)
    ensures
        ({
            let m = akasha_model::model_build(c, cfg, blocks, std, input_tokens).1;
            &&& m.layers.len() == cfg.num_layers
            &&& linear_adds(m.lm_head)
            &&& norm_adds(m.final_norm)
            &&& m.embedding.backward_graph.len() == 1
            &&& m.embedding.backward_graph[0].kernel == Kernel::EmbeddingBwd
            &&& m.embedding.backward_graph[0].buffers[2] == m.embedding.grad_table
            &&& m.cross_entropy.backward_graph.len() == 1
            &&& m.cross_entropy.backward_graph[0].kernel == Kernel::CrossEntropyProbsBwd
            &&& m.fused_backward_graph == m.cross_entropy.backward_graph + m.lm_head.backward_graph
                + m.final_norm.backward_graph + akasha_model::stack_backward(
                m.layers,
                m.layers.len(),
            ) + m.embedding.backward_graph
        }),
{
    reveal(akasha_model::model_build);
    let d = cfg.seq_len * cfg.dim;
    let zero = Scalar::Dec { digits: 0, places: 0 };
    let c1 = device::push_zeros(c, cfg.seq_len * cfg.vocab_size);
    let c2 = device::push_zeros(c1, d);
    let c3 = akasha_model::zeros_ctx(c2, d, (cfg.num_layers + 1) as nat);
    let c4 = c3.push(Init::Normal((cfg.vocab_size * cfg.dim) as u32, zero, std));
    let c5 = layers::embedding_ctx(c4, cfg.vocab_size, cfg.dim, cfg.seq_len);
    let m = akasha_model::model_build(c, cfg, blocks, std, input_tokens).1;
    akasha_model::lemma_stack_len(c5, c2, cfg, blocks, m.embedding.out_buffer, cfg.num_layers as nat);
}

proof fn lemma_model_layer(
    c: Seq<Init>,
    cfg: ModelConfig,
    blocks: Seq<BlockWeights>,
    std: Scalar,
    input_tokens: Tensor,
    i: int,
)
    requires
        0 <= i < cfg.num_layers,
    ensures
        clean(
            akasha_model::model_build(
                c,
                cfg,
                blocks,
                std,
                input_tokens,
            ).1.layers[i].backward_graph,
            block_cleared(
                akasha_model::model_build(c, cfg, blocks, std, input_tokens).1.layers[i],
            ),
        ),
{
    reveal(akasha_model::model_build);
    let d = cfg.seq_len * cfg.dim;
    let zero = Scalar::Dec { digits: 0, places: 0 };
    let c1 = device::push_zeros(c, cfg.seq_len * cfg.vocab_size);
    let c2 = device::push_zeros(c1, d);
    let c3 = akasha_model::zeros_ctx(c2, d, (cfg.num_layers + 1) as nat);
    let c4 = c3.push(Init::Normal((cfg.vocab_size * cfg.dim) as u32, zero, std));
    let c5 = layers::embedding_ctx(c4, cfg.vocab_size, cfg.dim, cfg.seq_len);
    let m = akasha_model::model_build(c, cfg, blocks, std, input_tokens).1;
    lemma_stack(c5, c2, cfg, blocks, m.embedding.out_buffer, cfg.num_layers as nat, i);
}

proof fn lemma_zeroed(vs: Seq<TransformerBlockView>, n: nat, t: Tensor)
    requires
        n <= vs.len(),
        is_grad(akasha_model::stack_params(vs, n), t) || akasha_model::stack_transient(
            vs,
            n,
        ).contains(t),
    ensures
        akasha_model::stack_zeroed(vs, n).contains(t),
    decreases n,
{
    let all = akasha_model::stack_zeroed(vs, n);
    if n > 0 {
        let before = akasha_model::stack_zeroed(vs, (n - 1) as nat);
        let b = vs[n - 1];
        let w = transformer::block_weight_grads(b);
        let own = w + transformer::block_transient_grads(b);
        let p = akasha_model::stack_params(vs, n);
        let q = akasha_model::stack_params(vs, (n - 1) as nat);
        let s = akasha_model::stack_transient(vs, n);
        let r = akasha_model::stack_transient(vs, (n - 1) as nat);
        if is_grad(p, t) {
            let k = choose|k: int| 0 <= k < p.len() && (#[trigger] p[k]).1 == t;
            if k < q.len() {
                assert(q[k].1 == t);
                lemma_zeroed(vs, (n - 1) as nat, t);
                let x = choose|x: int| 0 <= x < before.len() && before[x] == t;
                assert(all[x] == t);
            } else {
                assert(akasha_model::block_params(b)[k - q.len()].1 == t);
                assert(w[k - q.len()] == t);
                assert(all[before.len() + (k - q.len())] == t);
            }
        } else {
            let k = choose|k: int| 0 <= k < s.len() && s[k] == t;
            if k < r.len() {
                assert(r[k] == t);
                lemma_zeroed(vs, (n - 1) as nat, t);
                let x = choose|x: int| 0 <= x < before.len() && before[x] == t;
                assert(all[x] == t);
            } else {
                assert(own[w.len() + (k - r.len())] == t);
                assert(all[before.len() + w.len() + (k - r.len())] == t);
            }
        }
    } else {
        assert(akasha_model::stack_params(vs, 0).len() == 0);
        assert(akasha_model::stack_transient(vs, 0).len() == 0);
    }
}

/// What is zeroed when a cycle begins holds the gradient of every trainable tensor,
/// and every transient gradient.
pub proof fn zero_grad_clears_all(m: AkashaModelView, t: Tensor)
    requires
        model_cleared(m).contains(t),
    ensures
        zero_list(m).contains(t),
{
    let z = zero_list(m);
    let p = akasha_model::model_params(m);
    let n = m.layers.len();
    let s = akasha_model::stack_params(m.layers, n);
    assert(z[0] == m.embedding.grad_table);
    assert(z[1] == m.final_norm.grad_weight);
    assert(z[2] == m.lm_head.grad_weight);
    if is_grad(p, t) {
        let k = choose|k: int| 0 <= k < p.len() && (#[trigger] p[k]).1 == t;
        if 1 <= k < 1 + s.len() {
            assert(s[k - 1].1 == t);
            lemma_zeroed(m.layers, n, t);
            let x = choose|x: int|
                0 <= x < akasha_model::stack_zeroed(m.layers, n).len()
                    && akasha_model::stack_zeroed(m.layers, n)[x] == t;
            assert(z[x + 3] == t);
        }
    } else {
        lemma_zeroed(m.layers, n, t);
        let x = choose|x: int|
            0 <= x < akasha_model::stack_zeroed(m.layers, n).len() && akasha_model::stack_zeroed(
                m.layers,
                n,
            )[x] == t;
        assert(z[x + 3] == t);
    }
}

} // verus!
