//! Positional rotation as a layer of its own.
use super::kernels::emit;
use super::kernels::meta::{KernelMeta, RopeLayerMeta};
use super::layers::{copy_graph, Layer};
use crate::config::FLASH_HEAD_DIM;
use crate::device;
use crate::device::{ComputeGraph, Context, Init, Kernel, NodeView, Tensor};
use vstd::prelude::*;

verus! {

pub struct RoPE {
    pub in_out_buffer: Tensor,
    pub grad_input: Tensor,
    pub forward_graph: ComputeGraph,
    pub backward_graph: ComputeGraph,
}

/// The value of a `RoPE`.
#[verifier::ext_equal]
pub struct RoPEView {
    pub in_out_buffer: Tensor,
    pub grad_input: Tensor,
    pub forward_graph: Seq<NodeView>,
    pub backward_graph: Seq<NodeView>,
}

impl View for RoPE {
    type V = RoPEView;

    open spec fn view(&self) -> RoPEView {
        RoPEView {
            in_out_buffer: self.in_out_buffer,
            grad_input: self.grad_input,
            forward_graph: self.forward_graph@,
            backward_graph: self.backward_graph@,
        }
    }
}

pub open spec fn rope_shape(dim: u32, seq_len: u32) -> RopeLayerMeta {
    RopeLayerMeta { seq_len, dim, head_dim: FLASH_HEAD_DIM }
}

/// One rotation of `buf` in place: one thread for each row and column.
pub open spec fn turn_node(kernel: Kernel, buf: Tensor, meta: Tensor, dim: u32, seq_len: u32) -> NodeView {
    NodeView {
        kernel,
        buffers: seq![buf, meta],
        grid: seq![emit::tiles(dim as int, 16), emit::tiles(seq_len as int, 16), 1u32],
    }
}

/// The layer that `RoPE::new` builds in a context holding `c`: a shape that both
/// passes share, and an input gradient.
pub open spec fn rope_build(
    c: Seq<Init>,
    dim: u32,
    seq_len: u32,
    input_buffer: Tensor,
    grad_output: Tensor,
) -> (Seq<Init>, RoPEView) {
    let m = rope_shape(dim, seq_len).spec_meta();
    let meta = device::next_meta(c, m);
    let c1 = device::push_meta(c, m);
    (
        device::push_zeros(c1, seq_len * dim),
        RoPEView {
            in_out_buffer: input_buffer,
            grad_input: device::next_zeros(c1, seq_len * dim),
            forward_graph: seq![turn_node(Kernel::Rope, input_buffer, meta, dim, seq_len)],
            backward_graph: seq![turn_node(Kernel::RopeBwd, grad_output, meta, dim, seq_len)],
        },
    )
}

impl RoPE {
    pub fn new(
        ctx: &mut Context,
        dim: u32,
        seq_len: u32,
        input_buffer: Tensor,
        grad_output: Tensor,
    ) -> (r: Self)
        requires
            dim + 15 <= u32::MAX,
            seq_len + 15 <= u32::MAX,
            seq_len * dim <= u32::MAX,
        ensures
            (final(ctx)@, r@) == rope_build(old(ctx)@, dim, seq_len, input_buffer, grad_output),
    {
        let shape = RopeLayerMeta { seq_len, dim, head_dim: FLASH_HEAD_DIM };
        let meta = shape.upload(ctx);
        let grid: [u32; 3] = [(dim + 15) / 16, (seq_len + 15) / 16, 1];
        let mut forward_graph = ComputeGraph::new();
        forward_graph.add_node(Kernel::Rope, vec![input_buffer, meta], grid);
        let grad_input = ctx.zeros(seq_len * dim);
        let mut backward_graph = ComputeGraph::new();
        backward_graph.add_node(Kernel::RopeBwd, vec![grad_output, meta], grid);
        let r = Self { in_out_buffer: input_buffer, grad_input, forward_graph, backward_graph };
        proof {
            let b = rope_build(old(ctx)@, dim, seq_len, input_buffer, grad_output).1;
            assert(r@.forward_graph[0] =~= b.forward_graph[0]);
            assert(r@.backward_graph[0] =~= b.backward_graph[0]);
            assert(r@ =~= b);
        }
        r
    }
}

impl Layer for RoPE {
    open spec fn forward_nodes(&self) -> Seq<NodeView> {
        self.forward_graph@
    }

    open spec fn backward_nodes(&self) -> Seq<NodeView> {
        self.backward_graph@
    }

    fn forward(&self) -> ComputeGraph {
        copy_graph(&self.forward_graph)
    }

    fn backward(&self) -> ComputeGraph {
        copy_graph(&self.backward_graph)
    }
}

} // verus!
