//! The key/value cache of an inference session.
use super::model;
use super::model::alloc_zero_buffers;
use crate::device::{Context, Init, Tensor};
use vstd::prelude::*;

verus! {

#[derive(Debug)]
pub struct Cache {
    pub num_layers: usize,
    pub dim: u32,
    pub max_context_len: u32,
    pub cur_len: u32,
    pub k: Vec<Tensor>,
    pub v: Vec<Tensor>,
}

/// The value of a `Cache`.
#[verifier::ext_equal]
pub struct CacheView {
    pub num_layers: usize,
    pub dim: u32,
    pub max_context_len: u32,
    pub cur_len: u32,
    pub k: Seq<Tensor>,
    pub v: Seq<Tensor>,
}

impl View for Cache {
    type V = CacheView;

    open spec fn view(&self) -> CacheView {
        CacheView {
            num_layers: self.num_layers,
            dim: self.dim,
            max_context_len: self.max_context_len,
            cur_len: self.cur_len,
            k: self.k@,
            v: self.v@,
        }
    }
}

impl CacheView {
    /// One buffer pair per layer, and no more rows than the buffers hold.
    pub open spec fn wf(self) -> bool {
        &&& self.k.len() == self.num_layers
        &&& self.v.len() == self.num_layers
        &&& self.cur_len <= self.max_context_len
    }
}

/// The context and the empty cache that `Cache::new` leaves in `c`.
pub open spec fn cache_build(c: Seq<Init>, num_layers: usize, dim: u32, max_context_len: u32) -> (
    Seq<Init>,
    CacheView,
) {
    let (c1, k) = model::zero_buffers(c, max_context_len * dim, num_layers as nat);
    let (c2, v) = model::zero_buffers(c1, max_context_len * dim, num_layers as nat);
    (c2, CacheView { num_layers, dim, max_context_len, cur_len: 0, k, v })
}

impl Cache {
    pub fn new(ctx: &mut Context, num_layers: usize, dim: u32, max_context_len: u32) -> (r: Self)
        requires
            max_context_len * dim <= u32::MAX,
        ensures
            (final(ctx)@, r@) == cache_build(old(ctx)@, num_layers, dim, max_context_len),
            r@.wf(),
    {
        assert(0 <= max_context_len * dim) by (nonlinear_arith);
        let len: u32 = max_context_len * dim;
        let k = alloc_zero_buffers(ctx, len, num_layers);
        let v = alloc_zero_buffers(ctx, len, num_layers);
        Self { num_layers, dim, max_context_len, cur_len: 0, k, v }
    }

    /// Forgets the rows; the buffers stay.
    pub fn reset(&mut self)
        ensures
            final(self)@ == (CacheView { cur_len: 0, ..old(self)@ }),
    {
        self.cur_len = 0;
    }
}

} // verus!
