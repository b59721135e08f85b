//! Typed kernel metas (`meta`) and one graph-node emitter per kernel (`emit`).
//! `foo(shape)` uploads a constant meta; `foo_with(shape, meta)` takes a
//! caller-owned meta updated between executions. `shape` drives the grid.
use crate::device::ComputeGraph;
use std::marker::PhantomData;
use vstd::prelude::*;

pub mod emit;
pub mod meta;

verus! {

pub struct Train;

pub struct Prefill;

pub struct Decode;

pub trait Phase {

}

pub trait FwdPhase: Phase {

}

/// Square causal attention / full-seq RoPE.
pub trait FullSeqPhase: FwdPhase {

}

/// Reads/writes the KV cache.
pub trait CachedPhase: FwdPhase {

}

impl Phase for Train {

}

impl FwdPhase for Train {

}

impl FullSeqPhase for Train {

}

impl Phase for Prefill {

}

impl FwdPhase for Prefill {

}

impl FullSeqPhase for Prefill {

}

impl CachedPhase for Prefill {

}

impl Phase for Decode {

}

impl FwdPhase for Decode {

}

impl CachedPhase for Decode {

}

/// A graph under construction, tagged with the phase it is for.
pub struct GraphBuilder<P: Phase> {
    pub graph: ComputeGraph,
    pub phase: PhantomData<P>,
}

impl GraphBuilder<Train> {
    pub fn train(graph: ComputeGraph) -> (r: Self)
        ensures
            r.graph == graph,
    {
        Self { graph, phase: PhantomData }
    }
}

impl GraphBuilder<Prefill> {
    pub fn prefill(graph: ComputeGraph) -> (r: Self)
        ensures
            r.graph == graph,
    {
        Self { graph, phase: PhantomData }
    }
}

impl GraphBuilder<Decode> {
    pub fn decode(graph: ComputeGraph) -> (r: Self)
        ensures
            r.graph == graph,
    {
        Self { graph, phase: PhantomData }
    }
}

} // verus!
