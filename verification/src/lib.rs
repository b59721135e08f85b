//! Verified core of a small transformer language model: configuration, data
//! preparation, checkpoints, and the compute graphs of training and inference
//! as exact plans that a GPU runtime executes node by node.
#![allow(unused_imports)]
pub use error::AkashaError;
use vstd::prelude::*;

pub mod config;
pub mod dashboard;
pub mod data;
pub mod device;
pub mod diagnostic;
pub mod error;
pub mod nn;
pub mod overfit;
pub mod random;
pub mod single;
pub mod text;
pub mod training_run;

verus! {

/// Steps between two readings of the training loss.
pub const READ_LOSS: usize = 50;

} // verus!
