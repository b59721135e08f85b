//! The network: kernels, layers, blocks, and the graphs built from them.
pub mod kernels;
pub mod ops;
pub mod weights;
pub mod layers;
pub mod rope;
pub mod transformer;
pub mod attention;
pub mod pipeline;
pub mod akasha_model;
pub mod tape;
pub mod full_seq;
pub mod cached;
pub mod arch;
pub mod blocks;
pub mod grad_clip;
pub mod loss;
pub mod assemble;
pub mod training;
pub mod serving;
pub mod model;
pub mod inference_graphs;
pub mod cache;
pub mod inference;
pub mod chat_session;
pub mod generation;
pub mod sampling;
pub mod checkpoint;
pub mod migrate;
pub mod meaning;
pub mod op_laws;
pub mod layer_laws;
pub mod trainer_laws;
pub mod trainer_block_laws;
pub mod trainer_backward_laws;
pub mod wiring_laws;
pub mod head_laws;
pub mod heads_block_laws;
pub mod trainer_model_laws;
pub mod prompt_laws;
pub mod memorization;
pub mod checks;
pub mod zeroing;
pub mod coverage;
pub mod limits;
pub mod dataflow;
pub mod accumulation;
