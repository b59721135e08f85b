//! Streaming dataset: a large corpus is tokenized once into on-disk shards, raw
//! little-endian `u32` tokens without a header; training then samples random
//! windows from a small resident pool instead of holding the whole corpus in
//! memory.
pub mod dataset;
pub mod finetune;
pub mod shard;
pub mod tokenize;

pub use dataset::Dataset;
