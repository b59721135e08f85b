# akasha_core

The verified core of a small transformer language model. `src/` is a Verus
library: its functions have contracts, and Verus proves them but for those listed
under "What is trusted".

The library decides; it does not touch a device, a disk or a float. What a GPU
runs is planned here as values: a `Context` lists every buffer with its initial
contents, a `ComputeGraph` lists every dispatch with its kernel, its buffers and
its grid. Reals that a plan needs (a scale, a learning rate, an epsilon) are kept
symbolic; measured values come in as the bits of single-precision numbers.

## Layout

- `src/config.rs`, `src/device.rs`, `src/error.rs`: profiles and the schedule;
  buffers, kernels and graphs; errors.
- `src/data/`: tokenizing text into shards, sampling windows from a resident pool,
  splitting instruction data.
- `src/nn/kernels/`, `src/nn/ops.rs`: the metas and dispatches of each kernel.
- `src/nn/layers.rs`, `attention.rs`, `pipeline.rs`, `transformer.rs`,
  `akasha_model.rs`, `rope.rs`: the layered model with fused graphs.
- `src/nn/tape.rs`, `full_seq.rs`, `cached.rs`, `arch.rs`, `blocks.rs`,
  `assemble.rs`, `training.rs`, `serving.rs`, `model.rs`: the taped model for
  training, prefill and decode.
- `src/nn/inference.rs`, `inference_graphs.rs`, `cache.rs`, `chat_session.rs`,
  `generation.rs`, `sampling.rs`: generation with a key-value cache.
- `src/nn/checkpoint.rs`, `migrate.rs`: checkpoint files.
- `src/nn/coverage.rs`, `zeroing.rs`, `dataflow.rs`, `accumulation.rs`: laws that span
  the graphs.
- `src/nn/limits.rs`: run-time tests of the conditions under which plans exist.
- `src/training_run.rs`, `diagnostic.rs`, `dashboard.rs`, `overfit.rs`,
  `src/nn/checks.rs`, `memorization.rs`: the decisions of the programs.
- `tests/`: the library from outside, on concrete values.
- `app/`: the program. It lowers plans to `wilupgu` one for one, reads and writes
  files, and does the floating-point arithmetic. Kernels that the runtime does not
  bring are read from `shaders/<name>.wgsl`; text is exchanged as token ids.

## What is trusted

The contracts of the wrappers around `bincode`, `rand` and four functions of std
are believed, not proved. Each stands above its wrapper: `nn/checkpoint.rs`,
`nn/migrate.rs`, `nn/sampling.rs`, `data/tokenize.rs`, `random.rs`, `text.rs`. A
`DiagnosticCheck` is written by the library's user: that its name and its outcome
are what its two ghost predicates say is that user's promise.
