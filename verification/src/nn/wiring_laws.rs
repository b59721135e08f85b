//! What a block's list of nodes computes, in each phase. Every node reads the results
//! that its inputs name and gives the formula that its op computes; the last node of
//! the list then holds the transformer block of the input, whatever the phase.
use super::arch::{Name, NodeSpecView};
use super::blocks;
use super::cached::{
    CacheWriteOp, CachedAttentionOp, DecodeOp, DecodeOpView, HeadGatherOp, PrefillOpView,
    RopeOffsetOp,
};
use super::full_seq::{
    AttentionOpView, LinearOp, QkvSplitOp, RmsNormOp, RopeQkOp, TrainOpView,
};
use super::layer_laws;
use super::meaning::{self, Memory, Term, Turn};
use super::op_laws;
use super::tape::Advance;
use super::trainer_block_laws;
use super::trainer_laws;
use super::weights::BlockWeights;
use crate::config::ModelConfig;
use crate::device::{Init, Tensor};
use vstd::prelude::*;

verus! {

// ---- reading a list of nodes ----

/// An op, of whichever phase.
pub enum Part {
    Norm(RmsNormOp),
    Linear(LinearOp),
    Silu,
    Add,
    Split(QkvSplitOp),
    Rope(RopeQkOp),
    Attend(AttentionOpView),
    Gather(HeadGatherOp),
    Turn(RopeOffsetOp),
    Write(CacheWriteOp),
    Cached(CachedAttentionOp),
    Other,
}

pub open spec fn train_part(v: TrainOpView) -> Part {
    match v {
        TrainOpView::Linear(op) => Part::Linear(op),
        TrainOpView::RmsNorm(op) => Part::Norm(op),
        TrainOpView::Silu(op) => Part::Silu,
        TrainOpView::Add(op) => Part::Add,
        TrainOpView::RopeQk(op) => Part::Rope(op),
        TrainOpView::QkvSplit(op) => Part::Split(op),
        TrainOpView::Attention(op) => Part::Attend(op),
        _ => Part::Other,
    }
}

pub open spec fn prefill_part(v: PrefillOpView) -> Part {
    match v {
        PrefillOpView::Linear(op) => Part::Linear(op),
        PrefillOpView::RmsNorm(op) => Part::Norm(op),
        PrefillOpView::Silu(op) => Part::Silu,
        PrefillOpView::Add(op) => Part::Add,
        PrefillOpView::RopeQk(op) => Part::Rope(op),
        PrefillOpView::QkvSplit(op) => Part::Split(op),
        PrefillOpView::Attention(op) => Part::Attend(op),
        PrefillOpView::CacheWrite(op) => Part::Write(op),
        _ => Part::Other,
    }
}

pub open spec fn decode_part(v: DecodeOpView) -> Part {
    match v {
        DecodeOpView::Linear(op) => Part::Linear(op),
        DecodeOpView::RmsNorm(op) => Part::Norm(op),
        DecodeOpView::Silu(op) => Part::Silu,
        DecodeOpView::Add(op) => Part::Add,
        DecodeOpView::RopeOffset(op) => Part::Turn(op),
        DecodeOpView::HeadGather(op) => Part::Gather(op),
        DecodeOpView::CacheWrite(op) => Part::Write(op),
        DecodeOpView::CachedAttention(op) => Part::Cached(op),
        _ => Part::Other,
    }
}

/// A node: its name, the results that it reads, and its op.
pub struct Line {
    pub name: Name,
    pub inputs: Seq<(Name, usize)>,
    pub part: Part,
}

/// What the nodes have given so far, by name, and what is in memory.
pub struct Reading {
    pub values: Map<Name, Seq<Term>>,
    pub mem: Memory,
}

/// Input `k` of a node.
pub open spec fn taken(r: Reading, line: Line, k: int) -> Term {
    r.values[line.inputs[k].0][line.inputs[k].1 as int]
}

/// What a node gives: the formulas that the laws of the ops state.
pub open spec fn given(r: Reading, line: Line) -> Seq<Term> {
    let x = taken(r, line, 0);
    match line.part {
        Part::Norm(op) => seq![meaning::norm(op.shape, x, r.mem[op.weight])],
        Part::Linear(op) => seq![
            meaning::product(
                op.shape.m as int,
                op.shape.k as int,
                op.shape.n as int,
                x,
                r.mem[op.weight],
            ),
        ],
        Part::Silu => seq![meaning::silu(x)],
        Part::Add => seq![meaning::sum(x, taken(r, line, 1))],
        Part::Split(op) => seq![
            meaning::columns(meaning::slice(op.shape, 0), x),
            meaning::columns(meaning::slice(op.shape, 1), x),
            meaning::columns(meaning::slice(op.shape, 2), x),
        ],
        Part::Rope(op) => seq![
            op_laws::rotated_each(op, x, op.batch_size as nat),
            op_laws::rotated_each(op, taken(r, line, 1), op.batch_size as nat),
        ],
        Part::Attend(op) => seq![
            op_laws::attended_each(
                op,
                r.mem[op.out],
                x,
                taken(r, line, 1),
                taken(r, line, 2),
                op.batch_size as nat,
            ),
        ],
        Part::Gather(op) => seq![meaning::columns(op.shape, x)],
        Part::Turn(op) => seq![
            meaning::rotated(
                Turn {
                    first: 0,
                    rows: op.shape.seq_len as int,
                    dim: op.shape.dim as int,
                    head_dim: op.shape.head_dim as int,
                    pos: op.shape.pos as int,
                },
                x,
            ),
        ],
        Part::Write(op) => seq![x],
        Part::Cached(op) => seq![
            meaning::weighed(
                op.attn_shape,
                meaning::softmax(
                    op.softmax_shape,
                    meaning::scores(op.attn_shape, x, r.mem[op.cache_k]),
                ),
                r.mem[op.cache_v],
            ),
        ],
        Part::Other => seq![Term::Zero],
    }
}

/// What is in memory behind a node: only cache writes outlive their block.
pub open spec fn kept(r: Reading, line: Line) -> Memory {
    match line.part {
        Part::Write(op) => r.mem.insert(
            op.cache,
            meaning::with_rows(op.shape, r.mem[op.cache], taken(r, line, 0)),
        ),
        _ => r.mem,
    }
}

/// The reading of the first `n` nodes, on the input `x`.
pub open spec fn reading(lines: Seq<Line>, x: Term, mem: Memory, n: nat) -> Reading
    decreases n,
{
    if n == 0 {
        Reading { values: Map::<Name, Seq<Term>>::empty().insert(Name::Input, seq![x]), mem }
    } else {
        let r = reading(lines, x, mem, (n - 1) as nat);
        let line = lines[n - 1];
        Reading { values: r.values.insert(line.name, given(r, line)), mem: kept(r, line) }
    }
}

pub open spec fn train_lines(specs: Seq<NodeSpecView<TrainOpView>>) -> Seq<Line> {
    Seq::new(
        specs.len(),
        |k: int|
            Line { name: specs[k].name, inputs: specs[k].inputs, part: train_part(specs[k].op) },
    )
}

pub open spec fn prefill_lines(specs: Seq<NodeSpecView<PrefillOpView>>) -> Seq<Line> {
    Seq::new(
        specs.len(),
        |k: int|
            Line { name: specs[k].name, inputs: specs[k].inputs, part: prefill_part(specs[k].op) },
    )
}

/// The nodes of a decode block, moved on to position `pos`.
pub open spec fn decode_lines(specs: Seq<NodeSpecView<DecodeOpView>>, pos: u32) -> Seq<Line> {
    Seq::new(
        specs.len(),
        |k: int|
            Line {
                name: specs[k].name,
                inputs: specs[k].inputs,
                part: decode_part(<DecodeOp as Advance>::advanced(specs[k].op, pos)),
            },
    )
}

// ---- laws ----

proof fn lemma_turned(op: RopeQkOp, cfg: ModelConfig, x: Term, n: nat)
    requires
        op.shape.seq_len == cfg.seq_len,
        op.shape.dim == cfg.dim,
        op.shape.head_dim == cfg.dim as int / cfg.num_heads as int,
    ensures
        op_laws::rotated_each(op, x, n) == trainer_block_laws::turned(cfg, x, n),
    decreases n,
{
    if n > 0 {
        lemma_turned(op, cfg, x, (n - 1) as nat);
    }
}

proof fn lemma_attended(op: AttentionOpView, into: Term, q: Term, k: Term, v: Term, n: nat)
    ensures
        op_laws::attended_each(op, into, q, k, v, n) == trainer_laws::attended(
            op.seq_len,
            op.dim,
            op.head_dim,
            into,
            q,
            k,
            v,
            n,
        ),
    decreases n,
{
    if n > 0 {
        lemma_attended(op, into, q, k, v, (n - 1) as nat);
    }
}

/// The nodes behind the attention, read from node `k` on: projection, sum, norm,
/// feed-forward layers, sum.
proof fn lemma_read_epilogue(
    lines: Seq<Line>,
    x: Term,
    mem: Memory,
    k: nat,
    cfg: ModelConfig,
    bw: BlockWeights,
    rows: u32,
)
    requires
        lines.len() == k + 7,
        ({
            let r = reading(lines, x, mem, k);
            &&& r.values[Name::Input] == seq![x]
            &&& r.mem[bw.out_proj] == mem[bw.out_proj] && r.mem[bw.norm_2] == mem[bw.norm_2]
            &&& r.mem[bw.ffn_up] == mem[bw.ffn_up] && r.mem[bw.ffn_down] == mem[bw.ffn_down]
        }),
        lines[k as int].name == Name::Proj && lines[k as int + 1].name == Name::Add1,
        lines[k as int + 2].name == Name::N2 && lines[k as int + 3].name == Name::Up,
        lines[k as int + 4].name == Name::Silu && lines[k as int + 5].name == Name::Down,
        lines[k as int + 6].name == Name::Add2,
        lines[k as int].inputs == seq![(Name::Attn, 0usize)],
        lines[k as int + 1].inputs == seq![(Name::Input, 0usize), (Name::Proj, 0usize)],
        lines[k as int + 2].inputs == seq![(Name::Add1, 0usize)],
        lines[k as int + 3].inputs == seq![(Name::N2, 0usize)],
        lines[k as int + 4].inputs == seq![(Name::Up, 0usize)],
        lines[k as int + 5].inputs == seq![(Name::Silu, 0usize)],
        lines[k as int + 6].inputs == seq![(Name::Add1, 0usize), (Name::Down, 0usize)],
        is_linear(lines[k as int].part, bw.out_proj, rows, cfg.dim as int, cfg.dim as int),
        lines[k as int + 1].part is Add,
        is_norm(lines[k as int + 2].part, bw.norm_2, rows, cfg),
        is_linear(lines[k as int + 3].part, bw.ffn_up, rows, cfg.dim as int, cfg.ffn_hidden as int),
        lines[k as int + 4].part is Silu,
        is_linear(lines[k as int + 5].part, bw.ffn_down, rows, cfg.ffn_hidden as int, cfg.dim as int),
        lines[k as int + 6].part is Add,
    ensures
        ({
            let r = reading(lines, x, mem, k);
            let last = reading(lines, x, mem, k + 7);
            &&& last.values[Name::Add2] == seq![
                layer_laws::behind_block(cfg, bw, rows as int, mem, x, r.values[Name::Attn][0]),
            ]
            &&& last.mem == r.mem
        }),
{
    let r0 = reading(lines, x, mem, k);
    let r1 = reading(lines, x, mem, k + 1);
    let r2 = reading(lines, x, mem, k + 2);
    let r3 = reading(lines, x, mem, k + 3);
    let r4 = reading(lines, x, mem, k + 4);
    let r5 = reading(lines, x, mem, k + 5);
    let r6 = reading(lines, x, mem, k + 6);
    let last = reading(lines, x, mem, k + 7);
    let a = r0.values[Name::Attn][0];
    let mid = layer_laws::behind_attention(cfg, bw, rows as int, mem, x, a);
    assert(r2.values[Name::Add1] == seq![mid]);
    assert(r3.values[Name::N2] == seq![
        layer_laws::row_norm(cfg, rows as int, mid, mem[bw.norm_2]),
    ]);
    assert(r5.values[Name::Silu] == seq![
        layer_laws::activated(cfg, bw, rows as int, mem, mid),
    ]);
    assert(r6.values[Name::Add1] == seq![mid]);
}

/// A product of `rows` rows with weight `w`.
pub open spec fn is_linear(p: Part, w: Tensor, rows: u32, i: int, o: int) -> bool {
    p matches Part::Linear(op) && op.weight == w && op.shape.m == rows && op.shape.k == i
        && op.shape.n == o
}

/// The model's norm of `rows` rows with gain `w`.
pub open spec fn is_norm(p: Part, w: Tensor, rows: u32, cfg: ModelConfig) -> bool {
    p matches Part::Norm(op) && op.weight == w && op.shape.seq_len == rows && op.shape.size
        == cfg.dim && op.shape.eps == cfg.norm_eps
}

/// The nodes of a training block compute the transformer block of the input: every
/// sequence of the batch attends within itself.
pub proof fn training_block_is_a_block(
    c: Seq<Init>,
    bw: BlockWeights,
    cfg: ModelConfig,
    x: Term,
    mem: Memory,
)
    requires
        blocks::full_fits(cfg, bw, cfg.seq_len, cfg.batch_size),
    ensures
        ({
            let specs = blocks::train_build(c, bw, cfg).1;
            let lines = train_lines(specs);
            let last = reading(lines, x, mem, lines.len());
            let rows = cfg.batch_size * cfg.seq_len;
            let n = cfg.batch_size as nat;
            let role = |i: int| layer_laws::role(cfg, bw, rows, mem, x, i);
            &&& specs.last().name == Name::Add2
            &&& last.values[Name::Add2] == seq![
                layer_laws::behind_block(
                    cfg,
                    bw,
                    rows,
                    mem,
                    x,
                    trainer_laws::attended(
                        cfg.seq_len,
                        cfg.dim,
                        cfg.spec_head_dim(),
                        mem[(specs[4].op->Attention_0).out],
                        trainer_block_laws::turned(cfg, role(0), n),
                        trainer_block_laws::turned(cfg, role(1), n),
                        role(2),
                        n,
                    ),
                ),
            ]
        }),
{
    let specs = blocks::train_build(c, bw, cfg).1;
    let lines = train_lines(specs);
    let rows = (cfg.batch_size * cfg.seq_len) as u32;
    let n = cfg.batch_size as nat;
    reveal(blocks::train_build);
    let qkv = layer_laws::fused_qkv(cfg, bw, rows as int, mem, x);
    let role = |i: int| layer_laws::role(cfg, bw, rows as int, mem, x, i);
    let r0 = reading(lines, x, mem, 0);
    let r1 = reading(lines, x, mem, 1);
    let r2 = reading(lines, x, mem, 2);
    let r3 = reading(lines, x, mem, 3);
    let r4 = reading(lines, x, mem, 4);
    let r5 = reading(lines, x, mem, 5);
    assert(r1.values[Name::N1] == seq![
        layer_laws::row_norm(cfg, rows as int, x, mem[bw.norm_1]),
    ]);
    assert(r2.values[Name::Qkv] == seq![qkv]);
    let split = specs[2].op->QkvSplit_0;
    assert(meaning::slice(split.shape, 0) == layer_laws::part(cfg, rows as int, 0));
    assert(meaning::slice(split.shape, 1) == layer_laws::part(cfg, rows as int, 1));
    assert(meaning::slice(split.shape, 2) == layer_laws::part(cfg, rows as int, 2));
    assert(r3.values[Name::Split] == seq![role(0), role(1), role(2)]);
    trainer_block_laws::lemma_turn_sizes(cfg, 0, 1);
    let rope = specs[3].op->RopeQk_0;
    lemma_turned(rope, cfg, role(0), n);
    lemma_turned(rope, cfg, role(1), n);
    assert(r4.values[Name::Rope] == seq![
        trainer_block_laws::turned(cfg, role(0), n),
        trainer_block_laws::turned(cfg, role(1), n),
    ]);
    let attn = specs[4].op->Attention_0;
    lemma_attended(
        attn,
        mem[attn.out],
        trainer_block_laws::turned(cfg, role(0), n),
        trainer_block_laws::turned(cfg, role(1), n),
        role(2),
        n,
    );
    assert(r5.values[Name::Attn].len() == 1);
    lemma_read_epilogue(lines, x, mem, 5, cfg, bw, rows);
}

/// The nodes of a prefill block compute the transformer block of the prompt, and
/// leave the rotated keys and the values in the first rows of the caches.
pub proof fn prefill_block_is_a_block(
    c: Seq<Init>,
    bw: BlockWeights,
    cache_k: Tensor,
    cache_v: Tensor,
    cfg: ModelConfig,
    prompt_len: u32,
    x: Term,
    mem: Memory,
)
    requires
        blocks::full_fits(cfg, bw, prompt_len, 1),
        cache_k != cache_v,
        layer_laws::apart(bw, seq![cache_k, cache_v]),
        cache_k.id < c.len() && cache_v.id < c.len(),
        blocks::prefill_build(c, bw, cache_k, cache_v, cfg, prompt_len).0.len() <= usize::MAX,
    ensures
        ({
            let specs = blocks::prefill_build(c, bw, cache_k, cache_v, cfg, prompt_len).1;
            let lines = prefill_lines(specs);
            let last = reading(lines, x, mem, lines.len());
            &&& specs.last().name == Name::Add2
            &&& last.values[Name::Add2].len() == 1
            &&& layer_laws::is_prompt_block(
                cfg,
                bw,
                prompt_len as int,
                mem,
                x,
                last.values[Name::Add2][0],
            )
            &&& last.mem[cache_k] == layer_laws::prompt_keys(
                cfg,
                bw,
                prompt_len as int,
                mem,
                x,
                cache_k,
            )
            &&& last.mem[cache_v] == layer_laws::prompt_values(
                cfg,
                bw,
                prompt_len as int,
                mem,
                x,
                cache_v,
            )
        }),
{
    let specs = blocks::prefill_build(c, bw, cache_k, cache_v, cfg, prompt_len).1;
    let lines = prefill_lines(specs);
    let rows = prompt_len;
    reveal(blocks::prefill_build);
    let pair = seq![cache_k, cache_v];
    assert(pair[0] == cache_k && pair[1] == cache_v);
    let qkv = layer_laws::fused_qkv(cfg, bw, rows as int, mem, x);
    let role = |i: int| layer_laws::role(cfg, bw, rows as int, mem, x, i);
    let turn = layer_laws::positions(cfg, rows as int, 0);
    let r0 = reading(lines, x, mem, 0);
    let r1 = reading(lines, x, mem, 1);
    let r2 = reading(lines, x, mem, 2);
    let r3 = reading(lines, x, mem, 3);
    let r4 = reading(lines, x, mem, 4);
    let r5 = reading(lines, x, mem, 5);
    let r6 = reading(lines, x, mem, 6);
    let r7 = reading(lines, x, mem, 7);
    assert(r1.values[Name::N1] == seq![
        layer_laws::row_norm(cfg, rows as int, x, mem[bw.norm_1]),
    ]);
    assert(r2.values[Name::Qkv] == seq![qkv]);
    let split = specs[2].op->QkvSplit_0;
    assert(meaning::slice(split.shape, 0) == layer_laws::part(cfg, rows as int, 0));
    assert(meaning::slice(split.shape, 1) == layer_laws::part(cfg, rows as int, 1));
    assert(meaning::slice(split.shape, 2) == layer_laws::part(cfg, rows as int, 2));
    assert(r3.values[Name::Split] == seq![role(0), role(1), role(2)]);
    let rope = specs[3].op->RopeQk_0;
    lemma_turned_once(rope, cfg, rows, role(0));
    lemma_turned_once(rope, cfg, rows, role(1));
    assert(r4.values[Name::Rope] == seq![
        meaning::rotated(turn, role(0)),
        meaning::rotated(turn, role(1)),
    ]);
    assert(r5.values[Name::KWritten] == seq![meaning::rotated(turn, role(1))]);
    assert(r6.values[Name::VWritten] == seq![role(2)]);
    let attn = specs[6].op->Attention_0;
    assert(attn.out.id >= c.len());
    lemma_attended_once(
        attn,
        r6.mem[attn.out],
        meaning::rotated(turn, role(0)),
        meaning::rotated(turn, role(1)),
        role(2),
    );
    assert(r7.values[Name::Attn] == seq![
        meaning::attention(
            layer_laws::whole_prompt(cfg, rows as int),
            r6.mem[attn.out],
            meaning::rotated(turn, role(0)),
            meaning::rotated(turn, role(1)),
            role(2),
        ),
    ]);
    lemma_read_epilogue(lines, x, mem, 7, cfg, bw, rows);
}

proof fn lemma_turned_once(op: RopeQkOp, cfg: ModelConfig, rows: u32, x: Term)
    requires
        op.shape.seq_len == rows,
        op.shape.dim == cfg.dim,
        op.shape.head_dim == cfg.spec_head_dim(),
    ensures
        op_laws::rotated_each(op, x, 1) == meaning::rotated(
            layer_laws::positions(cfg, rows as int, 0),
            x,
        ),
{
    reveal_with_fuel(op_laws::rotated_each, 2);
    assert(0 * op.shape.seq_len == 0);
}

proof fn lemma_attended_once(op: AttentionOpView, into: Term, q: Term, k: Term, v: Term)
    ensures
        op_laws::attended_each(op, into, q, k, v, 1) == meaning::attention(
            op_laws::sequence(op, 0),
            into,
            q,
            k,
            v,
        ),
        op_laws::sequence(op, 0).row_offset == 0,
{
    reveal_with_fuel(op_laws::attended_each, 2);
    assert(0 * op.seq_len == 0);
}

/// The nodes of a decode block, moved on to position `pos`, compute the transformer
/// block of the step's row: its rotated key and its value go to row `pos` of the
/// caches, and its rotated query attends to the rows up to that one.
pub proof fn decode_block_is_a_block(
    c: Seq<Init>,
    bw: BlockWeights,
    cache_k: Tensor,
    cache_v: Tensor,
    cfg: ModelConfig,
    max_context_len: u32,
    pos: u32,
    x: Term,
    mem: Memory,
)
    requires
        blocks::decode_fits(cfg, bw, max_context_len),
        pos < u32::MAX,
        cache_k != cache_v,
        layer_laws::apart(bw, seq![cache_k, cache_v]),
    ensures
        ({
            let specs = blocks::decode_build(c, bw, cache_k, cache_v, cfg, max_context_len).1;
            let lines = decode_lines(specs, pos);
            let last = reading(lines, x, mem, lines.len());
            &&& specs.last().name == Name::Add2
            &&& last.values[Name::Add2] == seq![
                layer_laws::behind_block(
                    cfg,
                    bw,
                    1,
                    mem,
                    x,
                    layer_laws::step_attention(cfg, bw, pos as int, mem, x, cache_k, cache_v),
                ),
            ]
            &&& last.mem[cache_k] == layer_laws::step_keys(
                cfg,
                bw,
                pos as int,
                mem,
                x,
                cache_k,
            )
            &&& last.mem[cache_v] == layer_laws::step_values(
                cfg,
                bw,
                pos as int,
                mem,
                x,
                cache_v,
            )
        }),
{
    let specs = blocks::decode_build(c, bw, cache_k, cache_v, cfg, max_context_len).1;
    let lines = decode_lines(specs, pos);
    reveal(blocks::decode_build);
    let pair = seq![cache_k, cache_v];
    assert(pair[0] == cache_k && pair[1] == cache_v);
    let qkv = layer_laws::fused_qkv(cfg, bw, 1, mem, x);
    let role = |i: int| layer_laws::role(cfg, bw, 1, mem, x, i);
    let turn = layer_laws::positions(cfg, 1, pos as int);
    let r1 = reading(lines, x, mem, 1);
    let r2 = reading(lines, x, mem, 2);
    let r3 = reading(lines, x, mem, 3);
    let r4 = reading(lines, x, mem, 4);
    let r5 = reading(lines, x, mem, 5);
    let r6 = reading(lines, x, mem, 6);
    let r7 = reading(lines, x, mem, 7);
    let r8 = reading(lines, x, mem, 8);
    let r9 = reading(lines, x, mem, 9);
    let r10 = reading(lines, x, mem, 10);
    assert(reading(lines, x, mem, 0).values[Name::Input] == seq![x]);
    assert(r1.values[Name::N1] == seq![layer_laws::row_norm(cfg, 1, x, mem[bw.norm_1])]);
    assert(r2.values[Name::Qkv] == seq![qkv]);
    assert(r3.values[Name::Q] == seq![role(0)]);
    assert(r4.values[Name::K] == seq![role(1)]);
    assert(r5.values[Name::V] == seq![role(2)]);
    assert(r6.values[Name::RopeQ] == seq![meaning::rotated(turn, role(0))]);
    assert(r7.values[Name::RopeK] == seq![meaning::rotated(turn, role(1))]);
    assert(r8.mem[cache_k] == layer_laws::step_keys(cfg, bw, pos as int, mem, x, cache_k));
    assert(r9.mem[cache_k] == r8.mem[cache_k]);
    assert(r9.mem[cache_v] == layer_laws::step_values(cfg, bw, pos as int, mem, x, cache_v));
    assert(r10.values[Name::Attn] == seq![
        layer_laws::step_attention(cfg, bw, pos as int, mem, x, cache_k, cache_v),
    ]);
    lemma_read_epilogue(lines, x, mem, 10, cfg, bw, 1);
}

} // verus!
