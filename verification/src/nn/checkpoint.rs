//! Checkpoints. A file is the four bytes `AKV3`, then one bincode body. Weights
//! and optimizer moments follow the order of `ModelWeights::params`; that order
//! is the format. Tensors are held as the bits of their 32-bit values, which
//! bincode writes as it writes the values themselves.
use crate::config::ModelConfig;
use crate::data::shard;
use crate::device::Tensor;
use vstd::prelude::*;
use vstd::slice::slice_subrange;

verus! {

/// A tensor's values, bit by bit.
pub type Bits = Vec<u32>;

#[derive(Debug)]
pub struct V3Body {
    pub vocab_size: u32,
    pub dim: u32,
    pub num_heads: u32,
    pub num_layers: u64,
    pub seq_len: u32,
    pub ffn_hidden: u32,
    /// Training-loop step the file was written at (0 for migrated files).
    pub train_step: u64,
    /// Schedule counter (accumulation cycles, not loop steps).
    pub schedule_step: u32,
    pub params: Vec<Bits>,
    /// (m, v) per param, in `params` order. Empty means no optimizer state:
    /// training resumes with a cold optimizer.
    pub moments: Vec<(Bits, Bits)>,
}

/// The value of a `V3Body`.
#[verifier::ext_equal]
pub struct V3View {
    pub vocab_size: u32,
    pub dim: u32,
    pub num_heads: u32,
    pub num_layers: u64,
    pub seq_len: u32,
    pub ffn_hidden: u32,
    pub train_step: u64,
    pub schedule_step: u32,
    pub params: Seq<Seq<u32>>,
    pub moments: Seq<(Seq<u32>, Seq<u32>)>,
}

/// The values of a list of tensors.
pub open spec fn bits(params: Seq<Bits>) -> Seq<Seq<u32>> {
    Seq::new(params.len(), |i: int| params[i]@)
}

/// The values of a list of tensor pairs.
pub open spec fn pair_bits(pairs: Seq<(Bits, Bits)>) -> Seq<(Seq<u32>, Seq<u32>)> {
    Seq::new(pairs.len(), |i: int| (pairs[i].0@, pairs[i].1@))
}

impl View for V3Body {
    type V = V3View;

    open spec fn view(&self) -> V3View {
        V3View {
            vocab_size: self.vocab_size,
            dim: self.dim,
            num_heads: self.num_heads,
            num_layers: self.num_layers,
            seq_len: self.seq_len,
            ffn_hidden: self.ffn_hidden,
            train_step: self.train_step,
            schedule_step: self.schedule_step,
            params: bits(self.params@),
            moments: pair_bits(self.moments@),
        }
    }
}

// ---- bincode ----

/// The first fields of a body.
pub type V3Head = (u32, u32, u32, u64);

/// The fields between those and the tensors.
pub type V3Tail = (u32, u32, u64, u32);

/// Why bincode could not read its input.
#[verifier::external_type_specification]
#[verifier::external_body]
pub struct ExBincodeError(bincode::ErrorKind);

/// The eight bytes of a number, low byte first.
pub open spec fn u64_bytes(x: u64) -> Seq<u8> {
    shard::le_bytes((x % 0x1_0000_0000) as u32) + shard::le_bytes((x / 0x1_0000_0000) as u32)
}

/// The bytes of a tensor: its length, then its values.
pub open spec fn tensor_bytes(t: Seq<u32>) -> Seq<u8> {
    u64_bytes(t.len() as u64) + shard::spec_encode(t)
}

/// The bytes of the first `n` tensors.
pub open spec fn first_tensors(ts: Seq<Seq<u32>>, n: nat) -> Seq<u8>
    decreases n,
{
    if n == 0 {
        Seq::empty()
    } else {
        first_tensors(ts, (n - 1) as nat) + tensor_bytes(ts[n - 1])
    }
}

/// The bytes of a list of tensors: its length, then the tensors.
pub open spec fn tensors_bytes(ts: Seq<Seq<u32>>) -> Seq<u8> {
    u64_bytes(ts.len() as u64) + first_tensors(ts, ts.len())
}

/// The bytes of the first `n` pairs.
pub open spec fn first_pairs(ps: Seq<(Seq<u32>, Seq<u32>)>, n: nat) -> Seq<u8>
    decreases n,
{
    if n == 0 {
        Seq::empty()
    } else {
        first_pairs(ps, (n - 1) as nat) + tensor_bytes(ps[n - 1].0) + tensor_bytes(ps[n - 1].1)
    }
}

/// The bytes of a list of tensor pairs: its length, then the pairs.
pub open spec fn pairs_bytes(ps: Seq<(Seq<u32>, Seq<u32>)>) -> Seq<u8> {
    u64_bytes(ps.len() as u64) + first_pairs(ps, ps.len())
}

/// The bytes of a body: its fields in order, numbers low byte first.
#[verifier::opaque]
pub open spec fn v3_bytes(body: V3View) -> Seq<u8> {
    shard::le_bytes(body.vocab_size) + shard::le_bytes(body.dim) + shard::le_bytes(body.num_heads)
        + u64_bytes(body.num_layers) + shard::le_bytes(body.seq_len) + shard::le_bytes(
        body.ffn_hidden,
    ) + u64_bytes(body.train_step) + shard::le_bytes(body.schedule_step) + tensors_bytes(
        body.params,
    ) + pairs_bytes(body.moments)
}

/// The body whose bytes stand at the start of `bytes`, if there is one.
#[verifier::opaque]
pub open spec fn v3_read(bytes: Seq<u8>) -> Option<V3View> {
    if exists|b: V3View| (#[trigger] v3_bytes(b)).is_prefix_of(bytes) {
        Some(choose|b: V3View| (#[trigger] v3_bytes(b)).is_prefix_of(bytes))
    } else {
        None
    }
}

/// Writes a body by `bincode::serialize`, field after field: integers in their full
/// width with the low byte first, lists behind their length. Without a size limit and
/// with lengths that are known, it does not fail.
#[verifier::external_body]
fn write_v3(body: &V3Body) -> (r: Result<Vec<u8>, Box<bincode::ErrorKind>>)
    ensures
        r is Ok,
        r->Ok_0@ == v3_bytes(body@),
{
    let head = (body.vocab_size, body.dim, body.num_heads, body.num_layers);
    let tail = (body.seq_len, body.ffn_hidden, body.train_step, body.schedule_step);
    bincode::serialize(&(head, tail, &body.params, &body.moments))
}

/// Reads a body by `bincode::deserialize`, field after field. It succeeds exactly
/// where the input starts with the bytes of a body, finds that body, of which there
/// is only one, and ignores what stands behind it.
#[verifier::external_body]
fn read_v3(bytes: &[u8]) -> (r: Result<V3Body, Box<bincode::ErrorKind>>)
    ensures
        r is Ok <==> v3_read(bytes@) is Some,
        r is Ok ==> v3_read(bytes@) == Some(r->Ok_0@),
        forall|b: V3View|
            (#[trigger] v3_bytes(b)).is_prefix_of(bytes@) ==> r is Ok && r->Ok_0@ == b,
{
    let (h, t, params, moments): (V3Head, V3Tail, Vec<Bits>, Vec<(Bits, Bits)>) =
        bincode::deserialize(bytes)?;
    Ok(V3Body {
        vocab_size: h.0,
        dim: h.1,
        num_heads: h.2,
        num_layers: h.3,
        seq_len: t.0,
        ffn_hidden: t.1,
        train_step: t.2,
        schedule_step: t.3,
        params,
        moments,
    })
}

// ---- files ----

/// The first bytes of a file.
pub open spec fn v3_magic() -> Seq<u8> {
    seq![0x41u8, 0x4bu8, 0x56u8, 0x33u8]
}

/// The file of a body.
pub open spec fn v3_file(body: V3View) -> Seq<u8> {
    v3_magic() + v3_bytes(body)
}

#[derive(Clone, Copy, Debug, PartialEq, Eq, Structural)]
pub enum CheckpointError {
    /// Fewer than four bytes.
    TooShort,
    /// Not a file of this version; older ones are migrated once.
    NotV3,
    /// The body cannot be read.
    Corrupt,
    /// The file's architecture is not the model's.
    Architecture,
    ParamCount { found: usize, expected: usize },
    ParamLen { index: usize, found: usize, expected: usize },
    MomentCount { found: usize, expected: usize },
}

/// Whether the bytes start with the four given ones.
pub fn has_magic(bytes: &Vec<u8>, a: u8, b: u8, c: u8, d: u8) -> (r: bool)
    ensures
        r == (seq![a, b, c, d]).is_prefix_of(bytes@),
{
    let r = bytes.len() >= 4 && bytes[0] == a && bytes[1] == b && bytes[2] == c && bytes[3] == d;
    proof {
        let m = seq![a, b, c, d];
        if r {
            assert(bytes@.subrange(0, 4) =~= m);
        }
        if m.is_prefix_of(bytes@) {
            assert(bytes@.subrange(0, 4) == m);
            assert(bytes@[0] == m[0] && bytes@[1] == m[1] && bytes@[2] == m[2] && bytes@[3] == m[3]);
        }
    }
    r
}

/// `m` followed by `rest`.
fn with_magic(a: u8, b: u8, c: u8, d: u8, rest: &Vec<u8>) -> (r: Vec<u8>)
    ensures
        r@ == seq![a, b, c, d] + rest@,
{
    let mut r: Vec<u8> = vec![a, b, c, d];
    assert(r@ =~= seq![a, b, c, d] + rest@.subrange(0, 0));
    let mut i: usize = 0;
    while i < rest.len()
        invariant
            i <= rest@.len(),
            r@ == seq![a, b, c, d] + rest@.subrange(0, i as int),
        decreases rest@.len() - i,
    {
        r.push(rest[i]);
        i = i + 1;
        assert(r@ =~= seq![a, b, c, d] + rest@.subrange(0, i as int));
    }
    assert(rest@.subrange(0, i as int) =~= rest@);
    r
}

/// The body of a checkpoint: the model's architecture, its weights, and the
/// optimizer's state if there is one.
pub open spec fn spec_body(
    cfg: ModelConfig,
    params: Seq<Seq<u32>>,
    optim: Option<(Seq<(Seq<u32>, Seq<u32>)>, u32)>,
    train_step: u64,
) -> V3View {
    V3View {
        vocab_size: cfg.vocab_size,
        dim: cfg.dim,
        num_heads: cfg.num_heads,
        num_layers: cfg.num_layers as u64,
        seq_len: cfg.seq_len,
        ffn_hidden: cfg.ffn_hidden,
        train_step,
        schedule_step: match optim {
            Some(o) => o.1,
            None => 0,
        },
        params,
        moments: match optim {
            Some(o) => o.0,
            None => Seq::empty(),
        },
    }
}

/// The value of an optimizer state.
pub open spec fn optim_view(optim: Option<(Vec<(Bits, Bits)>, u32)>) -> Option<
    (Seq<(Seq<u32>, Seq<u32>)>, u32),
> {
    match optim {
        Some(o) => Some((pair_bits(o.0@), o.1)),
        None => None,
    }
}

/// The file of a model's state.
pub fn save(
    cfg: &ModelConfig,
    params: Vec<Bits>,
    optim: Option<(Vec<(Bits, Bits)>, u32)>,
    train_step: u64,
) -> (r: Vec<u8>)
    ensures
        r@ == v3_file(spec_body(*cfg, bits(params@), optim_view(optim), train_step)),
{
    let ghost want = spec_body(*cfg, bits(params@), optim_view(optim), train_step);
    let (moments, schedule_step): (Vec<(Bits, Bits)>, u32) = match optim {
        Some(o) => o,
        None => (Vec::new(), 0),
    };
    let body = V3Body {
        vocab_size: cfg.vocab_size,
        dim: cfg.dim,
        num_heads: cfg.num_heads,
        num_layers: cfg.num_layers as u64,
        seq_len: cfg.seq_len,
        ffn_hidden: cfg.ffn_hidden,
        train_step,
        schedule_step,
        params,
        moments,
    };
    proof {
        assert(body@.moments =~= want.moments);
        assert(body@ =~= want);
    }
    body.to_file()
}

impl V3Body {
    /// The file of a body.
    pub fn to_file(&self) -> (r: Vec<u8>)
        ensures
            r@ == v3_file(self@),
    {
        match write_v3(self) {
            Ok(bytes) => with_magic(0x41, 0x4b, 0x56, 0x33, &bytes),
            Err(e) => Vec::new(),
        }
    }
}

pub struct OptimizerState {
    pub moments: Vec<(Bits, Bits)>,
    pub schedule_step: u32,
}

pub struct LoadedCheckpoint {
    pub train_step: u64,
    /// `None` for weights-only files.
    pub optimizer: Option<OptimizerState>,
}

/// What loading a file does: the tensors that are copied into the model, first
/// to last, and how it ends.
pub struct Loading {
    pub params: Vec<Bits>,
    pub outcome: Result<LoadedCheckpoint, CheckpointError>,
}

/// The value of a loaded checkpoint.
pub open spec fn loaded_view(l: LoadedCheckpoint) -> (u64, Option<
    (Seq<(Seq<u32>, Seq<u32>)>, u32),
>) {
    (
        l.train_step,
        match l.optimizer {
            Some(o) => Some((pair_bits(o.moments@), o.schedule_step)),
            None => None,
        },
    )
}

/// The file's architecture is the model's.
pub open spec fn same_arch(body: V3View, cfg: ModelConfig) -> bool {
    &&& body.vocab_size == cfg.vocab_size
    &&& body.dim == cfg.dim
    &&& body.num_heads == cfg.num_heads
    &&& body.num_layers == cfg.num_layers as u64
    &&& body.ffn_hidden == cfg.ffn_hidden
}

/// The first `n` tensors have the lengths that the model expects.
pub open spec fn lens_fit(params: Seq<Seq<u32>>, targets: Seq<Tensor>, n: int) -> bool {
    forall|i: int| 0 <= i < n ==> (#[trigger] params[i]).len() == targets[i].size as int / 4
}

/// `n` is how many tensors are copied before one has the wrong length, or all.
pub open spec fn copies(params: Seq<Seq<u32>>, targets: Seq<Tensor>, n: int) -> bool {
    &&& 0 <= n <= params.len()
    &&& lens_fit(params, targets, n)
    &&& n < params.len() ==> params[n].len() != targets[n].size as int / 4
}

/// How a body is taken into a model with the given architecture and tensors: the
/// tensors that are copied, and the outcome.
pub open spec fn takes(
    body: V3View,
    cfg: ModelConfig,
    targets: Seq<Tensor>,
    copied: Seq<Seq<u32>>,
    outcome: Result<LoadedCheckpoint, CheckpointError>,
) -> bool {
    if !same_arch(body, cfg) {
        copied.len() == 0 && outcome == Err::<LoadedCheckpoint, CheckpointError>(
            CheckpointError::Architecture,
        )
    } else if body.params.len() != targets.len() {
        copied.len() == 0 && outcome == Err::<LoadedCheckpoint, CheckpointError>(
            CheckpointError::ParamCount {
                found: body.params.len() as usize,
                expected: targets.len() as usize,
            },
        )
    } else if !lens_fit(body.params, targets, body.params.len() as int) {
        exists|n: int|
            #![trigger body.params.subrange(0, n)]
            {
                &&& copies(body.params, targets, n)
                &&& n < body.params.len()
                &&& copied == body.params.subrange(0, n)
                &&& outcome == Err::<LoadedCheckpoint, CheckpointError>(
                    CheckpointError::ParamLen {
                        index: n as usize,
                        found: body.params[n].len() as usize,
                        expected: (targets[n].size as int / 4) as usize,
                    },
                )
            }
    } else if body.moments.len() != 0 && body.moments.len() != targets.len() {
        copied == body.params && outcome == Err::<LoadedCheckpoint, CheckpointError>(
            CheckpointError::MomentCount {
                found: body.moments.len() as usize,
                expected: targets.len() as usize,
            },
        )
    } else {
        copied == body.params && (outcome matches Ok(l) && loaded_view(l) == (
            body.train_step,
            if body.moments.len() == 0 {
                None
            } else {
                Some((body.moments, body.schedule_step))
            },
        ))
    }
}

/// Takes a body into a model.
pub fn take_body(body: V3Body, cfg: &ModelConfig, targets: &Vec<Tensor>) -> (r: Loading)
    ensures
        takes(body@, *cfg, targets@, bits(r.params@), r.outcome),
{
    let ghost b = body@;
    if body.vocab_size != cfg.vocab_size || body.dim != cfg.dim || body.num_heads != cfg.num_heads
        || body.num_layers != cfg.num_layers as u64 || body.ffn_hidden != cfg.ffn_hidden {
        return Loading { params: Vec::new(), outcome: Err(CheckpointError::Architecture) };
    }
    if body.params.len() != targets.len() {
        return Loading {
            params: Vec::new(),
            outcome: Err(
                CheckpointError::ParamCount {
                    found: body.params.len(),
                    expected: targets.len(),
                },
            ),
        };
    }
    let n: usize = body.params.len();
    let mut i: usize = 0;
    while i < n && body.params[i].len() as u64 == targets[i].size / 4
        invariant
            i <= n == body.params@.len(),
            n == targets@.len(),
            b == body@,
            lens_fit(b.params, targets@, i as int),
        decreases n - i,
    {
        assert(b.params[i as int] == body.params@[i as int]@);
        i = i + 1;
    }
    if i < n {
        let found: usize = body.params[i].len();
        let expected: usize = (targets[i].size / 4) as usize;
        assert(b.params[i as int] == body.params@[i as int]@);
        let mut params = body.params;
        params.truncate(i);
        assert(bits(params@) =~= b.params.subrange(0, i as int));
        assert(copies(b.params, targets@, i as int));
        return Loading {
            params,
            outcome: Err(CheckpointError::ParamLen { index: i, found, expected }),
        };
    }
    if body.moments.len() != 0 && body.moments.len() != targets.len() {
        return Loading {
            params: body.params,
            outcome: Err(
                CheckpointError::MomentCount {
                    found: body.moments.len(),
                    expected: targets.len(),
                },
            ),
        };
    }
    let train_step: u64 = body.train_step;
    let optimizer = if body.moments.len() == 0 {
        None
    } else {
        Some(OptimizerState { moments: body.moments, schedule_step: body.schedule_step })
    };
    Loading { params: body.params, outcome: Ok(LoadedCheckpoint { train_step, optimizer }) }
}

/// The body of a file, or why there is none.
pub open spec fn file_body(bytes: Seq<u8>) -> Result<V3View, CheckpointError> {
    if bytes.len() < 4 {
        Err(CheckpointError::TooShort)
    } else if !v3_magic().is_prefix_of(bytes) {
        Err(CheckpointError::NotV3)
    } else {
        match v3_read(bytes.subrange(4, bytes.len() as int)) {
            Some(body) => Ok(body),
            None => Err(CheckpointError::Corrupt),
        }
    }
}

/// Reads the body of a file.
pub fn read_file(bytes: &Vec<u8>) -> (r: Result<V3Body, CheckpointError>)
    ensures
        match r {
            Ok(body) => file_body(bytes@) == Ok::<V3View, CheckpointError>(body@),
            Err(e) => file_body(bytes@) == Err::<V3View, CheckpointError>(e),
        },
        forall|b: V3View|
            bytes@ == #[trigger] v3_file(b) ==> (r matches Ok(body) && body@ == b),
{
    if bytes.len() < 4 {
        proof {
            assert forall|b: V3View| bytes@ == #[trigger] v3_file(b) implies false by {
                assert(v3_file(b).len() >= 4);
            }
        }
        return Err(CheckpointError::TooShort);
    }
    if !has_magic(bytes, 0x41, 0x4b, 0x56, 0x33) {
        proof {
            assert forall|b: V3View| bytes@ == #[trigger] v3_file(b) implies false by {
                assert(v3_file(b).subrange(0, 4) =~= v3_magic());
                assert(v3_magic().is_prefix_of(v3_file(b)));
            }
        }
        return Err(CheckpointError::NotV3);
    }
    let rest = slice_subrange(bytes.as_slice(), 4, bytes.len());
    proof {
        assert forall|b: V3View| bytes@ == #[trigger] v3_file(b) implies v3_bytes(b).is_prefix_of(
            rest@,
        ) by {
            assert(rest@ =~= v3_bytes(b));
            assert(rest@.subrange(0, rest@.len() as int) =~= rest@);
        }
    }
    match read_v3(rest) {
        Ok(body) => Ok(body),
        Err(e) => Err(CheckpointError::Corrupt),
    }
}

/// Loads a file into a model with the given architecture and tensors. A file that
/// was saved is read as it was written.
pub fn load(cfg: &ModelConfig, targets: &Vec<Tensor>, bytes: &Vec<u8>) -> (r: Loading)
    ensures
        match file_body(bytes@) {
            Ok(body) => takes(body, *cfg, targets@, bits(r.params@), r.outcome),
            Err(e) => r.params@.len() == 0 && r.outcome == Err::<
                LoadedCheckpoint,
                CheckpointError,
            >(e),
        },
        forall|b: V3View|
            bytes@ == #[trigger] v3_file(b) ==> takes(b, *cfg, targets@, bits(r.params@), r.outcome),
{
    match read_file(bytes) {
        Ok(body) => take_body(body, cfg, targets),
        Err(e) => Loading { params: Vec::new(), outcome: Err(e) },
    }
}

/// A model takes back what was saved of it: all weights, the step, and the
/// optimizer's state. An optimizer state without moments counts as none.
pub proof fn saved_state_is_taken_back(
    cfg: ModelConfig,
    targets: Seq<Tensor>,
    params: Seq<Seq<u32>>,
    optim: Option<(Seq<(Seq<u32>, Seq<u32>)>, u32)>,
    train_step: u64,
    copied: Seq<Seq<u32>>,
    outcome: Result<LoadedCheckpoint, CheckpointError>,
)
    requires
        params.len() == targets.len(),
        lens_fit(params, targets, params.len() as int),
        optim matches Some(o) ==> o.0.len() == targets.len() && targets.len() > 0,
        takes(spec_body(cfg, params, optim, train_step), cfg, targets, copied, outcome),
    ensures
        copied == params,
        outcome matches Ok(l) && loaded_view(l) == (train_step, optim),
{
}

} // verus!
