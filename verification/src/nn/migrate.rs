//! Migration of older checkpoints. Version 1 is a headerless bincode list of
//! (weight, gradient) pairs; version 2 is the four bytes `AKV2`, then one bincode
//! body of an architecture and weights. Migrated files carry no optimizer state
//! and step 0.
use super::checkpoint;
use super::checkpoint::{has_magic, Bits, V3View};
use crate::config::ModelConfig;
use crate::data::shard;
use crate::text::chars_of;
use vstd::prelude::*;
use vstd::slice::slice_subrange;

verus! {

#[derive(Debug)]
pub struct V2Body {
    pub vocab_size: u32,
    pub dim: u32,
    pub num_heads: u32,
    pub num_layers: u64,
    pub seq_len: u32,
    pub ffn_hidden: u32,
    pub params: Vec<Bits>,
}

/// The value of a `V2Body`.
#[verifier::ext_equal]
pub struct V2View {
    pub vocab_size: u32,
    pub dim: u32,
    pub num_heads: u32,
    pub num_layers: u64,
    pub seq_len: u32,
    pub ffn_hidden: u32,
    pub params: Seq<Seq<u32>>,
}

impl View for V2Body {
    type V = V2View;

    open spec fn view(&self) -> V2View {
        V2View {
            vocab_size: self.vocab_size,
            dim: self.dim,
            num_heads: self.num_heads,
            num_layers: self.num_layers,
            seq_len: self.seq_len,
            ffn_hidden: self.ffn_hidden,
            params: checkpoint::bits(self.params@),
        }
    }
}

/// The value of a list of (weight, gradient) pairs.
pub type PairsView = Seq<(Seq<u32>, Seq<u32>)>;

/// The fields of a version 2 body before its weights.
pub type V2Head = (u32, u32, u32, u64, u32, u32);

/// The bytes of a version 2 body: its fields in order, numbers low byte first.
#[verifier::opaque]
pub open spec fn v2_bytes(body: V2View) -> Seq<u8> {
    shard::le_bytes(body.vocab_size) + shard::le_bytes(body.dim) + shard::le_bytes(body.num_heads)
        + checkpoint::u64_bytes(body.num_layers) + shard::le_bytes(body.seq_len)
        + shard::le_bytes(body.ffn_hidden) + checkpoint::tensors_bytes(body.params)
}

/// The version 2 body whose bytes stand at the start of `bytes`, if there is one.
#[verifier::opaque]
pub open spec fn v2_read(bytes: Seq<u8>) -> Option<V2View> {
    if exists|b: V2View| (#[trigger] v2_bytes(b)).is_prefix_of(bytes) {
        Some(choose|b: V2View| (#[trigger] v2_bytes(b)).is_prefix_of(bytes))
    } else {
        None
    }
}

/// The bytes of a list of pairs.
#[verifier::opaque]
pub open spec fn pairs_bytes(pairs: Seq<(Seq<u32>, Seq<u32>)>) -> Seq<u8> {
    checkpoint::pairs_bytes(pairs)
}

/// The list of pairs whose bytes stand at the start of `bytes`, if there is one.
#[verifier::opaque]
pub open spec fn pairs_read(bytes: Seq<u8>) -> Option<Seq<(Seq<u32>, Seq<u32>)>> {
    if exists|p: Seq<(Seq<u32>, Seq<u32>)>| (#[trigger] pairs_bytes(p)).is_prefix_of(bytes) {
        Some(
            choose|p: Seq<(Seq<u32>, Seq<u32>)>| (#[trigger] pairs_bytes(p)).is_prefix_of(bytes),
        )
    } else {
        None
    }
}

/// Writes a version 2 body by `bincode::serialize`, field after field; it does
/// not fail.
#[verifier::external_body]
fn write_v2(body: &V2Body) -> (r: Result<Vec<u8>, Box<bincode::ErrorKind>>)
    ensures
        r is Ok,
        r->Ok_0@ == v2_bytes(body@),
{
    let (a, b, c) = (body.vocab_size, body.dim, body.num_heads);
    let head = (a, b, c, body.num_layers, body.seq_len, body.ffn_hidden);
    bincode::serialize(&(head, &body.params))
}

/// Reads a version 2 body by `bincode::deserialize`, field after field. It succeeds
/// exactly where the input starts with the bytes of a body, finds that body, of
/// which there is only one, and ignores what stands behind it.
#[verifier::external_body]
fn read_v2(bytes: &[u8]) -> (r: Result<V2Body, Box<bincode::ErrorKind>>)
    ensures
        r is Ok <==> v2_read(bytes@) is Some,
        r is Ok ==> v2_read(bytes@) == Some(r->Ok_0@),
        forall|b: V2View|
            (#[trigger] v2_bytes(b)).is_prefix_of(bytes@) ==> r is Ok && r->Ok_0@ == b,
{
    let (h, params): (V2Head, Vec<Bits>) = bincode::deserialize(bytes)?;
    Ok(V2Body {
        vocab_size: h.0,
        dim: h.1,
        num_heads: h.2,
        num_layers: h.3,
        seq_len: h.4,
        ffn_hidden: h.5,
        params,
    })
}

/// Writes a list of pairs by `bincode::serialize`; it does not fail.
#[verifier::external_body]
pub(crate) fn write_pairs(pairs: &Vec<(Bits, Bits)>) -> (r: Result<Vec<u8>, Box<bincode::ErrorKind>>)
    ensures
        r is Ok,
        r->Ok_0@ == pairs_bytes(checkpoint::pair_bits(pairs@)),
{
    bincode::serialize(pairs)
}

/// Reads a list of pairs by `bincode::deserialize`. It succeeds exactly where the
/// input starts with the bytes of a list, finds that list, of which there is only
/// one, and ignores what stands behind it.
#[verifier::external_body]
pub(crate) fn read_pairs(bytes: &[u8]) -> (r: Result<Vec<(Bits, Bits)>, Box<bincode::ErrorKind>>)
    ensures
        r is Ok <==> pairs_read(bytes@) is Some,
        r is Ok ==> pairs_read(bytes@) == Some(checkpoint::pair_bits(r->Ok_0@)),
        forall|p: Seq<(Seq<u32>, Seq<u32>)>|
            (#[trigger] pairs_bytes(p)).is_prefix_of(bytes@) ==> r is Ok && checkpoint::pair_bits(
                r->Ok_0@,
            ) == p,
{
    bincode::deserialize(bytes)
}

#[derive(Clone, Copy, Debug, PartialEq, Eq, Structural)]
pub enum MigrateError {
    /// Fewer than four bytes.
    TooShort,
    /// The file already has the target version.
    AlreadyMigrated,
    /// The body cannot be read.
    Corrupt,
    /// Not three weights and six per layer.
    ParamCount { found: usize },
    /// The tensors' shapes are not those of the model.
    Architecture,
    /// A tensor of a layer does not have the size of the model's.
    LayerSize { layer: usize },
}

pub open spec fn v2_magic() -> Seq<u8> {
    seq![0x41u8, 0x4bu8, 0x56u8, 0x32u8]
}

/// The weights of a list of pairs.
pub open spec fn weights_of(pairs: Seq<(Seq<u32>, Seq<u32>)>) -> Seq<Seq<u32>> {
    Seq::new(pairs.len(), |i: int| pairs[i].0)
}

fn drop_grads(pairs: Vec<(Bits, Bits)>) -> (r: Vec<Bits>)
    ensures
        checkpoint::bits(r@) == weights_of(checkpoint::pair_bits(pairs@)),
{
    let ghost all = weights_of(checkpoint::pair_bits(pairs@));
    let n: usize = pairs.len();
    let mut rest = pairs;
    let mut r: Vec<Bits> = Vec::new();
    let mut i: usize = 0;
    while i < n
        invariant
            i <= n == all.len(),
            rest@.len() == n - i,
            forall|k: int| 0 <= k < n - i ==> (#[trigger] rest@[k]).0@ == all[i + k],
            r@.len() == i,
            forall|k: int| 0 <= k < i ==> (#[trigger] r@[k])@ == all[k],
        decreases n - i,
    {
        assert(rest@[0].0@ == all[i as int]);
        let (w, _g): (Bits, Bits) = rest.remove(0);
        r.push(w);
        i = i + 1;
    }
    assert(checkpoint::bits(r@) =~= all);
    r
}

/// The weights of an old file, or why there are none: what `read_legacy_params`
/// gives.
pub open spec fn legacy(bytes: Seq<u8>) -> Result<Seq<Seq<u32>>, MigrateError> {
    if bytes.len() < 4 {
        Err(MigrateError::TooShort)
    } else if checkpoint::v3_magic().is_prefix_of(bytes) {
        Err(MigrateError::AlreadyMigrated)
    } else if v2_magic().is_prefix_of(bytes) {
        match v2_read(bytes.subrange(4, bytes.len() as int)) {
            Some(b) => Ok(b.params),
            None => Err(MigrateError::Corrupt),
        }
    } else {
        match pairs_read(bytes) {
            Some(p) => Ok(weights_of(p)),
            None => Err(MigrateError::Corrupt),
        }
    }
}

/// Reads the weights of a version 2 or version 1 file; gradients are dropped.
pub fn read_legacy_params(bytes: &Vec<u8>) -> (r: Result<Vec<Bits>, MigrateError>)
    ensures
        match r {
            Ok(p) => legacy(bytes@) == Ok::<Seq<Seq<u32>>, MigrateError>(checkpoint::bits(p@)),
            Err(e) => legacy(bytes@) == Err::<Seq<Seq<u32>>, MigrateError>(e),
        },
        forall|b: V2View|
            bytes@ == #[trigger] v2_file(b) ==> (r matches Ok(p) && checkpoint::bits(p@) == b.params),
        forall|q: Seq<(Seq<u32>, Seq<u32>)>|
            bytes@ == #[trigger] pairs_bytes(q) && untagged(bytes@) ==> (r matches Ok(p)
                && checkpoint::bits(p@) == weights_of(q)),
{
    proof {
        assert forall|b: V2View| #[trigger] v2_magic().is_prefix_of(v2_file(b)) && !(
        checkpoint::v3_magic().is_prefix_of(v2_file(b))) && v2_file(b).len() >= 4 by {
            let f = v2_file(b);
            assert(f.subrange(0, 4) =~= v2_magic());
            assert(f[3] == 0x32);
            if checkpoint::v3_magic().is_prefix_of(f) {
                assert(f.subrange(0, 4) == checkpoint::v3_magic());
                assert(f.subrange(0, 4)[3] == 0x33);
            }
        }
        assert forall|b: V2View| bytes@ == #[trigger] v2_file(b) implies v2_bytes(b).is_prefix_of(
            bytes@.subrange(4, bytes@.len() as int),
        ) by {
            assert(v2_magic().is_prefix_of(v2_file(b)));
            let rest = bytes@.subrange(4, bytes@.len() as int);
            assert(rest =~= v2_bytes(b));
            assert(rest.subrange(0, rest.len() as int) =~= rest);
        }
        assert(bytes@.subrange(0, bytes@.len() as int) =~= bytes@);
        assert(bytes@.is_prefix_of(bytes@));
    }
    if bytes.len() < 4 {
        proof {
            assert forall|b: V2View| bytes@ == #[trigger] v2_file(b) implies false by {
                assert(v2_magic().is_prefix_of(v2_file(b)));
            }
        }
        return Err(MigrateError::TooShort);
    }
    if has_magic(bytes, 0x41, 0x4b, 0x56, 0x33) {
        proof {
            assert forall|b: V2View| bytes@ == #[trigger] v2_file(b) implies false by {
                assert(v2_magic().is_prefix_of(v2_file(b)));
            }
        }
        return Err(MigrateError::AlreadyMigrated);
    }
    if has_magic(bytes, 0x41, 0x4b, 0x56, 0x32) {
        let rest = slice_subrange(bytes.as_slice(), 4, bytes.len());
        match read_v2(rest) {
            Ok(body) => Ok(body.params),
            Err(e) => Err(MigrateError::Corrupt),
        }
    } else {
        proof {
            assert forall|b: V2View| bytes@ == #[trigger] v2_file(b) implies false by {
                assert(v2_magic().is_prefix_of(v2_file(b)));
            }
        }
        match read_pairs(bytes.as_slice()) {
            Ok(pairs) => Ok(drop_grads(pairs)),
            Err(e) => Err(MigrateError::Corrupt),
        }
    }
}

/// The bytes start with the mark of no later version.
pub open spec fn untagged(bytes: Seq<u8>) -> bool {
    &&& bytes.len() >= 4
    &&& !checkpoint::v3_magic().is_prefix_of(bytes)
    &&& !v2_magic().is_prefix_of(bytes)
}

/// Why a list of weights does not fit the model, if it does not. The sizes come
/// from the tensors' shapes: the first norm is as long as the model is wide, the
/// embedding has one row per token, the first up-projection is as wide as the
/// feed-forward part.
pub open spec fn shape_error(params: Seq<Seq<u32>>, cfg: ModelConfig) -> Option<MigrateError> {
    if params.len() < 9 || (params.len() - 3) % 6 != 0 {
        Some(MigrateError::ParamCount { found: params.len() as usize })
    } else {
        let dim = params[1].len();
        if dim == 0 || (params[0].len() / dim) as u32 != cfg.vocab_size || dim as u32 != cfg.dim || (
        params.len() - 3) / 6 != cfg.num_layers || (params[5].len() / dim) as u32
            != cfg.ffn_hidden {
            Some(MigrateError::Architecture)
        } else {
            None
        }
    }
}

/// Whether a list of weights fits the model.
pub fn check_shapes(params: &Vec<Bits>, cfg: &ModelConfig) -> (r: Result<(), MigrateError>)
    ensures
        match r {
            Ok(u) => shape_error(checkpoint::bits(params@), *cfg) is None,
            Err(e) => shape_error(checkpoint::bits(params@), *cfg) == Some(e),
        },
{
    let n: usize = params.len();
    if n < 9 || (n - 3) % 6 != 0 {
        return Err(MigrateError::ParamCount { found: n });
    }
    let ghost p = checkpoint::bits(params@);
    assert(p[0] == params@[0]@ && p[1] == params@[1]@ && p[5] == params@[5]@);
    let dim: usize = params[1].len();
    if dim == 0 {
        return Err(MigrateError::Architecture);
    }
    let vocab_size: usize = params[0].len() / dim;
    let ffn_hidden: usize = params[5].len() / dim;
    if vocab_size as u32 != cfg.vocab_size || dim as u32 != cfg.dim || (n - 3) / 6
        != cfg.num_layers || ffn_hidden as u32 != cfg.ffn_hidden {
        return Err(MigrateError::Architecture);
    }
    Ok(())
}

/// The body that weights are migrated to.
pub open spec fn migrated(cfg: ModelConfig, params: Seq<Seq<u32>>) -> V3View {
    checkpoint::spec_body(cfg, params, None, 0)
}

/// Migrates a version 1 or version 2 file to version 3.
pub fn migrate_v3(bytes: &Vec<u8>, cfg: &ModelConfig) -> (r: Result<Vec<u8>, MigrateError>)
    ensures
        match legacy(bytes@) {
            Err(e) => r == Err::<Vec<u8>, MigrateError>(e),
            Ok(params) => match shape_error(params, *cfg) {
                Some(e) => r == Err::<Vec<u8>, MigrateError>(e),
                None => r matches Ok(file) && file@ == checkpoint::v3_file(migrated(*cfg, params)),
            },
        },
{
    match read_legacy_params(bytes) {
        Ok(params) => {
            match check_shapes(&params, cfg) {
                Ok(u) => Ok(checkpoint::save(cfg, params, None, 0)),
                Err(e) => Err(e),
            }
        },
        Err(e) => Err(e),
    }
}

/// The version 2 file of a body.
pub open spec fn v2_file(body: V2View) -> Seq<u8> {
    v2_magic() + v2_bytes(body)
}

/// The version 2 body of a model's weights.
pub open spec fn v2_body(cfg: ModelConfig, params: Seq<Seq<u32>>) -> V2View {
    V2View {
        vocab_size: cfg.vocab_size,
        dim: cfg.dim,
        num_heads: cfg.num_heads,
        num_layers: cfg.num_layers as u64,
        seq_len: cfg.seq_len,
        ffn_hidden: cfg.ffn_hidden,
        params,
    }
}

/// The weights of a version 1 file, or why there are none.
pub open spec fn v1_weights(bytes: Seq<u8>) -> Result<Seq<Seq<u32>>, MigrateError> {
    if bytes.len() < 4 {
        Err(MigrateError::TooShort)
    } else if v2_magic().is_prefix_of(bytes) {
        Err(MigrateError::AlreadyMigrated)
    } else {
        match pairs_read(bytes) {
            Some(p) => Ok(weights_of(p)),
            None => Err(MigrateError::Corrupt),
        }
    }
}

/// Reads the weights of a version 1 file; gradients are dropped.
pub fn read_v1(bytes: &Vec<u8>) -> (r: Result<Vec<Bits>, MigrateError>)
    ensures
        match r {
            Ok(p) => v1_weights(bytes@) == Ok::<Seq<Seq<u32>>, MigrateError>(checkpoint::bits(p@)),
            Err(e) => v1_weights(bytes@) == Err::<Seq<Seq<u32>>, MigrateError>(e),
        },
{
    if bytes.len() < 4 {
        return Err(MigrateError::TooShort);
    }
    if has_magic(bytes, 0x41, 0x4b, 0x56, 0x32) {
        return Err(MigrateError::AlreadyMigrated);
    }
    match read_pairs(bytes.as_slice()) {
        Ok(pairs) => Ok(drop_grads(pairs)),
        Err(e) => Err(MigrateError::Corrupt),
    }
}

/// Migrates a version 1 file to version 2.
pub fn migrate_v2(bytes: &Vec<u8>, cfg: &ModelConfig) -> (r: Result<Vec<u8>, MigrateError>)
    ensures
        match v1_weights(bytes@) {
            Err(e) => r == Err::<Vec<u8>, MigrateError>(e),
            Ok(params) => match shape_error(params, *cfg) {
                Some(e) => r == Err::<Vec<u8>, MigrateError>(e),
                None => r matches Ok(file) && file@ == v2_file(v2_body(*cfg, params)),
            },
        },
{
    match read_v1(bytes) {
        Ok(params) => {
            match check_shapes(&params, cfg) {
                Ok(u) => {
                    let body = V2Body {
                        vocab_size: cfg.vocab_size,
                        dim: cfg.dim,
                        num_heads: cfg.num_heads,
                        num_layers: cfg.num_layers as u64,
                        seq_len: cfg.seq_len,
                        ffn_hidden: cfg.ffn_hidden,
                        params,
                    };
                    match write_v2(&body) {
                        Ok(rest) => {
                            let mut file: Vec<u8> = vec![0x41, 0x4b, 0x56, 0x32];
                            let ghost m = v2_magic();
                            assert(file@ =~= m);
                            let mut rest = rest;
                            file.append(&mut rest);
                            Ok(file)
                        },
                        Err(e) => Err(MigrateError::Corrupt),
                    }
                },
                Err(e) => Err(e),
            }
        },
        Err(e) => Err(e),
    }
}

// ---- separate to fused projections ----

/// The first `n` rows of three `d`-wide matrices side by side.
pub open spec fn interleaved(q: Seq<u32>, k: Seq<u32>, v: Seq<u32>, d: int, n: nat) -> Seq<u32>
    decreases n,
{
    if n == 0 {
        Seq::empty()
    } else {
        let r = n - 1;
        interleaved(q, k, v, d, (n - 1) as nat) + q.subrange(r * d, r * d + d) + k.subrange(
            r * d,
            r * d + d,
        ) + v.subrange(r * d, r * d + d)
    }
}

fn append_row(dst: &mut Bits, src: &Bits, from: usize, len: usize)
    requires
        from + len <= src@.len(),
    ensures
        final(dst)@ == old(dst)@ + src@.subrange(from as int, from + len),
{
    let ghost before = dst@;
    let total: usize = src.len();
    let mut i: usize = 0;
    assert(dst@ =~= before + src@.subrange(from as int, from + i));
    while i < len
        invariant
            i <= len,
            from + len <= total == src@.len(),
            dst@ == before + src@.subrange(from as int, from + i),
        decreases len - i,
    {
        dst.push(src[from + i]);
        i = i + 1;
        assert(dst@ =~= before + src@.subrange(from as int, from + i));
    }
}

/// Puts the rows of three square matrices side by side.
pub fn interleave_qkv(dim: usize, q: &Bits, k: &Bits, v: &Bits) -> (r: Bits)
    requires
        dim * dim <= q@.len(),
        dim * dim <= k@.len(),
        dim * dim <= v@.len(),
    ensures
        r@ == interleaved(q@, k@, v@, dim as int, dim as nat),
{
    let total: usize = q.len();
    let mut r: Bits = Vec::new();
    let mut i: usize = 0;
    while i < dim
        invariant
            i <= dim,
            total == q@.len(),
            dim * dim <= q@.len(),
            dim * dim <= k@.len(),
            dim * dim <= v@.len(),
            r@ == interleaved(q@, k@, v@, dim as int, i as nat),
        decreases dim - i,
    {
        assert(0 <= i * dim && i * dim + dim <= dim * dim) by (nonlinear_arith)
            requires
                0 <= i < dim,
        ;
        append_row(&mut r, q, i * dim, dim);
        append_row(&mut r, k, i * dim, dim);
        append_row(&mut r, v, i * dim, dim);
        i = i + 1;
    }
    r
}

/// Every row of the three matrices stands in the fused one: row `r` of the
/// queries, the keys and the values one behind the other.
pub proof fn interleave_keeps_rows(q: Seq<u32>, k: Seq<u32>, v: Seq<u32>, d: int, n: nat, r: int)
    requires
        0 <= r < n,
        0 <= d,
        n * d <= q.len(),
        n * d <= k.len(),
        n * d <= v.len(),
    ensures
        ({
            let f = interleaved(q, k, v, d, n);
            &&& f.len() == n * (3 * d)
            &&& f.subrange(r * (3 * d), r * (3 * d) + d) == q.subrange(r * d, r * d + d)
            &&& f.subrange(r * (3 * d) + d, r * (3 * d) + 2 * d) == k.subrange(r * d, r * d + d)
            &&& f.subrange(r * (3 * d) + 2 * d, r * (3 * d) + 3 * d) == v.subrange(r * d, r * d + d)
        }),
    decreases n,
{
    let p = interleaved(q, k, v, d, (n - 1) as nat);
    let f = interleaved(q, k, v, d, n);
    let m = n - 1;
    assert(m * d + d == n * d && m * (3 * d) + 3 * d == n * (3 * d) && 0 <= m * d && 0 <= m * (3
        * d)) by (nonlinear_arith)
        requires
            m == n - 1,
            m >= 0,
            d >= 0,
    ;
    if m == 0 {
        assert(p.len() == 0);
        assert(0 * (3 * d) == 0 && 0 * d == 0);
    } else {
        interleave_keeps_rows(q, k, v, d, m as nat, if r < m {
            r
        } else {
            0
        });
    }
    if r < m {
        assert(r * (3 * d) + 3 * d <= m * (3 * d) && 0 <= r * (3 * d)) by (nonlinear_arith)
            requires
                0 <= r < m,
                d >= 0,
        ;
        assert(f.subrange(r * (3 * d), r * (3 * d) + d) =~= p.subrange(
            r * (3 * d),
            r * (3 * d) + d,
        ));
        assert(f.subrange(r * (3 * d) + d, r * (3 * d) + 2 * d) =~= p.subrange(
            r * (3 * d) + d,
            r * (3 * d) + 2 * d,
        ));
        assert(f.subrange(r * (3 * d) + 2 * d, r * (3 * d) + 3 * d) =~= p.subrange(
            r * (3 * d) + 2 * d,
            r * (3 * d) + 3 * d,
        ));
    } else {
        assert(f.subrange(r * (3 * d), r * (3 * d) + d) =~= q.subrange(r * d, r * d + d));
        assert(f.subrange(r * (3 * d) + d, r * (3 * d) + 2 * d) =~= k.subrange(r * d, r * d + d));
        assert(f.subrange(r * (3 * d) + 2 * d, r * (3 * d) + 3 * d) =~= v.subrange(
            r * d,
            r * d + d,
        ));
    }
}

/// The sizes of a layer in the old order: norm, queries, keys, values, output
/// projection, norm, up, down.
pub open spec fn layer_fits(pairs: PairsView, l: int, d: int, hidden: int) -> bool {
    let b = 1 + 8 * l;
    &&& pairs[b + 1].0.len() == d * d
    &&& pairs[b + 6].0.len() == d * hidden
    &&& d * d <= pairs[b + 1].1.len()
    &&& d * d <= pairs[b + 2].0.len()
    &&& d * d <= pairs[b + 2].1.len()
    &&& d * d <= pairs[b + 3].0.len()
    &&& d * d <= pairs[b + 3].1.len()
}

/// The first `n` layers with the queries, keys and values fused, behind the
/// embedding.
pub open spec fn fused(pairs: PairsView, d: int, n: nat) -> PairsView
    decreases n,
{
    if n == 0 {
        seq![pairs[0]]
    } else {
        let b = 1 + 8 * (n - 1);
        fused(pairs, d, (n - 1) as nat) + seq![
            pairs[b],
            (
                interleaved(pairs[b + 1].0, pairs[b + 2].0, pairs[b + 3].0, d, d as nat),
                interleaved(pairs[b + 1].1, pairs[b + 2].1, pairs[b + 3].1, d, d as nat),
            ),
            pairs[b + 4],
            pairs[b + 5],
            pairs[b + 6],
            pairs[b + 7],
        ]
    }
}

/// Weights and gradients with separate queries, keys and values, in the order of
/// fused ones; or why they do not fit the model.
pub open spec fn fuse_all(pairs: PairsView, d: int, hidden: int, layers: nat) -> Result<
    PairsView,
    MigrateError,
> {
    if pairs.len() != 3 + 8 * layers {
        Err(MigrateError::ParamCount { found: pairs.len() as usize })
    } else if exists|l: int| 0 <= l < layers && !#[trigger] layer_fits(pairs, l, d, hidden) {
        Err(MigrateError::LayerSize { layer: first_misfit(pairs, d, hidden, 0, layers) as usize })
    } else {
        Ok(fused(pairs, d, layers) + seq![pairs[pairs.len() - 2], pairs[pairs.len() - 1]])
    }
}

/// The first layer from `l` on that does not fit.
pub open spec fn first_misfit(pairs: PairsView, d: int, hidden: int, l: int, layers: nat) -> int
    decreases layers - l,
{
    if l >= layers || !layer_fits(pairs, l, d, hidden) {
        l
    } else {
        first_misfit(pairs, d, hidden, l + 1, layers)
    }
}

/// A fused list has six weights per layer and three more.
pub proof fn fused_count(pairs: PairsView, d: int, n: nat)
    ensures
        fused(pairs, d, n).len() == 1 + 6 * n,
    decreases n,
{
    if n > 0 {
        fused_count(pairs, d, (n - 1) as nat);
    }
}

/// Where the first `n` layers' weights stand after fusing: the embedding stays first,
/// and in every layer the first norm, the output projection, the second norm and the
/// two feed-forward weights keep their order; the queries, keys and values become one
/// weight in the place of the queries.
pub proof fn fused_keeps_order(pairs: PairsView, d: int, n: nat, l: int)
    requires
        0 <= l < n,
    ensures
        ({
            let f = fused(pairs, d, n);
            &&& f.len() == 1 + 6 * n
            &&& f[0] == pairs[0]
            &&& f[1 + 6 * l] == pairs[1 + 8 * l]
            &&& f[2 + 6 * l].0 == interleaved(
                pairs[2 + 8 * l].0,
                pairs[3 + 8 * l].0,
                pairs[4 + 8 * l].0,
                d,
                d as nat,
            )
            &&& f[2 + 6 * l].1 == interleaved(
                pairs[2 + 8 * l].1,
                pairs[3 + 8 * l].1,
                pairs[4 + 8 * l].1,
                d,
                d as nat,
            )
            &&& f[3 + 6 * l] == pairs[5 + 8 * l]
            &&& f[4 + 6 * l] == pairs[6 + 8 * l]
            &&& f[5 + 6 * l] == pairs[7 + 8 * l]
            &&& f[6 + 6 * l] == pairs[8 + 8 * l]
        }),
    decreases n,
{
    fused_count(pairs, d, (n - 1) as nat);
    fused_count(pairs, d, n);
    if l < n - 1 {
        fused_keeps_order(pairs, d, (n - 1) as nat, l);
    } else if n > 1 {
        fused_keeps_order(pairs, d, (n - 1) as nat, 0);
    }
}

/// Fusing a list that fits keeps the embedding first and the final norm and the head
/// last, and every layer's weights in their order; see `fused_keeps_order`.
pub proof fn fuse_keeps_order(pairs: PairsView, d: int, hidden: int, layers: nat)
    requires
        fuse_all(pairs, d, hidden, layers) is Ok,
    ensures
        ({
            let f = fuse_all(pairs, d, hidden, layers)->Ok_0;
            &&& f.len() == 3 + 6 * layers
            &&& f[0] == pairs[0]
            &&& f[f.len() - 2] == pairs[pairs.len() - 2]
            &&& f[f.len() - 1] == pairs[pairs.len() - 1]
            &&& forall|l: int|
                #![trigger pairs[1 + 8 * l]]
                0 <= l < layers ==> {
                    &&& f[1 + 6 * l] == pairs[1 + 8 * l]
                    &&& f[3 + 6 * l] == pairs[5 + 8 * l]
                    &&& f[4 + 6 * l] == pairs[6 + 8 * l]
                    &&& f[5 + 6 * l] == pairs[7 + 8 * l]
                    &&& f[6 + 6 * l] == pairs[8 + 8 * l]
                }
        }),
{
    fused_count(pairs, d, layers);
    let f = fuse_all(pairs, d, hidden, layers)->Ok_0;
    let most = fused(pairs, d, layers);
    assert(f[0] == most[0]);
    if layers == 0 {
        assert(most[0] == pairs[0]);
    } else {
        fused_keeps_order(pairs, d, layers, 0);
    }
    assert forall|l: int|
        #![trigger pairs[1 + 8 * l]]
        0 <= l < layers implies {
        &&& f[1 + 6 * l] == pairs[1 + 8 * l]
        &&& f[3 + 6 * l] == pairs[5 + 8 * l]
        &&& f[4 + 6 * l] == pairs[6 + 8 * l]
        &&& f[5 + 6 * l] == pairs[7 + 8 * l]
        &&& f[6 + 6 * l] == pairs[8 + 8 * l]
    } by {
        fused_keeps_order(pairs, d, layers, l);
        assert(f[1 + 6 * l] == most[1 + 6 * l]);
        assert(f[3 + 6 * l] == most[3 + 6 * l]);
        assert(f[4 + 6 * l] == most[4 + 6 * l]);
        assert(f[5 + 6 * l] == most[5 + 6 * l]);
        assert(f[6 + 6 * l] == most[6 + 6 * l]);
    }
}

proof fn lemma_first_misfit(pairs: PairsView, d: int, hidden: int, l: int, at: int, layers: nat)
    requires
        0 <= l <= at < layers,
        forall|k: int| l <= k < at ==> #[trigger] layer_fits(pairs, k, d, hidden),
        !layer_fits(pairs, at, d, hidden),
    ensures
        first_misfit(pairs, d, hidden, l, layers) == at,
    decreases at - l,
{
    if l < at {
        assert(layer_fits(pairs, l, d, hidden));
        lemma_first_misfit(pairs, d, hidden, l + 1, at, layers);
    }
}

/// Fuses the queries, keys and values of every layer.
pub fn fuse_qkv(
    pairs: Vec<(Bits, Bits)>,
    dim: usize,
    hidden: usize,
    layers: usize,
) -> (r: Result<Vec<(Bits, Bits)>, MigrateError>)
    requires
        dim * dim <= usize::MAX,
        dim * hidden <= usize::MAX,
        3 + 8 * layers <= usize::MAX,
    ensures
        match r {
            Ok(p) => fuse_all(
                checkpoint::pair_bits(pairs@),
                dim as int,
                hidden as int,
                layers as nat,
            ) == Ok::<PairsView, MigrateError>(checkpoint::pair_bits(p@)),
            Err(e) => fuse_all(
                checkpoint::pair_bits(pairs@),
                dim as int,
                hidden as int,
                layers as nat,
            ) == Err::<PairsView, MigrateError>(e),
        },
{
    let ghost all = checkpoint::pair_bits(pairs@);
    let ghost d = dim as int;
    let n: usize = pairs.len();
    if n != 3 + 8 * layers {
        return Err(MigrateError::ParamCount { found: n });
    }
    assert(0 <= dim * dim && 0 <= dim * hidden) by (nonlinear_arith);
    let square: usize = dim * dim;
    let mut rest = pairs;
    let mut r: Vec<(Bits, Bits)> = Vec::new();
    assert(rest@[0].0@ == all[0].0 && rest@[0].1@ == all[0].1);
    let first = rest.remove(0);
    r.push(first);
    assert(checkpoint::pair_bits(r@) =~= fused(all, d, 0));
    let mut l: usize = 0;
    while l < layers
        invariant
            l <= layers,
            n == 3 + 8 * layers,
            n == all.len(),
            all == checkpoint::pair_bits(pairs@),
            d == dim,
            square == dim * dim,
            dim * hidden <= usize::MAX,
            0 <= dim * hidden,
            rest@.len() == n - 1 - 8 * l,
            forall|k: int|
                0 <= k < rest@.len() ==> (#[trigger] rest@[k]).0@ == all[1 + 8 * l + k].0
                    && rest@[k].1@ == all[1 + 8 * l + k].1,
            checkpoint::pair_bits(r@) == fused(all, d, l as nat),
            forall|k: int| 0 <= k < l ==> #[trigger] layer_fits(all, k, d, hidden as int),
        decreases layers - l,
    {
        let ghost b = 1 + 8 * l;
        let ghost before = checkpoint::pair_bits(r@);
        proof {
            assert(rest@[0].0@ == all[b + 0].0 && rest@[0].1@ == all[b + 0].1);
            assert(rest@[1].0@ == all[b + 1].0 && rest@[1].1@ == all[b + 1].1);
            assert(rest@[2].0@ == all[b + 2].0 && rest@[2].1@ == all[b + 2].1);
            assert(rest@[3].0@ == all[b + 3].0 && rest@[3].1@ == all[b + 3].1);
            assert(rest@[4].0@ == all[b + 4].0 && rest@[4].1@ == all[b + 4].1);
            assert(rest@[5].0@ == all[b + 5].0 && rest@[5].1@ == all[b + 5].1);
            assert(rest@[6].0@ == all[b + 6].0 && rest@[6].1@ == all[b + 6].1);
            assert(rest@[7].0@ == all[b + 7].0 && rest@[7].1@ == all[b + 7].1);
        }
        if rest[1].0.len() != square || rest[6].0.len() != dim * hidden || rest[1].1.len() < square
            || rest[2].0.len() < square || rest[2].1.len() < square || rest[3].0.len() < square
            || rest[3].1.len() < square {
            proof {
                assert(!layer_fits(all, l as int, d, hidden as int));
                lemma_first_misfit(all, d, hidden as int, 0, l as int, layers as nat);
            }
            return Err(MigrateError::LayerSize { layer: l });
        }
        assert(layer_fits(all, l as int, d, hidden as int));
        let weight = interleave_qkv(dim, &rest[1].0, &rest[2].0, &rest[3].0);
        let grad = interleave_qkv(dim, &rest[1].1, &rest[2].1, &rest[3].1);
        let tail = rest.split_off(8);
        let mut layer = rest;
        let ghost lay = layer@;
        let down = layer.remove(7);
        let up = layer.remove(6);
        let norm_2 = layer.remove(5);
        let out_proj = layer.remove(4);
        let norm_1 = layer.remove(0);
        r.push(norm_1);
        r.push((weight, grad));
        r.push(out_proj);
        r.push(norm_2);
        r.push(up);
        r.push(down);
        proof {
            let add = seq![
                all[b],
                (weight@, grad@),
                all[b + 4],
                all[b + 5],
                all[b + 6],
                all[b + 7],
            ];
            assert(checkpoint::pair_bits(r@) =~= before + add);
            assert(checkpoint::pair_bits(r@) =~= fused(all, d, (l + 1) as nat));
            assert forall|k: int| 0 <= k < tail@.len() implies (#[trigger] tail@[k]).0@ == all[1
                + 8 * (l + 1) + k].0 && tail@[k].1@ == all[1 + 8 * (l + 1) + k].1 by {
                assert(tail@[k] == old_rest(lay, tail@)[8 + k]);
            }
        }
        rest = tail;
        l = l + 1;
    }
    let ghost before = checkpoint::pair_bits(r@);
    proof {
        assert(rest@.len() == 2);
        assert(rest@[0].0@ == all[n - 2].0 && rest@[0].1@ == all[n - 2].1);
        assert(rest@[1].0@ == all[n - 1].0 && rest@[1].1@ == all[n - 1].1);
    }
    let head = rest.remove(1);
    let norm = rest.remove(0);
    r.push(norm);
    r.push(head);
    assert(checkpoint::pair_bits(r@) =~= before + seq![all[n - 2], all[n - 1]]);
    Ok(r)
}

/// A list and its tail put together again.
spec fn old_rest(head: Seq<(Bits, Bits)>, tail: Seq<(Bits, Bits)>) -> Seq<(Bits, Bits)> {
    head + tail
}

/// Migrates a file of separate projections to one of fused projections.
pub fn migrate_qkv(bytes: &Vec<u8>, dim: usize, hidden: usize, layers: usize) -> (r: Result<
    Vec<u8>,
    MigrateError,
>)
    requires
        dim * dim <= usize::MAX,
        dim * hidden <= usize::MAX,
        3 + 8 * layers <= usize::MAX,
    ensures
        match pairs_read(bytes@) {
            None => r == Err::<Vec<u8>, MigrateError>(MigrateError::Corrupt),
            Some(pairs) => match fuse_all(pairs, dim as int, hidden as int, layers as nat) {
                Err(e) => r == Err::<Vec<u8>, MigrateError>(e),
                Ok(new) => r matches Ok(file) && file@ == pairs_bytes(new),
            },
        },
        forall|p: PairsView|
            bytes@ == #[trigger] pairs_bytes(p) ==> pairs_read(bytes@) == Some(p),
{
    proof {
        assert(bytes@.subrange(0, bytes@.len() as int) =~= bytes@);
        assert(bytes@.is_prefix_of(bytes@));
    }
    match read_pairs(bytes.as_slice()) {
        Ok(pairs) => match fuse_qkv(pairs, dim, hidden, layers) {
            Ok(new) => match write_pairs(&new) {
                Ok(file) => Ok(file),
                Err(e) => Err(MigrateError::Corrupt),
            },
            Err(e) => Err(e),
        },
        Err(e) => Err(MigrateError::Corrupt),
    }
}

// ---- verification of a migration ----

fn same_bits(a: &Bits, b: &Bits) -> (r: bool)
    ensures
        r == (a@ == b@),
{
    if a.len() != b.len() {
        return false;
    }
    let mut i: usize = 0;
    while i < a.len()
        invariant
            i <= a@.len() == b@.len(),
            forall|k: int| 0 <= k < i ==> a@[k] == b@[k],
        decreases a@.len() - i,
    {
        if a[i] != b[i] {
            return false;
        }
        i = i + 1;
    }
    assert(a@ =~= b@);
    true
}

/// Whether two lists hold the same tensors, bit by bit.
pub fn same_tensors(a: &Vec<Bits>, b: &Vec<Bits>) -> (r: bool)
    ensures
        r == (checkpoint::bits(a@) == checkpoint::bits(b@)),
{
    let ghost x = checkpoint::bits(a@);
    let ghost y = checkpoint::bits(b@);
    if a.len() != b.len() {
        assert(x.len() != y.len());
        return false;
    }
    let mut i: usize = 0;
    while i < a.len()
        invariant
            i <= a@.len() == b@.len(),
            x == checkpoint::bits(a@),
            y == checkpoint::bits(b@),
            forall|k: int| 0 <= k < i ==> x[k] == y[k],
        decreases a@.len() - i,
    {
        assert(x[i as int] == a@[i as int]@ && y[i as int] == b@[i as int]@);
        if !same_bits(&a[i], &b[i]) {
            return false;
        }
        i = i + 1;
    }
    assert(x =~= y);
    true
}

/// Whether a version 3 file holds exactly the weights of an old one, and no
/// optimizer state: what a migration is checked by, from what is on disk.
pub fn verify_v3(old_file: &Vec<u8>, new_file: &Vec<u8>) -> (r: bool)
    ensures
        r == match (legacy(old_file@), checkpoint::file_body(new_file@)) {
            (Ok(params), Ok(b)) => b.params == params && b.moments.len() == 0,
            _ => false,
        },
        forall|b: V3View|
            new_file@ == #[trigger] checkpoint::v3_file(b) ==> r == (legacy(old_file@) == Ok::<
                Seq<Seq<u32>>,
                MigrateError,
            >(b.params) && b.moments.len() == 0),
{
    let params = match read_legacy_params(old_file) {
        Ok(p) => p,
        Err(e) => {
            return false;
        },
    };
    match checkpoint::read_file(new_file) {
        Ok(body) => body.moments.len() == 0 && same_tensors(&params, &body.params),
        Err(e) => false,
    }
}

/// The body of a version 2 file.
pub open spec fn v2_file_body(bytes: Seq<u8>) -> Option<V2View> {
    if v2_magic().is_prefix_of(bytes) {
        v2_read(bytes.subrange(4, bytes.len() as int))
    } else {
        None
    }
}

/// Whether a version 2 file holds exactly the weights of a version 1 file.
pub fn verify_v2(old_file: &Vec<u8>, new_file: &Vec<u8>) -> (r: bool)
    ensures
        r == match (v1_weights(old_file@), v2_file_body(new_file@)) {
            (Ok(params), Some(b)) => b.params == params,
            _ => false,
        },
{
    let params = match read_v1(old_file) {
        Ok(p) => p,
        Err(e) => {
            return false;
        },
    };
    if !has_magic(new_file, 0x41, 0x4b, 0x56, 0x32) {
        return false;
    }
    let rest = slice_subrange(new_file.as_slice(), 4, new_file.len());
    match read_v2(rest) {
        Ok(body) => same_tensors(&params, &body.params),
        Err(e) => false,
    }
}

// ---- file names ----

/// Where a version 2 file goes.
pub fn default_v2_output(input: &str) -> (r: String)
    ensures
        r@ == input@ + ".v2.bin"@,
{
    let mut r = String::from_str(input);
    r.append(".v2.bin");
    r
}

/// Where a version 3 file goes: the name without `.bin`, then `.v3.bin`.
pub open spec fn v3_path(input: Seq<char>) -> Seq<char> {
    let end = ".bin"@;
    if input.len() >= end.len() && input.subrange(input.len() - end.len(), input.len() as int)
        == end {
        input.subrange(0, input.len() - end.len()) + ".v3.bin"@
    } else {
        input + ".v3.bin"@
    }
}

pub fn default_v3_output(input: &str) -> (r: String)
    ensures
        r@ == v3_path(input@),
{
    proof {
        reveal_strlit(".bin");
    }
    let s = chars_of(input);
    let n: usize = s.len();
    if n >= 4 && s[n - 4] == '.' && s[n - 3] == 'b' && s[n - 2] == 'i' && s[n - 1] == 'n' {
        assert(input@.subrange(n - 4, n as int) =~= ".bin"@);
        let mut r = String::from_str(input.substring_char(0, n - 4));
        r.append(".v3.bin");
        r
    } else {
        proof {
            if n >= 4 && input@.subrange(n - 4, n as int) == ".bin"@ {
                let e = input@.subrange(n - 4, n as int);
                assert(e[0] == '.' && e[1] == 'b' && e[2] == 'i' && e[3] == 'n');
            }
        }
        let mut r = String::from_str(input);
        r.append(".v3.bin");
        r
    }
}

} // verus!
