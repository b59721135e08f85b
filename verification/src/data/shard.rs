//! Shard files: their names and their bytes.
use crate::text;
use crate::text::{chars_of, write_padded};
use vstd::prelude::*;

verus! {

/// Tokens of a full shard: 64 MB per file.
pub const SHARD_TOKENS: usize = 16_000_000;

/// How much raw text is read at a time during tokenization.
pub const CHUNK_BYTES: usize = 8_388_608;

// ---- names ----

/// The file name of shard `idx`.
pub open spec fn spec_shard_name(idx: nat) -> Seq<char> {
    "shard_"@ + text::padded(idx, 5) + ".bin"@
}

pub fn shard_name(idx: usize) -> (r: String)
    ensures
        r@ == spec_shard_name(idx as nat),
{
    let mut r = String::from_str("shard_");
    let n = write_padded(idx as u64, 5);
    r.append(n.as_str());
    r.append(".bin");
    r
}

/// `s` starts with `p`.
pub open spec fn starts_with(s: Seq<char>, p: Seq<char>) -> bool {
    s.len() >= p.len() && s.subrange(0, p.len() as int) == p
}

/// `s` ends with `p`.
pub open spec fn ends_with(s: Seq<char>, p: Seq<char>) -> bool {
    s.len() >= p.len() && s.subrange(s.len() - p.len(), s.len() as int) == p
}

/// Whether the characters of `s` from `at` on start with `p`.
fn matches_at(s: &Vec<char>, at: usize, p: &Vec<char>) -> (r: bool)
    requires
        at <= s@.len(),
    ensures
        r == (s@.len() - at >= p@.len() && s@.subrange(at as int, at + p@.len()) == p@),
{
    if s.len() - at < p.len() {
        return false;
    }
    let mut i: usize = 0;
    while i < p.len()
        invariant
            i <= p@.len(),
            at + p@.len() <= s@.len() <= usize::MAX,
            forall|k: int| 0 <= k < i ==> #[trigger] s@[at + k] == p@[k],
        decreases p@.len() - i,
    {
        if s[at + i] != p[i] {
            assert(s@.subrange(at as int, at + p@.len())[i as int] != p@[i as int]);
            return false;
        }
        i = i + 1;
    }
    proof {
        let t = s@.subrange(at as int, at + p@.len());
        assert forall|k: int| 0 <= k < p@.len() implies t[k] == p@[k] by {
            assert(s@[at + k] == p@[k]);
        }
        assert(t =~= p@);
    }
    true
}

/// The characters between a prefix and a suffix, if the name has both.
pub open spec fn spec_between(name: Seq<char>, prefix: Seq<char>, suffix: Seq<char>) -> Option<
    Seq<char>,
> {
    if starts_with(name, prefix) && ends_with(
        name.subrange(prefix.len() as int, name.len() as int),
        suffix,
    ) {
        Some(name.subrange(prefix.len() as int, name.len() - suffix.len()))
    } else {
        None
    }
}

/// Strips a prefix and then a suffix.
pub fn between(name: &str, prefix: &str, suffix: &str) -> (r: Option<Vec<char>>)
    ensures
        match r {
            Some(v) => spec_between(name@, prefix@, suffix@) == Some(v@),
            None => spec_between(name@, prefix@, suffix@) is None,
        },
{
    let s = chars_of(name);
    let p = chars_of(prefix);
    let q = chars_of(suffix);
    if !matches_at(&s, 0, &p) {
        return None;
    }
    let ghost rest = s@.subrange(p@.len() as int, s@.len() as int);
    if s.len() - p.len() < q.len() {
        return None;
    }
    let end: usize = s.len() - q.len();
    assert(rest.subrange(rest.len() - q@.len(), rest.len() as int) =~= s@.subrange(
        end as int,
        end + q@.len(),
    ));
    if !matches_at(&s, end, &q) {
        return None;
    }
    let mut r: Vec<char> = Vec::new();
    let mut i: usize = p.len();
    assert(r@ =~= s@.subrange(p@.len() as int, i as int));
    while i < end
        invariant
            p@.len() <= i <= end <= s@.len(),
            r@ == s@.subrange(p@.len() as int, i as int),
        decreases end - i,
    {
        r.push(s[i]);
        i = i + 1;
        assert(r@ =~= s@.subrange(p@.len() as int, i as int));
    }
    Some(r)
}

/// `name` is the name of a shard file.
pub open spec fn spec_is_shard_name(name: Seq<char>) -> bool {
    starts_with(name, "shard_"@) && ends_with(name, ".bin"@)
}

pub fn is_shard_name(name: &str) -> (r: bool)
    ensures
        r == spec_is_shard_name(name@),
{
    let s = chars_of(name);
    let p = chars_of("shard_");
    let q = chars_of(".bin");
    if !matches_at(&s, 0, &p) || s.len() < q.len() {
        return false;
    }
    matches_at(&s, s.len() - q.len(), &q)
}

/// Whether a directory with these names in it holds a shard.
pub fn has_shards(names: &Vec<String>) -> (r: bool)
    ensures
        r == exists|i: int| 0 <= i < names@.len() && spec_is_shard_name(#[trigger] names@[i]@),
{
    let mut i: usize = 0;
    while i < names.len()
        invariant
            i <= names@.len(),
            forall|k: int| 0 <= k < i ==> !spec_is_shard_name(#[trigger] names@[k]@),
        decreases names@.len() - i,
    {
        if is_shard_name(names[i].as_str()) {
            return true;
        }
        i = i + 1;
    }
    false
}

/// A shard that was written is found again by its name.
pub proof fn written_shards_are_found(idx: nat)
    ensures
        spec_is_shard_name(spec_shard_name(idx)),
{
    let n = spec_shard_name(idx);
    let mid = text::padded(idx, 5);
    assert(n.subrange(0, "shard_"@.len() as int) =~= "shard_"@);
    assert(n.subrange(n.len() - ".bin"@.len(), n.len() as int) =~= ".bin"@);
}

/// The name of the directory that holds the shards of a text file with the given
/// stem.
pub fn shard_dir_name(stem: &str) -> (r: String)
    ensures
        r@ == stem@ + "_shards"@,
{
    let mut r = String::from_str(stem);
    r.append("_shards");
    r
}

// ---- bytes ----

/// The number that four bytes hold, low byte first.
pub open spec fn le_value(b: Seq<u8>) -> int {
    b[0] + 0x100 * b[1] + 0x1_0000 * b[2] + 0x100_0000 * b[3]
}

/// The four bytes of a number, low byte first.
pub open spec fn le_bytes(x: u32) -> Seq<u8> {
    seq![
        (x % 0x100) as u8,
        (x / 0x100 % 0x100) as u8,
        (x / 0x1_0000 % 0x100) as u8,
        (x / 0x100_0000) as u8,
    ]
}

/// The bytes of a list of tokens.
pub open spec fn spec_encode(tokens: Seq<u32>) -> Seq<u8>
    decreases tokens.len(),
{
    if tokens.len() == 0 {
        Seq::empty()
    } else {
        spec_encode(tokens.drop_last()) + le_bytes(tokens.last())
    }
}

/// The tokens that whole groups of four bytes hold.
pub open spec fn spec_decode(bytes: Seq<u8>) -> Seq<u32> {
    Seq::new(
        bytes.len() / 4,
        |i: int| le_value(bytes.subrange(4 * i, 4 * i + 4)) as u32,
    )
}

/// The bytes of a shard file.
pub fn encode_shard(tokens: &Vec<u32>) -> (r: Vec<u8>)
    ensures
        r@ == spec_encode(tokens@),
{
    let mut r: Vec<u8> = Vec::new();
    let mut i: usize = 0;
    while i < tokens.len()
        invariant
            i <= tokens@.len(),
            r@ == spec_encode(tokens@.subrange(0, i as int)),
        decreases tokens@.len() - i,
    {
        let ghost before = r@;
        let x: u32 = tokens[i];
        r.push((x % 0x100) as u8);
        r.push((x / 0x100 % 0x100) as u8);
        r.push((x / 0x1_0000 % 0x100) as u8);
        r.push((x / 0x100_0000) as u8);
        proof {
            let next = tokens@.subrange(0, i + 1);
            assert(next.drop_last() =~= tokens@.subrange(0, i as int));
            assert(next.last() == x);
            assert(r@ =~= before + le_bytes(x));
        }
        i = i + 1;
    }
    assert(tokens@.subrange(0, i as int) =~= tokens@);
    r
}

/// The tokens of a shard file, whose length is a multiple of four.
pub fn load_shard(bytes: &Vec<u8>) -> (r: Vec<u32>)
    requires
        bytes@.len() % 4 == 0,
    ensures
        r@ == spec_decode(bytes@),
        4 * r@.len() == bytes@.len(),
{
    let n: usize = bytes.len() / 4;
    let mut r: Vec<u32> = Vec::new();
    let mut i: usize = 0;
    while i < n
        invariant
            i <= n,
            4 * n == bytes@.len() <= usize::MAX,
            r@ == spec_decode(bytes@).subrange(0, i as int),
        decreases n - i,
    {
        let b0: u32 = bytes[4 * i] as u32;
        let b1: u32 = bytes[4 * i + 1] as u32;
        let b2: u32 = bytes[4 * i + 2] as u32;
        let b3: u32 = bytes[4 * i + 3] as u32;
        let x: u32 = b0 + 0x100 * b1 + 0x1_0000 * b2 + 0x100_0000 * b3;
        assert(x == le_value(bytes@.subrange(4 * i, 4 * i + 4)));
        r.push(x);
        i = i + 1;
        assert(r@ =~= spec_decode(bytes@).subrange(0, i as int));
    }
    assert(r@ =~= spec_decode(bytes@));
    r
}

proof fn lemma_encode(tokens: Seq<u32>)
    ensures
        spec_encode(tokens).len() == 4 * tokens.len(),
        forall|i: int|
            0 <= i < tokens.len() ==> (#[trigger] spec_encode(tokens).subrange(4 * i, 4 * i + 4))
                == le_bytes(tokens[i]),
    decreases tokens.len(),
{
    if tokens.len() > 0 {
        let p = tokens.drop_last();
        lemma_encode(p);
        let e = spec_encode(tokens);
        assert forall|i: int| 0 <= i < tokens.len() implies (#[trigger] e.subrange(4 * i, 4 * i + 4))
            == le_bytes(tokens[i]) by {
            if i < p.len() {
                assert(spec_encode(p).subrange(4 * i, 4 * i + 4) == le_bytes(p[i]));
                assert(e.subrange(4 * i, 4 * i + 4) =~= spec_encode(p).subrange(4 * i, 4 * i + 4));
            } else {
                assert(e.subrange(4 * i, 4 * i + 4) =~= le_bytes(tokens.last()));
            }
        }
    }
}

/// Reading a shard gives back the tokens that were written.
pub proof fn shard_round_trip(tokens: Seq<u32>)
    ensures
        spec_encode(tokens).len() == 4 * tokens.len(),
        spec_decode(spec_encode(tokens)) == tokens,
{
    lemma_encode(tokens);
    let e = spec_encode(tokens);
    let d = spec_decode(e);
    assert forall|i: int| 0 <= i < tokens.len() implies d[i] == tokens[i] by {
        let b = e.subrange(4 * i, 4 * i + 4);
        assert(b == le_bytes(tokens[i]));
        let x = tokens[i];
        assert(le_value(le_bytes(x)) == x);
    }
    assert(d =~= tokens);
}

} // verus!
