//! Random numbers.
use rand::rngs::StdRng;
use rand::seq::SliceRandom;
use rand::{Rng, SeedableRng};
use vstd::prelude::*;

verus! {

/// The standard generator of `rand`, carried through as it is.
#[verifier::external_type_specification]
#[verifier::external_body]
pub struct ExStdRng(StdRng);

/// Draws by `rand::Rng::gen_range` from `0..n`: any number below `n`. Which one
/// is up to the generator.
#[verifier::external_body]
pub(crate) fn draw_below(rng: &mut StdRng, n: usize) -> (r: usize)
    requires
        n > 0,
    ensures
        r < n,
{
    rng.gen_range(0..n)
}

/// Draws by `rand::Rng::gen_range` from `0..n`, 32 bits wide: any number below `n`.
/// Which one is up to the generator.
#[verifier::external_body]
fn draw_u32_below(rng: &mut StdRng, n: u32) -> (r: u32)
    requires
        n > 0,
    ensures
        r < n,
{
    rng.gen_range(0..n)
}

/// `n` random tokens of a vocabulary.
pub fn random_tokens(rng: &mut StdRng, n: usize, vocab_size: u32) -> (r: Vec<u32>)
    requires
        vocab_size > 0,
    ensures
        r@.len() == n,
        forall|i: int| 0 <= i < n ==> #[trigger] r@[i] < vocab_size,
{
    let mut r: Vec<u32> = Vec::new();
    let mut i: usize = 0;
    while i < n
        invariant
            i <= n,
            vocab_size > 0,
            r@.len() == i,
            forall|k: int| 0 <= k < i ==> #[trigger] r@[k] < vocab_size,
        decreases n - i,
    {
        r.push(draw_u32_below(rng, vocab_size));
        i = i + 1;
    }
    r
}

/// The order in which `rand::seq::SliceRandom::shuffle` leaves `items` under a
/// `StdRng` made by `rand::SeedableRng::seed_from_u64`.
pub uninterp spec fn shuffled(items: Seq<usize>, seed: u64) -> Seq<usize>;

/// Shuffles by `rand::seq::SliceRandom::shuffle` under a `StdRng` made by
/// `rand::SeedableRng::seed_from_u64`: the same items in an order that the items
/// and the seed alone decide.
#[verifier::external_body]
pub(crate) fn shuffle_seeded(items: &mut Vec<usize>, seed: u64)
    requires
        old(items)@.len() <= u32::MAX,
    ensures
        final(items)@ == shuffled(old(items)@, seed),
        final(items)@.to_multiset() == old(items)@.to_multiset(),
{
    items.shuffle(&mut StdRng::seed_from_u64(seed));
}

} // verus!
