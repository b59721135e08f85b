//! The decisions of token sampling. Logits enter as their bits, or as integer keys
//! that order as they do; what is computed from their own values enters as the
//! outcome of each comparison.
use crate::single;
use vstd::prelude::*;

verus! {

/// Sorts ascending by `<[u32]>::sort_unstable`: the result holds the same items,
/// each as often, in ascending order.
#[verifier::external_body]
fn sort_ids(ids: &mut Vec<u32>)
    ensures
        final(ids)@.to_multiset() == old(ids)@.to_multiset(),
        forall|i: int, j: int|
            0 <= i <= j < final(ids)@.len() ==> final(ids)@[i] <= final(ids)@[j],
{
    ids.sort_unstable();
}

/// Sorts pairs ascending by `<[(i64, u32)]>::sort_unstable`: the result holds
/// the same items, each as often, ordered by the first entry and, among equal
/// first entries, by the second.
#[verifier::external_body]
fn sort_pairs(pairs: &mut Vec<(i64, u32)>)
    ensures
        final(pairs)@.to_multiset() == old(pairs)@.to_multiset(),
        forall|i: int, j: int|
            0 <= i <= j < final(pairs)@.len() ==> {
                ||| (#[trigger] final(pairs)@[i]).0 < (#[trigger] final(pairs)@[j]).0
                ||| final(pairs)@[i].0 == final(pairs)@[j].0 && final(pairs)@[i].1
                    <= final(pairs)@[j].1
            },
{
    pairs.sort_unstable();
}

/// The ids in `seen` that are below `vocab`, each once, ascending: the logits
/// that the repetition penalty touches.
pub fn penalized_ids(seen: &Vec<u32>, vocab: usize) -> (r: Vec<u32>)
    ensures
        forall|i: int, j: int| 0 <= i < j < r@.len() ==> r@[i] < r@[j],
        forall|x: u32| r@.contains(x) <==> seen@.contains(x) && x < vocab,
{
    let mut ids: Vec<u32> = Vec::new();
    let mut i: usize = 0;
    while i < seen.len()
        invariant
            i <= seen@.len(),
            ids@ == seen@.subrange(0, i as int),
        decreases seen@.len() - i,
    {
        ids.push(seen[i]);
        i = i + 1;
        assert(ids@ =~= seen@.subrange(0, i as int));
    }
    assert(ids@ =~= seen@);
    sort_ids(&mut ids);
    proof {
        broadcast use vstd::seq_lib::group_to_multiset_ensures;

        assert forall|x: u32| ids@.contains(x) == seen@.contains(x) by {
            assert(ids@.contains(x) <==> ids@.to_multiset().count(x) > 0);
            assert(seen@.contains(x) <==> seen@.to_multiset().count(x) > 0);
        }
    }
    let mut r: Vec<u32> = Vec::new();
    let mut i: usize = 0;
    while i < ids.len()
        invariant
            i <= ids@.len(),
            forall|i: int, j: int| 0 <= i <= j < ids@.len() ==> ids@[i] <= ids@[j],
            forall|i: int, j: int| 0 <= i < j < r@.len() ==> r@[i] < r@[j],
            forall|k: int| 0 <= k < r@.len() ==> i > 0 && #[trigger] r@[k] <= ids@[i - 1],
            forall|k: int|
                0 <= k < i && #[trigger] ids@[k] < vocab ==> r@.contains(ids@[k]),
            forall|k: int|
                0 <= k < r@.len() ==> ids@.contains(#[trigger] r@[k]) && r@[k] < vocab,
        decreases ids@.len() - i,
    {
        let x: u32 = ids[i];
        let ghost before = r@;
        if (x as usize) < vocab && (r.len() == 0 || r[r.len() - 1] != x) {
            proof {
                if before.len() > 0 {
                    assert(before[before.len() - 1] <= ids@[i - 1]);
                    assert(ids@[i - 1] <= ids@[i as int]);
                    assert forall|k: int| 0 <= k < before.len() implies before[k] < x by {
                        if k < before.len() - 1 {
                            assert(before[k] < before[before.len() - 1]);
                        }
                    }
                }
            }
            r.push(x);
            proof {
                assert forall|k: int| 0 <= k < i + 1 && #[trigger] ids@[k] < vocab implies r@.contains(
                    ids@[k],
                ) by {
                    if k < i {
                        assert(before.contains(ids@[k]));
                        let w = choose|w: int| 0 <= w < before.len() && before[w] == ids@[k];
                        assert(r@[w] == ids@[k]);
                    } else {
                        assert(r@[r@.len() - 1] == x);
                    }
                }
                assert forall|k: int| 0 <= k < r@.len() implies ids@.contains(#[trigger] r@[k])
                    && r@[k] < vocab by {
                    if k < before.len() {
                        assert(r@[k] == before[k]);
                    } else {
                        assert(ids@[i as int] == x);
                    }
                }
            }
        } else {
            proof {
                if x < vocab {
                    assert(before[before.len() - 1] == x);
                    assert(r@.contains(x));
                }
                assert forall|k: int| 0 <= k < r@.len() implies #[trigger] r@[k] <= ids@[i as int] by {
                    assert(r@[k] <= ids@[i - 1]);
                }
            }
        }
        i = i + 1;
    }
    proof {
        assert forall|x: u32| r@.contains(x) implies seen@.contains(x) && x < vocab by {
            let k = choose|k: int| 0 <= k < r@.len() && r@[k] == x;
            assert(ids@.contains(r@[k]));
        }
        assert forall|x: u32| seen@.contains(x) && x < vocab implies r@.contains(x) by {
            assert(ids@.contains(x));
            let k = choose|k: int| 0 <= k < ids@.len() && ids@[k] == x;
            assert(r@.contains(ids@[k]));
        }
    }
    r
}

/// The index that a scan of the first `n` logits ends on: it starts at 0 and moves
/// to every logit that is greater than the one it stands on.
pub open spec fn scan(logits: Seq<u32>, n: nat) -> int
    decreases n,
{
    if n == 0 {
        0
    } else {
        let best = scan(logits, (n - 1) as nat);
        if single::greater(logits[n - 1], logits[best]) {
            n - 1
        } else {
            best
        }
    }
}

/// The index of the largest logit.
pub fn argmax(logits: &Vec<u32>) -> (r: u32)
    requires
        logits@.len() <= u32::MAX,
    ensures
        r == scan(logits@, logits@.len()),
        r < logits@.len() || logits@.len() == 0,
{
    let mut best: usize = 0;
    let mut i: usize = 0;
    while i < logits.len()
        invariant
            i <= logits@.len() <= u32::MAX,
            best < logits@.len() || logits@.len() == 0,
            best == scan(logits@, i as nat),
        decreases logits@.len() - i,
    {
        if single::is_greater(logits[i], logits[best]) {
            best = i;
        }
        i = i + 1;
    }
    best as u32
}

/// Among numbers the scan finds the first of the largest.
pub proof fn argmax_is_first_largest(logits: Seq<u32>, n: nat)
    requires
        0 < n <= logits.len(),
        single::all_numbers(logits),
    ensures
        0 <= scan(logits, n) < n,
        forall|i: int|
            0 <= i < n ==> single::spec_key(#[trigger] logits[i]) <= single::spec_key(
                logits[scan(logits, n)],
            ),
        forall|i: int|
            0 <= i < scan(logits, n) ==> single::spec_key(#[trigger] logits[i]) < single::spec_key(
                logits[scan(logits, n)],
            ),
    decreases n,
{
    if n > 1 {
        argmax_is_first_largest(logits, (n - 1) as nat);
    }
    assert(scan(logits, 0) == 0);
    assert(!single::nan(logits[n - 1]));
}

/// `r` lists distinct indices of `keys`, larger keys first, and no index that is
/// missing has a larger key than one that is there.
pub open spec fn ranks(r: Seq<u32>, keys: Seq<i32>) -> bool {
    &&& forall|i: int| 0 <= i < r.len() ==> #[trigger] r[i] < keys.len()
    &&& forall|i: int, j: int| 0 <= i < j < r.len() ==> r[i] != r[j]
    &&& forall|i: int, j: int|
        0 <= i <= j < r.len() ==> keys[#[trigger] r[i] as int] >= keys[#[trigger] r[j] as int]
    &&& forall|i: int, x: u32|
        #![trigger r[i], r.contains(x)]
        0 <= i < r.len() && x < keys.len() && !r.contains(x) ==> keys[x as int] <= keys[r[i] as int]
}

/// How many indices top-k keeps of `n`: `0` keeps all.
pub open spec fn top_count(top_k: nat, n: nat) -> nat {
    if 0 < top_k < n {
        top_k
    } else {
        n
    }
}

/// The indices of the `top_k` largest keys, largest first.
pub fn ranked(keys: &Vec<i32>, top_k: usize) -> (r: Vec<u32>)
    requires
        keys@.len() <= u32::MAX,
    ensures
        r@.len() == top_count(top_k as nat, keys@.len()),
        ranks(r@, keys@),
{
    let n: usize = keys.len();
    let mut pairs: Vec<(i64, u32)> = Vec::new();
    let mut i: usize = 0;
    while i < n
        invariant
            i <= n == keys@.len(),
            n <= u32::MAX,
            pairs@.len() == i,
            forall|k: int|
                0 <= k < i ==> #[trigger] pairs@[k] == (-(keys@[k] as int) as i64, k as u32),
        decreases n - i,
    {
        pairs.push((-(keys[i] as i64), i as u32));
        i = i + 1;
    }
    let ghost before = pairs@;
    sort_pairs(&mut pairs);
    let ghost sorted = pairs@;
    proof {
        lemma_sorted_indices(keys@, before, sorted);
    }
    let keep: usize = if 0 < top_k && top_k < n {
        top_k
    } else {
        n
    };
    let mut r: Vec<u32> = Vec::new();
    let mut i: usize = 0;
    while i < keep
        invariant
            i <= keep <= n,
            n == sorted.len(),
            sorted == pairs@,
            r@.len() == i,
            forall|k: int| 0 <= k < i ==> #[trigger] r@[k] == sorted[k].1,
        decreases keep - i,
    {
        r.push(pairs[i].1);
        i = i + 1;
    }
    proof {
        assert forall|i: int, j: int| 0 <= i <= j < r@.len() implies keys@[#[trigger] r@[i] as int]
            >= keys@[#[trigger] r@[j] as int] by {
            assert(sorted[i].1 == r@[i] && sorted[j].1 == r@[j]);
        }
        assert forall|i: int, x: u32|
            #![trigger r@[i], r@.contains(x)]
            0 <= i < r@.len() && x < keys@.len() && !r@.contains(x) implies keys@[x as int]
            <= keys@[r@[i] as int] by {
            assert(has_index(sorted, x));
            let w = choose|w: int| 0 <= w < sorted.len() && (#[trigger] sorted[w]).1 == x;
            if w < r@.len() {
                assert(r@[w] == x);
                assert(false);
            }
            assert(sorted[i].1 == r@[i]);
        }
    }
    r
}

/// Some pair has the index `x`.
spec fn has_index(pairs: Seq<(i64, u32)>, x: u32) -> bool {
    exists|w: int| 0 <= w < pairs.len() && (#[trigger] pairs[w]).1 == x
}

/// A sorted list of `(-key, index)` pairs lists every index once, larger keys
/// first.
proof fn lemma_sorted_indices(keys: Seq<i32>, before: Seq<(i64, u32)>, sorted: Seq<(i64, u32)>)
    requires
        keys.len() <= u32::MAX,
        before.len() == keys.len(),
        forall|k: int|
            0 <= k < keys.len() ==> #[trigger] before[k] == (-(keys[k] as int) as i64, k as u32),
        sorted.to_multiset() == before.to_multiset(),
        forall|i: int, j: int|
            0 <= i <= j < sorted.len() ==> (#[trigger] sorted[i]).0 <= (#[trigger] sorted[j]).0,
    ensures
        sorted.len() == keys.len(),
        forall|i: int|
            0 <= i < sorted.len() ==> (#[trigger] sorted[i]).1 < keys.len() && sorted[i].0 == -(
            keys[sorted[i].1 as int] as int),
        forall|i: int, j: int| 0 <= i < j < sorted.len() ==> sorted[i].1 != sorted[j].1,
        forall|x: u32| x < keys.len() ==> #[trigger] has_index(sorted, x),
{
    broadcast use vstd::seq_lib::group_to_multiset_ensures;

    assert(sorted.len() == sorted.to_multiset().len());
    assert(before.len() == before.to_multiset().len());
    assert forall|i: int| 0 <= i < sorted.len() implies (#[trigger] sorted[i]).1 < keys.len()
        && sorted[i].0 == -(keys[sorted[i].1 as int] as int) by {
        assert(sorted.contains(sorted[i]));
        assert(sorted.to_multiset().count(sorted[i]) > 0);
        assert(before.contains(sorted[i]));
        let k = choose|k: int| 0 <= k < before.len() && before[k] == sorted[i];
        assert(before[k] == (-(keys[k] as int) as i64, k as u32));
    }
    assert(before.no_duplicates());
    before.lemma_multiset_has_no_duplicates();
    sorted.lemma_multiset_has_no_duplicates_conv();
    assert forall|i: int, j: int| 0 <= i < j < sorted.len() implies sorted[i].1 != sorted[j].1 by {
        if sorted[i].1 == sorted[j].1 {
            assert(sorted[i] == sorted[j]);
        }
    }
    assert forall|x: u32| x < keys.len() implies #[trigger] has_index(sorted, x) by {
        let p = before[x as int];
        assert(before.contains(p));
        assert(before.to_multiset().count(p) > 0);
        assert(sorted.contains(p));
        let w = choose|w: int| 0 <= w < sorted.len() && sorted[w] == p;
        assert(sorted[w].1 == x);
    }
}

/// How many candidates the nucleus keeps: up to the first at which the summed
/// probability has reached its bound, or all.
pub fn nucleus_len(reached: &Vec<bool>) -> (r: usize)
    ensures
        r <= reached@.len(),
        forall|i: int| 0 <= i < r - 1 ==> !#[trigger] reached@[i],
        r < reached@.len() ==> r > 0 && reached@[r - 1],
        r == reached@.len() && r > 0 ==> reached@[r - 1] || forall|i: int|
            0 <= i < r ==> !#[trigger] reached@[i],
{
    let mut i: usize = 0;
    while i < reached.len()
        invariant
            i <= reached@.len(),
            forall|k: int| 0 <= k < i ==> !#[trigger] reached@[k],
        decreases reached@.len() - i,
    {
        if reached[i] {
            return i + 1;
        }
        i = i + 1;
    }
    reached.len()
}

/// The candidate that the draw fell on: the first that is hit, or the last.
pub fn pick(idx: &Vec<u32>, hit: &Vec<bool>) -> (r: u32)
    requires
        0 < idx@.len() <= hit@.len(),
    ensures
        exists|n: int|
            #![trigger idx@[n]]
            {
                &&& 0 <= n < idx@.len()
                &&& r == idx@[n]
                &&& forall|i: int| 0 <= i < n ==> !#[trigger] hit@[i]
                &&& hit@[n] || n == idx@.len() - 1
            },
{
    let mut i: usize = 0;
    while i < idx.len()
        invariant
            i <= idx@.len() <= hit@.len(),
            forall|k: int| 0 <= k < i ==> !#[trigger] hit@[k],
        decreases idx@.len() - i,
    {
        if hit[i] {
            return idx[i];
        }
        i = i + 1;
    }
    assert(idx@[idx@.len() - 1] == idx@.last());
    idx[idx.len() - 1]
}


/// The bits of 1.
pub const ONE: u32 = 0x3f80_0000;

/// What the repetition penalty does to one logit: divide it where it is positive,
/// multiply it elsewhere.
#[derive(Clone, Copy, Debug, PartialEq, Eq, Structural)]
pub struct Penalty {
    pub id: u32,
    pub divide: bool,
}

/// `r` lists the penalties on `logits` after the tokens in `seen`: one for each token
/// seen that has a logit, in ascending order. A penalty of 1 changes nothing.
pub open spec fn is_penalties(
    logits: Seq<u32>,
    seen: Seq<u32>,
    penalty: u32,
    r: Seq<Penalty>,
) -> bool {
    &&& penalty == ONE ==> r.len() == 0
    &&& forall|i: int, j: int|
        0 <= i < j < r.len() ==> (#[trigger] r[i]).id < (#[trigger] r[j]).id
    &&& forall|i: int|
        0 <= i < r.len() ==> {
            &&& (#[trigger] r[i]).id < logits.len()
            &&& seen.contains(r[i].id)
            &&& r[i].divide == single::greater(logits[r[i].id as int], 0)
        }
    &&& penalty != ONE ==> forall|x: u32| #[trigger]
        seen.contains(x) && x < logits.len() ==> penalizes(r, x)
}

/// The penalties on `logits` after the tokens in `seen`.
pub fn penalties(logits: &Vec<u32>, seen: &Vec<u32>, penalty: u32) -> (r: Vec<Penalty>)
    ensures
        is_penalties(logits@, seen@, penalty, r@),
{
    let mut r: Vec<Penalty> = Vec::new();
    if penalty == ONE {
        return r;
    }
    let ids = penalized_ids(seen, logits.len());
    let mut i: usize = 0;
    while i < ids.len()
        invariant
            i <= ids@.len(),
            r@.len() == i,
            forall|i: int, j: int| 0 <= i < j < ids@.len() ==> ids@[i] < ids@[j],
            forall|x: u32| ids@.contains(x) <==> seen@.contains(x) && x < logits@.len(),
            forall|k: int|
                0 <= k < i ==> {
                    &&& (#[trigger] r@[k]).id == ids@[k]
                    &&& r@[k].id < logits@.len()
                    &&& r@[k].divide == single::greater(logits@[r@[k].id as int], 0)
                },
        decreases ids@.len() - i,
    {
        let id: u32 = ids[i];
        assert(ids@.contains(id));
        r.push(Penalty { id, divide: single::is_greater(logits[id as usize], 0) });
        i = i + 1;
    }
    proof {
        assert forall|k: int| 0 <= k < r@.len() implies seen@.contains((#[trigger] r@[k]).id) by {
            assert(ids@.contains(ids@[k]));
        }
        assert forall|x: u32| #[trigger] seen@.contains(x) && x < logits@.len() implies penalizes(
            r@,
            x,
        ) by {
            assert(ids@.contains(x));
            let k = choose|k: int| 0 <= k < ids@.len() && ids@[k] == x;
            assert(r@[k].id == x);
        }
    }
    r
}

/// Some penalty is on the logit of `x`.
pub open spec fn penalizes(r: Seq<Penalty>, x: u32) -> bool {
    exists|i: int| 0 <= i < r.len() && (#[trigger] r[i]).id == x
}

/// The penalties depend on which tokens were seen, not on their order or on how
/// often each was.
pub proof fn penalties_ignore_order_and_repeats(
    logits: Seq<u32>,
    seen: Seq<u32>,
    others: Seq<u32>,
    penalty: u32,
    r: Seq<Penalty>,
    q: Seq<Penalty>,
)
    requires
        forall|x: u32| #[trigger] seen.contains(x) <==> others.contains(x),
        is_penalties(logits, seen, penalty, r),
        is_penalties(logits, others, penalty, q),
    ensures
        r == q,
{
    if penalty != ONE {
        assert forall|x: u32| #[trigger] penalizes(r, x) == penalizes(q, x) by {
            if penalizes(r, x) {
                let i = choose|i: int| 0 <= i < r.len() && (#[trigger] r[i]).id == x;
                assert(seen.contains(r[i].id));
                assert(others.contains(x));
            }
            if penalizes(q, x) {
                let i = choose|i: int| 0 <= i < q.len() && (#[trigger] q[i]).id == x;
                assert(others.contains(q[i].id));
                assert(seen.contains(x));
            }
        }
        lemma_same_ids(r, q);
    }
    assert(r =~= q);
}

/// Only the logits of seen tokens are touched, each by one penalty, and none by a
/// penalty of 1.
pub proof fn penalties_touch_seen_once(
    logits: Seq<u32>,
    seen: Seq<u32>,
    penalty: u32,
    r: Seq<Penalty>,
    x: u32,
)
    requires
        is_penalties(logits, seen, penalty, r),
    ensures
        penalizes(r, x) <==> penalty != ONE && seen.contains(x) && x < logits.len(),
        forall|i: int, j: int|
            0 <= i < r.len() && 0 <= j < r.len() && (#[trigger] r[i]).id == x && (
            #[trigger] r[j]).id == x ==> i == j,
{
    if penalizes(r, x) {
        let i = choose|i: int| 0 <= i < r.len() && (#[trigger] r[i]).id == x;
        assert(seen.contains(r[i].id));
    }
}

/// Two ascending lists of the same tokens name them in the same places.
proof fn lemma_same_ids(r: Seq<Penalty>, q: Seq<Penalty>)
    requires
        forall|i: int, j: int|
            0 <= i < j < r.len() ==> (#[trigger] r[i]).id < (#[trigger] r[j]).id,
        forall|i: int, j: int|
            0 <= i < j < q.len() ==> (#[trigger] q[i]).id < (#[trigger] q[j]).id,
        forall|x: u32| #[trigger] penalizes(r, x) == penalizes(q, x),
    ensures
        r.len() == q.len(),
        forall|i: int| 0 <= i < r.len() ==> (#[trigger] r[i]).id == q[i].id,
    decreases r.len(),
{
    if r.len() == 0 {
        if q.len() > 0 {
            assert(q[0].id == q[0].id);
            assert(penalizes(q, q[0].id));
            assert(penalizes(r, q[0].id));
        }
    } else {
        let m = r.len() - 1;
        assert(penalizes(r, r[m].id));
        assert(penalizes(q, r[m].id));
        let w = choose|w: int| 0 <= w < q.len() && (#[trigger] q[w]).id == r[m].id;
        let n = q.len() - 1;
        assert(penalizes(q, q[n].id));
        assert(penalizes(r, q[n].id));
        let v = choose|v: int| 0 <= v < r.len() && (#[trigger] r[v]).id == q[n].id;
        assert(r[m].id == q[n].id);
        let a = r.drop_last();
        let b = q.drop_last();
        assert forall|x: u32| #[trigger] penalizes(a, x) == penalizes(b, x) by {
            if penalizes(a, x) {
                let i = choose|i: int| 0 <= i < a.len() && (#[trigger] a[i]).id == x;
                assert(r[i].id == x);
                assert(penalizes(r, x));
                assert(penalizes(q, x));
                let j = choose|j: int| 0 <= j < q.len() && (#[trigger] q[j]).id == x;
                assert(r[i].id < r[m].id);
                assert(b[j].id == x);
            }
            if penalizes(b, x) {
                let i = choose|i: int| 0 <= i < b.len() && (#[trigger] b[i]).id == x;
                assert(q[i].id == x);
                assert(penalizes(q, x));
                assert(penalizes(r, x));
                let j = choose|j: int| 0 <= j < r.len() && (#[trigger] r[j]).id == x;
                assert(q[i].id < q[n].id);
                assert(a[j].id == x);
            }
        }
        lemma_same_ids(a, b);
        assert forall|i: int| 0 <= i < r.len() implies (#[trigger] r[i]).id == q[i].id by {
            if i < m {
                assert(a[i].id == b[i].id);
            }
        }
    }
}

/// How a token is found among penalized logits.
pub enum Choice {
    /// Without a positive temperature: the largest logit.
    Greedy(u32),
    /// A draw among candidates, largest logit first.
    Draw(Vec<u32>),
}

/// `temperature <= 0`.
pub open spec fn is_cold(temperature: u32) -> bool {
    !single::nan(temperature) && single::spec_key(temperature) <= 0
}

/// Decides between the largest logit and a draw among the `top_k` largest.
pub fn candidates(logits: &Vec<u32>, temperature: u32, top_k: usize) -> (r: Choice)
    requires
        logits@.len() <= u32::MAX,
        is_cold(temperature) || 0 < logits@.len() && single::all_numbers(logits@),
    ensures
        match r {
            Choice::Greedy(id) => is_cold(temperature) && id == scan(logits@, logits@.len()),
            Choice::Draw(idx) => {
                &&& !is_cold(temperature)
                &&& idx@.len() == top_count(top_k as nat, logits@.len())
                &&& ranks_logits(idx@, logits@)
            },
        },
{
    if !single::is_nan(temperature) && single::key(temperature) <= 0 {
        return Choice::Greedy(argmax(logits));
    }
    let keys = single::keys_of(logits);
    let idx = ranked(&keys, top_k);
    proof {
        assert forall|i: int, j: int| 0 <= i <= j < idx@.len() implies single::spec_key(
            logits@[#[trigger] idx@[i] as int],
        ) >= single::spec_key(logits@[#[trigger] idx@[j] as int]) by {
            assert(keys@[idx@[i] as int] >= keys@[idx@[j] as int]);
        }
        assert forall|i: int, x: u32|
            #![trigger idx@[i], idx@.contains(x)]
            0 <= i < idx@.len() && x < logits@.len() && !idx@.contains(x) implies single::spec_key(
            logits@[x as int],
        ) <= single::spec_key(logits@[idx@[i] as int]) by {
            assert(keys@[x as int] <= keys@[idx@[i] as int]);
        }
    }
    Choice::Draw(idx)
}

/// `r` lists distinct indices, larger logits first, and no index that is missing has
/// a larger logit than one that is there.
pub open spec fn ranks_logits(r: Seq<u32>, logits: Seq<u32>) -> bool {
    &&& forall|i: int| 0 <= i < r.len() ==> #[trigger] r[i] < logits.len()
    &&& forall|i: int, j: int| 0 <= i < j < r.len() ==> r[i] != r[j]
    &&& forall|i: int, j: int|
        0 <= i <= j < r.len() ==> single::spec_key(logits[#[trigger] r[i] as int])
            >= single::spec_key(logits[#[trigger] r[j] as int])
    &&& forall|i: int, x: u32|
        #![trigger r[i], r.contains(x)]
        0 <= i < r.len() && x < logits.len() && !r.contains(x) ==> single::spec_key(
            logits[x as int],
        ) <= single::spec_key(logits[r[i] as int])
}

} // verus!
