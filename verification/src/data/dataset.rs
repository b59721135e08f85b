//! The pool of resident shards and the windows drawn from it.
use super::shard;
use super::shard::is_shard_name;
use crate::random::draw_below;
use crate::text::chars_of;
use rand::rngs::StdRng;
use vstd::prelude::*;

verus! {

/// How many shards stay loaded during training.
pub const RESIDENT_SHARDS: usize = 4;

/// A resident shard is swapped for a random cold one every this many batches.
pub const ROTATE_EVERY: usize = 256;

// ---- choosing the shards ----

/// A file of the shard directory: its name and its length in bytes.
#[derive(Debug)]
pub struct ShardFile {
    pub name: String,
    pub bytes: u64,
}

impl View for ShardFile {
    type V = (Seq<char>, u64);

    open spec fn view(&self) -> (Seq<char>, u64) {
        (self.name@, self.bytes)
    }
}

/// The values of a list of files.
pub open spec fn file_views(files: Seq<ShardFile>) -> Seq<(Seq<char>, u64)> {
    Seq::new(files.len(), |i: int| files[i]@)
}

/// `a` comes before `b`, or is `b`, in the order of their characters.
pub open spec fn name_le(a: Seq<char>, b: Seq<char>) -> bool
    decreases a.len(),
{
    if a.len() == 0 {
        true
    } else if b.len() == 0 {
        false
    } else if a[0] == b[0] {
        name_le(a.subrange(1, a.len() as int), b.subrange(1, b.len() as int))
    } else {
        (a[0] as u32) < (b[0] as u32)
    }
}

fn compare_names(a: &Vec<char>, b: &Vec<char>) -> (r: bool)
    ensures
        r == name_le(a@, b@),
{
    let mut i: usize = 0;
    assert(a@.subrange(0, a@.len() as int) =~= a@);
    assert(b@.subrange(0, b@.len() as int) =~= b@);
    while i < a.len()
        invariant
            i <= a@.len(),
            i <= b@.len(),
            name_le(a@, b@) == name_le(
                a@.subrange(i as int, a@.len() as int),
                b@.subrange(i as int, b@.len() as int),
            ),
        decreases a@.len() - i,
    {
        let ghost x = a@.subrange(i as int, a@.len() as int);
        let ghost y = b@.subrange(i as int, b@.len() as int);
        if i >= b.len() {
            return false;
        }
        if a[i] != b[i] {
            return (a[i] as u32) < (b[i] as u32);
        }
        assert(x.subrange(1, x.len() as int) =~= a@.subrange(i + 1, a@.len() as int));
        assert(y.subrange(1, y.len() as int) =~= b@.subrange(i + 1, b@.len() as int));
        i = i + 1;
    }
    true
}

proof fn lemma_name_total(a: Seq<char>, b: Seq<char>)
    ensures
        name_le(a, b) || name_le(b, a),
    decreases a.len(),
{
    if a.len() > 0 && b.len() > 0 && a[0] == b[0] {
        lemma_name_total(a.subrange(1, a.len() as int), b.subrange(1, b.len() as int));
    } else if a.len() > 0 && b.len() > 0 {
        lemma_char_order(a[0], b[0]);
    }
}

/// Two characters with the same code are the same.
proof fn lemma_char_order(a: char, b: char)
    requires
        a != b,
    ensures
        (a as u32) != (b as u32),
{
}

proof fn lemma_name_trans(a: Seq<char>, b: Seq<char>, c: Seq<char>)
    requires
        name_le(a, b),
        name_le(b, c),
    ensures
        name_le(a, c),
    decreases a.len(),
{
    if a.len() > 0 && b.len() > 0 && c.len() > 0 {
        if a[0] == b[0] && b[0] == c[0] {
            lemma_name_trans(
                a.subrange(1, a.len() as int),
                b.subrange(1, b.len() as int),
                c.subrange(1, c.len() as int),
            );
        }
    }
}

/// The file is a shard that holds at least one window of `seq_len + 1` tokens.
pub open spec fn usable(f: (Seq<char>, u64), seq_len: nat) -> bool {
    shard::spec_is_shard_name(f.0) && f.1 / 4 >= seq_len + 1
}

/// The usable ones of the first `n` files.
pub open spec fn usable_files(files: Seq<(Seq<char>, u64)>, seq_len: nat, n: nat) -> Seq<
    (Seq<char>, u64),
>
    decreases n,
{
    if n == 0 {
        Seq::empty()
    } else {
        let rest = usable_files(files, seq_len, (n - 1) as nat);
        if usable(files[n - 1], seq_len) {
            rest.push(files[n - 1])
        } else {
            rest
        }
    }
}

/// Whole tokens in the first `n` files.
pub open spec fn tokens_in(files: Seq<(Seq<char>, u64)>, n: nat) -> int
    decreases n,
{
    if n == 0 {
        0
    } else {
        tokens_in(files, (n - 1) as nat) + files[n - 1].1 / 4
    }
}

/// The files are in the order of their names.
pub open spec fn by_name(files: Seq<(Seq<char>, u64)>) -> bool {
    forall|i: int, j: int|
        0 <= i <= j < files.len() ==> name_le((#[trigger] files[i]).0, (#[trigger] files[j]).0)
}

/// The shards of a dataset, in the order of their names.
#[derive(Debug)]
pub struct ShardPlan {
    pub shards: Vec<ShardFile>,
    pub total_tokens: usize,
}

/// Inserts a file at its place.
fn insert_file(shards: &mut Vec<ShardFile>, f: ShardFile)
    requires
        by_name(file_views(old(shards)@)),
    ensures
        by_name(file_views(final(shards)@)),
        file_views(final(shards)@).to_multiset() == file_views(old(shards)@).to_multiset().insert(
            f@,
        ),
        file_views(final(shards)@).len() == file_views(old(shards)@).len() + 1,
{
    let ghost before = file_views(shards@);
    let key = chars_of(f.name.as_str());
    let ghost fv = f@;
    let mut k: usize = shards.len();
    while k > 0
        invariant
            k <= shards@.len(),
            before == file_views(shards@),
            before == file_views(old(shards)@),
            by_name(before),
            fv == f@,
            key@ == fv.0,
            forall|j: int| k <= j < before.len() ==> name_le(fv.0, (#[trigger] before[j]).0),
        decreases k,
    {
        let other = chars_of(shards[k - 1].name.as_str());
        assert(before[k - 1].0 == other@);
        if compare_names(&other, &key) {
            proof {
                lemma_insert_sorted(before, k as int, fv);
            }
            insert_at(shards, k, f);
            return;
        }
        proof {
            lemma_name_total(other@, key@);
        }
        k = k - 1;
    }
    proof {
        lemma_insert_sorted(before, 0, fv);
    }
    insert_at(shards, 0, f);
}

fn insert_at(shards: &mut Vec<ShardFile>, k: usize, f: ShardFile)
    requires
        k <= old(shards)@.len(),
    ensures
        file_views(final(shards)@) == file_views(old(shards)@).insert(k as int, f@),
{
    let ghost before = file_views(shards@);
    shards.insert(k, f);
    assert(file_views(shards@) =~= before.insert(k as int, f@));
}

proof fn lemma_insert_sorted(s: Seq<(Seq<char>, u64)>, k: int, f: (Seq<char>, u64))
    requires
        by_name(s),
        0 <= k <= s.len(),
        k > 0 ==> name_le(s[k - 1].0, f.0),
        forall|j: int| k <= j < s.len() ==> name_le(f.0, (#[trigger] s[j]).0),
    ensures
        by_name(s.insert(k, f)),
        s.insert(k, f).to_multiset() == s.to_multiset().insert(f),
{
    broadcast use vstd::seq_lib::group_to_multiset_ensures;

    let t = s.insert(k, f);
    assert(t.remove(k) =~= s);
    assert(t[k] == f);
    assert(t.contains(f));
    assert(t.to_multiset().count(f) > 0);
    assert(t.to_multiset().remove(f) == s.to_multiset());
    assert(t.to_multiset() =~= s.to_multiset().insert(f));
    assert forall|i: int, j: int| 0 <= i <= j < t.len() implies name_le(
        (#[trigger] t[i]).0,
        (#[trigger] t[j]).0,
    ) by {
        if i == j {
            lemma_name_total(t[i].0, t[i].0);
        } else if j < k {
            assert(t[i] == s[i] && t[j] == s[j]);
        } else if i > k {
            assert(t[i] == s[i - 1] && t[j] == s[j - 1]);
        } else if i == k {
            assert(t[j] == s[j - 1]);
        } else if j == k {
            assert(t[i] == s[i]);
            assert(name_le(s[i].0, s[k - 1].0));
            lemma_name_trans(s[i].0, s[k - 1].0, f.0);
        } else {
            assert(t[i] == s[i] && t[j] == s[j - 1]);
        }
    }
}

proof fn lemma_tokens_monotone(files: Seq<(Seq<char>, u64)>, i: nat, j: nat)
    requires
        i <= j,
    ensures
        0 <= tokens_in(files, i) <= tokens_in(files, j),
    decreases j,
{
    if i < j {
        lemma_tokens_monotone(files, i, (j - 1) as nat);
    } else if j > 0 {
        lemma_tokens_monotone(files, (i - 1) as nat, (j - 1) as nat);
    }
}

/// `plan` lists the usable files among `files` by name and counts their tokens.
pub open spec fn is_plan(files: Seq<(Seq<char>, u64)>, seq_len: nat, plan: ShardPlan) -> bool {
    let usable = usable_files(files, seq_len, files.len());
    &&& by_name(file_views(plan.shards@))
    &&& file_views(plan.shards@).to_multiset() == usable.to_multiset()
    &&& plan.total_tokens == tokens_in(usable, usable.len())
}

/// The shards among the files of a directory, in the order of their names. A
/// window needs `seq_len + 1` tokens; shards below that are dropped.
pub fn plan_shards(files: Vec<ShardFile>, seq_len: usize) -> (r: ShardPlan)
    requires
        seq_len < usize::MAX,
        tokens_in(file_views(files@), files@.len()) <= usize::MAX,
    ensures
        is_plan(file_views(files@), seq_len as nat, r),
{
    let ghost fv = file_views(files@);
    let n: usize = files.len();
    let mut rest = files;
    let mut shards: Vec<ShardFile> = Vec::new();
    let mut total: usize = 0;
    let mut i: usize = 0;
    assert(file_views(shards@) =~= Seq::<(Seq<char>, u64)>::empty());
    while i < n
        invariant
            i <= n == fv.len(),
            rest@.len() == n - i,
            forall|k: int| 0 <= k < n - i ==> (#[trigger] rest@[k])@ == fv[i + k],
            seq_len < usize::MAX,
            tokens_in(fv, fv.len()) <= usize::MAX,
            by_name(file_views(shards@)),
            file_views(shards@).to_multiset() == usable_files(
                fv,
                seq_len as nat,
                i as nat,
            ).to_multiset(),
            ({
                let u = usable_files(fv, seq_len as nat, i as nat);
                total == tokens_in(u, u.len()) && total <= tokens_in(fv, i as nat)
            }),
        decreases n - i,
    {
        let ghost u = usable_files(fv, seq_len as nat, i as nat);
        assert(rest@[0]@ == fv[i as int]);
        let f = rest.remove(0);
        proof {
            lemma_tokens_monotone(fv, (i + 1) as nat, fv.len());
        }
        if is_shard_name(f.name.as_str()) && f.bytes / 4 >= seq_len as u64 + 1 {
            proof {
                broadcast use vstd::seq_lib::group_to_multiset_ensures;

                let v = u.push(f@);
                assert(v.to_multiset() == u.to_multiset().insert(f@));
                lemma_tokens_prefix(u, v, u.len());
            }
            total = total + (f.bytes / 4) as usize;
            insert_file(&mut shards, f);
        }
        i = i + 1;
    }
    ShardPlan { shards, total_tokens: total }
}

proof fn lemma_tokens_prefix(a: Seq<(Seq<char>, u64)>, b: Seq<(Seq<char>, u64)>, n: nat)
    requires
        n <= a.len() <= b.len(),
        forall|i: int| 0 <= i < n ==> #[trigger] a[i] == b[i],
    ensures
        tokens_in(a, n) == tokens_in(b, n),
    decreases n,
{
    if n > 0 {
        lemma_tokens_prefix(a, b, (n - 1) as nat);
        assert(a[n - 1] == b[n - 1]);
    }
}

// ---- the pool ----

pub struct Dataset {
    pub shards: Vec<ShardFile>,
    pub total_tokens: usize,
    pub seq_len: usize,
    /// (shard index, tokens): the pool that windows are drawn from.
    pub resident: Vec<(usize, Vec<u32>)>,
    pub batches_served: usize,
    pub next_victim: usize,
}

/// The resident shards' numbers.
pub open spec fn indices(resident: Seq<(usize, Vec<u32>)>) -> Seq<usize> {
    Seq::new(resident.len(), |i: int| resident[i].0)
}

/// The resident shards' tokens.
pub open spec fn pool(resident: Seq<(usize, Vec<u32>)>) -> Seq<Seq<u32>> {
    Seq::new(resident.len(), |i: int| resident[i].1@)
}

/// Number of windows in the first `n` shards of a pool.
pub open spec fn windows(p: Seq<Seq<u32>>, seq_len: nat, n: nat) -> int
    decreases n,
{
    if n == 0 {
        0
    } else {
        windows(p, seq_len, (n - 1) as nat) + (p[n - 1].len() - seq_len)
    }
}

/// Every shard of the pool holds at least one window.
pub open spec fn pool_ok(p: Seq<Seq<u32>>, seq_len: nat) -> bool {
    &&& p.len() > 0
    &&& forall|i: int| 0 <= i < p.len() ==> (#[trigger] p[i]).len() >= seq_len + 1
    &&& windows(p, seq_len, p.len()) <= usize::MAX
}

/// Where the window with number `r` starts, counted from shard `i` on: the shard
/// and the offset within it.
pub open spec fn locate(p: Seq<Seq<u32>>, seq_len: nat, i: int, r: int) -> (int, int)
    decreases p.len() - i,
{
    if i >= p.len() || i < 0 {
        (i, r)
    } else if r < p[i].len() - seq_len {
        (i, r)
    } else {
        locate(p, seq_len, i + 1, r - (p[i].len() - seq_len))
    }
}

/// The inputs and the targets of window `r`.
pub open spec fn window(p: Seq<Seq<u32>>, seq_len: nat, r: int) -> (Seq<u32>, Seq<u32>) {
    let (s, o) = locate(p, seq_len, 0, r);
    (p[s].subrange(o, o + seq_len), p[s].subrange(o + 1, o + seq_len + 1))
}

/// The inputs and the targets of the first `n` drawn windows.
pub open spec fn batch(p: Seq<Seq<u32>>, seq_len: nat, draws: Seq<usize>, n: nat) -> (
    Seq<u32>,
    Seq<u32>,
)
    decreases n,
{
    if n == 0 {
        (Seq::empty(), Seq::empty())
    } else {
        let (a, b) = batch(p, seq_len, draws, (n - 1) as nat);
        let (x, y) = window(p, seq_len, draws[n - 1] as int);
        (a + x, b + y)
    }
}

proof fn lemma_windows(p: Seq<Seq<u32>>, seq_len: nat, i: nat, j: nat)
    requires
        i <= j <= p.len(),
        forall|i: int| 0 <= i < p.len() ==> (#[trigger] p[i]).len() >= seq_len + 1,
    ensures
        0 <= i <= windows(p, seq_len, i) <= windows(p, seq_len, j),
    decreases j,
{
    if i < j {
        lemma_windows(p, seq_len, i, (j - 1) as nat);
        assert(p[j - 1].len() >= seq_len + 1);
    } else if j > 0 {
        lemma_windows(p, seq_len, (i - 1) as nat, (j - 1) as nat);
        assert(p[j - 1].len() >= seq_len + 1);
    }
}

proof fn lemma_locate(p: Seq<Seq<u32>>, seq_len: nat, i: int, r: int)
    requires
        0 <= i <= p.len(),
        forall|i: int| 0 <= i < p.len() ==> (#[trigger] p[i]).len() >= seq_len + 1,
        0 <= r < windows(p, seq_len, p.len()) - windows(p, seq_len, i as nat),
    ensures
        ({
            let (s, o) = locate(p, seq_len, i, r);
            &&& i <= s < p.len()
            &&& 0 <= o < p[s].len() - seq_len
            &&& windows(p, seq_len, s as nat) + o == windows(p, seq_len, i as nat) + r
        }),
    decreases p.len() - i,
{
    if i < p.len() && r >= p[i].len() - seq_len {
        lemma_locate(p, seq_len, i + 1, r - (p[i].len() - seq_len));
    }
}

/// Every draw below the number of windows finds a window of `seq_len` inputs
/// within one shard; every window is found by exactly one draw, so all windows
/// are equally likely however the tokens are spread over the shards.
pub proof fn every_window_has_one_draw(p: Seq<Seq<u32>>, seq_len: nat, s: int, o: int)
    requires
        pool_ok(p, seq_len),
        0 <= s < p.len(),
        0 <= o < p[s].len() - seq_len,
    ensures
        ({
            let r = windows(p, seq_len, s as nat) + o;
            &&& 0 <= r < windows(p, seq_len, p.len())
            &&& locate(p, seq_len, 0, r) == (s, o)
            &&& forall|q: int|
                0 <= q < windows(p, seq_len, p.len()) && #[trigger] locate(p, seq_len, 0, q) == (s, o)
                    ==> q == r
        }),
{
    let r = windows(p, seq_len, s as nat) + o;
    lemma_windows(p, seq_len, s as nat, p.len());
    lemma_windows(p, seq_len, (s + 1) as nat, p.len());
    lemma_find(p, seq_len, 0, s, o);
    assert forall|q: int|
        0 <= q < windows(p, seq_len, p.len()) && #[trigger] locate(p, seq_len, 0, q) == (s, o) implies q
        == r by {
        lemma_locate(p, seq_len, 0, q);
    }
}

proof fn lemma_find(p: Seq<Seq<u32>>, seq_len: nat, i: int, s: int, o: int)
    requires
        forall|i: int| 0 <= i < p.len() ==> (#[trigger] p[i]).len() >= seq_len + 1,
        0 <= i <= s < p.len(),
        0 <= o < p[s].len() - seq_len,
    ensures
        locate(
            p,
            seq_len,
            i,
            windows(p, seq_len, s as nat) - windows(p, seq_len, i as nat) + o,
        ) == (s, o),
    decreases s - i,
{
    if i < s {
        lemma_find(p, seq_len, i + 1, s, o);
        lemma_windows(p, seq_len, (i + 1) as nat, s as nat);
    }
}

/// The targets of a window are its inputs shifted by one token.
pub proof fn targets_follow_inputs(p: Seq<Seq<u32>>, seq_len: nat, r: int)
    requires
        pool_ok(p, seq_len),
        0 <= r < windows(p, seq_len, p.len()),
    ensures
        ({
            let (x, y) = window(p, seq_len, r);
            &&& x.len() == seq_len
            &&& y.len() == seq_len
            &&& forall|k: int| 0 <= k < seq_len - 1 ==> #[trigger] y[k] == x[k + 1]
        }),
{
    lemma_locate(p, seq_len, 0, r);
}

fn append_range(dst: &mut Vec<u32>, src: &Vec<u32>, from: usize, to: usize)
    requires
        from <= to <= src@.len(),
    ensures
        final(dst)@ == old(dst)@ + src@.subrange(from as int, to as int),
{
    let ghost before = dst@;
    let mut i: usize = from;
    assert(dst@ =~= before + src@.subrange(from as int, i as int));
    while i < to
        invariant
            from <= i <= to <= src@.len(),
            dst@ == before + src@.subrange(from as int, i as int),
        decreases to - i,
    {
        dst.push(src[i]);
        i = i + 1;
        assert(dst@ =~= before + src@.subrange(from as int, i as int));
    }
}

impl Dataset {
    /// The pool holds as many shards as it should, none twice, each with at least
    /// one window.
    pub open spec fn wf(self) -> bool {
        &&& self.resident@.len() == pool_size(self.shards@.len())
        &&& pool_ok(pool(self.resident@), self.seq_len as nat)
        &&& self.seq_len < usize::MAX
        &&& forall|i: int| 0 <= i < self.resident@.len() ==> (#[trigger] self.resident@[i]).0
            < self.shards@.len()
        &&& indices(self.resident@).no_duplicates()
        &&& self.next_victim <= self.batches_served
    }

    /// This is a new dataset over the planned shards, the first of them `loaded`.
    pub open spec fn starts(self, plan: ShardPlan, seq_len: usize, loaded: Seq<Seq<u32>>) -> bool {
        &&& self.shards == plan.shards
        &&& self.total_tokens == plan.total_tokens
        &&& self.seq_len == seq_len
        &&& pool(self.resident@) == loaded
        &&& forall|i: int| 0 <= i < self.resident@.len() ==> (#[trigger] self.resident@[i]).0 == i
        &&& self.batches_served == 0
        &&& self.next_victim == 0
    }

    /// With the next batch one shard of the pool gives way to a cold one.
    pub open spec fn rotation_due(self) -> bool {
        self.shards@.len() > self.resident@.len() && (self.batches_served + 1)
            % ROTATE_EVERY as int == 0
    }

    /// `after` is this dataset once it has counted a batch; `swap` is the slot that
    /// gives way, whose turn it is, and the shard that comes for it.
    pub open spec fn counts(self, swap: Option<(usize, usize)>, after: Self) -> bool {
        &&& after.shards == self.shards
        &&& after.total_tokens == self.total_tokens
        &&& after.seq_len == self.seq_len
        &&& after.resident == self.resident
        &&& after.batches_served == self.batches_served + 1
        &&& swap is Some <==> self.rotation_due()
        &&& match swap {
            None => after.next_victim == self.next_victim,
            Some((victim, incoming)) => {
                &&& after.next_victim == self.next_victim + 1
                &&& victim == self.next_victim as int % self.resident@.len() as int
                &&& incoming < self.shards@.len()
                &&& !indices(self.resident@).contains(incoming)
            },
        }
    }

    /// `after` is this dataset with the shard `incoming` in slot `victim`.
    pub open spec fn swaps(
        self,
        victim: usize,
        incoming: usize,
        tokens: Seq<u32>,
        after: Self,
    ) -> bool {
        &&& after.shards == self.shards
        &&& after.total_tokens == self.total_tokens
        &&& after.seq_len == self.seq_len
        &&& after.batches_served == self.batches_served
        &&& after.next_victim == self.next_victim
        &&& pool(after.resident@) == pool(self.resident@).update(victim as int, tokens)
        &&& indices(after.resident@) == indices(self.resident@).update(victim as int, incoming)
    }

    /// A dataset over the planned shards, with the first of them loaded.
    pub fn from_shards(plan: ShardPlan, seq_len: usize, loaded: Vec<Vec<u32>>) -> (r: Self)
        requires
            seq_len < usize::MAX,
            plan.shards@.len() > 0,
            loaded@.len() == pool_size(plan.shards@.len()),
            pool_ok(super::tokenize::views(loaded@), seq_len as nat),
        ensures
            r.wf(),
            r.starts(plan, seq_len, super::tokenize::views(loaded@)),
    {
        let ghost all = super::tokenize::views(loaded@);
        let n: usize = loaded.len();
        let mut rest = loaded;
        let mut resident: Vec<(usize, Vec<u32>)> = Vec::new();
        let mut i: usize = 0;
        while i < n
            invariant
                i <= n == all.len(),
                rest@.len() == n - i,
                forall|k: int| 0 <= k < n - i ==> (#[trigger] rest@[k])@ == all[i + k],
                resident@.len() == i,
                forall|k: int|
                    0 <= k < i ==> (#[trigger] resident@[k]).0 == k && resident@[k].1@ == all[k],
            decreases n - i,
        {
            assert(rest@[0]@ == all[i as int]);
            let tokens = rest.remove(0);
            resident.push((i, tokens));
            i = i + 1;
        }
        assert(pool(resident@) =~= all);
        Dataset {
            shards: plan.shards,
            total_tokens: plan.total_tokens,
            seq_len,
            resident,
            batches_served: 0,
            next_victim: 0,
        }
    }

    pub fn token_count(&self) -> (r: usize)
        ensures
            r == self.total_tokens,
    {
        self.total_tokens
    }

    /// Number of windows in the pool.
    pub fn window_count(&self) -> (r: usize)
        requires
            self.wf(),
        ensures
            r == windows(pool(self.resident@), self.seq_len as nat, self.resident@.len()),
            r > 0,
    {
        let ghost p = pool(self.resident@);
        let ghost l = self.seq_len as nat;
        let mut total: usize = 0;
        let mut i: usize = 0;
        while i < self.resident.len()
            invariant
                i <= self.resident@.len(),
                self.wf(),
                p == pool(self.resident@),
                l == self.seq_len,
                total == windows(p, l, i as nat),
            decreases self.resident@.len() - i,
        {
            proof {
                lemma_windows(p, l, (i + 1) as nat, p.len());
                assert(p[i as int].len() >= l + 1);
            }
            total = total + (self.resident[i].1.len() - self.seq_len);
            i = i + 1;
        }
        proof {
            lemma_windows(p, l, p.len(), p.len());
        }
        total
    }

    /// The inputs and the targets of the drawn windows, one behind the other.
    pub fn windows_at(&self, draws: &Vec<usize>) -> (r: (Vec<u32>, Vec<u32>))
        requires
            self.wf(),
            forall|i: int|
                0 <= i < draws@.len() ==> (#[trigger] draws@[i]) < windows(
                    pool(self.resident@),
                    self.seq_len as nat,
                    self.resident@.len(),
                ),
        ensures
            (r.0@, r.1@) == batch(
                pool(self.resident@),
                self.seq_len as nat,
                draws@,
                draws@.len(),
            ),
    {
        let ghost p = pool(self.resident@);
        let ghost l = self.seq_len as nat;
        let mut inputs: Vec<u32> = Vec::new();
        let mut targets: Vec<u32> = Vec::new();
        let mut b: usize = 0;
        while b < draws.len()
            invariant
                b <= draws@.len(),
                self.wf(),
                p == pool(self.resident@),
                l == self.seq_len,
                forall|i: int|
                    0 <= i < draws@.len() ==> (#[trigger] draws@[i]) < windows(p, l, p.len()),
                (inputs@, targets@) == batch(p, l, draws@, b as nat),
            decreases draws@.len() - b,
        {
            let ghost before = (inputs@, targets@);
            let draw: usize = draws[b];
            let mut r: usize = draw;
            let mut i: usize = 0;
            let ghost goal = locate(p, l, 0, draw as int);
            proof {
                lemma_locate(p, l, 0, draw as int);
            }
            while i < self.resident.len() && r >= self.resident[i].1.len() - self.seq_len
                invariant
                    i <= self.resident@.len(),
                    self.wf(),
                    p == pool(self.resident@),
                    l == self.seq_len,
                    goal == locate(p, l, i as int, r as int),
                    goal.0 < p.len(),
                decreases self.resident@.len() - i,
            {
                assert(p[i as int].len() >= l + 1);
                r = r - (self.resident[i].1.len() - self.seq_len);
                i = i + 1;
            }
            assert(goal == (i as int, r as int));
            append_range(&mut inputs, &self.resident[i].1, r, r + self.seq_len);
            append_range(&mut targets, &self.resident[i].1, r + 1, r + self.seq_len + 1);
            assert(p[i as int] == self.resident@[i as int].1@);
            b = b + 1;
        }
        (inputs, targets)
    }

    /// A batch of random windows, every window of the pool equally likely to be
    /// drawn.
    pub fn random_batch(&self, batch_size: usize, rng: &mut StdRng) -> (r: (Vec<u32>, Vec<u32>))
        requires
            self.wf(),
        ensures
            exists|draws: Seq<usize>|
                #![trigger batch(pool(self.resident@), self.seq_len as nat, draws, draws.len())]
                {
                    &&& draws.len() == batch_size
                    &&& forall|i: int|
                        0 <= i < draws.len() ==> (#[trigger] draws[i]) < windows(
                            pool(self.resident@),
                            self.seq_len as nat,
                            self.resident@.len(),
                        )
                    &&& (r.0@, r.1@) == batch(
                        pool(self.resident@),
                        self.seq_len as nat,
                        draws,
                        draws.len(),
                    )
                },
    {
        let total: usize = self.window_count();
        let mut draws: Vec<usize> = Vec::new();
        let mut i: usize = 0;
        while i < batch_size
            invariant
                i <= batch_size,
                total > 0,
                draws@.len() == i,
                forall|k: int| 0 <= k < i ==> (#[trigger] draws@[k]) < total,
            decreases batch_size - i,
        {
            let d: usize = draw_below(rng, total);
            draws.push(d);
            i = i + 1;
        }
        self.windows_at(&draws)
    }

    /// The shard `i` is in the pool.
    fn is_resident(&self, i: usize) -> (r: bool)
        ensures
            r == indices(self.resident@).contains(i),
    {
        let mut k: usize = 0;
        while k < self.resident.len()
            invariant
                k <= self.resident@.len(),
                forall|j: int| 0 <= j < k ==> (#[trigger] self.resident@[j]).0 != i,
            decreases self.resident@.len() - k,
        {
            if self.resident[k].0 == i {
                assert(indices(self.resident@)[k as int] == i);
                return true;
            }
            k = k + 1;
        }
        proof {
            assert forall|j: int| 0 <= j < self.resident@.len() implies indices(self.resident@)[j]
                != i by {
                assert(self.resident@[j].0 != i);
            }
        }
        false
    }

    /// What a drawn shard leads to in a rotation: nothing if it is in the pool, and
    /// another is to be drawn; else the slot whose turn it is gives way to it.
    pub fn take_draw(&mut self, candidate: usize) -> (r: Option<(usize, usize)>)
        requires
            old(self).resident@.len() > 0,
            old(self).next_victim < usize::MAX,
        ensures
            final(self).shards == old(self).shards,
            final(self).total_tokens == old(self).total_tokens,
            final(self).seq_len == old(self).seq_len,
            final(self).resident == old(self).resident,
            final(self).batches_served == old(self).batches_served,
            r is None <==> indices(old(self).resident@).contains(candidate),
            match r {
                None => final(self).next_victim == old(self).next_victim,
                Some((victim, incoming)) => {
                    &&& final(self).next_victim == old(self).next_victim + 1
                    &&& victim == old(self).next_victim as int % old(self).resident@.len() as int
                    &&& incoming == candidate
                },
            },
    {
        if self.is_resident(candidate) {
            return None;
        }
        let victim: usize = self.next_victim % self.resident.len();
        self.next_victim = self.next_victim + 1;
        Some((victim, candidate))
    }

    /// Counts a batch, and says every so many batches which resident shard gives
    /// way to which cold one, so that a long run sees the whole corpus. The
    /// victims take turns; the newcomer is drawn from all shards until one outside
    /// the pool comes. That the draws are counted is for the loop's end alone: were
    /// 2^64 - 1 of them in vain, the first cold shard would come.
    pub fn maybe_rotate(&mut self, rng: &mut StdRng) -> (r: Option<(usize, usize)>)
        requires
            old(self).batches_served < usize::MAX,
            old(self).rotation_due() ==> old(self).resident@.len() > 0 && old(self).next_victim
                < usize::MAX,
        ensures
            old(self).wf() ==> final(self).wf(),
            old(self).counts(r, *final(self)),
    {
        self.batches_served = self.batches_served + 1;
        if self.shards.len() <= self.resident.len() || self.batches_served % ROTATE_EVERY != 0 {
            return None;
        }
        let n: usize = self.shards.len();
        let ghost counted = *self;
        let ghost idx = indices(self.resident@);
        let mut left: u64 = u64::MAX;
        while left > 0
            invariant
                n == self.shards@.len(),
                n > 0,
                *self == counted,
                idx == indices(self.resident@),
                counted.shards == old(self).shards,
                counted.total_tokens == old(self).total_tokens,
                counted.seq_len == old(self).seq_len,
                counted.resident == old(self).resident,
                counted.next_victim == old(self).next_victim,
                counted.batches_served == old(self).batches_served + 1,
                old(self).rotation_due(),
                old(self).resident@.len() > 0,
                old(self).next_victim < usize::MAX,
            decreases left,
        {
            let candidate: usize = draw_below(rng, n);
            match self.take_draw(candidate) {
                Some(swap) => {
                    return Some(swap);
                },
                None => {},
            }
            left = left - 1;
        }
        let mut i: usize = 0;
        while i < n && self.is_resident(i)
            invariant
                i <= n,
                idx == indices(self.resident@),
                forall|k: usize| k < i ==> idx.contains(k),
            decreases n - i,
        {
            i = i + 1;
        }
        proof {
            if i == n {
                lemma_pigeonhole(idx, n as nat);
            }
        }
        self.take_draw(i)
    }

    /// Puts a freshly loaded shard into a slot of the pool. The pool stays in order
    /// where the shard was not in it and holds at least one window.
    pub fn swap_in(&mut self, victim: usize, incoming: usize, tokens: Vec<u32>)
        requires
            victim < old(self).resident@.len(),
        ensures
            old(self).swaps(victim, incoming, tokens@, *final(self)),
            old(self).wf() && incoming < old(self).shards@.len() && !indices(
                old(self).resident@,
            ).contains(incoming) && pool_ok(
                pool(old(self).resident@).update(victim as int, tokens@),
                old(self).seq_len as nat,
            ) ==> final(self).wf(),
    {
        let ghost p = pool(self.resident@);
        let ghost idx = indices(self.resident@);
        self.resident[victim] = (incoming, tokens);
        proof {
            assert(pool(self.resident@) =~= p.update(victim as int, tokens@));
            let now = indices(self.resident@);
            assert(now =~= idx.update(victim as int, incoming));
            if idx.no_duplicates() && !idx.contains(incoming) {
                assert forall|i: int, j: int| 0 <= i < now.len() && 0 <= j < now.len() && i
                    != j implies now[i] != now[j] by {
                    if i == victim {
                        assert(idx.contains(idx[j]));
                    } else if j == victim {
                        assert(idx.contains(idx[i]));
                    }
                }
            }
        }
    }
}

/// How many of `n` shards stay loaded.
pub open spec fn pool_size(n: nat) -> nat {
    if n < RESIDENT_SHARDS {
        n
    } else {
        RESIDENT_SHARDS as nat
    }
}

/// A list that holds every number below `n` is at least that long.
proof fn lemma_pigeonhole(idx: Seq<usize>, n: nat)
    requires
        forall|k: usize| k < n ==> idx.contains(k),
        n <= usize::MAX,
    ensures
        idx.len() >= n,
{
    let small = Set::new(|k: usize| k < n);
    lemma_below_len(n);
    assert(small.subset_of(idx.to_set()));
    idx.lemma_cardinality_of_set();
    vstd::seq_lib::seq_to_set_is_finite(idx);
    vstd::set_lib::lemma_len_subset(small, idx.to_set());
}

proof fn lemma_below_len(n: nat)
    requires
        n <= usize::MAX,
    ensures
        Set::new(|k: usize| k < n).finite(),
        Set::new(|k: usize| k < n).len() == n,
    decreases n,
{
    let s = Set::new(|k: usize| k < n);
    if n == 0 {
        assert(s =~= Set::<usize>::empty());
    } else {
        lemma_below_len((n - 1) as nat);
        let p = Set::new(|k: usize| k < n - 1);
        assert(s =~= p.insert((n - 1) as usize));
    }
}

// ---- laws ----

/// What a batch does to the dataset: it is counted, and the shard that is due to
/// come, if one is, takes its slot with what `contents` says it holds.
pub open spec fn serves(
    before: Dataset,
    swap: Option<(usize, usize)>,
    counted: Dataset,
    contents: Seq<Seq<u32>>,
    after: Dataset,
) -> bool {
    &&& before.counts(swap, counted)
    &&& match swap {
        None => after == counted,
        Some((victim, incoming)) => counted.swaps(
            victim,
            incoming,
            contents[incoming as int],
            after,
        ),
    }
}

/// A batch is counted once. When a rotation is due, the slot whose turn it is takes
/// a shard that was not in the pool, with what that shard holds, and the next slot's
/// turn comes; every other slot keeps its shard. When none is due, the pool stays as
/// it is. Either way the pool keeps its size and holds no shard twice. `contents` is
/// what the shards hold.
pub proof fn a_batch_rotates_one_slot_when_due(
    before: Dataset,
    swap: Option<(usize, usize)>,
    counted: Dataset,
    contents: Seq<Seq<u32>>,
    after: Dataset,
)
    requires
        before.resident@.len() > 0,
        indices(before.resident@).no_duplicates(),
        serves(before, swap, counted, contents, after),
    ensures
        after.shards == before.shards,
        after.total_tokens == before.total_tokens,
        after.seq_len == before.seq_len,
        after.batches_served == before.batches_served + 1,
        after.resident@.len() == before.resident@.len(),
        indices(after.resident@).no_duplicates(),
        !before.rotation_due() ==> after.resident == before.resident && after.next_victim
            == before.next_victim,
        before.rotation_due() ==> {
            let slot = before.next_victim as int % before.resident@.len() as int;
            let shard = after.resident@[slot].0;
            &&& after.next_victim == before.next_victim + 1
            &&& 0 <= slot < after.resident@.len()
            &&& shard < before.shards@.len()
            &&& !indices(before.resident@).contains(shard)
            &&& after.resident@[slot].1@ == contents[shard as int]
            &&& forall|k: int|
                0 <= k < after.resident@.len() && k != slot ==> (#[trigger] after.resident@[k]).0
                    == before.resident@[k].0 && after.resident@[k].1@ == before.resident@[k].1@
        },
{
    let old_idx = indices(before.resident@);
    let idx = indices(after.resident@);
    assert(old_idx.len() == before.resident@.len() && idx.len() == after.resident@.len());
    match swap {
        None => {},
        Some((victim, incoming)) => {
            let slot = victim as int;
            assert(idx == old_idx.update(slot, incoming));
            assert forall|k: int| 0 <= k < after.resident@.len() && k != slot implies (
            #[trigger] after.resident@[k]).0 == before.resident@[k].0 && after.resident@[k].1@
                == before.resident@[k].1@ by {
                assert(idx[k] == old_idx[k]);
                assert(pool(after.resident@)[k] == pool(before.resident@)[k]);
            }
            assert(idx[slot] == incoming);
            assert(pool(after.resident@)[slot] == contents[incoming as int]);
            assert forall|i: int, j: int| 0 <= i < idx.len() && 0 <= j < idx.len() && i
                != j implies idx[i] != idx[j] by {
                if i == slot {
                    assert(old_idx.contains(old_idx[j]));
                } else if j == slot {
                    assert(old_idx.contains(old_idx[i]));
                }
            }
        },
    }
}

/// One call of `maybe_rotate` or of `swap_in` leads from `a` to `b`.
pub open spec fn moves(a: Dataset, b: Dataset) -> bool {
    ||| exists|swap: Option<(usize, usize)>| #[trigger] a.counts(swap, b)
    ||| exists|victim: usize, incoming: usize, tokens: Seq<u32>| #[trigger]
        a.swaps(victim, incoming, tokens, b)
}

/// However many batches are served and shards rotated, the dataset reports the
/// tokens of all usable files that it was planned over, and keeps its shards.
pub proof fn token_count_never_changes(
    files: Seq<(Seq<char>, u64)>,
    plan: ShardPlan,
    seq_len: usize,
    loaded: Seq<Seq<u32>>,
    states: Seq<Dataset>,
    k: int,
)
    requires
        is_plan(files, seq_len as nat, plan),
        states.len() > 0,
        states[0].starts(plan, seq_len, loaded),
        forall|i: int| 0 < i < states.len() ==> moves(states[i - 1], #[trigger] states[i]),
        0 <= k < states.len(),
    ensures
        states[k].total_tokens == tokens_in(
            usable_files(files, seq_len as nat, files.len()),
            usable_files(files, seq_len as nat, files.len()).len(),
        ),
        states[k].shards == plan.shards,
        states[k].seq_len == seq_len,
    decreases k,
{
    if k > 0 {
        token_count_never_changes(files, plan, seq_len, loaded, states, k - 1);
        assert(moves(states[k - 1], states[k]));
    }
}

} // verus!
