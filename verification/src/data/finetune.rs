//! Instruction data: rows of a question, an optional context and an answer as
//! dialogue blocks, and their split into training and evaluation.
use crate::random;
use crate::random::shuffle_seeded;
use crate::text;
use crate::text::trim;
use vstd::prelude::*;

verus! {

/// Rows that go to evaluation unless the caller says otherwise.
pub const DEFAULT_EVAL_DOCS: usize = 500;

/// Fixed, so that the split is the same in every run.
pub const SPLIT_SEED: u64 = 1337;

/// The block of a row; a context of white space alone counts as none.
pub open spec fn spec_block(instruction: Seq<char>, context: Seq<char>, response: Seq<char>) -> Seq<
    char,
> {
    let i = text::spec_trim(instruction);
    let c = text::spec_trim(context);
    let r = text::spec_trim(response);
    if c.len() == 0 {
        "User: "@ + i + "\nAssistant: "@ + r + "\n\n"@
    } else {
        "User: "@ + i + "\n\n"@ + c + "\nAssistant: "@ + r + "\n\n"@
    }
}

/// Writes a row as a dialogue block.
pub fn dialogue_block(instruction: &str, context: &str, response: &str) -> (r: String)
    ensures
        r@ == spec_block(instruction@, context@, response@),
{
    let i = trim(instruction);
    let c = trim(context);
    let a = trim(response);
    let mut r = String::from_str("User: ");
    r.append(i.as_str());
    if c.as_str().unicode_len() != 0 {
        r.append("\n\n");
        r.append(c.as_str());
    }
    r.append("\nAssistant: ");
    r.append(a.as_str());
    r.append("\n\n");
    assert(r@ =~= spec_block(instruction@, context@, response@));
    r
}

/// The position of a named column: the first that has the name.
pub fn col_index(columns: &Vec<String>, name: &str) -> (r: Option<usize>)
    ensures
        match r {
            Some(i) => i < columns@.len() && columns@[i as int]@ == name@ && forall|k: int|
                0 <= k < i ==> (#[trigger] columns@[k])@ != name@,
            None => forall|k: int| 0 <= k < columns@.len() ==> (#[trigger] columns@[k])@ != name@,
        },
{
    let mut i: usize = 0;
    while i < columns.len()
        invariant
            i <= columns@.len(),
            forall|k: int| 0 <= k < i ==> (#[trigger] columns@[k])@ != name@,
        decreases columns@.len() - i,
    {
        if text::same_text(columns[i].as_str(), name) {
            return Some(i);
        }
        i = i + 1;
    }
    None
}

/// How many of `n` rows go to evaluation.
pub open spec fn eval_count(eval_docs: nat, n: nat) -> nat {
    if eval_docs < n {
        eval_docs
    } else {
        n
    }
}

/// The first `n` positions.
pub open spec fn positions(n: nat) -> Seq<usize> {
    Seq::new(n, |i: int| i as usize)
}

/// The rows in the given order, cut behind the first `eval_docs`: the positions
/// of the evaluation rows and those of the training rows.
pub fn split_order(order: &Vec<usize>, eval_docs: usize) -> (r: (Vec<usize>, Vec<usize>))
    ensures
        r.0@ == order@.subrange(0, eval_count(eval_docs as nat, order@.len()) as int),
        r.1@ == order@.subrange(
            eval_count(eval_docs as nat, order@.len()) as int,
            order@.len() as int,
        ),
{
    let cut: usize = if eval_docs < order.len() {
        eval_docs
    } else {
        order.len()
    };
    let mut eval: Vec<usize> = Vec::new();
    let mut i: usize = 0;
    while i < cut
        invariant
            i <= cut <= order@.len(),
            eval@ == order@.subrange(0, i as int),
        decreases cut - i,
    {
        eval.push(order[i]);
        i = i + 1;
        assert(eval@ =~= order@.subrange(0, i as int));
    }
    let mut train: Vec<usize> = Vec::new();
    let mut i: usize = cut;
    assert(train@ =~= order@.subrange(cut as int, i as int));
    while i < order.len()
        invariant
            cut <= i <= order@.len(),
            train@ == order@.subrange(cut as int, i as int),
        decreases order@.len() - i,
    {
        train.push(order[i]);
        i = i + 1;
        assert(train@ =~= order@.subrange(cut as int, i as int));
    }
    (eval, train)
}

/// Shuffles `n` rows under the fixed seed and splits them: the positions of the
/// evaluation rows and those of the training rows, in file order.
pub fn split_rows(n: usize, eval_docs: usize) -> (r: (Vec<usize>, Vec<usize>))
    requires
        n <= u32::MAX,
    ensures
        ({
            let order = random::shuffled(positions(n as nat), SPLIT_SEED);
            let cut = eval_count(eval_docs as nat, n as nat) as int;
            &&& order.len() == n
            &&& r.0@ == order.subrange(0, cut)
            &&& r.1@ == order.subrange(cut, n as int)
        }),
        (r.0@ + r.1@).to_multiset() == positions(n as nat).to_multiset(),
{
    let mut order: Vec<usize> = Vec::new();
    let mut i: usize = 0;
    while i < n
        invariant
            i <= n,
            order@ == positions(i as nat),
        decreases n - i,
    {
        order.push(i);
        i = i + 1;
        assert(order@ =~= positions(i as nat));
    }
    shuffle_seeded(&mut order, SPLIT_SEED);
    proof {
        broadcast use vstd::seq_lib::group_to_multiset_ensures;

        assert(order@.len() == order@.to_multiset().len());
        assert(positions(n as nat).len() == positions(n as nat).to_multiset().len());
        let cut = eval_count(eval_docs as nat, n as nat) as int;
        assert(order@.subrange(0, cut) + order@.subrange(cut, n as int) =~= order@);
    }
    split_order(&order, eval_docs)
}

/// Whatever the order of the shuffle, a split puts every row into exactly one of
/// its two parts, and there exactly once.
pub proof fn split_covers_every_row(n: nat, eval: Seq<usize>, train: Seq<usize>, row: usize)
    requires
        n <= usize::MAX,
        (eval + train).to_multiset() == positions(n).to_multiset(),
    ensures
        row < n <==> (eval.contains(row) || train.contains(row)),
        !(eval.contains(row) && train.contains(row)),
        eval.no_duplicates(),
        train.no_duplicates(),
{
    broadcast use vstd::seq_lib::group_to_multiset_ensures;

    let all = eval + train;
    let p = positions(n);
    assert(p.no_duplicates());
    p.lemma_multiset_has_no_duplicates();
    all.lemma_multiset_has_no_duplicates_conv();
    assert(p.contains(row) <==> row < n) by {
        if row < n {
            assert(p[row as int] == row);
        }
    }
    assert(all.contains(row) <==> all.to_multiset().count(row) > 0);
    assert(p.contains(row) <==> p.to_multiset().count(row) > 0);
    assert(all.contains(row) <==> eval.contains(row) || train.contains(row)) by {
        if eval.contains(row) {
            let k = choose|k: int| 0 <= k < eval.len() && eval[k] == row;
            assert(all[k] == row);
        }
        if train.contains(row) {
            let k = choose|k: int| 0 <= k < train.len() && train[k] == row;
            assert(all[eval.len() + k] == row);
        }
    }
    if eval.contains(row) && train.contains(row) {
        let a = choose|k: int| 0 <= k < eval.len() && eval[k] == row;
        let b = choose|k: int| 0 <= k < train.len() && train[k] == row;
        assert(all[a] == all[eval.len() + b]);
    }
    assert forall|i: int, j: int| 0 <= i < eval.len() && 0 <= j < eval.len() && i
        != j implies eval[i] != eval[j] by {
        assert(all[i] == eval[i] && all[j] == eval[j]);
    }
    assert forall|i: int, j: int| 0 <= i < train.len() && 0 <= j < train.len() && i
        != j implies train[i] != train[j] by {
        assert(all[eval.len() + i] == train[i] && all[eval.len() + j] == train[j]);
    }
}

/// The named rows, in the named order.
pub fn pick_rows(rows: &Vec<String>, at: &Vec<usize>) -> (r: Vec<String>)
    requires
        forall|i: int| 0 <= i < at@.len() ==> (#[trigger] at@[i]) < rows@.len(),
    ensures
        r@.len() == at@.len(),
        forall|i: int| 0 <= i < at@.len() ==> (#[trigger] r@[i])@ == rows@[at@[i] as int]@,
{
    let mut r: Vec<String> = Vec::new();
    let mut i: usize = 0;
    while i < at.len()
        invariant
            i <= at@.len(),
            forall|i: int| 0 <= i < at@.len() ==> (#[trigger] at@[i]) < rows@.len(),
            r@.len() == i,
            forall|k: int| 0 <= k < i ==> (#[trigger] r@[k])@ == rows@[at@[k] as int]@,
        decreases at@.len() - i,
    {
        let row: usize = at[i];
        r.push(rows[row].clone());
        i = i + 1;
    }
    r
}

} // verus!
