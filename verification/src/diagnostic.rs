//! Named checks, and the report on a list of them.
use crate::text;
use crate::text::{chars_of, parse_usize, write_decimal};
use vstd::prelude::*;

verus! {

/// A check that a user of the library supplies. What it measures is its own
/// affair: it may say which names it goes by and which results it may come to. One
/// that says nothing may have any name and come to any result.
pub trait DiagnosticCheck {
    /// The check goes by this name.
    open spec fn is_called(&self, name: Seq<char>) -> bool {
        true
    }

    /// A run of the check may come to this result.
    open spec fn may_give(&self, pass: bool) -> bool {
        true
    }

    fn name(&self) -> (r: &'static str)
        ensures
            self.is_called(r@),
    ;

    fn run(&self) -> (r: bool)
        ensures
            self.may_give(r),
    ;
}

/// A check's name, and whether it passed.
pub struct Outcome {
    pub name: &'static str,
    pub pass: bool,
}

/// `s`, filled up with blanks on the right to `width` characters.
pub open spec fn filled(s: Seq<char>, width: nat) -> Seq<char> {
    if s.len() < width {
        s + Seq::new((width - s.len()) as nat, |i: int| ' ')
    } else {
        s
    }
}

/// The word for a result.
pub open spec fn verdict(pass: bool) -> Seq<char> {
    if pass {
        "PASS"@
    } else {
        "FAIL"@
    }
}

pub fn write_verdict(pass: bool) -> (r: &'static str)
    ensures
        r@ == verdict(pass),
{
    if pass {
        "PASS"
    } else {
        "FAIL"
    }
}

/// Width of the names in a report.
pub const NAME_WIDTH: usize = 32;

/// One line of the report.
pub open spec fn spec_line(o: Outcome) -> Seq<char> {
    filled(o.name@, NAME_WIDTH as nat) + " "@ + verdict(o.pass)
}

impl Outcome {
    /// This check's line in the report.
    pub fn line(&self) -> (r: String)
        ensures
            r@ == spec_line(*self),
    {
        let mut r = String::from_str(self.name);
        let n: usize = self.name.unicode_len();
        let mut i: usize = n;
        proof {
            reveal_strlit(" ");
        }
        assert(r@ =~= self.name@ + Seq::new(0, |i: int| ' '));
        while i < NAME_WIDTH
            invariant
                n == self.name@.len(),
                n <= i,
                i <= NAME_WIDTH || i == n,
                " "@ == seq![' '],
                r@ == self.name@ + Seq::new((i - n) as nat, |i: int| ' '),
            decreases NAME_WIDTH - i,
        {
            r.append(" ");
            i = i + 1;
            assert(r@ =~= self.name@ + Seq::new((i - n) as nat, |i: int| ' '));
        }
        assert(r@ =~= filled(self.name@, NAME_WIDTH as nat));
        r.append(" ");
        r.append(write_verdict(self.pass));
        r
    }
}

/// Every check passed.
pub open spec fn all_pass(outcomes: Seq<Outcome>) -> bool {
    forall|i: int| 0 <= i < outcomes.len() ==> (#[trigger] outcomes[i]).pass
}

/// The report on a list of checks: one line for each, and whether all passed.
pub struct Report {
    pub lines: Vec<String>,
    pub pass: bool,
}

/// `r` is the report on `outcomes`.
pub open spec fn reports(r: Report, outcomes: Seq<Outcome>) -> bool {
    &&& r.lines@.len() == outcomes.len()
    &&& forall|i: int| 0 <= i < outcomes.len() ==> (#[trigger] r.lines@[i])@ == spec_line(outcomes[i])
    &&& r.pass == all_pass(outcomes)
}

/// Reports on a list of outcomes.
pub fn report(outcomes: &Vec<Outcome>) -> (r: Report)
    ensures
        reports(r, outcomes@),
{
    let mut lines: Vec<String> = Vec::new();
    let mut pass = true;
    let mut i: usize = 0;
    while i < outcomes.len()
        invariant
            i <= outcomes@.len(),
            lines@.len() == i,
            forall|k: int| 0 <= k < i ==> (#[trigger] lines@[k])@ == spec_line(outcomes@[k]),
            pass == (forall|k: int| 0 <= k < i ==> (#[trigger] outcomes@[k]).pass),
        decreases outcomes@.len() - i,
    {
        lines.push(outcomes[i].line());
        pass = pass && outcomes[i].pass;
        i = i + 1;
    }
    Report { lines, pass }
}

/// Runs every check, in order, and reports on what came out: each outcome is that
/// of the check at its place, and the report on them is exact.
pub fn run_all(checks: &Vec<Box<dyn DiagnosticCheck>>) -> (r: (Vec<Outcome>, Report))
    ensures
        r.0@.len() == checks@.len(),
        forall|i: int|
            0 <= i < checks@.len() ==> checks@[i].is_called((#[trigger] r.0@[i]).name@)
                && checks@[i].may_give(r.0@[i].pass),
        reports(r.1, r.0@),
{
    let mut outcomes: Vec<Outcome> = Vec::new();
    let mut i: usize = 0;
    while i < checks.len()
        invariant
            i <= checks@.len(),
            outcomes@.len() == i,
            forall|k: int|
                0 <= k < i ==> checks@[k].is_called((#[trigger] outcomes@[k]).name@)
                    && checks@[k].may_give(outcomes@[k].pass),
        decreases checks@.len() - i,
    {
        let pass = checks[i].run();
        outcomes.push(Outcome { name: checks[i].name(), pass });
        i = i + 1;
    }
    let r = report(&outcomes);
    (outcomes, r)
}


// ---- the full set of checks ----

/// Which checks run.
#[derive(Clone, Copy, Debug, PartialEq, Eq, Structural)]
pub enum Selection {
    All,
    OnlyMemorization,
    OnlyCache,
}

/// Whether only one check was asked for; memorization goes first.
pub fn select(only_memorization: bool, only_cache: bool) -> (r: Selection)
    ensures
        r == (if only_memorization {
            Selection::OnlyMemorization
        } else if only_cache {
            Selection::OnlyCache
        } else {
            Selection::All
        }),
{
    if only_memorization {
        Selection::OnlyMemorization
    } else if only_cache {
        Selection::OnlyCache
    } else {
        Selection::All
    }
}

/// The vocabulary size in `given`, if it is a number of 32 bits, and `default`
/// otherwise.
pub open spec fn spec_vocab_size(given: Option<Seq<char>>, default: u32) -> u32 {
    match given {
        Some(s) => match text::spec_parse_usize(s) {
            Some(n) => if n <= u32::MAX {
                n as u32
            } else {
                default
            },
            None => default,
        },
        None => default,
    }
}

pub fn vocab_size(given: Option<&str>, default: u32) -> (r: u32)
    ensures
        r == spec_vocab_size(
            match given {
                Some(s) => Some(s@),
                None => None,
            },
            default,
        ),
{
    match given {
        Some(s) => match parse_usize(&chars_of(s)) {
            Some(n) => if n <= u32::MAX as usize {
                n as u32
            } else {
                default
            },
            None => default,
        },
        None => default,
    }
}

/// Checks with a result.
pub const NUM_CHECKS: usize = 9;

/// What stands before the result of check `i`.
pub open spec fn spec_label(i: int) -> Seq<char> {
    if i == 0 {
        "CHECK 1 (param count):          "@
    } else if i == 1 {
        "CHECK 2 (gradient flow):        "@
    } else if i == 2 {
        "CHECK 3 (HeadGather/Scatter):   "@
    } else if i == 3 {
        "CHECK 4 (RMSNorm backward):     "@
    } else if i == 4 {
        "CHECK 5 (grad accumulation):    "@
    } else if i == 5 {
        "CHECK 6 (weight decay groups):  "@
    } else if i == 6 {
        "CHECK 7 (loss function):        "@
    } else if i == 7 {
        "CHECK 8 (memorization):          "@
    } else {
        "CHECK 9 (KV-cache equivalence):  "@
    }
}

fn label(i: usize) -> (r: &'static str)
    ensures
        r@ == spec_label(i as int),
{
    match i {
        0 => "CHECK 1 (param count):          ",
        1 => "CHECK 2 (gradient flow):        ",
        2 => "CHECK 3 (HeadGather/Scatter):   ",
        3 => "CHECK 4 (RMSNorm backward):     ",
        4 => "CHECK 5 (grad accumulation):    ",
        5 => "CHECK 6 (weight decay groups):  ",
        6 => "CHECK 7 (loss function):        ",
        7 => "CHECK 8 (memorization):          ",
        _ => "CHECK 9 (KV-cache equivalence):  ",
    }
}

/// The line of check `i`: the first also gives the number of parameters, the sixth
/// is an advice only.
pub open spec fn summary_line(i: int, pass: bool, params: nat) -> Seq<char> {
    let head = spec_label(i) + verdict(pass);
    if i == 0 {
        head + " -- "@ + text::decimal(params) + " parameters"@
    } else if i == 5 {
        head + " (advisory)"@
    } else {
        head
    }
}

/// The lines on all checks.
pub fn summary(passes: &Vec<bool>, params: u64) -> (r: Vec<String>)
    requires
        passes@.len() == NUM_CHECKS,
    ensures
        r@.len() == NUM_CHECKS + 1,
        forall|i: int|
            0 <= i < NUM_CHECKS ==> (#[trigger] r@[i])@ == summary_line(
                i,
                passes@[i],
                params as nat,
            ),
        r@[NUM_CHECKS as int]@ == "CHECK 10 (KV-cache speed):       informational, see above"@,
{
    let mut r: Vec<String> = Vec::new();
    let mut i: usize = 0;
    while i < NUM_CHECKS
        invariant
            i <= NUM_CHECKS == passes@.len(),
            r@.len() == i,
            forall|k: int|
                0 <= k < i ==> (#[trigger] r@[k])@ == summary_line(k, passes@[k], params as nat),
        decreases NUM_CHECKS - i,
    {
        let mut line = String::from_str(label(i));
        line.append(write_verdict(passes[i]));
        if i == 0 {
            line.append(" -- ");
            line.append(write_decimal(params).as_str());
            line.append(" parameters");
        } else if i == 5 {
            line.append(" (advisory)");
        }
        r.push(line);
        i = i + 1;
    }
    r.push(String::from_str("CHECK 10 (KV-cache speed):       informational, see above"));
    r
}

} // verus!
