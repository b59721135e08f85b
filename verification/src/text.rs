//! Comparing, writing and reading short strings.
use vstd::prelude::*;

verus! {

/// Whether the two strings hold the same characters.
pub fn same_text(a: &str, b: &str) -> (r: bool)
    ensures
        r == (a@ == b@),
{
    let x = String::from_str(a);
    let y = String::from_str(b);
    x == y
}

/// The character of a decimal digit.
pub open spec fn digit_char(d: nat) -> char {
    (48 + d) as char
}

/// A number in decimal, without leading zeros.
pub open spec fn decimal(n: nat) -> Seq<char>
    decreases n,
{
    if n < 10 {
        seq![digit_char(n)]
    } else {
        decimal(n / 10).push(digit_char(n % 10))
    }
}

fn write_digit(d: u64) -> (r: &'static str)
    requires
        d < 10,
    ensures
        r@ == seq![digit_char(d as nat)],
{
    proof {
        reveal_strlit("0");
        reveal_strlit("1");
        reveal_strlit("2");
        reveal_strlit("3");
        reveal_strlit("4");
        reveal_strlit("5");
        reveal_strlit("6");
        reveal_strlit("7");
        reveal_strlit("8");
        reveal_strlit("9");
    }
    let r = match d {
        0 => "0",
        1 => "1",
        2 => "2",
        3 => "3",
        4 => "4",
        5 => "5",
        6 => "6",
        7 => "7",
        8 => "8",
        _ => "9",
    };
    assert(r@ =~= seq![digit_char(d as nat)]);
    r
}

/// Writes a number in decimal.
pub fn write_decimal(n: u64) -> (r: String)
    ensures
        r@ == decimal(n as nat),
    decreases n,
{
    if n < 10 {
        String::from_str(write_digit(n))
    } else {
        let mut r = write_decimal(n / 10);
        let ghost before = r@;
        r.append(write_digit(n % 10));
        assert(r@ =~= before.push(digit_char((n % 10) as nat)));
        r
    }
}

/// A number in decimal, filled up with zeros on the left to `width` digits.
pub open spec fn padded(n: nat, width: nat) -> Seq<char> {
    let d = decimal(n);
    if d.len() < width {
        Seq::new((width - d.len()) as nat, |i: int| '0') + d
    } else {
        d
    }
}

/// Writes a number in decimal, filled up with zeros to `width` digits.
pub fn write_padded(n: u64, width: usize) -> (r: String)
    ensures
        r@ == padded(n as nat, width as nat),
{
    let text = write_decimal(n);
    let digits: usize = text.as_str().unicode_len();
    let mut r = String::new();
    proof {
        reveal_strlit("0");
    }
    let mut i: usize = digits;
    assert(r@ =~= Seq::new(0, |i: int| '0'));
    while i < width
        invariant
            digits <= i,
            i <= width || i == digits,
            r@ == Seq::new((i - digits) as nat, |i: int| '0'),
            "0"@ == seq!['0'],
        decreases width - i,
    {
        r.append("0");
        i = i + 1;
        assert(r@ =~= Seq::new((i - digits) as nat, |i: int| '0'));
    }
    r.append(text.as_str());
    assert(r@ =~= padded(n as nat, width as nat));
    r
}

/// A string's characters.
pub fn chars_of(s: &str) -> (r: Vec<char>)
    ensures
        r@ == s@,
{
    let n: usize = s.unicode_len();
    let mut r: Vec<char> = Vec::new();
    let mut i: usize = 0;
    while i < n
        invariant
            i <= n == s@.len(),
            r@ == s@.subrange(0, i as int),
        decreases n - i,
    {
        r.push(s.get_char(i));
        i = i + 1;
        assert(r@ =~= s@.subrange(0, i as int));
    }
    assert(s@.subrange(0, n as int) =~= s@);
    r
}

// ---- reading numbers ----

pub open spec fn is_digit(c: char) -> bool {
    48 <= c as u32 <= 57
}

pub open spec fn all_digits(s: Seq<char>) -> bool {
    forall|i: int| 0 <= i < s.len() ==> is_digit(#[trigger] s[i])
}

/// The number that a list of decimal digits stands for.
pub open spec fn digits_value(s: Seq<char>) -> nat
    decreases s.len(),
{
    if s.len() == 0 {
        0
    } else {
        (10 * digits_value(s.drop_last()) + (s.last() as u32 - 48)) as nat
    }
}

/// The digits of a number text: all of it behind an optional plus sign.
pub open spec fn number_digits(s: Seq<char>) -> Seq<char> {
    if s.len() > 0 && s[0] == '+' {
        s.subrange(1, s.len() as int)
    } else {
        s
    }
}

/// The number that `s` stands for: one or more digits, with an optional plus
/// sign before them, that do not exceed the largest `usize`.
pub open spec fn spec_parse_usize(s: Seq<char>) -> Option<usize> {
    let d = number_digits(s);
    if d.len() > 0 && all_digits(d) && digits_value(d) <= usize::MAX {
        Some(digits_value(d) as usize)
    } else {
        None
    }
}

proof fn lemma_digits_monotone(s: Seq<char>, n: int)
    requires
        0 <= n <= s.len(),
        all_digits(s),
    ensures
        digits_value(s.subrange(0, n)) <= digits_value(s),
    decreases s.len(),
{
    if n < s.len() {
        let p = s.drop_last();
        lemma_digits_monotone(p, n);
        assert(p.subrange(0, n) =~= s.subrange(0, n));
        assert(is_digit(s[s.len() - 1]));
    } else {
        assert(s.subrange(0, n) =~= s);
    }
}

/// Reads a number as `usize` reads it from a string.
pub fn parse_usize(s: &Vec<char>) -> (r: Option<usize>)
    ensures
        r == spec_parse_usize(s@),
{
    let from: usize = if s.len() > 0 && s[0] == '+' {
        1
    } else {
        0
    };
    let ghost d = number_digits(s@);
    assert(d =~= s@.subrange(from as int, s@.len() as int));
    if s.len() == from {
        return None;
    }
    let mut value: usize = 0;
    let mut i: usize = from;
    assert(d.subrange(0, 0) =~= Seq::<char>::empty());
    while i < s.len()
        invariant
            from <= i <= s@.len(),
            d == s@.subrange(from as int, s@.len() as int),
            d == number_digits(s@),
            d.len() > 0,
            all_digits(d.subrange(0, i - from)),
            value == digits_value(d.subrange(0, i - from)),
        decreases s@.len() - i,
    {
        let c: char = s[i];
        let ghost cur = d.subrange(0, i - from);
        let ghost next = d.subrange(0, i - from + 1);
        assert(next.drop_last() =~= cur);
        assert(next.last() == c);
        assert(d[i - from] == c);
        let code: u32 = c as u32;
        if code < 48 || code > 57 {
            assert(!is_digit(d[i - from]));
            return None;
        }
        let digit: usize = (code - 48) as usize;
        assert(all_digits(next)) by {
            assert forall|k: int| 0 <= k < next.len() implies is_digit(#[trigger] next[k]) by {
                if k < cur.len() {
                    assert(next[k] == cur[k]);
                }
            }
        }
        if value > (usize::MAX - digit) / 10 {
            proof {
                if all_digits(d) {
                    lemma_digits_monotone(d, i - from + 1);
                    assert(digits_value(next) == 10 * value + digit);
                    assert(10 * value + digit > usize::MAX);
                }
            }
            return None;
        }
        value = 10 * value + digit;
        i = i + 1;
    }
    assert(d.subrange(0, s@.len() - from) =~= d);
    Some(value)
}

/// A number that is written is read back.
pub proof fn decimal_round_trip(n: usize)
    ensures
        spec_parse_usize(decimal(n as nat)) == Some(n),
{
    lemma_decimal(n as nat);
    assert(is_digit(decimal(n as nat)[0]));
}

proof fn lemma_decimal(n: nat)
    ensures
        decimal(n).len() > 0,
        all_digits(decimal(n)),
        digits_value(decimal(n)) == n,
    decreases n,
{
    let d = decimal(n);
    if n < 10 {
        assert(d.drop_last() =~= Seq::<char>::empty());
        assert(digits_value(d.drop_last()) == 0);
    } else {
        lemma_decimal(n / 10);
        assert(d.drop_last() =~= decimal(n / 10));
        assert forall|k: int| 0 <= k < d.len() implies is_digit(#[trigger] d[k]) by {
            if k < d.len() - 1 {
                assert(d[k] == decimal(n / 10)[k]);
            }
        }
    }
}

// ---- trimming ----

/// The characters with Unicode's White_Space property.
pub open spec fn white_space(c: char) -> bool {
    let u = c as u32;
    ||| 0x09 <= u <= 0x0d
    ||| u == 0x20
    ||| u == 0x85
    ||| u == 0xa0
    ||| u == 0x1680
    ||| 0x2000 <= u <= 0x200a
    ||| u == 0x2028
    ||| u == 0x2029
    ||| u == 0x202f
    ||| u == 0x205f
    ||| u == 0x3000
}

fn is_white_space(c: char) -> (r: bool)
    ensures
        r == white_space(c),
{
    let u: u32 = c as u32;
    (0x09 <= u && u <= 0x0d) || u == 0x20 || u == 0x85 || u == 0xa0 || u == 0x1680 || (0x2000 <= u
        && u <= 0x200a) || u == 0x2028 || u == 0x2029 || u == 0x202f || u == 0x205f || u == 0x3000
}

/// `s` without the white space at its start.
pub open spec fn trim_start(s: Seq<char>) -> Seq<char>
    decreases s.len(),
{
    if s.len() > 0 && white_space(s[0]) {
        trim_start(s.subrange(1, s.len() as int))
    } else {
        s
    }
}

/// `s` without the white space at its end.
pub open spec fn trim_end(s: Seq<char>) -> Seq<char>
    decreases s.len(),
{
    if s.len() > 0 && white_space(s.last()) {
        trim_end(s.drop_last())
    } else {
        s
    }
}

/// `s` without the white space around it.
pub open spec fn spec_trim(s: Seq<char>) -> Seq<char> {
    trim_end(trim_start(s))
}

/// Removes the white space around a text.
pub fn trim(s: &str) -> (r: String)
    ensures
        r@ == spec_trim(s@),
{
    let chars = chars_of(s);
    let n: usize = chars.len();
    let mut from: usize = 0;
    assert(s@.subrange(0, n as int) =~= s@);
    while from < n && is_white_space(chars[from])
        invariant
            from <= n == s@.len(),
            chars@ == s@,
            trim_start(s@.subrange(from as int, n as int)) == trim_start(s@),
        decreases n - from,
    {
        let ghost cur = s@.subrange(from as int, n as int);
        assert(cur.subrange(1, cur.len() as int) =~= s@.subrange(from + 1, n as int));
        from = from + 1;
    }
    let ghost start = s@.subrange(from as int, n as int);
    assert(trim_start(s@) == start);
    let mut to: usize = n;
    while to > from && is_white_space(chars[to - 1])
        invariant
            from <= to <= n == s@.len(),
            chars@ == s@,
            trim_end(s@.subrange(from as int, to as int)) == trim_end(start),
        decreases to - from,
    {
        let ghost cur = s@.subrange(from as int, to as int);
        assert(cur.drop_last() =~= s@.subrange(from as int, to - 1));
        to = to - 1;
    }
    String::from_str(s.substring_char(from, to))
}


// ---- words ----

/// The first word of `s`: everything up to the first white space.
pub open spec fn leading_word(s: Seq<char>) -> Seq<char>
    decreases s.len(),
{
    if s.len() == 0 || white_space(s[0]) {
        Seq::empty()
    } else {
        seq![s[0]] + leading_word(s.subrange(1, s.len() as int))
    }
}

/// What stands behind that word.
pub open spec fn behind_word(s: Seq<char>) -> Seq<char> {
    s.subrange(leading_word(s).len() as int, s.len() as int)
}

proof fn lemma_leading_word(s: Seq<char>)
    ensures
        leading_word(s).len() <= s.len(),
        s.len() > 0 && !white_space(s[0]) ==> leading_word(s).len() > 0,
    decreases s.len(),
{
    if s.len() > 0 && !white_space(s[0]) {
        lemma_leading_word(s.subrange(1, s.len() as int));
    }
}

proof fn lemma_trim_start(s: Seq<char>)
    ensures
        trim_start(s).len() <= s.len(),
        trim_start(s).len() > 0 ==> !white_space(trim_start(s)[0]),
    decreases s.len(),
{
    if s.len() > 0 && white_space(s[0]) {
        lemma_trim_start(s.subrange(1, s.len() as int));
    }
}

/// The words of `s`: the longest pieces without white space.
pub open spec fn spec_words(s: Seq<char>) -> Seq<Seq<char>>
    decreases s.len(),
    via words_decrease
{
    let t = trim_start(s);
    if t.len() == 0 {
        Seq::empty()
    } else {
        seq![leading_word(t)] + spec_words(behind_word(t))
    }
}

#[via_fn]
proof fn words_decrease(s: Seq<char>) {
    lemma_trim_start(s);
    lemma_leading_word(trim_start(s));
}

/// The characters of a list of strings.
pub open spec fn texts(v: Seq<String>) -> Seq<Seq<char>> {
    Seq::new(v.len(), |i: int| v[i]@)
}

proof fn lemma_word_at(s: Seq<char>, n: int)
    requires
        0 <= n <= s.len(),
        forall|k: int| 0 <= k < n ==> !white_space(#[trigger] s[k]),
        n == s.len() || white_space(s[n]),
    ensures
        leading_word(s) == s.subrange(0, n),
    decreases s.len(),
{
    if n == 0 {
        assert(s.subrange(0, 0) =~= Seq::<char>::empty());
    } else {
        let rest = s.subrange(1, s.len() as int);
        assert forall|k: int| 0 <= k < n - 1 implies !white_space(#[trigger] rest[k]) by {
            assert(rest[k] == s[k + 1]);
        }
        lemma_word_at(rest, n - 1);
        assert(!white_space(s[0]));
        assert(s.subrange(0, n) =~= seq![s[0]] + rest.subrange(0, n - 1));
    }
}

proof fn lemma_space_at(s: Seq<char>, n: int)
    requires
        0 <= n <= s.len(),
        forall|k: int| 0 <= k < n ==> white_space(#[trigger] s[k]),
        n == s.len() || !white_space(s[n]),
    ensures
        trim_start(s) == s.subrange(n, s.len() as int),
    decreases s.len(),
{
    if n == 0 {
        assert(s.subrange(0, s.len() as int) =~= s);
    } else {
        let rest = s.subrange(1, s.len() as int);
        assert forall|k: int| 0 <= k < n - 1 implies white_space(#[trigger] rest[k]) by {
            assert(rest[k] == s[k + 1]);
        }
        lemma_space_at(rest, n - 1);
        assert(white_space(s[0]));
        assert(rest.subrange(n - 1, rest.len() as int) =~= s.subrange(n, s.len() as int));
    }
}

/// Splits a text into its words.
pub fn words(s: &str) -> (r: Vec<String>)
    ensures
        texts(r@) == spec_words(s@),
{
    let chars = chars_of(s);
    let n: usize = chars.len();
    let mut r: Vec<String> = Vec::new();
    let mut at: usize = 0;
    assert(s@.subrange(0, n as int) =~= s@);
    assert(texts(r@) + spec_words(s@.subrange(0, n as int)) =~= spec_words(s@));
    while at < n
        invariant
            at <= n == s@.len(),
            chars@ == s@,
            texts(r@) + spec_words(s@.subrange(at as int, n as int)) == spec_words(s@),
        decreases n - at,
    {
        let ghost cur = s@.subrange(at as int, n as int);
        let mut from: usize = at;
        while from < n && is_white_space(chars[from])
            invariant
                at <= from <= n == s@.len(),
                chars@ == s@,
                cur == s@.subrange(at as int, n as int),
                forall|k: int| 0 <= k < from - at ==> white_space(#[trigger] cur[k]),
            decreases n - from,
        {
            assert(cur[from - at] == s@[from as int]);
            from = from + 1;
        }
        proof {
            if from < n {
                assert(cur[from - at] == s@[from as int]);
            }
            lemma_space_at(cur, from - at);
            assert(cur.subrange(from - at, cur.len() as int) =~= s@.subrange(
                from as int,
                n as int,
            ));
        }
        let ghost t = s@.subrange(from as int, n as int);
        let mut to: usize = from;
        while to < n && !is_white_space(chars[to])
            invariant
                from <= to <= n == s@.len(),
                chars@ == s@,
                t == s@.subrange(from as int, n as int),
                forall|k: int| 0 <= k < to - from ==> !white_space(#[trigger] t[k]),
            decreases n - to,
        {
            assert(t[to - from] == s@[to as int]);
            to = to + 1;
        }
        proof {
            if to < n {
                assert(t[to - from] == s@[to as int]);
            }
            lemma_word_at(t, to - from);
        }
        if from < n {
            let ghost before = texts(r@);
            let word = String::from_str(s.substring_char(from, to));
            r.push(word);
            proof {
                assert(to > from) by {
                    if to == from {
                        assert(t[0] == s@[from as int]);
                    }
                }
                assert(t.subrange(0, to - from) =~= s@.subrange(from as int, to as int));
                assert(behind_word(t) =~= s@.subrange(to as int, n as int));
                assert(texts(r@) =~= before.push(word@));
                assert(before + (seq![word@] + spec_words(behind_word(t))) =~= before.push(word@)
                    + spec_words(behind_word(t)));
            }
            at = to;
        } else {
            proof {
                assert(t.len() == 0);
                assert(s@.subrange(n as int, n as int) =~= t);
                assert(trim_start(t) == t);
            }
            at = n;
        }
    }
    proof {
        let e = s@.subrange(n as int, n as int);
        assert(e.len() == 0);
        assert(trim_start(e) == e);
        assert(spec_words(e) =~= Seq::<Seq<char>>::empty());
        assert(texts(r@) + spec_words(e) =~= texts(r@));
    }
    r
}


// ---- names ----

/// The code of `c`, in lower case if it is an ASCII letter.
pub open spec fn ascii_lower(c: char) -> int {
    if 65 <= c as u32 <= 90 {
        c as u32 + 32
    } else {
        c as u32 as int
    }
}

/// `word` is the lower-case `name`, whatever the case of its own ASCII letters.
pub open spec fn names(word: Seq<char>, name: Seq<char>) -> bool {
    word.len() == name.len() && forall|i: int|
        0 <= i < word.len() ==> ascii_lower(#[trigger] word[i]) == name[i] as u32
}

/// Compares a word with a lower-case name, ignoring the case of ASCII letters.
pub fn is_named(word: &Vec<char>, name: &str) -> (r: bool)
    ensures
        r == names(word@, name@),
{
    let name_chars = chars_of(name);
    if word.len() != name_chars.len() {
        return false;
    }
    let mut i: usize = 0;
    while i < word.len()
        invariant
            i <= word@.len() == name_chars@.len(),
            name_chars@ == name@,
            forall|k: int| 0 <= k < i ==> ascii_lower(#[trigger] word@[k]) == name@[k] as u32,
        decreases word@.len() - i,
    {
        let c: char = word[i];
        let d: char = name_chars[i];
        let code: u32 = c as u32;
        let low: u32 = if 65 <= code && code <= 90 {
            code + 32
        } else {
            code
        };
        assert(low == ascii_lower(word@[i as int]));
        if low != d as u32 {
            assert(ascii_lower(word@[i as int]) != name@[i as int] as u32);
            return false;
        }
        i = i + 1;
    }
    true
}

// ---- lower case ----

/// All characters are ASCII.
pub open spec fn is_ascii(s: Seq<char>) -> bool {
    forall|i: int| 0 <= i < s.len() ==> (#[trigger] s[i]) as u32 <= 127
}

/// `s` with its ASCII capitals made small.
pub open spec fn ascii_lowercase(s: Seq<char>) -> Seq<char> {
    Seq::new(s.len(), |i: int| ascii_lower(s[i]) as char)
}

/// The lower-case form of a text, by Unicode's mappings.
pub uninterp spec fn lowercase(s: Seq<char>) -> Seq<char>;

/// `str::to_lowercase`: the lower-case form of `s`. Of a text in ASCII, its capital
/// letters are made small and nothing else changes; how other scripts are mapped is
/// left to the name.
#[verifier::external_body]
pub(crate) fn to_lowercase(s: &str) -> (r: String)
    ensures
        r@ == lowercase(s@),
        is_ascii(s@) ==> r@ == ascii_lowercase(s@),
{
    s.to_lowercase()
}

} // verus!
