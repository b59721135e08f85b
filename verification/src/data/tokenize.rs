//! Tokenizing a text file into shards with a bounded working set: raw bytes come
//! in chunks, whole lines go out to the tokenizer, full shards to the disk.
use vstd::prelude::*;
use vstd::utf8;

verus! {

pub const NEWLINE: u8 = 10;

pub const SPACE: u8 = 32;

// ---- text ----

/// Length of the longest prefix that is valid UTF-8.
pub open spec fn valid_len(s: Seq<u8>) -> int
    decreases s.len(),
{
    if s.len() == 0 || utf8::valid_utf8(s) {
        s.len() as int
    } else {
        valid_len(s.drop_last())
    }
}

/// The length of the longest prefix that is valid UTF-8, as found by
/// `std::str::from_utf8`: the whole length where it accepts the bytes, else what
/// its error gives as `valid_up_to`, the largest index up to which it would
/// accept them.
#[verifier::external_body]
fn utf8_valid_len(bytes: &Vec<u8>) -> (r: usize)
    ensures
        r == valid_len(bytes@),
{
    match std::str::from_utf8(bytes) {
        Ok(text) => text.len(),
        Err(e) => e.valid_up_to(),
    }
}

/// The longest valid prefix is one, and is no longer than the whole.
pub proof fn lemma_valid_len(s: Seq<u8>)
    ensures
        0 <= valid_len(s) <= s.len(),
        utf8::valid_utf8(s.subrange(0, valid_len(s))),
        valid_len(s) == s.len() <==> utf8::valid_utf8(s),
    decreases s.len(),
{
    if s.len() == 0 || utf8::valid_utf8(s) {
        assert(s.subrange(0, s.len() as int) =~= s);
    } else {
        let p = s.drop_last();
        lemma_valid_len(p);
        assert(p.subrange(0, valid_len(p)) =~= s.subrange(0, valid_len(p)));
    }
}

/// Index of the last `b` in `s`, or -1.
pub open spec fn last_of(s: Seq<u8>, b: u8) -> int
    decreases s.len(),
{
    if s.len() == 0 {
        -1
    } else if s.last() == b {
        s.len() - 1
    } else {
        last_of(s.drop_last(), b)
    }
}

/// Where a text is cut: before its last newline, or else before its last space,
/// or else at its end. A tokenizer attaches whitespace to the word behind it, so
/// the cut must not part the two. At the end of the file nothing is held back.
pub open spec fn spec_cut(text: Seq<u8>, eof: bool) -> int {
    if eof {
        text.len() as int
    } else if last_of(text, NEWLINE) >= 0 {
        last_of(text, NEWLINE)
    } else if last_of(text, SPACE) >= 0 {
        last_of(text, SPACE)
    } else {
        text.len() as int
    }
}

/// The text split behind every newline; the newline stays with its line.
pub open spec fn lines(s: Seq<u8>) -> Seq<Seq<u8>>
    decreases s.len(),
{
    if s.len() == 0 {
        Seq::empty()
    } else {
        let p = lines(s.drop_last());
        if p.len() > 0 && p.last().last() != NEWLINE {
            p.drop_last().push(p.last().push(s.last()))
        } else {
            p.push(seq![s.last()])
        }
    }
}

/// The pieces one after the other.
pub open spec fn joined<T>(pieces: Seq<Seq<T>>) -> Seq<T>
    decreases pieces.len(),
{
    if pieces.len() == 0 {
        Seq::empty()
    } else {
        joined(pieces.drop_last()) + pieces.last()
    }
}

/// The values of a list of vectors.
pub open spec fn views<T>(v: Seq<Vec<T>>) -> Seq<Seq<T>> {
    Seq::new(v.len(), |i: int| v[i]@)
}

/// The lines of a text, one after the other, are the text; none is empty, and
/// every line but the last ends in the only newline it has.
pub proof fn lines_are_the_text(s: Seq<u8>)
    ensures
        joined(lines(s)) == s,
        s.len() > 0 ==> lines(s).len() > 0,
        forall|i: int| 0 <= i < lines(s).len() ==> (#[trigger] lines(s)[i]).len() > 0,
        forall|i: int|
            0 <= i < lines(s).len() - 1 ==> (#[trigger] lines(s)[i]).last() == NEWLINE,
        forall|i: int, k: int|
            0 <= i < lines(s).len() && 0 <= k < lines(s)[i].len() - 1 ==> (
            #[trigger] lines(s)[i][k]) != NEWLINE,
    decreases s.len(),
{
    if s.len() > 0 {
        let q = s.drop_last();
        lines_are_the_text(q);
        let p = lines(q);
        let l = lines(s);
        if p.len() > 0 && p.last().last() != NEWLINE {
            let grown = p.last().push(s.last());
            assert(l == p.drop_last().push(grown));
            assert(l.drop_last() =~= p.drop_last());
            assert(q == joined(p.drop_last()) + p.last());
            assert(joined(l) == joined(p.drop_last()) + grown);
            assert(joined(l) =~= q.push(s.last()));
            assert(joined(l) =~= s);
            assert forall|i: int, k: int|
                0 <= i < l.len() && 0 <= k < l[i].len() - 1 implies (#[trigger] l[i][k])
                != NEWLINE by {
                if i < l.len() - 1 {
                    assert(l[i] == p[i]);
                    assert(p[i][k] != NEWLINE);
                } else if k < p.last().len() - 1 {
                    assert(p[p.len() - 1][k] != NEWLINE);
                }
            }
            assert forall|i: int| 0 <= i < l.len() - 1 implies (#[trigger] l[i]).last() == NEWLINE by {
                assert(l[i] == p[i]);
            }
        } else {
            assert(l.drop_last() =~= p);
            assert(joined(l) =~= q.push(s.last()));
            assert(joined(l) =~= s);
            assert forall|i: int, k: int|
                0 <= i < l.len() && 0 <= k < l[i].len() - 1 implies (#[trigger] l[i][k])
                != NEWLINE by {
                if i < l.len() - 1 {
                    assert(l[i] == p[i]);
                    assert(p[i][k] != NEWLINE);
                }
            }
            assert forall|i: int| 0 <= i < l.len() - 1 implies (#[trigger] l[i]).last() == NEWLINE by {
                assert(l[i] == p[i]);
                if i == p.len() - 1 {
                    assert(p.last().last() == NEWLINE);
                }
            }
        }
    } else {
        assert(joined(lines(s)) =~= s);
    }
}

proof fn lemma_last_of(s: Seq<u8>, b: u8)
    ensures
        -1 <= last_of(s, b) < s.len(),
        last_of(s, b) >= 0 ==> s[last_of(s, b)] == b,
        forall|k: int| last_of(s, b) < k < s.len() ==> #[trigger] s[k] != b,
    decreases s.len(),
{
    if s.len() > 0 && s.last() != b {
        lemma_last_of(s.drop_last(), b);
        let p = s.drop_last();
        assert forall|k: int| last_of(s, b) < k < s.len() implies #[trigger] s[k] != b by {
            if k < p.len() {
                assert(p[k] == s[k]);
            }
        }
    }
}

/// In valid UTF-8 an ASCII byte starts a character.
pub proof fn lemma_ascii_boundary(s: Seq<u8>, i: int)
    requires
        utf8::valid_utf8(s),
        0 <= i < s.len(),
        s[i] < 0x80,
    ensures
        utf8::is_char_boundary(s, i),
    decreases s.len(),
{
    if i > 0 {
        let n = utf8::length_of_first_scalar(s);
        let rest = utf8::pop_first_scalar(s);
        assert(utf8::valid_first_scalar(s));
        assert(i >= n) by {
            if i < n {
                assert(utf8::is_continuation_byte(s[i]));
            }
        }
        assert(rest[i - n] == s[i]);
        lemma_ascii_boundary(rest, i - n);
    }
}

/// The part of a valid text before a cut, and the part behind it, are valid.
pub proof fn cut_keeps_utf8(text: Seq<u8>, eof: bool)
    requires
        utf8::valid_utf8(text),
    ensures
        0 <= spec_cut(text, eof) <= text.len(),
        utf8::valid_utf8(text.subrange(0, spec_cut(text, eof))),
        utf8::valid_utf8(text.subrange(spec_cut(text, eof), text.len() as int)),
{
    let cut = spec_cut(text, eof);
    lemma_last_of(text, NEWLINE);
    lemma_last_of(text, SPACE);
    if cut < text.len() {
        lemma_ascii_boundary(text, cut);
    } else {
        utf8::is_char_boundary_start_end_of_seq(text);
    }
    utf8::valid_utf8_split(text, cut);
}

/// Every line of a valid text is valid on its own.
pub proof fn lines_keep_utf8(s: Seq<u8>)
    requires
        utf8::valid_utf8(s),
    ensures
        forall|i: int| 0 <= i < lines(s).len() ==> utf8::valid_utf8(#[trigger] lines(s)[i]),
{
    lines_are_the_text(s);
    lemma_pieces_valid(lines(s), s);
}

proof fn lemma_pieces_valid(pieces: Seq<Seq<u8>>, s: Seq<u8>)
    requires
        utf8::valid_utf8(s),
        joined(pieces) == s,
        forall|i: int| 0 <= i < pieces.len() ==> (#[trigger] pieces[i]).len() > 0,
        forall|i: int| 0 <= i < pieces.len() - 1 ==> (#[trigger] pieces[i]).last() == NEWLINE,
    ensures
        forall|i: int| 0 <= i < pieces.len() ==> utf8::valid_utf8(#[trigger] pieces[i]),
    decreases pieces.len(),
{
    if pieces.len() > 0 {
        let p = pieces.drop_last();
        let head = joined(p);
        let cut = head.len() as int;
        assert(s.subrange(0, cut) =~= head);
        assert(s.subrange(cut, s.len() as int) =~= pieces.last());
        if p.len() == 0 {
            assert(s =~= pieces.last());
        } else {
            lemma_joined_last(p);
            assert(s[cut - 1] == NEWLINE) by {
                assert(head.last() == p.last().last());
                assert(pieces[p.len() - 1].last() == NEWLINE);
            }
            lemma_behind_ascii(s, cut - 1);
            utf8::valid_utf8_split(s, cut);
            lemma_pieces_valid(p, head);
        }
        assert forall|i: int| 0 <= i < pieces.len() implies utf8::valid_utf8(
            #[trigger] pieces[i],
        ) by {
            if i < p.len() {
                assert(p[i] == pieces[i]);
            }
        }
    }
}

proof fn lemma_joined_last(p: Seq<Seq<u8>>)
    requires
        p.len() > 0,
        p.last().len() > 0,
    ensures
        joined(p).len() > 0,
        joined(p).last() == p.last().last(),
{
}

/// In valid UTF-8 the byte behind an ASCII byte starts a character, or there is
/// none.
proof fn lemma_behind_ascii(s: Seq<u8>, i: int)
    requires
        utf8::valid_utf8(s),
        0 <= i < s.len(),
        s[i] < 0x80,
    ensures
        utf8::is_char_boundary(s, i + 1),
    decreases s.len(),
{
    let n = utf8::length_of_first_scalar(s);
    let rest = utf8::pop_first_scalar(s);
    assert(utf8::valid_first_scalar(s));
    if i == 0 {
        assert(n == 1);
        reveal_with_fuel(utf8::is_char_boundary, 2);
    } else {
        assert(i >= n) by {
            if i < n {
                assert(utf8::is_continuation_byte(s[i]));
            }
        }
        assert(rest[i - n] == s[i]);
        lemma_behind_ascii(rest, i - n);
    }
}

fn find_last(s: &Vec<u8>, n: usize, b: u8) -> (r: Option<usize>)
    requires
        n <= s@.len(),
    ensures
        match r {
            Some(i) => i == last_of(s@.subrange(0, n as int), b),
            None => last_of(s@.subrange(0, n as int), b) == -1,
        },
{
    let mut i: usize = n;
    while i > 0
        invariant
            i <= n <= s@.len(),
            last_of(s@.subrange(0, i as int), b) == last_of(s@.subrange(0, n as int), b),
        decreases i,
    {
        let ghost cur = s@.subrange(0, i as int);
        assert(cur.drop_last() =~= s@.subrange(0, i - 1));
        if s[i - 1] == b {
            return Some(i - 1);
        }
        i = i - 1;
    }
    None
}

fn copy_range(s: &Vec<u8>, from: usize, to: usize) -> (r: Vec<u8>)
    requires
        from <= to <= s@.len(),
    ensures
        r@ == s@.subrange(from as int, to as int),
{
    let mut r: Vec<u8> = Vec::new();
    let mut i: usize = from;
    while i < to
        invariant
            from <= i <= to <= s@.len(),
            r@ == s@.subrange(from as int, i as int),
        decreases to - i,
    {
        r.push(s[i]);
        i = i + 1;
        assert(r@ =~= s@.subrange(from as int, i as int));
    }
    r
}

fn split_lines(s: &Vec<u8>, n: usize) -> (r: Vec<Vec<u8>>)
    requires
        n <= s@.len(),
    ensures
        views(r@) == lines(s@.subrange(0, n as int)),
{
    let mut r: Vec<Vec<u8>> = Vec::new();
    let mut start: usize = 0;
    let mut i: usize = 0;
    assert(views(r@) =~= lines(s@.subrange(0, 0)));
    assert(s@.subrange(0, 0) =~= Seq::<u8>::empty());
    while i < n
        invariant
            start <= i <= n <= s@.len(),
            lines(s@.subrange(0, i as int)) == (if start < i {
                views(r@).push(s@.subrange(start as int, i as int))
            } else {
                views(r@)
            }),
            start == i && r@.len() > 0 ==> views(r@).last().len() > 0 && views(r@).last().last()
                == NEWLINE,
            forall|k: int| start <= k < i ==> #[trigger] s@[k] != NEWLINE,
        decreases n - i,
    {
        let ghost cur = s@.subrange(0, i as int);
        let ghost next = s@.subrange(0, i + 1);
        let ghost whole = s@.subrange(start as int, i + 1);
        proof {
            assert(next.drop_last() =~= cur);
            assert(next.last() == s@[i as int]);
            if start < i {
                let p = lines(cur);
                assert(p.last() == s@.subrange(start as int, i as int));
                assert(p.last().last() == s@[i - 1]);
                assert(p.drop_last() =~= views(r@));
                assert(whole =~= s@.subrange(start as int, i as int).push(s@[i as int]));
                assert(lines(next) =~= views(r@).push(whole));
            } else {
                assert(whole =~= seq![s@[i as int]]);
                assert(lines(next) =~= views(r@).push(whole));
            }
        }
        if s[i] == NEWLINE {
            let piece = copy_range(s, start, i + 1);
            let ghost before = views(r@);
            r.push(piece);
            assert(views(r@) =~= before.push(whole));
            assert(views(r@).last() == whole);
            start = i + 1;
        }
        i = i + 1;
    }
    if start < n {
        let piece = copy_range(s, start, n);
        let ghost before = views(r@);
        r.push(piece);
        assert(views(r@) =~= before.push(s@.subrange(start as int, n as int)));
    }
    r
}

#[derive(Clone, Copy, Debug, PartialEq, Eq, Structural)]
pub enum TokenizeError {
    NotUtf8,
}

/// The tokenization of a file under way.
#[derive(Debug)]
pub struct Sharder {
    /// Bytes read that have not gone to the tokenizer yet.
    pub carry: Vec<u8>,
    /// Tokens that have not gone to a shard yet.
    pub pending: Vec<u32>,
    pub shard_idx: usize,
    pub total_tokens: usize,
}

/// What a chunk leads to: the lines for the tokenizer and the bytes held back.
pub open spec fn text_step(carry: Seq<u8>, chunk: Seq<u8>) -> (Seq<Seq<u8>>, Seq<u8>) {
    let all = carry + chunk;
    let text = all.subrange(0, valid_len(all));
    let cut = spec_cut(text, chunk.len() == 0);
    (lines(all.subrange(0, cut)), all.subrange(cut, all.len() as int))
}

impl Sharder {
    pub fn new() -> (r: Self)
        ensures
            r.carry@.len() == 0,
            r.pending@.len() == 0,
            r.shard_idx == 0,
            r.total_tokens == 0,
    {
        Sharder { carry: Vec::new(), pending: Vec::new(), shard_idx: 0, total_tokens: 0 }
    }

    /// Takes the next chunk of the file, an empty one at its end: the lines that
    /// can go to the tokenizer. The rest waits, with a character that the chunk
    /// cuts in two. A file that ends in such a character is no text.
    pub fn feed(&mut self, chunk: &Vec<u8>) -> (r: Result<Vec<Vec<u8>>, TokenizeError>)
        ensures
            final(self).pending == old(self).pending,
            final(self).shard_idx == old(self).shard_idx,
            final(self).total_tokens == old(self).total_tokens,
            r is Err <==> chunk@.len() == 0 && !utf8::valid_utf8(old(self).carry@),
            r matches Err(e) ==> e == TokenizeError::NotUtf8 && final(self).carry@
                == old(self).carry@,
            r matches Ok(pieces) ==> {
                let (ls, rest) = text_step(old(self).carry@, chunk@);
                views(pieces@) == ls && final(self).carry@ == rest
            },
    {
        let ghost before = self.carry@;
        let eof = chunk.len() == 0;
        let mut i: usize = 0;
        while i < chunk.len()
            invariant
                i <= chunk@.len(),
                self.carry@ == before + chunk@.subrange(0, i as int),
                self.pending == old(self).pending,
                self.shard_idx == old(self).shard_idx,
                self.total_tokens == old(self).total_tokens,
            decreases chunk@.len() - i,
        {
            self.carry.push(chunk[i]);
            i = i + 1;
            assert(self.carry@ =~= before + chunk@.subrange(0, i as int));
        }
        let ghost all = before + chunk@;
        assert(self.carry@ =~= all);
        proof {
            lemma_valid_len(all);
        }
        let valid: usize = utf8_valid_len(&self.carry);
        let ghost text = all.subrange(0, valid as int);
        if eof && valid != self.carry.len() {
            assert(all =~= before);
            return Err(TokenizeError::NotUtf8);
        }
        proof {
            assert(eof ==> all =~= before);
            lemma_last_of(text, NEWLINE);
            lemma_last_of(text, SPACE);
        }
        let cut: usize = if eof {
            valid
        } else {
            match find_last(&self.carry, valid, NEWLINE) {
                Some(k) => k,
                None => match find_last(&self.carry, valid, SPACE) {
                    Some(k) => k,
                    None => valid,
                },
            }
        };
        let pieces = split_lines(&self.carry, cut);
        self.carry = copy_range(&self.carry, cut, self.carry.len());
        Ok(pieces)
    }
}

/// No byte of a file is lost or moved: what has gone to the tokenizer, followed
/// by what is held back, is what was held back before, followed by the chunk.
pub proof fn feed_keeps_text(carry: Seq<u8>, chunk: Seq<u8>)
    ensures
        ({
            let (ls, rest) = text_step(carry, chunk);
            joined(ls) + rest == carry + chunk
        }),
{
    let all = carry + chunk;
    lemma_valid_len(all);
    let text = all.subrange(0, valid_len(all));
    cut_keeps_utf8(text, chunk.len() == 0);
    let cut = spec_cut(text, chunk.len() == 0);
    lines_are_the_text(all.subrange(0, cut));
    assert(all.subrange(0, cut) + all.subrange(cut, all.len() as int) =~= all);
}

/// Every line that goes to the tokenizer is valid UTF-8.
pub proof fn fed_lines_are_text(carry: Seq<u8>, chunk: Seq<u8>)
    ensures
        forall|i: int|
            0 <= i < text_step(carry, chunk).0.len() ==> utf8::valid_utf8(
                #[trigger] text_step(carry, chunk).0[i],
            ),
{
    let all = carry + chunk;
    lemma_valid_len(all);
    let text = all.subrange(0, valid_len(all));
    cut_keeps_utf8(text, chunk.len() == 0);
    let cut = spec_cut(text, chunk.len() == 0);
    assert(text.subrange(0, cut) =~= all.subrange(0, cut));
    lines_keep_utf8(all.subrange(0, cut));
}

/// What has gone to the tokenizer after the first `n` chunks, and what is held
/// back.
pub open spec fn fed(chunks: Seq<Seq<u8>>, n: nat) -> (Seq<u8>, Seq<u8>)
    decreases n,
{
    if n == 0 {
        (Seq::empty(), Seq::empty())
    } else {
        let (out, carry) = fed(chunks, (n - 1) as nat);
        let (ls, rest) = text_step(carry, chunks[n - 1]);
        (out + joined(ls), rest)
    }
}

proof fn lemma_fed(chunks: Seq<Seq<u8>>, n: nat)
    requires
        n <= chunks.len(),
    ensures
        fed(chunks, n).0 + fed(chunks, n).1 == joined(chunks.subrange(0, n as int)),
    decreases n,
{
    if n > 0 {
        lemma_fed(chunks, (n - 1) as nat);
        let (out, carry) = fed(chunks, (n - 1) as nat);
        let (ls, rest) = text_step(carry, chunks[n - 1]);
        feed_keeps_text(carry, chunks[n - 1]);
        let c = chunks.subrange(0, n as int);
        assert(c.drop_last() =~= chunks.subrange(0, n - 1));
        assert(out + joined(ls) + rest =~= out + (joined(ls) + rest));
        assert(out + (carry + chunks[n - 1]) =~= (out + carry) + chunks[n - 1]);
    } else {
        assert(fed(chunks, 0).0 + fed(chunks, 0).1 =~= joined(chunks.subrange(0, 0)));
    }
}

/// What stands behind a valid prefix of a valid text is valid.
proof fn lemma_valid_rest(a: Seq<u8>, b: Seq<u8>)
    requires
        utf8::valid_utf8(a + b),
        utf8::valid_utf8(a),
    ensures
        utf8::valid_utf8(b),
    decreases a.len(),
{
    if a.len() == 0 {
        assert(a + b =~= b);
    } else {
        let n = utf8::length_of_first_scalar(a);
        assert(utf8::valid_first_scalar(a));
        assert(utf8::length_of_first_scalar(a + b) == n);
        assert(utf8::pop_first_scalar(a + b) =~= utf8::pop_first_scalar(a) + b);
        lemma_valid_rest(utf8::pop_first_scalar(a), b);
    }
}

proof fn lemma_fed_valid(chunks: Seq<Seq<u8>>, n: nat)
    requires
        n <= chunks.len(),
    ensures
        utf8::valid_utf8(fed(chunks, n).0),
    decreases n,
{
    if n > 0 {
        lemma_fed_valid(chunks, (n - 1) as nat);
        let (out, carry) = fed(chunks, (n - 1) as nat);
        let chunk = chunks[n - 1];
        let (ls, rest) = text_step(carry, chunk);
        let all = carry + chunk;
        lemma_valid_len(all);
        let text = all.subrange(0, valid_len(all));
        cut_keeps_utf8(text, chunk.len() == 0);
        let cut = spec_cut(text, chunk.len() == 0);
        assert(text.subrange(0, cut) =~= all.subrange(0, cut));
        lines_are_the_text(all.subrange(0, cut));
        utf8::valid_utf8_concat(out, joined(ls));
    }
}

/// A text file that is read to its end goes to the tokenizer whole, however it
/// was cut into chunks.
pub proof fn whole_file_is_tokenized(chunks: Seq<Seq<u8>>)
    requires
        chunks.len() > 0,
        chunks.last().len() == 0,
        utf8::valid_utf8(joined(chunks)),
    ensures
        fed(chunks, chunks.len()).0 == joined(chunks),
        fed(chunks, chunks.len()).1.len() == 0,
{
    let n = chunks.len();
    lemma_fed(chunks, n);
    assert(chunks.subrange(0, n as int) =~= chunks);
    let (out, carry) = fed(chunks, (n - 1) as nat);
    lemma_fed(chunks, (n - 1) as nat);
    lemma_fed_valid(chunks, (n - 1) as nat);
    assert(chunks.subrange(0, n - 1) =~= chunks.drop_last());
    assert(joined(chunks) =~= joined(chunks.drop_last()));
    lemma_valid_rest(out, carry);
    let all = carry + chunks.last();
    assert(all =~= carry);
    lemma_valid_len(all);
    assert(all.subrange(0, valid_len(all)) =~= all);
    let rest = fed(chunks, n).1;
    assert(rest =~= Seq::<u8>::empty());
    assert(fed(chunks, n).0 + rest =~= fed(chunks, n).0);
}

// ---- shards ----

/// The full shards of `tokens`, `n` tokens each.
pub open spec fn full_shards(tokens: Seq<u32>, n: nat) -> Seq<Seq<u32>>
    recommends
        n > 0,
    decreases tokens.len(),
{
    if n == 0 || tokens.len() < n {
        Seq::empty()
    } else {
        seq![tokens.subrange(0, n as int)] + full_shards(
            tokens.subrange(n as int, tokens.len() as int),
            n,
        )
    }
}

/// What the full shards leave over.
pub open spec fn left_over(tokens: Seq<u32>, n: nat) -> Seq<u32>
    decreases tokens.len(),
{
    if n == 0 || tokens.len() < n {
        tokens
    } else {
        left_over(tokens.subrange(n as int, tokens.len() as int), n)
    }
}

/// The shards that `tokens` go to, and the tokens that wait. At the end of the
/// file none wait: a last, shorter shard takes them.
pub open spec fn shard_step(tokens: Seq<u32>, n: nat, eof: bool) -> (Seq<Seq<u32>>, Seq<u32>) {
    let rest = left_over(tokens, n);
    if eof && rest.len() > 0 {
        (full_shards(tokens, n).push(rest), Seq::empty())
    } else {
        (full_shards(tokens, n), rest)
    }
}

/// The shards in the order of their numbers.
pub open spec fn numbered(shards: Seq<(usize, Vec<u32>)>, first: int) -> bool {
    forall|i: int| 0 <= i < shards.len() ==> (#[trigger] shards[i]).0 == first + i
}

/// The tokens of a list of shards.
pub open spec fn shard_views(shards: Seq<(usize, Vec<u32>)>) -> Seq<Seq<u32>> {
    Seq::new(shards.len(), |i: int| shards[i].1@)
}

proof fn lemma_joined_front<T>(first: Seq<T>, rest: Seq<Seq<T>>)
    ensures
        joined(seq![first] + rest) == first + joined(rest),
    decreases rest.len(),
{
    let all = seq![first] + rest;
    if rest.len() == 0 {
        assert(all.drop_last() =~= Seq::<Seq<T>>::empty());
        assert(all.last() == first);
        assert(joined(all) == joined(all.drop_last()) + first);
        assert(joined(all) =~= first + joined(rest));
    } else {
        assert(all.drop_last() =~= seq![first] + rest.drop_last());
        lemma_joined_front(first, rest.drop_last());
        assert(joined(all) == joined(all.drop_last()) + rest.last());
        assert(first + joined(rest.drop_last()) + rest.last() =~= first + (joined(rest.drop_last())
            + rest.last()));
    }
}

/// The shards and the tokens that wait are the tokens that came, in order; every
/// shard is full, except for the last one of a file, which is not empty.
pub proof fn shards_keep_tokens(tokens: Seq<u32>, n: nat, eof: bool)
    requires
        n > 0,
    ensures
        ({
            let (shards, rest) = shard_step(tokens, n, eof);
            &&& joined(shards) + rest == tokens
            &&& rest.len() < n
            &&& eof ==> rest.len() == 0
            &&& forall|i: int|
                0 <= i < shards.len() ==> 0 < (#[trigger] shards[i]).len() <= n
            &&& forall|i: int|
                0 <= i < shards.len() - 1 || (!eof && i == shards.len() - 1 >= 0) ==> (
                #[trigger] shards[i]).len() == n
        }),
{
    lemma_full(tokens, n);
    let full = full_shards(tokens, n);
    let rest = left_over(tokens, n);
    if eof && rest.len() > 0 {
        let all = full.push(rest);
        assert(all.drop_last() =~= full);
        assert(joined(all) + Seq::<u32>::empty() =~= tokens);
    }
}

proof fn lemma_full(tokens: Seq<u32>, n: nat)
    requires
        n > 0,
    ensures
        joined(full_shards(tokens, n)) + left_over(tokens, n) == tokens,
        left_over(tokens, n).len() < n,
        forall|i: int|
            0 <= i < full_shards(tokens, n).len() ==> (#[trigger] full_shards(tokens, n)[i]).len()
                == n,
        full_shards(tokens, n).len() * n + left_over(tokens, n).len() == tokens.len(),
    decreases tokens.len(),
{
    if tokens.len() < n {
        assert(joined(full_shards(tokens, n)) + tokens =~= tokens);
        assert(0 * n == 0);
    } else {
        let first = tokens.subrange(0, n as int);
        let tail = tokens.subrange(n as int, tokens.len() as int);
        lemma_full(tail, n);
        lemma_joined_front(first, full_shards(tail, n));
        let full = full_shards(tokens, n);
        assert(first + joined(full_shards(tail, n)) + left_over(tail, n) =~= first + (joined(
            full_shards(tail, n),
        ) + left_over(tail, n)));
        assert(first + tail =~= tokens);
        assert forall|i: int| 0 <= i < full.len() implies (#[trigger] full[i]).len() == n by {
            if i > 0 {
                assert(full[i] == full_shards(tail, n)[i - 1]);
            }
        }
        let m = full_shards(tail, n).len();
        assert((m + 1) * n == m * n + n) by (nonlinear_arith);
    }
}

impl Sharder {
    /// Takes the tokens of the lines that went out, batch by batch, and hands out
    /// the shards to write, numbered on from the last one.
    pub fn take_tokens(
        &mut self,
        batches: &Vec<Vec<u32>>,
        shard_tokens: usize,
        eof: bool,
    ) -> (r: Vec<(usize, Vec<u32>)>)
        requires
            shard_tokens > 0,
            old(self).pending@.len() + joined(views(batches@)).len() <= usize::MAX,
            old(self).total_tokens + old(self).pending@.len() + joined(views(batches@)).len()
                <= usize::MAX,
            old(self).shard_idx + old(self).pending@.len() + joined(views(batches@)).len()
                < usize::MAX,
        ensures
            ({
                let (shards, rest) = shard_step(
                    old(self).pending@ + joined(views(batches@)),
                    shard_tokens as nat,
                    eof,
                );
                &&& shard_views(r@) == shards
                &&& final(self).pending@ == rest
                &&& final(self).shard_idx == old(self).shard_idx + shards.len()
                &&& final(self).total_tokens == old(self).total_tokens + joined(shards).len()
            }),
            numbered(r@, old(self).shard_idx as int),
            final(self).carry == old(self).carry,
    {
        let ghost n = shard_tokens as nat;
        let ghost p0 = self.pending@;
        let ghost all = p0 + joined(views(batches@));
        let mut pending: Vec<u32> = Vec::new();
        pending.append(&mut self.pending);
        let mut i: usize = 0;
        assert(views(batches@).subrange(0, 0) =~= Seq::<Seq<u32>>::empty());
        assert(pending@ =~= p0);
        assert(pending@ =~= p0 + joined(views(batches@).subrange(0, 0)));
        while i < batches.len()
            invariant
                i <= batches@.len(),
                pending@ == p0 + joined(views(batches@).subrange(0, i as int)),
                self.carry == old(self).carry,
                self.shard_idx == old(self).shard_idx,
                self.total_tokens == old(self).total_tokens,
            decreases batches@.len() - i,
        {
            let ghost before = pending@;
            let mut k: usize = 0;
            while k < batches[i].len()
                invariant
                    i < batches@.len(),
                    k <= batches@[i as int]@.len(),
                    pending@ == before + batches@[i as int]@.subrange(0, k as int),
                decreases batches@[i as int]@.len() - k,
            {
                pending.push(batches[i][k]);
                k = k + 1;
                assert(pending@ =~= before + batches@[i as int]@.subrange(0, k as int));
            }
            proof {
                let v = views(batches@);
                assert(v.subrange(0, i + 1).drop_last() =~= v.subrange(0, i as int));
                assert(pending@ =~= p0 + joined(v.subrange(0, i + 1)));
            }
            i = i + 1;
        }
        assert(views(batches@).subrange(0, i as int) =~= views(batches@));
        assert(pending@ == all);
        proof {
            lemma_full(all, n);
        }
        let mut r: Vec<(usize, Vec<u32>)> = Vec::new();
        let first: usize = self.shard_idx;
        assert(shard_views(r@) + full_shards(all, n) =~= full_shards(all, n));
        assert(joined(shard_views(r@)) + pending@ =~= all);
        while pending.len() >= shard_tokens
            invariant
                shard_tokens > 0,
                n == shard_tokens,
                shard_views(r@) + full_shards(pending@, n) == full_shards(all, n),
                left_over(pending@, n) == left_over(all, n),
                joined(shard_views(r@)) + pending@ == all,
                self.carry == old(self).carry,
                first == old(self).shard_idx,
                self.shard_idx == first + r@.len(),
                r@.len() + pending@.len() <= all.len(),
                self.total_tokens == old(self).total_tokens + joined(shard_views(r@)).len(),
                numbered(r@, first as int),
                old(self).total_tokens + all.len() <= usize::MAX,
                old(self).shard_idx + all.len() < usize::MAX,
            decreases pending@.len(),
        {
            let ghost cur = pending@;
            let ghost done = shard_views(r@);
            let rest = pending.split_off(shard_tokens);
            let ghost shard = pending@;
            proof {
                assert(shard =~= cur.subrange(0, n as int));
                assert(rest@ =~= cur.subrange(n as int, cur.len() as int));
                assert(full_shards(cur, n) == seq![shard] + full_shards(rest@, n));
                assert(done.push(shard) + full_shards(rest@, n) =~= done + full_shards(cur, n));
                assert(done.push(shard).drop_last() =~= done);
                assert(joined(done.push(shard)) == joined(done) + shard);
                assert(joined(done) + shard + rest@ =~= joined(done) + cur);
                assert((joined(done) + cur).len() == all.len());
            }
            self.total_tokens = self.total_tokens + pending.len();
            r.push((self.shard_idx, pending));
            self.shard_idx = self.shard_idx + 1;
            assert(shard_views(r@) =~= done.push(shard));
            pending = rest;
        }
        proof {
            assert(full_shards(pending@, n) =~= Seq::<Seq<u32>>::empty());
            assert(shard_views(r@) =~= full_shards(all, n));
            assert((joined(shard_views(r@)) + pending@).len() == all.len());
        }
        if eof && pending.len() > 0 {
            let ghost done = shard_views(r@);
            let ghost shard = pending@;
            self.total_tokens = self.total_tokens + pending.len();
            r.push((self.shard_idx, pending));
            self.shard_idx = self.shard_idx + 1;
            assert(shard_views(r@) =~= done.push(shard));
            assert(done.push(shard).drop_last() =~= done);
            self.pending = Vec::new();
        } else {
            self.pending = pending;
        }
        r
    }
}

} // verus!
