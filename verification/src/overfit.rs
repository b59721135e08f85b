//! A model that learns one sentence: its words, and completing a prompt with them.
use crate::single;
use crate::text;
use crate::text::{chars_of, is_named, same_text, trim, words};
use vstd::prelude::*;

verus! {

/// Words of the sentence.
pub const SENTENCE_LEN: u32 = 6;

/// The id that fills up a window.
pub const PAD_ID: u32 = 6;

/// Ids in all.
pub const VOCAB_SIZE: u32 = 7;

/// The word of an id.
pub open spec fn spec_word(id: u32) -> Seq<char> {
    if id == 0 {
        "Akasha"@
    } else if id == 1 {
        "is"@
    } else if id == 2 {
        "a"@
    } else if id == 3 {
        "custom"@
    } else if id == 4 {
        "language"@
    } else if id == 5 {
        "model."@
    } else if id == 6 {
        "<pad>"@
    } else {
        "?"@
    }
}

/// The word of an id; a question mark for an id that is none.
pub fn word_of(id: u32) -> (r: &'static str)
    ensures
        r@ == spec_word(id),
{
    match id {
        0 => "Akasha",
        1 => "is",
        2 => "a",
        3 => "custom",
        4 => "language",
        5 => "model.",
        6 => "<pad>",
        _ => "?",
    }
}

/// The ids of the sentence, in order.
pub fn sentence_tokens() -> (r: Vec<u32>)
    ensures
        r@ == seq![0u32, 1, 2, 3, 4, 5],
{
    vec![0, 1, 2, 3, 4, 5]
}

/// `word` is the word of `id` in the sentence.
pub open spec fn has_id(word: Seq<char>, id: u32) -> bool {
    id < SENTENCE_LEN && spec_word(id) == word
}

/// The id of a word of the sentence; the padding is no word.
pub fn word_id(word: &str) -> (r: Option<u32>)
    ensures
        match r {
            Some(id) => has_id(word@, id),
            None => forall|id: u32| !#[trigger] has_id(word@, id),
        },
{
    let mut id: u32 = 0;
    while id < SENTENCE_LEN
        invariant
            id <= SENTENCE_LEN,
            forall|k: u32| k < id ==> !#[trigger] has_id(word@, k),
        decreases SENTENCE_LEN - id,
    {
        if same_text(word_of(id), word) {
            return Some(id);
        }
        id = id + 1;
    }
    None
}

/// No two words of the sentence are equal, so an id has one word and a word one id.
pub proof fn ids_are_unique(word: Seq<char>, a: u32, b: u32)
    requires
        has_id(word, a),
        has_id(word, b),
    ensures
        a == b,
{
    reveal_strlit("Akasha");
    reveal_strlit("is");
    reveal_strlit("a");
    reveal_strlit("custom");
    reveal_strlit("language");
    reveal_strlit("model.");
    assert("Akasha"@[0] == 'A');
    assert("custom"@[0] == 'c');
    assert("model."@[0] == 'm');
    assert("is"@.len() == 2 && "a"@.len() == 1 && "language"@.len() == 8);
    assert("Akasha"@.len() == 6 && "custom"@.len() == 6 && "model."@.len() == 6);
    assert(word.len() == spec_word(a).len());
}

/// A prompt: the ids of the words that are known, and the other words.
pub struct Prompt {
    pub tokens: Vec<u32>,
    pub unknown: Vec<String>,
}

/// The ids of the known ones among the first `n` words.
pub open spec fn known(w: Seq<Seq<char>>, n: nat) -> Seq<u32>
    decreases n,
{
    if n == 0 {
        Seq::empty()
    } else if exists|id: u32| #[trigger] has_id(w[n - 1], id) {
        known(w, (n - 1) as nat).push(choose|id: u32| #[trigger] has_id(w[n - 1], id))
    } else {
        known(w, (n - 1) as nat)
    }
}

/// The unknown ones among the first `n` words.
pub open spec fn unknown(w: Seq<Seq<char>>, n: nat) -> Seq<Seq<char>>
    decreases n,
{
    if n == 0 {
        Seq::empty()
    } else if exists|id: u32| #[trigger] has_id(w[n - 1], id) {
        unknown(w, (n - 1) as nat)
    } else {
        unknown(w, (n - 1) as nat).push(w[n - 1])
    }
}

/// Reads a prompt, word by word.
pub fn parse_prompt(line: &str) -> (r: Prompt)
    ensures
        r.tokens@ == known(text::spec_words(line@), text::spec_words(line@).len()),
        text::texts(r.unknown@) == unknown(text::spec_words(line@), text::spec_words(line@).len()),
        forall|i: int| 0 <= i < r.tokens@.len() ==> #[trigger] r.tokens@[i] < SENTENCE_LEN,
{
    let w = words(line);
    let ghost all = text::spec_words(line@);
    let mut tokens: Vec<u32> = Vec::new();
    let mut others: Vec<String> = Vec::new();
    let mut i: usize = 0;
    assert(text::texts(others@) =~= unknown(all, 0));
    while i < w.len()
        invariant
            i <= w@.len(),
            text::texts(w@) == all,
            tokens@ == known(all, i as nat),
            text::texts(others@) == unknown(all, i as nat),
            forall|k: int| 0 <= k < tokens@.len() ==> #[trigger] tokens@[k] < SENTENCE_LEN,
        decreases w@.len() - i,
    {
        assert(all[i as int] == w@[i as int]@);
        let ghost before = text::texts(others@);
        match word_id(w[i].as_str()) {
            Some(id) => {
                tokens.push(id);
                proof {
                    let other = choose|x: u32| #[trigger] has_id(all[i as int], x);
                    ids_are_unique(all[i as int], id, other);
                }
            },
            None => {
                let word = String::from_str(w[i].as_str());
                others.push(word);
                assert(text::texts(others@) =~= before.push(word@));
            },
        }
        i = i + 1;
    }
    assert(all.len() == w@.len());
    Prompt { tokens, unknown: others }
}

/// What follows a line of input.
#[derive(Clone, Copy, Debug, PartialEq, Eq, Structural)]
pub enum Reply {
    /// End the session.
    Exit,
    /// An empty line.
    Nothing,
    /// No word is known.
    NoWords,
    /// The prompt leaves no room.
    Full,
    Complete,
}

pub open spec fn spec_reply(line: Seq<char>, known: int) -> Reply {
    if text::names(text::spec_trim(line), "exit"@) {
        Reply::Exit
    } else if text::spec_trim(line).len() == 0 {
        Reply::Nothing
    } else if known == 0 {
        Reply::NoWords
    } else if known >= SENTENCE_LEN {
        Reply::Full
    } else {
        Reply::Complete
    }
}

/// Decides on a line of input with the given prompt.
pub fn reply(line: &str, prompt: &Prompt) -> (r: Reply)
    ensures
        r == spec_reply(line@, prompt.tokens@.len() as int),
{
    let t = trim(line);
    let chars = chars_of(t.as_str());
    if is_named(&chars, "exit") {
        Reply::Exit
    } else if chars.len() == 0 {
        Reply::Nothing
    } else if prompt.tokens.len() == 0 {
        Reply::NoWords
    } else if prompt.tokens.len() >= SENTENCE_LEN as usize {
        Reply::Full
    } else {
        Reply::Complete
    }
}

/// The window of a prompt: its tokens, then padding.
pub open spec fn spec_window(tokens: Seq<u32>) -> Seq<u32> {
    tokens + Seq::new((SENTENCE_LEN - tokens.len()) as nat, |i: int| PAD_ID)
}

pub fn window(tokens: &Vec<u32>) -> (r: Vec<u32>)
    requires
        tokens@.len() <= SENTENCE_LEN,
    ensures
        r@ == spec_window(tokens@),
        r@.len() == SENTENCE_LEN,
{
    let mut r: Vec<u32> = Vec::new();
    let mut i: usize = 0;
    while i < SENTENCE_LEN as usize
        invariant
            i <= SENTENCE_LEN,
            tokens@.len() <= SENTENCE_LEN,
            r@ == spec_window(tokens@).subrange(0, i as int),
        decreases SENTENCE_LEN - i,
    {
        if i < tokens.len() {
            r.push(tokens[i]);
        } else {
            r.push(PAD_ID);
        }
        i = i + 1;
        assert(r@ =~= spec_window(tokens@).subrange(0, i as int));
    }
    assert(r@ =~= spec_window(tokens@));
    r
}

/// The index that a scan of the first `n` logits without `exclude` ends on, which
/// moves to every logit that is not smaller than the one it stands on.
pub open spec fn last_largest(logits: Seq<u32>, exclude: u32, n: nat) -> Option<int>
    decreases n,
{
    if n == 0 {
        None
    } else {
        let best = last_largest(logits, exclude, (n - 1) as nat);
        if n - 1 == exclude {
            best
        } else {
            match best {
                Some(b) => if single::spec_key(logits[n - 1]) >= single::spec_key(logits[b]) {
                    Some(n - 1)
                } else {
                    Some(b)
                },
                None => Some(n - 1),
            }
        }
    }
}

/// The last index of the largest logit, leaving out `exclude`; 0 where nothing is
/// left.
pub fn argmax_excluding(logits: &Vec<u32>, exclude: u32) -> (r: u32)
    requires
        logits@.len() <= u32::MAX,
        single::all_numbers(logits@),
    ensures
        match last_largest(logits@, exclude, logits@.len()) {
            Some(b) => r == b && r < logits@.len() && r != exclude,
            None => r == 0,
        },
{
    let mut best: Option<usize> = None;
    let mut i: usize = 0;
    while i < logits.len()
        invariant
            i <= logits@.len() <= u32::MAX,
            match best {
                Some(b) => {
                    &&& last_largest(logits@, exclude, i as nat) == Some(b as int)
                    &&& b < i
                    &&& b != exclude
                },
                None => last_largest(logits@, exclude, i as nat) is None,
            },
        decreases logits@.len() - i,
    {
        if i as u32 != exclude {
            match best {
                Some(b) => {
                    if single::key(logits[i]) >= single::key(logits[b]) {
                        best = Some(i);
                    }
                },
                None => {
                    best = Some(i);
                },
            }
        }
        i = i + 1;
    }
    match best {
        Some(b) => b as u32,
        None => 0,
    }
}

/// Takes in the next token of a completion and says whether there is room for one
/// more. The padding ends a completion and is not taken in.
pub fn accept(tokens: &mut Vec<u32>, next: u32) -> (r: bool)
    requires
        old(tokens)@.len() < SENTENCE_LEN,
    ensures
        next == PAD_ID ==> !r && final(tokens)@ == old(tokens)@,
        next != PAD_ID ==> final(tokens)@ == old(tokens)@.push(next) && r == (final(tokens)@.len()
            < SENTENCE_LEN),
{
    if next == PAD_ID {
        return false;
    }
    tokens.push(next);
    tokens.len() < SENTENCE_LEN as usize
}

} // verus!
