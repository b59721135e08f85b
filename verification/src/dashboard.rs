//! A small interactive trainer: its flags, its commands, and what it remembers of
//! the losses.
use crate::text;
use crate::text::{chars_of, parse_usize, same_text, to_lowercase, words};
use std::collections::VecDeque;
use vstd::prelude::*;

verus! {

/// How many losses the rolling average takes in.
pub const ROLLING_WINDOW: usize = 50;

/// The file that weights are saved to when none is given.
pub const DEFAULT_WEIGHTS_FILE: &'static str = "akasha.bin";

// ---- flags ----

/// `at` is the first place of `name` among the arguments.
pub open spec fn first_at(args: Seq<String>, name: Seq<char>, at: int) -> bool {
    &&& 0 <= at < args.len()
    &&& args[at]@ == name
    &&& forall|i: int| 0 <= i < at ==> (#[trigger] args[i])@ != name
}

/// The argument behind the first `name`, if there is one.
pub fn parse_flag<'a>(args: &'a Vec<String>, name: &str) -> (r: Option<&'a String>)
    ensures
        match r {
            Some(v) => exists|at: int|
                #[trigger] first_at(args@, name@, at) && at + 1 < args@.len() && v == args@[at + 1],
            None => forall|at: int| #[trigger] first_at(args@, name@, at) ==> at + 1 == args@.len(),
        },
{
    let mut i: usize = 0;
    while i < args.len()
        invariant
            i <= args@.len(),
            forall|k: int| 0 <= k < i ==> (#[trigger] args@[k])@ != name@,
        decreases args@.len() - i,
    {
        if same_text(args[i].as_str(), name) {
            assert(first_at(args@, name@, i as int));
            if i + 1 < args.len() {
                return Some(&args[i + 1]);
            }
            assert forall|at: int| #[trigger] first_at(args@, name@, at) implies at + 1
                == args@.len() by {
                assert(args@[i as int]@ == name@);
            }
            return None;
        }
        i = i + 1;
    }
    None
}

// ---- commands ----

pub enum Command {
    /// An empty line.
    Nothing,
    Run(usize),
    Save(Option<String>),
    Load(Option<String>),
    Print,
    Clear,
    Exit,
    /// The first word, in lower case.
    Unknown(String),
}

/// The command of a lower-case first word `cmd` and of the second word, if there is
/// one: its argument. A number of runs that cannot be read counts as one.
pub open spec fn is_command_of(cmd: Seq<char>, arg: Option<Seq<char>>, c: Command) -> bool {
    if cmd == "run"@ {
        c == Command::Run(
            if arg is Some && text::spec_parse_usize(arg->0) is Some {
                text::spec_parse_usize(arg->0)->0
            } else {
                1
            },
        )
    } else if cmd == "save"@ {
        c matches Command::Save(p) && is_arg(arg, p)
    } else if cmd == "load"@ {
        c matches Command::Load(p) && is_arg(arg, p)
    } else if cmd == "print"@ {
        c is Print
    } else if cmd == "clear"@ {
        c is Clear
    } else if cmd == "exit"@ || cmd == "quit"@ {
        c is Exit
    } else {
        c matches Command::Unknown(s) && s@ == cmd
    }
}

/// `p` holds the text of `arg`.
pub open spec fn is_arg(arg: Option<Seq<char>>, p: Option<String>) -> bool {
    match p {
        Some(s) => arg == Some(s@),
        None => arg is None,
    }
}

/// The second word of a line.
pub open spec fn second_word(w: Seq<Seq<char>>) -> Option<Seq<char>> {
    if w.len() > 1 {
        Some(w[1])
    } else {
        None
    }
}

/// The command in a line: that of its first word in lower case and of its second.
pub open spec fn is_command(line: Seq<char>, c: Command) -> bool {
    let w = text::spec_words(line);
    if w.len() == 0 {
        c is Nothing
    } else {
        is_command_of(text::lowercase(w[0]), second_word(w), c)
    }
}

/// The command that a lower-case word names, with its argument.
pub fn command_of(cmd: String, arg: Option<String>) -> (r: Command)
    ensures
        is_command_of(
            cmd@,
            match arg {
                Some(a) => Some(a@),
                None => None,
            },
            r,
        ),
{
    let word = cmd.as_str();
    if same_text(word, "run") {
        match arg {
            Some(a) => match parse_usize(&chars_of(a.as_str())) {
                Some(n) => Command::Run(n),
                None => Command::Run(1),
            },
            None => Command::Run(1),
        }
    } else if same_text(word, "save") {
        Command::Save(arg)
    } else if same_text(word, "load") {
        Command::Load(arg)
    } else if same_text(word, "print") {
        Command::Print
    } else if same_text(word, "clear") {
        Command::Clear
    } else if same_text(word, "exit") || same_text(word, "quit") {
        Command::Exit
    } else {
        Command::Unknown(cmd)
    }
}

/// Reads a command. Where the first word is ASCII, its letters count in either case.
pub fn parse_command(line: &str) -> (r: Command)
    ensures
        is_command(line@, r),
        text::spec_words(line@).len() > 0 && text::is_ascii(text::spec_words(line@)[0])
            ==> is_command_of(
            text::ascii_lowercase(text::spec_words(line@)[0]),
            second_word(text::spec_words(line@)),
            r,
        ),
{
    let w = words(line);
    let ghost all = text::texts(w@);
    if w.len() == 0 {
        return Command::Nothing;
    }
    proof {
        assert(all[0] == w@[0]@);
        if w@.len() > 1 {
            assert(all[1] == w@[1]@);
        }
    }
    let cmd = to_lowercase(w[0].as_str());
    if w.len() > 1 {
        command_of(cmd, Some(String::from_str(w[1].as_str())))
    } else {
        command_of(cmd, None)
    }
}

// ---- losses ----

/// What the trainer remembers: steps, losses seen, the last loss, and the last
/// ones, oldest first. Losses are held as bits.
pub struct Dashboard {
    pub step: usize,
    pub epoch: usize,
    pub last_loss: u32,
    pub recent_losses: VecDeque<u32>,
}

/// The last `n` items of `s`.
pub open spec fn last_items(s: Seq<u32>, n: int) -> Seq<u32> {
    if s.len() > n {
        s.subrange(s.len() - n, s.len() as int)
    } else {
        s
    }
}

impl Dashboard {
    pub open spec fn wf(self) -> bool {
        self.recent_losses@.len() <= ROLLING_WINDOW
    }

    pub fn new() -> (r: Self)
        ensures
            r.wf(),
            r.step == 0,
            r.epoch == 0,
            r.last_loss == 0,
            r.recent_losses@.len() == 0,
    {
        Dashboard { step: 0, epoch: 0, last_loss: 0, recent_losses: VecDeque::new() }
    }

    /// Takes in the loss of an epoch; the oldest one is forgotten when there are
    /// too many.
    pub fn push_loss(&mut self, loss: u32)
        requires
            old(self).wf(),
            old(self).epoch < usize::MAX,
        ensures
            final(self).wf(),
            final(self).step == old(self).step,
            final(self).epoch == old(self).epoch + 1,
            final(self).last_loss == loss,
            final(self).recent_losses@ == last_items(
                old(self).recent_losses@.push(loss),
                ROLLING_WINDOW as int,
            ),
    {
        self.epoch = self.epoch + 1;
        self.last_loss = loss;
        if self.recent_losses.len() == ROLLING_WINDOW {
            let _oldest = self.recent_losses.pop_front();
        }
        self.recent_losses.push_back(loss);
        assert(self.recent_losses@ =~= last_items(
            old(self).recent_losses@.push(loss),
            ROLLING_WINDOW as int,
        ));
    }
}

/// The losses that are remembered after `losses` came in, one after the other.
pub open spec fn remembered(losses: Seq<u32>) -> Seq<u32>
    decreases losses.len(),
{
    if losses.len() == 0 {
        losses
    } else {
        last_items(remembered(losses.drop_last()).push(losses.last()), ROLLING_WINDOW as int)
    }
}

/// However many losses came in, the last ones are remembered.
pub proof fn dashboard_keeps_last(losses: Seq<u32>)
    ensures
        remembered(losses) == last_items(losses, ROLLING_WINDOW as int),
    decreases losses.len(),
{
    if losses.len() > 0 {
        dashboard_keeps_last(losses.drop_last());
        assert(remembered(losses) =~= last_items(losses, ROLLING_WINDOW as int));
    }
}

/// `tokens`, `times` times over.
pub open spec fn spec_repeat(tokens: Seq<u32>, times: nat) -> Seq<u32>
    decreases times,
{
    if times == 0 {
        Seq::empty()
    } else {
        spec_repeat(tokens, (times - 1) as nat) + tokens
    }
}

/// A batch of `times` equal windows.
pub fn repeat_tokens(tokens: &Vec<u32>, times: usize) -> (r: Vec<u32>)
    ensures
        r@ == spec_repeat(tokens@, times as nat),
{
    let mut r: Vec<u32> = Vec::new();
    let mut i: usize = 0;
    while i < times
        invariant
            i <= times,
            r@ == spec_repeat(tokens@, i as nat),
        decreases times - i,
    {
        let ghost before = r@;
        let mut k: usize = 0;
        while k < tokens.len()
            invariant
                k <= tokens@.len(),
                r@ == before + tokens@.subrange(0, k as int),
            decreases tokens@.len() - k,
        {
            r.push(tokens[k]);
            k = k + 1;
            assert(r@ =~= before + tokens@.subrange(0, k as int));
        }
        assert(tokens@.subrange(0, k as int) =~= tokens@);
        i = i + 1;
    }
    r
}

} // verus!
