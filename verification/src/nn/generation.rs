//! What a text generation does next, given what came of the step before.
use vstd::prelude::*;

verus! {

// ---- on a model ----

/// A generation on a model's own cache.
#[derive(Debug)]
pub struct Generation {
    pub generated: Vec<u32>,
    pub seen: Vec<u32>,
    /// The cache row that the next decode step fills.
    pub pos: u32,
    pub eos: u32,
    pub max_new_tokens: usize,
    pub max_context_len: u32,
}

/// The tokens have room, and every one but the last is no end token.
pub open spec fn no_early_eos(generated: Seq<u32>, eos: u32) -> bool {
    forall|i: int| 0 <= i < generated.len() - 1 ==> #[trigger] generated[i] != eos
}

impl Generation {
    pub open spec fn wf(self) -> bool {
        &&& self.generated@.len() > 0
        &&& self.generated@.len() == 1 || self.generated@.len() <= self.max_new_tokens
        &&& self.seen@.len() >= self.generated@.len()
        &&& self.pos == self.seen@.len() - 1
        &&& self.seen@.subrange(
            self.seen@.len() - self.generated@.len(),
            self.seen@.len() as int,
        ) == self.generated@
        &&& self.pos <= self.max_context_len
        &&& no_early_eos(self.generated@, self.eos)
    }

    /// The next decode step, if there is one: its token and its position.
    pub open spec fn spec_wants(self) -> Option<(u32, u32)> {
        if self.generated@.len() < self.max_new_tokens && self.generated@.last() != self.eos
            && self.pos < self.max_context_len {
            Some((self.generated@.last(), self.pos))
        } else {
            None
        }
    }

    /// A generation whose prompt has run and given `first`.
    pub fn start(
        prompt: &Vec<u32>,
        first: u32,
        eos: u32,
        max_new_tokens: usize,
        max_context_len: u32,
    ) -> (r: Self)
        requires
            prompt@.len() <= max_context_len,
        ensures
            r.wf(),
            r.generated@ == seq![first],
            r.seen@ == prompt@.push(first),
            r.pos == prompt@.len(),
            r.eos == eos,
            r.max_new_tokens == max_new_tokens,
            r.max_context_len == max_context_len,
    {
        let mut seen: Vec<u32> = Vec::new();
        let mut i: usize = 0;
        while i < prompt.len()
            invariant
                i <= prompt@.len(),
                seen@ == prompt@.subrange(0, i as int),
            decreases prompt@.len() - i,
        {
            seen.push(prompt[i]);
            i = i + 1;
            assert(seen@ =~= prompt@.subrange(0, i as int));
        }
        assert(seen@ =~= prompt@);
        seen.push(first);
        let mut generated: Vec<u32> = Vec::new();
        generated.push(first);
        let r = Generation {
            generated,
            seen,
            pos: prompt.len() as u32,
            eos,
            max_new_tokens,
            max_context_len,
        };
        proof {
            assert(r.generated@ =~= seq![first]);
            assert(r.seen@.subrange(r.seen@.len() - 1, r.seen@.len() as int) =~= r.generated@);
        }
        r
    }

    /// The token and the position of the next decode step; `None` when the end
    /// token has come, the context is full or enough tokens are there.
    pub fn wants(&self) -> (r: Option<(u32, u32)>)
        requires
            self.wf(),
        ensures
            r == self.spec_wants(),
    {
        let n: usize = self.generated.len();
        if n < self.max_new_tokens && self.generated[n - 1] != self.eos && self.pos
            < self.max_context_len {
            Some((self.generated[n - 1], self.pos))
        } else {
            None
        }
    }

    /// Takes the token sampled from the decode step that `wants` asked for.
    pub fn push(&mut self, next: u32)
        requires
            old(self).wf(),
            old(self).spec_wants() is Some,
        ensures
            final(self).wf(),
            final(self).generated@ == old(self).generated@.push(next),
            final(self).seen@ == old(self).seen@.push(next),
            final(self).pos == old(self).pos + 1,
            final(self).eos == old(self).eos,
            final(self).max_new_tokens == old(self).max_new_tokens,
            final(self).max_context_len == old(self).max_context_len,
    {
        let ghost g = self.generated@;
        let ghost s = self.seen@;
        self.generated.push(next);
        self.seen.push(next);
        self.pos = self.pos + 1;
        proof {
            let tail = s.subrange(s.len() - g.len(), s.len() as int);
            assert(self.seen@.subrange(
                self.seen@.len() - self.generated@.len(),
                self.seen@.len() as int,
            ) =~= tail.push(next));
            assert forall|i: int| 0 <= i < self.generated@.len() - 1 implies (
            #[trigger] self.generated@[i]) != self.eos by {
                if i < g.len() - 1 {
                    assert(self.generated@[i] == g[i]);
                } else {
                    assert(self.generated@[i] == g.last());
                }
            }
        }
    }
}

/// The last token of a finished generation is the end token, or the context is
/// full, or exactly the tokens that were asked for are there (one if none was).
pub proof fn generation_ends_for_a_reason(g: Generation)
    requires
        g.wf(),
        g.spec_wants() is None,
    ensures
        ({
            ||| g.generated@.last() == g.eos
            ||| g.pos == g.max_context_len
            ||| g.generated@.len() == g.max_new_tokens
            ||| g.max_new_tokens == 0 && g.generated@.len() == 1
        }),
{
}

// ---- on a session ----

/// What a session's generation does next.
#[derive(Clone, Copy, Debug, PartialEq, Eq, Structural)]
pub enum SessionAction {
    /// Run the whole prompt on the empty cache.
    Prefill,
    /// Run one token on the cache.
    Decode(u32),
    /// Sample a token from the latest logits.
    Sample,
    Done,
}

/// A generation on a session, whose cache may already hold rows.
#[derive(Debug)]
pub struct SessionGeneration {
    pub prompt: Vec<u32>,
    /// The cache held rows at the start.
    pub resumed: bool,
    /// Prompt tokens that have run.
    pub fed: usize,
    pub generated: Vec<u32>,
    /// The last generated token has not run yet.
    pub pending: bool,
    pub eos: u32,
    pub max_new_tokens: usize,
}

impl SessionGeneration {
    pub open spec fn wf(self) -> bool {
        &&& self.fed <= self.prompt@.len()
        &&& self.generated@.len() <= self.max_new_tokens
        &&& self.fed < self.prompt@.len() ==> self.generated@.len() == 0
        &&& self.pending ==> self.generated@.len() > 0
        &&& !self.resumed && self.fed > 0 ==> self.fed == self.prompt@.len()
        &&& no_early_eos(self.generated@, self.eos)
        &&& self.generated@.len() > 0 && self.generated@.last() == self.eos ==> self.pending
    }

    pub open spec fn spec_action(self) -> SessionAction {
        if self.fed < self.prompt@.len() {
            if self.resumed {
                SessionAction::Decode(self.prompt@[self.fed as int])
            } else {
                SessionAction::Prefill
            }
        } else if self.pending {
            if self.generated@.last() == self.eos {
                SessionAction::Done
            } else {
                SessionAction::Decode(self.generated@.last())
            }
        } else if self.generated@.len() < self.max_new_tokens {
            SessionAction::Sample
        } else {
            SessionAction::Done
        }
    }

    /// A generation that has done nothing yet. On an empty cache the prompt runs
    /// in one go, else token by token behind the rows that are there.
    pub fn start(prompt: Vec<u32>, cur_len: u32, eos: u32, max_new_tokens: usize) -> (r: Self)
        requires
            prompt@.len() > 0,
        ensures
            r.wf(),
            r.prompt == prompt,
            r.resumed == (cur_len != 0),
            r.fed == 0,
            r.generated@.len() == 0,
            !r.pending,
            r.eos == eos,
            r.max_new_tokens == max_new_tokens,
    {
        SessionGeneration {
            prompt,
            resumed: cur_len != 0,
            fed: 0,
            generated: Vec::new(),
            pending: false,
            eos,
            max_new_tokens,
        }
    }

    pub fn action(&self) -> (r: SessionAction)
        requires
            self.wf(),
        ensures
            r == self.spec_action(),
    {
        if self.fed < self.prompt.len() {
            if self.resumed {
                SessionAction::Decode(self.prompt[self.fed])
            } else {
                SessionAction::Prefill
            }
        } else if self.pending {
            let last: u32 = self.generated[self.generated.len() - 1];
            if last == self.eos {
                SessionAction::Done
            } else {
                SessionAction::Decode(last)
            }
        } else if self.generated.len() < self.max_new_tokens {
            SessionAction::Sample
        } else {
            SessionAction::Done
        }
    }

    /// The prompt or the token that `action` asked for has run.
    pub fn ran(&mut self)
        requires
            old(self).wf(),
            old(self).spec_action() is Prefill || old(self).spec_action() is Decode,
        ensures
            final(self).wf(),
            final(self).prompt == old(self).prompt,
            final(self).resumed == old(self).resumed,
            final(self).generated == old(self).generated,
            final(self).eos == old(self).eos,
            final(self).max_new_tokens == old(self).max_new_tokens,
            final(self).fed == (if old(self).spec_action() is Prefill {
                old(self).prompt@.len() as int
            } else if old(self).fed < old(self).prompt@.len() {
                old(self).fed + 1
            } else {
                old(self).fed as int
            }),
            !final(self).pending,
    {
        if self.fed < self.prompt.len() {
            if self.resumed {
                self.fed = self.fed + 1;
            } else {
                self.fed = self.prompt.len();
            }
        } else {
            self.pending = false;
        }
    }

    /// The token that `action` asked for has been sampled.
    pub fn sampled(&mut self, next: u32)
        requires
            old(self).wf(),
            old(self).spec_action() is Sample,
        ensures
            final(self).wf(),
            final(self).prompt == old(self).prompt,
            final(self).resumed == old(self).resumed,
            final(self).fed == old(self).fed,
            final(self).eos == old(self).eos,
            final(self).max_new_tokens == old(self).max_new_tokens,
            final(self).generated@ == old(self).generated@.push(next),
            final(self).pending,
    {
        let ghost g = self.generated@;
        self.generated.push(next);
        self.pending = true;
        proof {
            assert forall|i: int| 0 <= i < self.generated@.len() - 1 implies (
            #[trigger] self.generated@[i]) != self.eos by {
                if i < g.len() - 1 {
                    assert(self.generated@[i] == g[i]);
                } else {
                    assert(self.generated@[i] == g.last());
                }
            }
        }
    }
}

/// A finished session generation has its end token, or all the tokens that were
/// asked for.
pub proof fn session_ends_for_a_reason(g: SessionGeneration)
    requires
        g.wf(),
        g.spec_action() is Done,
    ensures
        g.fed == g.prompt@.len(),
        g.generated@.len() > 0 && g.generated@.last() == g.eos || g.generated@.len()
            == g.max_new_tokens,
{
}

} // verus!
