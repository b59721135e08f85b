//! A conversation on one cache: a prompt once, then token after token.
use super::model;
use super::model::{DecodePlan, Model, PromptPlan};
use super::serving;
use crate::device::{Context, Tensor};
use crate::error::AkashaError;
use vstd::prelude::*;

verus! {

pub struct ChatSession {
    pub model: Model,
    /// Rows that the cache holds.
    pub pos: u32,
    pub seen: Vec<u32>,
    pub last_token: Option<u32>,
    pub eos: u32,
    pub finished: bool,
}

impl ChatSession {
    /// The cache never overflows, the last token is the last one seen, and the
    /// session is finished exactly when that is the end token. Every token seen has
    /// its row in the cache, except the last one sampled, which is still to run.
    pub open spec fn wf(self) -> bool {
        &&& self.model.chats()
        &&& self.pos <= (self.model.chat->0)@.max_context_len
        &&& self.last_token matches Some(t) ==> self.seen@.len() > 0 && self.seen@.last() == t
        &&& self.finished <==> self.last_token == Some(self.eos)
        &&& self.seen@.len() == self.pos || self.has_token_to_run()
        &&& self.pos == 0 ==> self.seen@.len() == 0
        &&& self.finished ==> self.has_token_to_run()
    }

    /// A token has been sampled and has no row in the cache yet.
    pub open spec fn has_token_to_run(self) -> bool {
        self.last_token is Some && self.seen@.len() == self.pos + 1
    }

    /// Logits have been planned and nothing has been sampled from them yet.
    pub open spec fn awaits_sample(self) -> bool {
        self.pos > 0 && self.seen@.len() == self.pos
    }

    /// `after` is this session once `t` was sampled from its logits.
    pub open spec fn samples(self, t: u32, after: Self) -> bool {
        &&& after.model == self.model
        &&& after.pos == self.pos
        &&& after.eos == self.eos
        &&& after.seen@ == self.seen@.push(t)
        &&& after.last_token == Some(t)
        &&& after.finished == (t == self.eos)
    }

    /// `after` is this session once its last token was planned at the next row.
    pub open spec fn steps(self, after: Self) -> bool {
        &&& after.pos == self.pos + 1
        &&& after.seen == self.seen
        &&& after.last_token == self.last_token
        &&& after.eos == self.eos
        &&& after.finished == self.finished
        &&& after.model.weights == self.model.weights
        &&& after.model.train == self.model.train
        &&& after.model.chat is Some
        &&& (after.model.chat->0)@ == model::chat_at((self.model.chat->0)@, self.pos)
    }

    pub open spec fn max(self) -> u32 {
        (self.model.chat->0)@.max_context_len
    }

    pub fn new(model: Model) -> (r: Self)
        requires
            model.chats(),
        ensures
            r.wf(),
            r.model == model,
            r.pos == 0,
            r.seen@.len() == 0,
            r.last_token is None,
            r.eos == model.weights@.cfg.eos_token,
            !r.finished,
    {
        let eos: u32 = model.weights.cfg.eos_token;
        Self { model, pos: 0, seen: Vec::new(), last_token: None, eos, finished: false }
    }

    /// Starts the session with a prompt: what runs it, or why it is refused. The
    /// token sampled from its logits goes to `take_sample`.
    pub fn feed_prompt(&mut self, ctx: &mut Context, prompt: &Vec<u32>) -> (r: Result<
        PromptPlan,
        AkashaError,
    >)
        requires
            old(self).wf(),
            prompt@.len() <= u32::MAX,
            0 < prompt@.len() <= old(self).max() ==> serving::prefill_servable(
                old(self).model.weights@,
                old(self).model.weights@.cfg,
                prompt@.len() as u32,
            ),
        ensures
            final(self).wf(),
            final(self).model == old(self).model,
            final(self).eos == old(self).eos,
            old(self).pos != 0 ==> r == Err::<PromptPlan, AkashaError>(
                AkashaError::CacheNotEmpty { cur_len: old(self).pos },
            ),
            old(self).pos == 0 && prompt@.len() == 0 ==> r == Err::<PromptPlan, AkashaError>(
                AkashaError::EmptyPrompt,
            ),
            old(self).pos == 0 && prompt@.len() > old(self).max() ==> r == Err::<
                PromptPlan,
                AkashaError,
            >(AkashaError::PromptTooLong { len: prompt@.len() as u32, max: old(self).max() }),
            r is Ok <==> old(self).pos == 0 && 0 < prompt@.len() <= old(self).max(),
            r is Err ==> *final(self) == *old(self) && final(ctx)@ == old(ctx)@,
            r matches Ok(plan) ==> {
                let s = (old(self).model.chat->0)@;
                let cfg = old(self).model.weights@.cfg;
                let p = serving::prefill_forward(
                    old(ctx)@,
                    old(self).model.weights@,
                    cfg,
                    s.cache_k,
                    s.cache_v,
                    prompt@.len() as u32,
                );
                &&& final(self).awaits_sample()
                &&& final(self).pos == prompt@.len()
                &&& final(self).seen@ == prompt@
                &&& final(self).last_token is None
                &&& !final(self).finished
                &&& final(ctx)@ == p.ctx
                &&& plan.graph@ == p.emitted
                &&& plan.tokens == p.tokens
                &&& plan.logits == p.tape.out((p.logits_id, 0))
                &&& plan.start == (prompt@.len() - 1) * cfg.vocab_size
                &&& plan.end == prompt@.len() * cfg.vocab_size
            },
    {
        if self.pos != 0 {
            return Err(AkashaError::CacheNotEmpty { cur_len: self.pos });
        }
        match self.model.prefill_logits(ctx, prompt) {
            Ok(plan) => {
                let mut seen: Vec<u32> = Vec::new();
                let mut i: usize = 0;
                while i < prompt.len()
                    invariant
                        i <= prompt@.len(),
                        seen@ == prompt@.subrange(0, i as int),
                    decreases prompt@.len() - i,
                {
                    seen.push(prompt[i]);
                    i = i + 1;
                    assert(seen@ =~= prompt@.subrange(0, i as int));
                }
                assert(seen@ =~= prompt@);
                self.seen = seen;
                self.pos = prompt.len() as u32;
                self.last_token = None;
                self.finished = false;
                Ok(plan)
            },
            Err(e) => Err(e),
        }
    }

    /// Takes the token sampled from the latest logits.
    pub fn take_sample(&mut self, next: u32)
        requires
            old(self).wf(),
            old(self).awaits_sample(),
        ensures
            final(self).wf(),
            final(self).has_token_to_run(),
            old(self).samples(next, *final(self)),
    {
        self.seen.push(next);
        self.last_token = Some(next);
        self.finished = next == self.eos;
    }

    /// What runs the last token at the next cache row. `None` once the end token
    /// has come or the context is full.
    pub fn next(&mut self) -> (r: Result<Option<DecodePlan>, AkashaError>)
        requires
            old(self).wf(),
            old(self).finished || old(self).pos >= old(self).max() || old(self).has_token_to_run(),
        ensures
            final(self).wf(),
            r is Ok,
            r->Ok_0 is None <==> old(self).finished || old(self).pos >= old(self).max(),
            r->Ok_0 is None ==> *final(self) == *old(self),
            r->Ok_0 matches Some(plan) ==> {
                let s = (old(self).model.chat->0)@;
                &&& old(self).steps(*final(self))
                &&& final(self).awaits_sample()
                &&& plan.token == old(self).last_token->0
                &&& plan.tokens == s.tokens
                &&& plan.writes@ == super::tape::writes_of::<super::cached::DecodeOp>(
                    s.tape.nodes,
                    old(self).pos,
                    s.tape.nodes.len(),
                )
                &&& plan.logits == s.tape.out((s.logits_id, 0))
            },
    {
        if self.finished || self.pos >= self.model.max_context_len() {
            return Ok(None);
        }
        let prev: u32 = self.last_token.unwrap();
        match self.model.decode_step_logits(prev, self.pos) {
            Ok(plan) => {
                self.pos = self.pos + 1;
                Ok(Some(plan))
            },
            Err(e) => Err(e),
        }
    }

    /// Forgets everything but the model: the cache buffers to overwrite with
    /// zeros.
    pub fn reset(&mut self) -> (r: Vec<Tensor>)
        requires
            old(self).wf(),
        ensures
            final(self).wf(),
            final(self).model == old(self).model,
            final(self).eos == old(self).eos,
            final(self).pos == 0,
            final(self).seen@.len() == 0,
            final(self).last_token is None,
            !final(self).finished,
            r@ == (old(self).model.chat->0)@.cache_k + (old(self).model.chat->0)@.cache_v,
    {
        let r = self.model.reset_cache();
        self.pos = 0;
        self.seen = Vec::new();
        self.last_token = None;
        self.finished = false;
        r
    }

    pub fn is_finished(&self) -> (r: bool)
        ensures
            r == self.finished,
    {
        self.finished
    }
}

/// One turn, `next` and then `take_sample`, runs the token sampled before and adds
/// the one sampled now: the cache grows by one row, what was seen by one token, and
/// the session is again one token ahead of its cache. It ends exactly when the
/// token is the end token. The weights are not touched.
pub proof fn a_turn_adds_one_token(
    before: ChatSession,
    planned: ChatSession,
    t: u32,
    after: ChatSession,
)
    requires
        before.wf(),
        before.has_token_to_run(),
        before.steps(planned),
        planned.samples(t, after),
    ensures
        after.pos == before.pos + 1,
        after.seen@ == before.seen@.push(t),
        after.seen@.len() == after.pos + 1,
        after.has_token_to_run(),
        after.last_token == Some(t),
        after.finished <==> t == before.eos,
        after.eos == before.eos,
        after.max() == before.max(),
        after.model.weights == before.model.weights,
        after.model.train == before.model.train,
{
}

/// After `k` turns a session has run `k` more tokens and seen `k` more, in the order
/// in which they were sampled: `states[2 * i]` goes by `next` to `states[2 * i + 1]`
/// and that by `take_sample` of `ts[i]` to the following one.
pub proof fn turns_append_samples(states: Seq<ChatSession>, ts: Seq<u32>)
    requires
        states.len() == 2 * ts.len() + 1,
        states[0].wf(),
        states[0].has_token_to_run(),
        forall|i: int|
            0 <= i < ts.len() ==> {
                &&& (#[trigger] states[2 * i]).steps(states[2 * i + 1])
                &&& states[2 * i + 1].samples(ts[i], states[2 * i + 2])
            },
    ensures
        states.last().pos == states[0].pos + ts.len(),
        states.last().seen@ == states[0].seen@ + ts,
        states.last().has_token_to_run(),
        states.last().model.weights == states[0].model.weights,
    decreases ts.len(),
{
    if ts.len() > 0 {
        let n = ts.len() - 1;
        let head = states.subrange(0, 2 * n + 1);
        assert forall|i: int| 0 <= i < n implies {
            &&& (#[trigger] head[2 * i]).steps(head[2 * i + 1])
            &&& head[2 * i + 1].samples(ts.drop_last()[i], head[2 * i + 2])
        } by {
            assert(head[2 * i] == states[2 * i]);
        }
        turns_append_samples(head, ts.drop_last());
        assert(head.last() == states[2 * n]);
        assert(states[2 * n].steps(states[2 * n + 1]));
        assert(states[2 * n + 1].samples(ts[n], states[2 * n + 2]));
        assert(states[0].seen@ + ts =~= (states[0].seen@ + ts.drop_last()).push(ts[n]));
    } else {
        assert(states[0].seen@ + ts =~= states[0].seen@);
    }
}

} // verus!
