//! Whether a tiny model learns one fixed batch by heart: the steps of the run, and
//! when it ends.
use crate::config::ModelConfig;
use crate::device::Scalar;
use crate::single;
use vstd::prelude::*;

verus! {

pub const DIM: u32 = 64;

pub const NUM_HEADS: u32 = 4;

pub const NUM_LAYERS: usize = 1;

pub const VOCAB_SIZE: u32 = 100;

pub const SEQ_LEN: usize = 16;

pub const BATCH_SIZE: usize = 4;

pub const STEPS: usize = 600;

/// Steps between two printed losses.
pub const LOG_EVERY: usize = 40;

/// Steps whose norms are printed.
pub const FINGERPRINTS: usize = 10;

/// The loss to get below, as bits: 0.1.
pub const LOSS_GOAL: u32 = 0x3dcc_cccd;

/// The model of the run.
pub fn config() -> (r: ModelConfig)
    ensures
        r == ModelConfig::spec_new(VOCAB_SIZE, DIM, NUM_HEADS, NUM_LAYERS, SEQ_LEN as u32),
        r.wf(),
{
    ModelConfig::new(VOCAB_SIZE, DIM, NUM_HEADS, NUM_LAYERS, SEQ_LEN as u32)
}

/// The scale of every row's loss gradient: one over the rows of the batch.
pub fn grad_scale() -> (r: Scalar)
    ensures
        r == Scalar::Recip((SEQ_LEN * BATCH_SIZE) as u64),
{
    Scalar::Recip((SEQ_LEN * BATCH_SIZE) as u64)
}

/// One thing that a runtime does.
#[derive(Clone, Copy, Debug, PartialEq, Eq, Structural)]
pub enum Action {
    ZeroGrad,
    /// Upload the tokens `from..to` of the batch and their targets.
    Window { from: usize, to: usize },
    ZeroTransient,
    Forward,
    /// Print the norms of the forward pass.
    ReportForward,
    /// Add the loss to the step's total.
    ReadLoss,
    Backward,
    Clip,
    Optimize,
}

/// The actions for window `i` of a step.
pub open spec fn window_actions(step: int, i: int) -> Seq<Action> {
    seq![
        Action::Window { from: (i * SEQ_LEN) as usize, to: ((i + 1) * SEQ_LEN) as usize },
        Action::ZeroTransient,
        Action::Forward,
    ] + (if step == 0 && i == 0 {
        seq![Action::ReportForward]
    } else {
        Seq::empty()
    }) + seq![Action::ReadLoss, Action::Backward]
}

/// The actions for the first `n` windows of a step.
pub open spec fn windows_actions(step: int, n: nat) -> Seq<Action>
    decreases n,
{
    if n == 0 {
        Seq::empty()
    } else {
        windows_actions(step, (n - 1) as nat) + window_actions(step, n - 1)
    }
}

/// The actions of a step.
pub open spec fn step_actions(step: int, use_clip: bool) -> Seq<Action> {
    seq![Action::ZeroGrad] + windows_actions(step, BATCH_SIZE as nat) + (if use_clip {
        seq![Action::Clip]
    } else {
        Seq::empty()
    }) + seq![Action::Optimize]
}

/// What is printed after a step.
#[derive(Clone, Copy, Debug, PartialEq, Eq, Structural)]
pub struct StepReport {
    pub log: bool,
    pub detail: bool,
    pub fingerprint: bool,
    pub nan: bool,
}

pub open spec fn step_report(step: int, loss: u32) -> StepReport {
    StepReport {
        log: step % (LOG_EVERY as int) == 0 || step == STEPS - 1,
        detail: step == 0,
        fingerprint: step < FINGERPRINTS,
        nan: single::nan(loss),
    }
}

/// The run's result, once the loss of step `step` is known; `None` while it goes
/// on.
pub open spec fn verdict_after(step: int, loss: u32) -> Option<bool> {
    if single::nan(loss) {
        Some(false)
    } else if step == STEPS - 1 {
        Some(single::greater(LOSS_GOAL, loss))
    } else {
        None
    }
}

/// A run: the step that comes next, or its result.
pub struct Memorization {
    pub step: usize,
    pub verdict: Option<bool>,
}

impl Memorization {
    pub open spec fn wf(self) -> bool {
        self.step <= STEPS && (self.verdict is None ==> self.step < STEPS)
    }

    pub fn new() -> (r: Self)
        ensures
            r.wf(),
            r.step == 0,
            r.verdict is None,
    {
        Memorization { step: 0, verdict: None }
    }

    /// What the current step does.
    pub fn actions(&self, use_clip: bool) -> (r: Vec<Action>)
        ensures
            r@ == step_actions(self.step as int, use_clip),
    {
        let step: usize = self.step;
        let mut r: Vec<Action> = vec![Action::ZeroGrad];
        assert(r@ =~= seq![Action::ZeroGrad]);
        let mut i: usize = 0;
        while i < BATCH_SIZE
            invariant
                i <= BATCH_SIZE,
                r@ == seq![Action::ZeroGrad] + windows_actions(step as int, i as nat),
            decreases BATCH_SIZE - i,
        {
            let ghost prev = r@;
            r.push(Action::Window { from: i * SEQ_LEN, to: (i + 1) * SEQ_LEN });
            r.push(Action::ZeroTransient);
            r.push(Action::Forward);
            if step == 0 && i == 0 {
                r.push(Action::ReportForward);
            }
            r.push(Action::ReadLoss);
            r.push(Action::Backward);
            assert(r@ =~= prev + window_actions(step as int, i as int));
            i = i + 1;
            assert(r@ =~= seq![Action::ZeroGrad] + windows_actions(step as int, i as nat));
        }
        if use_clip {
            r.push(Action::Clip);
        }
        r.push(Action::Optimize);
        assert(r@ =~= step_actions(step as int, use_clip));
        r
    }

    /// Takes in the average loss of the current step.
    pub fn observe(&mut self, loss: u32) -> (r: StepReport)
        requires
            old(self).wf(),
            old(self).verdict is None,
        ensures
            final(self).wf(),
            final(self).step == old(self).step + 1,
            final(self).verdict == verdict_after(old(self).step as int, loss),
            r == step_report(old(self).step as int, loss),
    {
        let nan = single::is_nan(loss);
        let r = StepReport {
            log: self.step % LOG_EVERY == 0 || self.step == STEPS - 1,
            detail: self.step == 0,
            fingerprint: self.step < FINGERPRINTS,
            nan,
        };
        if nan {
            self.verdict = Some(false);
        } else if self.step == STEPS - 1 {
            self.verdict = Some(single::is_greater(LOSS_GOAL, loss));
        }
        self.step = self.step + 1;
        r
    }
}

/// The result of a run that saw `losses`, one for each step, up to step `n`.
pub open spec fn result(losses: Seq<u32>, n: nat) -> Option<bool>
    decreases n,
{
    if n == 0 {
        None
    } else {
        match result(losses, (n - 1) as nat) {
            Some(r) => Some(r),
            None => verdict_after(n - 1, losses[n - 1]),
        }
    }
}

proof fn lemma_result(losses: Seq<u32>, n: nat)
    requires
        n <= losses.len(),
        n <= STEPS,
    ensures
        result(losses, n) is None <==> n < STEPS && forall|i: int|
            0 <= i < n ==> !single::nan(#[trigger] losses[i]),
        result(losses, n) == Some(true) <==> {
            &&& n == STEPS
            &&& forall|i: int| 0 <= i < n ==> !single::nan(#[trigger] losses[i])
            &&& single::greater(LOSS_GOAL, losses[n - 1])
        },
    decreases n,
{
    if n > 0 {
        lemma_result(losses, (n - 1) as nat);
        if forall|i: int| 0 <= i < n - 1 ==> !single::nan(#[trigger] losses[i]) {
            assert(forall|i: int|
                0 <= i < n ==> (!single::nan(#[trigger] losses[i]) <== i < n - 1 || !single::nan(
                    losses[n - 1],
                )));
        }
    }
}

/// A run ends at its last step at the latest, and passes exactly if every loss is
/// a number and the last one is below the goal.
pub proof fn memorization_ends(losses: Seq<u32>)
    requires
        losses.len() == STEPS,
    ensures
        result(losses, STEPS as nat) is Some,
        result(losses, STEPS as nat) == Some(true) <==> single::all_numbers(losses)
            && single::greater(LOSS_GOAL, losses[STEPS - 1]),
{
    lemma_result(losses, STEPS as nat);
}

proof fn lemma_window_bounds(step: int, n: nat, k: int)
    requires
        n <= BATCH_SIZE,
        0 <= k < windows_actions(step, n).len(),
        windows_actions(step, n)[k] is Window,
    ensures
        windows_actions(step, n)[k]->to == windows_actions(step, n)[k]->from + SEQ_LEN,
        windows_actions(step, n)[k]->to <= BATCH_SIZE * SEQ_LEN,
    decreases n,
{
    let before = windows_actions(step, (n - 1) as nat);
    if k < before.len() {
        lemma_window_bounds(step, (n - 1) as nat, k);
    } else {
        assert(windows_actions(step, n)[k] == window_actions(step, n - 1)[k - before.len()]);
    }
}

/// Every window of a step lies inside the batch.
pub proof fn windows_stay_inside(step: int, use_clip: bool, k: int)
    requires
        0 <= k < step_actions(step, use_clip).len(),
        step_actions(step, use_clip)[k] is Window,
    ensures
        step_actions(step, use_clip)[k]->to == step_actions(step, use_clip)[k]->from + SEQ_LEN,
        step_actions(step, use_clip)[k]->to <= BATCH_SIZE * SEQ_LEN,
{
    let w = windows_actions(step, BATCH_SIZE as nat);
    if 1 <= k < 1 + w.len() {
        assert(step_actions(step, use_clip)[k] == w[k - 1]);
        lemma_window_bounds(step, BATCH_SIZE as nat, k - 1);
    }
}

} // verus!
