//! The decisions of a training run: which checkpoint it resumes from, and what
//! each step logs and saves.
use crate::config::{ModelConfig, TrainConfig};
use crate::data::shard;
use crate::single;
use crate::text;
use crate::text::{parse_usize, same_text, trim, write_decimal};
use vstd::prelude::*;

verus! {

// ---- checkpoint files ----

/// The name of the checkpoint file written at `step`.
pub open spec fn spec_checkpoint_name(step: nat) -> Seq<char> {
    "model_step_"@ + text::decimal(step) + ".bin"@
}

pub fn checkpoint_name(step: usize) -> (r: String)
    ensures
        r@ == spec_checkpoint_name(step as nat),
{
    let mut r = String::from_str("model_step_");
    let n = write_decimal(step as u64);
    r.append(n.as_str());
    r.append(".bin");
    r
}

/// The step in the name of a checkpoint file; `None` for any other name.
pub open spec fn step_in_name(name: Seq<char>) -> Option<usize> {
    match shard::spec_between(name, "model_step_"@, ".bin"@) {
        Some(mid) => text::spec_parse_usize(mid),
        None => None,
    }
}

pub fn checkpoint_step(name: &str) -> (r: Option<usize>)
    ensures
        r == step_in_name(name@),
{
    match shard::between(name, "model_step_", ".bin") {
        Some(mid) => parse_usize(&mid),
        None => None,
    }
}

/// A checkpoint that was written at a step is found with that step.
pub proof fn written_checkpoint_is_found(step: usize)
    ensures
        step_in_name(spec_checkpoint_name(step as nat)) == Some(step),
{
    let p = "model_step_"@;
    let q = ".bin"@;
    let mid = text::decimal(step as nat);
    let n = spec_checkpoint_name(step as nat);
    assert(n.subrange(0, p.len() as int) =~= p);
    let rest = n.subrange(p.len() as int, n.len() as int);
    assert(rest.subrange(rest.len() - q.len(), rest.len() as int) =~= q);
    assert(n.subrange(p.len() as int, n.len() - q.len()) =~= mid);
    text::decimal_round_trip(step);
}

/// The position and the step of the checkpoint with the largest step; the last
/// one, where several names hold it.
pub fn find_latest_checkpoint(names: &Vec<String>) -> (r: Option<(usize, usize)>)
    ensures
        match r {
            Some((at, step)) => {
                &&& at < names@.len()
                &&& step_in_name(names@[at as int]@) == Some(step)
                &&& forall|i: int|
                    0 <= i < names@.len() && step_in_name((#[trigger] names@[i])@) is Some ==> {
                        let s = step_in_name(names@[i]@)->0;
                        s < step || s == step && i <= at
                    }
            },
            None => forall|i: int|
                0 <= i < names@.len() ==> step_in_name((#[trigger] names@[i])@) is None,
        },
{
    let mut best: Option<(usize, usize)> = None;
    let mut i: usize = 0;
    while i < names.len()
        invariant
            i <= names@.len(),
            match best {
                Some((at, step)) => {
                    &&& at < i
                    &&& step_in_name(names@[at as int]@) == Some(step)
                    &&& forall|k: int|
                        0 <= k < i && step_in_name((#[trigger] names@[k])@) is Some ==> {
                            let s = step_in_name(names@[k]@)->0;
                            s < step || s == step && k <= at
                        }
                },
                None => forall|k: int|
                    0 <= k < i ==> step_in_name((#[trigger] names@[k])@) is None,
            },
        decreases names@.len() - i,
    {
        if let Some(step) = checkpoint_step(names[i].as_str()) {
            match best {
                Some((_, most)) => {
                    if step >= most {
                        best = Some((i, step));
                    }
                },
                None => {
                    best = Some((i, step));
                },
            }
        }
        i = i + 1;
    }
    best
}

// ---- steps ----

/// What follows a step.
#[derive(Clone, Copy, Debug, PartialEq, Eq, Structural)]
pub struct Tasks {
    /// Print the step's loss.
    pub log: bool,
    /// The loss is no finite number: end the run with an error.
    pub stop: bool,
    /// Write a checkpoint.
    pub save: bool,
}

/// A run: the step that comes next, and the lowest loss so far, as bits.
#[derive(Clone, Copy, Debug, PartialEq, Eq, Structural)]
pub struct TrainingRun {
    pub step: usize,
    pub best_loss: u32,
}

/// The bits of the largest finite number.
pub const MAX_LOSS: u32 = 0x7f7f_ffff;

/// What follows step `step`, of which `loss` was read, if any was.
pub open spec fn tasks_after(step: int, loss: Option<u32>, cfg: TrainConfig) -> Tasks {
    let stop = loss is Some && single::magnitude(loss->0) >= single::INFINITY;
    Tasks {
        log: loss is Some && step % (cfg.log_every as int) == 0,
        stop,
        save: !stop && step > 0 && step % (cfg.save_every as int) == 0,
    }
}

/// The lower of `best` and the loss that was read.
pub open spec fn lower_loss(best: u32, loss: Option<u32>) -> u32 {
    if loss is Some && single::greater(best, loss->0) {
        loss->0
    } else {
        best
    }
}

/// The first step of a run that resumes from the checkpoint of step `resumed`, or
/// starts afresh.
pub open spec fn first_step(resumed: Option<usize>) -> int {
    match resumed {
        Some(step) => step + 1,
        None => 0,
    }
}

impl TrainingRun {
    /// A run that goes on behind the checkpoint of step `resumed`, or starts
    /// afresh.
    pub fn start(resumed: Option<usize>) -> (r: Self)
        requires
            resumed is Some ==> resumed->0 < usize::MAX,
        ensures
            r.step == first_step(resumed),
            r.best_loss == MAX_LOSS,
    {
        let step: usize = match resumed {
            Some(s) => s + 1,
            None => 0,
        };
        TrainingRun { step, best_loss: MAX_LOSS }
    }

    /// Whether another step is to run.
    pub fn wants(&self, cfg: &TrainConfig) -> (r: bool)
        ensures
            r == (self.step < cfg.max_steps),
    {
        self.step < cfg.max_steps
    }

    /// Takes in the loss that was read at the current step and goes on to the
    /// next.
    pub fn observe(&mut self, loss: Option<u32>, cfg: &TrainConfig) -> (r: Tasks)
        requires
            cfg.log_every > 0,
            cfg.save_every > 0,
            old(self).step < usize::MAX,
        ensures
            r == tasks_after(old(self).step as int, loss, *cfg),
            final(self).step == old(self).step + 1,
            final(self).best_loss == lower_loss(old(self).best_loss, loss),
    {
        let mut tasks = Tasks {
            log: false,
            stop: false,
            save: self.step > 0 && self.step % cfg.save_every == 0,
        };
        if let Some(l) = loss {
            if single::is_greater(self.best_loss, l) {
                self.best_loss = l;
            }
            tasks.log = self.step % cfg.log_every == 0;
            if !single::is_finite(l) {
                tasks.stop = true;
                tasks.save = false;
            }
        }
        self.step = self.step + 1;
        tasks
    }
}

/// A run that resumes from the checkpoint written at a step goes on with the next
/// step.
pub proof fn resume_follows_save(step: usize)
    ensures
        first_step(step_in_name(spec_checkpoint_name(step as nat))) == step + 1,
{
    written_checkpoint_is_found(step);
}

/// The run's record: the architecture, the steps, and the lowest loss in the
/// digits given.
pub open spec fn spec_config_json(cfg: ModelConfig, steps: nat, best_loss: Seq<char>) -> Seq<char> {
    "{\n  \"dim\": "@ + text::decimal(cfg.dim as nat) + ",\n  \"num_layers\": "@ + text::decimal(
        cfg.num_layers as nat,
    ) + ",\n  \"seq_len\": "@ + text::decimal(cfg.seq_len as nat) + ",\n  \"ffn_hidden\": "@
        + text::decimal(cfg.ffn_hidden as nat) + ",\n  \"vocab_size\": "@ + text::decimal(
        cfg.vocab_size as nat,
    ) + ",\n  \"trained_steps\": "@ + text::decimal(steps) + ",\n  \"best_loss\": "@ + best_loss
        + "\n}"@
}

pub fn config_json(cfg: &ModelConfig, steps: usize, best_loss: &str) -> (r: String)
    ensures
        r@ == spec_config_json(*cfg, steps as nat, best_loss@),
{
    let mut r = String::from_str("{\n  \"dim\": ");
    r.append(write_decimal(cfg.dim as u64).as_str());
    r.append(",\n  \"num_layers\": ");
    r.append(write_decimal(cfg.num_layers as u64).as_str());
    r.append(",\n  \"seq_len\": ");
    r.append(write_decimal(cfg.seq_len as u64).as_str());
    r.append(",\n  \"ffn_hidden\": ");
    r.append(write_decimal(cfg.ffn_hidden as u64).as_str());
    r.append(",\n  \"vocab_size\": ");
    r.append(write_decimal(cfg.vocab_size as u64).as_str());
    r.append(",\n  \"trained_steps\": ");
    r.append(write_decimal(steps as u64).as_str());
    r.append(",\n  \"best_loss\": ");
    r.append(best_loss);
    r.append("\n}");
    r
}

// ---- the command line and the prompt ----

/// Some argument is `name`.
pub open spec fn has_flag(args: Seq<String>, name: Seq<char>) -> bool {
    exists|i: int| 0 <= i < args.len() && (#[trigger] args[i])@ == name
}

/// Whether the arguments ask for a chat.
pub fn wants_chat(args: &Vec<String>) -> (r: bool)
    ensures
        r == has_flag(args@, "--chat"@),
{
    let mut i: usize = 0;
    while i < args.len()
        invariant
            i <= args@.len(),
            forall|k: int| 0 <= k < i ==> (#[trigger] args@[k])@ != "--chat"@,
        decreases args@.len() - i,
    {
        if same_text(args[i].as_str(), "--chat") {
            assert(args@[i as int]@ == "--chat"@);
            return true;
        }
        i = i + 1;
    }
    false
}

/// The prompt in a line of input: the line without the white space around it, if
/// anything is left.
pub fn prompt_of(line: &str) -> (r: Option<String>)
    ensures
        match r {
            Some(p) => p@ == text::spec_trim(line@) && p@.len() > 0,
            None => text::spec_trim(line@).len() == 0,
        },
{
    let p = trim(line);
    if p.as_str().unicode_len() == 0 {
        None
    } else {
        Some(p)
    }
}

} // verus!
