//! Model shapes, training profiles and the learning-rate schedule.
use crate::device::Scalar;
use crate::text::same_text;
use vstd::prelude::*;

verus! {

#[derive(Clone, Copy, Debug, PartialEq, Eq, Structural)]
pub struct ModelConfig {
    pub vocab_size: u32,
    pub dim: u32,
    pub num_heads: u32,
    pub num_layers: usize,
    pub seq_len: u32,
    pub ffn_hidden: u32,
    pub norm_eps: Scalar,
    pub batch_size: u32,
    pub eos_token: u32,
}

/// Width of a head that the flash-attention kernels assume.
pub const FLASH_HEAD_DIM: u32 = 64;

impl ModelConfig {
    /// What every configuration made by `new` satisfies.
    pub open spec fn wf(self) -> bool {
        &&& self.num_layers >= 1
        &&& self.num_heads > 0
        &&& self.dim % self.num_heads == 0
        &&& self.ffn_hidden == 4 * self.dim
        &&& self.batch_size >= 1
        &&& self.eos_token + 1 == self.vocab_size
    }

    pub open spec fn spec_new(
        vocab_size: u32,
        dim: u32,
        num_heads: u32,
        num_layers: usize,
        seq_len: u32,
    ) -> Self {
        ModelConfig {
            vocab_size,
            dim,
            num_heads,
            num_layers,
            seq_len,
            ffn_hidden: (dim * 4) as u32,
            norm_eps: Scalar::Dec { digits: 1, places: 5 },
            batch_size: 1,
            eos_token: (vocab_size - 1) as u32,
        }
    }

    /// At least one layer is required, and the heads must divide `dim`.
    pub fn new(vocab_size: u32, dim: u32, num_heads: u32, num_layers: usize, seq_len: u32) -> (r: Self)
        requires
            num_layers >= 1,
            num_heads > 0,
            dim % num_heads == 0,
            dim * 4 <= u32::MAX,
            vocab_size >= 1,
        ensures
            r == Self::spec_new(vocab_size, dim, num_heads, num_layers, seq_len),
            r.wf(),
    {
        Self {
            vocab_size,
            dim,
            num_heads,
            num_layers,
            seq_len,
            ffn_hidden: dim * 4,
            norm_eps: Scalar::Dec { digits: 1, places: 5 },
            batch_size: 1,
            // <|endoftext|> is the last vocab id.
            eos_token: vocab_size - 1,
        }
    }

    pub fn with_batch_size(self, batch_size: u32) -> (r: Self)
        requires
            batch_size >= 1,
        ensures
            r == (Self { batch_size, ..self }),
            self.wf() ==> r.wf(),
    {
        Self { batch_size, ..self }
    }

    pub open spec fn spec_head_dim(self) -> u32 {
        (self.dim as int / self.num_heads as int) as u32
    }

    /// Width of one attention head.
    pub fn head_dim(&self) -> (r: u32)
        requires
            self.num_heads > 0,
        ensures
            r == self.spec_head_dim(),
    {
        self.dim / self.num_heads
    }

    pub open spec fn spec_akasha_hall_1() -> Self {
        Self::spec_new(50257, 768, 12, 12, 512)
    }

    pub fn akasha_hall_1() -> (r: Self)
        ensures
            r == Self::spec_akasha_hall_1(),
            r.wf(),
            r.spec_head_dim() == FLASH_HEAD_DIM,
    {
        Self::new(50257, 768, 12, 12, 512)
    }

    pub open spec fn spec_pidgeon() -> Self {
        Self::spec_new(50257, 320, 5, 8, 512)
    }

    pub fn pidgeon() -> (r: Self)
        ensures
            r == Self::spec_pidgeon(),
            r.wf(),
            r.spec_head_dim() == FLASH_HEAD_DIM,
    {
        Self::new(50257, 320, 5, 8, 512)
    }
}

/// A training profile.
#[derive(Clone, Copy, Debug, PartialEq)]
pub struct TrainConfig {
    pub name: &'static str,
    pub batch_size: usize,
    pub accumulation_steps: usize,
    pub lr_max: Scalar,
    pub lr_min: Scalar,
    pub warmup_steps: usize,
    pub max_steps: usize,
    pub save_every: usize,
    pub log_every: usize,
    pub eval_every: usize,
    pub eval_windows: usize,
    pub adam_weight_decay: Scalar,
    pub grad_clip_norm: Scalar,
    pub train_bf16_matmul: bool,
}

impl TrainConfig {
    pub open spec fn spec_hall1_pretrain() -> Self {
        Self {
            name: "hall1_pretrain",
            batch_size: 2,
            accumulation_steps: 32,
            lr_max: Scalar::Dec { digits: 6, places: 5 },
            lr_min: Scalar::Dec { digits: 6, places: 6 },
            warmup_steps: 1000,
            max_steps: 3_000_000,
            save_every: 1000,
            log_every: 50,
            eval_every: 1000,
            eval_windows: 32,
            adam_weight_decay: Scalar::Dec { digits: 1, places: 2 },
            grad_clip_norm: Scalar::Dec { digits: 1, places: 0 },
            train_bf16_matmul: true,
        }
    }

    /// Effective batch: 64 windows.
    pub fn hall1_pretrain() -> (r: Self)
        ensures
            r == Self::spec_hall1_pretrain(),
    {
        Self {
            name: "hall1_pretrain",
            batch_size: 2,
            accumulation_steps: 32,
            lr_max: Scalar::Dec { digits: 6, places: 5 },
            lr_min: Scalar::Dec { digits: 6, places: 6 },
            warmup_steps: 1000,
            max_steps: 3_000_000,
            save_every: 1000,
            log_every: 50,
            eval_every: 1000,
            eval_windows: 32,
            adam_weight_decay: Scalar::Dec { digits: 1, places: 2 },
            grad_clip_norm: Scalar::Dec { digits: 1, places: 0 },
            train_bf16_matmul: true,
        }
    }

    pub open spec fn spec_dolly_finetune() -> Self {
        Self {
            name: "dolly_finetune",
            lr_max: Scalar::Dec { digits: 3, places: 5 },
            lr_min: Scalar::Dec { digits: 3, places: 6 },
            warmup_steps: 40,
            max_steps: 800,
            save_every: 50,
            log_every: 10,
            eval_every: 25,
            ..Self::spec_hall1_pretrain()
        }
    }

    pub fn dolly_finetune() -> (r: Self)
        ensures
            r == Self::spec_dolly_finetune(),
    {
        Self {
            name: "dolly_finetune",
            batch_size: 2,
            accumulation_steps: 32,
            lr_max: Scalar::Dec { digits: 3, places: 5 },
            lr_min: Scalar::Dec { digits: 3, places: 6 },
            warmup_steps: 40,
            max_steps: 800,
            save_every: 50,
            log_every: 10,
            eval_every: 25,
            eval_windows: 32,
            adam_weight_decay: Scalar::Dec { digits: 1, places: 2 },
            grad_clip_norm: Scalar::Dec { digits: 1, places: 0 },
            train_bf16_matmul: true,
        }
    }

    pub open spec fn spec_pidgeon_pretrain() -> Self {
        Self {
            name: "pidgeon_pretrain",
            batch_size: 10,
            accumulation_steps: 6,
            max_steps: 200_000,
            ..Self::spec_hall1_pretrain()
        }
    }

    /// Effective batch: 60 windows.
    pub fn pidgeon_pretrain() -> (r: Self)
        ensures
            r == Self::spec_pidgeon_pretrain(),
    {
        Self {
            name: "pidgeon_pretrain",
            batch_size: 10,
            accumulation_steps: 6,
            lr_max: Scalar::Dec { digits: 6, places: 5 },
            lr_min: Scalar::Dec { digits: 6, places: 6 },
            warmup_steps: 1000,
            max_steps: 200_000,
            save_every: 1000,
            log_every: 50,
            eval_every: 1000,
            eval_windows: 32,
            adam_weight_decay: Scalar::Dec { digits: 1, places: 2 },
            grad_clip_norm: Scalar::Dec { digits: 1, places: 0 },
            train_bf16_matmul: true,
        }
    }
}

/// The model and training settings that a profile name stands for.
pub open spec fn profile_of(name: Seq<char>) -> Option<(ModelConfig, TrainConfig)> {
    if name == "hall1_pretrain"@ {
        Some((ModelConfig::spec_akasha_hall_1(), TrainConfig::spec_hall1_pretrain()))
    } else if name == "dolly_finetune"@ {
        Some((ModelConfig::spec_akasha_hall_1(), TrainConfig::spec_dolly_finetune()))
    } else if name == "pidgeon_pretrain"@ {
        Some((ModelConfig::spec_pidgeon(), TrainConfig::spec_pidgeon_pretrain()))
    } else {
        None
    }
}

pub fn resolve_profile(name: &str) -> (r: Option<(ModelConfig, TrainConfig)>)
    ensures
        r == profile_of(name@),
{
    if same_text(name, "hall1_pretrain") {
        Some((ModelConfig::akasha_hall_1(), TrainConfig::hall1_pretrain()))
    } else if same_text(name, "dolly_finetune") {
        Some((ModelConfig::akasha_hall_1(), TrainConfig::dolly_finetune()))
    } else if same_text(name, "pidgeon_pretrain") {
        Some((ModelConfig::pidgeon(), TrainConfig::pidgeon_pretrain()))
    } else {
        None
    }
}

/// A known profile carries the name it is looked up by, and its model keeps
/// the head width of the flash kernels.
pub proof fn profile_keeps_name(name: Seq<char>)
    ensures
        profile_of(name) matches Some(p) ==> {
            &&& p.1.name@ == name
            &&& p.0.wf()
            &&& p.0.spec_head_dim() == FLASH_HEAD_DIM
        },
{
    let h = ModelConfig::spec_akasha_hall_1();
    let p = ModelConfig::spec_pidgeon();
    assert(h.wf());
    assert(p.wf());
    assert(h.spec_head_dim() == FLASH_HEAD_DIM);
    assert(p.spec_head_dim() == FLASH_HEAD_DIM);
}

/// Where a training step stands in the learning-rate schedule.
#[derive(Clone, Copy, Debug, PartialEq, Eq, Structural)]
pub enum LrPhase {
    /// Linear rise: the rate is `lr_max * num / den`.
    Warmup { num: usize, den: usize },
    /// Cosine fall: the rate is
    /// `lr_min + (lr_max - lr_min) / 2 * (1 + cos(pi * num / den))`.
    Decay { num: usize, den: usize },
}

pub open spec fn spec_lr_phase(step: usize, warmup_steps: usize, max_steps: usize) -> LrPhase {
    if step < warmup_steps {
        LrPhase::Warmup { num: step, den: warmup_steps }
    } else if max_steps <= warmup_steps || step >= max_steps {
        LrPhase::Decay { num: 1, den: 1 }
    } else {
        LrPhase::Decay {
            num: (step - warmup_steps) as usize,
            den: (max_steps - warmup_steps) as usize,
        }
    }
}

/// The schedule's phase and progress at `step`. Past `max_steps` the progress
/// stays at one, so that the cosine does not climb back; a schedule without a
/// decay stretch is at its end right after the warmup.
pub fn lr_phase(step: usize, warmup_steps: usize, max_steps: usize) -> (r: LrPhase)
    ensures
        r == spec_lr_phase(step, warmup_steps, max_steps),
{
    if step < warmup_steps {
        return LrPhase::Warmup { num: step, den: warmup_steps };
    }
    if max_steps > warmup_steps {
        if step >= max_steps {
            LrPhase::Decay { num: 1, den: 1 }
        } else {
            LrPhase::Decay { num: step - warmup_steps, den: max_steps - warmup_steps }
        }
    } else {
        LrPhase::Decay { num: 1, den: 1 }
    }
}

/// The progress never leaves `[0, 1]`, never falls within the decay, and
/// nothing divides by zero.
pub proof fn lr_progress_is_monotone(step: usize, later: usize, warmup_steps: usize, max_steps: usize)
    requires
        step <= later,
    ensures
        spec_lr_phase(step, warmup_steps, max_steps) matches LrPhase::Decay { num, den } ==> {
            &&& 0 <= num <= den
            &&& den > 0
            &&& spec_lr_phase(later, warmup_steps, max_steps) matches LrPhase::Decay {
                num: num2,
                den: den2,
            } && num * den2 <= num2 * den
        },
        spec_lr_phase(step, warmup_steps, max_steps) matches LrPhase::Warmup { num, den } ==> num
            < den,
{
    if let LrPhase::Decay { num, den } = spec_lr_phase(step, warmup_steps, max_steps) {
        if let LrPhase::Decay { num: num2, den: den2 } = spec_lr_phase(
            later,
            warmup_steps,
            max_steps,
        ) {
            assert(num * den2 <= num2 * den) by (nonlinear_arith)
                requires
                    num <= den,
                    (num <= num2 && den == den2) || (num2 == 1 && den2 == 1),
            ;
        }
    }
}

} // verus!
