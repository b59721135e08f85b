use akasha_core::config::{lr_phase, resolve_profile, LrPhase, ModelConfig, TrainConfig};
use akasha_core::device::Scalar;
use akasha_core::READ_LOSS;

fn cosine_lr(step: usize, warmup_steps: usize, max_steps: usize, lr_max: f32, lr_min: f32) -> f32 {
    match lr_phase(step, warmup_steps, max_steps) {
        LrPhase::Warmup { num, den } => lr_max * num as f32 / den as f32,
        LrPhase::Decay { num, den } => {
            let progress = num as f32 / den as f32;
            lr_min + 0.5 * (lr_max - lr_min) * (1.0 + (std::f32::consts::PI * progress).cos())
        }
    }
}

#[test]
fn cosine_lr_boundaries() {
    let (warmup, max, lr_max, lr_min) = (10, 100, 1.0, 0.1);

    assert_eq!(cosine_lr(0, warmup, max, lr_max, lr_min), 0.0);
    assert!((cosine_lr(warmup, warmup, max, lr_max, lr_min) - lr_max).abs() < 1e-6);
    assert!((cosine_lr(max, warmup, max, lr_max, lr_min) - lr_min).abs() < 1e-6);

    // Past max_steps the LR must stay pinned at lr_min, not climb back.
    for step in [max + 1, max + 50, max * 10] {
        let lr = cosine_lr(step, warmup, max, lr_max, lr_min);
        assert!(
            (lr - lr_min).abs() < 1e-6,
            "lr climbed back after max_steps: step={step} lr={lr}"
        );
    }

    // Degenerate config: max_steps == warmup_steps must not produce NaN.
    let lr = cosine_lr(warmup, warmup, warmup, lr_max, lr_min);
    assert!(lr.is_finite());
    assert!((lr - lr_min).abs() < 1e-6);
}

#[test]
fn resolve_profile_known_names_roundtrip() {
    for name in ["hall1_pretrain", "dolly_finetune", "pidgeon_pretrain"] {
        let (_, train) = resolve_profile(name).unwrap_or_else(|| panic!("missing profile: {name}"));
        assert_eq!(train.name, name);
    }
    assert!(resolve_profile("nonexistent").is_none());
}

#[test]
fn named_model_profiles_pass_head_dim_guard() {
    assert_eq!(ModelConfig::akasha_hall_1().head_dim(), 64);
    assert_eq!(ModelConfig::pidgeon().head_dim(), 64);
}

#[test]
fn phases_of_the_schedule() {
    assert_eq!(lr_phase(3, 10, 100), LrPhase::Warmup { num: 3, den: 10 });
    assert_eq!(lr_phase(10, 10, 100), LrPhase::Decay { num: 0, den: 90 });
    assert_eq!(lr_phase(55, 10, 100), LrPhase::Decay { num: 45, den: 90 });
    assert_eq!(lr_phase(100, 10, 100), LrPhase::Decay { num: 1, den: 1 });
    assert_eq!(lr_phase(7, 0, 0), LrPhase::Decay { num: 1, den: 1 });
}

#[test]
fn a_config_derives_its_other_sizes() {
    let cfg = ModelConfig::new(100, 64, 4, 1, 16);
    assert_eq!(cfg.ffn_hidden, 256);
    assert_eq!(cfg.eos_token, 99);
    assert_eq!(cfg.batch_size, 1);
    assert_eq!(cfg.norm_eps, Scalar::Dec { digits: 1, places: 5 });
    assert_eq!(cfg.head_dim(), 16);
    assert_eq!(cfg.with_batch_size(3).batch_size, 3);
}

#[test]
fn profiles_hold_their_values() {
    let h = TrainConfig::hall1_pretrain();
    assert_eq!((h.batch_size, h.accumulation_steps, h.max_steps), (2, 32, 3_000_000));
    assert_eq!(h.lr_max, Scalar::Dec { digits: 6, places: 5 });
    let d = TrainConfig::dolly_finetune();
    assert_eq!((d.warmup_steps, d.max_steps, d.save_every, d.log_every, d.eval_every), (40, 800, 50, 10, 25));
    assert_eq!(d.lr_min, Scalar::Dec { digits: 3, places: 6 });
    let p = TrainConfig::pidgeon_pretrain();
    assert_eq!((p.batch_size, p.accumulation_steps, p.max_steps), (10, 6, 200_000));
    assert_eq!(READ_LOSS, 50);
}
