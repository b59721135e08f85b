use akasha_core::config::{ModelConfig, TrainConfig};
use akasha_core::diagnostic::{
    report, run_all, select, summary, vocab_size, DiagnosticCheck, Outcome, Selection,
};
use akasha_core::error::AkashaError;
use akasha_core::nn::memorization;
use akasha_core::nn::memorization::{Action, Memorization};
use akasha_core::training_run::{
    checkpoint_name, checkpoint_step, config_json, find_latest_checkpoint, prompt_of, wants_chat,
    TrainingRun,
};

fn strings(v: &[&str]) -> Vec<String> {
    v.iter().map(|s| s.to_string()).collect()
}

#[test]
fn the_latest_checkpoint_is_found() {
    assert_eq!(checkpoint_name(3000), "model_step_3000.bin");
    assert_eq!(checkpoint_step("model_step_3000.bin"), Some(3000));
    assert_eq!(checkpoint_step("model_step_.bin"), None);
    assert_eq!(checkpoint_step("model_final.bin"), None);
    assert_eq!(checkpoint_step("model_step_12.bin.tmp"), None);
    let names = strings(&[
        "model_step_1000.bin",
        "model_step_20000.bin",
        "config.json",
        "model_step_020000.bin",
        "model_step_3.bin",
    ]);
    assert_eq!(find_latest_checkpoint(&names), Some((3, 20000)));
    assert_eq!(find_latest_checkpoint(&strings(&["a", "model_final.bin"])), None);
}

#[test]
fn a_run_resumes_behind_its_checkpoint() {
    let step = checkpoint_step(&checkpoint_name(1000));
    assert_eq!(TrainingRun::start(step).step, 1001);
    assert_eq!(TrainingRun::start(None).step, 0);
    assert_eq!(TrainingRun::start(None).best_loss, f32::MAX.to_bits());
}

#[test]
fn steps_log_and_save_on_their_turn() {
    let cfg = TrainConfig::hall1_pretrain();
    let mut run = TrainingRun::start(None);
    let first = run.observe(Some(5.0f32.to_bits()), &cfg);
    assert!(first.log && !first.save && !first.stop);
    assert_eq!(run.best_loss, 5.0f32.to_bits());
    run.step = 1000;
    let t = run.observe(Some(6.0f32.to_bits()), &cfg);
    assert!(t.log && t.save && !t.stop);
    assert_eq!(run.best_loss, 5.0f32.to_bits());
    let t = run.observe(None, &cfg);
    assert!(!t.log && !t.save && !t.stop);
    run.step = 2000;
    let t = run.observe(Some(f32::NAN.to_bits()), &cfg);
    assert!(t.log && t.stop && !t.save);
    run.step = 2001;
    assert!(run.observe(Some(f32::INFINITY.to_bits()), &cfg).stop);
    run.step = cfg.max_steps;
    assert!(!run.wants(&cfg));
}

#[test]
fn the_record_of_a_run_is_json() {
    let text = config_json(&ModelConfig::akasha_hall_1(), 3_000_000, "2.5000");
    assert_eq!(
        text,
        "{\n  \"dim\": 768,\n  \"num_layers\": 12,\n  \"seq_len\": 512,\n  \"ffn_hidden\": 3072,\n  \
         \"vocab_size\": 50257,\n  \"trained_steps\": 3000000,\n  \"best_loss\": 2.5000\n}"
    );
    assert!(wants_chat(&strings(&["prog", "--chat"])));
    assert!(!wants_chat(&strings(&["prog", "--chats"])));
    assert_eq!(prompt_of("  hello \n").as_deref(), Some("hello"));
    assert!(prompt_of(" \t\n").is_none());
}

struct Fixed(&'static str, bool);

impl DiagnosticCheck for Fixed {
    fn name(&self) -> &'static str {
        self.0
    }

    fn run(&self) -> bool {
        self.1
    }
}

#[test]
fn checks_are_run_and_reported() {
    let checks: Vec<Box<dyn DiagnosticCheck>> = vec![
        Box::new(Fixed("CHECK 1 (param count)", true)),
        Box::new(Fixed("CHECK 6 (weight decay groups, advisory)", false)),
    ];
    let (outcomes, r) = run_all(&checks);
    assert_eq!(outcomes.len(), 2);
    assert!(outcomes[0].pass && !outcomes[1].pass);
    assert!(!r.pass);
    assert_eq!(
        r.lines,
        [
            format!("{:<32} {}", "CHECK 1 (param count)", "PASS"),
            format!("{:<32} {}", "CHECK 6 (weight decay groups, advisory)", "FAIL"),
        ]
    );
    assert!(report(&vec![Outcome { name: "x", pass: true }]).pass);
    assert!(report(&Vec::new()).pass);
}

#[test]
fn the_full_set_of_checks_is_summed_up() {
    assert_eq!(select(true, true), Selection::OnlyMemorization);
    assert_eq!(select(false, true), Selection::OnlyCache);
    assert_eq!(select(false, false), Selection::All);
    assert_eq!(vocab_size(Some("1000"), 50257), 1000);
    assert_eq!(vocab_size(Some("4294967296"), 50257), 50257);
    assert_eq!(vocab_size(Some("x"), 50257), 50257);
    assert_eq!(vocab_size(None, 50257), 50257);
    let mut passes = vec![true; 9];
    passes[5] = false;
    let s = summary(&passes, 124_439_808);
    assert_eq!(s.len(), 10);
    assert_eq!(s[0], "CHECK 1 (param count):          PASS -- 124439808 parameters");
    assert_eq!(s[5], "CHECK 6 (weight decay groups):  FAIL (advisory)");
    assert_eq!(s[8], "CHECK 9 (KV-cache equivalence):  PASS");
    assert_eq!(s[9], "CHECK 10 (KV-cache speed):       informational, see above");
}

#[test]
fn a_memorization_run_goes_through_its_batch() {
    let run = Memorization::new();
    let first = run.actions(false);
    assert_eq!(first.len(), 2 + 4 * 5 + 1);
    assert_eq!(first[0], Action::ZeroGrad);
    assert_eq!(first[1], Action::Window { from: 0, to: 16 });
    assert_eq!(first[4], Action::ReportForward);
    assert_eq!(first[22], Action::Optimize);
    let later = Memorization { step: 1, verdict: None }.actions(true);
    let windows: Vec<Action> =
        later.iter().copied().filter(|a| matches!(a, Action::Window { .. })).collect();
    assert_eq!(windows[3], Action::Window { from: 48, to: 64 });
    assert_eq!(&later[later.len() - 2..], &[Action::Clip, Action::Optimize]);
    assert_eq!(memorization::LOSS_GOAL, 0.1f32.to_bits());
    assert_eq!(memorization::config(), ModelConfig::new(100, 64, 4, 1, 16));
}

#[test]
fn a_memorization_run_ends_with_a_result() {
    for (last, pass) in [(0.05f32, true), (0.1, false), (2.0, false)] {
        let mut run = Memorization::new();
        let mut logged = 0;
        while run.verdict.is_none() {
            let loss = if run.step == 599 { last } else { 3.0 };
            if run.observe(loss.to_bits()).log {
                logged += 1;
            }
        }
        assert_eq!(run.step, 600);
        assert_eq!(run.verdict, Some(pass));
        assert_eq!(logged, 16);
    }
    let mut run = Memorization::new();
    let r = run.observe(1.0f32.to_bits());
    assert!(r.detail && r.fingerprint && !r.nan);
    let r = run.observe(f32::NAN.to_bits());
    assert!(r.nan && !r.detail && r.fingerprint);
    assert_eq!(run.verdict, Some(false));
}

#[test]
fn refusals_say_why() {
    assert_eq!(AkashaError::EmptyPrompt.message(), "prompt is empty");
    assert_eq!(
        AkashaError::PromptTooLong { len: 9, max: 8 }.message(),
        "prompt is 9 tokens, context window is 8"
    );
    assert_eq!(AkashaError::ContextFull { max: 8 }.message(), "context window is full (8 tokens)");
    assert_eq!(
        AkashaError::NoCache.message(),
        "no cache attached (call replace_cache or generate first)"
    );
    assert_eq!(
        AkashaError::CacheNotEmpty { cur_len: 3 }.message(),
        "prefill needs an empty cache, this one holds 3 tokens (loop decode_step for a resumed cache)"
    );
}
