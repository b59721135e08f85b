use akasha_core::dashboard::{
    command_of, parse_command, parse_flag, repeat_tokens, Command, Dashboard,
};
use akasha_core::overfit;
use akasha_core::overfit::{
    accept, argmax_excluding, parse_prompt, reply, sentence_tokens, window, word_id, word_of,
    Prompt, Reply,
};

fn args(v: &[&str]) -> Vec<String> {
    v.iter().map(|s| s.to_string()).collect()
}

#[test]
fn flags_take_the_argument_behind_them() {
    let a = args(&["prog", "--lr", "0.01", "--load", "x.bin", "--lr", "1"]);
    assert_eq!(parse_flag(&a, "--lr").map(|s| s.as_str()), Some("0.01"));
    assert_eq!(parse_flag(&a, "--load").map(|s| s.as_str()), Some("x.bin"));
    assert!(parse_flag(&a, "--other").is_none());
    assert!(parse_flag(&args(&["prog", "--lr"]), "--lr").is_none());
}

#[test]
fn commands_are_read() {
    assert!(matches!(parse_command("   "), Command::Nothing));
    assert!(matches!(parse_command("RUN 12"), Command::Run(12)));
    assert!(matches!(parse_command("run"), Command::Run(1)));
    assert!(matches!(parse_command("run many"), Command::Run(1)));
    assert!(matches!(parse_command("save"), Command::Save(None)));
    assert!(matches!(parse_command(" load  a.bin b"), Command::Load(Some(p)) if p == "a.bin"));
    assert!(matches!(parse_command("Save w.bin"), Command::Save(Some(p)) if p == "w.bin"));
    assert!(matches!(parse_command("print"), Command::Print));
    assert!(matches!(parse_command("clear"), Command::Clear));
    assert!(matches!(parse_command("exit"), Command::Exit));
    assert!(matches!(parse_command("QUIT now"), Command::Exit));
    assert!(matches!(parse_command("Jump 3"), Command::Unknown(w) if w == "jump"));
}

#[test]
fn command_words_are_lower_cased() {
    assert!(matches!(parse_command("\u{c4}RGER"), Command::Unknown(w) if w == "\u{e4}rger"));
    assert!(matches!(parse_command("SaVe A.Bin"), Command::Save(Some(p)) if p == "A.Bin"));
    let own = |s: &str| s.to_string();
    assert!(matches!(command_of(own("run"), Some(own("+7"))), Command::Run(7)));
    assert!(matches!(command_of(own("run"), Some(own("-7"))), Command::Run(1)));
    assert!(matches!(command_of(own("load"), None), Command::Load(None)));
    assert!(matches!(command_of(own("quit"), Some(own("x"))), Command::Exit));
    assert!(matches!(command_of(own("Run"), None), Command::Unknown(w) if w == "Run"));
}

#[test]
fn the_last_losses_are_remembered() {
    let mut d = Dashboard::new();
    for i in 0..120u32 {
        d.push_loss(i);
    }
    assert_eq!(d.epoch, 120);
    assert_eq!(d.last_loss, 119);
    let kept: Vec<u32> = d.recent_losses.iter().copied().collect();
    assert_eq!(kept, (70..120).collect::<Vec<u32>>());
    assert_eq!(repeat_tokens(&vec![1, 2, 3], 2), vec![1, 2, 3, 1, 2, 3]);
}

#[test]
fn the_sentence_has_ids() {
    for id in sentence_tokens() {
        assert_eq!(word_id(word_of(id)), Some(id));
    }
    assert_eq!(word_id("<pad>"), None);
    assert_eq!(word_id("akasha"), None);
    assert_eq!(word_of(6), "<pad>");
    assert_eq!(word_of(7), "?");
    assert_eq!(overfit::VOCAB_SIZE, 7);
}

#[test]
fn prompts_keep_their_known_words() {
    let p = parse_prompt(" Akasha was a  custom thing");
    assert_eq!(p.tokens, vec![0, 2, 3]);
    assert_eq!(p.unknown, ["was", "thing"]);
    assert_eq!(reply("Akasha a", &p), Reply::Complete);
    assert_eq!(reply(" EXIT ", &p), Reply::Exit);
    assert_eq!(reply("  ", &p), Reply::Nothing);
    assert_eq!(reply("x", &Prompt { tokens: vec![], unknown: vec![] }), Reply::NoWords);
    assert_eq!(reply("x", &Prompt { tokens: vec![0; 6], unknown: vec![] }), Reply::Full);
    assert_eq!(window(&p.tokens), vec![0, 2, 3, 6, 6, 6]);
}

#[test]
fn completions_take_the_last_largest() {
    let logits: Vec<u32> = [1.0f32, 4.0, 4.0, 9.0].iter().map(|x| x.to_bits()).collect();
    assert_eq!(argmax_excluding(&logits, 3), 2);
    assert_eq!(argmax_excluding(&logits, 9), 3);
    assert_eq!(argmax_excluding(&vec![1.0f32.to_bits()], 0), 0);
    let mut t = vec![0, 1, 2, 3];
    assert!(accept(&mut t, 4));
    assert!(!accept(&mut t, 5));
    assert_eq!(t, vec![0, 1, 2, 3, 4, 5]);
    let mut u = vec![0];
    assert!(!accept(&mut u, overfit::PAD_ID));
    assert_eq!(u, vec![0]);
}
