use akasha_core::data::dataset::{plan_shards, Dataset, ShardFile, ShardPlan};
use akasha_core::data::finetune::{
    col_index, dialogue_block, pick_rows, split_order, split_rows, SPLIT_SEED,
};
use akasha_core::data::shard::{
    between, encode_shard, has_shards, is_shard_name, load_shard, shard_dir_name, shard_name,
};
use akasha_core::data::tokenize::{Sharder, TokenizeError};
use akasha_core::random::random_tokens;
use rand::rngs::StdRng;
use rand::seq::SliceRandom;
use rand::{Rng, SeedableRng};

fn file(name: &str, bytes: u64) -> ShardFile {
    ShardFile { name: name.to_string(), bytes }
}

#[test]
fn shard_names_are_found_again() {
    assert_eq!(shard_name(0), "shard_00000.bin");
    assert_eq!(shard_name(123456), "shard_123456.bin");
    assert!(is_shard_name(&shard_name(7)));
    assert!(!is_shard_name("shard_00000.tmp"));
    assert!(!is_shard_name("my_shard_00000.bin"));
    assert!(!has_shards(&vec![]) && !has_shards(&vec!["notes.txt".to_string()]));
    assert!(has_shards(&vec!["notes.txt".to_string(), shard_name(0)]));
    assert_eq!(shard_dir_name("train"), "train_shards");
    assert_eq!(between("a.b.c", "a", "c"), Some(vec!['.', 'b', '.']));
    assert_eq!(between("ab", "ab", "b"), None);
}

#[test]
fn shards_hold_little_endian_words() {
    let tokens = vec![0u32, 1, 0x0102_0304, u32::MAX];
    let bytes = encode_shard(&tokens);
    let expected: Vec<u8> = tokens.iter().flat_map(|t| t.to_le_bytes()).collect();
    assert_eq!(bytes, expected);
    assert_eq!(load_shard(&bytes), tokens);
    assert_eq!(load_shard(&Vec::new()), Vec::<u32>::new());
}

#[test]
fn text_goes_to_the_tokenizer_line_by_line() {
    let text = "first line\nsecond \u{e9}t\u{e9}\nthe last words".as_bytes();
    for size in 1..text.len() {
        let mut s = Sharder::new();
        let mut seen: Vec<u8> = Vec::new();
        for chunk in text.chunks(size) {
            for line in s.feed(&chunk.to_vec()).unwrap() {
                assert!(std::str::from_utf8(&line).is_ok());
                seen.extend(line);
            }
        }
        for line in s.feed(&Vec::new()).unwrap() {
            seen.extend(line);
        }
        assert_eq!(seen, text);
        assert!(s.carry.is_empty());
    }
}

#[test]
fn a_chunk_is_cut_before_its_last_break() {
    let mut s = Sharder::new();
    let lines = s.feed(&b"one\ntwo\nthree fo".to_vec()).unwrap();
    assert_eq!(lines, vec![b"one\n".to_vec(), b"two".to_vec()]);
    assert_eq!(s.carry, b"\nthree fo");
    let mut s = Sharder::new();
    let lines = s.feed(&b"alpha beta gam".to_vec()).unwrap();
    assert_eq!(lines, vec![b"alpha beta".to_vec()]);
    assert_eq!(s.carry, b" gam");
    let mut s = Sharder::new();
    assert_eq!(s.feed(&b"word".to_vec()).unwrap(), vec![b"word".to_vec()]);
}

#[test]
fn a_file_that_ends_inside_a_character_is_refused() {
    let mut s = Sharder::new();
    s.feed(&vec![b'a', 0xc3]).unwrap();
    assert_eq!(s.carry, vec![0xc3]);
    assert_eq!(s.feed(&Vec::new()), Err(TokenizeError::NotUtf8));
    let mut s = Sharder::new();
    s.feed(&vec![b'a', 0xff, b'b']).unwrap();
    assert_eq!(s.feed(&Vec::new()), Err(TokenizeError::NotUtf8));
}

#[test]
fn tokens_are_cut_into_shards() {
    let mut s = Sharder::new();
    assert_eq!(s.take_tokens(&vec![vec![1, 2], vec![3]], 4, false), vec![]);
    let out = s.take_tokens(&vec![vec![4, 5, 6, 7, 8, 9]], 4, false);
    assert_eq!(out, vec![(0, vec![1, 2, 3, 4]), (1, vec![5, 6, 7, 8])]);
    let out = s.take_tokens(&Vec::new(), 4, true);
    assert_eq!(out, vec![(2, vec![9])]);
    assert_eq!(s.total_tokens, 9);
}

#[test]
fn short_and_foreign_files_are_left_out() {
    let plan = plan_shards(
        vec![
            file("shard_00002.bin", 40),
            file("notes.txt", 4000),
            file("shard_00000.bin", 21),
            file("shard_00001.bin", 16),
        ],
        4,
    );
    let names: Vec<&str> = plan.shards.iter().map(|f| f.name.as_str()).collect();
    assert_eq!(names, ["shard_00000.bin", "shard_00002.bin"]);
    assert_eq!(plan.total_tokens, 15);
}

fn dataset(n: usize) -> Dataset {
    let shards: Vec<ShardFile> = (0..n).map(|i| file(&shard_name(i), 40)).collect();
    let plan = ShardPlan { shards, total_tokens: 10 * n };
    let loaded: Vec<Vec<u32>> =
        (0..n.min(4)).map(|i| (0..10u32).map(|t| 100 * i as u32 + t).collect()).collect();
    Dataset::from_shards(plan, 3, loaded)
}

#[test]
fn every_window_can_be_drawn() {
    let d = dataset(2);
    assert_eq!(d.token_count(), 20);
    assert_eq!(d.window_count(), 14);
    let (x, y) = d.windows_at(&vec![0, 6, 7, 13]);
    assert_eq!(x, vec![0, 1, 2, 6, 7, 8, 100, 101, 102, 106, 107, 108]);
    assert_eq!(y, vec![1, 2, 3, 7, 8, 9, 101, 102, 103, 107, 108, 109]);
}

#[test]
fn batches_are_windows_of_the_pool() {
    let d = dataset(3);
    let mut rng = StdRng::seed_from_u64(5);
    let (x, y) = d.random_batch(50, &mut rng);
    assert_eq!(x.len(), 150);
    for w in 0..50 {
        for i in 0..3 {
            assert_eq!(y[3 * w + i], x[3 * w + i] + 1);
            assert_eq!(x[3 * w + i], x[3 * w] + i as u32);
        }
    }
    assert!(x.iter().any(|&t| t >= 200) && x.iter().any(|&t| t < 100));
}

#[test]
fn cold_shards_come_in_by_turns() {
    let mut d = dataset(9);
    let mut rng = StdRng::seed_from_u64(5);
    let mut rotations = 0;
    for batch in 1..=4 * 256 {
        let r = d.maybe_rotate(&mut rng);
        assert_eq!(r.is_some(), batch % 256 == 0);
        if let Some((victim, incoming)) = r {
            assert_eq!(victim, rotations % 4);
            assert!(d.resident.iter().all(|(i, _)| *i != incoming));
            d.swap_in(victim, incoming, (0..10).collect());
            assert_eq!(d.resident[victim].0, incoming);
            rotations += 1;
        }
        assert_eq!(d.token_count(), 90);
        assert_eq!((d.batches_served, d.next_victim), (batch, rotations));
        let mut held: Vec<usize> = d.resident.iter().map(|r| r.0).collect();
        held.sort();
        held.dedup();
        assert_eq!(held.len(), 4);
    }
    assert_eq!(rotations, 4);
    let mut small = dataset(3);
    for _ in 0..600 {
        assert_eq!(small.maybe_rotate(&mut rng), None);
    }
}

#[test]
fn newcomers_are_drawn_from_all_shards() {
    for seed in 0..40 {
        let mut d = dataset(5);
        let mut rng = StdRng::seed_from_u64(seed);
        let mut same = StdRng::seed_from_u64(seed);
        for _ in 0..255 {
            assert_eq!(d.maybe_rotate(&mut rng), None);
        }
        // shards 0 to 3 are resident
        let wanted = loop {
            let candidate = same.gen_range(0..5usize);
            if candidate == 4 {
                break candidate;
            }
        };
        assert_eq!(d.maybe_rotate(&mut rng), Some((0, wanted)));
        assert_eq!(rng.gen_range(0..1000usize), same.gen_range(0..1000usize));
    }
    let mut d = dataset(9);
    assert_eq!(d.take_draw(3), None);
    assert_eq!(d.take_draw(7), Some((0, 7)));
    assert_eq!(d.take_draw(7), Some((1, 7)));
    assert_eq!(d.next_victim, 2);
}

#[test]
fn rows_become_dialogues() {
    assert_eq!(dialogue_block(" Hi ", "  ", "Hello\n"), "User: Hi\nAssistant: Hello\n\n");
    assert_eq!(dialogue_block("Sum", "1 2", "3"), "User: Sum\n\n1 2\nAssistant: 3\n\n");
    let cols: Vec<String> = ["a", "b", "b"].iter().map(|s| s.to_string()).collect();
    assert_eq!(col_index(&cols, "b"), Some(1));
    assert_eq!(col_index(&cols, "c"), None);
}

#[test]
fn rows_are_split_once_for_all() {
    assert_eq!(split_order(&vec![3, 1, 0, 2], 1), (vec![3], vec![1, 0, 2]));
    assert_eq!(split_order(&vec![1, 0], 9), (vec![1, 0], vec![]));
    let (eval, train) = split_rows(1000, 100);
    let mut order: Vec<usize> = (0..1000).collect();
    order.shuffle(&mut StdRng::seed_from_u64(SPLIT_SEED));
    assert_ne!(order, (0..1000).collect::<Vec<usize>>());
    assert_eq!(eval, order[..100]);
    assert_eq!(train, order[100..]);
    let rows: Vec<String> = ["x", "y", "z"].iter().map(|s| s.to_string()).collect();
    assert_eq!(pick_rows(&rows, &vec![2, 0]), ["z", "x"]);
}

#[test]
fn random_tokens_are_in_the_vocabulary() {
    let mut rng = StdRng::seed_from_u64(42);
    let t = random_tokens(&mut rng, 500, 7);
    assert_eq!(t.len(), 500);
    for id in 0..7 {
        assert!(t.contains(&id));
    }
    assert!(t.iter().all(|&x| x < 7));
}
