use akasha_core::nn::sampling::{
    argmax, candidates, nucleus_len, penalized_ids, penalties, pick, ranked, Choice, Penalty, ONE,
};

fn bits(v: &[f32]) -> Vec<u32> {
    v.iter().map(|x| x.to_bits()).collect()
}

#[test]
fn the_first_of_the_largest_is_taken() {
    assert_eq!(argmax(&bits(&[0.5, 2.0, -1.0, 2.0])), 1);
    assert_eq!(argmax(&bits(&[-3.0, -2.0, -0.0, 0.0])), 2);
    assert_eq!(argmax(&bits(&[f32::NAN, 9.0])), 0);
    assert_eq!(argmax(&bits(&[1.0, f32::NAN, 2.0])), 2);
    assert_eq!(argmax(&Vec::new()), 0);
}

#[test]
fn seen_tokens_are_penalized_once() {
    assert_eq!(penalized_ids(&vec![5, 1, 5, 9, 1, 0], 6), vec![0, 1, 5]);
    assert_eq!(penalized_ids(&Vec::new(), 6), Vec::<u32>::new());
    let logits = bits(&[1.0, -1.0, 0.0, 4.0]);
    let p = penalties(&logits, &vec![3, 1, 3, 2, 8], 1.3f32.to_bits());
    assert_eq!(
        p,
        vec![
            Penalty { id: 1, divide: false },
            Penalty { id: 2, divide: false },
            Penalty { id: 3, divide: true },
        ]
    );
    assert!(penalties(&logits, &vec![3, 1], ONE).is_empty());
    assert_eq!(ONE, 1.0f32.to_bits());
}

#[test]
fn ranking_goes_by_key() {
    assert_eq!(ranked(&vec![3, -7, 12, 5], 0), vec![2, 3, 0, 1]);
    assert_eq!(ranked(&vec![3, -7, 12, 5], 2), vec![2, 3]);
    assert_eq!(ranked(&vec![3, -7, 12, 5], 4), vec![2, 3, 0, 1]);
    assert_eq!(ranked(&vec![i32::MIN, i32::MAX, 0], 1), vec![1]);
}

#[test]
fn temperature_decides_between_largest_and_draw() {
    let logits = bits(&[0.25, 3.5, -2.0, 3.0]);
    for t in [0.0f32, -0.0, -1.0] {
        match candidates(&logits, t.to_bits(), 2) {
            Choice::Greedy(id) => assert_eq!(id, 1),
            Choice::Draw(_) => panic!("drew at {t}"),
        }
    }
    match candidates(&logits, 0.8f32.to_bits(), 3) {
        Choice::Draw(idx) => assert_eq!(idx, vec![1, 3, 0]),
        Choice::Greedy(_) => panic!("did not draw"),
    }
}

#[test]
fn the_nucleus_ends_where_its_bound_is_reached() {
    assert_eq!(nucleus_len(&vec![false, false, true, true]), 3);
    assert_eq!(nucleus_len(&vec![false, false]), 2);
    assert_eq!(nucleus_len(&vec![true]), 1);
    assert_eq!(nucleus_len(&Vec::new()), 0);
    assert_eq!(pick(&vec![7, 8, 9], &vec![false, true, true]), 8);
    assert_eq!(pick(&vec![7, 8, 9], &vec![false, false, false]), 9);
}

#[test]
fn order_and_repeats_of_seen_tokens_do_not_matter() {
    let logits: Vec<u32> = [0.5f32, -1.0, 2.0, 0.0].iter().map(|x| x.to_bits()).collect();
    let p = 1.3f32.to_bits();
    let a = penalties(&logits, &vec![2, 0, 9, 3], p);
    assert_eq!(a.len(), 3);
    assert_eq!(penalties(&logits, &vec![3, 3, 0, 2, 9, 0], p), a);
}

#[test]
fn no_logits_give_the_first_token_without_a_temperature() {
    match candidates(&vec![], 0, 5) {
        Choice::Greedy(id) => assert_eq!(id, 0),
        Choice::Draw(_) => panic!("drew from nothing"),
    }
}
