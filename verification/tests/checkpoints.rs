use akasha_core::config::ModelConfig;
use akasha_core::device::{Context, Scalar, Tensor};
use akasha_core::nn::akasha_model::{AkashaModel, WeightsError};
use akasha_core::nn::checkpoint::{load, read_file, save, CheckpointError};
use akasha_core::nn::migrate::{
    check_shapes, default_v2_output, default_v3_output, fuse_qkv, interleave_qkv, migrate_qkv, migrate_v2, migrate_v3,
    read_legacy_params, read_v1, same_tensors, verify_v2, verify_v3, MigrateError,
};
use akasha_core::nn::weights::{to_flat_weights, BlockWeights, ModelWeights};

type Tensors = Vec<Vec<f32>>;
type Pairs = Vec<(Vec<f32>, Vec<f32>)>;
type Arch = (u32, u32, u32, u64, u32, u32);

fn bits(v: &[f32]) -> Vec<u32> {
    v.iter().map(|x| x.to_bits()).collect()
}

fn tensor(id: usize, words: u64) -> Tensor {
    Tensor { id, size: 4 * words }
}

fn targets() -> Vec<Tensor> {
    vec![tensor(0, 2), tensor(1, 3)]
}

fn params() -> Vec<Vec<u32>> {
    vec![bits(&[1.5, -2.0]), bits(&[0.0, f32::NAN, 7.25])]
}

fn moments() -> Vec<(Vec<u32>, Vec<u32>)> {
    vec![(bits(&[0.1, 0.2]), bits(&[0.3, 0.4])), (bits(&[1.0; 3]), bits(&[2.0; 3]))]
}

fn cfg() -> ModelConfig {
    ModelConfig::new(10, 4, 2, 1, 8)
}

#[test]
fn a_saved_state_is_loaded_again() {
    let file = save(&cfg(), params(), Some((moments(), 77)), 1234);
    let r = load(&cfg(), &targets(), &file);
    assert_eq!(r.params, params());
    let l = r.outcome.ok().unwrap();
    assert_eq!(l.train_step, 1234);
    let o = l.optimizer.unwrap();
    assert_eq!((o.moments, o.schedule_step), (moments(), 77));
    let r = load(&cfg(), &targets(), &save(&cfg(), params(), None, 5));
    assert!(r.outcome.ok().unwrap().optimizer.is_none());
}

#[test]
fn a_file_holds_its_fields_low_byte_first() {
    let one: Vec<Vec<u32>> = vec![vec![0x0102_0304], vec![]];
    let pairs: Vec<(Vec<u32>, Vec<u32>)> = vec![(vec![7], vec![8, 9])];
    let file = save(&cfg(), one, Some((pairs, 0x0a0b)), 0x1_0000_0002);
    let u32s = |v: &[u32]| v.iter().flat_map(|x| x.to_le_bytes()).collect::<Vec<u8>>();
    let mut want: Vec<u8> = b"AKV3".to_vec();
    want.extend(u32s(&[10, 4, 2, 1, 0, 8, 16]));
    want.extend([2, 0, 0, 0, 1, 0, 0, 0, 0x0b, 0x0a, 0, 0]);
    want.extend([2, 0, 0, 0, 0, 0, 0, 0, 1, 0, 0, 0, 0, 0, 0, 0, 4, 3, 2, 1]);
    want.extend(u32s(&[0, 0, 1, 0, 1, 0, 7, 2, 0, 8, 9]));
    assert_eq!(file, want);
}

#[test]
fn a_file_is_a_mark_and_a_bincode_body() {
    let file = save(&cfg(), params(), Some((moments(), 77)), 1234);
    assert_eq!(&file[..4], b"AKV3");
    let p: Tensors = vec![vec![1.5, -2.0], vec![0.0, f32::NAN, 7.25]];
    let m: Pairs = vec![(vec![0.1, 0.2], vec![0.3, 0.4]), (vec![1.0; 3], vec![2.0; 3])];
    let arch: Arch = (10, 4, 2, 1, 8, 16);
    let body = bincode::serialize(&(arch, 1234u64, 77u32, p, m)).unwrap();
    assert_eq!(&file[4..], &body[..]);
    let mut longer = file.clone();
    longer.extend([1, 2, 3]);
    assert_eq!(load(&cfg(), &targets(), &longer).params, params());
}

#[test]
fn files_that_do_not_fit_are_refused() {
    let good = save(&cfg(), params(), Some((moments(), 1)), 2);
    let err = |c: &ModelConfig, t: &Vec<Tensor>, f: &Vec<u8>| load(c, t, f).outcome.err().unwrap();
    assert_eq!(err(&cfg(), &targets(), &b"AK".to_vec()), CheckpointError::TooShort);
    assert_eq!(err(&cfg(), &targets(), &b"AKV2xxxx".to_vec()), CheckpointError::NotV3);
    assert_eq!(err(&cfg(), &targets(), &good[..20].to_vec()), CheckpointError::Corrupt);
    let other = ModelConfig::new(11, 4, 2, 1, 8);
    assert_eq!(err(&other, &targets(), &good), CheckpointError::Architecture);
    assert_eq!(
        err(&cfg(), &vec![tensor(0, 2)], &good),
        CheckpointError::ParamCount { found: 2, expected: 1 }
    );
    let r = load(&cfg(), &vec![tensor(0, 2), tensor(1, 4)], &good);
    assert_eq!(r.params, params()[..1]);
    assert_eq!(
        r.outcome.err().unwrap(),
        CheckpointError::ParamLen { index: 1, found: 3, expected: 4 }
    );
    let few = save(&cfg(), params(), Some((moments()[..1].to_vec(), 1)), 2);
    assert_eq!(
        err(&cfg(), &targets(), &few),
        CheckpointError::MomentCount { found: 1, expected: 2 }
    );
    // another length of the sequence is no other architecture
    let long = ModelConfig::new(10, 4, 2, 1, 512);
    assert_eq!(load(&long, &targets(), &good).params, params());
}

fn one_layer() -> Tensors {
    let (d, v, h) = (2usize, 5usize, 8usize);
    vec![
        vec![0.5; v * d],
        vec![1.0; d],
        vec![2.0; 3 * d * d],
        vec![3.0; d * d],
        vec![4.0; d],
        vec![5.0; d * h],
        vec![6.0; h * d],
        vec![7.0; d],
        vec![8.0; d * v],
    ]
}

fn v1_file(weights: &Tensors) -> Vec<u8> {
    let pairs: Pairs = weights.iter().map(|w| (w.clone(), vec![9.0; w.len()])).collect();
    bincode::serialize(&pairs).unwrap()
}

fn small() -> ModelConfig {
    ModelConfig::new(5, 2, 1, 1, 8)
}

fn all_bits(t: &Tensors) -> Vec<Vec<u32>> {
    t.iter().map(|w| bits(w)).collect()
}

#[test]
fn old_files_are_migrated() {
    let w = one_layer();
    let v1 = v1_file(&w);
    assert_eq!(read_v1(&v1).unwrap(), all_bits(&w));
    assert_eq!(read_legacy_params(&v1).unwrap(), all_bits(&w));
    let v2 = migrate_v2(&v1, &small()).unwrap();
    let arch: Arch = (5, 2, 1, 1, 8, 8);
    let mut expected = b"AKV2".to_vec();
    expected.extend(bincode::serialize(&(arch, w.clone())).unwrap());
    assert_eq!(v2, expected);
    assert_eq!(read_legacy_params(&v2).unwrap(), all_bits(&w));
    assert!(verify_v2(&v1, &v2));
    assert!(!verify_v2(&v1, &v1) && !verify_v2(&v2, &v2));
    for file in [&v1, &v2] {
        let v3 = migrate_v3(file, &small()).unwrap();
        assert!(verify_v3(file, &v3));
        let body = read_file(&v3).unwrap();
        assert_eq!(body.params, all_bits(&w));
        assert!(body.moments.is_empty());
        assert_eq!((body.train_step, body.schedule_step), (0, 0));
    }
}

#[test]
fn files_that_cannot_be_migrated_are_refused() {
    let w = one_layer();
    let v3 = migrate_v3(&v1_file(&w), &small()).unwrap();
    assert_eq!(migrate_v3(&v3, &small()), Err(MigrateError::AlreadyMigrated));
    assert_eq!(migrate_v3(&vec![1, 2], &small()), Err(MigrateError::TooShort));
    assert_eq!(migrate_v3(&vec![0xff; 16], &small()), Err(MigrateError::Corrupt));
    let v2 = migrate_v2(&v1_file(&w), &small()).unwrap();
    assert_eq!(migrate_v2(&v2, &small()), Err(MigrateError::AlreadyMigrated));
    assert_eq!(
        migrate_v3(&v1_file(&w[..8].to_vec()), &small()),
        Err(MigrateError::ParamCount { found: 8 })
    );
    assert_eq!(
        migrate_v3(&v1_file(&w), &ModelConfig::new(6, 2, 1, 1, 8)),
        Err(MigrateError::Architecture)
    );
    assert_eq!(check_shapes(&all_bits(&w), &small()), Ok(()));
    let mut changed = all_bits(&w);
    assert!(same_tensors(&all_bits(&w), &changed));
    changed[4][1] ^= 1;
    assert!(!same_tensors(&all_bits(&w), &changed));
    assert!(!verify_v3(&v1_file(&w), &save(&small(), changed, None, 0)));
}

#[test]
fn separate_projections_are_fused() {
    let q = vec![1, 2, 3, 4];
    let k = vec![5, 6, 7, 8];
    let v = vec![9, 10, 11, 12];
    let f = interleave_qkv(2, &q, &k, &v);
    assert_eq!(f, vec![1, 2, 5, 6, 9, 10, 3, 4, 7, 8, 11, 12]);
    let pair = |w: &Vec<u32>| (w.clone(), w.iter().map(|x| x + 100).collect::<Vec<u32>>());
    let pairs = vec![
        pair(&vec![50; 10]),
        pair(&vec![51; 2]),
        pair(&q),
        pair(&k),
        pair(&v),
        pair(&vec![52; 4]),
        pair(&vec![53; 2]),
        pair(&vec![54; 16]),
        pair(&vec![55; 16]),
        pair(&vec![56; 2]),
        pair(&vec![57; 10]),
    ];
    let r = fuse_qkv(pairs.clone(), 2, 8, 1).unwrap();
    assert_eq!(r.len(), 9);
    assert_eq!(r[2], pair(&f));
    assert_eq!(r[8], pairs[10]);
    let file = bincode::serialize(&pairs).unwrap();
    assert_eq!(migrate_qkv(&file, 2, 8, 1).unwrap(), bincode::serialize(&r).unwrap());
    assert_eq!(
        fuse_qkv(pairs[..9].to_vec(), 2, 8, 1).err(),
        Some(MigrateError::ParamCount { found: 9 })
    );
    assert_eq!(fuse_qkv(pairs, 2, 7, 1).err(), Some(MigrateError::LayerSize { layer: 0 }));
    assert_eq!(migrate_qkv(&vec![9; 9], 2, 8, 1).err(), Some(MigrateError::Corrupt));
}

#[test]
fn migrated_files_get_a_name() {
    assert_eq!(default_v3_output("checkpoints/model_final.bin"), "checkpoints/model_final.v3.bin");
    assert_eq!(default_v3_output("model"), "model.v3.bin");
    assert_eq!(default_v2_output("a.bin"), "a.bin.v2.bin");
}

fn tiny_model(ctx: &mut Context) -> AkashaModel {
    let c = ModelConfig::new(5, 4, 2, 1, 3);
    let block = BlockWeights {
        norm_1: ctx.zeros(4),
        qkv_proj: ctx.zeros(48),
        out_proj: ctx.zeros(16),
        norm_2: ctx.zeros(4),
        ffn_up: ctx.zeros(64),
        ffn_down: ctx.zeros(64),
    };
    let tokens = ctx.zeros(3);
    AkashaModel::new(ctx, &c, &vec![block], Scalar::Recip(2), tokens)
}

#[test]
fn weights_and_gradients_are_loaded_again() {
    let mut ctx = Context::new();
    let m = tiny_model(&mut ctx);
    let pairs = m.trainable_params();
    let values: Vec<(Vec<u32>, Vec<u32>)> = (0..pairs.len() as u32)
        .map(|i| (vec![i; 3], vec![100 + i; 2]))
        .collect();
    let file = m.save_weights(&values);
    assert_eq!(file, bincode::serialize(&values).unwrap());
    let writes = m.load_weights(&file).unwrap();
    assert_eq!(writes.len(), 2 * pairs.len());
    for i in 0..pairs.len() {
        assert_eq!(writes[2 * i], (pairs[i].0, values[i].0.clone()));
        assert_eq!(writes[2 * i + 1], (pairs[i].1, values[i].1.clone()));
    }
    let short = bincode::serialize(&values[1..]).unwrap();
    assert_eq!(
        m.load_weights(&short).err(),
        Some(WeightsError::Count { found: pairs.len() - 1, expected: pairs.len() })
    );
    assert_eq!(m.load_weights(&vec![7]).err(), Some(WeightsError::Unreadable));
}

#[test]
fn flat_weights_are_split_and_joined() {
    let b = BlockWeights {
        norm_1: tensor(1, 1),
        qkv_proj: tensor(2, 2),
        out_proj: tensor(3, 1),
        norm_2: tensor(4, 1),
        ffn_up: tensor(5, 3),
        ffn_down: tensor(6, 1),
    };
    let w = ModelWeights {
        cfg: small(),
        embedding: tensor(0, 2),
        blocks: vec![b],
        final_norm: tensor(7, 1),
        lm_head: tensor(8, 2),
    };
    let flat: Vec<u32> = (0..14).collect();
    let pieces = w.set_flat_weights(&flat);
    assert_eq!(pieces.len(), 9);
    assert_eq!(pieces[0], (tensor(0, 2), vec![0, 1]));
    assert_eq!(pieces[2], (tensor(2, 2), vec![3, 4]));
    assert_eq!(pieces[8], (tensor(8, 2), vec![12, 13]));
    let back = to_flat_weights(&pieces.into_iter().map(|p| p.1).collect());
    assert_eq!(back, flat);
}
