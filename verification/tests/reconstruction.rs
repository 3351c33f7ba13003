use rse::{reconstruct, RSEConfig, RseError, RSE};

fn encoded_4_2() -> (Vec<Vec<u8>>, Vec<Vec<u8>>) {
    let data: Vec<Vec<u8>> = vec![
        vec![0x00, 0x01, 0x02, 0x03, 0x04],
        vec![0x10, 0x21, 0x32, 0x43, 0x54],
        vec![0xff, 0xfe, 0xfd, 0xfc, 0xfb],
        vec![0x80, 0x40, 0x20, 0x10, 0x08],
    ];
    let mut shards = data.clone();
    shards.push(vec![0; 5]);
    shards.push(vec![0; 5]);
    let full = RSE::new(4, 2).unwrap().encode(shards).unwrap();
    (data, full)
}

fn with_missing(full: &[Vec<u8>], missing: &[usize]) -> Vec<Option<Vec<u8>>> {
    full.iter()
        .enumerate()
        .map(|(i, shard)| if missing.contains(&i) { None } else { Some(shard.clone()) })
        .collect()
}

#[test]
fn reconstruct_concrete_scenario() {
    let engine = RSE::new(2, 1).unwrap();
    let full = engine.encode(vec![vec![0x01, 0x02], vec![0x03, 0x04], vec![0x00, 0x00]]).unwrap();
    let slots = vec![None, Some(full[1].clone()), Some(full[2].clone())];
    let data = engine.reconstruct(slots).unwrap();
    assert_eq!(data.len(), 2);
    assert_eq!(data[0], vec![0x01, 0x02]);
    assert_eq!(data[1], vec![0x03, 0x04]);
}

#[test]
fn reconstruct_from_parity_bytes_written_by_hand() {
    let engine = RSE::new(2, 1).unwrap();
    let slots = vec![None, Some(vec![0x03, 0x04]), Some(vec![0x05, 0x0e])];
    assert_eq!(engine.reconstruct(slots), Ok(vec![vec![0x01, 0x02], vec![0x03, 0x04]]));
    let slots = vec![Some(vec![0x01, 0x02]), None, Some(vec![0x05, 0x0e])];
    assert_eq!(engine.reconstruct(slots), Ok(vec![vec![0x01, 0x02], vec![0x03, 0x04]]));
}

#[test]
fn reconstruct_with_nothing_missing_returns_the_data() {
    let (data, full) = encoded_4_2();
    let engine = RSE::new(4, 2).unwrap();
    assert_eq!(engine.reconstruct(with_missing(&full, &[])), Ok(data));
}

#[test]
fn reconstruct_with_only_parity_missing_returns_the_data() {
    let (data, full) = encoded_4_2();
    let engine = RSE::new(4, 2).unwrap();
    assert_eq!(engine.reconstruct(with_missing(&full, &[4])), Ok(data.clone()));
    assert_eq!(engine.reconstruct(with_missing(&full, &[5])), Ok(data.clone()));
    assert_eq!(engine.reconstruct(with_missing(&full, &[4, 5])), Ok(data));
}

#[test]
fn reconstruct_returns_only_the_data_shards() {
    let (_, full) = encoded_4_2();
    let engine = RSE::new(4, 2).unwrap();
    let data = engine.reconstruct(with_missing(&full, &[1, 5])).unwrap();
    assert_eq!(data.len(), 4);
    for shard in &data {
        assert_eq!(shard.len(), 5);
    }
}

#[test]
fn reconstruct_from_every_choice_of_exactly_four_shards() {
    let (data, full) = encoded_4_2();
    let engine = RSE::new(4, 2).unwrap();
    let mut choices = 0;
    for a in 0..6 {
        for b in (a + 1)..6 {
            let slots = with_missing(&full, &[a, b]);
            assert_eq!(slots.iter().filter(|s| s.is_some()).count(), 4);
            assert_eq!(engine.reconstruct(slots), Ok(data.clone()));
            choices += 1;
        }
    }
    assert_eq!(choices, 15);
}

#[test]
fn reconstruct_after_losing_any_single_shard() {
    let (data, full) = encoded_4_2();
    let engine = RSE::new(4, 2).unwrap();
    for a in 0..6 {
        assert_eq!(engine.reconstruct(with_missing(&full, &[a])), Ok(data.clone()));
    }
}

#[test]
fn reconstruct_fails_with_one_shard_too_few() {
    let (_, full) = encoded_4_2();
    let engine = RSE::new(4, 2).unwrap();
    for a in 0..6 {
        for b in (a + 1)..6 {
            for c in (b + 1)..6 {
                assert_eq!(
                    engine.reconstruct(with_missing(&full, &[a, b, c])),
                    Err(RseError::InsufficientShards)
                );
            }
        }
    }
}

#[test]
fn reconstruct_fails_with_nothing_present() {
    let engine = RSE::new(2, 1).unwrap();
    assert_eq!(engine.reconstruct(vec![None, None, None]), Err(RseError::InsufficientShards));
}

#[test]
fn reconstruct_rejects_shards_of_differing_lengths() {
    let engine = RSE::new(2, 1).unwrap();
    let slots = vec![Some(vec![1u8, 2]), Some(vec![3u8]), Some(vec![5u8, 14])];
    assert_eq!(engine.reconstruct(slots), Err(RseError::ShardSizeMismatch));
    let slots = vec![Some(vec![1u8, 2]), None, Some(vec![5u8, 14, 0])];
    assert_eq!(engine.reconstruct(slots), Err(RseError::ShardSizeMismatch));
}

#[test]
fn reconstruct_rejects_an_empty_shard_that_is_present() {
    let engine = RSE::new(2, 1).unwrap();
    let slots = vec![Some(Vec::new()), Some(vec![3u8]), Some(vec![5u8])];
    assert_eq!(engine.reconstruct(slots), Err(RseError::ShardSizeMismatch));
    let slots = vec![Some(vec![3u8]), None, Some(Vec::new())];
    assert_eq!(engine.reconstruct(slots), Err(RseError::ShardSizeMismatch));
    let slots = vec![Some(Vec::new()), Some(Vec::new()), Some(Vec::new())];
    assert_eq!(engine.reconstruct(slots), Err(RseError::ShardSizeMismatch));
}

#[test]
fn reconstruct_rejects_a_wrong_number_of_slots() {
    let engine = RSE::new(2, 1).unwrap();
    assert_eq!(
        engine.reconstruct(vec![Some(vec![1u8]), Some(vec![2u8])]),
        Err(RseError::DimensionMismatch)
    );
    assert_eq!(
        engine.reconstruct(vec![Some(vec![1u8]), Some(vec![2u8]), Some(vec![3u8]), None]),
        Err(RseError::DimensionMismatch)
    );
    assert_eq!(engine.reconstruct(Vec::new()), Err(RseError::DimensionMismatch));
}

#[test]
fn reconstruct_looks_at_lengths_before_it_counts() {
    let engine = RSE::new(3, 1).unwrap();
    let slots = vec![Some(vec![1u8, 2]), Some(vec![3u8]), None, None];
    assert_eq!(engine.reconstruct(slots), Err(RseError::ShardSizeMismatch));
}

#[test]
fn reconstruct_looks_at_the_count_of_slots_first() {
    let engine = RSE::new(3, 1).unwrap();
    let slots = vec![Some(vec![1u8, 2]), Some(vec![3u8]), None];
    assert_eq!(engine.reconstruct(slots), Err(RseError::DimensionMismatch));
}

#[test]
fn reconstruct_without_parity_needs_every_shard() {
    let engine = RSE::new(3, 0).unwrap();
    let data = vec![vec![1u8, 2], vec![3, 4], vec![5, 6]];
    let slots: Vec<Option<Vec<u8>>> = data.iter().cloned().map(Some).collect();
    assert_eq!(engine.reconstruct(slots), Ok(data.clone()));
    let slots = vec![Some(data[0].clone()), None, Some(data[2].clone())];
    assert_eq!(engine.reconstruct(slots), Err(RseError::InsufficientShards));
}

#[test]
fn reconstruct_with_config_reads_empty_buffers_as_missing() {
    let config = RSEConfig { data_shard_num: 2, parity_shard_num: 1 };
    let buffers = vec![Vec::new(), vec![0x03, 0x04], vec![0x05, 0x0e]];
    assert_eq!(reconstruct(config, buffers), Ok(vec![vec![0x01, 0x02], vec![0x03, 0x04]]));
}

#[test]
fn reconstruct_with_config_and_every_buffer_filled() {
    let config = RSEConfig { data_shard_num: 2, parity_shard_num: 1 };
    let buffers = vec![vec![0x01, 0x02], vec![0x03, 0x04], vec![0x05, 0x0e]];
    assert_eq!(reconstruct(config, buffers), Ok(vec![vec![0x01, 0x02], vec![0x03, 0x04]]));
}

#[test]
fn reconstruct_with_config_and_too_many_empty_buffers() {
    let config = RSEConfig { data_shard_num: 2, parity_shard_num: 1 };
    let buffers = vec![Vec::new(), Vec::new(), vec![0x05, 0x0e]];
    assert_eq!(reconstruct(config, buffers), Err(RseError::InsufficientShards));
    assert_eq!(
        reconstruct(config, vec![Vec::new(), Vec::new(), Vec::new()]),
        Err(RseError::InsufficientShards)
    );
}

#[test]
fn reconstruct_with_config_reports_bad_counts_first() {
    let zero = RSEConfig { data_shard_num: 0, parity_shard_num: 2 };
    assert_eq!(reconstruct(zero, vec![vec![1u8], vec![2]]), Err(RseError::InvalidShardCounts));
    let many = RSEConfig { data_shard_num: 256, parity_shard_num: 1 };
    assert_eq!(reconstruct(many, Vec::new()), Err(RseError::TooManyShards));
}

#[test]
fn reconstruct_with_config_reports_bad_buffers() {
    let config = RSEConfig { data_shard_num: 2, parity_shard_num: 1 };
    assert_eq!(reconstruct(config, vec![vec![1u8], vec![2]]), Err(RseError::DimensionMismatch));
    assert_eq!(
        reconstruct(config, vec![vec![1u8], vec![2, 3], Vec::new()]),
        Err(RseError::ShardSizeMismatch)
    );
}

#[test]
fn reconstruct_does_not_repair_a_shard_that_is_present() {
    let (data, full) = encoded_4_2();
    let engine = RSE::new(4, 2).unwrap();
    let mut slots = with_missing(&full, &[3]);
    slots[0] = Some(vec![0xee; 5]);
    let out = engine.reconstruct(slots).unwrap();
    assert_eq!(out[0], vec![0xee; 5]);
    assert_eq!(out[1], data[1]);
    assert_eq!(out[2], data[2]);
    assert_ne!(out[3], data[3]);
}

#[test]
fn reconstruct_from_the_parity_shards_alone() {
    let engine = RSE::new(2, 2).unwrap();
    let data = vec![vec![0xde, 0xad], vec![0xbe, 0xef]];
    let full = engine.encode(vec![data[0].clone(), data[1].clone(), vec![0; 2], vec![0; 2]]).unwrap();
    let slots = vec![None, None, Some(full[2].clone()), Some(full[3].clone())];
    assert_eq!(engine.reconstruct(slots), Ok(data));
}
