use query_core::join::barrier::Arrival;
use query_core::join::probe::{facts_for, into_blocks};
use query_core::join::row::{JoinType, JoinedRow, Marker, Row};
use query_core::join::spill::{
    memory_used, partition_batch, restore_round, BuildSpillState, ProbeSpillState,
};
use query_core::join::spill_format::{decode_batch, decode_partition, encode_batch};
use query_core::join::state::{
    hash_join, HashJoinBuildState, HashJoinDesc, HashJoinProbeState, HashJoinState, JoinError,
};

fn keyed(key: u64, payload: &str) -> Row {
    Row::new(Some(vec![Some(key)]), payload.to_string())
}

#[test]
fn batch_is_written_low_byte_first() {
    assert_eq!(encode_batch(&vec![]), vec![0, 0, 0, 0, 0, 0, 0, 0]);
    let bytes = encode_batch(&vec![keyed(0x0102, "é"), Row::new(None, String::new())]);
    let mut expected = vec![2, 0, 0, 0, 0, 0, 0, 0];
    expected.extend([1, 1, 0, 0, 0, 0, 0, 0, 0]);
    expected.extend([1, 0x02, 0x01, 0, 0, 0, 0, 0, 0]);
    expected.extend([2, 0, 0, 0, 0, 0, 0, 0]);
    expected.extend([0xc3, 0xa9]);
    expected.extend([0, 0, 0, 0, 0, 0, 0, 0, 0]);
    expected.extend([0, 0, 0, 0, 0, 0, 0, 0]);
    assert_eq!(bytes, expected);
    let wide = encode_batch(&vec![Row::new(Some(vec![Some(7), None]), "k".to_string())]);
    let mut expected = vec![1, 0, 0, 0, 0, 0, 0, 0];
    expected.extend([1, 2, 0, 0, 0, 0, 0, 0, 0]);
    expected.extend([1, 7, 0, 0, 0, 0, 0, 0, 0]);
    expected.extend([0, 0, 0, 0, 0, 0, 0, 0, 0]);
    expected.extend([1, 0, 0, 0, 0, 0, 0, 0]);
    expected.extend([b'k']);
    assert_eq!(wide, expected);
}

#[test]
fn what_is_written_is_read_back() {
    let rows = vec![
        keyed(1, "a"),
        Row::new(None, "no key".to_string()),
        keyed(u64::MAX, ""),
        keyed(0, "日本語"),
        Row::new(Some(vec![]), "no columns".to_string()),
        Row::new(Some(vec![Some(3), None, Some(u64::MAX)]), "wide".to_string()),
        Row::new(Some(vec![None]), String::new()),
    ];
    assert_eq!(decode_batch(&encode_batch(&rows)), Some(rows));
    assert_eq!(decode_batch(&encode_batch(&vec![])), Some(vec![]));
}

#[test]
fn bytes_that_are_no_batch_are_refused() {
    let whole = encode_batch(&vec![keyed(1, "abc"), keyed(2, "de")]);
    for cut in 0..whole.len() {
        assert_eq!(decode_batch(&whole[..cut]), None, "cut at {}", cut);
    }
    let mut longer = whole.clone();
    longer.push(0);
    assert_eq!(decode_batch(&longer), None);
    let mut bad_mark = whole.clone();
    bad_mark[8] = 2;
    assert_eq!(decode_batch(&bad_mark), None);
    let mut null_with_key = encode_batch(&vec![Row::new(None, "x".to_string())]);
    null_with_key[9] = 1;
    assert_eq!(decode_batch(&null_with_key), None);
    let mut bad_text = whole.clone();
    bad_text[8 + 26] = 0xff;
    assert_eq!(decode_batch(&bad_text), None);
    let mut wrong_count = whole.clone();
    wrong_count[0] = 3;
    assert_eq!(decode_batch(&wrong_count), None);
    let mut huge_length = whole;
    huge_length[8 + 25] = 0xff;
    assert_eq!(decode_batch(&huge_length), None);
    let wide = encode_batch(&vec![Row::new(Some(vec![Some(7), None]), "k".to_string())]);
    assert!(decode_batch(&wide).is_some());
    let mut bad_value_mark = wide.clone();
    bad_value_mark[8 + 9] = 2;
    assert_eq!(decode_batch(&bad_value_mark), None);
    let mut null_with_number = wide.clone();
    null_with_number[8 + 18 + 1] = 5;
    assert_eq!(decode_batch(&null_with_number), None);
    let mut more_values_than_written = wide.clone();
    more_values_than_written[8 + 1] = 3;
    assert_eq!(decode_batch(&more_values_than_written), None);
    let mut huge_count = wide;
    huge_count[8 + 8] = 0xff;
    assert_eq!(decode_batch(&huge_count), None);
}

#[test]
fn output_is_cut_into_blocks() {
    let build: Vec<Row> = (0..7u64).map(|k| keyed(k, "b")).collect();
    let out = hash_join(JoinType::Inner, &build, &build);
    assert_eq!(out.len(), 7);
    let blocks = into_blocks(&out, 3);
    assert_eq!(blocks.iter().map(|b| b.len()).collect::<Vec<_>>(), vec![3, 3, 1]);
    let joined: Vec<JoinedRow> = blocks.into_iter().flatten().collect();
    assert_eq!(joined, out);
    assert_eq!(into_blocks(&out, 7).len(), 1);
    assert_eq!(into_blocks(&out, 100).len(), 1);
    assert_eq!(into_blocks(&out, 1).len(), 7);
    assert!(into_blocks(&vec![], 5).is_empty());
}

#[test]
fn memory_is_counted_by_row() {
    assert_eq!(memory_used(&vec![]), 0);
    assert_eq!(memory_used(&vec![keyed(1, "")]), 32);
    assert_eq!(memory_used(&vec![keyed(1, "abc"), Row::new(None, "é".to_string())]), 32 + 3 + 16 + 2);
    assert_eq!(memory_used(&vec![Row::new(Some(vec![Some(1), None, Some(3)]), "ab".to_string())]), 16 + 48 + 2);
}

#[test]
fn buffered_rows_are_set_aside_when_the_join_spills() {
    let desc = HashJoinDesc::create(JoinType::Inner, 1, false, 64, 2, 100).unwrap();
    let mut state = HashJoinState::try_create(desc).unwrap();
    let mut build = HashJoinBuildState::try_create(1).unwrap();
    let mut spill = BuildSpillState::create(64, 2);
    let rows: Vec<Row> = (0..10u64).map(|k| keyed(k, "x")).collect();
    build.add_build_batch(&mut state, &rows).unwrap();
    assert!(spill.check_need_spill(memory_used(&rows)));
    assert!(spill.flush_buffered(&mut state).is_ok());
    assert_eq!(state.build_row_count(), 0);
    assert_eq!(spill.spilled().partition_len(0) + spill.spilled().partition_len(1), 10);
    assert_eq!(build.finalize(&mut state), Arrival::Leader);
    assert_eq!(spill.flush_buffered(&mut state), Err(JoinError::AlreadyBuilt));
    assert_eq!(state.take_build_rows(), Err(JoinError::AlreadyBuilt));
}

#[test]
fn workers_meet_between_partitions_of_a_restore() {
    let mut build = HashJoinBuildState::try_create(2).unwrap();
    assert_eq!(build.arrive_restore(), Arrival::Wait);
    assert_eq!(build.arrive_restore(), Arrival::Leader);
    assert_eq!(build.arrive_restore(), Arrival::Wait);
    let mut probe = HashJoinProbeState::create(2).unwrap();
    assert_eq!(probe.arrive_restore(), Arrival::Wait);
    probe.abort();
    assert_eq!(probe.arrive_restore(), Arrival::Aborted);
    let desc = HashJoinDesc::create(JoinType::Inner, 1, false, 0, 0, 1).unwrap();
    let state = {
        let mut state = HashJoinState::try_create(desc).unwrap();
        let mut build = HashJoinBuildState::try_create(1).unwrap();
        build.finalize(&mut state);
        state
    };
    assert_eq!(probe.finish(&state).unwrap().0, Arrival::Aborted);
}

#[test]
fn a_restored_partition_is_joined_like_any_join() {
    let desc = HashJoinDesc::create(JoinType::Mark, 1, true, 1, 2, 100).unwrap();
    let facts = facts_for(&vec![keyed(1, "a"), Row::new(None, "n".to_string())]);
    assert!(facts.any_rows && facts.any_null_key);
    let mut state = HashJoinState::restore(desc, vec![keyed(1, "a"), keyed(1, "b")], facts);
    assert!(state.ready());
    assert_eq!(state.build_facts(), facts);
    let probe = HashJoinProbeState::create(1).unwrap();
    let batch = vec![keyed(1, "x"), keyed(2, "y")];
    let cands = probe.candidates(&state, &batch).unwrap();
    assert_eq!(cands, vec![vec![0, 1], vec![]]);
    let out = probe.probe_with_masks(&mut state, &batch, &vec![vec![false, true], vec![]]).unwrap();
    let markers: Vec<_> = out.iter().map(|r| r.marker).collect();
    // The second row finds no match, and the build side, seen whole, has a
    // null key: whether the row has a match is unknown.
    assert_eq!(markers, vec![Some(Marker::True), Some(Marker::Unknown)]);
}

#[test]
fn a_partition_is_its_batches_one_after_the_other() {
    assert_eq!(decode_partition(&[]), Some(vec![]));
    let first = vec![keyed(1, "a"), Row::new(None, "n".to_string())];
    let second: Vec<Row> = vec![];
    let third = vec![Row::new(Some(vec![Some(2), None]), "wide".to_string())];
    let mut bytes = encode_batch(&first);
    bytes.extend(encode_batch(&second));
    bytes.extend(encode_batch(&third));
    let all: Vec<Row> = first.iter().chain(third.iter()).cloned().collect();
    assert_eq!(decode_partition(&bytes), Some(all));
    // One batch alone is a partition of one batch; two are no batch.
    assert_eq!(decode_partition(&encode_batch(&first)), Some(first.clone()));
    assert_eq!(decode_batch(&bytes), None);
    for cut in 1..bytes.len() {
        let whole = cut == encode_batch(&first).len() || cut == encode_batch(&first).len() + 8;
        assert_eq!(decode_partition(&bytes[..cut]).is_some(), whole, "cut at {}", cut);
    }
}

#[test]
fn rows_set_aside_by_partition_are_joined_partition_by_partition() {
    let build: Vec<Row> = (0..12u64).map(|k| keyed(k, "b")).collect();
    let probe: Vec<Row> = (6..18u64).map(|k| keyed(k, "p")).collect();
    let mut build_spill = BuildSpillState::create(1, 3);
    let mut probe_spill = ProbeSpillState::create(3);
    for (idx, part) in partition_batch(&build, 3).iter().enumerate() {
        assert_eq!(build_spill.spill_build_partition(idx, part), Ok(()));
        assert_eq!(build_spill.spilled().partition(idx), part);
    }
    for (idx, part) in partition_batch(&probe, 3).iter().enumerate() {
        assert_eq!(probe_spill.spill_probe_partition(idx, part), Ok(()));
        assert_eq!(probe_spill.spill_probe_partition(idx, &vec![]), Ok(()));
        assert_eq!(probe_spill.spilled().partition_len(idx), part.len());
    }
    let mut whole = BuildSpillState::create(1, 3);
    whole.spill(&build);
    for idx in 0..3 {
        assert_eq!(whole.spilled().partition(idx), build_spill.spilled().partition(idx));
    }
    let facts = facts_for(&build);
    let out = restore_round(JoinType::Inner, &build_spill, &probe_spill, &facts);
    let mut keys: Vec<Option<Vec<Option<u64>>>> =
        out.iter().map(|r| r.probe.as_ref().unwrap().key.clone()).collect();
    keys.sort();
    let expected: Vec<Option<Vec<Option<u64>>>> = (6..12u64).map(|k| Some(vec![Some(k)])).collect();
    assert_eq!(keys, expected);
}

#[test]
fn rows_are_refused_by_a_partition_that_is_not_theirs() {
    let rows: Vec<Row> = (0..6u64).map(|k| keyed(k, "r")).collect();
    let parts = partition_batch(&rows, 3);
    let own = (0..3).find(|q| !parts[*q].is_empty()).unwrap();
    let other = (own + 1) % 3;
    let mut build_spill = BuildSpillState::create(1, 3);
    let mut probe_spill = ProbeSpillState::create(3);
    assert_eq!(
        build_spill.spill_build_partition(other, &parts[own]),
        Err(JoinError::WrongPartition)
    );
    assert_eq!(
        probe_spill.spill_probe_partition(other, &parts[own]),
        Err(JoinError::WrongPartition)
    );
    assert_eq!(build_spill.spill_build_partition(3, &parts[own]), Err(JoinError::NoSuchPartition));
    assert_eq!(probe_spill.spill_probe_partition(7, &vec![]), Err(JoinError::NoSuchPartition));
    // One row of another partition among rows of this one: nothing is kept.
    let mut mixed: Vec<Row> = parts[own].clone();
    let stranger = (0..100u64).map(|k| keyed(k, "s")).find(|r| {
        partition_batch(&vec![r.clone()], 3)[own].is_empty()
    });
    mixed.push(stranger.unwrap());
    assert_eq!(build_spill.spill_build_partition(own, &mixed), Err(JoinError::WrongPartition));
    for q in 0..3 {
        assert_eq!(build_spill.spilled().partition_len(q), 0);
        assert_eq!(probe_spill.spilled().partition_len(q), 0);
    }
    // Rows without a key belong to the first partition.
    let null_rows = vec![Row::new(None, "n".to_string())];
    assert_eq!(build_spill.spill_build_partition(0, &null_rows), Ok(()));
    assert_eq!(build_spill.spill_build_partition(1, &null_rows), Err(JoinError::WrongPartition));
    assert_eq!(build_spill.spilled().partition_len(0), 1);
}
