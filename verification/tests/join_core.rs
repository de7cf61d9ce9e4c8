use query_core::join::barrier::{Arrival, Barrier};
use query_core::join::hash_table::JoinHashTable;
use query_core::join::range_join::{range_join, RangeJoinState, RangePhase, RangeRow};
use query_core::join::row::{
    hash_key, hash_value, same_key, slot_of, JoinType, JoinedRow, Row, NULL_HASH,
};
use query_core::join::runtime_filter::{FilterError, RuntimeFilter, RuntimeFilterState};
use query_core::join::spill::{
    hash_join_spilled, partition_batch, restore_round, BuildSpillCoordinator, BuildSpillState,
    ProbeSpillState,
};
use query_core::join::state::{
    hash_join, leads, HashJoinBuildState, HashJoinDesc, HashJoinProbeState, HashJoinState,
    JoinError,
};
use query_core::join::visited::VisitedBitmap;

fn keyed(key: u64, payload: &str) -> Row {
    Row::new(Some(vec![Some(key)]), payload.to_string())
}

fn single(key: &Option<Vec<Option<u64>>>) -> Option<u64> {
    key.as_ref().map(|values| values[0].unwrap())
}

fn flat(rows: &Vec<JoinedRow>) -> Vec<(Option<(Option<u64>, String)>, Option<(Option<u64>, String)>)> {
    let mut out: Vec<_> = rows
        .iter()
        .map(|r| {
            (
                r.probe.as_ref().map(|p| (single(&p.key), p.payload.clone())),
                r.build.as_ref().map(|b| (single(&b.key), b.payload.clone())),
            )
        })
        .collect();
    out.sort();
    out
}

#[test]
fn hash_is_a_fixed_function_of_the_key() {
    assert_eq!(hash_value(0), 0);
    assert_eq!(hash_value(42), hash_value(42));
    let a = 1u64 ^ (1u64 >> 33);
    let b = a.wrapping_mul(0xff51_afd7_ed55_8ccd);
    assert_eq!(hash_value(1), b ^ (b >> 33));
    assert_eq!(hash_key(&vec![]), 0);
    assert_eq!(hash_key(&vec![Some(1)]), hash_value(hash_value(1)));
    assert_eq!(hash_key(&vec![None]), hash_value(NULL_HASH));
    let two = hash_value(hash_key(&vec![Some(1)]).wrapping_mul(31).wrapping_add(hash_value(2)));
    assert_eq!(hash_key(&vec![Some(1), Some(2)]), two);
    assert_ne!(hash_key(&vec![Some(1), Some(2)]), hash_key(&vec![Some(2), Some(1)]));
    assert_eq!(slot_of(&None, 7), 0);
    assert_eq!(slot_of(&Some(vec![Some(1)]), 7), (hash_key(&vec![Some(1)]) % 7) as usize);
}

#[test]
fn lookup_finds_rows_in_build_order() {
    let rows = vec![keyed(5, "a"), keyed(6, "b"), keyed(5, "c"), Row::new(None, "n".to_string())];
    let table = JoinHashTable::build(&rows, 3);
    assert_eq!(table.lookup(&rows, &Some(vec![Some(5)])), vec![0, 2]);
    assert_eq!(table.lookup(&rows, &Some(vec![Some(6)])), vec![1]);
    assert_eq!(table.lookup(&rows, &Some(vec![Some(7)])), Vec::<usize>::new());
    assert_eq!(table.lookup(&rows, &None), Vec::<usize>::new());
}

#[test]
fn visited_bit_is_claimed_once() {
    let mut bitmap = VisitedBitmap::new(130);
    assert_eq!(bitmap.len(), 130);
    assert!(!bitmap.is_set(64));
    assert!(bitmap.claim(64));
    assert!(!bitmap.claim(64));
    assert!(bitmap.is_set(64));
    assert!(!bitmap.is_set(63));
    assert!(!bitmap.is_set(65));
    assert!(bitmap.claim(129));
    assert!(bitmap.is_set(129));
    assert!(!bitmap.is_set(0));
}

#[test]
fn barrier_releases_on_the_last_arrival_and_can_be_used_again() {
    let mut barrier = Barrier::new(3);
    assert_eq!(barrier.arrive(), Arrival::Wait);
    assert_eq!(barrier.waiting(), 1);
    assert_eq!(barrier.arrive(), Arrival::Wait);
    assert_eq!(barrier.arrive(), Arrival::Leader);
    assert_eq!(barrier.waiting(), 0);
    assert_eq!(barrier.arrive(), Arrival::Wait);
}

#[test]
fn aborted_barrier_tells_everyone() {
    let mut barrier = Barrier::new(2);
    assert_eq!(barrier.arrive(), Arrival::Wait);
    barrier.abort();
    assert_eq!(barrier.arrive(), Arrival::Aborted);
    assert_eq!(barrier.arrive(), Arrival::Aborted);
    assert_eq!(barrier.waiting(), 1);
}

#[test]
fn description_is_checked_when_the_plan_is_made() {
    assert_eq!(
        HashJoinDesc::create(JoinType::Inner, 1, false, 0, 0, 0).err(),
        Some(JoinError::InvalidBlockSize)
    );
    assert_eq!(
        HashJoinDesc::create(JoinType::Inner, 1, false, 1024, 0, 100).err(),
        Some(JoinError::InvalidPartitionCount)
    );
    let desc = HashJoinDesc::create(JoinType::Left, 1, true, 0, 0, 100).unwrap();
    assert!(!desc.spilling_enabled());
    assert_eq!(desc.join_type, JoinType::Left);
    assert!(HashJoinDesc::create(JoinType::Inner, 1, false, 1, 4, 1).unwrap().spilling_enabled());
    assert!(HashJoinBuildState::try_create(0).is_err());
    assert!(HashJoinProbeState::create(0).is_err());
}

#[test]
fn two_build_workers_then_two_probe_workers() {
    let desc = HashJoinDesc::create(JoinType::Full, 1, false, 0, 0, 100).unwrap();
    let mut state = HashJoinState::try_create(desc).unwrap();
    let mut build = HashJoinBuildState::try_create(2).unwrap();
    let probe = HashJoinProbeState::create(2);
    let mut probe = probe.unwrap();

    assert_eq!(probe.probe(&mut state, &vec![keyed(1, "x")]).err(), Some(JoinError::NotReady));
    assert!(build.add_build_batch(&mut state, &vec![keyed(1, "a"), keyed(2, "b")]).is_ok());
    assert_eq!(build.finalize(&mut state), Arrival::Wait);
    assert!(!state.ready());
    assert!(build.add_build_batch(&mut state, &vec![keyed(3, "c")]).is_ok());
    assert_eq!(build.finalize(&mut state), Arrival::Leader);
    assert!(state.ready());
    assert_eq!(state.build_row_count(), 3);
    assert_eq!(
        build.add_build_batch(&mut state, &vec![keyed(4, "d")]).err(),
        Some(JoinError::AlreadyBuilt)
    );

    let first = probe.probe(&mut state, &vec![keyed(1, "x"), keyed(9, "y")]).unwrap();
    assert_eq!(
        flat(&first),
        vec![
            (Some((Some(1), "x".to_string())), Some((Some(1), "a".to_string()))),
            (Some((Some(9), "y".to_string())), None),
        ]
    );
    let second = probe.probe(&mut state, &vec![keyed(3, "z")]).unwrap();
    assert_eq!(second.len(), 1);

    let (arrival, rest) = probe.finish(&state).unwrap();
    assert_eq!(arrival, Arrival::Wait);
    assert!(rest.is_empty());
    let (arrival, rest) = probe.finish(&state).unwrap();
    assert_eq!(arrival, Arrival::Leader);
    assert_eq!(flat(&rest), vec![(None, Some((Some(2), "b".to_string())))]);
}

#[test]
fn a_failed_build_worker_aborts_the_others() {
    let desc = HashJoinDesc::create(JoinType::Inner, 1, false, 0, 0, 100).unwrap();
    let mut state = HashJoinState::try_create(desc).unwrap();
    let mut build = HashJoinBuildState::try_create(3).unwrap();
    assert_eq!(build.finalize(&mut state), Arrival::Wait);
    build.abort();
    assert_eq!(build.finalize(&mut state), Arrival::Aborted);
    assert!(!state.ready());
}

#[test]
fn residual_mask_narrows_the_matches() {
    let desc = HashJoinDesc::create(JoinType::Left, 1, true, 0, 0, 100).unwrap();
    let mut state = HashJoinState::try_create(desc).unwrap();
    let mut build = HashJoinBuildState::try_create(1).unwrap();
    build
        .add_build_batch(&mut state, &vec![keyed(1, "a"), keyed(1, "b"), keyed(2, "c")])
        .unwrap();
    assert_eq!(build.finalize(&mut state), Arrival::Leader);
    let probe = HashJoinProbeState::create(1).unwrap();
    let batch = vec![keyed(1, "x"), keyed(2, "y")];
    assert_eq!(probe.probe(&mut state, &batch).err(), Some(JoinError::ResidualNotEvaluated));
    let cands = probe.candidates(&state, &batch).unwrap();
    assert_eq!(cands, vec![vec![0, 1], vec![2]]);
    assert_eq!(state.build_row(1), Some(&keyed(1, "b")));
    assert_eq!(state.build_row(3), None);
    for bad in [vec![], vec![vec![true, true]], vec![vec![true], vec![true]], vec![vec![true, true], vec![]]] {
        assert_eq!(
            probe.probe_with_masks(&mut state, &batch, &bad).err(),
            Some(JoinError::MaskMismatch)
        );
    }
    assert_eq!(
        probe.probe_with_masks(&mut state, &vec![Row::new(Some(vec![]), String::new())], &vec![vec![]]).err(),
        Some(JoinError::SchemaMismatch)
    );
    let masks = vec![vec![false, true], vec![false]];
    let out = probe.probe_with_masks(&mut state, &batch, &masks).unwrap();
    assert_eq!(
        flat(&out),
        vec![
            (Some((Some(1), "x".to_string())), Some((Some(1), "b".to_string()))),
            (Some((Some(2), "y".to_string())), None),
        ]
    );
}

#[test]
fn partitions_split_rows_by_the_slot_of_their_key() {
    let batch: Vec<Row> = (0..20u64).map(|k| keyed(k, "r")).collect();
    let parts = partition_batch(&batch, 4);
    assert_eq!(parts.len(), 4);
    let mut total = 0;
    for (q, part) in parts.iter().enumerate() {
        total += part.len();
        for row in part {
            assert_eq!(slot_of(&row.key, 4), q);
        }
    }
    assert_eq!(total, 20);
}

#[test]
fn spill_decision_is_made_once_by_all_workers() {
    let mut coordinator = BuildSpillCoordinator::create(3);
    assert_eq!(coordinator.propose(false), None);
    assert_eq!(coordinator.propose(true), None);
    assert_eq!(coordinator.decided(), None);
    assert_eq!(coordinator.propose(false), Some(true));
    assert_eq!(coordinator.propose(false), Some(true));
    assert_eq!(coordinator.decided(), Some(true));

    let mut calm = BuildSpillCoordinator::create(2);
    assert_eq!(calm.propose(false), None);
    assert_eq!(calm.propose(false), Some(false));
}

#[test]
fn spill_threshold_of_zero_turns_spilling_off() {
    assert!(!BuildSpillState::create(0, 4).check_need_spill(usize::MAX));
    let state = BuildSpillState::create(1000, 4);
    assert!(!state.check_need_spill(1000));
    assert!(state.check_need_spill(1001));
}

#[test]
fn two_build_workers_spill_into_four_partitions() {
    let partitions = 4;
    let mut coordinator = BuildSpillCoordinator::create(2);
    let mut build_spill = BuildSpillState::create(1, partitions);
    let mut probe_spill = ProbeSpillState::create(partitions);
    let first: Vec<Row> = (0..1000u64).map(|k| keyed(k, "one")).collect();
    let second: Vec<Row> = (1000..2000u64).map(|k| keyed(k, "two")).collect();
    assert!(build_spill.check_need_spill(16 * first.len()));
    assert_eq!(coordinator.propose(true), None);
    assert_eq!(coordinator.propose(true), Some(true));
    build_spill.spill(&first);
    build_spill.spill(&second);
    let mut sizes = 0;
    for q in 0..partitions {
        sizes += build_spill.spilled().partition_len(q);
    }
    assert_eq!(sizes, 2000);

    let mut probe: Vec<Row> = Vec::new();
    for q in 0..partitions {
        let key = (0..2000u64).find(|k| slot_of(&Some(vec![Some(*k)]), partitions) == q).unwrap();
        probe.push(keyed(key, "p"));
    }
    probe_spill.spill(&probe);
    for q in 0..partitions {
        assert_eq!(probe_spill.spilled().partition_len(q), 1);
    }
    let build_all: Vec<Row> = first.iter().chain(second.iter()).map(|r| r.duplicate()).collect();
    let facts = query_core::join::probe::facts_for(&build_all);
    let out = restore_round(JoinType::Inner, &build_spill, &probe_spill, &facts);
    assert_eq!(out.len(), 4);
    let rows = flat(&out);
    for pair in rows.windows(2) {
        assert_ne!(pair[0], pair[1]);
    }
    for row in &out {
        assert_eq!(row.probe.as_ref().unwrap().key, row.build.as_ref().unwrap().key);
    }
    assert_eq!(rows, flat(&hash_join(JoinType::Inner, &build_all, &probe)));
}

#[test]
fn spilled_join_returns_the_same_rows_as_the_join_in_memory() {
    let build = vec![
        keyed(1, "a"),
        keyed(2, "b"),
        keyed(1, "c"),
        Row::new(None, "n".to_string()),
        keyed(7, "d"),
    ];
    let probe = vec![keyed(1, "x"), keyed(3, "y"), Row::new(None, "m".to_string()), keyed(7, "z")];
    for jt in [
        JoinType::Inner,
        JoinType::Left,
        JoinType::Right,
        JoinType::Full,
        JoinType::Semi,
        JoinType::Anti,
        JoinType::Mark,
    ] {
        for partitions in [1usize, 2, 3, 8] {
            let whole = hash_join(jt, &build, &probe);
            let spilled = hash_join_spilled(jt, &build, &probe, partitions);
            assert_eq!(flat(&whole), flat(&spilled));
            let mut a: Vec<_> = whole.iter().map(|r| r.marker).collect();
            let mut b: Vec<_> = spilled.iter().map(|r| r.marker).collect();
            a.sort_by_key(|m| format!("{:?}", m));
            b.sort_by_key(|m| format!("{:?}", m));
            assert_eq!(a, b);
        }
    }
}

#[test]
fn inner_join_has_one_row_for_each_matching_pair() {
    let build = vec![keyed(1, "a"), keyed(1, "b"), keyed(2, "c")];
    let probe = vec![keyed(1, "x"), keyed(1, "y"), keyed(2, "z"), keyed(3, "w")];
    assert_eq!(hash_join(JoinType::Inner, &build, &probe).len(), 2 * 2 + 1);
}

#[test]
fn runtime_filter_never_excludes_a_build_key() {
    let mut filter = RuntimeFilter::new(100);
    assert_eq!(filter.evaluate(&vec![Some(1)]).err(), Some(FilterError::NotReady));
    filter.collect(&vec![Some(10), None, Some(20)]).unwrap();
    filter.collect(&vec![Some(15)]).unwrap();
    filter.publish().unwrap();
    assert_eq!(filter.publish().err(), Some(FilterError::AlreadyPublished));
    assert_eq!(filter.collect(&vec![Some(1)]).err(), Some(FilterError::AlreadyPublished));
    let mask = filter.evaluate(&vec![Some(10), Some(20), Some(15), Some(9), Some(21), None]).unwrap();
    assert_eq!(&mask[0..3], &[true, true, true]);
    assert_eq!(&mask[3..], &[false, false, false]);
}

#[test]
fn runtime_filter_over_its_limit_passes_everything() {
    let mut filter = RuntimeFilter::new(2);
    filter.collect(&vec![Some(1), Some(2), Some(3)]).unwrap();
    filter.publish().unwrap();
    assert_eq!(filter.evaluate(&vec![Some(99), None]).unwrap(), vec![true, true]);
}

#[test]
fn empty_runtime_filter_excludes_everything() {
    let mut filter = RuntimeFilter::new(2);
    filter.publish().unwrap();
    assert_eq!(filter.evaluate(&vec![Some(0), None]).unwrap(), vec![false, false]);
}

#[test]
fn runtime_filters_are_kept_by_id() {
    let mut state = RuntimeFilterState::new(vec![7, 9], 100);
    assert_eq!(state.collect(8, &vec![Some(1)]).err(), Some(FilterError::UnknownFilter));
    state.collect(7, &vec![Some(1)]).unwrap();
    state.collect(9, &vec![Some(5)]).unwrap();
    assert_eq!(state.evaluate(7, &vec![Some(1)]).err(), Some(FilterError::NotReady));
    state.publish().unwrap();
    assert_eq!(state.publish().err(), Some(FilterError::AlreadyPublished));
    assert_eq!(state.evaluate(7, &vec![Some(1), Some(5)]).unwrap(), vec![true, false]);
    assert_eq!(state.evaluate(9, &vec![Some(1), Some(5)]).unwrap(), vec![false, true]);
    assert_eq!(state.evaluate(1, &vec![]).err(), Some(FilterError::UnknownFilter));
}

#[test]
fn range_join_pairs_overlapping_ranges() {
    let left = vec![
        RangeRow { start: 1, end: 5 },
        RangeRow { start: 4, end: 4 },
        RangeRow { start: 10, end: 12 },
    ];
    let right = vec![
        RangeRow { start: 0, end: 0 },
        RangeRow { start: 2, end: 3 },
        RangeRow { start: 5, end: 11 },
        RangeRow { start: 13, end: 20 },
    ];
    assert_eq!(range_join(&left, &right), vec![(0, 1), (0, 2), (2, 2)]);
    assert_eq!(range_join(&vec![], &right), vec![]);
    assert_eq!(range_join(&left, &vec![]), vec![]);
}

#[test]
fn range_join_sweep_goes_through_its_phases() {
    let left = vec![RangeRow { start: 1, end: 2 }];
    let right = vec![RangeRow { start: 2, end: 9 }];
    let mut state = RangeJoinState::new();
    assert_eq!(state.phase, RangePhase::ScanLeft);
    assert_eq!(state.step(&left, &right), None);
    assert_eq!(state.phase, RangePhase::ScanRight);
    assert_eq!(state.step(&left, &right), None);
    assert_eq!(state.phase, RangePhase::EmitPairs);
    assert_eq!(state.step(&left, &right), Some((0, 0)));
    assert_eq!(state.phase, RangePhase::ScanRight);
    assert_eq!(state.step(&left, &right), None);
    assert_eq!(state.phase, RangePhase::ScanLeft);
    assert_eq!(state.step(&left, &right), None);
    assert_eq!(state.phase, RangePhase::Done);
    assert_eq!(state.step(&left, &right), None);
    assert_eq!(state.phase, RangePhase::Done);
}

#[test]
fn a_null_among_the_key_columns_makes_the_key_null_unless_nulls_are_values() {
    let plain = Row::from_columns(vec![Some(1), Some(2)], false, "p".to_string());
    assert_eq!(plain.key, Some(vec![Some(1), Some(2)]));
    assert_eq!(plain.payload, "p");
    let holed = Row::from_columns(vec![Some(1), None], false, "h".to_string());
    assert_eq!(holed.key, None);
    let kept = Row::from_columns(vec![Some(1), None], true, "k".to_string());
    assert_eq!(kept.key, Some(vec![Some(1), None]));
    let none = Row::from_columns(vec![], false, String::new());
    assert_eq!(none.key, Some(vec![]));
}

#[test]
fn keys_are_the_same_when_all_their_values_are() {
    let a = Some(vec![Some(1), None, Some(3)]);
    assert!(same_key(&a, &Some(vec![Some(1), None, Some(3)])));
    assert!(!same_key(&a, &Some(vec![Some(1), None])));
    assert!(!same_key(&a, &Some(vec![Some(1), Some(0), Some(3)])));
    assert!(!same_key(&a, &Some(vec![Some(1), None, Some(4)])));
    assert!(!same_key(&a, &None));
    assert!(same_key(&None, &None));
    assert!(same_key(&Some(vec![]), &Some(vec![])));
    assert!(!same_key(&Some(vec![]), &None));
}

#[test]
fn rows_with_several_key_columns_pair_up_on_all_of_them() {
    let wide = |a: u64, b: u64, payload: &str| {
        Row::from_columns(vec![Some(a), Some(b)], false, payload.to_string())
    };
    let build = vec![wide(1, 1, "a"), wide(1, 2, "b"), wide(2, 1, "c"), wide(1, 2, "d")];
    let probe = vec![wide(1, 2, "x"), wide(2, 2, "y"), wide(2, 1, "z")];
    let out = hash_join(JoinType::Inner, &build, &probe);
    let pairs: Vec<(String, String)> = out
        .iter()
        .map(|r| {
            (r.probe.as_ref().unwrap().payload.clone(), r.build.as_ref().unwrap().payload.clone())
        })
        .collect();
    let expected: Vec<(String, String)> = [("x", "b"), ("x", "d"), ("z", "c")]
        .iter()
        .map(|(p, b)| (p.to_string(), b.to_string()))
        .collect();
    assert_eq!(pairs, expected);
    let table = JoinHashTable::build(&build, 2);
    assert_eq!(table.lookup(&build, &Some(vec![Some(1), Some(2)])), vec![1, 3]);
    assert_eq!(table.lookup(&build, &Some(vec![Some(1)])), Vec::<usize>::new());
}

#[test]
fn nulls_pair_up_only_under_null_safe_equality() {
    let rows = |null_safe: bool| -> (Vec<Row>, Vec<Row>) {
        let build = vec![
            Row::from_columns(vec![None], null_safe, "a".to_string()),
            Row::from_columns(vec![Some(1)], null_safe, "b".to_string()),
        ];
        let probe = vec![
            Row::from_columns(vec![None], null_safe, "x".to_string()),
            Row::from_columns(vec![Some(1)], null_safe, "y".to_string()),
        ];
        (build, probe)
    };
    let (build, probe) = rows(false);
    let out = hash_join(JoinType::Inner, &build, &probe);
    assert_eq!(out.len(), 1);
    assert_eq!(out[0].probe.as_ref().unwrap().payload, "y");
    assert_eq!(out[0].build.as_ref().unwrap().payload, "b");
    let (build, probe) = rows(true);
    let out = hash_join(JoinType::Inner, &build, &probe);
    assert_eq!(out.len(), 2);
    assert_eq!(out[0].probe.as_ref().unwrap().payload, "x");
    assert_eq!(out[0].build.as_ref().unwrap().payload, "a");
    assert_eq!(out[1].probe.as_ref().unwrap().payload, "y");
    assert_eq!(out[1].build.as_ref().unwrap().payload, "b");
    let anti = hash_join(JoinType::Anti, &build, &probe);
    assert!(anti.is_empty());
}

#[test]
fn a_batch_of_another_shape_is_refused_as_a_whole() {
    let desc = HashJoinDesc::create(JoinType::Inner, 2, false, 0, 0, 100).unwrap();
    let wide = |a: u64, b: u64| Row::new(Some(vec![Some(a), Some(b)]), "w".to_string());
    assert_eq!(desc.check_batch(&vec![]), Ok(()));
    assert_eq!(desc.check_batch(&vec![wide(1, 2), Row::new(None, "n".to_string())]), Ok(()));
    assert_eq!(
        desc.check_batch(&vec![wide(1, 2), keyed(1, "narrow")]),
        Err(JoinError::SchemaMismatch)
    );
    assert_eq!(
        desc.check_batch(&vec![Row::new(Some(vec![Some(1), None, Some(3)]), String::new())]),
        Err(JoinError::SchemaMismatch)
    );
    let mut state = HashJoinState::try_create(desc).unwrap();
    let mut build = HashJoinBuildState::try_create(1).unwrap();
    let probe = HashJoinProbeState::create(1).unwrap();
    assert!(build.add_build_batch(&mut state, &vec![wide(1, 2)]).is_ok());
    assert_eq!(
        build.add_build_batch(&mut state, &vec![wide(3, 4), keyed(5, "narrow")]).err(),
        Some(JoinError::SchemaMismatch)
    );
    assert_eq!(state.build_row_count(), 1);
    assert_eq!(probe.probe(&mut state, &vec![keyed(1, "p")]).err(), Some(JoinError::NotReady));
    assert_eq!(build.finalize(&mut state), Arrival::Leader);
    assert_eq!(
        build.add_build_batch(&mut state, &vec![keyed(5, "narrow")]).err(),
        Some(JoinError::AlreadyBuilt)
    );
    assert_eq!(
        probe.probe(&mut state, &vec![keyed(1, "p")]).err(),
        Some(JoinError::SchemaMismatch)
    );
    assert_eq!(
        probe.candidates(&state, &vec![wide(1, 2), keyed(1, "p")]).err(),
        Some(JoinError::SchemaMismatch)
    );
    assert_eq!(probe.candidates(&state, &vec![wide(1, 2), wide(2, 1)]), Ok(vec![vec![0], vec![]]));
    assert_eq!(probe.probe(&mut state, &vec![wide(1, 2)]).unwrap().len(), 1);
}

#[test]
fn nothing_is_probed_or_finished_before_the_table_is_built() {
    let desc = HashJoinDesc::create(JoinType::Right, 1, true, 0, 0, 100).unwrap();
    let mut state = HashJoinState::try_create(desc).unwrap();
    let mut build = HashJoinBuildState::try_create(1).unwrap();
    let mut probe = HashJoinProbeState::create(1).unwrap();
    build.add_build_batch(&mut state, &vec![keyed(1, "a")]).unwrap();
    let batch = vec![keyed(1, "x")];
    assert_eq!(probe.candidates(&state, &batch).err(), Some(JoinError::NotReady));
    assert_eq!(
        probe.probe_with_masks(&mut state, &batch, &vec![vec![true]]).err(),
        Some(JoinError::NotReady)
    );
    assert_eq!(probe.finish(&state).err(), Some(JoinError::NotReady));
    assert_eq!(build.finalize(&mut state), Arrival::Leader);
    // The refused call did not count as an arrival: the one worker is
    // still the last to arrive.
    let (arrival, rest) = probe.finish(&state).unwrap();
    assert_eq!(arrival, Arrival::Leader);
    assert_eq!(rest.len(), 1);
}

#[test]
fn a_failed_peer_fails_every_worker_that_arrives() {
    assert_eq!(HashJoinBuildState::try_create(0).err(), Some(JoinError::NoWorkers));
    assert_eq!(HashJoinProbeState::create(0).err(), Some(JoinError::NoWorkers));
    assert_eq!(leads(Arrival::Leader), Ok(true));
    assert_eq!(leads(Arrival::Wait), Ok(false));
    assert_eq!(leads(Arrival::Aborted), Err(JoinError::Aborted));
    let desc = HashJoinDesc::create(JoinType::Inner, 1, false, 0, 0, 100).unwrap();
    let mut state = HashJoinState::try_create(desc).unwrap();
    let mut build = HashJoinBuildState::try_create(3).unwrap();
    assert_eq!(leads(build.finalize(&mut state)), Ok(false));
    build.abort();
    assert_eq!(leads(build.finalize(&mut state)), Err(JoinError::Aborted));
    assert_eq!(leads(build.finalize(&mut state)), Err(JoinError::Aborted));
    assert!(!state.ready());
}

#[test]
fn runtime_filter_gives_up_with_the_first_key_over_its_limit() {
    let mut filter = RuntimeFilter::new(3);
    filter.collect(&vec![Some(5), None, Some(5)]).unwrap();
    filter.collect(&vec![None, Some(6)]).unwrap();
    let mut at_limit = RuntimeFilter::new(3);
    at_limit.collect(&vec![Some(5), Some(5), Some(6)]).unwrap();
    at_limit.publish().unwrap();
    filter.publish().unwrap();
    // Three keys, one of them twice: the limit is reached, not passed.
    assert_eq!(filter.evaluate(&vec![Some(5), Some(6), Some(7), None]).unwrap(), vec![true, true, false, false]);
    assert_eq!(at_limit.evaluate(&vec![Some(7), None]).unwrap(), vec![false, false]);
    let mut over = RuntimeFilter::new(3);
    over.collect(&vec![Some(5), Some(5)]).unwrap();
    over.collect(&vec![Some(5), None, Some(5)]).unwrap();
    over.publish().unwrap();
    assert_eq!(over.evaluate(&vec![Some(7), None, Some(5)]).unwrap(), vec![true, true, true]);
    assert_eq!(over.evaluate(&vec![Some(7), None, Some(5)]).unwrap(), vec![true, true, true]);
    let mut none = RuntimeFilter::new(0);
    none.collect(&vec![None, None]).unwrap();
    none.publish().unwrap();
    assert_eq!(none.evaluate(&vec![Some(1)]).unwrap(), vec![false]);
    let mut first = RuntimeFilter::new(0);
    first.collect(&vec![Some(1)]).unwrap();
    first.publish().unwrap();
    assert_eq!(first.evaluate(&vec![Some(2), None]).unwrap(), vec![true, true]);
}
