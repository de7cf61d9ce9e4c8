use query_core::join::row::{JoinType, Row};
use query_core::join::runtime_filter::FilterError;
use query_core::join::state::{HashJoinBuildState, JoinError};
use query_core::pipeline::accumulate::{
    AccumulateError, AccumulateRowNumber, NumberBlock, NumberColumn,
};
use query_core::pipeline::builder::{BuildStateInfo, PipelineBuilder, Settings};
use query_core::pipeline::graph::{
    Pipe, PipeItem, Pipeline, PipelineError, Processor, ProcessorKind,
};
use query_core::pipeline::on_finished::{files_to_purge, purged_count};
use query_core::plans::physical::{
    HashJoin, MaterializedCte, PhysicalPlan, RangeJoin, RuntimeFilterSource, StageFileInfo,
    TableScan, UnionAll,
};
use query_core::plans::task::{DataField, DataType};

fn settings(threshold: usize) -> Settings {
    Settings {
        max_threads: 8,
        max_block_size: 1000,
        join_spilling_threshold: threshold,
        join_spilling_partitions: 4,
    }
}

fn scan(plan_id: u32, parallelism: usize, columns: &[(&str, DataType)]) -> PhysicalPlan {
    let output = columns.iter().map(|(n, t)| DataField::new(n, t.duplicate())).collect();
    PhysicalPlan::TableScan(TableScan { plan_id, parallelism, output })
}

fn join(contain_runtime_filter: bool, need_hold_hash_table: bool) -> HashJoin {
    HashJoin {
        plan_id: 5,
        build: scan(1, 2, &[("b", DataType::Int32)]),
        probe: scan(2, 3, &[("c0", DataType::Int32), ("c1", DataType::String), ("c2", DataType::Int64)]),
        join_type: JoinType::Left,
        key_columns: 2,
        non_equi_conditions: 1,
        probe_projections: vec![2, 0],
        contain_runtime_filter,
        need_hold_hash_table,
        output: vec![DataField::new("c1", DataType::String.wrap_nullable())],
    }
}

fn kinds(pipeline: &Pipeline) -> Vec<(ProcessorKind, Option<u32>, usize, usize, usize)> {
    pipeline
        .pipes
        .iter()
        .map(|p| {
            (p.items[0].processor.kind, p.items[0].processor.profiled_as, p.items.len(), p.input_length, p.output_length)
        })
        .collect()
}

#[test]
fn pipeline_stages_chain() {
    let mut pipeline = Pipeline::create();
    assert!(pipeline.is_empty());
    assert_eq!(pipeline.output_len(), 0);
    assert_eq!(pipeline.is_pulling_pipeline(), Err(PipelineError::EmptyPipeline));
    assert_eq!(pipeline.try_resize(4), Err(PipelineError::CannotResize));
    assert_eq!(pipeline.duplicate(), Err(PipelineError::CannotDuplicate));
    let source = Processor { kind: ProcessorKind::Source, profiled_as: None };
    pipeline.add_source(source, 3);
    assert_eq!(pipeline.output_len(), 3);
    assert_eq!(pipeline.is_pulling_pipeline(), Ok(true));
    assert_eq!(pipeline.try_resize(3), Ok(()));
    assert_eq!(pipeline.pipes.len(), 1);
    assert_eq!(pipeline.try_resize(5), Ok(()));
    assert_eq!(pipeline.pipes.len(), 2);
    assert_eq!(pipeline.pipes[1].items.len(), 1);
    assert_eq!((pipeline.pipes[1].items[0].inputs, pipeline.pipes[1].items[0].outputs), (3, 5));
    assert_eq!(pipeline.duplicate(), Ok(()));
    assert_eq!(pipeline.output_len(), 10);
    assert_eq!(pipeline.pipes[2].items.len(), 5);
    pipeline.add_transform(Processor { kind: ProcessorKind::Projection, profiled_as: Some(1) });
    assert_eq!(pipeline.pipes[3].items.len(), 10);
    assert_eq!(pipeline.output_len(), 10);
    pipeline.add_sink(Processor { kind: ProcessorKind::UnionReceiveSink, profiled_as: None });
    assert_eq!(pipeline.output_len(), 0);
    assert_eq!(pipeline.is_pulling_pipeline(), Ok(false));
    let item = PipeItem::create(source, 0, 0);
    pipeline.add_pipe(Pipe::create(0, 0, vec![item]));
    assert_eq!(pipeline.finalize().pipes.len(), 6);
}

#[test]
fn hash_join_is_laid_out_with_spill_and_profiling() {
    let mut builder = PipelineBuilder::create(settings(1024), true, vec![]);
    builder.build_pipeline(&PhysicalPlan::HashJoin(Box::new(join(false, true)))).unwrap();
    assert_eq!(builder.pipelines.len(), 1);
    assert_eq!(
        kinds(&builder.pipelines[0]),
        vec![
            (ProcessorKind::Source, None, 2, 0, 2),
            (ProcessorKind::HashJoinBuild { spill: true }, Some(5), 2, 2, 0),
        ]
    );
    let probe = ProcessorKind::HashJoinProbe {
        join_type: JoinType::Left,
        spill: true,
        has_residual: true,
        has_string_column: true,
        max_block_size: 1000,
    };
    assert_eq!(
        kinds(&builder.main_pipeline),
        vec![
            (ProcessorKind::Source, None, 3, 0, 3),
            (probe, Some(5), 3, 3, 3),
            (ProcessorKind::ProfileStub, None, 3, 3, 3),
        ]
    );
    assert_eq!(builder.join_state, Some(BuildStateInfo { plan_id: 5, workers: 2 }));
    assert_eq!(builder.index, None);
    let fields: Vec<String> =
        builder.probe_data_fields.as_ref().unwrap().iter().map(|f| f.name.clone()).collect();
    assert_eq!(fields, vec!["c0", "c2"]);
}

#[test]
fn join_state_is_set_up_from_plan_and_settings() {
    let builder = PipelineBuilder::create(settings(1024), false, vec![]);
    let state = builder.build_join_state(&join(false, false)).unwrap();
    assert_eq!(state.join_type(), JoinType::Left);
    assert!(!state.ready());
    assert_eq!(state.build_row_count(), 0);
    let mut state = state;
    let build = HashJoinBuildState::try_create(1).unwrap();
    let narrow = vec![Row::new(Some(vec![Some(1)]), "a".to_string())];
    assert_eq!(build.add_build_batch(&mut state, &narrow), Err(JoinError::SchemaMismatch));
    let wide = vec![Row::new(Some(vec![Some(1), Some(2)]), "a".to_string())];
    assert_eq!(build.add_build_batch(&mut state, &wide), Ok(()));
    assert_eq!(state.build_row_count(), 1);
    let mut broken = settings(1024);
    broken.join_spilling_partitions = 0;
    let builder = PipelineBuilder::create(broken, false, vec![]);
    assert_eq!(builder.build_join_state(&join(false, false)).err(), Some(JoinError::InvalidPartitionCount));
    let mut broken = settings(0);
    broken.max_block_size = 0;
    let builder = PipelineBuilder::create(broken, false, vec![]);
    assert_eq!(builder.build_join_state(&join(false, false)).err(), Some(JoinError::InvalidBlockSize));
}

#[test]
fn hash_join_without_spill_or_profiling() {
    let mut builder = PipelineBuilder::create(settings(0), false, vec![]);
    let mut plan = join(false, false);
    plan.non_equi_conditions = 0;
    plan.output = vec![DataField::new("n", DataType::Int32)];
    builder.build_join(&plan).unwrap();
    assert_eq!(
        kinds(&builder.pipelines[0])[1],
        (ProcessorKind::HashJoinBuild { spill: false }, None, 2, 2, 0)
    );
    let probe = ProcessorKind::HashJoinProbe {
        join_type: JoinType::Left,
        spill: false,
        has_residual: false,
        has_string_column: false,
        max_block_size: 1000,
    };
    assert_eq!(kinds(&builder.main_pipeline)[1], (probe, None, 3, 3, 3));
    assert_eq!(builder.main_pipeline.pipes.len(), 2);
    assert_eq!(builder.join_state, None);
    assert!(builder.probe_data_fields.is_none());
    // What the workers share is made for as many of them as there are.
    assert_eq!(builder.build_sides.len(), 1);
    let side = &builder.build_sides[0];
    assert_eq!(side.plan_id, 5);
    assert_eq!(side.state.join_type(), JoinType::Left);
    assert!(!side.state.ready());
    assert_eq!(side.state.build_row_count(), 0);
    assert_eq!(side.build_state.workers(), 2);
    assert_eq!(side.spill_coordinator.total_workers(), 2);
    assert_eq!(side.spill_coordinator.decided(), None);
    assert_eq!(builder.probe_sides.len(), 1);
    assert_eq!(builder.probe_sides[0].plan_id, 5);
    assert_eq!(builder.probe_sides[0].probe_state.workers(), 3);
}

#[test]
fn a_join_that_cannot_be_set_up_is_refused_with_nothing_laid_out() {
    let plan = join(false, false);
    let mut broken = settings(0);
    broken.max_block_size = 0;
    let mut builder = PipelineBuilder::create(broken, false, vec![]);
    assert_eq!(builder.build_join_state(&plan).err(), Some(JoinError::InvalidBlockSize));
    assert_eq!(builder.build_join(&plan), Err(PipelineError::Join(JoinError::InvalidBlockSize)));
    assert!(builder.pipelines.is_empty());
    assert!(builder.main_pipeline.is_empty());
    assert!(builder.build_sides.is_empty() && builder.probe_sides.is_empty());
    assert_eq!(builder.join_state, None);
    assert_eq!(builder.index, None);
    assert!(builder.probe_data_fields.is_none());
    let mut broken = settings(1024);
    broken.join_spilling_partitions = 0;
    let mut builder = PipelineBuilder::create(broken, true, vec![]);
    assert_eq!(
        builder.build_pipeline(&PhysicalPlan::HashJoin(Box::new(join(true, true)))),
        Err(PipelineError::Join(JoinError::InvalidPartitionCount))
    );
    assert!(builder.pipelines.is_empty() && builder.main_pipeline.is_empty());
    assert!(PipelineBuilder::create(broken, false, vec![])
        .finalize(&PhysicalPlan::HashJoin(Box::new(join(false, false))))
        .is_err());
}

#[test]
fn a_probe_side_without_outputs_gets_barriers_for_one_worker() {
    let mut plan = join(false, false);
    plan.probe = scan(2, 0, &[]);
    let mut builder = PipelineBuilder::create(settings(0), false, vec![]);
    builder.build_join(&plan).unwrap();
    assert_eq!(builder.probe_sides[0].probe_state.workers(), 1);
    assert_eq!(builder.build_sides[0].build_state.workers(), 2);
}

#[test]
fn join_with_a_runtime_filter_leaves_its_build_side_open() {
    let mut builder = PipelineBuilder::create(settings(0), false, vec![]);
    let source = RuntimeFilterSource {
        plan_id: 9,
        left_side: scan(3, 4, &[]),
        right_side: scan(4, 1, &[]),
        runtime_filters: vec![0, 1],
        output: vec![],
    };
    assert_eq!(
        builder.expand_runtime_filter_source(&source.right_side),
        Err(PipelineError::MissingState)
    );
    let state = builder.build_join_state(&join(true, false)).unwrap();
    builder.expand_build_side_pipeline(&join(true, false).build, &join(true, false), state).unwrap();
    assert_eq!(builder.index, Some(0));
    assert_eq!(builder.build_sides.len(), 1);
    assert_eq!(builder.build_sides[0].build_state.workers(), 2);
    assert_eq!(builder.build_sides[0].spill_coordinator.total_workers(), 2);
    assert_eq!(builder.join_state, Some(BuildStateInfo { plan_id: 5, workers: 2 }));
    assert_eq!(
        kinds(&builder.pipelines[0]),
        vec![(ProcessorKind::Source, None, 2, 0, 2), (ProcessorKind::Duplicate, None, 2, 2, 4)]
    );
    let mut filters = builder.build_runtime_filter_state(&source);
    assert_eq!(filters.evaluate(0, &vec![Some(1)]), Err(FilterError::NotReady));
    assert_eq!(filters.collect(1, &vec![Some(1)]), Ok(()));
    assert_eq!(filters.collect(2, &vec![Some(1)]), Err(FilterError::UnknownFilter));
    assert!(builder.filter_states.is_empty());
    builder.build_runtime_filter_source(&source).unwrap();
    assert_eq!(builder.filter_states.len(), 1);
    assert_eq!(builder.filter_states[0].collect(0, &vec![None, Some(3)]), Ok(()));
    assert_eq!(builder.filter_states[0].collect(7, &vec![]), Err(FilterError::UnknownFilter));
    let closed = &builder.pipelines[0].pipes[2];
    assert_eq!((closed.input_length, closed.output_length), (4, 0));
    let closing: Vec<ProcessorKind> = closed.items.iter().map(|i| i.processor.kind).collect();
    assert_eq!(
        closing,
        vec![
            ProcessorKind::HashJoinBuild { spill: false },
            ProcessorKind::RuntimeFilterSink,
            ProcessorKind::HashJoinBuild { spill: false },
            ProcessorKind::RuntimeFilterSink,
        ]
    );
    assert_eq!(
        kinds(&builder.main_pipeline),
        vec![(ProcessorKind::Source, None, 4, 0, 4), (ProcessorKind::RuntimeFilter, None, 4, 4, 4)]
    );
}

#[test]
fn range_join_is_laid_out() {
    let plan = RangeJoin { plan_id: 6, left: scan(1, 2, &[]), right: scan(2, 3, &[]), output: vec![] };
    let mut builder = PipelineBuilder::create(settings(0), true, vec![]);
    builder.build_range_join(&plan).unwrap();
    assert_eq!(
        kinds(&builder.pipelines[0]),
        vec![(ProcessorKind::Source, None, 3, 0, 3), (ProcessorKind::RangeJoinRight, Some(6), 3, 3, 0)]
    );
    assert_eq!(
        kinds(&builder.main_pipeline),
        vec![
            (ProcessorKind::Source, None, 2, 0, 2),
            (ProcessorKind::Resize, None, 1, 2, 8),
            (ProcessorKind::RangeJoinLeft, Some(6), 8, 8, 8),
            (ProcessorKind::ProfileStub, None, 8, 8, 8),
        ]
    );
}

#[test]
fn union_and_materialized_cte_are_laid_out() {
    let union = UnionAll { plan_id: 3, left: scan(1, 2, &[]), right: scan(2, 5, &[]), output: vec![] };
    let mut builder = PipelineBuilder::create(settings(0), false, vec![]);
    builder.build_union_all(&union).unwrap();
    assert_eq!(
        kinds(&builder.pipelines[0]),
        vec![(ProcessorKind::Source, None, 5, 0, 5), (ProcessorKind::UnionReceiveSink, None, 5, 5, 0)]
    );
    assert_eq!(
        kinds(&builder.main_pipeline),
        vec![(ProcessorKind::Source, None, 2, 0, 2), (ProcessorKind::MergeBlock, None, 2, 2, 2)]
    );

    let cte = MaterializedCte {
        plan_id: 4,
        left: scan(1, 2, &[]),
        right: scan(2, 1, &[]),
        cte_idx: 11,
        output: vec![],
    };
    let mut builder = PipelineBuilder::create(settings(0), false, vec![]);
    builder.build_materialized_cte(&cte).unwrap();
    assert_eq!(builder.cte_state, vec![11]);
    assert_eq!(
        kinds(&builder.pipelines[0]),
        vec![
            (ProcessorKind::Source, None, 2, 0, 2),
            (ProcessorKind::Projection, None, 2, 2, 2),
            (ProcessorKind::MaterializedCteSink { cte_idx: 11 }, None, 2, 2, 0),
        ]
    );
    assert_eq!(kinds(&builder.main_pipeline), vec![(ProcessorKind::Source, None, 1, 0, 1)]);
}

#[test]
fn a_side_that_gives_no_rows_cannot_be_joined() {
    let mut plan = join(false, false);
    plan.build = scan(1, 0, &[]);
    let mut builder = PipelineBuilder::create(settings(0), false, vec![]);
    assert_eq!(builder.build_join(&plan), Err(PipelineError::NotPulling));
    let mut builder = PipelineBuilder::create(settings(0), false, vec![]);
    builder.build_pipeline(&scan(1, 1, &[])).unwrap();
    assert_eq!(builder.build_pipeline(&scan(2, 1, &[])), Err(PipelineError::NotPulling));
}

#[test]
fn nested_joins_feed_each_other() {
    let inner = PhysicalPlan::HashJoin(Box::new(join(false, false)));
    let mut outer = join(false, false);
    outer.plan_id = 8;
    outer.build = inner;
    let built = PipelineBuilder::create(settings(0), false, vec![])
        .finalize(&PhysicalPlan::HashJoin(Box::new(outer)))
        .unwrap();
    assert_eq!(built.sources_pipelines.len(), 2);
    assert_eq!(built.main_pipeline.output_len(), 3);
    // The build side of the outer join is the inner join with its probing,
    // closed by the outer join's build processors.
    assert_eq!(built.sources_pipelines[0].pipes.len(), 3);
    assert_eq!(built.sources_pipelines[1].pipes.len(), 2);
    // The inner join was set up first, then the outer one around it.
    let builds: Vec<(u32, usize)> =
        built.build_sides.iter().map(|s| (s.plan_id, s.build_state.workers())).collect();
    assert_eq!(builds, vec![(5, 2), (8, 3)]);
    let probes: Vec<(u32, usize)> =
        built.probe_sides.iter().map(|s| (s.plan_id, s.probe_state.workers())).collect();
    assert_eq!(probes, vec![(5, 3), (8, 3)]);
}

#[test]
fn copied_files_are_purged_on_success() {
    let files = vec![
        StageFileInfo { path: "a.csv".to_string(), size: 1 },
        StageFileInfo { path: "b.csv".to_string(), size: 2 },
    ];
    assert_eq!(files_to_purge(false, true, &files), Some(vec!["a.csv".to_string(), "b.csv".to_string()]));
    assert_eq!(files_to_purge(true, true, &files), None);
    assert_eq!(files_to_purge(false, false, &files), None);
    assert_eq!(files_to_purge(false, true, &vec![]), Some(vec![]));
    assert_eq!(purged_count(7), 7);
}

fn row_numbers(values: Vec<u64>) -> NumberBlock {
    NumberBlock { columns: vec![NumberColumn { data_type: DataType::UInt64, values }] }
}

#[test]
fn row_numbers_are_gathered_in_order() {
    let mut accumulator = AccumulateRowNumber::create();
    assert_eq!(accumulator.apply(), Err(AccumulateError::NoBlocks));
    assert!(row_numbers(vec![1]).can_accumulate());
    accumulator.accumulate(row_numbers(vec![3, 1]));
    let empty_join_block = NumberBlock {
        columns: vec![
            NumberColumn { data_type: DataType::String, values: vec![] },
            NumberColumn { data_type: DataType::UInt64, values: vec![] },
        ],
    };
    assert!(empty_join_block.is_empty());
    assert_eq!(empty_join_block.num_columns(), 2);
    assert!(empty_join_block.can_accumulate());
    accumulator.accumulate(empty_join_block);
    accumulator.accumulate(NumberBlock { columns: vec![] });
    accumulator.accumulate(row_numbers(vec![2]));
    assert_eq!(accumulator.apply(), Ok(vec![3, 1, 2]));
    let wrong_type =
        NumberBlock { columns: vec![NumberColumn { data_type: DataType::Int64, values: vec![1] }] };
    assert!(!wrong_type.can_accumulate());
    let two_columns = NumberBlock {
        columns: vec![
            NumberColumn { data_type: DataType::UInt64, values: vec![1] },
            NumberColumn { data_type: DataType::UInt64, values: vec![1] },
        ],
    };
    assert!(!two_columns.can_accumulate());
}
