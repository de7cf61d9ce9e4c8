//! What the builder lays out for a plan, said of the plan alone: the stages
//! of the main pipeline and of the pipelines that feed it, and what is
//! noted of joins on the way. The builder's functions are held to this.

use vstd::prelude::*;
use crate::join::row::RowView;
use crate::join::state::{HashJoinDesc, JoinError};
use crate::pipeline::builder::{
    filter_source_pipe, plain, probe_tail, projected, set_up, BuildStateInfo, Settings,
};
use crate::pipeline::graph::{
    sink_pipe, source_pipe, transform_pipe, width_of, PipeView, Pipeline, PipelineError,
    ProcessorKind,
};
use crate::plans::physical::{
    HashJoin, MaterializedCte, PhysicalPlan, RangeJoin, RuntimeFilterSource, UnionAll,
};
use crate::plans::task::DataField;

verus! {

/// What a builder holds, by the stages of its pipelines.
pub struct Layout {
    /// The session that the builder lays plans out in.
    pub session: Session,
    /// The stages of the main pipeline.
    pub trunk: Seq<PipeView>,
    /// The stages of the pipelines that feed the main one.
    pub feeders: Seq<Seq<PipeView>>,
    pub join_state: Option<BuildStateInfo>,
    pub index: Option<usize>,
    pub probe_data_fields: Option<Seq<DataField>>,
    pub cte_state: Seq<usize>,
    /// What is set up for the build sides of the joins laid out so far.
    pub build_sides: Seq<BuildSideNote>,
    /// What is set up for their probe sides.
    pub probe_sides: Seq<ProbeSideNote>,
    /// For each runtime filter source laid out so far, the ids of the
    /// filters that were set up for it.
    pub filter_states: Seq<Seq<usize>>,
}

/// The shared state of a join, by what it holds.
pub struct JoinStateView {
    pub desc: HashJoinDesc,
    pub build_rows: Seq<RowView>,
    pub ready: bool,
}

/// What is set up for the build side of a join when it is laid out: the
/// state that the join's workers share, and a build barrier, a restore
/// barrier and a spill coordinator, each made for `workers` workers.
pub struct BuildSideNote {
    pub plan_id: u32,
    pub state: JoinStateView,
    pub workers: usize,
}

/// What is set up for the probe side of a join when it is laid out: a
/// probe barrier and a restore barrier, each made for `workers` workers.
pub struct ProbeSideNote {
    pub plan_id: u32,
    pub workers: usize,
}

/// A join as the planner describes it, in a session.
pub open spec fn join_desc(join: &HashJoin, settings: Settings) -> HashJoinDesc {
    HashJoinDesc {
        join_type: join.join_type,
        key_columns: join.key_columns,
        has_residual: join.non_equi_conditions != 0,
        spill_threshold: settings.join_spilling_threshold,
        partition_count: settings.join_spilling_partitions,
        max_block_size: settings.max_block_size,
    }
}

/// What is wrong with a join in a session, if anything is.
pub open spec fn join_fault(settings: Settings) -> Option<JoinError> {
    HashJoinDesc::fault(
        settings.join_spilling_threshold,
        settings.join_spilling_partitions,
        settings.max_block_size,
    )
}

/// The state of a join that has seen no row yet.
pub open spec fn new_state(desc: HashJoinDesc) -> JoinStateView {
    JoinStateView { desc, build_rows: Seq::empty(), ready: false }
}

/// The number of workers that the barriers of a probe side are made for: one
/// for each output of the probe side, and one where it has none.
pub open spec fn probe_workers(width: usize) -> usize {
    if width == 0 {
        1
    } else {
        width
    }
}

/// The session that a plan is laid out in.
pub struct Session {
    pub settings: Settings,
    pub profiling: bool,
}

/// The layout of a builder that has built nothing yet.
pub open spec fn fresh(cte_state: Seq<usize>, session: Session) -> Layout {
    Layout {
        session,
        trunk: Seq::empty(),
        feeders: Seq::empty(),
        join_state: None,
        index: None,
        probe_data_fields: None,
        cte_state,
        build_sides: Seq::empty(),
        probe_sides: Seq::empty(),
        filter_states: Seq::empty(),
    }
}

/// What there is after a plan that was built apart is taken over: its main
/// pipeline, with the stages `main`, comes behind the feeders there are, and
/// its own feeders behind that; what it set up for its joins and filters
/// comes behind what was set up before.
pub open spec fn taken_over(at: Layout, apart: Layout, main: Seq<PipeView>) -> Layout {
    Layout {
        feeders: at.feeders.push(main) + apart.feeders,
        build_sides: at.build_sides + apart.build_sides,
        probe_sides: at.probe_sides + apart.probe_sides,
        filter_states: at.filter_states + apart.filter_states,
        ..at
    }
}

/// What stands in the way of pulling rows from some stages.
pub open spec fn not_pulling(stages: Seq<PipeView>) -> Option<PipelineError> {
    if stages.len() == 0 {
        Some(PipelineError::EmptyPipeline)
    } else if width_of(stages) == 0 {
        Some(PipelineError::NotPulling)
    } else {
        None
    }
}

/// The feeder that a runtime filter source closes: the one the join noted
/// when it left its build side open. Its outputs come in twins.
pub open spec fn filter_source_place(at: Layout) -> Result<usize, PipelineError> {
    match (at.index, at.join_state) {
        (Some(place), Some(_)) => if place >= at.feeders.len() {
            Err(PipelineError::MissingState)
        } else if width_of(at.feeders[place as int]) % 2 != 0 {
            Err(PipelineError::OddWidth)
        } else {
            Ok(place)
        },
        _ => Err(PipelineError::MissingState),
    }
}

/// The build side that a join left open, closed by the source of its
/// runtime filter.
pub open spec fn filter_source_closed(at: Layout) -> Result<Layout, PipelineError> {
    match filter_source_place(at) {
        Err(e) => Err(e),
        Ok(place) => Ok(
            Layout {
                feeders: at.feeders.update(
                    place as int,
                    at.feeders[place as int].push(
                        filter_source_pipe(width_of(at.feeders[place as int])),
                    ),
                ),
                ..at
            },
        ),
    }
}

/// A plan laid out behind what is there.
pub open spec fn laid_out(plan: &PhysicalPlan, at: Layout, session: Session) -> Result<
    Layout,
    PipelineError,
>
    decreases plan, 0nat,
{
    match plan {
        PhysicalPlan::TableScan(scan) => if at.trunk.len() == 0 {
            Ok(
                Layout {
                    trunk: seq![source_pipe(scan.parallelism, plain(ProcessorKind::Source))],
                    ..at
                },
            )
        } else {
            Err(PipelineError::NotPulling)
        },
        PhysicalPlan::HashJoin(join) => join_laid_out(join, at, session),
        PhysicalPlan::RangeJoin(join) => range_join_laid_out(join, at, session),
        PhysicalPlan::UnionAll(union) => union_laid_out(union, at, session),
        PhysicalPlan::MaterializedCte(cte) => cte_laid_out(cte, at, session),
        PhysicalPlan::RuntimeFilterSource(source) => filter_source_laid_out(source, at, session),
    }
}

/// A hash join: its build side apart, its probe side on the main pipeline
/// with the probing behind it. A join that cannot be set up in the session
/// is refused before anything is laid out.
pub open spec fn join_laid_out(join: &HashJoin, at: Layout, session: Session) -> Result<
    Layout,
    PipelineError,
>
    decreases join, 3nat,
{
    match join_fault(session.settings) {
        Some(e) => Err(PipelineError::Join(e)),
        None => match build_side_laid_out(
            &join.build,
            join,
            new_state(join_desc(join, session.settings)),
            at,
            session,
        ) {
            Err(e) => Err(e),
            Ok(built) => probe_laid_out(join, built, session),
        },
    }
}

/// The build side of a join as a pipeline of its own, with what is set up
/// for its workers. Where the join feeds a runtime filter, every output is
/// given a twin and the pipeline is left open; else it ends in the
/// processors that build the table. The barriers and the spill coordinator
/// are made for as many workers as the pipeline has outputs.
pub open spec fn build_side_laid_out(
    build: &PhysicalPlan,
    join: &HashJoin,
    state: JoinStateView,
    at: Layout,
    session: Session,
) -> Result<Layout, PipelineError>
    decreases build, 2nat,
{
    match laid_out(build, fresh(at.cte_state, session), session) {
        Err(e) => Err(e),
        Ok(apart) => match not_pulling(apart.trunk) {
            Some(e) => Err(e),
            None => {
                let workers = width_of(apart.trunk);
                let noted = BuildStateInfo { plan_id: join.plan_id, workers };
                let side = BuildSideNote { plan_id: join.plan_id, state, workers };
                if join.contain_runtime_filter {
                    match Pipeline::duplicated(apart.trunk) {
                        Err(e) => Err(e),
                        Ok(stages) => {
                            let taken = taken_over(at, apart, stages);
                            Ok(
                                Layout {
                                    join_state: Some(noted),
                                    index: Some(at.feeders.len() as usize),
                                    build_sides: taken.build_sides.push(side),
                                    ..taken
                                },
                            )
                        },
                    }
                } else {
                    let taken = taken_over(
                        at,
                        apart,
                        apart.trunk.push(
                            sink_pipe(
                                workers,
                                set_up(
                                    ProcessorKind::HashJoinBuild {
                                        spill: session.settings.join_spilling_threshold != 0,
                                    },
                                    join.plan_id,
                                    session.profiling,
                                ),
                            ),
                        ),
                    );
                    Ok(
                        Layout {
                            join_state: if join.need_hold_hash_table {
                                Some(noted)
                            } else {
                                at.join_state
                            },
                            build_sides: taken.build_sides.push(side),
                            ..taken
                        },
                    )
                }
            },
        },
    }
}

/// The probe side of a join on the main pipeline, with the probing behind
/// it and barriers made for its workers. For a join whose table is held,
/// the columns of the probe side that the join hands on are noted.
pub open spec fn probe_laid_out(join: &HashJoin, at: Layout, session: Session) -> Result<
    Layout,
    PipelineError,
>
    decreases join, 2nat,
{
    match laid_out(&join.probe, at, session) {
        Err(e) => Err(e),
        Ok(probe) => Ok(
            Layout {
                trunk: probe.trunk + probe_tail(
                    join,
                    session.settings,
                    session.profiling,
                    width_of(probe.trunk),
                ),
                probe_data_fields: if join.need_hold_hash_table {
                    Some(
                        projected(
                            join.probe.output()@,
                            join.probe_projections@,
                            join.probe.output()@.len(),
                        ),
                    )
                } else {
                    probe.probe_data_fields
                },
                probe_sides: probe.probe_sides.push(
                    ProbeSideNote {
                        plan_id: join.plan_id,
                        workers: probe_workers(width_of(probe.trunk)),
                    },
                ),
                ..probe
            },
        ),
    }
}

/// A range join: its right side apart, its left side on the main pipeline
/// with the join behind it and, where profiling is on, the stub that counts
/// its output.
pub open spec fn range_join_laid_out(join: &RangeJoin, at: Layout, session: Session) -> Result<
    Layout,
    PipelineError,
>
    decreases join, 3nat,
{
    match right_side_laid_out(join, at, session) {
        Err(e) => Err(e),
        Ok(right) => match left_side_laid_out(join, right, session) {
            Err(e) => Err(e),
            Ok(left) => if session.profiling {
                Ok(
                    Layout {
                        trunk: left.trunk.push(
                            transform_pipe(
                                width_of(left.trunk),
                                plain(ProcessorKind::ProfileStub),
                            ),
                        ),
                        ..left
                    },
                )
            } else {
                Ok(left)
            },
        },
    }
}

/// The right side of a range join as a pipeline of its own that ends in
/// the processors that gather its rows.
pub open spec fn right_side_laid_out(join: &RangeJoin, at: Layout, session: Session) -> Result<
    Layout,
    PipelineError,
>
    decreases join, 1nat,
{
    match laid_out(&join.right, fresh(at.cte_state, session), session) {
        Err(e) => Err(e),
        Ok(apart) => Ok(
            taken_over(at, apart, apart.trunk.push(
                        sink_pipe(
                            width_of(apart.trunk),
                            set_up(ProcessorKind::RangeJoinRight, join.plan_id, session.profiling),
                        ),
                    )),
        ),
    }
}

/// The left side of a range join on the main pipeline, spread over the
/// session's threads, with the join behind it.
pub open spec fn left_side_laid_out(join: &RangeJoin, at: Layout, session: Session) -> Result<
    Layout,
    PipelineError,
>
    decreases join, 2nat,
{
    match laid_out(&join.left, at, session) {
        Err(e) => Err(e),
        Ok(left) => match Pipeline::resized(left.trunk, session.settings.max_threads) {
            Err(e) => Err(e),
            Ok(stages) => Ok(
                Layout {
                    trunk: stages.push(
                        transform_pipe(
                            width_of(stages),
                            set_up(ProcessorKind::RangeJoinLeft, join.plan_id, session.profiling),
                        ),
                    ),
                    ..left
                },
            ),
        },
    }
}

/// A plan that is filtered by what the build side of its join holds: the
/// filters are set up, one for each id, the build side is closed by the
/// filter's source, and the left side is built with the filter behind it.
pub open spec fn filter_source_laid_out(
    source: &RuntimeFilterSource,
    at: Layout,
    session: Session,
) -> Result<Layout, PipelineError>
    decreases source, 3nat,
{
    let noted = Layout { filter_states: at.filter_states.push(source.runtime_filters@), ..at };
    match filter_source_closed(noted) {
        Err(e) => Err(e),
        Ok(closed) => filtered_laid_out(&source.left_side, closed, session),
    }
}

/// A plan on the main pipeline with a runtime filter behind it.
pub open spec fn filtered_laid_out(left_side: &PhysicalPlan, at: Layout, session: Session) -> Result<
    Layout,
    PipelineError,
>
    decreases left_side, 1nat,
{
    match laid_out(left_side, at, session) {
        Err(e) => Err(e),
        Ok(left) => Ok(
            Layout {
                trunk: left.trunk.push(
                    transform_pipe(width_of(left.trunk), plain(ProcessorKind::RuntimeFilter)),
                ),
                ..left
            },
        ),
    }
}

/// A common table expression that is kept: the plan that computes it
/// apart, the plan that reads it on the main pipeline.
pub open spec fn cte_laid_out(cte: &MaterializedCte, at: Layout, session: Session) -> Result<
    Layout,
    PipelineError,
>
    decreases cte, 3nat,
{
    match cte_side_laid_out(&cte.left, cte.cte_idx, at, session) {
        Err(e) => Err(e),
        Ok(kept) => laid_out(&cte.right, kept, session),
    }
}

/// The plan that computes a common table expression as a pipeline of its
/// own: its result is projected, and one sink for each output keeps the
/// rows under the expression's index.
pub open spec fn cte_side_laid_out(
    left_side: &PhysicalPlan,
    cte_idx: usize,
    at: Layout,
    session: Session,
) -> Result<Layout, PipelineError>
    decreases left_side, 2nat,
{
    let noted = at.cte_state.push(cte_idx);
    match laid_out(left_side, fresh(noted, session), session) {
        Err(e) => Err(e),
        Ok(apart) => match not_pulling(apart.trunk) {
            Some(e) => Err(e),
            None => Ok(
                Layout { cte_state: noted, ..taken_over(at, apart, apart.trunk.push(
                            transform_pipe(
                                width_of(apart.trunk),
                                plain(ProcessorKind::Projection),
                            ),
                        ).push(
                            sink_pipe(
                                width_of(apart.trunk),
                                plain(ProcessorKind::MaterializedCteSink { cte_idx }),
                            ),
                        )) },
            ),
        },
    }
}

/// A union: its left side on the main pipeline, its right side apart, and
/// behind the left side the processors that merge in what the right side
/// sends.
pub open spec fn union_laid_out(union: &UnionAll, at: Layout, session: Session) -> Result<
    Layout,
    PipelineError,
>
    decreases union, 3nat,
{
    match laid_out(&union.left, at, session) {
        Err(e) => Err(e),
        Ok(left) => match union_side_laid_out(&union.right, union, left, session) {
            Err(e) => Err(e),
            Ok(both) => Ok(
                Layout {
                    trunk: both.trunk.push(
                        transform_pipe(
                            width_of(both.trunk),
                            set_up(ProcessorKind::MergeBlock, union.plan_id, session.profiling),
                        ),
                    ),
                    ..both
                },
            ),
        },
    }
}

/// The right side of a union as a pipeline of its own that ends in the
/// sinks that send its rows to the left side.
pub open spec fn union_side_laid_out(
    input: &PhysicalPlan,
    union: &UnionAll,
    at: Layout,
    session: Session,
) -> Result<Layout, PipelineError>
    decreases input, 2nat,
{
    match laid_out(input, fresh(at.cte_state, session), session) {
        Err(e) => Err(e),
        Ok(apart) => match not_pulling(apart.trunk) {
            Some(e) => Err(e),
            None => Ok(
                taken_over(at, apart, apart.trunk.push(
                            sink_pipe(
                                width_of(apart.trunk),
                                set_up(
                                    ProcessorKind::UnionReceiveSink,
                                    union.plan_id,
                                    session.profiling,
                                ),
                            ),
                        )),
            ),
        },
    }
}

} // verus!
