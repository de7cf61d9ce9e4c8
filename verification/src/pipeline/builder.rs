//! How the plans of joins, unions and common table expressions are laid out
//! as pipelines: which processors stand where, which pipelines feed which.

use vstd::prelude::*;
use crate::join::barrier::BarrierView;
use crate::join::row::RowView;
use crate::join::runtime_filter::{RuntimeFilterState, DEFAULT_FILTER_LIMIT};
use crate::join::spill::{BuildSpillCoordinator, CoordinatorView};
use crate::join::state::{
    HashJoinBuildState, HashJoinDesc, HashJoinProbeState, HashJoinState, JoinError,
};
use crate::pipeline::graph::{
    chained, duplicate_pipe, sink_pipe, source_pipe, transform_pipe, width_of, PipeItem, PipeView,
    Pipe, Pipeline, PipelineError, Processor, ProcessorKind,
};
use crate::pipeline::layout::{
    build_side_laid_out, cte_laid_out, cte_side_laid_out, filter_source_closed,
    filter_source_laid_out, filtered_laid_out, fresh, join_laid_out, laid_out,
    join_desc, join_fault, left_side_laid_out, new_state, probe_laid_out, probe_workers,
    range_join_laid_out, right_side_laid_out, taken_over, union_laid_out, union_side_laid_out,
    BuildSideNote, JoinStateView, Layout, ProbeSideNote, Session,
};
use crate::plans::physical::{
    HashJoin, MaterializedCte, PhysicalPlan, RangeJoin, RuntimeFilterSource, UnionAll,
};
use crate::plans::task::DataField;

verus! {

/// The settings of the session that the builder reads.
#[derive(Clone, Copy, Debug, PartialEq, Eq, Structural)]
pub struct Settings {
    pub max_threads: usize,
    pub max_block_size: usize,
    /// The bytes of memory from which a join spills; zero turns spilling
    /// off.
    pub join_spilling_threshold: usize,
    /// The number of partitions that a spilling join splits its rows into.
    pub join_spilling_partitions: usize,
}

/// What is kept of the build side of a join for the plans that refer to it
/// later: the plan node and the number of its workers.
#[derive(Clone, Copy, Debug, PartialEq, Eq, Structural)]
pub struct BuildStateInfo {
    pub plan_id: u32,
    pub workers: usize,
}

/// What the workers of the build side of one join share: the state of the
/// join, the barriers at which they meet, and the coordinator of their
/// decision to spill. It is made when the join is laid out, for as many
/// workers as the build side has outputs.
pub struct JoinBuildSide {
    pub plan_id: u32,
    pub state: HashJoinState,
    pub build_state: HashJoinBuildState,
    pub spill_coordinator: BuildSpillCoordinator,
}

/// What the workers of the probe side of one join share.
pub struct JoinProbeSide {
    pub plan_id: u32,
    pub probe_state: HashJoinProbeState,
}

/// The state of a join, by what it holds.
pub open spec fn state_view(state: &HashJoinState) -> JoinStateView {
    JoinStateView { desc: state.desc(), build_rows: state.build_rows(), ready: state.is_ready() }
}

impl JoinBuildSide {
    /// The number of workers that the side is made for.
    pub open spec fn workers(&self) -> usize {
        self.build_state.barrier().participants
    }

    pub open spec fn note(&self) -> BuildSideNote {
        BuildSideNote { plan_id: self.plan_id, state: state_view(&self.state), workers: self.workers() }
    }

    /// The barriers and the coordinator are as they were made, for the same
    /// number of workers, of which there is at least one.
    pub open spec fn well_formed(&self) -> bool {
        &&& self.state.well_formed()
        &&& self.workers() > 0
        &&& self.build_state.barrier() == BarrierView::fresh(self.workers())
        &&& self.build_state.restore_barrier() == BarrierView::fresh(self.workers())
        &&& self.spill_coordinator@ == CoordinatorView::fresh(self.workers())
    }
}

impl JoinProbeSide {
    /// The number of workers that the side is made for.
    pub open spec fn workers(&self) -> usize {
        self.probe_state.barrier().participants
    }

    pub open spec fn note(&self) -> ProbeSideNote {
        ProbeSideNote { plan_id: self.plan_id, workers: self.workers() }
    }

    /// The barriers are as they were made, for the same number of workers,
    /// of which there is at least one.
    pub open spec fn well_formed(&self) -> bool {
        &&& self.workers() > 0
        &&& self.probe_state.barrier() == BarrierView::fresh(self.workers())
        &&& self.probe_state.restore_barrier() == BarrierView::fresh(self.workers())
    }
}

/// What is set up for some build sides.
pub open spec fn build_notes(sides: Seq<JoinBuildSide>) -> Seq<BuildSideNote> {
    Seq::new(sides.len(), |i: int| sides[i].note())
}

/// What is set up for some probe sides.
pub open spec fn probe_notes(sides: Seq<JoinProbeSide>) -> Seq<ProbeSideNote> {
    Seq::new(sides.len(), |i: int| sides[i].note())
}

/// Whether each of the sides is as it was made.
pub open spec fn sides_well_formed(builds: Seq<JoinBuildSide>, probes: Seq<JoinProbeSide>) -> bool {
    &&& forall|i: int| 0 <= i < builds.len() ==> (#[trigger] builds[i]).well_formed()
    &&& forall|i: int| 0 <= i < probes.len() ==> (#[trigger] probes[i]).well_formed()
}

/// The ids of the filters of some states.
pub open spec fn filter_notes(states: Seq<RuntimeFilterState>) -> Seq<Seq<usize>> {
    Seq::new(states.len(), |i: int| states[i].ids())
}

/// Whether each of the states is in order.
pub open spec fn filters_well_formed(states: Seq<RuntimeFilterState>) -> bool {
    forall|i: int| 0 <= i < states.len() ==> (#[trigger] states[i]).well_formed()
}

/// The pipelines of one plan: the one whose rows are the plan's result, and
/// those that feed it; and what was set up for the joins of the plan.
pub struct PipelineBuildResult {
    pub main_pipeline: Pipeline,
    pub sources_pipelines: Vec<Pipeline>,
    pub build_sides: Vec<JoinBuildSide>,
    pub probe_sides: Vec<JoinProbeSide>,
    pub filter_states: Vec<RuntimeFilterState>,
}

/// The stages of some pipelines.
pub open spec fn stages_of(pipelines: Seq<Pipeline>) -> Seq<Seq<PipeView>> {
    Seq::new(pipelines.len(), |i: int| pipelines[i].stages())
}

impl PipelineBuildResult {
    /// In each pipeline every stage takes what the stage before it gives,
    /// and what was set up for the joins is as it was made.
    pub open spec fn well_formed(&self) -> bool {
        &&& chained(self.main_pipeline.stages())
        &&& forall|i: int|
            0 <= i < self.sources_pipelines.len() ==> chained(
                (#[trigger] self.sources_pipelines[i]).stages(),
            )
        &&& sides_well_formed(self.build_sides@, self.probe_sides@)
        &&& filters_well_formed(self.filter_states@)
    }
}

pub struct PipelineBuilder {
    pub settings: Settings,
    pub enable_profiling: bool,
    pub main_pipeline: Pipeline,
    pub pipelines: Vec<Pipeline>,
    pub join_state: Option<BuildStateInfo>,
    pub index: Option<usize>,
    pub probe_data_fields: Option<Vec<DataField>>,
    pub cte_state: Vec<usize>,
    pub build_sides: Vec<JoinBuildSide>,
    pub probe_sides: Vec<JoinProbeSide>,
    pub filter_states: Vec<RuntimeFilterState>,
}

/// Whether `longer` starts with `shorter`.
pub open spec fn extends<T>(shorter: Seq<T>, longer: Seq<T>) -> bool {
    shorter.len() <= longer.len() && longer.take(shorter.len() as int) == shorter
}

/// A processor as the builder sets it up: profiled under its plan node where
/// profiling is on.
pub open spec fn set_up(kind: ProcessorKind, plan_id: u32, profiling: bool) -> Processor {
    Processor {
        kind,
        profiled_as: if profiling {
            Some(plan_id)
        } else {
            None
        },
    }
}

/// A processor that is never profiled.
pub open spec fn plain(kind: ProcessorKind) -> Processor {
    Processor { kind, profiled_as: None }
}

fn make(kind: ProcessorKind, plan_id: u32, profiling: bool) -> (processor: Processor)
    ensures
        processor == set_up(kind, plan_id, profiling),
{
    Processor {
        kind,
        profiled_as: if profiling {
            Some(plan_id)
        } else {
            None
        },
    }
}

/// Whether one of the columns holds text.
pub open spec fn any_text(fields: Seq<DataField>) -> bool {
    exists|i: int| 0 <= i < fields.len() && (#[trigger] fields[i]).data_type.holds_text()
}

/// The processor that probes a join.
pub open spec fn probe_kind(join: &HashJoin, settings: Settings) -> ProcessorKind {
    ProcessorKind::HashJoinProbe {
        join_type: join.join_type,
        spill: settings.join_spilling_threshold != 0,
        has_residual: join.non_equi_conditions != 0,
        has_string_column: any_text(join.output@),
        max_block_size: settings.max_block_size,
    }
}

/// The stages that probing adds to the pipeline of the probe side: the
/// probe itself, and behind it, where profiling is on, the stub that counts
/// its output.
pub open spec fn probe_tail(join: &HashJoin, settings: Settings, profiling: bool, width: usize) -> Seq<
    PipeView,
> {
    let probe = seq![
        transform_pipe(width, set_up(probe_kind(join, settings), join.plan_id, profiling)),
    ];
    if profiling {
        probe.push(transform_pipe(width, plain(ProcessorKind::ProfileStub)))
    } else {
        probe
    }
}

/// The columns, among the first `upto`, whose place is among the
/// projections.
pub open spec fn projected(fields: Seq<DataField>, projections: Seq<usize>, upto: nat) -> Seq<
    DataField,
>
    decreases upto,
{
    if upto == 0 {
        Seq::empty()
    } else {
        let i = (upto - 1) as usize;
        let rest = projected(fields, projections, (upto - 1) as nat);
        if projections.contains(i) {
            rest.push(fields[i as int])
        } else {
            rest
        }
    }
}

fn holds_index(list: &Vec<usize>, i: usize) -> (found: bool)
    ensures
        found == list@.contains(i),
{
    let mut k: usize = 0;
    while k < list.len()
        invariant
            k <= list.len(),
            forall|t: int| 0 <= t < k ==> list@[t] != i,
        decreases list.len() - k,
    {
        if list[k] == i {
            return true;
        }
        k = k + 1;
    }
    false
}

fn project_fields(fields: &Vec<DataField>, projections: &Vec<usize>) -> (out: Vec<DataField>)
    ensures
        out@ == projected(fields@, projections@, fields@.len()),
{
    let mut out: Vec<DataField> = Vec::new();
    let mut i: usize = 0;
    while i < fields.len()
        invariant
            i <= fields.len(),
            out@ == projected(fields@, projections@, i as nat),
        decreases fields.len() - i,
    {
        if holds_index(projections, i) {
            out.push(fields[i].duplicate());
        }
        i = i + 1;
    }
    out
}

fn has_text_column(fields: &Vec<DataField>) -> (yes: bool)
    ensures
        yes == any_text(fields@),
{
    let mut yes: bool = false;
    let mut i: usize = 0;
    while i < fields.len()
        invariant
            i <= fields.len(),
            yes == (exists|k: int| 0 <= k < i && (#[trigger] fields@[k]).data_type.holds_text()),
        decreases fields.len() - i,
    {
        if fields[i].data_type.is_string_column() {
            yes = true;
        }
        i = i + 1;
    }
    yes
}

fn copy_indices(list: &Vec<usize>) -> (copy: Vec<usize>)
    ensures
        copy@ == list@,
{
    let mut copy: Vec<usize> = Vec::new();
    let mut i: usize = 0;
    while i < list.len()
        invariant
            i <= list.len(),
            copy@ == list@.take(i as int),
        decreases list.len() - i,
    {
        copy.push(list[i]);
        i = i + 1;
    }
    copy
}

/// The stage that a runtime filter source puts on the build side of its
/// join: for each pair of outputs, a processor that builds the join's table
/// and a sink for the filter.
pub open spec fn filter_source_pipe(width: usize) -> PipeView {
    PipeView {
        items: Seq::new(
            width as nat,
            |i: int|
                PipeItem {
                    processor: plain(
                        if i % 2 == 0 {
                            ProcessorKind::HashJoinBuild { spill: false }
                        } else {
                            ProcessorKind::RuntimeFilterSink
                        },
                    ),
                    inputs: 1,
                    outputs: 0,
                },
        ),
        input_length: width,
        output_length: 0,
    }
}

/// The columns noted, by what they are.
pub open spec fn fields_view(fields: Option<Vec<DataField>>) -> Option<Seq<DataField>> {
    match fields {
        Some(list) => Some(list@),
        None => None,
    }
}

impl View for PipelineBuilder {
    type V = Layout;

    open spec fn view(&self) -> Layout {
        Layout {
            session: self.session(),
            trunk: self.trunk(),
            feeders: self.feeders(),
            join_state: self.join_state,
            index: self.index,
            probe_data_fields: fields_view(self.probe_data_fields),
            cte_state: self.cte_state@,
            build_sides: build_notes(self.build_sides@),
            probe_sides: probe_notes(self.probe_sides@),
            filter_states: filter_notes(self.filter_states@),
        }
    }
}

impl PipelineBuilder {
    /// The stages of the main pipeline.
    pub open spec fn trunk(&self) -> Seq<PipeView> {
        self.main_pipeline.stages()
    }

    /// The stages of the pipelines that feed the main one.
    pub open spec fn feeders(&self) -> Seq<Seq<PipeView>> {
        stages_of(self.pipelines@)
    }

    /// The session that the builder lays plans out in.
    pub open spec fn session(&self) -> Session {
        Session { settings: self.settings, profiling: self.enable_profiling }
    }

    pub open spec fn well_formed(&self) -> bool {
        &&& chained(self.trunk())
        &&& forall|i: int| 0 <= i < self.feeders().len() ==> chained(#[trigger] self.feeders()[i])
        &&& sides_well_formed(self.build_sides@, self.probe_sides@)
        &&& filters_well_formed(self.filter_states@)
    }

    /// Nothing but the pipelines and what is noted of joins has changed.
    pub open spec fn same_session(&self, other: &PipelineBuilder) -> bool {
        self.settings == other.settings && self.enable_profiling == other.enable_profiling
    }

    /// A builder with no pipeline yet.
    pub fn create(settings: Settings, enable_profiling: bool, cte_state: Vec<usize>) -> (builder:
        PipelineBuilder)
        ensures
            builder.well_formed(),
            builder.settings == settings,
            builder.enable_profiling == enable_profiling,
            builder@ == fresh(cte_state@, Session { settings, profiling: enable_profiling }),
            builder.cte_state == cte_state,
    {
        let builder = PipelineBuilder {
            settings,
            enable_profiling,
            main_pipeline: Pipeline::create(),
            pipelines: Vec::new(),
            join_state: None,
            index: None,
            probe_data_fields: None,
            cte_state,
            build_sides: Vec::new(),
            probe_sides: Vec::new(),
            filter_states: Vec::new(),
        };
        proof {
            assert(builder.feeders() =~= Seq::<Seq<PipeView>>::empty());
            assert(build_notes(builder.build_sides@) =~= Seq::<BuildSideNote>::empty());
            assert(probe_notes(builder.probe_sides@) =~= Seq::<ProbeSideNote>::empty());
            assert(filter_notes(builder.filter_states@) =~= Seq::<Seq<usize>>::empty());
        }
        builder
    }

    /// Builds the pipelines of a plan and hands them over.
    pub fn finalize(self, plan: &PhysicalPlan) -> (res: Result<
        PipelineBuildResult,
        PipelineError,
    >)
        requires
            self.well_formed(),
        ensures
            match laid_out(plan, self@, self.session()) {
                Ok(layout) => (res matches Ok(built) && built.well_formed()
                    && built.main_pipeline.stages() == layout.trunk && stages_of(
                    built.sources_pipelines@,
                ) == layout.feeders && build_notes(built.build_sides@) == layout.build_sides
                    && probe_notes(built.probe_sides@) == layout.probe_sides && filter_notes(
                    built.filter_states@,
                ) == layout.filter_states),
                Err(e) => (res matches Err(fault) && fault == e),
            },
        decreases plan, 1nat,
    {
        let mut builder = self;
        match builder.build_pipeline(plan) {
            Err(e) => Err(e),
            Ok(_) => {
                proof {
                    assert forall|i: int| 0 <= i < builder.pipelines.len() implies chained(
                        (#[trigger] builder.pipelines[i]).stages(),
                    ) by {
                        assert(builder.feeders()[i] == builder.pipelines[i].stages());
                    }
                }
                Ok(
                    PipelineBuildResult {
                        main_pipeline: builder.main_pipeline.finalize(),
                        sources_pipelines: builder.pipelines,
                        build_sides: builder.build_sides,
                        probe_sides: builder.probe_sides,
                        filter_states: builder.filter_states,
                    },
                )
            },
        }
    }

    /// Adds the pipelines of a built plan to those that feed the main one:
    /// its main pipeline first, then its own feeders. What was set up for
    /// its joins comes behind what was set up before.
    fn take_over(&mut self, built: PipelineBuildResult)
        requires
            old(self).well_formed(),
            built.well_formed(),
        ensures
            final(self).well_formed(),
            final(self).same_session(old(self)),
            final(self)@ == (Layout {
                feeders: old(self).feeders().push(built.main_pipeline.stages()) + stages_of(
                    built.sources_pipelines@,
                ),
                build_sides: old(self)@.build_sides + build_notes(built.build_sides@),
                probe_sides: old(self)@.probe_sides + probe_notes(built.probe_sides@),
                filter_states: old(self)@.filter_states + filter_notes(built.filter_states@),
                ..old(self)@
            }),
    {
        let ghost before = self.feeders();
        let ghost builds_before = self.build_sides@;
        let ghost probes_before = self.probe_sides@;
        let ghost filters_before = self.filter_states@;
        let ghost main_stages = built.main_pipeline.stages();
        let mut sources: Vec<Pipeline> = built.sources_pipelines;
        let mut builds: Vec<JoinBuildSide> = built.build_sides;
        let mut probes: Vec<JoinProbeSide> = built.probe_sides;
        let mut filters: Vec<RuntimeFilterState> = built.filter_states;
        let ghost source_stages = Seq::new(sources.len() as nat, |i: int| sources[i].stages());
        let ghost builds_added = builds@;
        let ghost probes_added = probes@;
        let ghost filters_added = filters@;
        self.pipelines.push(built.main_pipeline.finalize());
        self.pipelines.append(&mut sources);
        self.build_sides.append(&mut builds);
        self.probe_sides.append(&mut probes);
        self.filter_states.append(&mut filters);
        proof {
            assert(self.filter_states@ =~= filters_before + filters_added);
            assert(filter_notes(self.filter_states@) =~= filter_notes(filters_before)
                + filter_notes(filters_added));
            assert(self.feeders() =~= before.push(main_stages) + source_stages);
            assert(self.build_sides@ =~= builds_before + builds_added);
            assert(self.probe_sides@ =~= probes_before + probes_added);
            assert(build_notes(self.build_sides@) =~= build_notes(builds_before) + build_notes(
                builds_added,
            ));
            assert(probe_notes(self.probe_sides@) =~= probe_notes(probes_before) + probe_notes(
                probes_added,
            ));
            assert forall|i: int| 0 <= i < self.feeders().len() implies chained(
                #[trigger] self.feeders()[i],
            ) by {
                if i < before.len() {
                    assert(self.feeders()[i] == before[i]);
                } else if i > before.len() {
                    assert(self.feeders()[i] == source_stages[i - before.len() - 1]);
                }
            }
        }
    }

    /// Builds the pipeline of a plan onto the main pipeline.
    pub fn build_pipeline(&mut self, plan: &PhysicalPlan) -> (res: Result<(), PipelineError>)
        requires
            old(self).well_formed(),
        ensures
            final(self).well_formed(),
            final(self).same_session(old(self)),
            match laid_out(plan, old(self)@, old(self).session()) {
                Ok(layout) => res is Ok && final(self)@ == layout,
                Err(e) => res == Err::<(), PipelineError>(e),
            },
        decreases plan, 0nat,
    {
        match plan {
            PhysicalPlan::TableScan(scan) => {
                if !self.main_pipeline.is_empty() {
                    return Err(PipelineError::NotPulling);
                }
                self.main_pipeline.add_source(
                    Processor { kind: ProcessorKind::Source, profiled_as: None },
                    scan.parallelism,
                );
                proof {
                    assert(self.trunk() =~= seq![
                        source_pipe(scan.parallelism, plain(ProcessorKind::Source)),
                    ]);
                }
                Ok(())
            },
            PhysicalPlan::HashJoin(join) => self.build_join(join),
            PhysicalPlan::RangeJoin(join) => self.build_range_join(join),
            PhysicalPlan::UnionAll(union) => self.build_union_all(union),
            PhysicalPlan::MaterializedCte(cte) => self.build_materialized_cte(cte),
            PhysicalPlan::RuntimeFilterSource(source) => self.build_runtime_filter_source(source),
        }
    }

    /// The state that the build side and the probe side of a join share,
    /// set up from the plan and the session's settings. A plan or settings
    /// that make no join are refused here, before anything runs.
    pub fn build_join_state(&self, join: &HashJoin) -> (res: Result<HashJoinState, JoinError>)
        ensures
            match HashJoinDesc::fault(
                self.settings.join_spilling_threshold,
                self.settings.join_spilling_partitions,
                self.settings.max_block_size,
            ) {
                Some(e) => res == Err::<HashJoinState, JoinError>(e),
                None => (res matches Ok(state) && state.well_formed() && !state.is_ready()
                    && state.build_rows() == Seq::<RowView>::empty() && state.desc() == (HashJoinDesc {
                    join_type: join.join_type,
                    key_columns: join.key_columns,
                    has_residual: join.non_equi_conditions != 0,
                    spill_threshold: self.settings.join_spilling_threshold,
                    partition_count: self.settings.join_spilling_partitions,
                    max_block_size: self.settings.max_block_size,
                })),
            },
    {
        match HashJoinDesc::create(
            join.join_type,
            join.key_columns,
            join.non_equi_conditions != 0,
            self.settings.join_spilling_threshold,
            self.settings.join_spilling_partitions,
            self.settings.max_block_size,
        ) {
            Err(e) => Err(e),
            Ok(desc) => HashJoinState::try_create(desc),
        }
    }

    /// Lays out a hash join: the build side as a pipeline of its own that
    /// ends in the processors that build the table, the probe side on the
    /// main pipeline with the probing behind it. The state that the two
    /// sides share is set up first: a join that cannot be set up is refused
    /// with nothing laid out.
    pub fn build_join(&mut self, join: &HashJoin) -> (res: Result<(), PipelineError>)
        requires
            old(self).well_formed(),
        ensures
            final(self).well_formed(),
            final(self).same_session(old(self)),
            match join_laid_out(join, old(self)@, old(self).session()) {
                Ok(layout) => res is Ok && final(self)@ == layout,
                Err(e) => res == Err::<(), PipelineError>(e),
            },
            join_fault(old(self).settings) matches Some(e) ==> res == Err::<(), PipelineError>(
                PipelineError::Join(e),
            ) && final(self)@ == old(self)@,
        decreases join, 3nat,
    {
        let state: HashJoinState = match self.build_join_state(join) {
            Err(e) => {
                return Err(PipelineError::Join(e));
            },
            Ok(state) => state,
        };
        match self.expand_build_side_pipeline(&join.build, join, state) {
            Err(e) => {
                return Err(e);
            },
            Ok(_) => {},
        }
        self.build_join_probe(join)
    }

    /// Builds the build side of a join as a pipeline of its own. Where the
    /// join feeds a runtime filter, every output is given a twin and the
    /// pipeline is left open for the filter's source to close; else the
    /// pipeline ends in one processor for each output that builds the
    /// table, with a spill where the session allows one. The build barrier,
    /// the restore barrier and the spill coordinator of the join are made
    /// for as many workers as the pipeline has outputs, and kept with the
    /// join's state.
    pub fn expand_build_side_pipeline(
        &mut self,
        build: &PhysicalPlan,
        hash_join_plan: &HashJoin,
        join_state: HashJoinState,
    ) -> (res: Result<(), PipelineError>)
        requires
            old(self).well_formed(),
            join_state.well_formed(),
        ensures
            final(self).well_formed(),
            final(self).same_session(old(self)),
            match build_side_laid_out(
                build,
                hash_join_plan,
                state_view(&join_state),
                old(self)@,
                old(self).session(),
            ) {
                Ok(layout) => res is Ok && final(self)@ == layout,
                Err(e) => res == Err::<(), PipelineError>(e),
            },
        decreases build, 2nat,
    {
        let build_side_builder = PipelineBuilder::create(
            self.settings,
            self.enable_profiling,
            copy_indices(&self.cte_state),
        );
        let mut build_res: PipelineBuildResult = match build_side_builder.finalize(build) {
            Err(e) => {
                return Err(e);
            },
            Ok(built) => built,
        };
        match build_res.main_pipeline.is_pulling_pipeline() {
            Ok(true) => {},
            Ok(false) => {
                return Err(PipelineError::NotPulling);
            },
            Err(e) => {
                return Err(e);
            },
        }
        let output_len: usize = build_res.main_pipeline.output_len();
        let spill_coordinator = BuildSpillCoordinator::create(output_len);
        let build_state: HashJoinBuildState = match HashJoinBuildState::try_create(output_len) {
            Err(e) => {
                return Err(PipelineError::Join(e));
            },
            Ok(build_state) => build_state,
        };
        let side = JoinBuildSide {
            plan_id: hash_join_plan.plan_id,
            state: join_state,
            build_state,
            spill_coordinator,
        };
        let state = BuildStateInfo { plan_id: hash_join_plan.plan_id, workers: output_len };
        if hash_join_plan.contain_runtime_filter {
            match build_res.main_pipeline.duplicate() {
                Err(e) => {
                    return Err(e);
                },
                Ok(_) => {},
            }
            self.join_state = Some(state);
            self.index = Some(self.pipelines.len());
        } else {
            if hash_join_plan.need_hold_hash_table {
                self.join_state = Some(state);
            }
            let sink = make(
                ProcessorKind::HashJoinBuild { spill: self.settings.join_spilling_threshold != 0 },
                hash_join_plan.plan_id,
                self.enable_profiling,
            );
            build_res.main_pipeline.add_sink(sink);
        }
        self.take_over(build_res);
        let ghost sides = self.build_sides@;
        self.build_sides.push(side);
        proof {
            assert(build_notes(self.build_sides@) =~= build_notes(sides).push(side.note()));
            assert(self.feeders() =~= old(self).feeders().push(build_res.main_pipeline.stages())
                + stages_of(build_res.sources_pipelines@));
        }
        Ok(())
    }

    /// Builds the probe side of a join on the main pipeline and puts the
    /// probing behind it: one probe for each output, and behind the probes,
    /// where profiling is on, the stubs that count their output. For a join
    /// whose table is held, the columns of the probe side that the join
    /// hands on are noted. The barriers of the probe side are made for as
    /// many workers as there are probes; where there is none, for one.
    pub fn build_join_probe(&mut self, join: &HashJoin) -> (res: Result<(), PipelineError>)
        requires
            old(self).well_formed(),
        ensures
            final(self).well_formed(),
            final(self).same_session(old(self)),
            match probe_laid_out(join, old(self)@, old(self).session()) {
                Ok(layout) => res is Ok && final(self)@ == layout,
                Err(e) => res == Err::<(), PipelineError>(e),
            },
        decreases join, 2nat,
    {
        match self.build_pipeline(&join.probe) {
            Err(e) => {
                return Err(e);
            },
            Ok(_) => {},
        }
        let ghost mid = self.trunk();
        let width: usize = self.main_pipeline.output_len();
        let workers: usize = if width == 0 {
            1
        } else {
            width
        };
        let probe_state: HashJoinProbeState = match HashJoinProbeState::create(workers) {
            Err(e) => {
                return Err(PipelineError::Join(e));
            },
            Ok(probe_state) => probe_state,
        };
        let ghost sides = self.probe_sides@;
        let side = JoinProbeSide { plan_id: join.plan_id, probe_state };
        self.probe_sides.push(side);
        proof {
            assert(probe_notes(self.probe_sides@) =~= probe_notes(sides).push(side.note()));
        }
        let max_block_size: usize = self.settings.max_block_size;
        let has_string_column: bool = has_text_column(&join.output);
        let probe = make(
            ProcessorKind::HashJoinProbe {
                join_type: join.join_type,
                spill: self.settings.join_spilling_threshold != 0,
                has_residual: join.non_equi_conditions != 0,
                has_string_column,
                max_block_size,
            },
            join.plan_id,
            self.enable_profiling,
        );
        self.main_pipeline.add_transform(probe);
        if self.enable_profiling {
            // A stub behind the probe counts the rows it gives.
            self.main_pipeline.add_transform(
                Processor { kind: ProcessorKind::ProfileStub, profiled_as: None },
            );
        }
        if join.need_hold_hash_table {
            let fields: Vec<DataField> = project_fields(
                join.probe.output_schema(),
                &join.probe_projections,
            );
            self.probe_data_fields = Some(fields);
        }
        proof {
            assert(self.trunk() =~= mid + probe_tail(
                join,
                self.settings,
                self.enable_profiling,
                width_of(mid),
            ));
        }
        Ok(())
    }

    /// Lays out a range join: the right side as a pipeline of its own that
    /// gathers its rows, the left side on the main pipeline, spread over the
    /// session's threads, with the join behind it.
    pub fn build_range_join(&mut self, range_join: &RangeJoin) -> (res: Result<(), PipelineError>)
        requires
            old(self).well_formed(),
        ensures
            final(self).well_formed(),
            final(self).same_session(old(self)),
            match range_join_laid_out(range_join, old(self)@, old(self).session()) {
                Ok(layout) => res is Ok && final(self)@ == layout,
                Err(e) => res == Err::<(), PipelineError>(e),
            },
        decreases range_join, 3nat,
    {
        match self.expand_right_side_pipeline(range_join) {
            Err(e) => {
                return Err(e);
            },
            Ok(_) => {},
        }
        match self.build_left_side(range_join) {
            Err(e) => {
                return Err(e);
            },
            Ok(_) => {},
        }
        if self.enable_profiling {
            self.main_pipeline.add_transform(
                Processor { kind: ProcessorKind::ProfileStub, profiled_as: None },
            );
        }
        Ok(())
    }

    /// Builds the left side of a range join on the main pipeline, spreads it
    /// over the session's threads, and puts the join behind it.
    pub fn build_left_side(&mut self, range_join: &RangeJoin) -> (res: Result<(), PipelineError>)
        requires
            old(self).well_formed(),
        ensures
            final(self).well_formed(),
            final(self).same_session(old(self)),
            match left_side_laid_out(range_join, old(self)@, old(self).session()) {
                Ok(layout) => res is Ok && final(self)@ == layout,
                Err(e) => res == Err::<(), PipelineError>(e),
            },
        decreases range_join, 2nat,
    {
        match self.build_pipeline(&range_join.left) {
            Err(e) => {
                return Err(e);
            },
            Ok(_) => {},
        }
        let max_threads: usize = self.settings.max_threads;
        match self.main_pipeline.try_resize(max_threads) {
            Err(e) => {
                return Err(e);
            },
            Ok(_) => {},
        }
        let transform = make(ProcessorKind::RangeJoinLeft, range_join.plan_id, self.enable_profiling);
        self.main_pipeline.add_transform(transform);
        Ok(())
    }

    /// Builds the right side of a range join as a pipeline of its own that
    /// ends in one processor for each output that gathers the rows.
    pub fn expand_right_side_pipeline(&mut self, range_join: &RangeJoin) -> (res: Result<
        (),
        PipelineError,
    >)
        requires
            old(self).well_formed(),
        ensures
            final(self).well_formed(),
            final(self).same_session(old(self)),
            match right_side_laid_out(range_join, old(self)@, old(self).session()) {
                Ok(layout) => res is Ok && final(self)@ == layout,
                Err(e) => res == Err::<(), PipelineError>(e),
            },
        decreases range_join, 1nat,
    {
        let right_side_builder = PipelineBuilder::create(
            self.settings,
            self.enable_profiling,
            copy_indices(&self.cte_state),
        );
        let mut right_res: PipelineBuildResult = match right_side_builder.finalize(&range_join.right) {
            Err(e) => {
                return Err(e);
            },
            Ok(built) => built,
        };
        let sink = make(ProcessorKind::RangeJoinRight, range_join.plan_id, self.enable_profiling);
        right_res.main_pipeline.add_sink(sink);
        self.take_over(right_res);
        Ok(())
    }

    /// Lays out a plan that is filtered by what the build side of its join
    /// holds: the build side, left open by the join, is closed by the
    /// filter's source, and the left side is built with the filter behind
    /// it.
    pub fn build_runtime_filter_source(&mut self, runtime_filter_source: &RuntimeFilterSource) -> (res:
        Result<(), PipelineError>)
        requires
            old(self).well_formed(),
        ensures
            final(self).well_formed(),
            final(self).same_session(old(self)),
            match filter_source_laid_out(runtime_filter_source, old(self)@, old(self).session()) {
                Ok(layout) => res is Ok && final(self)@ == layout,
                Err(e) => res == Err::<(), PipelineError>(e),
            },
        decreases runtime_filter_source, 3nat,
    {
        let state: RuntimeFilterState = self.build_runtime_filter_state(runtime_filter_source);
        let ghost states = self.filter_states@;
        self.filter_states.push(state);
        proof {
            assert(filter_notes(self.filter_states@) =~= filter_notes(states).push(
                runtime_filter_source.runtime_filters@,
            ));
        }
        match self.expand_runtime_filter_source(&runtime_filter_source.right_side) {
            Err(e) => {
                return Err(e);
            },
            Ok(_) => {},
        }
        self.build_runtime_filter(&runtime_filter_source.left_side)
    }

    /// Closes the build side that a join left open for its runtime filter:
    /// every pair of twin outputs gets a processor that builds the join's
    /// table and a sink that feeds the filter.
    pub fn expand_runtime_filter_source(&mut self, _right_side: &PhysicalPlan) -> (res: Result<
        (),
        PipelineError,
    >)
        requires
            old(self).well_formed(),
        ensures
            final(self).well_formed(),
            final(self).same_session(old(self)),
            match filter_source_closed(old(self)@) {
                Ok(layout) => res is Ok && final(self)@ == layout,
                Err(e) => res == Err::<(), PipelineError>(e) && final(self)@ == old(self)@,
            },
    {
        let place: usize = match (self.index, self.join_state) {
            (Some(place), Some(_)) => place,
            _ => {
                return Err(PipelineError::MissingState);
            },
        };
        if place >= self.pipelines.len() {
            return Err(PipelineError::MissingState);
        }
        let ghost before = self.feeders();
        let output_size: usize = self.pipelines[place].output_len();
        if output_size % 2 != 0 {
            return Err(PipelineError::OddWidth);
        }
        let mut items: Vec<PipeItem> = Vec::new();
        let mut k: usize = 0;
        while k < output_size / 2
            invariant
                k <= output_size / 2,
                output_size % 2 == 0,
                items@ == filter_source_pipe((2 * k) as usize).items,
            decreases output_size / 2 - k,
        {
            items.push(
                PipeItem::create(
                    Processor {
                        kind: ProcessorKind::HashJoinBuild { spill: false },
                        profiled_as: None,
                    },
                    1,
                    0,
                ),
            );
            items.push(
                PipeItem::create(
                    Processor { kind: ProcessorKind::RuntimeFilterSink, profiled_as: None },
                    1,
                    0,
                ),
            );
            k = k + 1;
        }
        let pipe = Pipe::create(output_size, 0, items);
        self.pipelines[place].add_pipe(pipe);
        proof {
            assert(self.feeders() =~= before.update(
                place as int,
                before[place as int].push(filter_source_pipe(output_size)),
            ));
        }
        Ok(())
    }

    /// Builds the left side of a runtime filter on the main pipeline and
    /// puts the filter behind it.
    pub fn build_runtime_filter(&mut self, left_side: &PhysicalPlan) -> (res: Result<
        (),
        PipelineError,
    >)
        requires
            old(self).well_formed(),
        ensures
            final(self).well_formed(),
            final(self).same_session(old(self)),
            match filtered_laid_out(left_side, old(self)@, old(self).session()) {
                Ok(layout) => res is Ok && final(self)@ == layout,
                Err(e) => res == Err::<(), PipelineError>(e),
            },
        decreases left_side, 1nat,
    {
        match self.build_pipeline(left_side) {
            Err(e) => {
                return Err(e);
            },
            Ok(_) => {},
        }
        self.main_pipeline.add_transform(
            Processor { kind: ProcessorKind::RuntimeFilter, profiled_as: None },
        );
        Ok(())
    }

    /// The filters that a runtime filter source sets up: one for each id,
    /// each with nothing collected and not yet published.
    pub fn build_runtime_filter_state(&self, runtime_filter_source: &RuntimeFilterSource) -> (state:
        RuntimeFilterState)
        ensures
            state.well_formed(),
            state.ids() == runtime_filter_source.runtime_filters@,
            forall|i: int|
                0 <= i < state.ids().len() ==> !(#[trigger] state.filters()[i]).is_ready()
                    && !state.filters()[i].passes_all() && state.filters()[i].keys() == Set::<
                    u64,
                >::empty() && state.filters()[i].limit() == DEFAULT_FILTER_LIMIT,
    {
        RuntimeFilterState::new(
            copy_indices(&runtime_filter_source.runtime_filters),
            DEFAULT_FILTER_LIMIT,
        )
    }

    /// Lays out a common table expression that is kept: the plan that
    /// computes it as a pipeline of its own that ends in the sinks that keep
    /// its rows, the plan that reads it on the main pipeline.
    pub fn build_materialized_cte(&mut self, materialized_cte: &MaterializedCte) -> (res: Result<
        (),
        PipelineError,
    >)
        requires
            old(self).well_formed(),
        ensures
            final(self).well_formed(),
            final(self).same_session(old(self)),
            match cte_laid_out(materialized_cte, old(self)@, old(self).session()) {
                Ok(layout) => res is Ok && final(self)@ == layout,
                Err(e) => res == Err::<(), PipelineError>(e),
            },
        decreases materialized_cte, 2nat,
    {
        match self.expand_left_side_pipeline(&materialized_cte.left, materialized_cte.cte_idx) {
            Err(e) => {
                return Err(e);
            },
            Ok(_) => {},
        }
        self.build_pipeline(&materialized_cte.right)
    }

    /// Builds the plan that computes a common table expression as a
    /// pipeline of its own: its result is projected, and one sink for each
    /// output keeps the rows under the expression's index.
    pub fn expand_left_side_pipeline(&mut self, left_side: &PhysicalPlan, cte_idx: usize) -> (res:
        Result<(), PipelineError>)
        requires
            old(self).well_formed(),
        ensures
            final(self).well_formed(),
            final(self).same_session(old(self)),
            final(self).cte_state@ == old(self).cte_state@.push(cte_idx),
            match cte_side_laid_out(left_side, cte_idx, old(self)@, old(self).session()) {
                Ok(layout) => res is Ok && final(self)@ == layout,
                Err(e) => res == Err::<(), PipelineError>(e),
            },
        decreases left_side, 2nat,
    {
        self.cte_state.push(cte_idx);
        let left_side_builder = PipelineBuilder::create(
            self.settings,
            self.enable_profiling,
            copy_indices(&self.cte_state),
        );
        let mut left_side_pipeline: PipelineBuildResult = match left_side_builder.finalize(left_side) {
            Err(e) => {
                return Err(e);
            },
            Ok(built) => built,
        };
        match left_side_pipeline.main_pipeline.is_pulling_pipeline() {
            Ok(true) => {},
            Ok(false) => {
                return Err(PipelineError::NotPulling);
            },
            Err(e) => {
                return Err(e);
            },
        }
        left_side_pipeline.main_pipeline.add_transform(
            Processor { kind: ProcessorKind::Projection, profiled_as: None },
        );
        left_side_pipeline.main_pipeline.add_sink(
            Processor { kind: ProcessorKind::MaterializedCteSink { cte_idx }, profiled_as: None },
        );
        self.take_over(left_side_pipeline);
        Ok(())
    }

    /// Lays out a union: the right side as a pipeline of its own that sends
    /// its rows over, the left side on the main pipeline with the
    /// processors behind it that merge in what the right side sends.
    pub fn build_union_all(&mut self, union_all: &UnionAll) -> (res: Result<(), PipelineError>)
        requires
            old(self).well_formed(),
        ensures
            final(self).well_formed(),
            final(self).same_session(old(self)),
            match union_laid_out(union_all, old(self)@, old(self).session()) {
                Ok(layout) => res is Ok && final(self)@ == layout,
                Err(e) => res == Err::<(), PipelineError>(e),
            },
        decreases union_all, 3nat,
    {
        match self.build_pipeline(&union_all.left) {
            Err(e) => {
                return Err(e);
            },
            Ok(_) => {},
        }
        match self.expand_union_all(&union_all.right, union_all) {
            Err(e) => {
                return Err(e);
            },
            Ok(_) => {},
        }
        let transform = make(ProcessorKind::MergeBlock, union_all.plan_id, self.enable_profiling);
        self.main_pipeline.add_transform(transform);
        Ok(())
    }

    /// Builds the right side of a union as a pipeline of its own that ends
    /// in one sink for each output that sends the rows to the left side.
    pub fn expand_union_all(&mut self, input: &PhysicalPlan, union_plan: &UnionAll) -> (res: Result<
        (),
        PipelineError,
    >)
        requires
            old(self).well_formed(),
        ensures
            final(self).well_formed(),
            final(self).same_session(old(self)),
            match union_side_laid_out(input, union_plan, old(self)@, old(self).session()) {
                Ok(layout) => res is Ok && final(self)@ == layout,
                Err(e) => res == Err::<(), PipelineError>(e),
            },
        decreases input, 2nat,
    {
        let pipeline_builder = PipelineBuilder::create(
            self.settings,
            self.enable_profiling,
            copy_indices(&self.cte_state),
        );
        let mut build_res: PipelineBuildResult = match pipeline_builder.finalize(input) {
            Err(e) => {
                return Err(e);
            },
            Ok(built) => built,
        };
        match build_res.main_pipeline.is_pulling_pipeline() {
            Ok(true) => {},
            Ok(false) => {
                return Err(PipelineError::NotPulling);
            },
            Err(e) => {
                return Err(e);
            },
        }
        let sink = make(ProcessorKind::UnionReceiveSink, union_plan.plan_id, self.enable_profiling);
        build_res.main_pipeline.add_sink(sink);
        self.take_over(build_res);
        Ok(())
    }
}

} // verus!
