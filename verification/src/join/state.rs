//! The shared state of one hash join and the two coordinators that work on
//! it: the build side, which fills it and builds the hash table, and the
//! probe side, which reads the table and emits the output.

use vstd::prelude::*;
use crate::join::barrier::{Arrival, Barrier, BarrierView};
use crate::join::hash_table::JoinHashTable;
use crate::join::lemmas::{lemma_probe_agrees, lemma_unvisited_is_unmatched};
use crate::join::probe::{
    all_in_range, apply_masks, facts_for, final_scan, mask_views, probe_candidates,
    probe_selected, selections, views,
};
use crate::join::row::{joined_views, row_views, JoinType, JoinedRow, JoinedRowView, Row, RowView};
use crate::join::spec::{
    build_matches, facts_of, has_match, join_output, keeps_build_side, lemma_selected_all,
    mask_agrees, no_residual, probe_output, probe_part, reached, unvisited_rows, BuildFacts,
};
use crate::join::visited::VisitedBitmap;

verus! {

/// Why a join could not be set up or driven on.
#[derive(Clone, Copy, Debug, PartialEq, Eq, Structural)]
pub enum JoinError {
    /// Output blocks of no rows were asked for.
    InvalidBlockSize,
    /// Spilling is on, but into no partitions.
    InvalidPartitionCount,
    /// A coordinator for no workers was asked for.
    NoWorkers,
    /// Build rows arrived after the hash table was built.
    AlreadyBuilt,
    /// The hash table is not built yet.
    NotReady,
    /// The join has a residual predicate, and the rows were handed over
    /// without what it says of them.
    ResidualNotEvaluated,
    /// What the residual predicate says was handed over in another shape
    /// than the pairs it was asked of.
    MaskMismatch,
    /// A row came with a key of another number of values than the join has
    /// key columns.
    SchemaMismatch,
    /// Rows were to be set aside in a partition that the join does not have.
    NoSuchPartition,
    /// Rows were to be set aside in a partition that is not the one of
    /// their keys.
    WrongPartition,
    /// A peer failed: the join as a whole fails.
    Aborted,
}

/// What an arrival at a barrier means for the worker that arrived: whether
/// it is the one that does what is done once, or that a peer failed, which
/// fails this worker too.
pub fn leads(arrival: Arrival) -> (res: Result<bool, JoinError>)
    ensures
        res == (match arrival {
            Arrival::Leader => Ok::<bool, JoinError>(true),
            Arrival::Wait => Ok::<bool, JoinError>(false),
            Arrival::Aborted => Err::<bool, JoinError>(JoinError::Aborted),
        }),
{
    match arrival {
        Arrival::Leader => Ok(true),
        Arrival::Wait => Ok(false),
        Arrival::Aborted => Err(JoinError::Aborted),
    }
}

/// What the planner says of a join.
#[derive(Clone, Copy, Debug, PartialEq, Eq, Structural)]
pub struct HashJoinDesc {
    pub join_type: JoinType,
    /// The number of pairs of columns that the join holds equal.
    pub key_columns: usize,
    /// Whether a residual predicate narrows the key matches.
    pub has_residual: bool,
    /// The bytes of build rows held in memory from which the join spills;
    /// zero turns spilling off.
    pub spill_threshold: usize,
    /// The number of partitions a spilling join splits its rows into.
    pub partition_count: usize,
    /// The largest number of rows in one block of output.
    pub max_block_size: usize,
}

impl HashJoinDesc {
    /// The error, if any, in what a description asks for.
    pub open spec fn fault(
        spill_threshold: usize,
        partition_count: usize,
        max_block_size: usize,
    ) -> Option<JoinError> {
        if max_block_size == 0 {
            Some(JoinError::InvalidBlockSize)
        } else if spill_threshold != 0 && partition_count == 0 {
            Some(JoinError::InvalidPartitionCount)
        } else {
            None
        }
    }

    /// Checks a description when the plan is made, so that no join runs on
    /// one that makes no sense.
    pub fn create(
        join_type: JoinType,
        key_columns: usize,
        has_residual: bool,
        spill_threshold: usize,
        partition_count: usize,
        max_block_size: usize,
    ) -> (res: Result<HashJoinDesc, JoinError>)
        ensures
            match HashJoinDesc::fault(spill_threshold, partition_count, max_block_size) {
                Some(e) => res == Err::<HashJoinDesc, JoinError>(e),
                None => res == Ok::<HashJoinDesc, JoinError>(
                    HashJoinDesc {
                        join_type,
                        key_columns,
                        has_residual,
                        spill_threshold,
                        partition_count,
                        max_block_size,
                    },
                ),
            },
    {
        if max_block_size == 0 {
            Err(JoinError::InvalidBlockSize)
        } else if spill_threshold != 0 && partition_count == 0 {
            Err(JoinError::InvalidPartitionCount)
        } else {
            Ok(
                HashJoinDesc {
                    join_type,
                    key_columns,
                    has_residual,
                    spill_threshold,
                    partition_count,
                    max_block_size,
                },
            )
        }
    }

    /// Whether a row is one of this join: its key, unless null, holds one
    /// value for each key column.
    pub open spec fn admits(&self, row: RowView) -> bool {
        row.key matches Some(values) ==> values.len() == self.key_columns
    }

    /// Whether all rows are rows of this join.
    pub open spec fn admits_all(&self, rows: Seq<RowView>) -> bool {
        forall|i: int| 0 <= i < rows.len() ==> self.admits(#[trigger] rows[i])
    }

    /// Checks a batch against the join's key columns. A batch with a row of
    /// another shape is a fault of whoever sent it, and fatal to the query.
    pub fn check_batch(&self, batch: &Vec<Row>) -> (res: Result<(), JoinError>)
        ensures
            self.admits_all(row_views(batch@)) ==> res == Ok::<(), JoinError>(()),
            !self.admits_all(row_views(batch@)) ==> res == Err::<(), JoinError>(
                JoinError::SchemaMismatch,
            ),
    {
        let ghost rows = row_views(batch@);
        let mut i: usize = 0;
        while i < batch.len()
            invariant
                i <= batch.len(),
                rows == row_views(batch@),
                forall|k: int| 0 <= k < i ==> self.admits(#[trigger] rows[k]),
            decreases batch.len() - i,
        {
            let fits: bool = match &batch[i].key {
                Some(values) => values.len() == self.key_columns,
                None => true,
            };
            if !fits {
                proof {
                    assert(!self.admits(rows[i as int]));
                }
                return Err(JoinError::SchemaMismatch);
            }
            i = i + 1;
        }
        Ok(())
    }

    /// Whether the join may spill at all.
    pub fn spilling_enabled(&self) -> (enabled: bool)
        ensures
            enabled == (self.spill_threshold != 0),
    {
        self.spill_threshold != 0
    }
}

/// The state of one join, shared by its build and probe workers: the build
/// rows, and, once built, the hash table over them.
pub struct HashJoinState {
    desc: HashJoinDesc,
    rows: Vec<Row>,
    table: Option<JoinHashTable>,
    facts: BuildFacts,
    visited: VisitedBitmap,
}

impl HashJoinState {
    pub closed spec fn desc(&self) -> HashJoinDesc {
        self.desc
    }

    /// The build rows gathered so far.
    pub closed spec fn build_rows(&self) -> Seq<RowView> {
        row_views(self.rows@)
    }

    /// Whether the hash table is built.
    pub closed spec fn is_ready(&self) -> bool {
        self.table is Some
    }

    /// What is known of the whole build side. For a join in memory that is
    /// what its own build rows show; for one partition of a spilled join it
    /// is what the build rows of all partitions show.
    pub closed spec fn facts(&self) -> BuildFacts {
        self.facts
    }

    /// Which build rows have been matched so far. Tracked for the joins that
    /// keep the build side.
    pub closed spec fn visited(&self) -> Seq<bool> {
        self.visited.bits()
    }

    pub closed spec fn well_formed(&self) -> bool {
        &&& self.visited.well_formed()
        &&& self.table matches Some(t) ==> {
            &&& t.represents(self.rows@)
            &&& self.visited.rows() == self.rows.len()
        }
    }

    /// A visited flag exists for every build row of a built table.
    pub proof fn lemma_visited_len(&self)
        requires
            self.well_formed(),
            self.is_ready(),
        ensures
            self.visited().len() == self.build_rows().len(),
            self.build_rows().len() <= usize::MAX,
    {
        self.visited.lemma_bits_len();
    }

    /// The state of a join that has seen no row yet.
    pub fn try_create(desc: HashJoinDesc) -> (res: Result<HashJoinState, JoinError>)
        ensures
            match HashJoinDesc::fault(
                desc.spill_threshold,
                desc.partition_count,
                desc.max_block_size,
            ) {
                Some(e) => res == Err::<HashJoinState, JoinError>(e),
                None => (res matches Ok(state) && state.well_formed() && state.desc() == desc
                    && state.build_rows() == Seq::<RowView>::empty() && !state.is_ready()),
            },
    {
        if desc.max_block_size == 0 {
            return Err(JoinError::InvalidBlockSize);
        }
        if desc.spill_threshold != 0 && desc.partition_count == 0 {
            return Err(JoinError::InvalidPartitionCount);
        }
        Ok(
            HashJoinState {
                desc,
                rows: Vec::new(),
                table: None,
                facts: BuildFacts { any_rows: false, any_null_key: false },
                visited: VisitedBitmap::new(0),
            },
        )
    }

    /// The state of the join of one restored partition: the table is built
    /// over the build rows of the partition, and what is known of the whole
    /// build side is taken from the caller, who has seen all of it.
    pub fn restore(desc: HashJoinDesc, rows: Vec<Row>, facts: BuildFacts) -> (state: HashJoinState)
        ensures
            state.well_formed(),
            state.is_ready(),
            state.desc() == desc,
            state.facts() == facts,
            state.build_rows() == row_views(rows@),
            state.visited() == Seq::new(rows@.len(), |j: int| false),
    {
        let slots: usize = if rows.len() == 0 {
            1
        } else {
            rows.len()
        };
        let table: JoinHashTable = JoinHashTable::build(&rows, slots);
        let visited: VisitedBitmap = VisitedBitmap::new(rows.len());
        HashJoinState { desc, rows, table: Some(table), facts, visited }
    }

    /// What is known of the whole build side.
    pub fn build_facts(&self) -> (facts: BuildFacts)
        ensures
            facts == self.facts(),
    {
        self.facts
    }

    /// Takes the build rows gathered so far out of the state, to set them
    /// aside. Only before the table is built: a built table is final.
    pub fn take_build_rows(&mut self) -> (res: Result<Vec<Row>, JoinError>)
        requires
            old(self).well_formed(),
        ensures
            final(self).well_formed(),
            final(self).desc() == old(self).desc(),
            final(self).is_ready() == old(self).is_ready(),
            final(self).visited() == old(self).visited(),
            final(self).facts() == old(self).facts(),
            old(self).is_ready() ==> res == Err::<Vec<Row>, JoinError>(JoinError::AlreadyBuilt)
                && final(self).build_rows() == old(self).build_rows(),
            !old(self).is_ready() ==> (res matches Ok(rows) && row_views(rows@) == old(self).build_rows()
                && final(self).build_rows() == Seq::<RowView>::empty()),
    {
        if self.table.is_some() {
            return Err(JoinError::AlreadyBuilt);
        }
        let mut rows: Vec<Row> = Vec::new();
        std::mem::swap(&mut rows, &mut self.rows);
        Ok(rows)
    }

    pub fn join_type(&self) -> (jt: JoinType)
        ensures
            jt == self.desc().join_type,
    {
        self.desc.join_type
    }

    pub fn ready(&self) -> (ready: bool)
        ensures
            ready == self.is_ready(),
    {
        self.table.is_some()
    }

    /// The build row at a place, if there is one.
    pub fn build_row(&self, j: usize) -> (row: Option<&Row>)
        ensures
            j < self.build_rows().len() ==> (row matches Some(r) && r@ == self.build_rows()[j as int]),
            j >= self.build_rows().len() ==> row is None,
    {
        if j < self.rows.len() {
            Some(&self.rows[j])
        } else {
            None
        }
    }

    /// The number of build rows gathered so far.
    pub fn build_row_count(&self) -> (count: usize)
        ensures
            count == self.build_rows().len(),
    {
        self.rows.len()
    }
}

/// The build side of a join: gathers the build rows from its workers and,
/// when the last of them is done, builds the hash table.
pub struct HashJoinBuildState {
    barrier: Barrier,
    restore_barrier: Barrier,
}

impl HashJoinBuildState {
    /// The barrier at which the workers end the build.
    pub closed spec fn barrier(&self) -> BarrierView {
        self.barrier@
    }

    /// The barrier at which the workers meet between two partitions of a
    /// restore.
    pub closed spec fn restore_barrier(&self) -> BarrierView {
        self.restore_barrier@
    }

    pub open spec fn well_formed(&self) -> bool {
        self.barrier().well_formed() && self.restore_barrier().well_formed()
    }

    /// The number of workers that the barriers are made for.
    pub fn workers(&self) -> (count: usize)
        ensures
            count == self.barrier().participants,
    {
        self.barrier.participants()
    }

    /// A build side with `workers` workers.
    pub fn try_create(workers: usize) -> (res: Result<HashJoinBuildState, JoinError>)
        ensures
            workers == 0 ==> res == Err::<HashJoinBuildState, JoinError>(JoinError::NoWorkers),
            workers > 0 ==> (res matches Ok(build) && build.barrier() == BarrierView::fresh(workers)
                && build.restore_barrier() == BarrierView::fresh(workers)),
    {
        if workers == 0 {
            Err(JoinError::NoWorkers)
        } else {
            Ok(
                HashJoinBuildState {
                    barrier: Barrier::new(workers),
                    restore_barrier: Barrier::new(workers),
                },
            )
        }
    }

    /// Called by each build worker when it has set aside its part of a
    /// partition, or taken it up again: the workers go on together.
    pub fn arrive_restore(&mut self) -> (arrival: Arrival)
        requires
            old(self).well_formed(),
        ensures
            final(self).well_formed(),
            final(self).barrier() == old(self).barrier(),
            arrival == old(self).restore_barrier().next_arrival(),
            final(self).restore_barrier() == old(self).restore_barrier().after_arrival(),
    {
        self.restore_barrier.arrive()
    }

    /// Takes one batch of build rows from a worker. The table, once built, is
    /// final: rows that come later are refused. So is a batch with a row
    /// that is none of this join, as a whole.
    pub fn add_build_batch(&self, state: &mut HashJoinState, batch: &Vec<Row>) -> (res: Result<
        (),
        JoinError,
    >)
        requires
            old(state).well_formed(),
        ensures
            final(state).well_formed(),
            final(state).desc() == old(state).desc(),
            final(state).is_ready() == old(state).is_ready(),
            final(state).visited() == old(state).visited(),
            final(state).facts() == old(state).facts(),
            res is Err ==> final(state).build_rows() == old(state).build_rows(),
            old(state).is_ready() ==> res == Err::<(), JoinError>(JoinError::AlreadyBuilt),
            !old(state).is_ready() && !old(state).desc().admits_all(row_views(batch@)) ==> res
                == Err::<(), JoinError>(JoinError::SchemaMismatch),
            !old(state).is_ready() && old(state).desc().admits_all(row_views(batch@)) ==> res
                == Ok::<(), JoinError>(()) && final(state).build_rows() == old(state).build_rows()
                + row_views(batch@),
    {
        if state.table.is_some() {
            return Err(JoinError::AlreadyBuilt);
        }
        match state.desc.check_batch(batch) {
            Err(e) => {
                return Err(e);
            },
            Ok(()) => {},
        }
        let ghost before = row_views(state.rows@);
        let ghost added = row_views(batch@);
        let mut i: usize = 0;
        while i < batch.len()
            invariant
                i <= batch.len(),
                added == row_views(batch@),
                state.table is None,
                state.visited == old(state).visited,
                state.desc == old(state).desc,
                state.facts == old(state).facts,
                row_views(state.rows@) == before + added.take(i as int),
            decreases batch.len() - i,
        {
            let ghost so_far = row_views(state.rows@);
            state.rows.push(batch[i].duplicate());
            proof {
                assert(row_views(state.rows@) =~= so_far.push(batch@[i as int]@));
            }
            i = i + 1;
        }
        Ok(())
    }

    /// Called by each worker once its input is exhausted. All but the last
    /// are told to wait. The last is the leader: it builds the hash table over
    /// all the rows gathered, and with that the table is ready.
    pub fn finalize(&mut self, state: &mut HashJoinState) -> (arrival: Arrival)
        requires
            old(self).well_formed(),
            old(state).well_formed(),
        ensures
            final(self).well_formed(),
            final(state).well_formed(),
            arrival == old(self).barrier().next_arrival(),
            final(self).barrier() == old(self).barrier().after_arrival(),
            final(self).restore_barrier() == old(self).restore_barrier(),
            final(state).desc() == old(state).desc(),
            final(state).build_rows() == old(state).build_rows(),
            arrival == Arrival::Leader && !old(state).is_ready() ==> final(state).is_ready()
                && final(state).facts() == facts_of(old(state).build_rows())
                && final(state).visited() == Seq::new(
                old(state).build_rows().len(),
                |j: int| false,
            ),
            !(arrival == Arrival::Leader && !old(state).is_ready()) ==> final(state).is_ready()
                == old(state).is_ready() && final(state).visited() == old(state).visited()
                && final(state).facts() == old(state).facts(),
    {
        let arrival: Arrival = self.barrier.arrive();
        match arrival {
            Arrival::Leader => {
                if state.table.is_none() {
                    let slots: usize = if state.rows.len() == 0 {
                        1
                    } else {
                        state.rows.len()
                    };
                    let table: JoinHashTable = JoinHashTable::build(&state.rows, slots);
                    state.facts = facts_for(&state.rows);
                    state.visited = VisitedBitmap::new(state.rows.len());
                    state.table = Some(table);
                }
            },
            _ => {},
        }
        arrival
    }

    /// Reports that a worker failed: every worker that waits at one of the
    /// barriers, or arrives later, is told that the join is aborted.
    pub fn abort(&mut self)
        ensures
            final(self).barrier() == old(self).barrier().after_abort(),
            final(self).restore_barrier() == old(self).restore_barrier().after_abort(),
    {
        self.barrier.abort();
        self.restore_barrier.abort();
    }
}

/// The mask that lets every candidate through.
pub open spec fn open_masks(cands: Seq<Seq<usize>>) -> Seq<Seq<bool>> {
    Seq::new(cands.len(), |i: int| Seq::new(cands[i].len(), |c: int| true))
}

/// The probe side of a join: joins batches of probe rows against the built
/// table and, at the end, has one worker emit the build rows left unmatched.
pub struct HashJoinProbeState {
    barrier: Barrier,
    restore_barrier: Barrier,
}

impl HashJoinProbeState {
    /// The barrier at which the workers end the probe.
    pub closed spec fn barrier(&self) -> BarrierView {
        self.barrier@
    }

    /// The barrier at which the workers meet between two partitions of a
    /// restore.
    pub closed spec fn restore_barrier(&self) -> BarrierView {
        self.restore_barrier@
    }

    pub open spec fn well_formed(&self) -> bool {
        self.barrier().well_formed() && self.restore_barrier().well_formed()
    }

    /// The number of workers that the barriers are made for.
    pub fn workers(&self) -> (count: usize)
        ensures
            count == self.barrier().participants,
    {
        self.barrier.participants()
    }

    /// A probe side with `workers` workers.
    pub fn create(workers: usize) -> (res: Result<HashJoinProbeState, JoinError>)
        ensures
            workers == 0 ==> res == Err::<HashJoinProbeState, JoinError>(JoinError::NoWorkers),
            workers > 0 ==> (res matches Ok(probe) && probe.barrier() == BarrierView::fresh(workers)
                && probe.restore_barrier() == BarrierView::fresh(workers)),
    {
        if workers == 0 {
            Err(JoinError::NoWorkers)
        } else {
            Ok(
                HashJoinProbeState {
                    barrier: Barrier::new(workers),
                    restore_barrier: Barrier::new(workers),
                },
            )
        }
    }

    /// Called by each probe worker when it is done with a partition of a
    /// restore: the workers take up the next one together.
    pub fn arrive_restore(&mut self) -> (arrival: Arrival)
        requires
            old(self).well_formed(),
        ensures
            final(self).well_formed(),
            final(self).barrier() == old(self).barrier(),
            arrival == old(self).restore_barrier().next_arrival(),
            final(self).restore_barrier() == old(self).restore_barrier().after_arrival(),
    {
        self.restore_barrier.arrive()
    }

    /// For each row of a batch, the build rows with its key. Where the join
    /// has a residual predicate, the caller evaluates it on these pairs and
    /// hands the result to `probe_with_masks`.
    pub fn candidates(&self, state: &HashJoinState, batch: &Vec<Row>) -> (res: Result<
        Vec<Vec<usize>>,
        JoinError,
    >)
        requires
            state.well_formed(),
        ensures
            !state.is_ready() ==> res == Err::<Vec<Vec<usize>>, JoinError>(JoinError::NotReady),
            state.is_ready() && !state.desc().admits_all(row_views(batch@)) ==> res == Err::<
                Vec<Vec<usize>>,
                JoinError,
            >(JoinError::SchemaMismatch),
            state.is_ready() && state.desc().admits_all(row_views(batch@)) ==> (res matches Ok(
                cands,
            ) && cands.len() == batch.len() && candidates_of(
                state.build_rows(),
                row_views(batch@),
                views(cands@),
            )),
    {
        match &state.table {
            None => Err(JoinError::NotReady),
            Some(table) => {
                match state.desc.check_batch(batch) {
                    Err(e) => {
                        return Err(e);
                    },
                    Ok(()) => {},
                }
                let cands: Vec<Vec<usize>> = probe_candidates(table, &state.rows, batch);
                Ok(cands)
            },
        }
    }

    /// What stands in the way of joining a batch by masks.
    pub open spec fn masks_fault(
        state: &HashJoinState,
        batch: Seq<RowView>,
        masks: Seq<Seq<bool>>,
    ) -> Option<JoinError> {
        if !state.is_ready() {
            Some(JoinError::NotReady)
        } else if !state.desc().admits_all(batch) {
            Some(JoinError::SchemaMismatch)
        } else if !masks_fit(candidate_lists(state.build_rows(), batch), masks) {
            Some(JoinError::MaskMismatch)
        } else {
            None
        }
    }

    /// Joins a batch whose candidates a residual predicate has narrowed:
    /// `masks[i][c]` says whether probe row `i` pairs up with the `c`-th of
    /// its candidates, as `candidates` lists them. Masks of another shape
    /// than the candidates are refused.
    pub fn probe_with_masks(
        &self,
        state: &mut HashJoinState,
        batch: &Vec<Row>,
        masks: &Vec<Vec<bool>>,
    ) -> (res: Result<Vec<JoinedRow>, JoinError>)
        requires
            old(state).well_formed(),
        ensures
            final(state).well_formed(),
            final(state).is_ready() == old(state).is_ready(),
            final(state).desc() == old(state).desc(),
            final(state).facts() == old(state).facts(),
            final(state).build_rows() == old(state).build_rows(),
            final(state).visited().len() == old(state).visited().len(),
            match HashJoinProbeState::masks_fault(old(state), row_views(batch@), mask_views(masks@)) {
                Some(e) => res == Err::<Vec<JoinedRow>, JoinError>(e) && final(state).visited()
                    == old(state).visited(),
                None => {
                    let chosen = selections(
                        candidate_lists(old(state).build_rows(), row_views(batch@)),
                        mask_views(masks@),
                    );
                    &&& res matches Ok(out) && joined_views(out@) == probe_output(
                        old(state).desc().join_type,
                        old(state).build_rows(),
                        row_views(batch@),
                        chosen,
                        old(state).facts(),
                    )
                    &&& keeps_build_side(old(state).desc().join_type) ==> forall|j: int|
                        0 <= j < old(state).build_rows().len() ==> (
                        #[trigger] final(state).visited()[j]) == (old(state).visited()[j]
                            || reached(chosen, batch.len() as int, j as usize))
                    &&& !keeps_build_side(old(state).desc().join_type) ==> final(state).visited()
                        == old(state).visited()
                },
            },
    {
        let cands: Vec<Vec<usize>> = match &state.table {
            None => {
                return Err(JoinError::NotReady);
            },
            Some(table) => {
                match state.desc.check_batch(batch) {
                    Err(e) => {
                        return Err(e);
                    },
                    Ok(()) => {},
                }
                probe_candidates(table, &state.rows, batch)
            },
        };
        proof {
            assert(views(cands@) =~= candidate_lists(row_views(state.rows@), row_views(batch@)));
        }
        if !masks_match(&cands, masks) {
            return Err(JoinError::MaskMismatch);
        }
        let sels: Vec<Vec<usize>> = apply_masks(&cands, masks);
        proof {
            state.lemma_visited_len();
            lemma_selections_in_range(
                row_views(state.rows@),
                row_views(batch@),
                views(cands@),
                mask_views(masks@),
            );
        }
        let out: Vec<JoinedRow> = probe_selected(
            state.desc.join_type,
            &state.rows,
            batch,
            &sels,
            &state.facts,
            &mut state.visited,
        );
        proof {
            state.visited.lemma_bits_len();
        }
        Ok(out)
    }

    /// Joins a batch of a join that has no residual predicate. A join that
    /// has one is refused: its batches go through `candidates` and
    /// `probe_with_masks`.
    pub fn probe(&self, state: &mut HashJoinState, batch: &Vec<Row>) -> (res: Result<
        Vec<JoinedRow>,
        JoinError,
    >)
        requires
            old(state).well_formed(),
        ensures
            final(state).well_formed(),
            final(state).is_ready() == old(state).is_ready(),
            final(state).desc() == old(state).desc(),
            final(state).facts() == old(state).facts(),
            final(state).build_rows() == old(state).build_rows(),
            res == Err::<Vec<JoinedRow>, JoinError>(JoinError::NotReady) <==> !old(state).is_ready(),
            res == Err::<Vec<JoinedRow>, JoinError>(JoinError::ResidualNotEvaluated) <==> (
                old(state).is_ready() && old(state).desc().has_residual),
            res == Err::<Vec<JoinedRow>, JoinError>(JoinError::SchemaMismatch) <==> (
                old(state).is_ready() && !old(state).desc().has_residual
                    && !old(state).desc().admits_all(row_views(batch@))),
            res is Err ==> final(state).visited() == old(state).visited(),
            res is Ok <==> (old(state).is_ready() && !old(state).desc().has_residual
                && old(state).desc().admits_all(row_views(batch@))),
            res matches Ok(out) ==> joined_views(out@) == probe_part(
                old(state).desc().join_type,
                old(state).build_rows(),
                row_views(batch@),
                no_residual(),
                old(state).facts(),
            ),
            res is Ok ==> final(state).visited().len() == old(state).visited().len(),
            res is Ok && keeps_build_side(old(state).desc().join_type) ==> forall|j: int|
                0 <= j < old(state).build_rows().len() ==> (#[trigger] final(state).visited()[j])
                    == (old(state).visited()[j] || has_match(
                    row_views(batch@),
                    old(state).build_rows()[j],
                    no_residual(),
                )),
            res is Ok && !keeps_build_side(old(state).desc().join_type) ==> final(state).visited()
                == old(state).visited(),
    {
        if state.table.is_some() && state.desc.has_residual {
            return Err(JoinError::ResidualNotEvaluated);
        }
        let cands: Vec<Vec<usize>> = match &state.table {
            None => {
                return Err(JoinError::NotReady);
            },
            Some(table) => {
                match state.desc.check_batch(batch) {
                    Err(e) => {
                        return Err(e);
                    },
                    Ok(()) => {},
                }
                probe_candidates(table, &state.rows, batch)
            },
        };
        let ghost lists = views(cands@);
        let ghost masks = open_masks(lists);
        proof {
            state.lemma_visited_len();
            assert(selections(lists, masks) =~= lists) by {
                assert forall|i: int| 0 <= i < lists.len() implies #[trigger] selections(
                    lists,
                    masks,
                )[i] == lists[i] by {
                    lemma_selected_all(lists[i], masks[i]);
                }
            }
            lemma_probe_agrees(
                state.desc.join_type,
                row_views(state.rows@),
                row_views(batch@),
                lists,
                masks,
                no_residual(),
                state.facts,
            );
        }
        let out: Vec<JoinedRow> = probe_selected(
            state.desc.join_type,
            &state.rows,
            batch,
            &cands,
            &state.facts,
            &mut state.visited,
        );
        proof {
            state.visited.lemma_bits_len();
        }
        Ok(out)
    }

    /// Called by each probe worker once its input is exhausted. All but the
    /// last are told to wait and emit nothing. The last is the leader: for a
    /// join that keeps the build side it emits, once, the build rows that no
    /// probe row matched. Before the table is built no worker can be done
    /// with probing: the call is refused and counts for nothing.
    pub fn finish(&mut self, state: &HashJoinState) -> (res: Result<
        (Arrival, Vec<JoinedRow>),
        JoinError,
    >)
        requires
            old(self).well_formed(),
            state.well_formed(),
        ensures
            final(self).well_formed(),
            final(self).restore_barrier() == old(self).restore_barrier(),
            !state.is_ready() ==> res == Err::<(Arrival, Vec<JoinedRow>), JoinError>(
                JoinError::NotReady,
            ) && final(self).barrier() == old(self).barrier(),
            state.is_ready() ==> final(self).barrier() == old(self).barrier().after_arrival() && (
            res matches Ok((arrival, rest)) && arrival == old(self).barrier().next_arrival() && (
            if arrival == Arrival::Leader && keeps_build_side(state.desc().join_type) {
                joined_views(rest@) == unvisited_rows(state.build_rows(), state.visited())
            } else {
                rest@.len() == 0
            })),
    {
        if state.table.is_none() {
            return Err(JoinError::NotReady);
        }
        let arrival: Arrival = self.barrier.arrive();
        let emit: bool = match (arrival, state.desc.join_type) {
            (Arrival::Leader, JoinType::Right) => true,
            (Arrival::Leader, JoinType::Full) => true,
            _ => false,
        };
        if emit {
            let out: Vec<JoinedRow> = final_scan(&state.rows, &state.visited);
            Ok((arrival, out))
        } else {
            Ok((arrival, Vec::new()))
        }
    }

    /// Reports that a worker failed: every worker that waits at one of the
    /// barriers, or arrives later, is told that the join is aborted.
    pub fn abort(&mut self)
        ensures
            final(self).barrier() == old(self).barrier().after_abort(),
            final(self).restore_barrier() == old(self).restore_barrier().after_abort(),
    {
        self.barrier.abort();
        self.restore_barrier.abort();
    }
}

/// For each row of a batch, the build rows with its key, in build order.
pub open spec fn candidate_lists(build: Seq<RowView>, batch: Seq<RowView>) -> Seq<Seq<usize>> {
    Seq::new(batch.len(), |i: int| build_matches(build, batch[i].key))
}

/// Whether there is one mask for each row, with one entry for each of the
/// row's candidates.
pub open spec fn masks_fit(cands: Seq<Seq<usize>>, masks: Seq<Seq<bool>>) -> bool {
    &&& masks.len() == cands.len()
    &&& forall|i: int| 0 <= i < cands.len() ==> (#[trigger] masks[i]).len() == cands[i].len()
}

fn masks_match(cands: &Vec<Vec<usize>>, masks: &Vec<Vec<bool>>) -> (fit: bool)
    ensures
        fit == masks_fit(views(cands@), mask_views(masks@)),
        fit ==> masks.len() == cands.len() && forall|i: int|
            0 <= i < cands.len() ==> (#[trigger] masks[i]).len() == cands[i].len(),
{
    if masks.len() != cands.len() {
        return false;
    }
    let mut i: usize = 0;
    while i < cands.len()
        invariant
            i <= cands.len(),
            masks.len() == cands.len(),
            forall|k: int| 0 <= k < i ==> (#[trigger] masks[k]).len() == cands[k].len(),
        decreases cands.len() - i,
    {
        if masks[i].len() != cands[i].len() {
            proof {
                assert(mask_views(masks@)[i as int].len() != views(cands@)[i as int].len());
            }
            return false;
        }
        i = i + 1;
    }
    proof {
        assert forall|k: int| 0 <= k < cands.len() implies (#[trigger] mask_views(
            masks@,
        )[k]).len() == views(cands@)[k].len() by {
            assert(masks[k].len() == cands[k].len());
        }
    }
    true
}

/// `cands[i]` lists the build rows with the key of probe row `i`.
pub open spec fn candidates_of(build: Seq<RowView>, batch: Seq<RowView>, cands: Seq<Seq<usize>>) -> bool {
    &&& cands.len() == batch.len()
    &&& forall|i: int|
        0 <= i < batch.len() ==> (#[trigger] cands[i]) == build_matches(build, batch[i].key)
}

/// Whatever a mask lets through of a row's candidates names a build row.
pub proof fn lemma_selections_in_range(
    build: Seq<RowView>,
    batch: Seq<RowView>,
    cands: Seq<Seq<usize>>,
    masks: Seq<Seq<bool>>,
)
    requires
        build.len() <= usize::MAX,
        candidates_of(build, batch, cands),
    ensures
        all_in_range(selections(cands, masks), build.len() as int),
{
    let sels = selections(cands, masks);
    assert forall|i: int, c: int| 0 <= i < sels.len() && 0 <= c < sels[i].len() implies (
    #[trigger] sels[i][c]) < build.len() by {
        assert(cands[i] == build_matches(build, batch[i].key));
        crate::join::spec::lemma_build_matches_sound(build, batch[i].key);
        crate::join::spec::lemma_selected_in_range(cands[i], masks[i], build.len() as int);
    }
}

/// Joins two inputs in memory with no residual predicate, given what is
/// known of the whole build side: the rows given may be one partition of it.
pub fn hash_join_with_facts(
    jt: JoinType,
    build: &Vec<Row>,
    probe: &Vec<Row>,
    facts: &BuildFacts,
) -> (out: Vec<JoinedRow>)
    ensures
        joined_views(out@) == join_output(
            jt,
            row_views(build@),
            row_views(probe@),
            no_residual(),
            *facts,
        ),
{
    let slots: usize = if build.len() == 0 {
        1
    } else {
        build.len()
    };
    let table: JoinHashTable = JoinHashTable::build(build, slots);
    let mut visited: VisitedBitmap = VisitedBitmap::new(build.len());
    let cands: Vec<Vec<usize>> = probe_candidates(&table, build, probe);
    let ghost builds = row_views(build@);
    let ghost probes = row_views(probe@);
    let ghost lists = views(cands@);
    let ghost masks = open_masks(lists);
    proof {
        assert(selections(lists, masks) =~= lists) by {
            assert forall|i: int| 0 <= i < lists.len() implies #[trigger] selections(lists, masks)[i]
                == lists[i] by {
                lemma_selected_all(lists[i], masks[i]);
            }
        }
        lemma_probe_agrees(jt, builds, probes, lists, masks, no_residual(), *facts);
    }
    let mut out: Vec<JoinedRow> = probe_selected(jt, build, probe, &cands, facts, &mut visited);
    let keep: bool = match jt {
        JoinType::Right | JoinType::Full => true,
        _ => false,
    };
    if keep {
        let mut rest: Vec<JoinedRow> = final_scan(build, &visited);
        proof {
            visited.lemma_bits_len();
            lemma_unvisited_is_unmatched(builds, probes, visited.bits(), no_residual());
        }
        out.append(&mut rest);
    } else {
    }
    out
}

/// Joins two inputs in memory, with one worker on each side and no residual
/// predicate.
pub fn hash_join(jt: JoinType, build: &Vec<Row>, probe: &Vec<Row>) -> (out: Vec<JoinedRow>)
    ensures
        joined_views(out@) == join_output(
            jt,
            row_views(build@),
            row_views(probe@),
            no_residual(),
            facts_of(row_views(build@)),
        ),
{
    let facts: BuildFacts = facts_for(build);
    hash_join_with_facts(jt, build, probe, &facts)
}

} // verus!
