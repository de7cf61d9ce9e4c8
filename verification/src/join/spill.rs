//! Spilling: when the build side outgrows memory, rows are split by the hash
//! of their key into partitions that are kept aside, and the join is run
//! partition by partition.

use vstd::prelude::*;
use crate::join::row::{
    joined_views, row_views, slot_of, spec_slot_of, JoinType, JoinedRow, JoinedRowView, Row, RowView,
};
use crate::join::spec::{join_output, no_residual, BuildFacts};
use crate::join::state::{hash_join_with_facts, HashJoinState, JoinError};

verus! {

/// The rows that fall into one partition out of `partitions`, in their order.
pub open spec fn partition_rows(rows: Seq<RowView>, partitions: usize, index: usize) -> Seq<RowView>
    decreases rows.len(),
{
    if rows.len() == 0 {
        Seq::empty()
    } else {
        let n = rows.len() - 1;
        let rest = partition_rows(rows.take(n), partitions, index);
        if spec_slot_of(rows[n].key, partitions) == index {
            rest.push(rows[n])
        } else {
            rest
        }
    }
}

/// Every row belongs to the partition `index`.
pub open spec fn all_in_partition(rows: Seq<RowView>, partitions: usize, index: usize) -> bool {
    forall|i: int| 0 <= i < rows.len() ==> spec_slot_of((#[trigger] rows[i]).key, partitions) == index
}

/// The output of a join that runs partition by partition, over the first
/// `upto` partitions: for each, the join of the build rows and the probe
/// rows that fall into it.
pub open spec fn spilled_output(
    jt: JoinType,
    build: Seq<RowView>,
    probe: Seq<RowView>,
    residual: spec_fn(RowView, RowView) -> bool,
    facts: BuildFacts,
    partitions: usize,
    upto: nat,
) -> Seq<JoinedRowView>
    decreases upto,
{
    if upto == 0 {
        Seq::empty()
    } else {
        let q = (upto - 1) as usize;
        spilled_output(jt, build, probe, residual, facts, partitions, (upto - 1) as nat)
            + join_output(
            jt,
            partition_rows(build, partitions, q),
            partition_rows(probe, partitions, q),
            residual,
            facts,
        )
    }
}

/// The output of restoring the first `upto` partitions of two spills, each
/// build partition joined to the probe partition of the same index.
pub open spec fn restored_output(
    jt: JoinType,
    build: Seq<Seq<RowView>>,
    probe: Seq<Seq<RowView>>,
    facts: BuildFacts,
    upto: nat,
) -> Seq<JoinedRowView>
    decreases upto,
{
    if upto == 0 {
        Seq::empty()
    } else {
        restored_output(jt, build, probe, facts, (upto - 1) as nat) + join_output(
            jt,
            build[upto - 1],
            probe[upto - 1],
            no_residual(),
            facts,
        )
    }
}

/// Splits a batch into its partitions.
pub fn partition_batch(batch: &Vec<Row>, partitions: usize) -> (parts: Vec<Vec<Row>>)
    requires
        partitions > 0,
    ensures
        parts.len() == partitions,
        forall|q: int|
            0 <= q < partitions ==> row_views((#[trigger] parts[q])@) == partition_rows(
                row_views(batch@),
                partitions,
                q as usize,
            ),
{
    let mut parts: Vec<Vec<Row>> = Vec::new();
    let mut q: usize = 0;
    while q < partitions
        invariant
            q <= partitions,
            parts.len() == q,
            forall|t: int| 0 <= t < q ==> (#[trigger] parts[t])@.len() == 0,
        decreases partitions - q,
    {
        parts.push(Vec::new());
        q = q + 1;
    }
    let ghost all = row_views(batch@);
    let mut i: usize = 0;
    while i < batch.len()
        invariant
            partitions > 0,
            i <= batch.len(),
            all == row_views(batch@),
            parts.len() == partitions,
            forall|t: int|
                0 <= t < partitions ==> row_views((#[trigger] parts[t])@) == partition_rows(
                    all.take(i as int),
                    partitions,
                    t as usize,
                ),
        decreases batch.len() - i,
    {
        proof {
            assert(all.take(i + 1).take(i as int) == all.take(i as int));
        }
        let slot: usize = slot_of(&batch[i].key, partitions);
        parts[slot].push(batch[i].duplicate());
        i = i + 1;
    }
    proof {
        assert(all.take(batch.len() as int) == all);
    }
    parts
}

/// The rows of one side of a join that were set aside, by partition. Rows
/// are only ever appended, and each partition holds rows of its own slot
/// only, so that a build row and a probe row with the same key are always
/// found in partitions of the same index.
pub struct SpillPartitions {
    parts: Vec<Vec<Row>>,
}

impl SpillPartitions {
    /// The number of partitions. It is fixed when the spill is made.
    pub closed spec fn count(&self) -> usize {
        self.parts.len()
    }

    /// What each partition holds.
    pub closed spec fn contents(&self) -> Seq<Seq<RowView>> {
        Seq::new(self.parts.len() as nat, |q: int| row_views(self.parts[q]@))
    }

    pub open spec fn well_formed(&self) -> bool {
        &&& self.count() > 0
        &&& self.contents().len() == self.count()
        &&& forall|q: int|
            0 <= q < self.count() ==> all_in_partition(
                #[trigger] self.contents()[q],
                self.count(),
                q as usize,
            )
    }

    /// A spill into `partitions` partitions, all empty.
    pub fn new(partitions: usize) -> (spill: SpillPartitions)
        requires
            partitions > 0,
        ensures
            spill.well_formed(),
            spill.count() == partitions,
            forall|q: int| 0 <= q < partitions ==> (#[trigger] spill.contents()[q]).len() == 0,
    {
        let mut parts: Vec<Vec<Row>> = Vec::new();
        let mut q: usize = 0;
        while q < partitions
            invariant
                q <= partitions,
                parts.len() == q,
                forall|t: int| 0 <= t < q ==> (#[trigger] parts[t])@.len() == 0,
            decreases partitions - q,
        {
            parts.push(Vec::new());
            q = q + 1;
        }
        SpillPartitions { parts }
    }

    pub fn partition_count(&self) -> (count: usize)
        ensures
            count == self.count(),
    {
        self.parts.len()
    }

    /// The number of rows in one partition.
    pub fn partition_len(&self, idx: usize) -> (len: usize)
        requires
            idx < self.count(),
        ensures
            len == self.contents()[idx as int].len(),
    {
        self.parts[idx].len()
    }

    /// What is wrong with setting rows aside in partition `idx`: the join
    /// has no such partition, or one of the rows belongs to another.
    pub open spec fn misplaced(count: usize, idx: usize, rows: Seq<RowView>) -> Option<JoinError> {
        if idx >= count {
            Some(JoinError::NoSuchPartition)
        } else if !all_in_partition(rows, count, idx) {
            Some(JoinError::WrongPartition)
        } else {
            None
        }
    }

    /// Appends rows of partition `idx` to it. Rows of which one belongs to
    /// another partition are refused as a whole: a build row and a probe row
    /// with the same key must meet in the same partition.
    pub fn spill_partition(&mut self, idx: usize, batch: &Vec<Row>) -> (res: Result<(), JoinError>)
        requires
            old(self).well_formed(),
        ensures
            final(self).well_formed(),
            final(self).count() == old(self).count(),
            match SpillPartitions::misplaced(old(self).count(), idx, row_views(batch@)) {
                Some(e) => res == Err::<(), JoinError>(e)
                    && final(self).contents() == old(self).contents(),
                None => res == Ok::<(), JoinError>(())
                    && final(self).contents() == old(self).contents().update(
                    idx as int,
                    old(self).contents()[idx as int] + row_views(batch@),
                ),
            },
    {
        if idx >= self.parts.len() {
            return Err(JoinError::NoSuchPartition);
        }
        let ghost rows = row_views(batch@);
        let count: usize = self.parts.len();
        let mut i: usize = 0;
        while i < batch.len()
            invariant
                i <= batch.len(),
                *self == *old(self),
                self.well_formed(),
                count == self.count(),
                idx < count,
                rows == row_views(batch@),
                forall|k: int| 0 <= k < i ==> spec_slot_of((#[trigger] rows[k]).key, count) == idx,
            decreases batch.len() - i,
        {
            proof {
                assert(rows[i as int] == batch@[i as int]@);
            }
            if slot_of(&batch[i].key, count) != idx {
                proof {
                    assert(spec_slot_of(rows[i as int].key, count) != idx);
                }
                return Err(JoinError::WrongPartition);
            }
            i = i + 1;
        }
        self.append_rows(idx, batch);
        Ok(())
    }

    fn append_rows(&mut self, idx: usize, batch: &Vec<Row>)
        requires
            old(self).well_formed(),
            idx < old(self).count(),
            all_in_partition(row_views(batch@), old(self).count(), idx),
        ensures
            final(self).well_formed(),
            final(self).count() == old(self).count(),
            final(self).contents() == old(self).contents().update(
                idx as int,
                old(self).contents()[idx as int] + row_views(batch@),
            ),
    {
        let ghost before = row_views(self.parts[idx as int]@);
        let ghost all_before = self.contents();
        let ghost added = row_views(batch@);
        let mut i: usize = 0;
        while i < batch.len()
            invariant
                i <= batch.len(),
                added == row_views(batch@),
                idx < self.parts.len(),
                self.parts.len() == old(self).parts.len(),
                row_views(self.parts[idx as int]@) == before + added.take(i as int),
                forall|q: int|
                    0 <= q < self.parts.len() && q != idx ==> row_views((#[trigger] self.parts[q])@)
                        == all_before[q],
            decreases batch.len() - i,
        {
            let ghost so_far = row_views(self.parts[idx as int]@);
            self.parts[idx].push(batch[i].duplicate());
            proof {
                assert(row_views(self.parts[idx as int]@) =~= so_far.push(batch@[i as int]@));
            }
            i = i + 1;
        }
        proof {
            assert(added.take(batch.len() as int) == added);
            assert forall|q: int| 0 <= q < self.count() implies all_in_partition(
                #[trigger] self.contents()[q],
                self.count(),
                q as usize,
            ) by {
                assert(all_in_partition(all_before[q], self.count(), q as usize));
                if q == idx {
                    let now = self.contents()[q];
                    assert forall|k: int| 0 <= k < now.len() implies spec_slot_of(
                        (#[trigger] now[k]).key,
                        self.count(),
                    ) == q as usize by {
                        if k < before.len() {
                            assert(now[k] == all_before[q][k]);
                        } else {
                            assert(now[k] == added[k - before.len()]);
                        }
                    }
                }
            }
        }
    }

    /// Splits a batch by the hash of its keys and appends each part to its
    /// partition.
    pub fn spill(&mut self, batch: &Vec<Row>)
        requires
            old(self).well_formed(),
        ensures
            final(self).well_formed(),
            final(self).count() == old(self).count(),
            final(self).contents().len() == old(self).contents().len(),
            forall|q: int|
                0 <= q < old(self).count() ==> (#[trigger] final(self).contents()[q])
                    == old(self).contents()[q] + partition_rows(
                    row_views(batch@),
                    old(self).count(),
                    q as usize,
                ),
    {
        let count: usize = self.parts.len();
        let parts: Vec<Vec<Row>> = partition_batch(batch, count);
        let ghost all_before = self.contents();
        let mut q: usize = 0;
        while q < count
            invariant
                q <= count,
                count == old(self).count(),
                self.well_formed(),
                self.count() == count,
                parts.len() == count,
                all_before == old(self).contents(),
                forall|t: int|
                    0 <= t < count ==> row_views((#[trigger] parts[t])@) == partition_rows(
                        row_views(batch@),
                        count,
                        t as usize,
                    ),
                forall|t: int|
                    0 <= t < q ==> (#[trigger] self.contents()[t]) == all_before[t]
                        + partition_rows(row_views(batch@), count, t as usize),
                forall|t: int| q <= t < count ==> (#[trigger] self.contents()[t]) == all_before[t],
            decreases count - q,
        {
            proof {
                lemma_partition_rows_in_partition(row_views(batch@), count, q);
            }
            self.append_rows(q, &parts[q]);
            q = q + 1;
        }
    }
}

/// The rows that fall into a partition belong to it.
pub proof fn lemma_partition_rows_in_partition(rows: Seq<RowView>, partitions: usize, index: usize)
    ensures
        all_in_partition(partition_rows(rows, partitions, index), partitions, index),
    decreases rows.len(),
{
    if rows.len() > 0 {
        let n = rows.len() - 1;
        lemma_partition_rows_in_partition(rows.take(n), partitions, index);
        let rest = partition_rows(rows.take(n), partitions, index);
        let all = partition_rows(rows, partitions, index);
        assert forall|i: int| 0 <= i < all.len() implies spec_slot_of(
            (#[trigger] all[i]).key,
            partitions,
        ) == index by {
            if i < rest.len() {
                assert(all[i] == rest[i]);
            }
        }
    }
}

/// The bytes that a row takes in memory: sixteen for what holds it
/// together, sixteen for each value of its key, and the bytes of its
/// payload.
pub open spec fn row_bytes(row: RowView) -> nat {
    let key: nat = match row.key {
        Some(values) => 16 * values.len(),
        None => 0,
    };
    16 + key + (vstd::utf8::encode_utf8(row.payload).len() as usize) as nat
}

/// The bytes that some rows take in memory.
pub open spec fn rows_bytes(rows: Seq<RowView>) -> nat
    decreases rows.len(),
{
    if rows.len() == 0 {
        0
    } else {
        rows_bytes(rows.drop_last()) + row_bytes(rows.last())
    }
}

/// A number of bytes as it is counted: the largest number there is stands
/// for itself and for all that is more.
pub open spec fn counted(bytes: nat) -> usize {
    if bytes <= usize::MAX {
        bytes as usize
    } else {
        usize::MAX
    }
}

fn count_up(a: usize, b: usize) -> (sum: usize)
    ensures
        sum == counted((a + b) as nat),
{
    if a > usize::MAX - b {
        usize::MAX
    } else {
        a + b
    }
}

/// The bytes that some rows take in memory; the largest number there is
/// where they take more than can be counted.
pub fn memory_used(rows: &Vec<Row>) -> (bytes: usize)
    ensures
        bytes == counted(rows_bytes(row_views(rows@))),
{
    let ghost all = row_views(rows@);
    let mut bytes: usize = 0;
    let mut i: usize = 0;
    while i < rows.len()
        invariant
            i <= rows.len(),
            all == row_views(rows@),
            bytes == counted(rows_bytes(all.take(i as int))),
        decreases rows.len() - i,
    {
        proof {
            assert(all.take(i + 1).drop_last() =~= all.take(i as int));
        }
        let key: usize = match &rows[i].key {
            Some(values) => {
                if values.len() > usize::MAX / 16 {
                    usize::MAX
                } else {
                    values.len() * 16
                }
            },
            None => 0,
        };
        let payload: usize = rows[i].payload.as_str().len();
        let own: usize = count_up(count_up(16, key), payload);
        bytes = count_up(bytes, own);
        i = i + 1;
    }
    proof {
        assert(all.take(rows.len() as int) == all);
    }
    bytes
}

/// Whether a join with this threshold must spill at this use of memory.
/// A threshold of zero turns spilling off.
pub open spec fn must_spill(threshold: usize, used_bytes: usize) -> bool {
    threshold != 0 && used_bytes > threshold
}

/// The build side's spill: the partitions of build rows set aside.
pub struct BuildSpillState {
    threshold: usize,
    partitions: SpillPartitions,
}

impl BuildSpillState {
    pub closed spec fn threshold(&self) -> usize {
        self.threshold
    }

    pub closed spec fn partitions(&self) -> SpillPartitions {
        self.partitions
    }

    pub open spec fn well_formed(&self) -> bool {
        self.partitions().well_formed()
    }

    /// A build spill with a memory threshold, into `partitions` partitions.
    pub fn create(threshold: usize, partitions: usize) -> (state: BuildSpillState)
        requires
            partitions > 0,
        ensures
            state.well_formed(),
            state.threshold() == threshold,
            state.partitions().count() == partitions,
            forall|q: int|
                0 <= q < partitions ==> (#[trigger] state.partitions().contents()[q]).len() == 0,
    {
        BuildSpillState { threshold, partitions: SpillPartitions::new(partitions) }
    }

    /// Whether a worker that sees `used_bytes` of memory in use proposes to
    /// spill.
    pub fn check_need_spill(&self, used_bytes: usize) -> (need: bool)
        ensures
            need == must_spill(self.threshold(), used_bytes),
    {
        self.threshold != 0 && used_bytes > self.threshold
    }

    /// Appends build rows of partition `idx` to it. Rows of which one
    /// belongs to another partition are refused as a whole.
    pub fn spill_build_partition(&mut self, idx: usize, batch: &Vec<Row>) -> (res: Result<
        (),
        JoinError,
    >)
        requires
            old(self).well_formed(),
        ensures
            final(self).well_formed(),
            final(self).threshold() == old(self).threshold(),
            final(self).partitions().count() == old(self).partitions().count(),
            match SpillPartitions::misplaced(
                old(self).partitions().count(),
                idx,
                row_views(batch@),
            ) {
                Some(e) => res == Err::<(), JoinError>(e) && final(self).partitions().contents()
                    == old(self).partitions().contents(),
                None => res == Ok::<(), JoinError>(()) && final(self).partitions().contents()
                    == old(self).partitions().contents().update(
                    idx as int,
                    old(self).partitions().contents()[idx as int] + row_views(batch@),
                ),
            },
    {
        self.partitions.spill_partition(idx, batch)
    }

    /// Splits a batch of build rows by key and sets each part aside.
    pub fn spill(&mut self, batch: &Vec<Row>)
        requires
            old(self).well_formed(),
        ensures
            final(self).well_formed(),
            final(self).threshold() == old(self).threshold(),
            final(self).partitions().count() == old(self).partitions().count(),
            final(self).partitions().contents().len() == old(self).partitions().contents().len(),
            forall|q: int|
                0 <= q < old(self).partitions().count() ==> (
                #[trigger] final(self).partitions().contents()[q])
                    == old(self).partitions().contents()[q] + partition_rows(
                    row_views(batch@),
                    old(self).partitions().count(),
                    q as usize,
                ),
    {
        self.partitions.spill(batch);
    }

    pub fn spilled(&self) -> (partitions: &SpillPartitions)
        ensures
            *partitions == self.partitions(),
    {
        &self.partitions
    }

    /// Sets aside the build rows that the join holds in memory: once the
    /// workers have decided to spill, what was gathered before goes the way
    /// of what comes after.
    pub fn flush_buffered(&mut self, state: &mut HashJoinState) -> (res: Result<(), JoinError>)
        requires
            old(self).well_formed(),
            old(state).well_formed(),
        ensures
            final(self).well_formed(),
            final(state).well_formed(),
            final(self).threshold() == old(self).threshold(),
            final(self).partitions().count() == old(self).partitions().count(),
            final(state).desc() == old(state).desc(),
            final(state).is_ready() == old(state).is_ready(),
            old(state).is_ready() ==> res == Err::<(), JoinError>(JoinError::AlreadyBuilt)
                && final(state).build_rows() == old(state).build_rows()
                && final(self).partitions().contents() == old(self).partitions().contents(),
            !old(state).is_ready() ==> res is Ok && final(state).build_rows() == Seq::<RowView>::empty()
                && forall|q: int|
                0 <= q < old(self).partitions().count() ==> (
                #[trigger] final(self).partitions().contents()[q])
                    == old(self).partitions().contents()[q] + partition_rows(
                    old(state).build_rows(),
                    old(self).partitions().count(),
                    q as usize,
                ),
    {
        match state.take_build_rows() {
            Err(e) => Err(e),
            Ok(rows) => {
                self.spill(&rows);
                Ok(())
            },
        }
    }
}

/// The probe side's spill: the partitions of probe rows set aside.
pub struct ProbeSpillState {
    partitions: SpillPartitions,
}

impl ProbeSpillState {
    pub closed spec fn partitions(&self) -> SpillPartitions {
        self.partitions
    }

    pub open spec fn well_formed(&self) -> bool {
        self.partitions().well_formed()
    }

    /// A probe spill into `partitions` partitions.
    pub fn create(partitions: usize) -> (state: ProbeSpillState)
        requires
            partitions > 0,
        ensures
            state.well_formed(),
            state.partitions().count() == partitions,
            forall|q: int|
                0 <= q < partitions ==> (#[trigger] state.partitions().contents()[q]).len() == 0,
    {
        ProbeSpillState { partitions: SpillPartitions::new(partitions) }
    }

    /// Appends probe rows of partition `idx` to it. Rows of which one
    /// belongs to another partition are refused as a whole.
    pub fn spill_probe_partition(&mut self, idx: usize, batch: &Vec<Row>) -> (res: Result<
        (),
        JoinError,
    >)
        requires
            old(self).well_formed(),
        ensures
            final(self).well_formed(),
            final(self).partitions().count() == old(self).partitions().count(),
            match SpillPartitions::misplaced(
                old(self).partitions().count(),
                idx,
                row_views(batch@),
            ) {
                Some(e) => res == Err::<(), JoinError>(e) && final(self).partitions().contents()
                    == old(self).partitions().contents(),
                None => res == Ok::<(), JoinError>(()) && final(self).partitions().contents()
                    == old(self).partitions().contents().update(
                    idx as int,
                    old(self).partitions().contents()[idx as int] + row_views(batch@),
                ),
            },
    {
        self.partitions.spill_partition(idx, batch)
    }

    /// Splits a batch of probe rows by key and sets each part aside.
    pub fn spill(&mut self, batch: &Vec<Row>)
        requires
            old(self).well_formed(),
        ensures
            final(self).well_formed(),
            final(self).partitions().count() == old(self).partitions().count(),
            final(self).partitions().contents().len() == old(self).partitions().contents().len(),
            forall|q: int|
                0 <= q < old(self).partitions().count() ==> (
                #[trigger] final(self).partitions().contents()[q])
                    == old(self).partitions().contents()[q] + partition_rows(
                    row_views(batch@),
                    old(self).partitions().count(),
                    q as usize,
                ),
    {
        self.partitions.spill(batch);
    }

    pub fn spilled(&self) -> (partitions: &SpillPartitions)
        ensures
            *partitions == self.partitions(),
    {
        &self.partitions
    }
}

impl SpillPartitions {
    /// The rows of one partition.
    pub fn partition(&self, idx: usize) -> (rows: &Vec<Row>)
        requires
            idx < self.count(),
        ensures
            row_views(rows@) == self.contents()[idx as int],
    {
        &self.parts[idx]
    }
}

/// Restores the partitions set aside, one after the other: the build
/// partition is loaded and a table built over it, the probe partition of the
/// same index is joined against it, the output is emitted, and both are let
/// go before the next partition is taken up.
pub fn restore_round(
    jt: JoinType,
    build: &BuildSpillState,
    probe: &ProbeSpillState,
    facts: &BuildFacts,
) -> (out: Vec<JoinedRow>)
    requires
        build.well_formed(),
        probe.well_formed(),
        build.partitions().count() == probe.partitions().count(),
    ensures
        joined_views(out@) == restored_output(
            jt,
            build.partitions().contents(),
            probe.partitions().contents(),
            *facts,
            build.partitions().count() as nat,
        ),
{
    let count: usize = build.spilled().partition_count();
    let mut out: Vec<JoinedRow> = Vec::new();
    let mut q: usize = 0;
    while q < count
        invariant
            q <= count,
            count == build.partitions().count(),
            count == probe.partitions().count(),
            joined_views(out@) == restored_output(
                jt,
                build.partitions().contents(),
                probe.partitions().contents(),
                *facts,
                q as nat,
            ),
        decreases count - q,
    {
        let build_rows: &Vec<Row> = build.spilled().partition(q);
        let probe_rows: &Vec<Row> = probe.spilled().partition(q);
        let mut joined: Vec<JoinedRow> = hash_join_with_facts(jt, build_rows, probe_rows, facts);
        out.append(&mut joined);
        q = q + 1;
    }
    out
}

/// The restored output of two spills that hold the partitions of a build
/// side and of a probe side is the output of the join run partition by
/// partition.
pub proof fn lemma_restored_is_spilled(
    jt: JoinType,
    build: Seq<RowView>,
    probe: Seq<RowView>,
    build_parts: Seq<Seq<RowView>>,
    probe_parts: Seq<Seq<RowView>>,
    facts: BuildFacts,
    partitions: usize,
    upto: nat,
)
    requires
        upto <= partitions,
        build_parts.len() == partitions,
        probe_parts.len() == partitions,
        forall|q: int|
            0 <= q < partitions ==> (#[trigger] build_parts[q]) == partition_rows(
                build,
                partitions,
                q as usize,
            ),
        forall|q: int|
            0 <= q < partitions ==> (#[trigger] probe_parts[q]) == partition_rows(
                probe,
                partitions,
                q as usize,
            ),
    ensures
        restored_output(jt, build_parts, probe_parts, facts, upto) == spilled_output(
            jt,
            build,
            probe,
            no_residual(),
            facts,
            partitions,
            upto,
        ),
    decreases upto,
{
    if upto > 0 {
        lemma_restored_is_spilled(
            jt,
            build,
            probe,
            build_parts,
            probe_parts,
            facts,
            partitions,
            (upto - 1) as nat,
        );
    }
}

/// Joins two inputs with spilling forced: both are split into `partitions`
/// partitions, set aside, and restored and joined partition by partition.
pub fn hash_join_spilled(jt: JoinType, build: &Vec<Row>, probe: &Vec<Row>, partitions: usize) -> (out:
    Vec<JoinedRow>)
    requires
        partitions > 0,
    ensures
        joined_views(out@) == spilled_output(
            jt,
            row_views(build@),
            row_views(probe@),
            no_residual(),
            crate::join::spec::facts_of(row_views(build@)),
            partitions,
            partitions as nat,
        ),
{
    let facts: BuildFacts = crate::join::probe::facts_for(build);
    let mut build_spill: BuildSpillState = BuildSpillState::create(1, partitions);
    let mut probe_spill: ProbeSpillState = ProbeSpillState::create(partitions);
    build_spill.spill(build);
    probe_spill.spill(probe);
    proof {
        lemma_restored_is_spilled(
            jt,
            row_views(build@),
            row_views(probe@),
            build_spill.partitions().contents(),
            probe_spill.partitions().contents(),
            facts,
            partitions,
            partitions as nat,
        );
    }
    restore_round(jt, &build_spill, &probe_spill, &facts)
}

/// How the workers of the build side agree on whether to spill. Each worker
/// proposes; when the last has proposed the matter is decided, once and for
/// all workers alike: the join spills if any of them asked for it.
pub struct BuildSpillCoordinator {
    total_workers: usize,
    proposed: usize,
    asked_to_spill: bool,
    decision: Option<bool>,
}

/// The state of a coordinator: of how many workers, how many of them have
/// proposed, whether one of them asked to spill, and what was decided.
pub struct CoordinatorView {
    pub total_workers: usize,
    pub proposed: usize,
    pub asked_to_spill: bool,
    pub decision: Option<bool>,
}

impl View for BuildSpillCoordinator {
    type V = CoordinatorView;

    closed spec fn view(&self) -> CoordinatorView {
        CoordinatorView {
            total_workers: self.total_workers,
            proposed: self.proposed,
            asked_to_spill: self.asked_to_spill,
            decision: self.decision,
        }
    }
}

impl CoordinatorView {
    pub open spec fn well_formed(self) -> bool {
        &&& self.total_workers > 0
        &&& self.decision is None ==> self.proposed < self.total_workers
    }

    /// The coordinator before any worker has proposed.
    pub open spec fn fresh(total_workers: usize) -> CoordinatorView {
        CoordinatorView { total_workers, proposed: 0, asked_to_spill: false, decision: None }
    }

    /// The coordinator after one more proposal.
    pub open spec fn after_proposal(self, wants_spill: bool) -> CoordinatorView {
        if self.decision is Some {
            self
        } else if self.proposed + 1 == self.total_workers {
            CoordinatorView {
                proposed: (self.proposed + 1) as usize,
                asked_to_spill: self.asked_to_spill || wants_spill,
                decision: Some(self.asked_to_spill || wants_spill),
                ..self
            }
        } else {
            CoordinatorView {
                proposed: (self.proposed + 1) as usize,
                asked_to_spill: self.asked_to_spill || wants_spill,
                ..self
            }
        }
    }
}

impl BuildSpillCoordinator {
    pub open spec fn well_formed(&self) -> bool {
        self@.well_formed()
    }

    /// A coordinator for `total_workers` build workers.
    pub fn create(total_workers: usize) -> (coordinator: BuildSpillCoordinator)
        requires
            total_workers > 0,
        ensures
            coordinator.well_formed(),
            coordinator@ == CoordinatorView::fresh(total_workers),
    {
        BuildSpillCoordinator { total_workers, proposed: 0, asked_to_spill: false, decision: None }
    }

    /// The number of workers whose proposals the decision waits for.
    pub fn total_workers(&self) -> (count: usize)
        ensures
            count == self@.total_workers,
    {
        self.total_workers
    }

    /// Takes a worker's proposal. Returns the decision once there is one;
    /// until then the worker waits, and writes no partition.
    pub fn propose(&mut self, wants_spill: bool) -> (decision: Option<bool>)
        requires
            old(self).well_formed(),
        ensures
            final(self).well_formed(),
            final(self)@ == old(self)@.after_proposal(wants_spill),
            decision == final(self)@.decision,
    {
        if self.decision.is_some() {
            return self.decision;
        }
        self.proposed = self.proposed + 1;
        self.asked_to_spill = self.asked_to_spill || wants_spill;
        if self.proposed == self.total_workers {
            self.decision = Some(self.asked_to_spill);
        }
        self.decision
    }

    /// The decision, once it is made.
    pub fn decided(&self) -> (decision: Option<bool>)
        ensures
            decision == self@.decision,
    {
        self.decision
    }
}

/// A decision, once made, stands: no later proposal changes it.
pub proof fn law_decision_stands(coordinator: CoordinatorView, wants_spill: bool)
    requires
        coordinator.decision is Some,
    ensures
        coordinator.after_proposal(wants_spill) == coordinator,
{
}

/// The workers decide to spill exactly if one of them asked for it: after
/// the proposals of all of them the decision is made, and it is to spill if
/// one of the proposals was.
pub proof fn law_decision_is_collective(total_workers: usize, proposals: Seq<bool>)
    requires
        total_workers > 0,
        proposals.len() == total_workers,
    ensures
        after_proposals(CoordinatorView::fresh(total_workers), proposals).decision == Some(
            proposals.contains(true),
        ),
{
    lemma_proposals(total_workers, proposals, proposals.len());
    assert(proposals.take(proposals.len() as int) =~= proposals);
}

/// The coordinator after a row of proposals.
pub open spec fn after_proposals(coordinator: CoordinatorView, proposals: Seq<bool>) -> CoordinatorView
    decreases proposals.len(),
{
    if proposals.len() == 0 {
        coordinator
    } else {
        after_proposals(coordinator, proposals.drop_last()).after_proposal(proposals.last())
    }
}

proof fn lemma_proposals(total_workers: usize, proposals: Seq<bool>, upto: nat)
    requires
        total_workers > 0,
        upto <= proposals.len(),
        proposals.len() == total_workers,
    ensures
        ({
            let now = after_proposals(CoordinatorView::fresh(total_workers), proposals.take(upto as int));
            &&& now.total_workers == total_workers
            &&& now.proposed == upto
            &&& now.asked_to_spill == proposals.take(upto as int).contains(true)
            &&& now.decision == (if upto == total_workers {
                Some(proposals.take(upto as int).contains(true))
            } else {
                None
            })
        }),
    decreases upto,
{
    let taken = proposals.take(upto as int);
    if upto > 0 {
        lemma_proposals(total_workers, proposals, (upto - 1) as nat);
        let before = proposals.take(upto - 1);
        assert(taken.drop_last() =~= before);
        assert(taken.last() == proposals[upto - 1]);
        if before.contains(true) {
            let k = choose|k: int| 0 <= k < before.len() && before[k] == true;
            assert(taken[k] == true);
        }
        if taken.last() {
            assert(taken[upto - 1] == true);
        }
        if taken.contains(true) {
            let k = choose|k: int| 0 <= k < taken.len() && taken[k] == true;
            if k < upto - 1 {
                assert(before[k] == true);
            }
        }
    } else {
        assert(!taken.contains(true));
    }
}

} // verus!
