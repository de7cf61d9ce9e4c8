//! The plans that the executor runs.

use vstd::prelude::*;
use crate::join::row::JoinType;
use crate::interpreters::Expr;
use crate::plans::task::DataField;
use crate::tasks::TableInfo;

verus! {

/// A scan of a table: the leaf of a plan. It reads with `parallelism`
/// readers at once.
#[derive(Debug, PartialEq, Eq)]
pub struct TableScan {
    pub plan_id: u32,
    pub parallelism: usize,
    pub output: Vec<DataField>,
}

/// A hash join of two plans on equal keys.
#[derive(Debug, PartialEq, Eq)]
pub struct HashJoin {
    pub plan_id: u32,
    pub build: PhysicalPlan,
    pub probe: PhysicalPlan,
    pub join_type: JoinType,
    /// The number of pairs of columns that the join holds equal.
    pub key_columns: usize,
    /// The number of conditions beyond the equality of the keys.
    pub non_equi_conditions: usize,
    /// The columns of the probe side that the join hands on.
    pub probe_projections: Vec<usize>,
    pub contain_runtime_filter: bool,
    /// Whether the table must outlive the join, for a merge that reads it.
    pub need_hold_hash_table: bool,
    pub output: Vec<DataField>,
}

/// A join of two plans on overlapping ranges.
#[derive(Debug, PartialEq, Eq)]
pub struct RangeJoin {
    pub plan_id: u32,
    pub left: PhysicalPlan,
    pub right: PhysicalPlan,
    pub output: Vec<DataField>,
}

/// The rows of two plans, one after the other.
#[derive(Debug, PartialEq, Eq)]
pub struct UnionAll {
    pub plan_id: u32,
    pub left: PhysicalPlan,
    pub right: PhysicalPlan,
    pub output: Vec<DataField>,
}

/// A plan that runs once and is read by another plan, perhaps many times.
#[derive(Debug, PartialEq, Eq)]
pub struct MaterializedCte {
    pub plan_id: u32,
    pub left: PhysicalPlan,
    pub right: PhysicalPlan,
    pub cte_idx: usize,
    pub output: Vec<DataField>,
}

/// A plan whose left side is filtered by what its right side, the build
/// side of a join, holds.
#[derive(Debug, PartialEq, Eq)]
pub struct RuntimeFilterSource {
    pub plan_id: u32,
    pub left_side: PhysicalPlan,
    pub right_side: PhysicalPlan,
    /// The ids of the filters.
    pub runtime_filters: Vec<usize>,
    pub output: Vec<DataField>,
}

#[derive(Debug, PartialEq, Eq)]
pub enum PhysicalPlan {
    TableScan(TableScan),
    HashJoin(Box<HashJoin>),
    RangeJoin(Box<RangeJoin>),
    UnionAll(Box<UnionAll>),
    MaterializedCte(Box<MaterializedCte>),
    RuntimeFilterSource(Box<RuntimeFilterSource>),
}

impl PhysicalPlan {
    /// The columns that the plan returns.
    pub open spec fn output(&self) -> Vec<DataField> {
        match self {
            PhysicalPlan::TableScan(scan) => scan.output,
            PhysicalPlan::HashJoin(join) => join.output,
            PhysicalPlan::RangeJoin(join) => join.output,
            PhysicalPlan::UnionAll(union) => union.output,
            PhysicalPlan::MaterializedCte(cte) => cte.output,
            PhysicalPlan::RuntimeFilterSource(source) => source.output,
        }
    }

    pub fn output_schema(&self) -> (schema: &Vec<DataField>)
        ensures
            *schema == self.output(),
    {
        match self {
            PhysicalPlan::TableScan(scan) => &scan.output,
            PhysicalPlan::HashJoin(join) => &join.output,
            PhysicalPlan::RangeJoin(join) => &join.output,
            PhysicalPlan::UnionAll(union) => &union.output,
            PhysicalPlan::MaterializedCte(cte) => &cte.output,
            PhysicalPlan::RuntimeFilterSource(source) => &source.output,
        }
    }
}

/// The source of a merge: the rows of the source joined to the rows of the
/// target that they match, with the target's row id in one of the columns.
#[derive(Debug, PartialEq, Eq)]
pub struct MergeIntoSource {
    pub input: Box<PhysicalPlan>,
    pub row_id_idx: u32,
}

/// What a merge does with a row of the source that matches no row of the
/// target: under the condition, if there is one, it is inserted with these
/// values.
#[derive(Debug, PartialEq, Eq)]
pub struct UnmatchedClause {
    pub source_schema: Vec<DataField>,
    pub condition: Option<Expr>,
    pub values: Vec<Expr>,
}

/// What a merge does with a row of the source that matches a row of the
/// target: under the condition, if there is one, the target's row is
/// updated, column by column, or, where no update is given, deleted.
#[derive(Debug, PartialEq, Eq)]
pub struct MatchedClause {
    pub condition: Option<Expr>,
    pub update: Option<Vec<(usize, Expr)>>,
}

/// A merge into a table.
#[derive(Debug, PartialEq, Eq)]
pub struct MergeInto {
    pub input: Box<PhysicalPlan>,
    pub table_info: TableInfo,
    /// The name of the catalog that holds the table.
    pub catalog: String,
    pub unmatched: Vec<UnmatchedClause>,
    pub matched: Vec<MatchedClause>,
    /// For the columns of the target, by their place, the place among the
    /// columns of the input.
    pub field_index_of_input_schema: Vec<(usize, usize)>,
    pub row_id_idx: usize,
    pub output_schema: Vec<DataField>,
    pub distributed: bool,
}

/// The part of a merge that only inserts the rows that match nothing.
#[derive(Debug, PartialEq, Eq)]
pub struct MergeIntoAppendNotMatched {
    pub input: Box<PhysicalPlan>,
    pub table_info: TableInfo,
    /// The name of the catalog that holds the table.
    pub catalog: String,
    pub unmatched: Vec<UnmatchedClause>,
    pub input_schema: Vec<DataField>,
}

/// The plan that commits to a table what its input has written.
#[derive(Debug, PartialEq, Eq)]
pub struct CommitSink {
    pub input: Box<PhysicalPlan>,
    pub table_info: TableInfo,
    /// The name of the catalog that holds the table.
    pub catalog: String,
    pub merge_meta: bool,
    pub need_lock: bool,
}

/// A file of a stage.
#[derive(Clone, Debug, PartialEq, Eq)]
pub struct StageFileInfo {
    pub path: String,
    pub size: u64,
}

/// The statement whose result is copied.
#[derive(Debug, PartialEq, Eq)]
pub struct QuerySource {
    pub plan: Box<PhysicalPlan>,
    pub query_source_schema: Vec<DataField>,
    pub ignore_result: bool,
}

/// The stage whose files are copied.
#[derive(Clone, Debug, PartialEq, Eq)]
pub struct StageSource {
    pub files: Vec<StageFileInfo>,
}

#[derive(Debug, PartialEq, Eq)]
pub enum CopyIntoTableSource {
    Query(Box<QuerySource>),
    Stage(Box<StageSource>),
}

impl CopyIntoTableSource {
    pub fn as_query(&self) -> (query: Option<&Box<QuerySource>>)
        ensures
            match *self {
                CopyIntoTableSource::Query(q) => query == Some(&q),
                CopyIntoTableSource::Stage(_) => query is None,
            },
    {
        match self {
            CopyIntoTableSource::Query(q) => Some(q),
            CopyIntoTableSource::Stage(_) => None,
        }
    }

    pub fn as_stage(&self) -> (stage: Option<&Box<StageSource>>)
        ensures
            match *self {
                CopyIntoTableSource::Stage(s) => stage == Some(&s),
                CopyIntoTableSource::Query(_) => stage is None,
            },
    {
        match self {
            CopyIntoTableSource::Stage(s) => Some(s),
            CopyIntoTableSource::Query(_) => None,
        }
    }
}

/// A copy into a table.
#[derive(Debug, PartialEq, Eq)]
pub struct CopyIntoTable {
    pub required_values_schema: Vec<DataField>,
    pub required_source_schema: Vec<DataField>,
    pub force: bool,
    pub files: Vec<StageFileInfo>,
    pub source: CopyIntoTableSource,
}

impl CopyIntoTable {
    /// The columns the copy hands on: those of the statement where it copies
    /// a statement's result, those of the values it needs where it copies
    /// from a stage.
    pub fn output_schema(&self) -> (schema: &Vec<DataField>)
        ensures
            match self.source {
                CopyIntoTableSource::Query(q) => *schema == q.query_source_schema,
                CopyIntoTableSource::Stage(_) => *schema == self.required_values_schema,
            },
    {
        match &self.source {
            CopyIntoTableSource::Query(query_ctx) => &query_ctx.query_source_schema,
            CopyIntoTableSource::Stage(_) => &self.required_values_schema,
        }
    }
}

} // verus!
