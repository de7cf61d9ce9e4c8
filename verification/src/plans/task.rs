//! The plans of the statements on tasks, and the shape of what they return.

use vstd::prelude::*;

verus! {

/// The type of a column.
#[derive(Debug, PartialEq, Eq)]
pub enum DataType {
    String,
    Timestamp,
    UInt64,
    Int64,
    Int32,
    Nullable(Box<DataType>),
}

impl DataType {
    /// Whether the values are text, null or not.
    pub open spec fn holds_text(self) -> bool
        decreases self,
    {
        match self {
            DataType::String => true,
            DataType::Nullable(inner) => inner.holds_text(),
            _ => false,
        }
    }

    pub fn is_string_column(&self) -> (yes: bool)
        ensures
            yes == self.holds_text(),
        decreases self,
    {
        match self {
            DataType::String => true,
            DataType::Nullable(inner) => inner.is_string_column(),
            _ => false,
        }
    }

    /// A copy of the type.
    pub fn duplicate(&self) -> (copy: DataType)
        ensures
            copy == *self,
        decreases self,
    {
        match self {
            DataType::String => DataType::String,
            DataType::Timestamp => DataType::Timestamp,
            DataType::UInt64 => DataType::UInt64,
            DataType::Int64 => DataType::Int64,
            DataType::Int32 => DataType::Int32,
            DataType::Nullable(inner) => DataType::Nullable(Box::new(inner.duplicate())),
        }
    }

    /// The type with null added to its values.
    pub fn wrap_nullable(self) -> (wrapped: DataType)
        ensures
            wrapped == (match self {
                DataType::Nullable(inner) => DataType::Nullable(inner),
                other => DataType::Nullable(Box::new(other)),
            }),
    {
        match self {
            DataType::Nullable(inner) => DataType::Nullable(inner),
            other => DataType::Nullable(Box::new(other)),
        }
    }
}

/// A column of a result: its name and type.
#[derive(Debug, PartialEq, Eq)]
pub struct DataField {
    pub name: String,
    pub data_type: DataType,
}

impl DataField {
    pub fn new(name: &str, data_type: DataType) -> (field: DataField)
        ensures
            field.name@ == name@,
            field.data_type == data_type,
    {
        DataField { name: name.to_owned(), data_type }
    }
}

impl DataField {
    /// A copy of the column.
    pub fn duplicate(&self) -> (copy: DataField)
        ensures
            copy == *self,
    {
        DataField { name: self.name.clone(), data_type: self.data_type.duplicate() }
    }
}

/// A column by the text of its name and its type.
pub open spec fn column(field: DataField, name: Seq<char>, data_type: DataType) -> bool {
    field.name@ == name && field.data_type == data_type
}

pub open spec fn nullable(data_type: DataType) -> DataType {
    DataType::Nullable(Box::new(data_type))
}

/// The columns that describe a task.
pub fn task_schema() -> (fields: Vec<DataField>)
    ensures
        fields.len() == 13,
        column(fields[0], "created_on"@, DataType::Timestamp),
        column(fields[1], "name"@, DataType::String),
        column(fields[2], "id"@, DataType::UInt64),
        column(fields[3], "owner"@, DataType::String),
        column(fields[4], "comment"@, nullable(DataType::String)),
        column(fields[5], "warehouse"@, nullable(DataType::String)),
        column(fields[6], "schedule"@, nullable(DataType::String)),
        column(fields[7], "state"@, DataType::String),
        column(fields[8], "definition"@, DataType::String),
        column(fields[9], "suspend_task_after_num_failures"@, nullable(DataType::UInt64)),
        column(fields[10], "next_schedule_time"@, nullable(DataType::Timestamp)),
        column(fields[11], "last_committed_on"@, DataType::Timestamp),
        column(fields[12], "last_suspended_on"@, nullable(DataType::Timestamp)),
{
    let mut fields: Vec<DataField> = Vec::new();
    fields.push(DataField::new("created_on", DataType::Timestamp));
    fields.push(DataField::new("name", DataType::String));
    fields.push(DataField::new("id", DataType::UInt64));
    fields.push(DataField::new("owner", DataType::String));
    fields.push(DataField::new("comment", DataType::String.wrap_nullable()));
    fields.push(DataField::new("warehouse", DataType::String.wrap_nullable()));
    fields.push(DataField::new("schedule", DataType::String.wrap_nullable()));
    fields.push(DataField::new("state", DataType::String));
    fields.push(DataField::new("definition", DataType::String));
    fields.push(
        DataField::new("suspend_task_after_num_failures", DataType::UInt64.wrap_nullable()),
    );
    fields.push(DataField::new("next_schedule_time", DataType::Timestamp.wrap_nullable()));
    fields.push(DataField::new("last_committed_on", DataType::Timestamp));
    fields.push(DataField::new("last_suspended_on", DataType::Timestamp.wrap_nullable()));
    fields
}

/// The columns that describe one run of a task.
pub fn task_run_schema() -> (fields: Vec<DataField>)
    ensures
        fields.len() == 15,
        column(fields[0], "name"@, DataType::String),
        column(fields[1], "id"@, DataType::UInt64),
        column(fields[2], "owner"@, DataType::String),
        column(fields[3], "comment"@, nullable(DataType::String)),
        column(fields[4], "schedule"@, nullable(DataType::String)),
        column(fields[5], "warehouse"@, nullable(DataType::String)),
        column(fields[6], "state"@, DataType::String),
        column(fields[7], "definition"@, DataType::String),
        column(fields[8], "run_id"@, DataType::String),
        column(fields[9], "query_id"@, DataType::String),
        column(fields[10], "exception_code"@, DataType::Int64),
        column(fields[11], "exception_text"@, nullable(DataType::String)),
        column(fields[12], "attempt_number"@, DataType::Int32),
        column(fields[13], "completed_time"@, nullable(DataType::Timestamp)),
        column(fields[14], "scheduled_time"@, DataType::Timestamp),
{
    let mut fields: Vec<DataField> = Vec::new();
    fields.push(DataField::new("name", DataType::String));
    fields.push(DataField::new("id", DataType::UInt64));
    fields.push(DataField::new("owner", DataType::String));
    fields.push(DataField::new("comment", DataType::String.wrap_nullable()));
    fields.push(DataField::new("schedule", DataType::String.wrap_nullable()));
    fields.push(DataField::new("warehouse", DataType::String.wrap_nullable()));
    fields.push(DataField::new("state", DataType::String));
    fields.push(DataField::new("definition", DataType::String));
    fields.push(DataField::new("run_id", DataType::String));
    fields.push(DataField::new("query_id", DataType::String));
    fields.push(DataField::new("exception_code", DataType::Int64));
    fields.push(DataField::new("exception_text", DataType::String.wrap_nullable()));
    fields.push(DataField::new("attempt_number", DataType::Int32));
    fields.push(DataField::new("completed_time", DataType::Timestamp.wrap_nullable()));
    fields.push(DataField::new("scheduled_time", DataType::Timestamp));
    fields
}

/// The warehouse a task runs in.
#[derive(Clone, Debug, PartialEq, Eq)]
pub struct WarehouseOptions {
    pub warehouse: Option<String>,
}

/// When a task runs: every so many minutes, or by a cron expression read in
/// a time zone.
#[derive(Clone, Debug, PartialEq, Eq)]
pub enum ScheduleOptions {
    IntervalMinutes(u64),
    CronExpression(String, Option<String>),
}

/// What an `ALTER TASK` changes.
#[derive(Clone, Debug, PartialEq, Eq)]
#[allow(inconsistent_fields)]
pub enum AlterTaskOptions {
    Resume,
    Suspend,
    SetOptions {
        warehouse: Option<String>,
        schedule: Option<ScheduleOptions>,
        suspend_task_after_num_failures: Option<u64>,
        comments: Option<String>,
    },
    Unset { warehouse: bool },
    ModifyAs(String),
}

/// Which tasks a `SHOW TASKS` lists.
#[derive(Clone, Debug, PartialEq, Eq)]
pub enum ShowLimit {
    Like { pattern: String },
    Where { selection: String },
}

#[derive(Clone, Debug, PartialEq, Eq)]
pub struct CreateTaskPlan {
    pub if_not_exists: bool,
    pub tenant: String,
    pub task_name: String,
    pub warehouse_opts: WarehouseOptions,
    pub schedule_opts: ScheduleOptions,
    pub suspend_task_after_num_failures: Option<u64>,
    pub sql: String,
    pub comment: String,
}

impl CreateTaskPlan {
    /// Creating a task returns no columns.
    pub fn schema(&self) -> (fields: Vec<DataField>)
        ensures
            fields.len() == 0,
    {
        Vec::new()
    }
}

#[derive(Clone, Debug, PartialEq, Eq)]
pub struct AlterTaskPlan {
    pub if_exists: bool,
    pub tenant: String,
    pub task_name: String,
    pub alter_options: AlterTaskOptions,
}

impl AlterTaskPlan {
    /// Altering a task returns no columns.
    pub fn schema(&self) -> (fields: Vec<DataField>)
        ensures
            fields.len() == 0,
    {
        Vec::new()
    }
}

#[derive(Clone, Debug, PartialEq, Eq)]
pub struct DropTaskPlan {
    pub if_exists: bool,
    pub tenant: String,
    pub task_name: String,
}

impl DropTaskPlan {
    /// Dropping a task returns no columns.
    pub fn schema(&self) -> (fields: Vec<DataField>)
        ensures
            fields.len() == 0,
    {
        Vec::new()
    }
}

#[derive(Clone, Debug, PartialEq, Eq)]
pub struct DescribeTaskPlan {
    pub tenant: String,
    pub task_name: String,
}

impl DescribeTaskPlan {
    /// Describing a task returns the columns of a task.
    pub fn schema(&self) -> (fields: Vec<DataField>)
        ensures
            fields.len() == 13,
            column(fields[0], "created_on"@, DataType::Timestamp),
            column(fields[1], "name"@, DataType::String),
            column(fields[12], "last_suspended_on"@, nullable(DataType::Timestamp)),
    {
        task_schema()
    }
}

#[derive(Clone, Debug, PartialEq, Eq)]
pub struct ExecuteTaskPlan {
    pub tenant: String,
    pub task_name: String,
}

impl ExecuteTaskPlan {
    /// Executing a task returns no columns.
    pub fn schema(&self) -> (fields: Vec<DataField>)
        ensures
            fields.len() == 0,
    {
        Vec::new()
    }
}

#[derive(Clone, Debug, PartialEq, Eq)]
pub struct ShowTasksPlan {
    pub tenant: String,
    pub limit: Option<ShowLimit>,
}

impl ShowTasksPlan {
    /// Listing tasks returns the columns of a task.
    pub fn schema(&self) -> (fields: Vec<DataField>)
        ensures
            fields.len() == 13,
            column(fields[0], "created_on"@, DataType::Timestamp),
            column(fields[1], "name"@, DataType::String),
            column(fields[12], "last_suspended_on"@, nullable(DataType::Timestamp)),
    {
        task_schema()
    }
}

} // verus!
