//! The statements on tasks.

use vstd::prelude::*;
use crate::ast::connection::Identifier;
use crate::params::SortedParams;
use crate::plans::task::{AlterTaskOptions, ScheduleOptions, ShowLimit, WarehouseOptions};

verus! {

#[derive(Clone, Debug, PartialEq, Eq)]
pub struct CreateTaskStmt {
    pub if_not_exists: bool,
    pub name: String,
    pub warehouse_opts: WarehouseOptions,
    pub schedule_opts: ScheduleOptions,
    pub suspend_task_after_num_failures: Option<u64>,
    pub comments: String,
    pub sql: String,
}

#[derive(Clone, Debug, PartialEq, Eq)]
pub struct AlterTaskStmt {
    pub if_exists: bool,
    pub name: String,
    pub options: AlterTaskOptions,
}

#[derive(Clone, Debug, PartialEq, Eq)]
pub struct DropTaskStmt {
    pub if_exists: bool,
    pub name: String,
}

#[derive(Clone, Debug, PartialEq, Eq)]
pub struct DescribeTaskStmt {
    pub name: String,
}

#[derive(Clone, Debug, PartialEq, Eq)]
pub struct ExecuteTaskStmt {
    pub name: String,
}

#[derive(Clone, Debug, PartialEq, Eq)]
pub struct ShowTasksStmt {
    pub limit: Option<ShowLimit>,
}

/// A place given by a protocol, a name, a path and parameters.
#[derive(Clone, Debug, PartialEq, Eq)]
pub struct UriLocation {
    pub protocol: String,
    pub name: String,
    pub path: String,
    pub part_prefix: String,
    pub connection: SortedParams,
}

impl UriLocation {
    pub fn new(
        protocol: String,
        name: String,
        path: String,
        part_prefix: String,
        connection: SortedParams,
    ) -> (location: UriLocation)
        ensures
            location.protocol == protocol,
            location.name == name,
            location.path == path,
            location.part_prefix == part_prefix,
            location.connection == connection,
    {
        UriLocation { protocol, name, path, part_prefix, connection }
    }
}

/// The name of a statement's subject as the plan holds it.
pub fn plan_name(name: &Identifier) -> (text: String)
    ensures
        text@ == name.text(),
{
    name.to_string()
}

} // verus!
