//! Tasks as the control service reports them, as options for the service
//! and as the columns of the table that lists them.

use vstd::prelude::*;
use vstd::string::StringExecFns;
use vstd::string::StrSliceExecFns;
use crate::plans::task::{ScheduleOptions, WarehouseOptions};

verus! {

/// The code of a schedule by interval, as the service knows it.
pub const INTERVAL_TYPE: i32 = 0;

/// The code of a schedule by cron expression, as the service knows it.
pub const CRON_TYPE: i32 = 1;

/// A schedule as the control service takes it.
#[derive(Clone, Debug, PartialEq, Eq)]
pub struct ServiceScheduleOptions {
    pub interval: Option<i32>,
    pub cron: Option<String>,
    pub time_zone: Option<String>,
    pub schedule_type: i32,
}

/// A warehouse as the control service takes it.
#[derive(Clone, Debug, PartialEq, Eq)]
pub struct ServiceWarehouseOptions {
    pub warehouse: Option<String>,
    pub using_warehouse_size: Option<String>,
}

/// The low 32 bits of a number of minutes, read as a signed number.
pub open spec fn minutes_as_interval(minute: u64) -> i32 {
    let low = minute as int % 0x1_0000_0000;
    if low < 0x8000_0000 {
        low as i32
    } else {
        (low - 0x1_0000_0000) as i32
    }
}

/// Turns a schedule into what the control service takes.
pub fn make_schedule_options(opt: ScheduleOptions) -> (out: ServiceScheduleOptions)
    ensures
        out == (match opt {
            ScheduleOptions::IntervalMinutes(minute) => ServiceScheduleOptions {
                interval: Some(minutes_as_interval(minute)),
                cron: None,
                time_zone: None,
                schedule_type: INTERVAL_TYPE,
            },
            ScheduleOptions::CronExpression(expr, timezone) => ServiceScheduleOptions {
                interval: None,
                cron: Some(expr),
                time_zone: timezone,
                schedule_type: CRON_TYPE,
            },
        }),
{
    match opt {
        ScheduleOptions::IntervalMinutes(minute) => {
            let low: u64 = minute % 0x1_0000_0000;
            let interval: i32 = if low < 0x8000_0000 {
                low as i32
            } else {
                ((low - 0x8000_0000) as i32) + i32::MIN
            };
            ServiceScheduleOptions {
                interval: Some(interval),
                cron: None,
                time_zone: None,
                schedule_type: INTERVAL_TYPE,
            }
        },
        ScheduleOptions::CronExpression(expr, timezone) => ServiceScheduleOptions {
            interval: None,
            cron: Some(expr),
            time_zone: timezone,
            schedule_type: CRON_TYPE,
        },
    }
}

/// Turns a warehouse into what the control service takes. No size is asked
/// for.
pub fn make_warehouse_options(opt: WarehouseOptions) -> (out: ServiceWarehouseOptions)
    ensures
        out.warehouse == opt.warehouse,
        out.using_warehouse_size is None,
{
    let mut ret = ServiceWarehouseOptions { warehouse: None, using_warehouse_size: None };
    match opt.warehouse {
        Some(warehouse) => {
            ret.warehouse = Some(warehouse);
        },
        None => {},
    }
    ret
}

/// Who asks the control service, and for which query.
#[derive(Clone, Debug, PartialEq, Eq)]
pub struct ClientConfig {
    pub tenant: String,
    pub user: String,
    pub query_id: String,
}

/// The identity that a request to the control service carries.
pub fn get_client_config(tenant: String, user: String, query_id: String) -> (config: ClientConfig)
    ensures
        config.tenant == tenant,
        config.user == user,
        config.query_id == query_id,
{
    ClientConfig { tenant, user, query_id }
}

/// Whether a task runs.
#[derive(Clone, Copy, Debug, PartialEq, Eq, Structural)]
pub enum Status {
    Suspended,
    Started,
}

impl Status {
    pub open spec fn text(self) -> Seq<char> {
        match self {
            Status::Suspended => "Suspended"@,
            Status::Started => "Started"@,
        }
    }

    pub fn to_string(&self) -> (out: String)
        ensures
            out@ == self.text(),
    {
        match self {
            Status::Suspended => String::from_str("Suspended"),
            Status::Started => String::from_str("Started"),
        }
    }
}

/// A task as the control service reports it. Times are microseconds since
/// the epoch.
#[derive(Clone, Debug, PartialEq, Eq)]
pub struct Task {
    pub task_id: u64,
    pub task_name: String,
    pub query_text: String,
    pub owner: String,
    pub comment: Option<String>,
    pub schedule_options: Option<String>,
    pub warehouse_options: Option<WarehouseOptions>,
    pub next_scheduled_at: Option<i64>,
    pub suspend_task_after_num_failures: Option<i32>,
    pub status: Status,
    pub created_at: i64,
    pub updated_at: i64,
    pub last_suspended_at: Option<i64>,
}

/// The columns of the table of tasks, one entry in each for every task.
#[derive(Clone, Debug, PartialEq, Eq)]
pub struct DataBlock {
    pub created_on: Vec<i64>,
    pub name: Vec<Vec<u8>>,
    pub id: Vec<u64>,
    pub owner: Vec<Vec<u8>>,
    pub comment: Vec<Option<Vec<u8>>>,
    pub warehouse: Vec<Option<Vec<u8>>>,
    pub schedule: Vec<Option<Vec<u8>>>,
    pub status: Vec<Vec<u8>>,
    pub definition: Vec<Vec<u8>>,
    pub suspend_after_num_failures: Vec<Option<u64>>,
    pub next_schedule_time: Vec<Option<i64>>,
    pub last_committed_on: Vec<i64>,
    pub last_suspended_on: Vec<Option<i64>>,
}

/// The bytes of a text that may be absent.
pub open spec fn opt_bytes(text: Option<String>) -> Option<Seq<u8>> {
    match text {
        Some(s) => Some(vstd::utf8::encode_utf8(s@)),
        None => None,
    }
}

pub open spec fn opt_view(bytes: Option<Vec<u8>>) -> Option<Seq<u8>> {
    match bytes {
        Some(b) => Some(b@),
        None => None,
    }
}

/// The name of the warehouse of a task, if it has one.
pub open spec fn warehouse_name(options: Option<WarehouseOptions>) -> Option<String> {
    match options {
        Some(w) => w.warehouse,
        None => None,
    }
}

/// A count of failures as the table shows it: the number the service sent,
/// read as unsigned.
pub open spec fn failures_shown(count: Option<i32>) -> Option<u64> {
    match count {
        Some(v) => Some(v as u64),
        None => None,
    }
}

/// Row `i` of the block shows task `t`.
pub open spec fn shows_task(block: DataBlock, i: int, t: Task) -> bool {
    &&& block.created_on[i] == t.created_at
    &&& block.name[i]@ == vstd::utf8::encode_utf8(t.task_name@)
    &&& block.id[i] == t.task_id
    &&& block.owner[i]@ == vstd::utf8::encode_utf8(t.owner@)
    &&& opt_view(block.comment[i]) == opt_bytes(t.comment)
    &&& opt_view(block.warehouse[i]) == opt_bytes(warehouse_name(t.warehouse_options))
    &&& opt_view(block.schedule[i]) == opt_bytes(t.schedule_options)
    &&& block.status[i]@ == vstd::utf8::encode_utf8(t.status.text())
    &&& block.definition[i]@ == vstd::utf8::encode_utf8(t.query_text@)
    &&& block.suspend_after_num_failures[i] == failures_shown(t.suspend_task_after_num_failures)
    &&& block.next_schedule_time[i] == t.next_scheduled_at
    &&& block.last_committed_on[i] == t.updated_at
    &&& block.last_suspended_on[i] == t.last_suspended_at
}

/// Every column of the block has `rows` entries.
pub open spec fn block_rows(block: DataBlock, rows: int) -> bool {
    &&& block.created_on.len() == rows
    &&& block.name.len() == rows
    &&& block.id.len() == rows
    &&& block.owner.len() == rows
    &&& block.comment.len() == rows
    &&& block.warehouse.len() == rows
    &&& block.schedule.len() == rows
    &&& block.status.len() == rows
    &&& block.definition.len() == rows
    &&& block.suspend_after_num_failures.len() == rows
    &&& block.next_schedule_time.len() == rows
    &&& block.last_committed_on.len() == rows
    &&& block.last_suspended_on.len() == rows
}

fn text_bytes(text: &String) -> (bytes: Vec<u8>)
    ensures
        bytes@ == vstd::utf8::encode_utf8(text@),
{
    text.as_str().as_bytes_vec()
}

fn opt_text_bytes(text: &Option<String>) -> (bytes: Option<Vec<u8>>)
    ensures
        opt_view(bytes) == opt_bytes(*text),
{
    match text {
        Some(s) => Some(text_bytes(s)),
        None => None,
    }
}

fn failures_as_shown(count: Option<i32>) -> (shown: Option<u64>)
    ensures
        shown == failures_shown(count),
{
    match count {
        Some(v) => {
            let wide: u64 = if v >= 0 {
                v as u64
            } else {
                0xffff_ffff_ffff_ffff - ((-(v as i64) - 1) as u64)
            };
            assert(wide == v as u64) by (bit_vector)
                requires
                    wide == (if v >= 0 {
                        v as u64
                    } else {
                        (0xffff_ffff_ffff_ffffu64 - ((-(v as i64) - 1) as u64)) as u64
                    }),
            ;
            Some(wide)
        },
        None => None,
    }
}

/// Lays tasks out as the columns of the table of tasks, a row for each task
/// in the order given.
pub fn parse_tasks_to_datablock(tasks: Vec<Task>) -> (block: DataBlock)
    ensures
        block_rows(block, tasks.len() as int),
        forall|i: int| 0 <= i < tasks.len() ==> shows_task(block, i, #[trigger] tasks[i]),
{
    let mut block = DataBlock {
        created_on: Vec::new(),
        name: Vec::new(),
        id: Vec::new(),
        owner: Vec::new(),
        comment: Vec::new(),
        warehouse: Vec::new(),
        schedule: Vec::new(),
        status: Vec::new(),
        definition: Vec::new(),
        suspend_after_num_failures: Vec::new(),
        next_schedule_time: Vec::new(),
        last_committed_on: Vec::new(),
        last_suspended_on: Vec::new(),
    };
    let mut i: usize = 0;
    while i < tasks.len()
        invariant
            i <= tasks.len(),
            block_rows(block, i as int),
            forall|k: int| 0 <= k < i ==> shows_task(block, k, #[trigger] tasks[k]),
        decreases tasks.len() - i,
    {
        let tsk: &Task = &tasks[i];
        let ghost before = block;
        block.created_on.push(tsk.created_at);
        block.name.push(text_bytes(&tsk.task_name));
        block.id.push(tsk.task_id);
        block.owner.push(text_bytes(&tsk.owner));
        block.comment.push(opt_text_bytes(&tsk.comment));
        let warehouse: Option<Vec<u8>> = match &tsk.warehouse_options {
            Some(w) => opt_text_bytes(&w.warehouse),
            None => None,
        };
        block.warehouse.push(warehouse);
        block.schedule.push(opt_text_bytes(&tsk.schedule_options));
        let status: String = tsk.status.to_string();
        block.status.push(text_bytes(&status));
        block.definition.push(text_bytes(&tsk.query_text));
        block.suspend_after_num_failures.push(
            failures_as_shown(tsk.suspend_task_after_num_failures),
        );
        block.next_schedule_time.push(tsk.next_scheduled_at);
        block.last_committed_on.push(tsk.updated_at);
        block.last_suspended_on.push(tsk.last_suspended_at);
        proof {
            assert forall|k: int| 0 <= k < i + 1 implies shows_task(block, k, #[trigger] tasks[k]) by {
                if k < i {
                    assert(shows_task(before, k, tasks[k]));
                }
            }
        }
        i = i + 1;
    }
    block
}

/// What identifies a table: its id and the sequence number of its state.
#[derive(Clone, Copy, Debug, PartialEq, Eq, Structural)]
pub struct TableIdent {
    pub table_id: u64,
    pub seq: u64,
}

/// What the catalog holds of a table.
#[derive(Debug, PartialEq, Eq)]
pub struct TableInfo {
    pub ident: TableIdent,
    pub desc: String,
    pub name: String,
    pub engine: String,
    pub schema: Vec<crate::plans::task::DataField>,
}

/// The system table that lists the tasks.
pub struct TasksTable {
    table_info: TableInfo,
}

impl TasksTable {
    pub closed spec fn info(&self) -> TableInfo {
        self.table_info
    }

    /// The table under the id the catalog gave it: `system.tasks`, with the
    /// columns of a task.
    pub fn create(table_id: u64) -> (table: TasksTable)
        ensures
            table.info().ident == (TableIdent { table_id, seq: 0 }),
            table.info().desc@ == "'system'.'tasks'"@,
            table.info().name@ == "tasks"@,
            table.info().engine@ == "SystemTasks"@,
            table.info().schema.len() == 13,
    {
        let schema = crate::plans::task::task_schema();
        let table_info = TableInfo {
            desc: String::from_str("'system'.'tasks'"),
            name: String::from_str("tasks"),
            ident: TableIdent { table_id, seq: 0 },
            engine: String::from_str("SystemTasks"),
            schema,
        };
        TasksTable { table_info }
    }

    pub fn get_table_info(&self) -> (info: &TableInfo)
        ensures
            *info == self.info(),
    {
        &self.table_info
    }

    /// Whether the table can be read at all: only where the address of the
    /// control service is configured.
    pub fn cloud_control_enabled(address: &Option<String>) -> (enabled: bool)
        ensures
            enabled == (address is Some),
    {
        address.is_some()
    }
}

} // verus!
