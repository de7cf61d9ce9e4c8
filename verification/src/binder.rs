//! Binding: from a statement, and the tenant it runs for, to a plan.

use vstd::prelude::*;
use vstd::string::StringExecFns;
use crate::ast::connection::CreateConnectionStmt;
use crate::ast::task::{
    AlterTaskStmt, CreateTaskStmt, DescribeTaskStmt, DropTaskStmt, ExecuteTaskStmt, ShowTasksStmt,
    UriLocation,
};
use crate::params::SortedParams;
use crate::plans::task::{
    AlterTaskOptions, AlterTaskPlan, CreateTaskPlan, DescribeTaskPlan, DropTaskPlan,
    ExecuteTaskPlan, ScheduleOptions, ShowTasksPlan,
};

verus! {

/// Why a statement could not be bound. Each error carries its message.
#[derive(Clone, Debug, PartialEq, Eq)]
pub enum BindError {
    SemanticError(String),
    SyntaxException(String),
}

/// The plan of creating a connection.
#[derive(Clone, Debug, PartialEq, Eq)]
pub struct CreateConnectionPlan {
    pub if_not_exists: bool,
    pub name: String,
    pub storage_type: String,
    pub storage_params: SortedParams,
}

#[derive(Clone, Debug, PartialEq, Eq)]
pub enum Plan {
    CreateTask(Box<CreateTaskPlan>),
    AlterTask(Box<AlterTaskPlan>),
    DropTask(Box<DropTaskPlan>),
    DescribeTask(Box<DescribeTaskPlan>),
    ExecuteTask(Box<ExecuteTaskPlan>),
    ShowTasks(Box<ShowTasksPlan>),
    CreateConnection(Box<CreateConnectionPlan>),
}

/// Whether the cron library can parse an expression into a schedule.
pub uninterp spec fn cron_schedule_parses(expr: Seq<char>) -> bool;

/// Whether the time zone database knows a zone by this name.
pub uninterp spec fn time_zone_known(name: Seq<char>) -> bool;

/// Asks the cron library: `cron::Schedule::from_str`, which runs the
/// library's grammar over the text and fails where it does not fit. The
/// answer depends on the text alone.
#[verifier::external_body]
fn cron_parses(expr: &str) -> (ok: bool)
    ensures
        ok == cron_schedule_parses(expr@),
{
    <cron::Schedule as std::str::FromStr>::from_str(expr).is_ok()
}

/// Asks the time zone database: `chrono_tz::Tz::from_str`, which looks the
/// name up in the table of zones compiled into the library. The answer
/// depends on the name alone.
#[verifier::external_body]
fn zone_parses(name: &str) -> (ok: bool)
    ensures
        ok == time_zone_known(name@),
{
    <chrono_tz::Tz as std::str::FromStr>::from_str(name).is_ok()
}

/// What is wrong with a schedule, given what the libraries say of its cron
/// expression and its time zone. A schedule by minutes is always in order.
/// The expression is looked at first; the zone only where one is named.
pub open spec fn schedule_fault(
    opts: ScheduleOptions,
    cron_ok: bool,
    zone_ok: bool,
) -> Option<Seq<char>> {
    match opts {
        ScheduleOptions::IntervalMinutes(_) => None,
        ScheduleOptions::CronExpression(expr, zone) => if !cron_ok {
            Some("invalid cron expression "@ + expr@)
        } else {
            match zone {
                Some(z) => if z@.len() > 0 && !zone_ok {
                    Some("invalid time zone "@ + z@)
                } else {
                    None
                },
                None => None,
            }
        },
    }
}

/// Judges a schedule from what the libraries said of its parts.
pub fn judge_schedule(opts: &ScheduleOptions, cron_ok: bool, zone_ok: bool) -> (res: Result<
    (),
    BindError,
>)
    ensures
        match schedule_fault(*opts, cron_ok, zone_ok) {
            Some(msg) => res matches Err(BindError::SemanticError(m)) && m@ == msg,
            None => res is Ok,
        },
{
    match opts {
        ScheduleOptions::IntervalMinutes(_) => Ok(()),
        ScheduleOptions::CronExpression(expr, zone) => {
            if !cron_ok {
                let mut msg: String = String::from_str("invalid cron expression ");
                msg.append(expr.as_str());
                return Err(BindError::SemanticError(msg));
            }
            match zone {
                Some(z) => {
                    if !z.as_str().is_empty() && !zone_ok {
                        let mut msg: String = String::from_str("invalid time zone ");
                        msg.append(z.as_str());
                        return Err(BindError::SemanticError(msg));
                    }
                    Ok(())
                },
                None => Ok(()),
            }
        },
    }
}

/// The cron expression of a schedule, or the empty text.
pub open spec fn cron_text(opts: ScheduleOptions) -> Seq<char> {
    match opts {
        ScheduleOptions::CronExpression(expr, _) => expr@,
        _ => Seq::empty(),
    }
}

/// The time zone of a schedule, or the empty text.
pub open spec fn zone_text(opts: ScheduleOptions) -> Seq<char> {
    match opts {
        ScheduleOptions::CronExpression(_, Some(zone)) => zone@,
        _ => Seq::empty(),
    }
}

/// Checks that a schedule can be run: its cron expression must parse and its
/// time zone, if it names one, must exist.
pub fn verify_scheduler_option(schedule_opts: &ScheduleOptions) -> (res: Result<(), BindError>)
    ensures
        match schedule_fault(
            *schedule_opts,
            cron_schedule_parses(cron_text(*schedule_opts)),
            time_zone_known(zone_text(*schedule_opts)),
        ) {
            Some(msg) => res matches Err(BindError::SemanticError(m)) && m@ == msg,
            None => res is Ok,
        },
{
    match schedule_opts {
        ScheduleOptions::IntervalMinutes(_) => judge_schedule(schedule_opts, true, true),
        ScheduleOptions::CronExpression(expr, zone) => {
            let cron_ok: bool = cron_parses(expr.as_str());
            let zone_ok: bool = match zone {
                Some(z) => cron_ok && !z.as_str().is_empty() && zone_parses(z.as_str()),
                None => false,
            };
            judge_schedule(schedule_opts, cron_ok, zone_ok)
        },
    }
}

/// Whether an `ALTER TASK ... SET` names nothing to set.
pub open spec fn sets_nothing(options: AlterTaskOptions) -> bool {
    options matches AlterTaskOptions::SetOptions {
        warehouse,
        schedule,
        suspend_task_after_num_failures,
        comments,
    } && warehouse is None && schedule is None && suspend_task_after_num_failures is None
        && comments is None
}

/// The schedule that an `ALTER TASK` sets, if it sets one.
pub open spec fn schedule_set(options: AlterTaskOptions) -> Option<ScheduleOptions> {
    match options {
        AlterTaskOptions::SetOptions { schedule, .. } => schedule,
        _ => None,
    }
}

/// Binds statements for one tenant.
pub struct Binder {
    pub tenant: String,
}

impl Binder {
    pub fn new(tenant: String) -> (binder: Binder)
        ensures
            binder.tenant == tenant,
    {
        Binder { tenant }
    }

    /// Binds `CREATE TASK`: the schedule is checked, and the plan takes over
    /// what the statement says, for the binder's tenant.
    pub fn bind_create_task(&self, stmt: CreateTaskStmt) -> (res: Result<Plan, BindError>)
        ensures
            match schedule_fault(
                stmt.schedule_opts,
                cron_schedule_parses(cron_text(stmt.schedule_opts)),
                time_zone_known(zone_text(stmt.schedule_opts)),
            ) {
                Some(msg) => res matches Err(BindError::SemanticError(m)) && m@ == msg,
                None => res matches Ok(Plan::CreateTask(plan)) && *plan == (CreateTaskPlan {
                    if_not_exists: stmt.if_not_exists,
                    tenant: self.tenant,
                    task_name: stmt.name,
                    warehouse_opts: stmt.warehouse_opts,
                    schedule_opts: stmt.schedule_opts,
                    suspend_task_after_num_failures: stmt.suspend_task_after_num_failures,
                    sql: stmt.sql,
                    comment: stmt.comments,
                }),
            },
    {
        match verify_scheduler_option(&stmt.schedule_opts) {
            Err(e) => {
                return Err(e);
            },
            Ok(_) => {},
        }
        let plan = CreateTaskPlan {
            if_not_exists: stmt.if_not_exists,
            tenant: self.tenant.clone(),
            task_name: stmt.name,
            warehouse_opts: stmt.warehouse_opts,
            schedule_opts: stmt.schedule_opts,
            suspend_task_after_num_failures: stmt.suspend_task_after_num_failures,
            comment: stmt.comments,
            sql: stmt.sql,
        };
        Ok(Plan::CreateTask(Box::new(plan)))
    }

    /// Binds `ALTER TASK`. A `SET` must set something, and a schedule that it
    /// sets is checked.
    pub fn bind_alter_task(&self, stmt: AlterTaskStmt) -> (res: Result<Plan, BindError>)
        ensures
            sets_nothing(stmt.options) ==> (res matches Err(BindError::SyntaxException(m)) && m@
                == "alter task must set at least one option"@),
            !sets_nothing(stmt.options) ==> match schedule_set(stmt.options) {
                Some(schedule) => match schedule_fault(
                    schedule,
                    cron_schedule_parses(cron_text(schedule)),
                    time_zone_known(zone_text(schedule)),
                ) {
                    Some(msg) => res matches Err(BindError::SemanticError(m)) && m@ == msg,
                    None => alter_bound(res, self.tenant, stmt),
                },
                None => alter_bound(res, self.tenant, stmt),
            },
    {
        match &stmt.options {
            AlterTaskOptions::SetOptions {
                warehouse,
                schedule,
                suspend_task_after_num_failures,
                comments,
            } => {
                if warehouse.is_none() && schedule.is_none()
                    && suspend_task_after_num_failures.is_none() && comments.is_none() {
                    return Err(
                        BindError::SyntaxException(
                            String::from_str("alter task must set at least one option"),
                        ),
                    );
                }
                match schedule {
                    Some(s) => {
                        match verify_scheduler_option(s) {
                            Err(e) => {
                                return Err(e);
                            },
                            Ok(_) => {},
                        }
                    },
                    None => {},
                }
            },
            _ => {},
        }
        let plan = AlterTaskPlan {
            if_exists: stmt.if_exists,
            tenant: self.tenant.clone(),
            task_name: stmt.name,
            alter_options: stmt.options,
        };
        Ok(Plan::AlterTask(Box::new(plan)))
    }

    /// Binds `DROP TASK`.
    pub fn bind_drop_task(&self, stmt: DropTaskStmt) -> (res: Result<Plan, BindError>)
        ensures
            res matches Ok(Plan::DropTask(plan)) && *plan == (DropTaskPlan {
                if_exists: stmt.if_exists,
                tenant: self.tenant,
                task_name: stmt.name,
            }),
    {
        let plan = DropTaskPlan {
            if_exists: stmt.if_exists,
            tenant: self.tenant.clone(),
            task_name: stmt.name,
        };
        Ok(Plan::DropTask(Box::new(plan)))
    }

    /// Binds `DESCRIBE TASK`.
    pub fn bind_describe_task(&self, stmt: DescribeTaskStmt) -> (res: Result<Plan, BindError>)
        ensures
            res matches Ok(Plan::DescribeTask(plan)) && *plan == (DescribeTaskPlan {
                tenant: self.tenant,
                task_name: stmt.name,
            }),
    {
        let plan = DescribeTaskPlan { tenant: self.tenant.clone(), task_name: stmt.name };
        Ok(Plan::DescribeTask(Box::new(plan)))
    }

    /// Binds `EXECUTE TASK`.
    pub fn bind_execute_task(&self, stmt: ExecuteTaskStmt) -> (res: Result<Plan, BindError>)
        ensures
            res matches Ok(Plan::ExecuteTask(plan)) && *plan == (ExecuteTaskPlan {
                tenant: self.tenant,
                task_name: stmt.name,
            }),
    {
        let plan = ExecuteTaskPlan { tenant: self.tenant.clone(), task_name: stmt.name };
        Ok(Plan::ExecuteTask(Box::new(plan)))
    }

    /// Binds `SHOW TASKS`.
    pub fn bind_show_tasks(&self, stmt: ShowTasksStmt) -> (res: Result<Plan, BindError>)
        ensures
            res matches Ok(Plan::ShowTasks(plan)) && *plan == (ShowTasksPlan {
                tenant: self.tenant,
                limit: stmt.limit,
            }),
    {
        let plan = ShowTasksPlan { tenant: self.tenant.clone(), limit: stmt.limit };
        Ok(Plan::ShowTasks(Box::new(plan)))
    }

    /// The place whose parameters a `CREATE CONNECTION` has to have checked
    /// before it is bound: the storage type as protocol, the parameters as
    /// connection, and nothing else.
    pub fn connection_location(storage_type: String, storage_params: SortedParams) -> (
        location: UriLocation)
        ensures
            location.protocol == storage_type,
            location.name@ == Seq::<char>::empty(),
            location.path@ == Seq::<char>::empty(),
            location.part_prefix@ == Seq::<char>::empty(),
            location.connection == storage_params,
    {
        UriLocation::new(storage_type, String::new(), String::new(), String::new(), storage_params)
    }

    /// Binds `CREATE CONNECTION`, given how the check of its place ended: a
    /// place that does not pass fails the statement with the check's error.
    pub fn bind_create_connection(
        &self,
        stmt: CreateConnectionStmt,
        checked: Result<(), BindError>,
    ) -> (res: Result<Plan, BindError>)
        ensures
            match checked {
                Err(e) => res == Err::<Plan, BindError>(e),
                Ok(_) => res matches Ok(Plan::CreateConnection(plan)) && plan.if_not_exists
                    == stmt.if_not_exists && plan.name@ == stmt.name.text() && plan.storage_type
                    == stmt.storage_type && plan.storage_params == stmt.storage_params,
            },
    {
        match checked {
            Err(e) => Err(e),
            Ok(_) => {
                let name: String = stmt.name.to_string();
                Ok(
                    Plan::CreateConnection(
                        Box::new(
                            CreateConnectionPlan {
                                if_not_exists: stmt.if_not_exists,
                                name,
                                storage_type: stmt.storage_type,
                                storage_params: stmt.storage_params,
                            },
                        ),
                    ),
                )
            },
        }
    }
}

/// The statement was bound to the plan that alters the task as it says.
pub open spec fn alter_bound(res: Result<Plan, BindError>, tenant: String, stmt: AlterTaskStmt) -> bool {
    res matches Ok(Plan::AlterTask(plan)) && *plan == (AlterTaskPlan {
        if_exists: stmt.if_exists,
        tenant,
        task_name: stmt.name,
        alter_options: stmt.options,
    })
}

} // verus!
