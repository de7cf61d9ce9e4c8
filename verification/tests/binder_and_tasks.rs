use query_core::ast::connection::{CreateConnectionStmt, Identifier};
use query_core::ast::task::{
    AlterTaskStmt, CreateTaskStmt, DescribeTaskStmt, DropTaskStmt, ExecuteTaskStmt, ShowTasksStmt,
};
use query_core::binder::{judge_schedule, verify_scheduler_option, BindError, Binder, Plan};
use query_core::params::SortedParams;
use query_core::plans::physical::{
    CopyIntoTable, CopyIntoTableSource, PhysicalPlan, QuerySource, StageFileInfo, StageSource,
    TableScan,
};
use query_core::plans::task::{
    task_run_schema, task_schema, AlterTaskOptions, DataField, DataType, ScheduleOptions,
    ShowLimit, WarehouseOptions,
};
use query_core::tasks::{
    get_client_config, make_schedule_options, make_warehouse_options, parse_tasks_to_datablock,
    Status, Task, TasksTable, CRON_TYPE, INTERVAL_TYPE,
};

fn cron(expr: &str, zone: Option<&str>) -> ScheduleOptions {
    ScheduleOptions::CronExpression(expr.to_string(), zone.map(|z| z.to_string()))
}

#[test]
fn schedules_are_checked_against_the_libraries() {
    assert!(verify_scheduler_option(&ScheduleOptions::IntervalMinutes(5)).is_ok());
    assert!(verify_scheduler_option(&cron("0 0 12 * * *", None)).is_ok());
    assert!(verify_scheduler_option(&cron("0 0 12 * * *", Some("Asia/Shanghai"))).is_ok());
    assert!(verify_scheduler_option(&cron("0 0 12 * * *", Some(""))).is_ok());
    assert!(matches!(
        verify_scheduler_option(&cron("every day", Some("Asia/Shanghai"))),
        Err(BindError::SemanticError(m)) if m == "invalid cron expression every day"
    ));
    assert!(matches!(
        verify_scheduler_option(&cron("0 0 12 * * *", Some("Mars/Olympus"))),
        Err(BindError::SemanticError(m)) if m == "invalid time zone Mars/Olympus"
    ));
    // The expression is looked at first.
    assert!(matches!(
        verify_scheduler_option(&cron("nonsense", Some("Mars/Olympus"))),
        Err(BindError::SemanticError(m)) if m == "invalid cron expression nonsense"
    ));
}

#[test]
fn schedules_are_judged_from_what_the_libraries_said() {
    assert!(judge_schedule(&ScheduleOptions::IntervalMinutes(1), false, false).is_ok());
    assert!(judge_schedule(&cron("x", None), true, false).is_ok());
    assert!(judge_schedule(&cron("x", Some("")), true, false).is_ok());
    assert!(judge_schedule(&cron("x", Some("z")), true, true).is_ok());
    assert!(matches!(
        judge_schedule(&cron("x", Some("z")), true, false),
        Err(BindError::SemanticError(m)) if m == "invalid time zone z"
    ));
    assert!(matches!(
        judge_schedule(&cron("x", Some("z")), false, true),
        Err(BindError::SemanticError(m)) if m == "invalid cron expression x"
    ));
}

#[test]
fn task_statements_are_bound_for_the_tenant() {
    let binder = Binder::new("acme".to_string());
    let stmt = CreateTaskStmt {
        if_not_exists: true,
        name: "t1".to_string(),
        warehouse_opts: WarehouseOptions { warehouse: Some("w".to_string()) },
        schedule_opts: ScheduleOptions::IntervalMinutes(10),
        suspend_task_after_num_failures: Some(3),
        comments: "c".to_string(),
        sql: "select 1".to_string(),
    };
    match binder.bind_create_task(stmt).unwrap() {
        Plan::CreateTask(plan) => {
            assert!(plan.if_not_exists);
            assert_eq!(plan.tenant, "acme");
            assert_eq!(plan.task_name, "t1");
            assert_eq!(plan.warehouse_opts.warehouse.as_deref(), Some("w"));
            assert!(matches!(plan.schedule_opts, ScheduleOptions::IntervalMinutes(10)));
            assert_eq!(plan.suspend_task_after_num_failures, Some(3));
            assert_eq!(plan.comment, "c");
            assert_eq!(plan.sql, "select 1");
            assert!(plan.schema().is_empty());
        }
        _ => panic!("a create plan was expected"),
    }
    let bad = CreateTaskStmt {
        if_not_exists: false,
        name: "t1".to_string(),
        warehouse_opts: WarehouseOptions { warehouse: None },
        schedule_opts: cron("bad", None),
        suspend_task_after_num_failures: None,
        comments: String::new(),
        sql: String::new(),
    };
    assert!(matches!(binder.bind_create_task(bad), Err(BindError::SemanticError(_))));

    match binder.bind_drop_task(DropTaskStmt { if_exists: true, name: "t".to_string() }).unwrap() {
        Plan::DropTask(plan) => {
            assert!(plan.if_exists);
            assert_eq!(plan.tenant, "acme");
            assert_eq!(plan.task_name, "t");
            assert!(plan.schema().is_empty());
        }
        _ => panic!("a drop plan was expected"),
    }
    match binder.bind_describe_task(DescribeTaskStmt { name: "t".to_string() }).unwrap() {
        Plan::DescribeTask(plan) => {
            assert_eq!(plan.task_name, "t");
            assert_eq!(plan.schema().len(), 13);
        }
        _ => panic!("a describe plan was expected"),
    }
    match binder.bind_execute_task(ExecuteTaskStmt { name: "t".to_string() }).unwrap() {
        Plan::ExecuteTask(plan) => {
            assert_eq!(plan.tenant, "acme");
            assert!(plan.schema().is_empty());
        }
        _ => panic!("an execute plan was expected"),
    }
    let limit = Some(ShowLimit::Like { pattern: "t%".to_string() });
    match binder.bind_show_tasks(ShowTasksStmt { limit }).unwrap() {
        Plan::ShowTasks(plan) => {
            assert!(matches!(plan.limit, Some(ShowLimit::Like { ref pattern }) if pattern == "t%"));
            assert_eq!(plan.schema().len(), 13);
        }
        _ => panic!("a show plan was expected"),
    }
}

#[test]
fn alter_task_must_set_something() {
    let binder = Binder::new("acme".to_string());
    let nothing = AlterTaskOptions::SetOptions {
        warehouse: None,
        schedule: None,
        suspend_task_after_num_failures: None,
        comments: None,
    };
    assert!(matches!(
        binder.bind_alter_task(AlterTaskStmt { if_exists: false, name: "t".to_string(), options: nothing }),
        Err(BindError::SyntaxException(m)) if m == "alter task must set at least one option"
    ));
    let bad_schedule = AlterTaskOptions::SetOptions {
        warehouse: None,
        schedule: Some(cron("bad", None)),
        suspend_task_after_num_failures: None,
        comments: None,
    };
    assert!(matches!(
        binder.bind_alter_task(AlterTaskStmt { if_exists: false, name: "t".to_string(), options: bad_schedule }),
        Err(BindError::SemanticError(_))
    ));
    let comment = AlterTaskOptions::SetOptions {
        warehouse: None,
        schedule: None,
        suspend_task_after_num_failures: None,
        comments: Some("c".to_string()),
    };
    assert!(matches!(
        binder.bind_alter_task(AlterTaskStmt { if_exists: true, name: "t".to_string(), options: comment }),
        Ok(Plan::AlterTask(plan)) if plan.if_exists && plan.tenant == "acme" && plan.schema().is_empty()
    ));
    assert!(binder
        .bind_alter_task(AlterTaskStmt {
            if_exists: true,
            name: "t".to_string(),
            options: AlterTaskOptions::Suspend
        })
        .is_ok());
}

fn one_param() -> SortedParams {
    let mut params = SortedParams::new();
    params.insert("k".to_string(), "v".to_string());
    params
}

#[test]
fn create_connection_is_bound_after_its_place_is_checked() {
    let binder = Binder::new("acme".to_string());
    let stmt = || CreateConnectionStmt {
        if_not_exists: true,
        name: Identifier::from_name("c".to_string()),
        storage_type: "s3".to_string(),
        storage_params: one_param(),
    };
    let location = Binder::connection_location("s3".to_string(), one_param());
    assert_eq!(location.protocol, "s3");
    assert_eq!(location.name, "");
    assert_eq!(location.path, "");
    assert_eq!(location.connection.len(), 1);
    match binder.bind_create_connection(stmt(), Ok(())).unwrap() {
        Plan::CreateConnection(plan) => {
            assert!(plan.if_not_exists);
            assert_eq!(plan.name, "c");
            assert_eq!(plan.storage_type, "s3");
            assert_eq!(plan.storage_params, one_param());
        }
        _ => panic!("a connection plan was expected"),
    }
    let failed = Err(BindError::SemanticError("no such storage".to_string()));
    assert!(matches!(
        binder.bind_create_connection(stmt(), failed),
        Err(BindError::SemanticError(m)) if m == "no such storage"
    ));
}

fn nullable(t: DataType) -> DataType {
    DataType::Nullable(Box::new(t))
}

fn same_type(a: &DataType, b: &DataType) -> bool {
    format!("{:?}", a) == format!("{:?}", b)
}

#[test]
fn task_schemas_list_their_columns() {
    let schema = task_schema();
    let names: Vec<&str> = schema.iter().map(|f| f.name.as_str()).collect();
    assert_eq!(
        names,
        vec![
            "created_on",
            "name",
            "id",
            "owner",
            "comment",
            "warehouse",
            "schedule",
            "state",
            "definition",
            "suspend_task_after_num_failures",
            "next_schedule_time",
            "last_committed_on",
            "last_suspended_on",
        ]
    );
    assert!(same_type(&schema[0].data_type, &DataType::Timestamp));
    assert!(same_type(&schema[2].data_type, &DataType::UInt64));
    assert!(same_type(&schema[4].data_type, &nullable(DataType::String)));
    assert!(same_type(&schema[9].data_type, &nullable(DataType::UInt64)));
    assert!(same_type(&schema[12].data_type, &nullable(DataType::Timestamp)));
    let runs = task_run_schema();
    assert_eq!(runs.len(), 15);
    assert_eq!(runs[8].name, "run_id");
    assert!(same_type(&runs[10].data_type, &DataType::Int64));
    assert!(same_type(&runs[12].data_type, &DataType::Int32));
    assert_eq!(runs[14].name, "scheduled_time");
    assert!(same_type(&nullable(DataType::Int32).wrap_nullable(), &nullable(DataType::Int32)));
    assert!(nullable(nullable(DataType::String)).is_string_column());
    assert!(!nullable(DataType::Int32).is_string_column());
    let field = DataField::new("f", DataType::String);
    assert_eq!(field.duplicate().name, "f");
}

#[test]
fn options_for_the_control_service() {
    let interval = make_schedule_options(ScheduleOptions::IntervalMinutes(15));
    assert_eq!(interval.interval, Some(15));
    assert_eq!(interval.cron, None);
    assert_eq!(interval.schedule_type, INTERVAL_TYPE);
    let wrapped = make_schedule_options(ScheduleOptions::IntervalMinutes(u64::MAX));
    assert_eq!(wrapped.interval, Some(-1));
    let wrapped = make_schedule_options(ScheduleOptions::IntervalMinutes(0x8000_0000));
    assert_eq!(wrapped.interval, Some(i32::MIN));
    let by_cron = make_schedule_options(cron("0 0 * * * *", Some("UTC")));
    assert_eq!(by_cron.interval, None);
    assert_eq!(by_cron.cron.as_deref(), Some("0 0 * * * *"));
    assert_eq!(by_cron.time_zone.as_deref(), Some("UTC"));
    assert_eq!(by_cron.schedule_type, CRON_TYPE);
    let warehouse = make_warehouse_options(WarehouseOptions { warehouse: Some("w".to_string()) });
    assert_eq!(warehouse.warehouse.as_deref(), Some("w"));
    assert_eq!(warehouse.using_warehouse_size, None);
    assert_eq!(make_warehouse_options(WarehouseOptions { warehouse: None }).warehouse, None);
    let config = get_client_config("t".to_string(), "u".to_string(), "q".to_string());
    assert_eq!((config.tenant.as_str(), config.user.as_str(), config.query_id.as_str()), ("t", "u", "q"));
}

#[test]
fn tasks_are_laid_out_as_columns() {
    let task = |id: u64, failures: Option<i32>, warehouse: Option<WarehouseOptions>| Task {
        task_id: id,
        task_name: format!("task{}", id),
        query_text: "select 1".to_string(),
        owner: "root".to_string(),
        comment: None,
        schedule_options: Some("every hour".to_string()),
        warehouse_options: warehouse,
        next_scheduled_at: Some(5),
        suspend_task_after_num_failures: failures,
        status: if id % 2 == 0 { Status::Started } else { Status::Suspended },
        created_at: 1,
        updated_at: 2,
        last_suspended_at: None,
    };
    let block = parse_tasks_to_datablock(vec![
        task(1, Some(3), Some(WarehouseOptions { warehouse: Some("w".to_string()) })),
        task(2, Some(-1), Some(WarehouseOptions { warehouse: None })),
        task(3, None, None),
    ]);
    assert_eq!(block.created_on, vec![1, 1, 1]);
    assert_eq!(block.name, vec![b"task1".to_vec(), b"task2".to_vec(), b"task3".to_vec()]);
    assert_eq!(block.id, vec![1, 2, 3]);
    assert_eq!(block.owner[0], b"root");
    assert_eq!(block.comment, vec![None, None, None]);
    assert_eq!(block.warehouse, vec![Some(b"w".to_vec()), None, None]);
    assert_eq!(block.schedule[2], Some(b"every hour".to_vec()));
    assert_eq!(block.status, vec![b"Suspended".to_vec(), b"Started".to_vec(), b"Suspended".to_vec()]);
    assert_eq!(block.definition[1], b"select 1");
    assert_eq!(block.suspend_after_num_failures, vec![Some(3), Some(u64::MAX), None]);
    assert_eq!(block.next_schedule_time, vec![Some(5), Some(5), Some(5)]);
    assert_eq!(block.last_committed_on, vec![2, 2, 2]);
    assert_eq!(block.last_suspended_on, vec![None, None, None]);
    assert_eq!(Status::Started.to_string(), "Started");
    assert!(parse_tasks_to_datablock(vec![]).id.is_empty());
}

#[test]
fn tasks_table_describes_itself() {
    let table = TasksTable::create(42);
    let info = table.get_table_info();
    assert_eq!(info.ident.table_id, 42);
    assert_eq!(info.ident.seq, 0);
    assert_eq!(info.desc, "'system'.'tasks'");
    assert_eq!(info.name, "tasks");
    assert_eq!(info.engine, "SystemTasks");
    assert_eq!(info.schema.len(), 13);
    assert!(TasksTable::cloud_control_enabled(&Some("addr".to_string())));
    assert!(!TasksTable::cloud_control_enabled(&None));
}

#[test]
fn copy_hands_on_the_columns_of_its_source() {
    let scan = || PhysicalPlan::TableScan(TableScan { plan_id: 1, parallelism: 1, output: vec![] });
    let field = |n: &str| DataField::new(n, DataType::Int32);
    let from_query = CopyIntoTable {
        required_values_schema: vec![field("v")],
        required_source_schema: vec![],
        force: false,
        files: vec![],
        source: CopyIntoTableSource::Query(Box::new(QuerySource {
            plan: Box::new(scan()),
            query_source_schema: vec![field("q1"), field("q2")],
            ignore_result: false,
        })),
    };
    assert_eq!(from_query.output_schema().len(), 2);
    assert!(from_query.source.as_query().is_some());
    assert!(from_query.source.as_stage().is_none());
    let from_stage = CopyIntoTable {
        required_values_schema: vec![field("v")],
        required_source_schema: vec![],
        force: false,
        files: vec![StageFileInfo { path: "a".to_string(), size: 1 }],
        source: CopyIntoTableSource::Stage(Box::new(StageSource { files: vec![] })),
    };
    assert_eq!(from_stage.output_schema()[0].name, "v");
    assert!(from_stage.source.as_stage().is_some());
    assert_eq!(scan().output_schema().len(), 0);
}
