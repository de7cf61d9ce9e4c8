use query_core::bitmap::{parse_bitmap, parse_bitmap_values};
use query_core::cluster::ErrorCode;
use query_core::interpreters::{
    check_deduplicate_label, create_push_down_filters, desc_connection_row,
    show_create_catalog_row, CatalogOption, Expr,
};
use query_core::profile::{PlanScope, PlanScopeGuard, Profile};
use query_core::session::{
    eq_ignore_ascii_case, ClientHost, QueryConfig, QueryContextShared, SessionContext,
    SessionType, Settings,
};
use query_core::users::{RoleInfo, UserGrantSet, UserInfo};
use std::sync::atomic::AtomicUsize;
use std::sync::Arc;

#[test]
fn bitmap_text_is_read_as_numbers() {
    assert_eq!(parse_bitmap_values(b"1,2,3").unwrap(), vec![1, 2, 3]);
    assert_eq!(parse_bitmap_values(b" 1 , 2\n,\t3 ").unwrap(), vec![1, 2, 3]);
    assert_eq!(parse_bitmap_values(b"+7,007,7").unwrap(), vec![7, 7, 7]);
    assert_eq!(parse_bitmap_values(b"1 2").unwrap(), vec![12]);
    assert_eq!(parse_bitmap_values(b"18446744073709551615").unwrap(), vec![u64::MAX]);
    assert_eq!(parse_bitmap_values("1,\u{a0}2".as_bytes()).unwrap(), vec![1, 2]);
}

#[test]
fn bitmap_text_that_is_no_list_of_numbers_is_refused() {
    for bad in [
        &b""[..],
        b",",
        b"1,",
        b",1",
        b"1,,2",
        b"-1",
        b"1.5",
        b"abc",
        b"+",
        b"++1",
        b"1+",
        b"18446744073709551616",
        b"99999999999999999999999",
        b"\xff\xfe",
    ] {
        let expected = format!("Invalid Bitmap value: {:?}", String::from_utf8_lossy(bad));
        assert_eq!(parse_bitmap_values(bad), Err(ErrorCode::BadBytes(expected.clone())), "{:?}", bad);
        assert_eq!(parse_bitmap(bad).err(), Some(ErrorCode::BadBytes(expected)));
    }
    assert_eq!(
        parse_bitmap_values(b"1,\"x\"\n").err(),
        Some(ErrorCode::BadBytes("Invalid Bitmap value: \"1,\\\"x\\\"\\n\"".to_string()))
    );
    assert_eq!(
        parse_bitmap_values(b"7,\xff").err(),
        Some(ErrorCode::BadBytes("Invalid Bitmap value: \"7,\u{fffd}\"".to_string()))
    );
}

#[test]
fn white_space_in_a_bitmap_is_what_unicode_says_it_is() {
    let white: Vec<u32> = (0x9..=0xd)
        .chain([0x20, 0x85, 0xa0, 0x1680])
        .chain(0x2000..=0x200a)
        .chain([0x2028, 0x2029, 0x202f, 0x205f, 0x3000])
        .collect();
    assert_eq!(white.len(), 25);
    for code in 0..0x3100u32 {
        let c = match char::from_u32(code) {
            Some(c) => c,
            None => unreachable!(),
        };
        if c.is_ascii_digit() || c == ',' || c == '+' {
            assert!(!white.contains(&code));
        } else {
            let text = format!("1{}2", c);
            let passed_over = parse_bitmap_values(text.as_bytes()) == Ok(vec![12]);
            assert_eq!(passed_over, white.contains(&code), "U+{:04X}", code);
        }
    }
    for code in [0x180eu32, 0x200b, 0x2060, 0xfeff, 0x1f600] {
        let text = format!("1{}2", char::from_u32(code).unwrap());
        assert!(parse_bitmap_values(text.as_bytes()).is_err(), "U+{:04X}", code);
    }
}

#[test]
fn bitmap_holds_the_values_read() {
    let map = parse_bitmap(b"5, 1, 5, 4294967296").unwrap();
    assert_eq!(map.len(), 3);
    assert!(map.contains(1));
    assert!(map.contains(5));
    assert!(map.contains(4294967296));
    assert!(!map.contains(2));
    assert_eq!(map.iter().collect::<Vec<u64>>(), vec![1, 5, 4294967296]);
}

fn session(typ: SessionType) -> SessionContext {
    SessionContext::try_create(Settings { sandbox_tenant: None }, typ)
}

#[test]
fn fresh_session_stands_in_the_defaults() {
    let mut ctx = session(SessionType::MySQL);
    assert!(!ctx.get_abort());
    assert_eq!(ctx.get_current_catalog(), "default");
    assert_eq!(ctx.get_current_database(), "default");
    assert!(ctx.get_current_user().is_none());
    assert!(ctx.get_current_role().is_none());
    assert!(ctx.get_auth_role().is_none());
    assert!(ctx.get_secondary_roles().is_none());
    assert!(ctx.get_client_host().is_none());
    assert!(ctx.get_current_query_id().is_none());
    assert!(ctx.get_query_context_shared().is_none());
    assert!(ctx.get_settings().sandbox_tenant.is_none());
    assert!(ctx.take_io_shutdown_tx().is_none());
    assert!(ctx.get_query_id_history().is_empty());
    assert_eq!(ctx.get_last_query_id(0), "");
    assert_eq!(ctx.get_last_query_id(-1), "");
}

#[test]
fn session_remembers_what_is_set() {
    let mut ctx = session(SessionType::HTTPQuery);
    ctx.set_abort(true);
    assert!(ctx.get_abort());
    ctx.set_current_catalog("c".to_string());
    ctx.set_current_database("d".to_string());
    assert_eq!(ctx.get_current_catalog(), "c");
    assert_eq!(ctx.get_current_database(), "d");
    ctx.set_current_user(UserInfo { name: "u".to_string(), grants: UserGrantSet::new(vec![]) });
    assert_eq!(ctx.get_current_user().as_ref().unwrap().name, "u");
    ctx.set_current_role(Some(RoleInfo { name: "r".to_string(), grants: UserGrantSet::new(vec![]) }));
    assert_eq!(ctx.get_current_role().as_ref().unwrap().name, "r");
    ctx.set_auth_role(Some("a".to_string()));
    assert_eq!(ctx.get_auth_role().as_deref(), Some("a"));
    ctx.set_secondary_roles(Some(vec![]));
    assert_eq!(ctx.get_secondary_roles().as_ref().unwrap().len(), 0);
    ctx.set_client_host(Some(ClientHost { ip: "10.0.0.1".to_string(), port: 99 }));
    assert_eq!(ctx.get_client_host().as_ref().unwrap().port, 99);
    ctx.set_query_context_shared(Some(QueryContextShared { init_query_id: "q7".to_string() }));
    assert_eq!(ctx.get_current_query_id().as_deref(), Some("q7"));
    ctx.set_query_context_shared(None);
    assert!(ctx.get_current_query_id().is_none());
}

#[test]
fn shutdown_hooks_run_in_the_order_they_were_set() {
    let mut ctx = session(SessionType::MySQL);
    ctx.set_io_shutdown_tx(3);
    ctx.set_io_shutdown_tx(1);
    ctx.set_io_shutdown_tx(2);
    assert_eq!(ctx.take_io_shutdown_tx(), Some(vec![3, 1, 2]));
    assert_eq!(ctx.take_io_shutdown_tx(), None);
}

#[test]
fn tenant_of_a_session() {
    let conf = |boxes: bool, management: bool| QueryConfig {
        internal_enable_sandbox_tenant: boxes,
        management_mode: management,
        tenant_id: "server".to_string(),
    };
    let mut ctx = session(SessionType::MySQL);
    assert_eq!(ctx.get_current_tenant(&conf(false, false)), "server");
    ctx.set_current_tenant("mine".to_string());
    assert_eq!(ctx.get_current_tenant(&conf(false, false)), "server");
    assert_eq!(ctx.get_current_tenant(&conf(false, true)), "mine");
    ctx.set_current_tenant(String::new());
    assert_eq!(ctx.get_current_tenant(&conf(false, true)), "server");

    let mut local = session(SessionType::Local);
    local.set_current_tenant("mine".to_string());
    assert_eq!(local.get_current_tenant(&conf(false, false)), "mine");

    let mut boxed = SessionContext::try_create(
        Settings { sandbox_tenant: Some("box".to_string()) },
        SessionType::Local,
    );
    boxed.set_current_tenant("mine".to_string());
    assert_eq!(boxed.get_current_tenant(&conf(true, true)), "box");
    assert_eq!(boxed.get_current_tenant(&conf(false, true)), "mine");
    let empty_box = SessionContext::try_create(
        Settings { sandbox_tenant: Some(String::new()) },
        SessionType::Dummy,
    );
    assert_eq!(empty_box.get_current_tenant(&conf(true, false)), "server");
}

#[test]
fn query_ids_are_compared_without_case() {
    assert!(eq_ignore_ascii_case("AbC-1", "aBc-1"));
    assert!(!eq_ignore_ascii_case("abc", "abd"));
    assert!(!eq_ignore_ascii_case("abc", "abcd"));
    assert!(eq_ignore_ascii_case("", ""));
    assert!(!eq_ignore_ascii_case("é", "É"));
}

#[test]
fn queries_of_a_session_are_noted() {
    let mut ctx = session(SessionType::MySQL);
    ctx.update_query_ids_results("q1".to_string(), None);
    ctx.update_query_ids_results("q2".to_string(), Some("k2".to_string()));
    ctx.update_query_ids_results("q3".to_string(), None);
    assert_eq!(ctx.get_last_query_id(0), "q1");
    assert_eq!(ctx.get_last_query_id(2), "q3");
    assert_eq!(ctx.get_last_query_id(3), "");
    assert_eq!(ctx.get_last_query_id(-1), "q3");
    assert_eq!(ctx.get_last_query_id(-3), "q1");
    assert_eq!(ctx.get_last_query_id(-4), "");
    assert_eq!(ctx.get_last_query_id(i32::MIN), "");
    assert_eq!(ctx.get_last_query_id(i32::MAX), "");
    assert_eq!(ctx.get_query_result_cache_key("Q2").as_deref(), Some("k2"));
    assert_eq!(ctx.get_query_result_cache_key("q1"), None);
    assert_eq!(ctx.get_query_result_cache_key("q9"), None);

    // A query noted again without a key changes nothing.
    ctx.update_query_ids_results("Q1".to_string(), None);
    assert_eq!(ctx.get_last_query_id(-1), "q3");
    assert_eq!(ctx.get_query_id_history().len(), 3);

    // A key for a query noted before is written as far from the start as
    // the query lies from the end: q3 is the last, so the first entry goes.
    ctx.update_query_ids_results("q3".to_string(), Some("k3".to_string()));
    assert_eq!(ctx.get_last_query_id(0), "q3");
    assert_eq!(ctx.get_last_query_id(1), "q2");
    assert_eq!(ctx.get_last_query_id(2), "q3");
    assert_eq!(ctx.get_query_result_cache_key("q3"), None);
    let mut history = ctx.get_query_id_history();
    history.sort();
    assert_eq!(history, vec!["q2", "q3"]);
}

#[test]
fn profile_takes_its_plan_from_the_scope() {
    let scope = PlanScope::create(7, "join".to_string());
    assert_eq!((scope.id, scope.parent_id, scope.name.as_str()), (7, 0, "join"));
    let nested = PlanScope::with_parent(8, "scan".to_string(), 7);
    let profile = Profile::create(3, "probe".to_string(), Some(nested));
    assert_eq!(profile.pid, 3);
    assert_eq!(profile.p_name, "probe");
    assert_eq!(profile.plan_id, Some(8));
    assert_eq!(profile.plan_name.as_deref(), Some("scan"));
    assert_eq!(profile.plan_parent_id, Some(7));
    assert_eq!(profile.cpu_time.load(std::sync::atomic::Ordering::Relaxed), 0);
    let bare = Profile::create(4, "source".to_string(), None);
    assert_eq!((bare.plan_id, bare.plan_name, bare.plan_parent_id), (None, None, None));
}

#[test]
fn scope_guards_close_in_turn() {
    let counter = Arc::new(AtomicUsize::new(2));
    let guard = PlanScopeGuard::create(counter.clone(), 1);
    assert_eq!(guard.index(), 1);
    assert!(Arc::ptr_eq(guard.scope_size(), &counter));
    assert!(PlanScopeGuard::closes_in_turn(2, 1));
    assert!(!PlanScopeGuard::closes_in_turn(3, 1));
    assert!(!PlanScopeGuard::closes_in_turn(1, 1));
    assert!(!PlanScopeGuard::closes_in_turn(0, usize::MAX));
}

#[test]
fn interpreters_lay_out_their_rows() {
    let row = show_create_catalog_row("c", &CatalogOption::Default);
    assert_eq!(row, (b"c".to_vec(), b"default".to_vec(), b"".to_vec()));
    let hive = CatalogOption::Hive { address: "thrift://h".to_string(), storage_params: "s3".to_string() };
    let row = show_create_catalog_row("h", &hive);
    assert_eq!(row.1, b"hive");
    assert_eq!(row.2, b"METASTORE ADDRESS\nthrift://h\nSTORAGE PARAMS\ns3");
    let iceberg = CatalogOption::Iceberg { storage_params: "fs".to_string() };
    let row = show_create_catalog_row("i", &iceberg);
    assert_eq!(row.1, b"iceberg");
    assert_eq!(row.2, b"STORAGE PARAMS\nfs");
    assert_eq!(
        desc_connection_row("n", "s3", "k=v"),
        (b"n".to_vec(), b"s3".to_vec(), b"k=v".to_vec())
    );
    assert!(!check_deduplicate_label(&None, true));
    assert!(check_deduplicate_label(&Some("l".to_string()), true));
    assert!(!check_deduplicate_label(&Some("l".to_string()), false));
    let filters = create_push_down_filters(Expr::Column("a".to_string()));
    assert!(matches!(filters.filter, Expr::Column(ref c) if c == "a"));
    assert!(matches!(
        filters.inverted_filter,
        Expr::Not(ref inner) if matches!(**inner, Expr::Column(ref c) if c == "a")
    ));
}
