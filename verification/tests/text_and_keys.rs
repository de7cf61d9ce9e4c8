use query_core::ast::connection::{
    CreateConnectionStmt, DescribeConnectionStmt, DropConnectionStmt, Identifier,
    ShowConnectionsStmt,
};
use query_core::base::{can_mask, chars_of, decimal_text, mask_string, split_chars, text_of};
use query_core::cli::query::{
    action_for, build_endpoint, build_load_endpoint, build_query_endpoint, final_uri,
    load_outcome, parse_profile, query_outcome, query_source, split_queries, CliError,
    ClusterProfile, Config, ProfileAction, QueryCommand, QuerySource,
};
use query_core::cluster::{
    escape_for_key, is_well_escaped, unescape_for_key, AddResult, ClusterMgr, ErrorCode, MatchSeq,
    UpsertReply,
};
use query_core::params::{compare, Order, SortedParams};
use query_core::udf::{UDFDefinition, UserDefinedFunction};

#[test]
fn mask_keeps_the_last_bytes() {
    assert_eq!(mask_string("abcdef", 3), "******def");
    assert_eq!(mask_string("abc", 3), "abc");
    assert_eq!(mask_string("", 3), "");
    assert_eq!(mask_string("abcd", 0), "******");
    assert!(can_mask("abcdef", 3));
    assert!(can_mask("ab", 3));
    // The cut would fall inside the two bytes of the last letter but one.
    assert!(!can_mask("aéb", 2));
    assert!(can_mask("aéb", 3));
    assert_eq!(mask_string("aéb", 3), "******éb");
}

#[test]
fn numbers_are_written_in_decimal() {
    assert_eq!(decimal_text(0), "0");
    assert_eq!(decimal_text(7), "7");
    assert_eq!(decimal_text(10), "10");
    assert_eq!(decimal_text(8000), "8000");
    assert_eq!(decimal_text(u64::MAX), "18446744073709551615");
}

#[test]
fn characters_go_to_text_and_back() {
    let chars = chars_of("héllo");
    assert_eq!(chars, vec!['h', 'é', 'l', 'l', 'o']);
    assert_eq!(text_of(&chars), "héllo");
    assert_eq!(split_chars(&chars_of("a,b,,c"), ','), vec![vec!['a'], vec!['b'], vec![], vec!['c']]);
    assert_eq!(split_chars(&chars_of(""), ','), vec![Vec::<char>::new()]);
    assert_eq!(split_chars(&chars_of(","), ','), vec![Vec::<char>::new(), Vec::<char>::new()]);
}

fn params(pairs: &[(&str, &str)]) -> SortedParams {
    let mut sorted = SortedParams::new();
    for (name, value) in pairs {
        sorted.insert(name.to_string(), value.to_string());
    }
    sorted
}

#[test]
fn parameters_are_kept_in_the_order_of_their_names() {
    let mut sorted = SortedParams::new();
    assert_eq!(sorted.insert("b".to_string(), "2".to_string()), None);
    assert_eq!(sorted.insert("a".to_string(), "1".to_string()), None);
    assert_eq!(sorted.insert("ab".to_string(), "3".to_string()), None);
    assert_eq!(sorted.insert("B".to_string(), "4".to_string()), None);
    assert_eq!(sorted.insert("a".to_string(), "5".to_string()), Some("1".to_string()));
    let seen: Vec<(&str, &str)> =
        sorted.as_vec().iter().map(|(n, v)| (n.as_str(), v.as_str())).collect();
    assert_eq!(seen, vec![("B", "4"), ("a", "5"), ("ab", "3"), ("b", "2")]);
    assert_eq!(sorted.len(), 4);
    assert_eq!(sorted.get("ab").map(|v| v.as_str()), Some("3"));
    assert_eq!(sorted.get("c"), None);
    assert_eq!(sorted.get(""), None);
    assert_eq!(compare("a", "b"), Order::Before);
    assert_eq!(compare("b", "a"), Order::After);
    assert_eq!(compare("a", "a"), Order::Same);
    assert_eq!(compare("", "a"), Order::Before);
    assert_eq!(compare("ab", "a"), Order::After);
    assert_eq!(compare("z", "é"), Order::Before);
}

fn name(text: &str) -> Identifier {
    Identifier::from_name(text.to_string())
}

#[test]
fn connection_statements_are_written_out() {
    let create = CreateConnectionStmt {
        if_not_exists: true,
        name: name("c1"),
        storage_type: "s3".to_string(),
        storage_params: params(&[("region", "us"), ("access_key_id", "ABCDEFG")]),
    };
    assert_eq!(
        create.to_string(),
        "CREATE CONNECTION IF NOT EXISTS c1 STORAGE_TYPE = s3 access_key_id = ******EFGregion = us"
    );
    let plain = CreateConnectionStmt {
        if_not_exists: false,
        name: Identifier { name: "my conn".to_string(), quote: Some('"') },
        storage_type: "azblob".to_string(),
        storage_params: SortedParams::new(),
    };
    assert_eq!(plain.to_string(), "CREATE CONNECTION \"my conn\" STORAGE_TYPE = azblob ");
    let drop = DropConnectionStmt { if_exists: true, name: name("c1") };
    assert_eq!(drop.to_string(), "CREATE CONNECTION IF NOT EXISTS c1 ");
    let drop = DropConnectionStmt { if_exists: false, name: name("c1") };
    assert_eq!(drop.to_string(), "CREATE CONNECTION c1 ");
    assert_eq!(DescribeConnectionStmt { name: name("c1") }.to_string(), "CREATE CONNECTION c1 ");
    assert_eq!(ShowConnectionsStmt {}.to_string(), "SHOW CONNECTIONS");
}

#[test]
fn user_defined_functions_are_written_out() {
    let lambda = UserDefinedFunction::create_lambda_udf(
        "isnotempty",
        vec!["p".to_string(), "q".to_string()],
        "not(isempty(p))",
        "this is a description",
    );
    assert_eq!(lambda.name, "isnotempty");
    assert_eq!(lambda.description, "this is a description");
    assert_eq!(lambda.definition.to_string(), " (p, q) -> not(isempty(p))");
    let server = UserDefinedFunction::create_udf_server(
        "isempty",
        "http://127.0.0.1:8888",
        "isempty",
        "python",
        vec!["String".to_string()],
        "Boolean".to_string(),
        "this is a description",
    );
    assert_eq!(
        server.definition.to_string(),
        " (String) RETURNS Boolean LANGUAGE python HANDLER = isempty ADDRESS = http://127.0.0.1:8888"
    );
    match UserDefinedFunction::create_lambda_udf("f", vec![], "1", "d").definition {
        UDFDefinition::LambdaUDF(l) => {
            assert!(l.parameters.is_empty());
            assert_eq!(l.definition, "1");
        }
        UDFDefinition::UDFServer(_) => panic!("a lambda was made"),
    }
    assert_eq!(
        UserDefinedFunction::create_lambda_udf("f", vec![], "1", "d").definition.to_string(),
        " () -> 1"
    );
}

#[test]
fn keys_are_escaped_byte_by_byte() {
    assert_eq!(escape_for_key("tenant_1"), "tenant_1");
    assert_eq!(escape_for_key("a b/c"), "a%20b%2fc");
    assert_eq!(escape_for_key("é"), "%c3%a9");
    assert_eq!(escape_for_key(""), "");
    assert_eq!(escape_for_key("%"), "%25");
}

#[test]
fn keys_are_read_back_with_letters_counted_from_zero() {
    assert_eq!(unescape_for_key("tenant_1").unwrap(), "tenant_1");
    assert_eq!(unescape_for_key("a%20b").unwrap(), "a b");
    assert_eq!(unescape_for_key("%25").unwrap(), "%");
    // The digits a to f are read as 0 to 5: %2f is read as byte 0x25.
    assert_eq!(unescape_for_key("%2f").unwrap(), "%");
    assert!(matches!(unescape_for_key("%99"), Err(ErrorCode::BadBytes(_))));
    assert!(is_well_escaped("a%20b"));
    assert!(!is_well_escaped("a%2"));
    assert!(!is_well_escaped("a%2g"));
    assert!(!is_well_escaped("%"));
    assert!(is_well_escaped(""));
}

#[test]
fn cluster_registry_keys_and_replies() {
    assert!(matches!(
        ClusterMgr::create("", "c", 60),
        Err(ErrorCode::TenantIsEmpty(m)) if m == "Tenant can not empty(while cluster mgr create)"
    ));
    let mgr = ClusterMgr::create("test tenant", "cluster-1", 60).unwrap();
    assert_eq!(
        mgr.cluster_prefix(),
        "__fd_clusters/test%20tenant/cluster%2d1/databend_query"
    );
    assert_eq!(
        mgr.node_key("node 1"),
        "__fd_clusters/test%20tenant/cluster%2d1/databend_query/node%201"
    );
    assert_eq!(mgr.new_lift_time(1_000), 1_060);
    let key = "__fd_clusters/test%20tenant/cluster%2d1/databend_query/node1";
    assert!(mgr.can_hold_node_id(key));
    assert_eq!(mgr.node_id_of(key), "node1");
    assert!(!mgr.can_hold_node_id("short"));

    assert!(matches!(ClusterMgr::add_node_outcome(AddResult::Added(7)), Ok(7)));
    assert!(matches!(
        ClusterMgr::add_node_outcome(AddResult::Exists(12)),
        Err(ErrorCode::ClusterNodeAlreadyExists(m)) if m == "Cluster ID already exists, seq [12]"
    ));
    let gone = UpsertReply { ident: None, prev: Some(3), result: None };
    let kept = UpsertReply { ident: None, prev: Some(3), result: Some(4) };
    let absent = UpsertReply { ident: None, prev: None, result: None };
    assert!(ClusterMgr::drop_node_outcome("n".to_string(), gone).is_ok());
    assert!(matches!(
        ClusterMgr::drop_node_outcome("n".to_string(), kept),
        Err(ErrorCode::ClusterUnknownNode(id)) if id == "n"
    ));
    assert!(ClusterMgr::drop_node_outcome("n".to_string(), absent).is_err());
    assert!(matches!(ClusterMgr::heartbeat_outcome("n".to_string(), kept), Ok(4)));
    assert!(ClusterMgr::heartbeat_outcome("n".to_string(), gone).is_err());
    assert!(ClusterMgr::heartbeat_outcome(
        "n".to_string(),
        UpsertReply { ident: Some(1), prev: Some(3), result: Some(4) }
    )
    .is_err());
    assert_eq!(ClusterMgr::heartbeat_condition(None), MatchSeq::GE(1));
    assert_eq!(ClusterMgr::heartbeat_condition(Some(5)), MatchSeq::Exact(5));
    assert_eq!(ClusterMgr::drop_condition(None), MatchSeq::Any);
    assert_eq!(ClusterMgr::drop_condition(Some(5)), MatchSeq::Exact(5));
}

#[test]
fn statements_are_split_at_semicolons() {
    assert_eq!(split_queries("select 1; select 2"), vec!["select 1;", " select 2;"]);
    assert_eq!(split_queries("select 1;"), vec!["select 1;"]);
    assert_eq!(split_queries(" ; \n;select 1;;"), vec!["select 1;"]);
    assert_eq!(split_queries(""), Vec::<String>::new());
    assert_eq!(split_queries("\u{a0}\u{2003}"), Vec::<String>::new());
}

#[test]
fn query_command_and_its_sources() {
    let command = QueryCommand::default();
    assert_eq!(command.name(), "query");
    assert_eq!(command.about(), "Query on databend cluster");
    assert_eq!(command.config().group, "local");
    let made = QueryCommand::create(Config { group: "g".to_string(), databend_dir: "d".to_string() });
    assert_eq!(made.config().group, "g");
    assert_eq!(made.config().databend_dir, "d");

    assert_eq!(query_source(None, false), QuerySource::Stdin);
    assert_eq!(query_source(Some("q.sql"), true), QuerySource::File);
    assert_eq!(query_source(Some("http://x/q.sql"), false), QuerySource::Url);
    assert_eq!(query_source(Some("https://x/q.sql"), false), QuerySource::Url);
    assert_eq!(query_source(Some("http:/x"), false), QuerySource::Inline);
    assert_eq!(query_source(Some("select 1"), false), QuerySource::Inline);

    assert_eq!(parse_profile("local"), Some(ClusterProfile::Local));
    assert_eq!(parse_profile("cluster"), Some(ClusterProfile::Cluster));
    assert_eq!(parse_profile("Local"), None);
    assert_eq!(action_for(Some(ClusterProfile::Local)), ProfileAction::RunLocal);
    assert_eq!(action_for(None), ProfileAction::ReportUnknownProfile);
}

#[test]
fn endpoints_are_built_from_host_and_port() {
    assert_eq!(build_endpoint("127.0.0.1", 8000, "/x", "", ""), "http://127.0.0.1:8000/x");
    assert_eq!(
        build_query_endpoint("127.0.0.1", 8001, "key", ""),
        "http://127.0.0.1:8001/v1/query?wait_time=-1"
    );
    assert_eq!(
        build_load_endpoint("::1", 1, "", "cert"),
        "http://::1:1/v1/streaming_load"
    );
    assert_eq!(final_uri("http", "localhost", 8000, "v1/query/abc/final"), "http://localhost:8000/v1/query/abc/final");
}

#[test]
fn replies_of_the_server_are_judged() {
    assert!(load_outcome(true, "200 OK", Ok(None)).is_ok());
    assert!(matches!(
        load_outcome(false, "500", Ok(None)),
        Err(CliError::Unknown(m)) if m == "http streaming load fail, reason=status_code=500"
    ));
    assert!(matches!(
        load_outcome(true, "200", Ok(Some("bad".to_string()))),
        Err(CliError::Unknown(m)) if m == "bad"
    ));
    assert!(matches!(
        load_outcome(true, "200", Err("eof".to_string())),
        Err(CliError::Unknown(m)) if m == "json decode error=eof"
    ));
    assert!(query_outcome(None).is_ok());
    assert!(matches!(
        query_outcome(Some("boom".to_string())),
        Err(CliError::Unknown(m)) if m == "Query has error: boom"
    ));
}
