use query_core::ast::copy::{
    CopyIntoLocationOption, CopyIntoLocationSource, CopyIntoTableOption, CopyIntoTableSource,
    CopyIntoTableStmt, FileLocation, Statement, TableIdentifier,
};
use query_core::parser::copy::{
    copy_into, copy_into_location, copy_into_location_option, copy_into_table,
    copy_into_table_option, Parsed,
};
use query_core::parser::token::TokenKind::{
    Comma, LParen, Period, RParen, COPY, DISABLE_VARIANT_CHECK, FALSE, FILES, FILE_FORMAT, FORCE,
    FROM, INTO, MAX_FILES, MAX_FILE_SIZE, ON_ERROR, PATTERN, PURGE, RETURN_FAILED_ONLY, SINGLE,
    SIZE_LIMIT, SPLIT_SIZE, TRUE, VALIDATION_MODE,
};
use query_core::parser::token::{Token, TokenKind};

fn w(kind: TokenKind) -> Token {
    Token::Word(kind)
}

fn id(name: &str) -> Token {
    Token::Ident(name.to_string())
}

fn s(text: &str) -> Token {
    Token::LiteralString(text.to_string())
}

fn n(number: u64) -> Token {
    Token::LiteralInteger(number)
}

fn setting(kind: TokenKind, value: Token) -> Vec<Token> {
    vec![w(kind), w(TokenKind::Eq), value]
}

fn table_option(tokens: Vec<Token>) -> Option<(CopyIntoTableOption, usize)> {
    match copy_into_table_option(&tokens, 0) {
        Parsed::Done(opt, next) => Some((opt, next)),
        Parsed::Error(at) => {
            assert_eq!(at, 0);
            None
        }
        Parsed::Failure(_) => panic!("options never fail for good"),
    }
}

#[test]
fn table_options_are_read() {
    assert!(matches!(table_option(setting(PATTERN, s(".*csv"))), Some((CopyIntoTableOption::Pattern(p), 3)) if p == ".*csv"));
    assert!(matches!(table_option(setting(VALIDATION_MODE, s("RETURN_ROWS"))), Some((CopyIntoTableOption::ValidationMode(p), 3)) if p == "RETURN_ROWS"));
    assert!(matches!(table_option(setting(SIZE_LIMIT, n(10))), Some((CopyIntoTableOption::SizeLimit(10), 3))));
    assert!(matches!(table_option(setting(SPLIT_SIZE, n(7))), Some((CopyIntoTableOption::SplitSize(7), 3))));
    assert!(matches!(table_option(setting(PURGE, w(TRUE))), Some((CopyIntoTableOption::Purge(true), 3))));
    assert!(matches!(table_option(setting(FORCE, w(FALSE))), Some((CopyIntoTableOption::Force(false), 3))));
    assert!(matches!(table_option(setting(ON_ERROR, id("continue"))), Some((CopyIntoTableOption::OnError(p), 3)) if p == "continue"));
    assert!(matches!(table_option(setting(DISABLE_VARIANT_CHECK, w(TRUE))), Some((CopyIntoTableOption::DisableVariantCheck(true), 3))));
    assert!(matches!(table_option(setting(RETURN_FAILED_ONLY, w(TRUE))), Some((CopyIntoTableOption::ReturnFailedOnly(true), 3))));
    assert!(table_option(setting(PURGE, n(1))).is_none());
    assert!(table_option(setting(SIZE_LIMIT, s("10"))).is_none());
    assert!(table_option(vec![w(PURGE), w(TRUE)]).is_none());
    assert!(table_option(vec![w(SINGLE), w(TokenKind::Eq), w(TRUE)]).is_none());
    assert!(table_option(vec![]).is_none());
}

#[test]
fn max_files_is_capped() {
    assert!(matches!(table_option(setting(MAX_FILES, n(10))), Some((CopyIntoTableOption::MaxFiles(10), 3))));
    assert!(matches!(table_option(setting(MAX_FILES, n(2000))), Some((CopyIntoTableOption::MaxFiles(2000), 3))));
    assert!(matches!(table_option(setting(MAX_FILES, n(2001))), Some((CopyIntoTableOption::MaxFiles(2000), 3))));
    assert!(matches!(table_option(setting(MAX_FILES, n(0))), Some((CopyIntoTableOption::MaxFiles(0), 3))));
}

#[test]
fn files_are_a_list_between_parentheses() {
    let tokens = vec![w(FILES), w(TokenKind::Eq), w(LParen), s("a"), w(Comma), s("b"), w(RParen), w(PURGE)];
    assert!(matches!(table_option(tokens), Some((CopyIntoTableOption::Files(f), 7)) if f == vec!["a", "b"]));
    let empty = vec![w(FILES), w(TokenKind::Eq), w(LParen), w(RParen)];
    assert!(matches!(table_option(empty), Some((CopyIntoTableOption::Files(f), 4)) if f.is_empty()));
    let dangling = vec![w(FILES), w(TokenKind::Eq), w(LParen), s("a"), w(Comma), w(RParen)];
    assert!(table_option(dangling).is_none());
    let open = vec![w(FILES), w(TokenKind::Eq), w(LParen), s("a")];
    assert!(table_option(open).is_none());
}

#[test]
fn file_format_is_a_list_of_settings() {
    let tokens = vec![
        w(FILE_FORMAT),
        w(TokenKind::Eq),
        w(LParen),
        id("TYPE"),
        w(TokenKind::Eq),
        id("CSV"),
        id("FIELD_DELIMITER"),
        w(TokenKind::Eq),
        s(","),
        w(Comma),
        id("SKIP_HEADER"),
        w(TokenKind::Eq),
        s("1"),
        w(RParen),
    ];
    match table_option(tokens.clone()) {
        Some((CopyIntoTableOption::FileFormat(options), 14)) => {
            let seen: Vec<(&str, &str)> =
                options.iter().map(|o| (o.name.as_str(), o.value.as_str())).collect();
            assert_eq!(seen, vec![("TYPE", "CSV"), ("FIELD_DELIMITER", ","), ("SKIP_HEADER", "1")]);
        }
        _ => panic!("a file format was expected"),
    }
    assert!(matches!(
        copy_into_location_option(&tokens, 0),
        Parsed::Done(CopyIntoLocationOption::FileFormat(o), 14) if o.len() == 3
    ));
    let leading_comma = vec![w(FILE_FORMAT), w(TokenKind::Eq), w(LParen), w(Comma), id("TYPE"), w(TokenKind::Eq), id("CSV"), w(RParen)];
    assert!(table_option(leading_comma).is_none());
    let empty = vec![w(FILE_FORMAT), w(TokenKind::Eq), w(LParen), w(RParen)];
    assert!(matches!(table_option(empty), Some((CopyIntoTableOption::FileFormat(o), 4)) if o.is_empty()));
}

#[test]
fn location_options_are_read() {
    assert!(matches!(
        copy_into_location_option(&setting(SINGLE, w(TRUE)), 0),
        Parsed::Done(CopyIntoLocationOption::Single(true), 3)
    ));
    assert!(matches!(
        copy_into_location_option(&setting(MAX_FILE_SIZE, n(64)), 0),
        Parsed::Done(CopyIntoLocationOption::MaxFileSize(64), 3)
    ));
    assert!(matches!(copy_into_location_option(&setting(PURGE, w(TRUE)), 0), Parsed::Error(0)));
}

fn parse(tokens: &Vec<Token>) -> Statement {
    match copy_into(tokens, 0) {
        Parsed::Done(stmt, next) => {
            assert_eq!(next, tokens.len());
            stmt
        }
        Parsed::Error(at) => panic!("gave up at {}", at),
        Parsed::Failure(at) => panic!("failed at {}", at),
    }
}

#[test]
fn copy_into_table_from_a_stage() {
    let mut tokens = vec![
        w(COPY),
        Token::Hint("SET_VAR(timezone='UTC')".to_string()),
        w(INTO),
        id("db"),
        w(Period),
        id("t"),
        w(LParen),
        id("a"),
        w(Comma),
        id("b"),
        w(RParen),
        w(FROM),
        Token::AtString("my_stage/path".to_string()),
    ];
    tokens.extend(setting(PURGE, w(TRUE)));
    tokens.extend(setting(MAX_FILES, n(5000)));
    tokens.extend(setting(PURGE, w(FALSE)));
    tokens.extend(setting(ON_ERROR, id("continue")));
    match parse(&tokens) {
        Statement::CopyIntoTable(stmt) => {
            assert_eq!(stmt.hints.as_deref(), Some("SET_VAR(timezone='UTC')"));
            assert_eq!(stmt.dst.catalog, None);
            assert_eq!(stmt.dst.database.as_deref(), Some("db"));
            assert_eq!(stmt.dst.table, "t");
            assert_eq!(stmt.dst_columns, Some(vec!["a".to_string(), "b".to_string()]));
            assert!(matches!(stmt.src, CopyIntoTableSource::Location(FileLocation::Stage(ref s)) if s == "my_stage/path"));
            assert!(!stmt.purge);
            assert_eq!(stmt.max_files, 2000);
            assert_eq!(stmt.on_error, "continue");
            assert_eq!(stmt.files, None);
            assert_eq!(stmt.pattern, None);
            assert_eq!(stmt.size_limit, 0);
            assert!(!stmt.force);
        }
        _ => panic!("a copy into a table was expected"),
    }
}

#[test]
fn copy_into_table_defaults() {
    let tokens = vec![w(COPY), w(INTO), id("c"), w(Period), id("d"), w(Period), id("t"), w(FROM), s("s3://bucket/")];
    match parse(&tokens) {
        Statement::CopyIntoTable(stmt) => {
            assert_eq!(stmt.hints, None);
            assert_eq!(stmt.dst.catalog.as_deref(), Some("c"));
            assert_eq!(stmt.dst_columns, None);
            assert_eq!(stmt.on_error, "abort");
            assert_eq!(stmt.validation_mode, "");
            assert!(stmt.file_format.is_empty());
            assert!(matches!(stmt.src, CopyIntoTableSource::Location(FileLocation::Uri(ref u)) if u == "s3://bucket/"));
        }
        _ => panic!("a copy into a table was expected"),
    }
}

#[test]
fn copy_into_table_from_a_query() {
    let tokens = vec![
        w(COPY),
        w(INTO),
        id("t"),
        w(FROM),
        w(LParen),
        Token::Other("select".to_string()),
        id("f"),
        w(LParen),
        id("x"),
        w(RParen),
        w(FROM),
        Token::AtString("s".to_string()),
        w(RParen),
        w(FORCE),
        w(TokenKind::Eq),
        w(TRUE),
    ];
    match parse(&tokens) {
        Statement::CopyIntoTable(stmt) => {
            match stmt.src {
                CopyIntoTableSource::Query(ref q) => assert_eq!(q.len(), 7),
                _ => panic!("a query was expected"),
            }
            assert!(stmt.force);
        }
        _ => panic!("a copy into a table was expected"),
    }
}

#[test]
fn copy_into_location_from_a_table_or_a_query() {
    let mut tokens = vec![w(COPY), w(INTO), Token::AtString("stage".to_string()), w(FROM), id("db"), w(Period), id("t")];
    tokens.extend(setting(SINGLE, w(TRUE)));
    tokens.extend(setting(MAX_FILE_SIZE, n(10)));
    match parse(&tokens) {
        Statement::CopyIntoLocation(stmt) => {
            assert!(matches!(stmt.dst, FileLocation::Stage(ref s) if s == "stage"));
            assert!(matches!(stmt.src, CopyIntoLocationSource::Table(ref t) if t.table == "t" && t.database.as_deref() == Some("db")));
            assert!(stmt.single);
            assert_eq!(stmt.max_file_size, 10);
        }
        _ => panic!("a copy into a location was expected"),
    }
    let tokens = vec![w(COPY), w(INTO), s("fs:///tmp/"), w(FROM), w(LParen), id("q"), w(RParen)];
    assert!(matches!(
        copy_into_location(&tokens, 0),
        Parsed::Done(stmt, 7) if matches!(stmt.src, CopyIntoLocationSource::Query(ref q) if q.len() == 1)
    ));
}

#[test]
fn what_is_no_copy_statement() {
    assert!(matches!(copy_into(&vec![], 0), Parsed::Error(0)));
    assert!(matches!(copy_into(&vec![w(INTO)], 0), Parsed::Error(0)));
    assert!(matches!(copy_into(&vec![w(COPY), id("x")], 0), Parsed::Error(1)));
    assert!(matches!(copy_into(&vec![w(COPY), w(INTO), n(1)], 0), Parsed::Error(2)));
    // Once the target is read, FROM and a source must follow.
    assert!(matches!(copy_into(&vec![w(COPY), w(INTO), id("t")], 0), Parsed::Failure(3)));
    assert!(matches!(copy_into(&vec![w(COPY), w(INTO), id("t"), w(FROM)], 0), Parsed::Failure(4)));
    assert!(matches!(copy_into(&vec![w(COPY), w(INTO), id("t"), w(FROM), id("u")], 0), Parsed::Failure(4)));
    assert!(matches!(
        copy_into(&vec![w(COPY), w(INTO), s("uri"), w(FROM), n(1)], 0),
        Parsed::Failure(4)
    ));
    assert!(matches!(
        copy_into_table(&vec![w(COPY), w(INTO), id("t"), w(FROM), w(LParen), id("q")], 0),
        Parsed::Failure(4)
    ));
    // What follows the options is left to the caller.
    let tokens = vec![w(COPY), w(INTO), id("t"), w(FROM), s("u"), w(PURGE), w(TokenKind::Eq), n(1)];
    assert!(matches!(copy_into(&tokens, 0), Parsed::Done(_, 5)));
}

#[test]
fn tables_are_named_by_one_to_three_names() {
    let one = TableIdentifier::from_tuple("t".to_string(), None, None);
    assert_eq!((one.catalog, one.database, one.table.as_str()), (None, None, "t"));
    let two = TableIdentifier::from_tuple("d".to_string(), Some("t".to_string()), None);
    assert_eq!((two.catalog, two.database.as_deref(), two.table.as_str()), (None, Some("d"), "t"));
    let three = TableIdentifier::from_tuple("c".to_string(), Some("d".to_string()), Some("t".to_string()));
    assert_eq!(
        (three.catalog.as_deref(), three.database.as_deref(), three.table.as_str()),
        (Some("c"), Some("d"), "t")
    );
    assert!(matches!(w(TokenKind::COPY).duplicate(), Token::Word(TokenKind::COPY)));
}

#[test]
fn options_replace_what_was_set_before() {
    let mut stmt = CopyIntoTableStmt::new(
        None,
        CopyIntoTableSource::Location(FileLocation::Uri("u".to_string())),
        TableIdentifier::from_tuple("t".to_string(), None, None),
        None,
    );
    stmt.apply_option(CopyIntoTableOption::Files(vec!["a".to_string()]));
    stmt.apply_option(CopyIntoTableOption::Files(vec!["b".to_string()]));
    stmt.apply_option(CopyIntoTableOption::SizeLimit(9));
    assert_eq!(stmt.files, Some(vec!["b".to_string()]));
    assert_eq!(stmt.size_limit, 9);
}
