use std::sync::Arc;

use mysql2pg_middleware::cache::TranslationCache;
use mysql2pg_middleware::config::{AppConfig, PostgresConfig, ServerConfig, TranslatorConfig};
use mysql2pg_middleware::error::MiddlewareError;
use mysql2pg_middleware::executor::{affected_result, captured_result, rows_result, PgParam};
use mysql2pg_middleware::frontend::{
    active_schema_name, apply_set_names, default_mysql_collation_for_charset, mysql_error_kind_for_message,
    normalize_transaction_isolation, parse_create_database_name, parse_drop_database_name, parse_kill_connection_id,
    parse_set_sql_mode_value, parse_use_database, sql_mode_is_ansi, ErrorKind,
};
use mysql2pg_middleware::params::{
    decode_mysql_date_literal, decode_mysql_datetime_literal, decode_mysql_param, decode_mysql_params,
    prepare_param_marker, replace_prepare_params_with_string_literals, restore_prepare_param_markers,
    rewrite_prepare_placeholders_for_postgres, RawParam,
};
use mysql2pg_middleware::session::{
    compat_empty_result_for_missing_matomo_option, split_statements, ExecuteAction, MySqlFrontendFactory,
    MySqlServerError, PrepareAction, QueryAction, Reply, Server, Session,
};

fn server() -> Server {
    Server::new("8.0.35".to_string(), "MySQL".to_string())
}

fn factory() -> MySqlFrontendFactory {
    MySqlFrontendFactory::new(
        Arc::new(AppConfig {
            server: ServerConfig {
                bind_addr: "a".to_string(),
                mysql_bind_addr: "b".to_string(),
            },
            postgres: PostgresConfig {
                driver: "tokio-postgres".to_string(),
                connection_string: "host=db".to_string(),
            },
            translator: TranslatorConfig::default(),
        }),
        "host=db".to_string(),
    )
}

fn session() -> Session {
    factory().connection_backend(&mut server())
}

fn value(action: QueryAction) -> String {
    match action {
        QueryAction::Rows((_, rows)) => rows[0].last().unwrap().clone(),
        other => panic!("{other:?}"),
    }
}

#[test]
fn connections_are_numbered_one_by_one() {
    let mut server = server();
    let factory = factory();
    assert_eq!(factory.connection_backend(&mut server).connection_id, 9);
    let second = factory.connection_backend(&mut server);
    assert_eq!(second.connection_id, 10);
    assert_eq!(second.next_statement_id, 1);
    assert_eq!(second.charset, "utf8mb4");
    assert_eq!(second.collation, "utf8mb4_general_ci");
    assert!(second.current_db.is_none());
}

#[test]
fn a_killed_connection_aborts_once() {
    let mut server = server();
    server.kill_connection(12);
    assert!(server.abort_if_connection_killed(11).is_ok());
    match server.abort_if_connection_killed(12) {
        Err(e) => assert_eq!(e.to_string(), "MySQL server has gone away"),
        Ok(()) => panic!("not aborted"),
    }
    assert!(server.abort_if_connection_killed(12).is_ok());
    let err = MySqlServerError::Middleware(MiddlewareError::Config("x".to_string()));
    assert_eq!(err.to_string(), "configuration error: x");
}

#[test]
fn the_default_database_is_that_of_new_sessions() {
    let mut server = server();
    server.set_default_database_name(&Some(" shop ".to_string()));
    assert_eq!(factory().connection_backend(&mut server).current_db.as_deref(), Some("shop"));
    server.clear_default_database_name_if_matches("other");
    assert_eq!(server.default_database.as_deref(), Some("shop"));
    server.clear_default_database_name_if_matches("shop");
    assert!(server.default_database.is_none());
    server.set_default_database_name(&Some("  ".to_string()));
    assert!(server.default_database.is_none());
}

#[test]
fn sessions_answer_what_they_know() {
    let mut s = session();
    let mut cache = TranslationCache::new();
    assert_eq!(value(s.on_query("SELECT CONNECTION_ID()", &mut cache)), "9");
    assert_eq!(value(s.on_query("select version()", &mut cache)), "8.0.35");
    assert_eq!(value(s.on_query("SELECT @@version_comment", &mut cache)), "MySQL");
    assert_eq!(value(s.on_query("SELECT DATABASE()", &mut cache)), "");
    assert_eq!(value(s.on_query("SELECT @@sql_mode", &mut cache)), "NO_AUTO_VALUE_ON_ZERO");
    assert_eq!(value(s.on_query("SELECT @@transaction_isolation", &mut cache)), "REPEATABLE-READ");
    assert_eq!(value(s.on_query("SELECT LAST_INSERT_ID()", &mut cache)), "0");
    match s.on_query("SELECT @@SESSION.sql_mode AS m", &mut cache) {
        QueryAction::Rows((columns, _)) => assert_eq!(columns, vec!["m"]),
        other => panic!("{other:?}"),
    }
}

#[test]
fn a_selected_database_is_reported_and_used() {
    let mut s = session();
    let mut cache = TranslationCache::new();
    assert!(matches!(s.on_query("USE `shop`;", &mut cache), QueryAction::Use(name) if name == "shop"));
    assert_eq!(value(s.on_query("SELECT DATABASE()", &mut cache)), "shop");
    match s.on_query("SELECT `a` FROM t", &mut cache) {
        QueryAction::Execute(schema, sql) => {
            assert_eq!(schema.as_deref(), Some("shop"));
            assert_eq!(sql, "SELECT \"a\" FROM t");
        }
        other => panic!("{other:?}"),
    }
    s.on_init("  ");
    assert!(s.current_db.is_none());
    s.on_init(" other ");
    assert_eq!(s.current_db.as_deref(), Some("other"));
}

#[test]
fn schemas_follow_create_and_drop() {
    let mut s = session();
    let mut cache = TranslationCache::new();
    assert!(matches!(
        s.on_query("CREATE DATABASE IF NOT EXISTS `shop`", &mut cache),
        QueryAction::CreateSchema(name) if name == "shop"
    ));
    s.on_schema_created("shop");
    assert_eq!(s.current_db.as_deref(), Some("shop"));
    assert!(matches!(
        s.on_query("DROP DATABASE shop;", &mut cache),
        QueryAction::DropSchema(name) if name == "shop"
    ));
    s.on_schema_dropped("other");
    assert_eq!(s.current_db.as_deref(), Some("shop"));
    s.on_schema_dropped("shop");
    assert!(s.current_db.is_none());
}

#[test]
fn settings_are_tracked_and_bad_ones_refused() {
    let mut s = session();
    let mut cache = TranslationCache::new();
    assert!(matches!(s.on_query("SET NAMES 'utf8mb3'", &mut cache), QueryAction::Done));
    assert_eq!((s.charset.as_str(), s.collation.as_str()), ("utf8", "utf8_general_ci"));
    match s.on_query("SET NAMES latin9", &mut cache) {
        QueryAction::Fail(kind, message) => {
            assert_eq!(kind, ErrorKind::Unknown);
            assert_eq!(message, "execution error: unknown character set: latin9");
        }
        other => panic!("{other:?}"),
    }
    match s.on_query("SET NAMES utf8mb4 COLLATE utf8_bin", &mut cache) {
        QueryAction::Fail(_, message) => assert_eq!(message, "execution error: unknown collation: utf8_bin"),
        other => panic!("{other:?}"),
    }
    assert_eq!((s.charset.as_str(), s.collation.as_str()), ("utf8", "utf8_general_ci"));
    assert!(matches!(
        s.on_query("SET SESSION TRANSACTION ISOLATION LEVEL read  committed", &mut cache),
        QueryAction::Done
    ));
    assert_eq!(value(s.on_query("SELECT @@tx_isolation", &mut cache)), "READ-COMMITTED");
}

#[test]
fn an_ansi_mode_changes_how_quotes_are_read() {
    let mut s = session();
    let mut cache = TranslationCache::new();
    let executed = |action: QueryAction| match action {
        QueryAction::Execute(_, sql) => sql,
        other => panic!("{other:?}"),
    };
    let sql = "SELECT \"a\" FROM t";
    assert_eq!(executed(s.on_query(sql, &mut cache)), "SELECT 'a' FROM t");
    assert!(matches!(s.on_query("SET sql_mode = 'ANSI'", &mut cache), QueryAction::Done));
    assert_eq!(value(s.on_query("SELECT @@sql_mode", &mut cache)), "ANSI");
    assert_eq!(executed(s.on_query(sql, &mut cache)), "SELECT \"a\" FROM t");
}

#[test]
fn prepared_columns_are_labelled_by_their_bare_names() {
    let mut s = session();
    let mut cache = TranslationCache::new();
    s.on_query("SET sql_mode = 'ANSI'", &mut cache);
    match s.on_prepare("SELECT \"SiteTree\".\"ClassName\" FROM \"SiteTree\"", &mut cache) {
        PrepareAction::Reply(_, 0, columns) => assert_eq!(columns, vec!["ClassName"]),
        other => panic!("{other:?}"),
    }
}

#[test]
fn a_bound_sql_mode_is_tracked() {
    let mut s = session();
    let mut cache = TranslationCache::new();
    let id = match s.on_prepare("SET sql_mode = ?", &mut cache) {
        PrepareAction::Reply(id, params, columns) => {
            assert_eq!((params, columns.len()), (1, 0));
            id
        }
        other => panic!("{other:?}"),
    };
    let mode = vec![RawParam::Bytes(b"ANSI_QUOTES".to_vec())];
    assert!(matches!(s.on_execute(id, &mode), ExecuteAction::Done));
    assert_eq!(s.sql_mode, "ANSI_QUOTES");
}

#[test]
fn kills_noops_and_untranslatable_queries_are_told_apart() {
    let mut s = session();
    let mut cache = TranslationCache::new();
    assert!(matches!(s.on_query("KILL 12;", &mut cache), QueryAction::Kill(12)));
    assert!(matches!(s.on_query("SET FOREIGN_KEY_CHECKS=0", &mut cache), QueryAction::Done));
    match s.on_query("REPLACE INTO t (a) VALUES (1)", &mut cache) {
        QueryAction::Fail(kind, message) => {
            assert_eq!(kind, ErrorKind::Parse);
            assert!(message.starts_with("translation error: REPLACE INTO"));
        }
        other => panic!("{other:?}"),
    }
}

#[test]
fn results_update_the_session() {
    let mut s = session();
    let mut cache = TranslationCache::new();
    assert!(matches!(
        s.on_result("INSERT INTO t VALUES (1)", Ok(captured_result(1, 42))),
        Reply::Result(r) if r.last_insert_id == 42
    ));
    s.on_result("DELETE FROM t", Ok(affected_result(3)));
    assert_eq!(value(s.on_query("SELECT LAST_INSERT_ID()", &mut cache)), "42");
    assert_eq!(s.on_reset(), 42);
    s.on_result("BEGIN", Ok(affected_result(0)));
    assert!(s.in_transaction);
    s.on_result("ROLLBACK TO SAVEPOINT a", Ok(affected_result(0)));
    assert!(s.in_transaction);
    s.on_result("COMMIT", Ok(affected_result(0)));
    assert!(!s.in_transaction);
    s.on_result("BEGIN; UPDATE t SET a = 1; COMMIT", Ok(affected_result(1)));
    assert!(!s.in_transaction);
    s.on_result("UPDATE t SET a = '; COMMIT'; START TRANSACTION", Ok(affected_result(1)));
    assert!(s.in_transaction);
    s.on_result("UPDATE t SET a = '; COMMIT'", Ok(affected_result(1)));
    assert!(s.in_transaction);
    s.on_result("UPDATE t SET a = 1; COMMIT", Ok(affected_result(1)));
    assert!(!s.in_transaction);
    let err = MiddlewareError::Execution("statement failed: [23505] duplicate".to_string());
    match s.on_result("INSERT INTO t VALUES (1)", Err(err)) {
        Reply::Error(kind, message) => {
            assert_eq!(kind, ErrorKind::DuplicateEntry);
            assert_eq!(message, "execution error: statement failed: [23505] duplicate");
        }
        other => panic!("{other:?}"),
    }
}

#[test]
fn prepared_statements_run_as_they_were_prepared() {
    let mut s = session();
    let mut cache = TranslationCache::new();
    let id = match s.on_prepare("SELECT `a` FROM t WHERE b = ? AND c = ?", &mut cache) {
        PrepareAction::Reply(id, params, columns) => {
            assert_eq!(params, 2);
            assert_eq!(columns, vec!["a"]);
            id
        }
        other => panic!("{other:?}"),
    };
    assert_eq!(id, 1);
    let params = vec![RawParam::Int(-1), RawParam::Bytes(b"x".to_vec())];
    match s.on_execute(id, &params) {
        ExecuteAction::Run(schema, sql, bound) => {
            assert!(schema.is_none());
            assert_eq!(sql, "SELECT \"a\" FROM t WHERE b = $1 AND c = $2");
            assert!(matches!(&bound[0], PgParam::Text(v) if v == "-1"));
            assert_eq!(bound.len(), 2);
        }
        other => panic!("{other:?}"),
    }
    match s.on_execute(id, &vec![RawParam::Null]) {
        ExecuteAction::Fail(kind, message) => {
            assert_eq!(kind, ErrorKind::Parse);
            assert_eq!(message, "prepared statement parameter count mismatch: expected 2, got 1");
        }
        other => panic!("{other:?}"),
    }
    let rows = rows_result(vec!["A".to_string()], vec![], vec![]);
    assert!(matches!(s.on_statement_result(id, Ok(rows)), Reply::Result(r) if r.columns == vec!["a"]));
    s.on_close(id);
    match s.on_execute(id, &params) {
        ExecuteAction::Fail(kind, message) => {
            assert_eq!(kind, ErrorKind::UnknownStatement);
            assert_eq!(message, "unknown prepared statement id");
        }
        other => panic!("{other:?}"),
    }
}

#[test]
fn columns_that_cannot_be_inferred_are_described() {
    let mut s = session();
    let mut cache = TranslationCache::new();
    let pending = match s.on_prepare("SELECT * FROM t", &mut cache) {
        PrepareAction::Describe(schema, pending) => {
            assert!(schema.is_none());
            assert_eq!(pending.postgres_sql, "SELECT * FROM t");
            pending
        }
        other => panic!("{other:?}"),
    };
    match s.on_described(pending, Some(vec!["a".to_string(), "b".to_string()])) {
        PrepareAction::Reply(1, 0, columns) => assert_eq!(columns, vec!["a", "b"]),
        other => panic!("{other:?}"),
    }
}

#[test]
fn several_statements_without_parameters_run_one_by_one() {
    let mut s = session();
    let mut cache = TranslationCache::new();
    let action = s.on_prepare("CREATE TABLE t (a INT, KEY k (a))", &mut cache);
    let id = match action {
        PrepareAction::Describe(_, pending) => match s.on_described(pending, None) {
            PrepareAction::Reply(id, _, _) => id,
            other => panic!("{other:?}"),
        },
        other => panic!("{other:?}"),
    };
    match s.on_execute(id, &vec![]) {
        ExecuteAction::RunAll(_, statements) => assert_eq!(
            statements,
            vec!["CREATE TABLE \"t\" (\"a\" INTEGER)", "CREATE INDEX \"t_k\" ON \"t\" (\"a\")"]
        ),
        other => panic!("{other:?}"),
    }
    assert_eq!(split_statements(" a ; ;b"), vec!["a", "b"]);
}

#[test]
fn a_missing_option_table_is_an_empty_answer() {
    let message = "execution error: query failed: [42P01] relation \"matomo_option\" does not exist";
    let result = compat_empty_result_for_missing_matomo_option(
        "SELECT option_value FROM `matomo_option`",
        "SELECT option_value FROM \"matomo_option\"",
        message,
    )
    .unwrap();
    assert_eq!(result.columns, vec!["option_value"]);
    assert!(compat_empty_result_for_missing_matomo_option(
        "SELECT a FROM t",
        "SELECT a FROM \"t\"",
        message
    )
    .is_none());
    assert!(compat_empty_result_for_missing_matomo_option(
        "INSERT INTO `option` VALUES (1)",
        "INSERT INTO \"option\" VALUES (1)",
        message
    )
    .is_none());
}

#[test]
fn errors_take_their_mysql_numbers() {
    let kind = |code: &str| mysql_error_kind_for_message(&format!("statement failed: [{code}] x"));
    assert_eq!(kind("23505"), ErrorKind::DuplicateEntry);
    assert_eq!(kind("42P01"), ErrorKind::NoSuchTable);
    assert_eq!(kind("42703"), ErrorKind::BadField);
    assert_eq!(kind("23502"), ErrorKind::BadNull);
    assert_eq!(kind("42P16"), ErrorKind::MultiplePrimaryKey);
    assert_eq!(kind("42P07"), ErrorKind::TableExists);
    assert_eq!(kind("42701"), ErrorKind::DuplicateField);
    assert_eq!(kind("40P01"), ErrorKind::Deadlock);
    assert_eq!(kind("99999"), ErrorKind::Unknown);
}

#[test]
fn names_and_levels_are_read_from_statements() {
    assert_eq!(parse_create_database_name("create database `a` CHARACTER SET utf8").as_deref(), Some("a"));
    assert_eq!(parse_drop_database_name("DROP DATABASE IF EXISTS \"b\";").as_deref(), Some("b"));
    assert_eq!(parse_create_database_name("CREATE DATABASE"), None);
    assert_eq!(parse_use_database("use a").as_deref(), Some("a"));
    assert_eq!(parse_use_database("USED a"), None);
    assert_eq!(parse_kill_connection_id("kill 7"), Some(7));
    assert_eq!(parse_kill_connection_id("KILL x"), None);
    assert_eq!(normalize_transaction_isolation("repeatable   read"), "REPEATABLE-READ");
    assert_eq!(parse_set_sql_mode_value("SET sql_mode='A,B';"), "A,B");
    assert_eq!(parse_set_sql_mode_value("SET sql_mode"), "");
    assert!(sql_mode_is_ansi("STRICT_TRANS_TABLES,ANSI_QUOTES"));
    assert!(!sql_mode_is_ansi("STRICT_TRANS_TABLES"));
    assert_eq!(active_schema_name(&Some(" ".to_string())), None);
    assert_eq!(active_schema_name(&Some("a".to_string())).as_deref(), Some("a"));
}

#[test]
fn default_collations_belong_to_their_character_sets() {
    assert_eq!(default_mysql_collation_for_charset("utf8"), Some("utf8_general_ci"));
    assert_eq!(default_mysql_collation_for_charset("utf8mb4"), Some("utf8mb4_general_ci"));
    assert_eq!(default_mysql_collation_for_charset("latin1"), None);
    assert_eq!(
        apply_set_names("SET NAMES utf8mb4 COLLATE 'utf8mb4_unicode_ci'").unwrap(),
        ("utf8mb4".to_string(), "utf8mb4_unicode_ci".to_string())
    );
}

#[test]
fn placeholders_are_numbered_outside_quotes_and_comments() {
    assert_eq!(
        rewrite_prepare_placeholders_for_postgres("SELECT '?', ? -- ?\n, ? /* ? */ FROM `?`").unwrap(),
        "SELECT '?', $1 -- ?\n, $2 /* ? */ FROM `?`"
    );
    assert_eq!(rewrite_prepare_placeholders_for_postgres("SELECT 1").unwrap(), "SELECT 1");
}

#[test]
fn markers_are_turned_back_into_placeholders() {
    let sql = "SELECT ? FROM t WHERE a IN (?, ?, ?, ?, ?, ?, ?, ?, ?, ?) AND b = '__mw' LIMIT ?";
    let marked = replace_prepare_params_with_string_literals(sql);
    assert!(marked.starts_with("SELECT '__mw_prepare_param_1__' FROM"));
    assert!(marked.ends_with("LIMIT '__mw_prepare_param_12__'"));
    assert_eq!(restore_prepare_param_markers(&marked), sql);
    assert_eq!(prepare_param_marker(3), "__mw_prepare_param_3__");
}

#[test]
fn parameters_are_decoded_by_their_type() {
    let text = |param: RawParam| match decode_mysql_param(&param) {
        Ok(PgParam::Text(v)) => v,
        other => panic!("{other:?}"),
    };
    assert!(matches!(decode_mysql_param(&RawParam::Null), Ok(PgParam::Null)));
    assert_eq!(text(RawParam::Int(-5)), "-5");
    assert_eq!(text(RawParam::UInt(u64::MAX)), "18446744073709551615");
    assert_eq!(text(RawParam::Number("1.5".to_string())), "1.5");
    assert_eq!(text(RawParam::Date(vec![0xe8, 0x07, 2, 9])), "2024-02-09");
    assert_eq!(
        text(RawParam::Datetime(vec![0xe8, 0x07, 2, 9, 1, 2, 3])),
        "2024-02-09 01:02:03"
    );
    assert_eq!(decode_mysql_date_literal(&vec![0xe8, 0x07, 2, 9]).unwrap(), "2024-02-09");
    assert!(decode_mysql_date_literal(&vec![1]).is_err());
    assert!(decode_mysql_datetime_literal(&vec![1]).is_err());
    assert!(matches!(
        decode_mysql_params(&vec![RawParam::Null, RawParam::Date(vec![1])]),
        Err(MiddlewareError::Translation(_)) | Err(MiddlewareError::Execution(_)) | Err(MiddlewareError::Parse(_))
    ));
    assert_eq!(decode_mysql_params(&vec![RawParam::Null, RawParam::Int(1)]).unwrap().len(), 2);
}
