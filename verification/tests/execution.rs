use std::sync::Arc;

use mysql2pg_middleware::cache::TranslationCache;
use mysql2pg_middleware::cli::{print_result, print_translation, read_input, Input};
use mysql2pg_middleware::compat::{compat_function_names, compat_function_sql};
use mysql2pg_middleware::config::{AppConfig, PostgresConfig, ServerConfig, TranslatorConfig};
use mysql2pg_middleware::error::MiddlewareError;
use mysql2pg_middleware::execution::{keeps_selection, Action, Event, Execution, Mode};
use mysql2pg_middleware::executor::{
    affected_result, build_executor, can_be_counted, captured_result, connection_string_for_config, create_schema_statement,
    drop_schema_statement, find_last_insert_id_update_target, format_pg_error, plan_statement, plan_with_identity,
    rows_result, search_path_statement, statement_returns_rows, summed_result, text_round_trip, value_to_string,
    wire_type, wrap_insert_returning_sql, ColumnKind, ColumnValue, Date, DbFailure, FieldValue, PgParam, Step, Time,
    WireType,
};
use mysql2pg_middleware::parser::{is_writable, parse_mysql_sql, parse_postgres_sql};
use mysql2pg_middleware::repair::{
    insert_column_with_value, missing_compat_function_name, mysql_implicit_default_literal,
    repair_on_conflict_target, repairs_under_savepoint, Repair, RepairAction, MAX_COMPAT_REPAIR_ATTEMPTS,
};
use mysql2pg_middleware::scan::split_sql_statements;
use mysql2pg_middleware::server::{execute, health, translate, AppState, HttpReply, SqlRequest};
use mysql2pg_middleware::translator::translate_sql;
use mysql2pg_middleware::tree::{Field, Node};

fn failure(code: &str, message: &str) -> DbFailure {
    DbFailure {
        code: code.to_string(),
        message: message.to_string(),
        detail: None,
        hint: None,
        schema: None,
        table: None,
        column: None,
        constraint: None,
    }
}

fn config(driver: &str) -> AppConfig {
    AppConfig {
        server: ServerConfig {
            bind_addr: "127.0.0.1:8080".to_string(),
            mysql_bind_addr: "127.0.0.1:3306".to_string(),
        },
        postgres: PostgresConfig {
            driver: driver.to_string(),
            connection_string: "host=db".to_string(),
        },
        translator: TranslatorConfig::default(),
    }
}

#[test]
fn values_round_trip_as_bytes() {
    let value = FieldValue::from_bytes(vec![0, 255, 65]);
    assert_eq!(value.as_bytes(), &[0, 255, 65]);
    assert_eq!(value.to_lossy_string(), "\u{0}\u{fffd}A");
    assert_eq!(FieldValue::from_text("\u{e9}".to_string()).as_bytes(), &[0xc3, 0xa9]);
    assert_eq!(text_round_trip("gr\u{fc}n".to_string()), "gr\u{fc}n");
}

#[test]
fn null_stays_apart_from_the_empty_string() {
    assert!(value_to_string(&ColumnValue::Null).is_none());
    assert_eq!(value_to_string(&ColumnValue::Text(String::new())).unwrap().as_bytes(), b"");
}

#[test]
fn values_are_rendered_as_mysql_writes_them() {
    let text = |value: ColumnValue| value_to_string(&value).unwrap().to_lossy_string();
    let date = Date { year: 2024, month: 2, day: 9 };
    let time = Time { hour: 1, minute: 2, second: 3 };
    assert_eq!(text(ColumnValue::Bool(true)), "1");
    assert_eq!(text(ColumnValue::Bool(false)), "0");
    assert_eq!(text(ColumnValue::Int(-42)), "-42");
    assert_eq!(text(ColumnValue::Int(i64::MIN)), "-9223372036854775808");
    assert_eq!(text(ColumnValue::Timestamp(date, time)), "2024-02-09 01:02:03");
    assert_eq!(text(ColumnValue::Date(date)), "2024-02-09");
    assert_eq!(text(ColumnValue::Time(time)), "01:02:03");
    assert_eq!(text(ColumnValue::Date(Date { year: 12024, month: 1, day: 1 })), "+12024-01-01");
    assert_eq!(text(ColumnValue::Date(Date { year: -5, month: 1, day: 1 })), "-0005-01-01");
    assert_eq!(text(ColumnValue::Bytes(vec![65, 66])), "AB");
    assert_eq!(text(ColumnValue::Unknown), "<unrendered>");
}

#[test]
fn numbers_are_announced_as_numbers() {
    assert_eq!(wire_type(ColumnKind::Bool), WireType::Integer);
    assert_eq!(wire_type(ColumnKind::Int2), WireType::Integer);
    assert_eq!(wire_type(ColumnKind::Float8), WireType::Float);
    assert_eq!(wire_type(ColumnKind::Numeric), WireType::Text);
    assert_eq!(wire_type(ColumnKind::Timestamp), WireType::Text);
}

#[test]
fn parameters_are_encoded_for_their_target() {
    assert!(PgParam::Null.encode(false).unwrap().bytes.is_none());
    let text = PgParam::Text("\u{e9}".to_string()).encode(true).unwrap();
    assert!(!text.binary);
    assert_eq!(text.bytes, Some(vec![0xc3, 0xa9]));
    match PgParam::Bytes(vec![0xff]).encode(false) {
        Err(MiddlewareError::Execution(m)) => {
            assert_eq!(m, "a parameter that is not valid UTF-8 cannot be sent as text")
        }
        other => panic!("{other:?}"),
    }
}

#[test]
fn only_the_known_driver_is_accepted() {
    assert_eq!(connection_string_for_config(&config("tokio-postgres")).unwrap(), "host=db");
    assert_eq!(build_executor(&config("tokio-postgres")).unwrap().connection_string, "host=db");
    let message = "configuration error: unsupported postgres driver `sqlx`; currently supported: tokio-postgres";
    assert_eq!(build_executor(&config("sqlx")).unwrap_err().to_string(), message);
    assert_eq!(connection_string_for_config(&config("sqlx")).unwrap_err().to_string(), message);
}

#[test]
fn schemas_are_quoted_in_statements() {
    assert_eq!(
        search_path_statement(&Some("a\"b".to_string())),
        Some("SET search_path TO \"a\"\"b\", public".to_string())
    );
    assert_eq!(search_path_statement(&Some("  ".to_string())), None);
    assert_eq!(search_path_statement(&None), None);
    assert_eq!(create_schema_statement("s"), "CREATE SCHEMA IF NOT EXISTS \"s\"");
    assert_eq!(drop_schema_statement("s"), "DROP SCHEMA IF EXISTS \"s\" CASCADE");
}

#[test]
fn database_errors_are_written_with_their_parts() {
    let mut err = failure("23505", "duplicate key");
    assert_eq!(format_pg_error(&err), "[23505] duplicate key");
    err.detail = Some("d".to_string());
    err.hint = Some("h".to_string());
    err.schema = Some("s".to_string());
    err.table = Some("t".to_string());
    err.column = Some("c".to_string());
    err.constraint = Some("k".to_string());
    assert_eq!(
        format_pg_error(&err),
        "[23505] duplicate key | detail: d | hint: h | schema: s | table: t | column: c | constraint: k"
    );
}

#[test]
fn statements_are_planned_by_their_kind() {
    assert!(statement_returns_rows("  select 1"));
    assert!(statement_returns_rows("WITH x AS (SELECT 1) SELECT 1"));
    assert!(!statement_returns_rows("UPDATE t SET a = 1"));
    assert!(statement_returns_rows("values ('gr\u{fc}n')"));
    assert!(statement_returns_rows("\u{17f}elect 1"));
    assert!(!statement_returns_rows("\u{fc}select 1"));
    assert!(matches!(plan_statement("SELECT 1", true), Step::Query));
    assert!(matches!(plan_statement("INSERT INTO t (a) VALUES (1)", false), Step::LookUpIdentity(t) if t == "t"));
    assert!(matches!(plan_statement("DELETE FROM t", false), Step::Run));
    let insert = "INSERT INTO t (a) VALUES (1)";
    assert!(matches!(
        plan_with_identity(insert, &Some("id".to_string())),
        Step::Capture(sql) if sql == wrap_insert_returning_sql(insert, "id")
    ));
    assert!(matches!(plan_with_identity(insert, &None), Step::Run));
    let update = "UPDATE s SET v = LAST_INSERT_ID(v + 1)";
    let wrapped = find_last_insert_id_update_target(update).unwrap().1;
    assert!(matches!(plan_statement(update, false), Step::Capture(sql) if sql == wrapped));
}

#[test]
fn inserts_report_their_ids() {
    assert_eq!(
        wrap_insert_returning_sql("INSERT INTO t (a) VALUES (1)", "id"),
        "WITH inserted_rows AS (INSERT INTO t (a) VALUES (1) RETURNING \"id\") \
         SELECT COUNT(*)::BIGINT AS __mw_row_count__, COALESCE(MAX(\"id\"), 0)::BIGINT AS __mw_last_insert_id__ \
         FROM inserted_rows"
    );
    let result = captured_result(2, 7);
    assert_eq!((result.row_count, result.last_insert_id), (2, 7));
    let result = captured_result(-1, -7);
    assert_eq!((result.row_count, result.last_insert_id), (0, 0));
}

#[test]
fn results_count_what_they_hold() {
    assert_eq!(affected_result(3).row_count, 3);
    assert_eq!(summed_result(&vec![1, 2, 3]).row_count, 6);
    assert_eq!(summed_result(&vec![]).row_count, 0);
    let result = rows_result(
        vec!["a".to_string()],
        vec![ColumnKind::Int4],
        vec![vec![None], vec![Some(FieldValue::from_text("1".to_string()))]],
    );
    assert_eq!(result.row_count, 2);
    assert_eq!(result.kinds, vec![ColumnKind::Int4]);
}

#[test]
fn every_missing_function_has_statements() {
    for name in compat_function_names() {
        assert!(compat_function_sql(name).unwrap().contains("CREATE OR REPLACE FUNCTION"));
    }
    assert!(compat_function_sql("nothing").is_none());
    let err = failure("42883", "Function CRC32(text) does not exist");
    assert_eq!(missing_compat_function_name(&err), Some("crc32"));
    let err = failure("42883", "FUNCTION CRC32(\u{dc}) does not exist");
    assert_eq!(missing_compat_function_name(&err), Some("crc32"));
    assert_eq!(missing_compat_function_name(&failure("42883", "function foo() does not exist")), None);
    assert_eq!(missing_compat_function_name(&failure("42P01", "function crc32(")), None);
}

#[test]
fn implicit_default_literals_follow_the_type() {
    assert_eq!(mysql_implicit_default_literal("character varying(10)"), Some("''"));
    assert_eq!(mysql_implicit_default_literal("BIGINT"), Some("0"));
    assert_eq!(mysql_implicit_default_literal("bytea"), Some("''::bytea"));
    assert_eq!(mysql_implicit_default_literal("timestamp without time zone"), None);
}

#[test]
fn a_column_is_supplied_in_every_tuple() {
    assert_eq!(
        insert_column_with_value(
            "INSERT INTO t (a) VALUES (1), ('x)') ON CONFLICT (a) DO NOTHING",
            "b",
            "0"
        ),
        Some("INSERT INTO t (a, \"b\") VALUES (1, 0), ('x)', 0) ON CONFLICT (a) DO NOTHING".to_string())
    );
    assert_eq!(insert_column_with_value("INSERT INTO t (a) SELECT 1", "b", "0"), None);
    assert_eq!(
        insert_column_with_value("INSERT INTO t (a) SELECT x FROM (VALUES (1)) v(x)", "b", "0"),
        None
    );
    assert_eq!(insert_column_with_value("DELETE FROM t", "b", "0"), None);
}

#[test]
fn conflicts_are_retargeted_at_the_primary_key() {
    assert_eq!(
        repair_on_conflict_target(
            "INSERT INTO t (a) VALUES (1) ON CONFLICT (\"a\") DO NOTHING",
            &vec!["id".to_string(), "$1".to_string()]
        ),
        Some("INSERT INTO t (a) VALUES (1) ON CONFLICT (\"id\", \"$1\") DO NOTHING".to_string())
    );
    assert_eq!(repair_on_conflict_target("INSERT INTO t (a) VALUES (1)", &vec!["id".to_string()]), None);
    assert_eq!(repair_on_conflict_target("x ON CONFLICT (a)", &vec![]), None);
}

#[test]
fn a_missing_function_is_created_and_the_statement_sent_again() {
    let mut repair = Repair::start("SELECT crc32('a')", false);
    let err = failure("42883", "function crc32(unknown) does not exist");
    assert!(matches!(repair.on_failure(&err), RepairAction::Install(name) if name == "crc32"));
    assert!(matches!(repair.on_installed(true, &err), RepairAction::Retry));
    assert!(matches!(repair.on_installed(false, &err), RepairAction::GiveUp));
    assert_eq!(repair.sql, "SELECT crc32('a')");
}

#[test]
fn a_wrong_conflict_target_is_looked_up() {
    let mut repair = Repair::start("INSERT INTO t (a) VALUES (1) ON CONFLICT (a) DO NOTHING", true);
    let err = failure("42P10", "no unique constraint");
    assert!(matches!(repair.on_failure(&err), RepairAction::LookUpKey(table) if table == "t"));
    assert!(matches!(repair.on_key_columns(&vec!["id".to_string()], &err), RepairAction::Retry));
    assert_eq!(repair.sql, "INSERT INTO t (a) VALUES (1) ON CONFLICT (\"id\") DO NOTHING");
    assert!(matches!(repair.on_key_columns(&vec![], &err), RepairAction::GiveUp));
}

#[test]
fn a_missing_value_is_supplied() {
    let mut repair = Repair::start("INSERT INTO t (a) VALUES (1)", true);
    let mut err = failure("23502", "null value");
    err.table = Some("t".to_string());
    err.column = Some("b".to_string());
    assert!(matches!(repair.on_failure(&err), RepairAction::LookUpType(t, c) if t == "t" && c == "b"));
    assert!(matches!(repair.on_column_type(&Some("date".to_string()), &err), RepairAction::GiveUp));
    assert!(matches!(repair.on_column_type(&None, &err), RepairAction::GiveUp));
    assert!(matches!(repair.on_column_type(&Some("text".to_string()), &err), RepairAction::Retry));
    assert_eq!(repair.sql, "INSERT INTO t (a, \"b\") VALUES (1, '')");
    let mut plain = Repair::start("INSERT INTO t (a) VALUES (1)", false);
    assert!(matches!(plain.on_failure(&err), RepairAction::GiveUp));
}

#[test]
fn values_of_another_type_are_cast_once() {
    let mut repair = Repair::start(
        "INSERT INTO \"t\" (\"a\", b) VALUES (1, '2') ON CONFLICT (\"a\") DO NOTHING",
        true,
    );
    let err = failure("42804", "column is of another type");
    match repair.on_failure(&err) {
        RepairAction::LookUpTypes(table, columns) => {
            assert_eq!(table, "t");
            assert_eq!(columns, vec!["a", "b"]);
        }
        other => panic!("{other:?}"),
    }
    let types = vec!["integer".to_string(), "text".to_string()];
    assert!(matches!(repair.on_column_types(&vec![]), RepairAction::GiveUp));
    assert!(matches!(repair.on_column_types(&types), RepairAction::Retry));
    assert_eq!(
        repair.sql,
        "INSERT INTO \"t\" (\"a\", b) SELECT CAST(coerced.\"a\" AS integer), CAST(coerced.b AS text) \
         FROM (VALUES (1, '2')) AS coerced (\"a\", b) ON CONFLICT (\"a\") DO NOTHING"
    );
    assert!(matches!(repair.on_column_types(&types), RepairAction::GiveUp));
}

#[test]
fn a_source_query_is_cast_up_to_its_tail() {
    let mut repair = Repair::start("INSERT INTO t (a) SELECT ' RETURNING ' FROM u RETURNING a", true);
    assert!(matches!(repair.on_column_types(&vec!["text".to_string()]), RepairAction::Retry));
    assert_eq!(
        repair.sql,
        "INSERT INTO t (a) SELECT CAST(coerced.a AS text) FROM (SELECT ' RETURNING ' FROM u) AS coerced (a) RETURNING a"
    );
}

#[test]
fn other_failures_and_too_many_failures_are_reported() {
    let mut repair = Repair::start("SELECT 1", true);
    assert!(matches!(repair.on_failure(&failure("42601", "syntax error")), RepairAction::GiveUp));
    let mut repair = Repair::start("SELECT crc32('a')", true);
    let err = failure("42883", "function crc32(unknown) does not exist");
    for _ in 0..MAX_COMPAT_REPAIR_ATTEMPTS {
        assert!(matches!(repair.on_failure(&err), RepairAction::Install(_)));
    }
    assert!(matches!(repair.on_failure(&err), RepairAction::GiveUp));
}

#[test]
fn statements_in_a_transaction_run_under_a_savepoint() {
    assert!(repairs_under_savepoint(true, "INSERT INTO t VALUES (1)"));
    assert!(!repairs_under_savepoint(false, "INSERT INTO t VALUES (1)"));
    assert!(!repairs_under_savepoint(true, "  commit"));
    assert!(!repairs_under_savepoint(true, "ROLLBACK TO SAVEPOINT a"));
    assert!(!repairs_under_savepoint(true, "UPDATE t SET a = ';'; COMMIT"));
    assert!(repairs_under_savepoint(true, "UPDATE t SET a = '; COMMIT'; DELETE FROM \"; COMMIT\""));
}

#[test]
fn a_savepoint_outside_a_transaction_is_done_without() {
    let start = || Execution::start(&None, &None, "DELETE FROM t", Mode::Text, true);
    let (run, action) = start();
    assert!(matches!(action, Action::Batch(s) if s == "SAVEPOINT mw_repair"));
    let (run, action) = run.on_event(Event::Refused(failure("25P01", "no transaction")));
    assert!(matches!(action, Action::Run(s) if s == "DELETE FROM t"));
    assert_eq!(finished(run.on_event(Event::Affected(vec![2])).1), Ok(2));
    let (_, action) = start().0.on_event(Event::Refused(failure("57P01", "going down")));
    assert!(finished(action).unwrap_err().contains("[57P01] going down"));
}

#[test]
fn statements_split_at_semicolons_outside_quotes() {
    assert_eq!(split_sql_statements("a; b"), vec!["a", " b"]);
    assert_eq!(split_sql_statements("'a;''b;'; \"c;\" ;"), vec!["'a;''b;'", " \"c;\" ", ""]);
    assert_eq!(split_sql_statements("a 'b; c"), vec!["a 'b; c"]);
    assert_eq!(split_sql_statements(""), vec![""]);
}

fn finished(action: Action) -> Result<u64, String> {
    match action {
        Action::Finish(Ok(result)) => Ok(result.row_count),
        Action::Finish(Err(err)) => Err(err.to_string()),
        other => panic!("{other:?}"),
    }
}

#[test]
fn an_insert_is_executed_step_by_step() {
    let sql = "INSERT INTO t (a) VALUES (1)";
    let (run, action) = Execution::start(&Some("shop".to_string()), &None, sql, Mode::Text, false);
    assert!(matches!(action, Action::Select(s) if s == "SET search_path TO \"shop\", public"));
    let (run, action) = run.on_event(Event::Done);
    assert!(matches!(action, Action::LookUpIdentity(t) if t == "t"));
    let (run, action) = run.on_event(Event::Identity(Some("id".to_string())));
    assert!(matches!(action, Action::Capture(s) if s == wrap_insert_returning_sql(sql, "id")));
    let (_, action) = run.on_event(Event::Captured(1, 7));
    assert_eq!(finished(action), Ok(1));
}

#[test]
fn a_bound_statement_is_prepared_first() {
    let (run, action) = Execution::start(&None, &None, "SELECT $1", Mode::Bound, false);
    assert!(matches!(action, Action::Prepare(s) if s == "SELECT $1"));
    let (run, action) = run.on_event(Event::Prepared(true));
    assert!(matches!(action, Action::Query(s) if s == "SELECT $1"));
    let (_, action) = run.on_event(Event::Refused(failure("42P01", "no table")));
    assert_eq!(finished(action), Err("execution error: query failed: [42P01] no table".to_string()));

    let (run, _) = Execution::start(&None, &None, "INSERT INTO t (a) VALUES ($1)", Mode::Bound, false);
    let (run, _) = run.on_event(Event::Prepared(false));
    let (run, action) = run.on_event(Event::Identity(Some("id".to_string())));
    assert!(matches!(action, Action::Prepare(s) if s.starts_with("WITH inserted_rows")));
    let (run, action) = run.on_event(Event::Prepared(true));
    assert!(matches!(action, Action::Capture(s) if s.starts_with("WITH inserted_rows")));
    let (_, action) = run.on_event(Event::Broken("gone".to_string()));
    assert_eq!(finished(action), Err("execution error: statement failed: gone".to_string()));
}

#[test]
fn a_refused_statement_in_a_transaction_is_undone_repaired_and_kept() {
    let (run, action) = Execution::start(&None, &None, "SELECT crc32('a')", Mode::Text, true);
    assert!(matches!(action, Action::Batch(s) if s == "SAVEPOINT mw_repair"));
    let (run, action) = run.on_event(Event::Done);
    assert!(matches!(action, Action::Query(_)));
    let (run, action) = run.on_event(Event::Refused(failure("42883", "function crc32(unknown) does not exist")));
    assert!(matches!(action, Action::Batch(s) if s == "ROLLBACK TO SAVEPOINT mw_repair"));
    let (run, action) = run.on_event(Event::Done);
    assert!(matches!(action, Action::Install(name) if name == "crc32"));
    let (run, action) = run.on_event(Event::Installed(true));
    assert!(matches!(action, Action::Batch(s) if s == "SAVEPOINT mw_repair"));
    let (run, _) = run.on_event(Event::Done);
    let (run, action) = run.on_event(Event::Rows(
        vec!["a".to_string()],
        vec![ColumnKind::Int8],
        vec![vec![None]; 5],
    ));
    assert!(matches!(action, Action::Batch(s) if s == "RELEASE SAVEPOINT mw_repair"));
    let (_, action) = run.on_event(Event::Done);
    assert_eq!(finished(action), Ok(5));
}

#[test]
fn a_repaired_statement_is_planned_anew() {
    let (run, _) = Execution::start(&None, &None, "INSERT INTO t (a) VALUES (1)", Mode::Text, false);
    let (run, action) = run.on_event(Event::Identity(None));
    assert!(matches!(action, Action::Run(_)));
    let mut err = failure("23502", "null value");
    err.table = Some("t".to_string());
    err.column = Some("b".to_string());
    let (run, action) = run.on_event(Event::Refused(err));
    assert!(matches!(action, Action::LookUpType(t, c) if t == "t" && c == "b"));
    let (run, action) = run.on_event(Event::Type(Some("integer".to_string())));
    assert!(matches!(action, Action::LookUpIdentity(t) if t == "t"));
    let (_, action) = run.on_event(Event::Identity(None));
    assert!(matches!(action, Action::Run(s) if s == "INSERT INTO t (a, \"b\") VALUES (1, 0)"));
}

#[test]
fn a_selected_schema_is_not_selected_again() {
    let shop = Some("shop".to_string());
    let (_, action) = Execution::start(&shop, &shop, "SELECT 1", Mode::Text, false);
    assert!(matches!(action, Action::Query(_)));
    let (run, action) = Execution::start(&shop, &Some("other".to_string()), "SELECT 1", Mode::Text, true);
    assert!(matches!(action, Action::Select(_)));
    let (run, action) = run.on_event(Event::Refused(failure("25P02", "current transaction is aborted")));
    assert!(matches!(action, Action::Query(_)));
    let (_, action) = run.on_event(Event::Refused(failure("25P02", "current transaction is aborted")));
    assert_eq!(
        finished(action),
        Err("execution error: query failed: [25P02] current transaction is aborted".to_string())
    );
    assert!(keeps_selection("SELECT 1"));
    assert!(!keeps_selection(" rollback"));
    assert!(!keeps_selection("COMMIT"));
    assert!(!keeps_selection("INSERT INTO t VALUES (1); ROLLBACK"));
    assert!(keeps_selection("INSERT INTO t VALUES ('; ROLLBACK'); SELECT 1"));
}

#[test]
fn results_have_the_shape_that_was_asked_for() {
    let columns = || vec!["a".to_string(), "b".to_string()];
    let kinds = || vec![ColumnKind::Text, ColumnKind::Int4];
    let (run, _) = Execution::start(&None, &None, "SELECT 1, 2", Mode::Text, false);
    match run.on_event(Event::Rows(columns(), kinds(), vec![])).1 {
        Action::Finish(Ok(r)) => assert_eq!((r.columns, r.row_count), (columns(), 0)),
        other => panic!("{other:?}"),
    }
    let (run, _) = Execution::start(&None, &None, "SELECT 1, 2", Mode::Text, false);
    assert_eq!(
        finished(run.on_event(Event::Rows(columns(), kinds(), vec![vec![None]])).1),
        Err("execution error: query failed: a row has not as many values as there are columns".to_string())
    );
    let (run, _) = Execution::start(&None, &None, "DELETE FROM t", Mode::Text, false);
    match run.on_event(Event::Affected(vec![1, 2])).1 {
        Action::Finish(Ok(r)) => {
            assert!(r.columns.is_empty() && r.rows.is_empty());
            assert_eq!(r.row_count, 3);
        }
        other => panic!("{other:?}"),
    }
    let (run, _) = Execution::start(&None, &None, "DELETE FROM t", Mode::Text, false);
    assert_eq!(
        finished(run.on_event(Event::Affected(vec![u64::MAX, 1])).1),
        Err("execution error: statement failed: too many affected rows to count".to_string())
    );
    let (run, _) = Execution::start(&None, &None, "DELETE FROM t", Mode::Text, false);
    assert!(finished(run.on_event(Event::Rows(vec![], vec![], vec![])).1).is_err());
    let (run, _) = Execution::start(&None, &None, "SELECT 1, 2", Mode::Describe, false);
    match run.on_event(Event::Columns(columns())).1 {
        Action::Finish(Ok(r)) => assert_eq!(r.columns, columns()),
        other => panic!("{other:?}"),
    }
    assert!(can_be_counted(&vec![1, 2]));
    assert!(!can_be_counted(&vec![u64::MAX, 1]));
}

#[test]
fn failures_say_what_failed() {
    let refused = || Event::Refused(failure("XX000", "x"));
    let (run, _) = Execution::start(&Some("s".to_string()), &None, "SELECT 1", Mode::Text, false);
    assert_eq!(
        finished(run.on_event(refused()).1),
        Err("execution error: failed to set schema: [XX000] x".to_string())
    );
    let (run, _) = Execution::start(&None, &None, "SELECT 1", Mode::Text, true);
    assert_eq!(
        finished(run.on_event(refused()).1),
        Err("execution error: savepoint failed: [XX000] x".to_string())
    );
    let (run, _) = Execution::start(&None, &None, "INSERT INTO t VALUES (1)", Mode::Text, false);
    assert_eq!(
        finished(run.on_event(refused()).1),
        Err("execution error: identity column lookup failed: [XX000] x".to_string())
    );
    let (run, _) = Execution::start(&None, &None, "DELETE FROM t", Mode::Text, false);
    assert_eq!(
        finished(run.on_event(refused()).1),
        Err("execution error: statement failed: [XX000] x".to_string())
    );
    let (run, _) = Execution::start(&None, &None, "SELECT 1", Mode::Bound, false);
    assert_eq!(
        finished(run.on_event(refused()).1),
        Err("execution error: statement preparation failed: [XX000] x".to_string())
    );
    let (run, _) = Execution::start(&None, &None, "SELECT 1", Mode::Describe, false);
    assert_eq!(
        finished(run.on_event(refused()).1),
        Err("execution error: query description failed: [XX000] x".to_string())
    );
    let (run, _) = Execution::start(&None, &None, "SELECT 1", Mode::DescribePrepared, false);
    assert_eq!(
        finished(run.on_event(refused()).1),
        Err("execution error: statement description failed: [XX000] x".to_string())
    );
    let (run, _) = Execution::start(&None, &None, "SELECT 1", Mode::Text, false);
    assert_eq!(
        finished(run.on_event(Event::Installed(true)).1),
        Err("execution error: an answer came that was not asked for".to_string())
    );
}

#[test]
fn an_execution_comes_to_its_end_whatever_is_answered() {
    let (mut run, mut action) = Execution::start(&None, &None, "SELECT crc32('a')", Mode::Text, true);
    let mut answers = 0;
    while !matches!(action, Action::Finish(_)) {
        let event = match action {
            Action::Query(_) => Event::Refused(failure("42883", "function crc32(unknown) does not exist")),
            Action::Install(_) => Event::Installed(true),
            _ => Event::Done,
        };
        (run, action) = run.on_event(event);
        answers += 1;
    }
    assert_eq!(
        finished(action),
        Err("execution error: query failed: [42883] function crc32(unknown) does not exist".to_string())
    );
    assert_eq!(answers, 4 * MAX_COMPAT_REPAIR_ATTEMPTS + 3);
}

#[test]
fn cached_translations_are_those_of_their_configuration() {
    let mut cache = TranslationCache::new();
    let plain = TranslatorConfig::default();
    let mut ansi = TranslatorConfig::default();
    ansi.ansi_quotes = true;
    let sql = "SELECT \"a\" FROM `t`";
    for _ in 0..2 {
        assert_eq!(cache.translate_sql(sql, &plain).unwrap().translated_sql, "SELECT 'a' FROM \"t\"");
        assert_eq!(cache.translate_sql(sql, &ansi).unwrap().translated_sql, "SELECT \"a\" FROM \"t\"");
        assert!(cache.translate_sql("SELECT FROM WHERE", &plain).is_err());
    }
}

#[test]
fn both_dialects_are_parsed() {
    assert_eq!(parse_mysql_sql("SELECT `a`; SELECT 2").unwrap().count(), 2);
    assert_eq!(parse_postgres_sql("SELECT \"a\" || 'b'").unwrap().count(), 1);
    assert!(matches!(parse_postgres_sql("SELECT ("), Err(MiddlewareError::Parse(_))));
    assert!(parse_mysql_sql("SELECT \"a\" || ?").is_ok());
    assert!(parse_postgres_sql("SELECT `a`").is_err());
}

#[test]
fn texts_that_stop_the_parser_are_refused() {
    let message = "parse error: the SQL parser does not support this statement";
    for sql in [
        "SELECT 1 DIV",
        "SELECT 4 div FROM t",
        "SELECT 4 DIV (2",
        "SELECT 4 DIV 2 DIV",
        "SELECT a DIV b.",
        "SELECT a DIV f(* + 1)",
        "SELECT a DIV ()",
        "FLUSH RELAY LOGS FOR CHANNEL",
        "FLUSH LOCAL RELAY /* x */ LOGS FOR CHANNEL a b",
        "SET AUTHORIZATION x",
        "SET authorization 'x'",
    ] {
        assert_eq!(parse_mysql_sql(sql).unwrap_err().to_string(), message);
        assert_eq!(
            translate_sql(sql, &TranslatorConfig::default()).unwrap_err().to_string(),
            message
        );
    }
    assert_eq!(parse_postgres_sql("SET AUTHORIZATION x").unwrap_err().to_string(), message);
    assert!(parse_mysql_sql("SELECT '1 DIV', `div` FROM t -- DIV").is_ok());
    assert!(parse_mysql_sql("UPDATE t SET authorization = 1").is_ok());
    assert!(parse_mysql_sql("FLUSH RELAY LOGS").is_ok());
    assert!(parse_mysql_sql("FLUSH LOCAL RELAY /* x */ LOGS FOR CHANNEL a").is_ok());
    for sql in [
        "SELECT 4 div 2",
        "SELECT a DIV (b + 1), c DIV -2 FROM t WHERE f(x.a, g()) DIV t.b = 1 AND d = ? ORDER BY e",
        "SELECT SUM(a) DIV COUNT(*), 100 DIV id FROM t GROUP BY b",
        "SELECT (a DIV b) FROM t; SELECT a DIV s.t.b DIV 'x'",
    ] {
        assert!(parse_mysql_sql(sql).is_ok());
        assert!(translate_sql(sql, &TranslatorConfig::default()).is_ok());
    }
    let deep = format!("SELECT {}a DIV b{}", "(".repeat(60), ")".repeat(60));
    assert_eq!(parse_mysql_sql(&deep).unwrap_err().to_string(), message);
    let dotted = format!("SELECT {}f(a DIV b)", "a.".repeat(60));
    assert_eq!(parse_mysql_sql(&dotted).unwrap_err().to_string(), message);
    assert!(parse_postgres_sql("SET SESSION AUTHORIZATION x").is_ok());
    assert!(parse_postgres_sql("SELECT div FROM t").is_ok());
}

#[test]
fn trees_that_cannot_be_written_are_told() {
    let ident = |quote: Node| {
        Node::Record(vec![
            Field { key: "value".to_string(), value: Node::Text("a".to_string()) },
            Field { key: "quote_style".to_string(), value: quote },
        ])
    };
    assert!(is_writable(&ident(Node::Null)));
    assert!(is_writable(&ident(Node::Text("'".to_string()))));
    assert!(!is_writable(&ident(Node::Text("x".to_string()))));
    assert!(!is_writable(&Node::List(vec![ident(Node::Text("x".to_string()))])));
    assert!(is_writable(&Node::List(vec![
        Node::Text("x".to_string()),
        Node::Text("y".to_string()),
        Node::Text("z".to_string()),
    ])));
    let record = |fields: Vec<(&str, Node)>| {
        Node::Record(fields.into_iter().map(|(k, value)| Field { key: k.to_string(), value }).collect())
    };
    let text = |s: &str| Node::Text(s.to_string());
    let table = |name: Node| {
        record(vec![(
            "body",
            record(vec![("Table", record(vec![("table_name", name), ("schema_name", Node::Null)]))]),
        )])
    };
    assert!(is_writable(&table(text("t"))));
    assert!(!is_writable(&table(Node::Null)));
    let limit = |limit: Node, by: Vec<Node>| {
        record(vec![(
            "LimitOffset",
            record(vec![("limit", limit), ("offset", Node::Null), ("limit_by", Node::List(by))]),
        )])
    };
    assert!(is_writable(&limit(Node::Null, vec![])));
    assert!(is_writable(&limit(text("1"), vec![text("a")])));
    assert!(!is_writable(&limit(Node::Null, vec![text("a")])));
    let statements = parse_mysql_sql("SELECT a AS 'b', INTERVAL 1 SECOND, `c` FROM t").unwrap();
    assert!(is_writable(&statements));
    assert!(matches!(parse_mysql_sql("SELECT ("), Err(MiddlewareError::Parse(_))));
}

#[test]
fn exactly_one_input_is_read() {
    let text = |s: &str| Some(s.to_string());
    assert!(matches!(read_input(text("a"), None), Ok(Input::Sql(s)) if s == "a"));
    assert!(matches!(read_input(None, text("f")), Ok(Input::File(f)) if f == "f"));
    assert_eq!(read_input(text("a"), text("f")).unwrap_err(), "provide either --sql or --file, not both");
    assert_eq!(read_input(None, None).unwrap_err(), "provide one of --sql or --file");
}

#[test]
fn results_are_shown_line_by_line() {
    let result = translate_sql("SELECT a FROM t LIMIT 1, 2", &TranslatorConfig::default()).unwrap();
    assert_eq!(
        print_translation(&result),
        "Original SQL:\nSELECT a FROM t LIMIT 1, 2\n\nCanonical MySQL AST render:\nSELECT a FROM t LIMIT 1, 2\n\n\
         Translated PostgreSQL SQL:\nSELECT a FROM t LIMIT 2 OFFSET 1\n\nWarnings:\n\
         - rewrote MySQL LIMIT offset,count to PostgreSQL LIMIT count OFFSET offset"
    );
    let rows = rows_result(
        vec!["a".to_string(), "b".to_string()],
        vec![],
        vec![vec![Some(FieldValue::from_text("1".to_string())), None]],
    );
    assert_eq!(print_result(&rows), "columns: a, b\n1 | NULL\nrows: 1");
    assert_eq!(print_result(&affected_result(4)), "rows: 4");
}

#[test]
fn requests_are_answered_by_their_outcome() {
    let state = AppState {
        config: Arc::new(config("tokio-postgres")),
        executor: Arc::new(build_executor(&config("tokio-postgres")).unwrap()),
    };
    let mut cache = TranslationCache::new();
    let health = health(&state);
    assert_eq!(health.status, "ok");
    assert_eq!(health.http_bind_addr, "127.0.0.1:8080");
    assert_eq!(health.mysql_bind_addr, "127.0.0.1:3306");
    let request = SqlRequest { sql: "SELECT `a`".to_string() };
    let translation = match translate(&state, &request, &mut cache) {
        HttpReply::Success(t) => t,
        _ => panic!("refused"),
    };
    assert_eq!(translation.translated_sql, "SELECT \"a\"");
    match translate(&state, &SqlRequest { sql: ";".to_string() }, &mut cache) {
        HttpReply::BadRequest(e) => assert_eq!(e.error, "translation error: no statements were parsed"),
        _ => panic!("accepted"),
    }
    match execute(translation.duplicate(), Ok(affected_result(1))) {
        HttpReply::Success(r) => assert_eq!(r.execution.row_count, 1),
        _ => panic!("refused"),
    }
    match execute(translation, Err(MiddlewareError::Execution("gone".to_string()))) {
        HttpReply::BadGateway(e) => assert_eq!(e.error, "execution error: gone"),
        _ => panic!("accepted"),
    }
}
