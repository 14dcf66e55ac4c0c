use mysql2pg_middleware::config::TranslatorConfig;
use mysql2pg_middleware::frontend::{
    canned_response_for_query, collation_matches_charset, dynamic_canned_response_for_query,
    infer_prepare_result_columns, infer_result_columns, is_compat_noop_query, normalize_mysql_charset,
    normalize_mysql_collation,
};
use mysql2pg_middleware::params::{
    count_prepare_placeholders, decode_mysql_time_literal, rewrite_prepare_placeholders_for_postgres,
    translate_preparable_sql,
};

#[test]
fn translate_preparable_show_variables_like_param() {
    let result =
        translate_preparable_sql("SHOW VARIABLES LIKE ?", &TranslatorConfig::default()).unwrap();
    assert!(result.translated_sql.contains("\"Variable_name\" LIKE ?"));
}

#[test]
fn translate_preparable_show_tables_like_param() {
    let result =
        translate_preparable_sql("SHOW TABLES LIKE ?", &TranslatorConfig::default()).unwrap();
    assert!(result.translated_sql.contains("table_name LIKE ?"));
}

#[test]
fn infer_columns_for_simple_select_prepare() {
    let columns = infer_result_columns("SELECT option_value FROM `matomo_option` WHERE option_name = ?");
    assert_eq!(columns, vec!["option_value".to_string()]);
}

#[test]
fn infer_columns_for_show_variables_prepare() {
    let columns = infer_prepare_result_columns(
        "SHOW VARIABLES LIKE 'character_set_database'",
        "SELECT * FROM something",
    );
    assert_eq!(columns, vec!["Variable_name".to_string(), "Value".to_string()]);
}

#[test]
fn infer_columns_for_show_charset_prepare() {
    let columns = infer_prepare_result_columns(
        "SHOW CHARACTER SET LIKE 'utf8mb4'",
        "SELECT * FROM something",
    );
    assert_eq!(
        columns,
        vec![
            "Charset".to_string(),
            "Description".to_string(),
            "Default collation".to_string(),
            "Maxlen".to_string()
        ]
    );
}

#[test]
fn infer_columns_for_show_index_prepare() {
    let columns = infer_prepare_result_columns(
        "SHOW INDEX FROM `log_visit` WHERE Key_name = ?",
        "SELECT * FROM something",
    );
    assert_eq!(
        columns,
        vec![
            "Table".to_string(),
            "Non_unique".to_string(),
            "Key_name".to_string(),
            "Seq_in_index".to_string(),
            "Column_name".to_string(),
            "Collation".to_string(),
            "Cardinality".to_string(),
            "Sub_part".to_string(),
            "Packed".to_string(),
            "Null".to_string(),
            "Index_type".to_string(),
            "Comment".to_string(),
            "Index_comment".to_string(),
            "Visible".to_string(),
            "Expression".to_string(),
        ]
    );
}

#[test]
fn count_placeholders_ignores_literals_and_comments() {
    let sql = "SELECT '?', col FROM t WHERE a = ? AND b = \"?\" /* ? */ -- ?\n AND c = ?";
    assert_eq!(count_prepare_placeholders(sql), 2);
}

#[test]
fn rewrite_prepare_placeholders_for_postgres_ignores_literals_and_comments() {
    let sql = "SELECT '?', col FROM t WHERE a = ? AND note = \"?\" /* ? */ -- ?\n AND c = ?";
    let rewritten = rewrite_prepare_placeholders_for_postgres(sql).unwrap();
    assert_eq!(
        rewritten,
        "SELECT '?', col FROM t WHERE a = $1 AND note = \"?\" /* ? */ -- ?\n AND c = $2"
    );
}

#[test]
fn decode_mysql_time_parameter_to_text() {
    let rendered = decode_mysql_time_literal(&vec![0, 1, 0, 0, 0, 2, 3, 4]).unwrap();
    assert_eq!(rendered, "26:03:04");
}

#[test]
fn mysql_session_compat_noops_cover_wait_timeout() {
    assert!(is_compat_noop_query("SET wait_timeout=28800"));
    assert!(is_compat_noop_query("SET SESSION group_concat_max_len=131072"));
    assert!(is_compat_noop_query("SET @@innodb_lock_wait_timeout = 3"));
}

#[test]
fn canned_response_supports_select_session_sql_mode() {
    let (columns, rows) = canned_response_for_query("SELECT @@SESSION.sql_mode").unwrap();
    assert_eq!(columns, vec!["SELECT @@SESSION.sql_mode".to_string()]);
    assert_eq!(rows, vec![vec!["NO_AUTO_VALUE_ON_ZERO".to_string()]]);
}

#[test]
fn dynamic_canned_response_supports_aliased_sql_mode_selects() {
    let (columns, rows) = dynamic_canned_response_for_query(
        10,
        Some("latest_stable"),
        "utf8mb4_general_ci",
        "NO_AUTO_VALUE_ON_ZERO",
        "REPEATABLE-READ",
        "SELECT @@sql_mode AS sql_mode",
    )
    .unwrap();
    assert_eq!(columns, vec!["sql_mode".to_string()]);
    assert_eq!(rows, vec![vec!["NO_AUTO_VALUE_ON_ZERO".to_string()]]);

    let (columns, rows) = dynamic_canned_response_for_query(
        10,
        Some("latest_stable"),
        "utf8mb4_general_ci",
        "ANSI_QUOTES",
        "REPEATABLE-READ",
        "SELECT @@SESSION.sql_mode",
    )
    .unwrap();
    assert_eq!(columns, vec!["@@SESSION.sql_mode".to_string()]);
    assert_eq!(rows, vec![vec!["ANSI_QUOTES".to_string()]]);
}

#[test]
fn dynamic_canned_response_preserves_system_variable_column_case() {
    let (columns, rows) = dynamic_canned_response_for_query(
        10,
        Some("latest_stable"),
        "utf8mb4_general_ci",
        "NO_AUTO_VALUE_ON_ZERO",
        "REPEATABLE-READ",
        "SELECT @@VERSION",
    )
    .unwrap();

    assert_eq!(columns, vec!["@@VERSION".to_string()]);
    assert_eq!(rows, vec![vec!["11.8.7-MariaDB-ubu2404".to_string()]]);
}

#[test]
fn set_sql_mode_variants_are_session_compat_queries() {
    assert!(is_compat_noop_query("SET SESSION sql_mode = 'ANSI_QUOTES'"));
    assert!(is_compat_noop_query("SET @@sql_mode = ''"));
    assert!(is_compat_noop_query(
        "SET @@SESSION.sql_mode = 'NO_AUTO_VALUE_ON_ZERO'"
    ));
}

#[test]
fn charset_style_collation_values_map_to_mysql_defaults() {
    assert_eq!(normalize_mysql_charset("utf8mb3"), "utf8");
    assert_eq!(
        normalize_mysql_collation("utf8", "utf8").unwrap(),
        "utf8_general_ci"
    );
    assert_eq!(
        normalize_mysql_collation("utf8mb4", "utf8").unwrap(),
        "utf8mb4_general_ci"
    );
    assert_eq!(
        normalize_mysql_collation("utf8mb4", "DEFAULT").unwrap(),
        "utf8mb4_general_ci"
    );
    assert!(collation_matches_charset("utf8", "utf8_general_ci"));
    assert!(collation_matches_charset("utf8mb4", "utf8mb4_general_ci"));
}
