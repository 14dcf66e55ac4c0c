use mysql2pg_middleware::config::{default_driver, TranslatorConfig};
use mysql2pg_middleware::error::MiddlewareError;
use mysql2pg_middleware::passes::{reject_unsupported, rewrite_limit_offset_count};
use mysql2pg_middleware::prepass::{inline_session_variable_expressions, replace_session_variable_references};
use mysql2pg_middleware::quoting::{
    decode_mysql_copy_escape, normalize_mysql_double_quoted_string_literals, quote_copy_literal, quote_ident,
    replace_backticks, requote_backticked_names, sql_string_literal,
};
use mysql2pg_middleware::ranking::rewrite_mysql_ranking_query;
use mysql2pg_middleware::scan::{
    find_matching_paren, mask_quoted_sql_fragments, rewrite_boolean_literals, split_sql_csv,
};
use mysql2pg_middleware::translator::translate_sql;
use mysql2pg_middleware::types::implicit_default_of;

fn translated(sql: &str) -> String {
    translate_sql(sql, &TranslatorConfig::default()).unwrap().translated_sql
}

fn refused(sql: &str) -> String {
    translate_sql(sql, &TranslatorConfig::default()).unwrap_err().to_string()
}

#[test]
fn identifiers_are_quoted_with_their_quotes_doubled() {
    assert_eq!(quote_ident("a\"b"), "\"a\"\"b\"");
    assert_eq!(quote_ident(""), "\"\"");
}

#[test]
fn string_literals_double_their_quotes() {
    assert_eq!(sql_string_literal("it's"), "'it''s'");
    assert_eq!(sql_string_literal(""), "''");
}

#[test]
fn backticks_around_names_become_double_quotes() {
    assert_eq!(replace_backticks("SELECT `a` FROM `t`"), "SELECT \"a\" FROM \"t\"");
    assert_eq!(replace_backticks("SELECT 1"), "SELECT 1");
    assert_eq!(translated("SELECT `a``b` FROM `t`"), "SELECT \"a\"\"b\" FROM \"t\"");
    assert!(!translated("SELECT `a`, IF(`b`, 'x`y', 1), INSTR(`c`, '`') FROM `t` LIMIT 1, 2").contains('`'));
}

#[test]
fn double_quoted_text_is_a_string_unless_the_mode_is_ansi() {
    let sql = "SELECT * FROM t WHERE a = \"x\"";
    assert_eq!(
        normalize_mysql_double_quoted_string_literals(sql, false),
        "SELECT * FROM t WHERE a = 'x'"
    );
    assert_eq!(translated(sql), "SELECT * FROM t WHERE a = 'x'");
    let mut cfg = TranslatorConfig::default();
    cfg.ansi_quotes = true;
    assert_eq!(translate_sql(sql, &cfg).unwrap().translated_sql, sql);
    let odd = "SELECT \"a\"\"b\", \"c`d\", 'e`f' FROM \"t\"";
    assert_eq!(translate_sql(odd, &cfg).unwrap().translated_sql, odd);
    assert_eq!(
        requote_backticked_names("SELECT `a`, `b``c`, \"d`e\", 'f`' FROM `g\"h`"),
        "SELECT \"a\", \"b`c\", \"d`e\", 'f`' FROM \"g\"\"h\""
    );
}

#[test]
fn copy_literals_escape_what_they_hold() {
    assert_eq!(quote_copy_literal(","), "E','");
    assert_eq!(decode_mysql_copy_escape("\\t"), "\t");
}

#[test]
fn masking_keeps_every_position() {
    let sql = "SELECT 'a, b' FROM `t` -- REPLACE INTO";
    let masked = mask_quoted_sql_fragments(sql);
    assert_eq!(masked.chars().count(), sql.chars().count());
    assert!(!masked.contains("a, b"));
    assert!(masked.starts_with("SELECT "));
}

#[test]
fn lists_split_at_their_outer_commas() {
    assert_eq!(split_sql_csv("a, f(b, c), 'd, e'").unwrap(), vec!["a", "f(b, c)", "'d, e'"]);
    let parts = split_sql_csv(" a ,f(b, c),'d, e' ").unwrap();
    assert_eq!(split_sql_csv(&parts.join(", ")).unwrap(), parts);
    assert_eq!(
        split_sql_csv("a, , b").unwrap_err().to_string(),
        "translation error: unexpected empty CSV segment while translating SQL"
    );
    assert_eq!(
        split_sql_csv("a, ").unwrap_err().to_string(),
        "translation error: unexpected empty trailing CSV segment while translating SQL"
    );
}

#[test]
fn parentheses_match_outside_quotes() {
    let chars: Vec<char> = "(a ')' (b))".chars().collect();
    assert_eq!(find_matching_paren(&chars, 0), Some(10));
    let open: Vec<char> = "(a ')'".chars().collect();
    assert_eq!(find_matching_paren(&open, 0), None);
}

#[test]
fn boolean_literals_are_written_in_capitals_outside_quotes() {
    assert_eq!(
        rewrite_boolean_literals("SELECT true, 'true', `false`, untrue FROM t WHERE a = false"),
        "SELECT TRUE, 'true', `false`, untrue FROM t WHERE a = FALSE"
    );
}

#[test]
fn limits_with_an_offset_are_turned_around() {
    let mut warnings = Vec::new();
    assert_eq!(
        rewrite_limit_offset_count("SELECT 1 LIMIT 5, 10", &mut warnings),
        "SELECT 1 LIMIT 10 OFFSET 5"
    );
    assert_eq!(
        warnings,
        vec!["rewrote MySQL LIMIT offset,count to PostgreSQL LIMIT count OFFSET offset"]
    );
    assert_eq!(rewrite_limit_offset_count("SELECT 1 LIMIT 10", &mut warnings), "SELECT 1 LIMIT 10");
    assert_eq!(warnings.len(), 1);
}

#[test]
fn a_pass_that_is_switched_off_leaves_its_text() {
    let mut cfg = TranslatorConfig::default();
    cfg.rewrite_limit_comma = false;
    cfg.rewrite_mysql_functions = false;
    cfg.rewrite_json_operators = false;
    let result = translate_sql("SELECT IFNULL(a, 1), JSON_EXTRACT(c, '$.a') FROM t", &cfg).unwrap();
    assert_eq!(result.translated_sql, "SELECT IFNULL(a, 1), JSON_EXTRACT(c, '$.a') FROM t");
    assert!(result.warnings.is_empty());
}

#[test]
fn unsupported_features_are_refused_by_name() {
    let expect = |sql: &str, message: &str| match reject_unsupported(sql) {
        Err(MiddlewareError::Translation(m)) => assert_eq!(m, message),
        other => panic!("{sql}: {other:?}"),
    };
    expect(
        "REPLACE INTO t VALUES (1)",
        "REPLACE INTO is MySQL-specific; use INSERT ... ON CONFLICT in PostgreSQL",
    );
    expect(
        "INSERT INTO t VALUES (1) ON DUPLICATE KEY UPDATE a = 1",
        "ON DUPLICATE KEY UPDATE needs table/key-specific ON CONFLICT translation",
    );
    expect("SELECT SQL_CALC_FOUND_ROWS 1", "SQL_CALC_FOUND_ROWS is not supported in PostgreSQL");
    expect("SELECT STRAIGHT_JOIN 1", "STRAIGHT_JOIN is MySQL-specific");
    expect(
        "SELECT 1 LOCK IN SHARE MODE",
        "LOCK IN SHARE MODE is MySQL-specific; use FOR SHARE in PostgreSQL when applicable",
    );
    expect(
        "x AUTO_INCREMENT",
        "AUTO_INCREMENT in DDL requires SERIAL/IDENTITY-aware transformation not yet implemented",
    );
    expect("x UNSIGNED", "UNSIGNED numeric types need schema-aware conversion in PostgreSQL");
}

#[test]
fn what_stands_in_quotes_is_never_refused() {
    assert!(reject_unsupported("SELECT 'REPLACE INTO t', \"x UNSIGNED\"").is_ok());
    assert_eq!(translated("SELECT 'REPLACE INTO t'"), "SELECT 'REPLACE INTO t'");
}

#[test]
fn a_refused_statement_says_why() {
    assert_eq!(
        refused("REPLACE INTO t (a) VALUES (1)"),
        "translation error: REPLACE INTO is MySQL-specific; use INSERT ... ON CONFLICT in PostgreSQL"
    );
    assert_eq!(
        refused("SELECT FROM WHERE"),
        "parse error: sql parser error: Expected an expression, found: FROM at Line: 1, Column: 13"
    );
    assert_eq!(refused(";"), "translation error: no statements were parsed");
    assert_eq!(
        refused("CREATE TABLE t LIKE u"),
        "translation error: complex CREATE TABLE variants are not yet supported for PostgreSQL translation"
    );
    assert_eq!(
        refused("CREATE TABLE t (a INT, FULLTEXT KEY ft (a))"),
        "translation error: MySQL FULLTEXT/SPATIAL constraint `ft` is not supported in PostgreSQL translation"
    );
    assert_eq!(
        refused("CREATE TABLE t (a INT, INDEX ix USING HASH (a))"),
        "translation error: MySQL inline KEY/INDEX `ix` USING HASH is not supported yet"
    );
    assert_eq!(
        refused("SHOW CREATE FUNCTION f"),
        "translation error: SHOW CREATE FUNCTION is not supported yet"
    );
}

#[test]
fn every_error_names_its_kind() {
    assert_eq!(MiddlewareError::Config("x".to_string()).to_string(), "configuration error: x");
    assert_eq!(MiddlewareError::Parse("x".to_string()).to_string(), "parse error: x");
    assert_eq!(MiddlewareError::Translation("x".to_string()).to_string(), "translation error: x");
    assert_eq!(MiddlewareError::Execution("x".to_string()).to_string(), "execution error: x");
}

#[test]
fn a_translation_carries_the_text_that_came_in() {
    let sql = "  select  `a`  from t  ";
    let result = translate_sql(sql, &TranslatorConfig::default()).unwrap();
    assert_eq!(result.original_sql, sql);
    assert_eq!(result.canonical_mysql_sql, "SELECT `a` FROM t");
    assert_eq!(result.translated_sql, "SELECT \"a\" FROM t");
}

#[test]
fn several_statements_are_translated_in_order() {
    assert_eq!(translated("SELECT `a`; SELECT `b`"), "SELECT \"a\"; SELECT \"b\"");
}

#[test]
fn constraints_keep_their_parts() {
    assert_eq!(
        translated(
            "CREATE TABLE t (a INT, b INT, CONSTRAINT fk FOREIGN KEY (a) REFERENCES u (id) \
             MATCH FULL ON DELETE CASCADE ON UPDATE SET NULL)"
        ),
        "CREATE TABLE \"t\" (\"a\" INTEGER, \"b\" INTEGER, CONSTRAINT \"fk\" FOREIGN KEY (\"a\") \
         REFERENCES \"u\" (\"id\") MATCH FULL ON DELETE CASCADE ON UPDATE SET NULL)"
    );
    assert_eq!(
        translated("CREATE TABLE t (a INT, CONSTRAINT fk FOREIGN KEY (a) REFERENCES u (id) DEFERRABLE INITIALLY DEFERRED)"),
        "CREATE TABLE \"t\" (\"a\" INTEGER, CONSTRAINT \"fk\" FOREIGN KEY (\"a\") REFERENCES \"u\" (\"id\") \
         DEFERRABLE INITIALLY DEFERRED)"
    );
    assert_eq!(
        translated("CREATE TABLE t (a INT, UNIQUE NULLS NOT DISTINCT (a))"),
        "CREATE TABLE \"t\" (\"a\" INTEGER, UNIQUE NULLS NOT DISTINCT (\"a\"))"
    );
}

#[test]
fn unsigned_columns_keep_their_range_by_a_constraint() {
    assert_eq!(
        translated(
            "CREATE TABLE t (a TINYINT UNSIGNED, b SMALLINT UNSIGNED, c MEDIUMINT UNSIGNED, d INT UNSIGNED, \
             e DECIMAL(10,2) UNSIGNED, f FLOAT UNSIGNED)"
        ),
        "CREATE TABLE \"t\" (\"a\" SMALLINT, \"b\" INTEGER, \"c\" INTEGER, \"d\" BIGINT, \"e\" NUMERIC(10,2), \
         \"f\" REAL, CHECK (a >= 0 AND a <= 255), CHECK (b >= 0 AND b <= 65535), CHECK (c >= 0 AND c <= 16777215), \
         CHECK (d >= 0 AND d <= 4294967295), CHECK (e >= 0), CHECK (f >= 0))"
    );
}

#[test]
fn columns_are_mapped_with_what_is_said_about_them() {
    let result = translate_sql(
        "CREATE TABLE t (id BIGINT UNSIGNED NOT NULL AUTO_INCREMENT PRIMARY KEY, k ENUM('a','b'), s SET('x','y'), \
         j JSON, d DATETIME) ENGINE=InnoDB",
        &TranslatorConfig::default(),
    )
    .unwrap();
    assert_eq!(
        result.translated_sql,
        "CREATE TABLE \"t\" (\"id\" BIGINT NOT NULL PRIMARY KEY GENERATED BY DEFAULT AS IDENTITY, \"k\" TEXT, \
         \"s\" TEXT, \"j\" JSONB, \"d\" TIMESTAMP, CHECK (k IN ('a', 'b')))"
    );
    assert!(result
        .warnings
        .contains(&"rewrote AUTO_INCREMENT on column `id` to PostgreSQL identity".to_string()));
    assert!(result
        .warnings
        .contains(&"mapped MySQL SET column `s` to TEXT; membership semantics are not preserved".to_string()));
}

#[test]
fn inline_keys_become_statements_of_their_own() {
    assert_eq!(
        translated("CREATE TABLE t (a INT, b INT, PRIMARY KEY (b), UNIQUE KEY u (a), KEY k (a, b))"),
        "CREATE TABLE \"t\" (\"a\" INTEGER, \"b\" INTEGER, PRIMARY KEY (\"b\"), UNIQUE (\"a\")); \
         CREATE INDEX \"t_k\" ON \"t\" (\"a\", \"b\")"
    );
}

#[test]
fn alterations_are_rendered_one_by_one() {
    assert_eq!(
        translated("ALTER TABLE t ADD COLUMN c INT NOT NULL, DROP COLUMN d"),
        "ALTER TABLE \"t\" ADD COLUMN \"c\" INTEGER NOT NULL DEFAULT 0, DROP COLUMN d"
    );
    assert_eq!(translated("ALTER TABLE t RENAME COLUMN a TO b"), "ALTER TABLE \"t\" RENAME COLUMN a TO b");
    assert_eq!(
        translated("ALTER TABLE t ADD CONSTRAINT c CHECK (a > 1)"),
        "ALTER TABLE \"t\" ADD CONSTRAINT \"c\" CHECK (a > 1)"
    );
    assert_eq!(translated("RENAME TABLE a TO b"), "ALTER TABLE \"a\" RENAME TO \"b\"");
}

#[test]
fn implicit_defaults_are_those_of_mysql() {
    assert_eq!(implicit_default_of("INTEGER"), Some("0"));
    assert_eq!(implicit_default_of("NUMERIC(10,2)"), Some("0"));
    assert_eq!(implicit_default_of("BOOLEAN"), Some("FALSE"));
    assert_eq!(implicit_default_of("VARCHAR(10)"), Some("''"));
    assert_eq!(implicit_default_of("TIMESTAMP"), None);
}

#[test]
fn ungrouped_columns_are_wrapped_and_grouped_ones_kept() {
    assert_eq!(
        translated("SELECT a, b, COUNT(*) FROM t GROUP BY a"),
        "SELECT a, MIN(b) AS b, COUNT(*) FROM t GROUP BY a"
    );
    assert_eq!(translated("SELECT a, b FROM t"), "SELECT a, b FROM t");
    assert_eq!(
        translated("SELECT a, COUNT(*) FROM t GROUP BY a"),
        "SELECT a, COUNT(*) FROM t GROUP BY a"
    );
}

#[test]
fn aliases_keep_their_spelling() {
    assert_eq!(
        translated("SELECT total FROM (SELECT b AS Total FROM t) x ORDER BY total"),
        "SELECT \"Total\" FROM (SELECT b AS \"Total\" FROM t) x ORDER BY \"Total\""
    );
}

#[test]
fn columns_of_using_are_no_aliases() {
    assert_eq!(
        translated(
            "SELECT x.Id FROM (SELECT a AS Id FROM t) x WHERE EXISTS (SELECT 1 FROM u JOIN v USING (id))"
        ),
        "SELECT x.Id FROM (SELECT a AS \"Id\" FROM t) x WHERE EXISTS (SELECT 1 FROM u JOIN v USING(id))"
    );
}

#[test]
fn rollups_hints_and_temporary_tables_are_rewritten() {
    assert_eq!(
        translated("SELECT a, SUM(b) FROM t GROUP BY a WITH ROLLUP"),
        "SELECT a, SUM(b) FROM t GROUP BY ROLLUP(a)"
    );
    assert_eq!(translated("SET STATEMENT max_statement_time=5 FOR SELECT 1"), "SELECT 1");
    assert_eq!(translated("DROP TEMPORARY TABLE t"), "DROP TABLE t");
}

#[test]
fn upserts_and_ignored_duplicates_become_conflict_clauses() {
    assert_eq!(
        translated("INSERT INTO t (a, b) VALUES (1, 2) ON DUPLICATE KEY UPDATE b = 3"),
        "INSERT INTO \"t\" (\"a\", \"b\") VALUES (1, 2) ON CONFLICT (\"a\") DO UPDATE SET \"b\" = 3"
    );
    assert_eq!(
        translated("INSERT IGNORE INTO t (a) VALUES (1)"),
        "INSERT INTO t (a) VALUES (1) ON CONFLICT DO NOTHING"
    );
}

#[test]
fn functions_and_literals_take_their_postgresql_form() {
    assert_eq!(
        translated("SELECT JSON_EXTRACT(c, '$.a.b') FROM t"),
        "SELECT c #>> '{a,b}' FROM t"
    );
    assert_eq!(translated("SELECT x'4142' FROM t"), "SELECT decode('4142', 'hex') FROM t");
    assert_eq!(
        translated("SELECT GROUP_CONCAT(a ORDER BY b SEPARATOR ';') FROM t"),
        "SELECT string_agg(CAST(a AS text), ';' ORDER BY b) FROM t"
    );
    assert_eq!(
        translated("UPDATE t SET a = IF(b > 1, 'x', 2)"),
        "UPDATE t SET a = (CASE WHEN b > 1 THEN 'x' ELSE 2 END)"
    );
}

#[test]
fn load_data_becomes_copy() {
    assert_eq!(
        translated("LOAD DATA INFILE '/tmp/a.csv' INTO TABLE t FIELDS TERMINATED BY ','"),
        "COPY \"t\" FROM '/tmp/a.csv' WITH (FORMAT csv, DELIMITER E',', NULL '\\\\N', HEADER FALSE)"
    );
}

#[test]
fn statements_without_assignments_keep_their_text() {
    let sql = "SELECT @a, b FROM t";
    assert_eq!(inline_session_variable_expressions(sql), (sql.to_string(), false));
    assert_eq!(rewrite_mysql_ranking_query(sql), (sql.to_string(), false));
}

#[test]
fn references_to_a_variable_stop_at_letters_of_any_script() {
    assert_eq!(
        replace_session_variable_references("@a + @ab + @a\u{e9} + @a", "a", "1"),
        "1 + @ab + @a\u{e9} + 1"
    );
    assert_eq!(replace_session_variable_references("@a9 @a_ @a. @a:=1 @a", "a", "1"), "@a9 @a_ 1. @a:=1 1");
}

#[test]
fn the_default_configuration_rewrites_everything_but_quotes() {
    let cfg = TranslatorConfig::default();
    assert!(cfg.rewrite_limit_comma && cfg.normalize_mysql_backticks && cfg.normalize_boolean_literals);
    assert!(cfg.rewrite_mysql_functions && cfg.rewrite_json_operators && cfg.strip_mysql_table_options);
    assert!(!cfg.ansi_quotes);
    assert_eq!(default_driver(), "tokio-postgres");
}
