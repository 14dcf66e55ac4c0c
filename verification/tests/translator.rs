use mysql2pg_middleware::config::TranslatorConfig;
use mysql2pg_middleware::prepass::inline_session_variable_expressions;
use mysql2pg_middleware::ranking::rewrite_mysql_ranking_query;
use mysql2pg_middleware::translator::translate_sql;

#[test]
fn translates_limit_offset() {
    let result = translate_sql("SELECT * FROM users LIMIT 5, 10", &TranslatorConfig::default()).unwrap();
    assert_eq!(result.translated_sql, "SELECT * FROM users LIMIT 10 OFFSET 5");
}

#[test]
fn rewrites_common_functions() {
    let result = translate_sql(
        "SELECT IFNULL(name, 'x'), FROM_UNIXTIME(created_at), UNIX_TIMESTAMP(updated_at), RAND(), DATABASE() FROM users",
        &TranslatorConfig::default(),
    ).unwrap();
    assert!(result.translated_sql.contains("COALESCE(name, 'x')"));
    assert!(result.translated_sql.contains("TO_TIMESTAMP(created_at)"));
    assert!(result.translated_sql.contains("EXTRACT(EPOCH FROM updated_at)"));
    assert!(result.translated_sql.contains("RANDOM()"));
    assert!(result.translated_sql.contains("CURRENT_DATABASE()"));
}

#[test]
fn rewrites_ranking_query_counters_to_window_functions() {
    let sql = "SELECT CASE WHEN counter = 5 THEN '__others__' ELSE `idaction` END AS `idaction`, sum(`hits`) AS `hits` \
               FROM ( SELECT `idaction`, \
               CASE \
               WHEN `type` = 1 AND @counter1 = 5 THEN 5 \
               WHEN `type` = 1 THEN @counter1:=@counter1+1 \
               WHEN `type` = 2 AND @counter2 = 5 THEN 5 \
               WHEN `type` = 2 THEN @counter2:=@counter2+1 \
               ELSE 0 \
               END AS counter, `hits`, `type` \
               FROM ( SELECT @counter1:=0 ) initCounter1, ( SELECT @counter2:=0 ) initCounter2, \
               ( SELECT idaction, type, count(*) AS hits FROM log GROUP BY idaction ORDER BY `hits` DESC ) actualQuery \
               ) AS withCounter GROUP BY counter, `type`";
    let result = translate_sql(sql, &TranslatorConfig::default()).unwrap();

    assert!(!result.translated_sql.contains("@counter"));
    assert!(!result.translated_sql.contains("initCounter"));
    assert!(result.translated_sql.contains(
        "LEAST(ROW_NUMBER() OVER (PARTITION BY \"type\" ORDER BY \"hits\" DESC), 5)"
    ));
    // The overflow-label CASE must not mix a text literal with a numeric column.
    assert!(result.translated_sql.contains("CAST(\"idaction\" AS TEXT)"));
    assert!(result.warnings.iter().any(|w| w.contains("ranking-query")));
}

#[test]
fn relaxes_order_by_on_ungrouped_column_but_not_output_aliases() {
    let result = translate_sql(
        "SELECT idaction, MIN(log_action.name) AS name, count(*) AS `12` FROM log \
         GROUP BY idaction ORDER BY `12` DESC, log_action.name ASC",
        &TranslatorConfig::default(),
    )
    .unwrap();
    // `12` is a SELECT-list alias: PostgreSQL resolves it, so it must be left bare.
    assert!(result.translated_sql.contains("ORDER BY \"12\" DESC"));
    assert!(!result.translated_sql.contains("MIN(\"12\")"));
    // `log_action.name` is a source column that is neither grouped nor aggregated.
    assert!(result.translated_sql.contains("MIN(log_action.name) ASC"));
}

#[test]
fn window_order_by_uses_inner_output_alias_not_qualified_column() {
    // The window sits outside the subquery, where `log_action` is not in scope.
    let sql = "SELECT CASE WHEN counter = 5 THEN 'o' ELSE `idaction` END AS `idaction` \
               FROM ( SELECT `idaction`, \
               CASE WHEN `type` = 1 AND @counter1 = 5 THEN 5 \
               WHEN `type` = 1 THEN @counter1:=@counter1+1 ELSE 0 END AS counter, `type` \
               FROM ( SELECT @counter1:=0 ) initCounter1, \
               ( SELECT idaction, MIN(log_action.name) AS name, count(*) AS `20` FROM log \
                 GROUP BY idaction ORDER BY `20` DESC, log_action.name ASC ) actualQuery \
               ) AS withCounter GROUP BY counter, `type`";
    let result = translate_sql(sql, &TranslatorConfig::default()).unwrap();
    // The reference is quoted to match the subquery's (now quoted) alias.
    assert!(result.translated_sql.contains("ORDER BY \"20\" DESC, \"name\" ASC)"));
    assert!(!result.translated_sql.contains("OVER (PARTITION BY \"type\" ORDER BY \"20\" DESC, log_action.name"));
}

#[test]
fn leaves_unrecognized_counter_shapes_untouched() {
    // If any `@counter` survives the rewrite the statement is left alone, so it
    // fails loudly instead of silently producing wrong rankings.
    let sql = "SELECT x FROM ( SELECT @counterRollup:=0 ) initCounterRollup, \
               ( SELECT y, @counterRollup := @counterRollup + 99 FROM t ORDER BY y ) actualQuery";
    let (rewritten, changed) = rewrite_mysql_ranking_query(sql);
    assert!(!changed);
    assert_eq!(rewritten, sql);
}

#[test]
fn drops_temporary_keyword_from_drop_table() {
    let result = translate_sql(
        "DROP TEMPORARY TABLE IF EXISTS matomo_logtmpsegment123",
        &TranslatorConfig::default(),
    )
    .unwrap();
    assert_eq!(
        result.translated_sql.trim(),
        "DROP TABLE IF EXISTS matomo_logtmpsegment123"
    );
}

#[test]
fn preserves_alias_casing_so_clients_can_read_the_column_back() {
    // MySQL returns a column under the exact case of its alias; PostgreSQL folds
    // unquoted identifiers to lower case, so `$row['serverTimePretty']` misses.
    // Quoting the alias keeps the original spelling in the result set.
    let result = translate_sql(
        "SELECT log.server_time as serverTimePretty, count(*) as `2` FROM t GROUP BY x ORDER BY `2` DESC, `serverTimePretty`",
        &TranslatorConfig::default(),
    )
    .unwrap();
    assert!(result.translated_sql.contains("AS \"serverTimePretty\""));
    assert!(result.translated_sql.contains("ORDER BY \"2\" DESC, \"serverTimePretty\""));
}

#[test]
fn rewrites_case_mismatched_alias_references() {
    // MySQL is case-insensitive, so an app may spell a reference differently from
    // the alias; PostgreSQL would not resolve it once the alias is quoted.
    let result = translate_sql(
        "SELECT log.server_time as serverTimePretty FROM t ORDER BY servertimepretty",
        &TranslatorConfig::default(),
    )
    .unwrap();
    assert!(result.translated_sql.contains("ORDER BY \"serverTimePretty\""));
}

#[test]
fn does_not_rewrite_a_source_column_aliased_to_its_own_name_in_another_case() {
    // Matomo writes `idvisit AS idVisit`. Treating the projected `idvisit` as a
    // reference to the alias rewrites it to a column that does not exist.
    let result = translate_sql(
        "SELECT visit_first_action_time as serverTimePretty, idvisit AS idVisit FROM matomo_log_visit",
        &TranslatorConfig::default(),
    )
    .unwrap();
    assert!(result.translated_sql.contains("idvisit AS \"idVisit\""));
    assert!(!result.translated_sql.contains("\"idVisit\" AS \"idVisit\""));
}

#[test]
fn leaves_plain_column_references_that_match_an_alias_alone() {
    // `visits` here is a source column, not a reference to the alias; rewriting it
    // would risk pointing at a differently-cased identifier.
    let result = translate_sql(
        "SELECT sum(visits) AS visits FROM t GROUP BY idsite",
        &TranslatorConfig::default(),
    )
    .unwrap();
    assert!(result.translated_sql.contains("sum(visits)"));
    assert!(result.translated_sql.contains("AS \"visits\""));
}

#[test]
fn collapses_case_left_with_only_an_else_branch() {
    // The unpartitioned counter is often a CASE's only content; replacing it in
    // place would leave the invalid `CASE ELSE ... END`.
    let sql = "SELECT counter FROM ( SELECT \
               CASE WHEN @counter = 7 THEN 7 ELSE @counter:=@counter+1 END AS counter, x \
               FROM ( SELECT @counter:=0 ) initCounter, \
               ( SELECT x, count(*) AS `2` FROM t GROUP BY x ORDER BY `2` DESC ) actualQuery \
               ) AS withCounter GROUP BY counter";
    let result = translate_sql(sql, &TranslatorConfig::default()).unwrap();
    assert!(!result.translated_sql.to_uppercase().contains("CASE ELSE"));
    assert!(result
        .translated_sql
        .contains("LEAST(ROW_NUMBER() OVER (ORDER BY \"2\" DESC), 7) AS \"counter\""));
}

#[test]
fn rewrites_with_rollup_to_standard_rollup() {
    let result = translate_sql(
        "SELECT a, b, count(*) AS c FROM t GROUP BY a, b WITH ROLLUP",
        &TranslatorConfig::default(),
    )
    .unwrap();
    assert!(result.translated_sql.contains("GROUP BY ROLLUP(a, b)"));
    assert!(result.warnings.iter().any(|w| w.contains("WITH ROLLUP")));
}

#[test]
fn pairs_each_with_rollup_to_its_own_group_by() {
    // The outer GROUP BY has no ROLLUP; only the inner one must be rewritten.
    let result = translate_sql(
        "SELECT x FROM (SELECT a, b FROM t GROUP BY a, b WITH ROLLUP) s GROUP BY x",
        &TranslatorConfig::default(),
    )
    .unwrap();
    assert!(result.translated_sql.contains("GROUP BY ROLLUP(a, b)"));
    assert!(result.translated_sql.trim_end().ends_with("GROUP BY x"));
}

#[test]
fn does_not_aggregate_columns_grouped_via_rollup() {
    // ROLLUP's arguments are grouped columns, so they must not be wrapped in MIN().
    let result = translate_sql(
        "SELECT a, count(*) AS c FROM t GROUP BY a WITH ROLLUP",
        &TranslatorConfig::default(),
    )
    .unwrap();
    assert!(!result.translated_sql.contains("MIN(a)"));
}

#[test]
fn treats_group_by_alias_as_grouped() {
    let result = translate_sql(
        "SELECT COALESCE(name, '') AS action_name, count(*) AS c FROM t GROUP BY action_name",
        &TranslatorConfig::default(),
    )
    .unwrap();
    assert!(!result.translated_sql.contains("MIN(COALESCE"));
}

#[test]
fn rewrites_rollup_counter_to_partitioned_row_number() {
    let sql = "SELECT counter, counterRollup FROM ( SELECT \
               CASE WHEN `a` IS NULL THEN -1 WHEN `b` IS NULL THEN -1 \
               WHEN @counter = 500 THEN 500 ELSE @counter:=@counter+1 END AS counter, \
               CASE WHEN `a` IS NULL AND `b` IS NULL THEN -1 \
               WHEN `a` IS NULL AND @counterRollup = 500 THEN 500 \
               WHEN `a` IS NULL THEN @counterRollup := @counterRollup + 1 \
               WHEN `b` IS NULL AND @counterRollup = 500 THEN 500 \
               WHEN `b` IS NULL THEN @counterRollup := @counterRollup + 1 \
               ELSE 0 END AS counterRollup \
               FROM ( SELECT @counter:=0 ) initCounter, ( SELECT @counterRollup:=0 ) initCounterRollup, \
               ( SELECT a, b, count(*) AS `2` FROM t GROUP BY a, b ORDER BY `2` DESC ) actualQuery \
               ) AS withCounter GROUP BY counter, counterRollup";
    let result = translate_sql(sql, &TranslatorConfig::default()).unwrap();

    assert!(!result.translated_sql.contains("@counter"));
    // The rollup counter only advances on partial-rollup rows, so it is numbered
    // within its own row class.
    assert!(result.translated_sql.contains(
        "WHEN \"a\" IS NULL AND \"b\" IS NULL THEN 2 WHEN \"a\" IS NULL OR \"b\" IS NULL THEN 1 ELSE 0 END)"
    ));
    // The main counter skips rollup rows entirely, so it is numbered among the
    // detail rows only.
    assert!(result.translated_sql.contains(
        "PARTITION BY (CASE WHEN \"a\" IS NULL OR \"b\" IS NULL THEN 1 ELSE 0 END)"
    ));
}

#[test]
fn casts_boolean_projections_to_int_like_mysql() {
    // MySQL returns 1/0 for a comparison, and callers aggregate it numerically.
    let result = translate_sql(
        "SELECT MAX(search_count) = 0 AS `28` FROM log_link_visit_action",
        &TranslatorConfig::default(),
    )
    .unwrap();
    assert!(result.translated_sql.contains("CAST(MAX(search_count) = 0 AS INT)"));
}

#[test]
fn wraps_ungrouped_column_inside_case_expression() {
    let result = translate_sql(
        "SELECT CASE WHEN counter = 5 THEN 'others' ELSE name END AS name, counter FROM t GROUP BY counter",
        &TranslatorConfig::default(),
    )
    .unwrap();
    // `name` is ungrouped and not aggregated, so the whole CASE gets a MIN().
    assert!(result.translated_sql.contains("MIN(CASE"));
}

#[test]
fn does_not_wrap_expressions_that_already_aggregate() {
    let result = translate_sql(
        "SELECT idsite, sum(visits) AS visits FROM t GROUP BY idsite",
        &TranslatorConfig::default(),
    )
    .unwrap();
    assert!(!result.translated_sql.contains("MIN(sum"));
    assert!(result.translated_sql.contains("sum(visits)"));
}

#[test]
fn inlines_session_variables_used_within_one_expression() {
    // `(@v := expr)` names a sub-expression for reuse later in the same statement.
    // It carries no state between rows, so substituting the expression preserves
    // the meaning exactly.
    let result = translate_sql(
        "SELECT name FROM t ORDER BY CAST((CASE WHEN (@idsub := SUBSTRING(name, 20)) = '' THEN -1 ELSE @idsub END) AS SIGNED)",
        &TranslatorConfig::default(),
    )
    .unwrap();
    assert!(!result.translated_sql.contains("@idsub"));
    assert!(!result.translated_sql.contains(":="));
    assert_eq!(result.translated_sql.matches("SUBSTRING(name, 20)").count(), 2);
    assert!(result.warnings.iter().any(|w| w.contains("session-variable")));
}

#[test]
fn leaves_self_referential_counters_to_the_ranking_rewrite() {
    // An accumulator is not a named sub-expression; inlining it would be wrong.
    let (out, changed) = inline_session_variable_expressions(
        "SELECT (@counter := @counter + 1) FROM t",
    );
    assert!(!changed);
    assert!(out.contains("@counter := @counter + 1"));
}

#[test]
fn maps_mysql_cast_targets_onto_postgres_types() {
    for (mysql_target, expected) in [("SIGNED", "BIGINT"), ("UNSIGNED", "BIGINT"), ("CHAR", "TEXT")] {
        let result = translate_sql(
            &format!("SELECT CAST(x AS {mysql_target}) FROM t"),
            &TranslatorConfig::default(),
        )
        .unwrap();
        assert!(
            result.translated_sql.contains(&format!("AS {expected}")),
            "CAST(x AS {mysql_target}) should become {expected}, got {}",
            result.translated_sql
        );
    }
}

#[test]
fn rewrites_nested_if_calls_at_every_depth() {
    let result = translate_sql(
        "SELECT IF(a, IF(b, IF(c, 1, 2), 3), 4) FROM t",
        &TranslatorConfig::default(),
    )
    .unwrap();
    assert!(!result.translated_sql.contains("IF("));
    assert_eq!(result.translated_sql.matches("CASE WHEN").count(), 3);
}

#[test]
fn unifies_case_branches_mixing_text_and_numbers() {
    // MySQL returns a string here; PostgreSQL refuses to match the branch types.
    let result = translate_sql(
        "SELECT CASE WHEN x = '' THEN -1 ELSE SUBSTRING(x, 2) END FROM t",
        &TranslatorConfig::default(),
    )
    .unwrap();
    assert!(result.translated_sql.contains("CAST(-1 AS TEXT)"));
}

#[test]
fn unifies_branch_types_of_an_if_not_just_a_case() {
    // Matomo writes `CAST(IF(cond, -1, <text>) AS SIGNED)`. IF() has to become a
    // CASE before branch-type unification runs, or the mismatch reaches
    // PostgreSQL unchecked.
    let result = translate_sql(
        "SELECT CAST(IF(SUBSTRING(name, 2) = '', -1, SUBSTRING(name, 2)) AS SIGNED) FROM t",
        &TranslatorConfig::default(),
    )
    .unwrap();
    assert!(!result.translated_sql.contains("IF("));
    assert!(result.translated_sql.contains("CAST(-1 AS TEXT)"));
    assert!(result.translated_sql.contains("AS BIGINT"));
}

#[test]
fn leaves_purely_numeric_case_branches_alone() {
    let result = translate_sql(
        "SELECT CASE WHEN x = 1 THEN -1 ELSE qty END FROM t",
        &TranslatorConfig::default(),
    )
    .unwrap();
    assert!(!result.translated_sql.contains("AS TEXT"));
}

#[test]
fn strips_mariadb_max_statement_time_hint() {
    // The exact prefix Matomo's Piwik\Db\Schema\Mariadb class generates.
    let result = translate_sql(
        "SET STATEMENT max_statement_time=60 FOR SELECT * FROM matomo_log_visit WHERE idsite = 1",
        &TranslatorConfig::default(),
    )
    .unwrap();
    assert!(result.translated_sql.starts_with("SELECT * FROM"));
    assert!(!result.translated_sql.to_uppercase().contains("SET STATEMENT"));
    assert!(result.warnings.iter().any(|w| w.contains("max_statement_time")));
}

#[test]
fn rewrites_now_to_a_form_postgres_accepts_with_parens() {
    // PostgreSQL's CURRENT_TIMESTAMP is a bare keyword: CURRENT_TIMESTAMP() is a
    // syntax error there, unlike MySQL's NOW(). now() is PostgreSQL's callable
    // equivalent and must be used instead.
    let result = translate_sql(
        "UPDATE matomo_archive_invalidations SET ts_started = NOW() WHERE idinvalidation = 1",
        &TranslatorConfig::default(),
    )
    .unwrap();
    assert!(result.translated_sql.contains("now()"));
    assert!(!result.translated_sql.contains("CURRENT_TIMESTAMP()"));
}

#[test]
fn repeated_identical_sql_returns_the_same_translation_from_the_cache() {
    let cfg = TranslatorConfig::default();
    let sql = "SELECT IFNULL(name, 'x') FROM users WHERE id = 1";
    let first = translate_sql(sql, &cfg).unwrap();
    let second = translate_sql(sql, &cfg).unwrap();
    assert_eq!(first.translated_sql, second.translated_sql);
}

#[test]
fn same_sql_with_different_config_is_translated_independently() {
    let mut rewriting = TranslatorConfig::default();
    rewriting.rewrite_mysql_functions = true;
    let mut passthrough = TranslatorConfig::default();
    passthrough.rewrite_mysql_functions = false;

    let sql = "SELECT IFNULL(name, 'x') FROM users";
    let rewritten = translate_sql(sql, &rewriting).unwrap();
    let untouched = translate_sql(sql, &passthrough).unwrap();

    assert!(rewritten.translated_sql.contains("COALESCE"));
    assert!(untouched.translated_sql.contains("IFNULL"));
}

#[test]
fn wraps_ungrouped_plain_columns_to_satisfy_postgres_group_by() {
    let result = translate_sql(
        "SELECT idsite, date1, date2, period, name, report, COUNT(*) as `count` \
         FROM matomo_archive_invalidations \
         WHERE idsite IN (1) AND name LIKE 'done%' \
         GROUP BY idsite, date1, date2, period, name",
        &TranslatorConfig::default(),
    )
    .unwrap();
    // The wrap must keep the column's original, unaliased output name (`report`)
    // so that callers reading the result row by that key (e.g. Matomo's PHP code)
    // still find it there instead of under PostgreSQL's default `min` label.
    assert!(result.translated_sql.contains("MIN(report) AS report"));
    assert!(!result.translated_sql.contains("MIN(idsite)"));
    assert!(result.translated_sql.contains("COUNT(*)"));
    assert!(!result.translated_sql.contains("MIN(COUNT(*))"));
}

#[test]
fn does_not_touch_group_by_all_grouped_columns() {
    let result = translate_sql(
        "SELECT idsite, COUNT(*) FROM matomo_log_visit GROUP BY idsite",
        &TranslatorConfig::default(),
    )
    .unwrap();
    assert!(!result.translated_sql.contains("MIN("));
}

#[test]
fn leaves_string_literals_unchanged_when_normalizing_booleans() {
    let result = translate_sql("SELECT true, false, 'true', \"false_value\" FROM flags", &TranslatorConfig::default()).unwrap();
    assert!(result.translated_sql.contains("SELECT TRUE, FALSE, 'true', 'false_value' FROM flags"));
}

#[test]
fn simple_select_does_not_panic_during_boolean_normalization() {
    let result = translate_sql("select 1", &TranslatorConfig::default()).unwrap();
    assert_eq!(result.translated_sql, "SELECT 1");
}

#[test]
fn rewrites_mysql_create_table_for_postgres() {
    let sql = r#"
        CREATE TABLE IF NOT EXISTS order_details (
            order_id BIGINT UNSIGNED NOT NULL AUTO_INCREMENT,
            product_id INT UNSIGNED NOT NULL,
            customer_id INT UNSIGNED NOT NULL,
            quantity SMALLINT NOT NULL DEFAULT 1,
            price DECIMAL(10, 2) NOT NULL,
            discount DECIMAL(3, 2) DEFAULT 0.00,
            status ENUM('pending', 'shipped', 'delivered', 'cancelled') DEFAULT 'pending',
            created_at TIMESTAMP DEFAULT CURRENT_TIMESTAMP,
            updated_at TIMESTAMP DEFAULT CURRENT_TIMESTAMP ON UPDATE CURRENT_TIMESTAMP,
            PRIMARY KEY (order_id),
            UNIQUE KEY unique_order_prod (order_id, product_id),
            CONSTRAINT fk_product FOREIGN KEY (product_id) REFERENCES products(id) ON DELETE CASCADE,
            CONSTRAINT chk_quantity CHECK (quantity > 0)
        ) ENGINE=InnoDB DEFAULT CHARSET=utf8mb4 COLLATE=utf8mb4_unicode_ci
    "#;

    let result = translate_sql(sql, &TranslatorConfig::default()).unwrap();

    assert!(result.translated_sql.contains("CREATE TABLE IF NOT EXISTS \"order_details\""));
    assert!(result.translated_sql.contains("\"order_id\" BIGINT NOT NULL GENERATED BY DEFAULT AS IDENTITY"));
    assert!(result.translated_sql.contains("\"product_id\" BIGINT NOT NULL"));
    assert!(result.translated_sql.contains("\"customer_id\" BIGINT NOT NULL"));
    assert!(result.translated_sql.contains("\"status\" TEXT DEFAULT 'pending'"));
    assert!(result.translated_sql.contains("CHECK (status IN ('pending', 'shipped', 'delivered', 'cancelled'))"));
    assert!(result.translated_sql.contains("CHECK (product_id >= 0 AND product_id <= 4294967295)"));
    assert!(result.translated_sql.contains("CHECK (customer_id >= 0 AND customer_id <= 4294967295)"));
    assert!(!result.translated_sql.contains("AUTO_INCREMENT"));
    assert!(!result.translated_sql.contains("UNSIGNED"));
    assert!(!result.translated_sql.contains("ON UPDATE CURRENT_TIMESTAMP"));
    assert!(!result.translated_sql.contains("ENGINE = InnoDB"));
}

#[test]
fn rewrites_mysql_create_table_reserved_identifiers_for_postgres() {
    let result = translate_sql(
        "CREATE TABLE user (`group` INT, option_value TEXT, PRIMARY KEY (`group`))",
        &TranslatorConfig::default(),
    )
    .unwrap();

    assert!(result.translated_sql.contains("CREATE TABLE \"user\""));
    assert!(result.translated_sql.contains("\"group\" INTEGER"));
    assert!(result.translated_sql.contains("\"option_value\" TEXT"));
    assert!(result.translated_sql.contains("PRIMARY KEY (\"group\")"));
}
