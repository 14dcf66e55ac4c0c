//! SHOW and DESCRIBE as queries on PostgreSQL's catalog.
use vstd::prelude::*;

use crate::ddl::{translated_view, Translated};
use crate::error::{translation_error, Failure, MiddlewareError};
use crate::names::{name_parts, split_object_name};
use crate::parser::{
    expr_sql, object_name_sql, render_expr, render_object_name, render_show_create_object,
    render_show_parent, show, show_create_object_sql, show_parent_sql, shown,
};
use crate::quoting::{sql_string_literal, string_literal};
use crate::text::{cat2, cat3, cat4, cat6, cat7, cat8, opt_text, push_text, same, texts};
use crate::tree::{inner, is_true, is_unit, part, present, text_of, variant, Node, Tree};

verus! {

/// The columns of DESCRIBE. A column's type and default are given as MySQL writes them:
/// clients compare them with what they declared.
pub const DESCRIBE_COLUMNS: &'static str =
    "SELECT c.column_name AS \"Field\", CASE c.data_type WHEN 'integer' THEN 'int(11)' WHEN 'smallint' THEN 'smallint(6)' WHEN 'bigint' THEN 'bigint(20)' WHEN 'character varying' THEN 'varchar(' || c.character_maximum_length || ')' WHEN 'character' THEN 'char(' || c.character_maximum_length || ')' WHEN 'numeric' THEN COALESCE('decimal(' || c.numeric_precision || ',' || c.numeric_scale || ')', 'decimal') WHEN 'timestamp without time zone' THEN 'datetime' WHEN 'timestamp with time zone' THEN 'timestamp' WHEN 'text' THEN 'mediumtext' WHEN 'bytea' THEN 'longblob' WHEN 'real' THEN 'float' WHEN 'double precision' THEN 'double' WHEN 'jsonb' THEN 'json' ELSE pg_catalog.format_type(a.atttypid, a.atttypmod) END AS \"Type\", CASE WHEN c.is_nullable = 'YES' THEN 'YES' ELSE 'NO' END AS \"Null\", CASE WHEN EXISTS ( SELECT 1 FROM pg_constraint pc JOIN pg_attribute pa ON pa.attrelid = pc.conrelid AND pa.attnum = ANY(pc.conkey) WHERE pc.conrelid = cls.oid AND pa.attname = c.column_name AND pc.contype = 'p' ) THEN 'PRI' WHEN EXISTS ( SELECT 1 FROM pg_constraint pc JOIN pg_attribute pa ON pa.attrelid = pc.conrelid AND pa.attnum = ANY(pc.conkey) WHERE pc.conrelid = cls.oid AND pa.attname = c.column_name AND pc.contype = 'u' AND cardinality(pc.conkey) = 1 ) THEN 'UNI' WHEN EXISTS ( SELECT 1 FROM pg_index pi JOIN pg_attribute pa ON pa.attrelid = pi.indrelid AND pa.attnum = ANY(pi.indkey) WHERE pi.indrelid = cls.oid AND pa.attname = c.column_name ) OR EXISTS ( SELECT 1 FROM pg_constraint pc JOIN pg_attribute pa ON pa.attrelid = pc.conrelid AND pa.attnum = ANY(pc.conkey) WHERE pc.conrelid = cls.oid AND pa.attname = c.column_name AND pc.contype = 'f' ) THEN 'MUL' ELSE '' END AS \"Key\", regexp_replace(regexp_replace(c.column_default, '::[a-z ]+$', ''), '^''(.*)''$', '\\1') AS \"Default\", CASE WHEN c.is_identity = 'YES' THEN 'auto_increment' WHEN pg_get_expr(ad.adbin, ad.adrelid) LIKE 'nextval(%' THEN 'auto_increment' ELSE '' END";

pub const DESCRIBE_FROM: &'static str =
    "FROM information_schema.columns c JOIN pg_namespace ns ON ns.nspname = c.table_schema JOIN pg_class cls ON cls.relname = c.table_name AND cls.relnamespace = ns.oid JOIN pg_attribute a ON a.attrelid = cls.oid AND a.attname = c.column_name LEFT JOIN pg_attrdef ad ON ad.adrelid = cls.oid AND ad.adnum = a.attnum WHERE c.table_schema = ";

pub const DESCRIBE_TABLE: &'static str = " AND c.table_name = ";

pub const CREATE_TABLE_TARGET: &'static str =
    "WITH target AS ( SELECT c.oid, n.nspname AS schema_name, c.relname AS table_name FROM pg_class c JOIN pg_namespace n ON n.oid = c.relnamespace WHERE n.nspname = ";

pub const CREATE_TABLE_RELATION: &'static str = " AND c.relname = ";

pub const CREATE_TABLE_PIECES: &'static str =
    " AND c.relkind IN ('r','p') ), pieces AS ( SELECT a.attnum AS ord, format('  %I %s%s%s%s', a.attname, pg_catalog.format_type(a.atttypid, a.atttypmod), CASE a.attidentity WHEN 'a' THEN ' GENERATED ALWAYS AS IDENTITY' WHEN 'd' THEN ' GENERATED BY DEFAULT AS IDENTITY' ELSE '' END, CASE WHEN a.attnotnull THEN ' NOT NULL' ELSE '' END, CASE WHEN ad.adbin IS NOT NULL AND a.attidentity = '' THEN ' DEFAULT ' || pg_get_expr(ad.adbin, ad.adrelid) ELSE '' END ) AS line FROM target t JOIN pg_attribute a ON a.attrelid = t.oid LEFT JOIN pg_attrdef ad ON ad.adrelid = a.attrelid AND ad.adnum = a.attnum WHERE a.attnum > 0 AND NOT a.attisdropped UNION ALL SELECT 100000 + row_number() OVER (ORDER BY con.oid), CASE WHEN con.contype = 'p' THEN '  ' || pg_get_constraintdef(con.oid) ELSE format('  CONSTRAINT %I %s', con.conname, pg_get_constraintdef(con.oid)) END FROM target t JOIN pg_constraint con ON con.conrelid = t.oid ) SELECT ";

pub const CREATE_TABLE_TEXT: &'static str =
    " AS \"Table\", format('CREATE TABLE %I (\\n%s\\n)', (SELECT table_name FROM target), string_agg(line, E',\\n' ORDER BY ord)) AS \"Create Table\" FROM pieces";

pub const CREATE_VIEW_TEXT: &'static str =
    " AS \"View\", format('CREATE VIEW %I AS %s', c.relname, pg_get_viewdef(c.oid, true)) AS \"Create View\" FROM pg_class c JOIN pg_namespace n ON n.oid = c.relnamespace WHERE n.nspname = ";

pub const CREATE_VIEW_RELATION: &'static str = " AND c.relname = ";

pub const CREATE_VIEW_KIND: &'static str = " AND c.relkind = 'v'";

pub const FUNCTION_ROWS: &'static str =
    "SELECT routine_name AS \"Function\", routine_type AS \"Type\" FROM information_schema.routines WHERE routine_schema = current_schema() AND routine_type = 'FUNCTION'";

pub const COLLATION_ROWS: &'static str =
    "SELECT * FROM (VALUES ('utf8mb4_general_ci', 'utf8mb4', 45, 'Yes', 'Yes', 1), ('utf8mb4_unicode_ci', 'utf8mb4', 224, '', 'Yes', 8), ('utf8_general_ci', 'utf8', 33, '', 'Yes', 1), ('latin1_swedish_ci', 'latin1', 8, '', 'Yes', 1) ) AS collation_rows(\"Collation\", \"Charset\", \"Id\", \"Default\", \"Compiled\", \"Sortlen\")";

pub const CHARSET_ROWS: &'static str =
    "SELECT * FROM (VALUES ('utf8mb4', 'UTF-8 Unicode', 'utf8mb4_unicode_ci', 4), ('utf8', 'UTF-8 Unicode', 'utf8_general_ci', 3), ('latin1', 'cp1252 West European', 'latin1_swedish_ci', 1) ) AS charset_rows(\"Charset\", \"Description\", \"Default collation\", \"Maxlen\")";

pub const VARIABLE_ROWS: &'static str =
    "WITH vars AS ( SELECT * FROM (VALUES ('autocommit', 'ON'), ('character_set_client', 'utf8mb4'), ('character_set_connection', 'utf8mb4'), ('character_set_database', 'utf8mb4'), ('character_set_results', 'utf8mb4'), ('collation_connection', 'utf8mb4_unicode_ci'), ('collation_database', 'utf8mb4_unicode_ci'), ('lower_case_table_names', '0'), ('max_allowed_packet', '67108864'), ('secure_file_priv', NULL), ('sql_mode', 'NO_AUTO_VALUE_ON_ZERO'), ('system_time_zone', current_setting('TimeZone')), ('time_zone', current_setting('TimeZone')), ('transaction_isolation', current_setting('transaction_isolation')), ('tx_isolation', current_setting('transaction_isolation')), ('version', '11.8.7-MariaDB-ubu2404'), ('version_comment', 'MariaDB Server') ) AS v(\"Variable_name\", \"Value\") ) SELECT \"Variable_name\", \"Value\" FROM vars";

pub const STATUS_ROWS: &'static str =
    "WITH status_rows AS ( SELECT 'Connections'::text AS \"Variable_name\", COALESCE((SELECT sum(numbackends)::bigint::text FROM pg_stat_database), '0') AS \"Value\" UNION ALL SELECT 'Threads_connected', COALESCE((SELECT count(*)::text FROM pg_stat_activity WHERE datname = current_database()), '0') UNION ALL SELECT 'Threads_running', COALESCE((SELECT count(*)::text FROM pg_stat_activity WHERE datname = current_database() AND state = 'active'), '0') UNION ALL SELECT 'Uptime', extract(epoch FROM CURRENT_TIMESTAMP - pg_postmaster_start_time())::bigint::text ) SELECT \"Variable_name\", \"Value\" FROM status_rows";

/// The view of an optional text or an error.
pub open spec fn opt_text_or(r: Result<Option<String>, MiddlewareError>) -> Result<Option<Seq<char>>, Failure> {
    match r {
        Ok(o) => Ok(opt_text(o)),
        Err(e) => Err(e@),
    }
}

/// The filter of a SHOW statement, before or after its target.
pub open spec fn show_filter(options: Tree) -> Tree {
    let position = part(options, "filter_position"@);
    if variant(position) == "Infix"@ || variant(position) == "Suffix"@ {
        inner(position)
    } else {
        Tree::Null
    }
}

pub fn extract_show_filter<'a>(options: &'a Node, null: &'a Node) -> (r: &'a Node)
    requires
        null.tree() is Null,
    ensures
        r.tree() == show_filter(options.tree()),
{
    let position = options.part("filter_position", null);
    let name = position.variant();
    if same(name.as_str(), "Infix") || same(name.as_str(), "Suffix") {
        position.inner(null)
    } else {
        null
    }
}

/// A pattern between single quotes, its own quotes doubled.
pub open spec fn pattern_literal(filter: Tree) -> Seq<char> {
    string_literal(text_of(inner(filter)))
}

/// A LIKE filter on a field. A WHERE filter is refused.
pub open spec fn named_filter(filter: Tree, field: Seq<char>) -> Result<Option<Seq<char>>, Failure> {
    if !present(filter) {
        Ok(None)
    } else if variant(filter) == "Where"@ {
        Err(Failure::Translation("SHOW ... WHERE is not supported yet"@))
    } else {
        Ok(Some(field + " LIKE "@ + pattern_literal(filter)))
    }
}

pub fn translate_named_filter(filter: &Node, field_name: &str) -> (r: Result<Option<String>, MiddlewareError>)
    ensures
        opt_text_or(r) == named_filter(filter.tree(), field_name@),
{
    let null = Node::Null;
    if filter.is_null() {
        return Ok(None);
    }
    if same(filter.variant().as_str(), "Where") {
        return Err(translation_error("SHOW ... WHERE is not supported yet"));
    }
    let pattern = sql_string_literal(filter.inner(&null).text().as_str());
    Ok(Some(cat3(field_name, " LIKE ", pattern.as_str())))
}

/// The predicate of a filter on compatibility rows.
pub open spec fn row_predicate(filter: Tree, field: Seq<char>) -> Seq<char> {
    if variant(filter) == "Where"@ {
        shown(expr_sql(inner(filter)))
    } else {
        "\""@ + field + "\" LIKE "@ + pattern_literal(filter)
    }
}

/// Compatibility rows, filtered.
pub open spec fn filtered_rows(base: Seq<char>, filter: Tree, field: Seq<char>) -> Seq<char> {
    if present(filter) {
        "SELECT * FROM ("@ + base + ") AS show_meta WHERE "@ + row_predicate(filter, field)
    } else {
        base
    }
}

fn render_row_predicate(filter: &Node, field: &str) -> (r: String)
    ensures
        r@ == row_predicate(filter.tree(), field@),
{
    let null = Node::Null;
    if same(filter.variant().as_str(), "Where") {
        show(render_expr(filter.inner(&null)))
    } else {
        let pattern = sql_string_literal(filter.inner(&null).text().as_str());
        cat4("\"", field, "\" LIKE ", pattern.as_str())
    }
}

pub fn apply_wrapped_show_filter(base_query: &str, filter: &Node, like_field: &str) -> (r: String)
    ensures
        r@ == filtered_rows(base_query@, filter.tree(), like_field@),
{
    if filter.is_null() {
        return base_query.to_string();
    }
    cat4(
        "SELECT * FROM (",
        base_query,
        ") AS show_meta WHERE ",
        render_row_predicate(filter, like_field).as_str(),
    )
}

/// A translation with one warning.
pub open spec fn warned(sql: Seq<char>, warning: Seq<char>) -> (Seq<char>, Seq<Seq<char>>) {
    (sql, seq![warning])
}

fn with_warning(sql: String, warning: &str) -> (r: Translated)
    ensures
        r@ == warned(sql@, warning@),
{
    let mut warnings: Vec<String> = Vec::new();
    push_text(&mut warnings, warning.to_string());
    assert(texts(warnings@) =~= seq![warning@]);
    Translated { sql, warnings }
}

/// The schema of a table as an expression.
pub open spec fn schema_expr(schema: Option<Seq<char>>) -> Seq<char> {
    match schema {
        Some(s) => string_literal(s),
        None => "current_schema()"@,
    }
}

/// The columns that SHOW FULL COLUMNS adds.
pub open spec fn extra_column(full: bool) -> Seq<char> {
    if full {
        " AS \"Extra\", NULL::text AS \"Privileges\", NULL::text AS \"Comment\" "@
    } else {
        " AS \"Extra\" "@
    }
}

/// The query that describes the columns of a table.
pub open spec fn describe_sql(
    schema: Option<Seq<char>>,
    relation: Seq<char>,
    filter: Option<Seq<char>>,
    full: bool,
) -> Seq<char> {
    DESCRIBE_COLUMNS@ + extra_column(full) + DESCRIBE_FROM@ + schema_expr(schema) + DESCRIBE_TABLE@
        + string_literal(relation) + (match filter {
        Some(f) => " AND "@ + f,
        None => ""@,
    }) + " ORDER BY c.ordinal_position"@
}

/// DESCRIBE and SHOW COLUMNS.
pub open spec fn describe_translation(table: Tree, filter: Tree, full: bool) -> Result<
    (Seq<char>, Seq<Seq<char>>),
    Failure,
> {
    match name_parts(table) {
        Err(e) => Err(e),
        Ok(name) => match named_filter(filter, "c.column_name"@) {
            Err(e) => Err(e),
            Ok(f) => Ok(
                warned(
                    describe_sql(name.0, name.1, f, full),
                    "rewrote MySQL DESC/DESCRIBE/SHOW COLUMNS to PostgreSQL catalog query"@,
                ),
            ),
        },
    }
}

/// Translates DESCRIBE and SHOW COLUMNS to a query on the catalog.
pub fn translate_describe_like_query(table_name: &Node, filter: &Node, full: bool) -> (r: Result<
    Translated,
    MiddlewareError,
>)
    ensures
        translated_view(r) == describe_translation(table_name.tree(), filter.tree(), full),
{
    let (schema, relation) = match split_object_name(table_name) {
        Ok(name) => name,
        Err(e) => return Err(e),
    };
    let schema_text = match &schema {
        Some(s) => sql_string_literal(s.as_str()),
        None => "current_schema()".to_string(),
    };
    let filter_text = match translate_named_filter(filter, "c.column_name") {
        Err(e) => return Err(e),
        Ok(Some(f)) => cat2(" AND ", f.as_str()),
        Ok(None) => "".to_string(),
    };
    let extra = if full {
        " AS \"Extra\", NULL::text AS \"Privileges\", NULL::text AS \"Comment\" "
    } else {
        " AS \"Extra\" "
    };
    let sql = cat8(
        DESCRIBE_COLUMNS,
        extra,
        DESCRIBE_FROM,
        schema_text.as_str(),
        DESCRIBE_TABLE,
        sql_string_literal(relation.as_str()).as_str(),
        filter_text.as_str(),
        " ORDER BY c.ordinal_position",
    );
    Ok(with_warning(sql, "rewrote MySQL DESC/DESCRIBE/SHOW COLUMNS to PostgreSQL catalog query"))
}

/// Whether SHOW has STARTS WITH or LIMIT.
pub open spec fn has_limits(options: Tree) -> bool {
    present(part(options, "starts_with"@)) || present(part(options, "limit"@)) || present(
        part(options, "limit_from"@),
    )
}

fn limits_shown(options: &Node) -> (r: bool)
    ensures
        r == has_limits(options.tree()),
{
    options.has_part("starts_with") || options.has_part("limit") || options.has_part("limit_from")
}

/// The schema that SHOW TABLES looks into, as an expression, and the name of its column.
pub open spec fn shown_schema(options: Tree) -> Result<(Seq<char>, Seq<char>), Failure> {
    let show_in = part(options, "show_in"@);
    let kind = part(show_in, "parent_type"@);
    let name = part(show_in, "parent_name"@);
    if !present(show_in) {
        Ok(("current_schema()"@, "Tables_in_current_schema"@))
    } else if !present(kind) || is_unit(kind, "Schema"@) || is_unit(kind, "Database"@) {
        if present(name) {
            Ok(
                (
                    string_literal(shown(object_name_sql(name))),
                    "Tables_in_"@ + shown(object_name_sql(name)),
                ),
            )
        } else {
            Ok(("current_schema()"@, "Tables_in_current_schema"@))
        }
    } else {
        Err(
            Failure::Translation(
                "SHOW TABLES "@ + shown(show_parent_sql(kind)) + " is not supported yet"@,
            ),
        )
    }
}

pub open spec fn schema_view(r: Result<(String, String), MiddlewareError>) -> Result<
    (Seq<char>, Seq<char>),
    Failure,
> {
    match r {
        Ok((a, b)) => Ok((a@, b@)),
        Err(e) => Err(e@),
    }
}

pub fn resolve_show_tables_schema(options: &Node) -> (r: Result<(String, String), MiddlewareError>)
    ensures
        schema_view(r) == shown_schema(options.tree()),
{
    let null = Node::Null;
    let show_in = options.part("show_in", &null);
    let kind = show_in.part("parent_type", &null);
    let name = show_in.part("parent_name", &null);
    if show_in.is_null() {
        return Ok(("current_schema()".to_string(), "Tables_in_current_schema".to_string()));
    }
    if kind.is_null() || kind.is_unit("Schema") || kind.is_unit("Database") {
        if name.is_null() {
            Ok(("current_schema()".to_string(), "Tables_in_current_schema".to_string()))
        } else {
            let text = show(render_object_name(name));
            Ok((sql_string_literal(text.as_str()), cat2("Tables_in_", text.as_str())))
        }
    } else {
        Err(
            MiddlewareError::Translation(
                cat3("SHOW TABLES ", show(render_show_parent(kind)).as_str(), " is not supported yet"),
            ),
        )
    }
}

/// The kind of a table as MySQL names it.
pub const TABLE_KIND: &'static str = "CASE WHEN table_type = 'VIEW' THEN 'VIEW' ELSE 'BASE TABLE' END AS ";

/// The tables of a schema.
pub const TABLES_FROM: &'static str = " FROM information_schema.tables WHERE table_schema = ";

/// Tables and views only.
pub const TABLES_ONLY: &'static str = " AND table_type IN ('BASE TABLE', 'VIEW')";

/// SHOW TABLES with a LIKE filter or none.
pub open spec fn tables_sql(schema: Seq<char>, column: Seq<char>, full: bool, filter: Option<Seq<char>>) -> Seq<
    char,
> {
    "SELECT table_name AS \""@ + column + "\""@ + (if full {
        ", "@ + TABLE_KIND@ + "\"Table_type\""@
    } else {
        ""@
    }) + TABLES_FROM@ + schema + TABLES_ONLY@ + (match filter {
        Some(f) => " AND "@ + f,
        None => ""@,
    }) + " ORDER BY table_name"@
}

/// SHOW TABLES with a WHERE filter. The filter stands outside, where the kind of the
/// table goes by a folded name, so that any casing of it resolves.
pub open spec fn tables_where_sql(schema: Seq<char>, column: Seq<char>, full: bool, predicate: Seq<char>) -> Seq<
    char,
> {
    "SELECT \""@ + column + "\""@ + (if full {
        ", table_type AS \"Table_type\""@
    } else {
        ""@
    }) + " FROM (SELECT table_name AS \""@ + column + "\", "@ + (TABLE_KIND@ + "table_type"@ + TABLES_FROM@
        + schema + TABLES_ONLY@ + ") AS show_tables WHERE "@ + predicate + " ORDER BY 1"@)
}

fn render_tables(schema: &str, column: &str, full: bool, filter: &Option<String>) -> (r: String)
    ensures
        r@ == tables_sql(schema@, column@, full, opt_text(*filter)),
{
    let kind = if full {
        cat3(", ", TABLE_KIND, "\"Table_type\"")
    } else {
        "".to_string()
    };
    let predicate = match filter {
        Some(f) => cat2(" AND ", f.as_str()),
        None => "".to_string(),
    };
    let head = cat7("SELECT table_name AS \"", column, "\"", kind.as_str(), TABLES_FROM, schema, TABLES_ONLY);
    cat3(head.as_str(), predicate.as_str(), " ORDER BY table_name")
}

fn render_tables_where(schema: &str, column: &str, full: bool, predicate: &str) -> (r: String)
    ensures
        r@ == tables_where_sql(schema@, column@, full, predicate@),
{
    let kind = if full {
        ", table_type AS \"Table_type\""
    } else {
        ""
    };
    let head = cat7("SELECT \"", column, "\"", kind, " FROM (SELECT table_name AS \"", column, "\", ");
    let tail = cat8(
        TABLE_KIND,
        "table_type",
        TABLES_FROM,
        schema,
        TABLES_ONLY,
        ") AS show_tables WHERE ",
        predicate,
        " ORDER BY 1",
    );
    cat2(head.as_str(), tail.as_str())
}

/// SHOW TABLES.
pub open spec fn show_tables_translation(t: Tree) -> Result<(Seq<char>, Seq<Seq<char>>), Failure> {
    let options = part(t, "show_options"@);
    let full = is_true(part(t, "full"@));
    let filter = show_filter(options);
    let warning = "rewrote MySQL SHOW TABLES to information_schema query"@;
    if is_true(part(t, "terse"@)) || is_true(part(t, "history"@)) || is_true(part(t, "extended"@)) || is_true(
        part(t, "external"@),
    ) {
        Err(
            Failure::Translation(
                "SHOW TABLES options TERSE/HISTORY/EXTENDED/EXTERNAL are not supported yet"@,
            ),
        )
    } else if has_limits(options) {
        Err(Failure::Translation("SHOW TABLES STARTS WITH/LIMIT options are not supported yet"@))
    } else {
        match shown_schema(options) {
            Err(e) => Err(e),
            Ok(schema) => if variant(filter) == "Where"@ {
                Ok(
                    warned(
                        tables_where_sql(schema.0, schema.1, full, shown(expr_sql(inner(filter)))),
                        warning,
                    ),
                )
            } else {
                match named_filter(filter, "table_name"@) {
                    Err(e) => Err(e),
                    Ok(f) => Ok(warned(tables_sql(schema.0, schema.1, full, f), warning)),
                }
            },
        }
    }
}

pub fn translate_show_tables(t: &Node) -> (r: Result<Translated, MiddlewareError>)
    ensures
        translated_view(r) == show_tables_translation(t.tree()),
{
    let null = Node::Null;
    let options = t.part("show_options", &null);
    let full = t.flag("full");
    if t.flag("terse") || t.flag("history") || t.flag("extended") || t.flag("external") {
        return Err(
            translation_error("SHOW TABLES options TERSE/HISTORY/EXTENDED/EXTERNAL are not supported yet"),
        );
    }
    if limits_shown(options) {
        return Err(translation_error("SHOW TABLES STARTS WITH/LIMIT options are not supported yet"));
    }
    let (schema, column) = match resolve_show_tables_schema(options) {
        Ok(s) => s,
        Err(e) => return Err(e),
    };
    let filter = extract_show_filter(options, &null);
    let sql = if same(filter.variant().as_str(), "Where") {
        let predicate = show(render_expr(filter.inner(&null)));
        render_tables_where(schema.as_str(), column.as_str(), full, predicate.as_str())
    } else {
        match translate_named_filter(filter, "table_name") {
            Err(e) => return Err(e),
            Ok(f) => render_tables(schema.as_str(), column.as_str(), full, &f),
        }
    };
    Ok(with_warning(sql, "rewrote MySQL SHOW TABLES to information_schema query"))
}

/// SHOW DATABASES.
pub open spec fn show_databases_translation(t: Tree) -> Result<(Seq<char>, Seq<Seq<char>>), Failure> {
    let options = part(t, "show_options"@);
    if is_true(part(t, "terse"@)) || is_true(part(t, "history"@)) {
        Err(Failure::Translation("SHOW DATABASES TERSE/HISTORY options are not supported yet"@))
    } else if present(part(options, "show_in"@)) || has_limits(options) {
        Err(
            Failure::Translation(
                "SHOW DATABASES scope/STARTS WITH/LIMIT options are not supported yet"@,
            ),
        )
    } else {
        match named_filter(show_filter(options), "datname"@) {
            Err(e) => Err(e),
            Ok(f) => Ok(
                warned(
                    "SELECT datname AS \"Database\" FROM pg_database WHERE datistemplate = false"@ + (match f {
                        Some(p) => " AND "@ + p,
                        None => ""@,
                    }) + " ORDER BY datname"@,
                    "rewrote MySQL SHOW DATABASES to pg_database query"@,
                ),
            ),
        }
    }
}

pub fn translate_show_databases(t: &Node) -> (r: Result<Translated, MiddlewareError>)
    ensures
        translated_view(r) == show_databases_translation(t.tree()),
{
    let null = Node::Null;
    let options = t.part("show_options", &null);
    if t.flag("terse") || t.flag("history") {
        return Err(translation_error("SHOW DATABASES TERSE/HISTORY options are not supported yet"));
    }
    if options.has_part("show_in") || limits_shown(options) {
        return Err(
            translation_error("SHOW DATABASES scope/STARTS WITH/LIMIT options are not supported yet"),
        );
    }
    let predicate = match translate_named_filter(extract_show_filter(options, &null), "datname") {
        Err(e) => return Err(e),
        Ok(Some(f)) => cat2(" AND ", f.as_str()),
        Ok(None) => "".to_string(),
    };
    let sql = cat3(
        "SELECT datname AS \"Database\" FROM pg_database WHERE datistemplate = false",
        predicate.as_str(),
        " ORDER BY datname",
    );
    Ok(with_warning(sql, "rewrote MySQL SHOW DATABASES to pg_database query"))
}

/// SHOW SCHEMAS.
pub open spec fn show_schemas_translation(t: Tree) -> Result<(Seq<char>, Seq<Seq<char>>), Failure> {
    let options = part(t, "show_options"@);
    if is_true(part(t, "terse"@)) || is_true(part(t, "history"@)) {
        Err(Failure::Translation("SHOW SCHEMAS TERSE/HISTORY options are not supported yet"@))
    } else if present(part(options, "show_in"@)) || has_limits(options) {
        Err(
            Failure::Translation("SHOW SCHEMAS scope/STARTS WITH/LIMIT options are not supported yet"@),
        )
    } else {
        match named_filter(show_filter(options), "schema_name"@) {
            Err(e) => Err(e),
            Ok(f) => Ok(
                warned(
                    "SELECT schema_name AS \"Database\" FROM information_schema.schemata"@ + (match f {
                        Some(p) => " WHERE "@ + p,
                        None => ""@,
                    }) + " ORDER BY schema_name"@,
                    "rewrote MySQL SHOW SCHEMAS to information_schema.schemata query"@,
                ),
            ),
        }
    }
}

pub fn translate_show_schemas(t: &Node) -> (r: Result<Translated, MiddlewareError>)
    ensures
        translated_view(r) == show_schemas_translation(t.tree()),
{
    let null = Node::Null;
    let options = t.part("show_options", &null);
    if t.flag("terse") || t.flag("history") {
        return Err(translation_error("SHOW SCHEMAS TERSE/HISTORY options are not supported yet"));
    }
    if options.has_part("show_in") || limits_shown(options) {
        return Err(
            translation_error("SHOW SCHEMAS scope/STARTS WITH/LIMIT options are not supported yet"),
        );
    }
    let predicate = match translate_named_filter(extract_show_filter(options, &null), "schema_name") {
        Err(e) => return Err(e),
        Ok(Some(f)) => cat2(" WHERE ", f.as_str()),
        Ok(None) => "".to_string(),
    };
    let sql = cat3(
        "SELECT schema_name AS \"Database\" FROM information_schema.schemata",
        predicate.as_str(),
        " ORDER BY schema_name",
    );
    Ok(with_warning(sql, "rewrote MySQL SHOW SCHEMAS to information_schema.schemata query"))
}

/// SHOW VIEWS.
pub open spec fn show_views_translation(t: Tree) -> Result<(Seq<char>, Seq<Seq<char>>), Failure> {
    let options = part(t, "show_options"@);
    if is_true(part(t, "terse"@)) || is_true(part(t, "materialized"@)) {
        Err(Failure::Translation("SHOW VIEWS TERSE/MATERIALIZED options are not supported yet"@))
    } else if has_limits(options) {
        Err(Failure::Translation("SHOW VIEWS STARTS WITH/LIMIT options are not supported yet"@))
    } else {
        match shown_schema(options) {
            Err(e) => Err(e),
            Ok(schema) => match named_filter(show_filter(options), "table_name"@) {
                Err(e) => Err(e),
                Ok(f) => Ok(
                    warned(
                        "SELECT table_name AS \""@ + schema.1
                            + "\" FROM information_schema.views WHERE table_schema = "@ + schema.0 + (match f {
                            Some(p) => " AND "@ + p,
                            None => ""@,
                        }) + " ORDER BY table_name"@,
                        "rewrote MySQL SHOW VIEWS to information_schema.views query"@,
                    ),
                ),
            },
        }
    }
}

pub fn translate_show_views(t: &Node) -> (r: Result<Translated, MiddlewareError>)
    ensures
        translated_view(r) == show_views_translation(t.tree()),
{
    let null = Node::Null;
    let options = t.part("show_options", &null);
    if t.flag("terse") || t.flag("materialized") {
        return Err(translation_error("SHOW VIEWS TERSE/MATERIALIZED options are not supported yet"));
    }
    if limits_shown(options) {
        return Err(translation_error("SHOW VIEWS STARTS WITH/LIMIT options are not supported yet"));
    }
    let (schema, column) = match resolve_show_tables_schema(options) {
        Ok(s) => s,
        Err(e) => return Err(e),
    };
    let predicate = match translate_named_filter(extract_show_filter(options, &null), "table_name") {
        Err(e) => return Err(e),
        Ok(Some(f)) => cat2(" AND ", f.as_str()),
        Ok(None) => "".to_string(),
    };
    let sql = cat6(
        "SELECT table_name AS \"",
        column.as_str(),
        "\" FROM information_schema.views WHERE table_schema = ",
        schema.as_str(),
        predicate.as_str(),
        " ORDER BY table_name",
    );
    Ok(with_warning(sql, "rewrote MySQL SHOW VIEWS to information_schema.views query"))
}

/// Compatibility rows, filtered and sorted.
pub open spec fn sorted_rows(base: Seq<char>, filter: Tree, field: Seq<char>) -> Seq<char> {
    filtered_rows(base, filter, field) + " ORDER BY \""@ + field + "\""@
}

fn render_sorted_rows(base: &str, filter: &Node, field: &str) -> (r: String)
    ensures
        r@ == sorted_rows(base@, filter.tree(), field@),
{
    cat4(apply_wrapped_show_filter(base, filter, field).as_str(), " ORDER BY \"", field, "\"")
}

/// SHOW FUNCTIONS.
pub open spec fn show_functions_translation(t: Tree) -> (Seq<char>, Seq<Seq<char>>) {
    warned(
        sorted_rows(FUNCTION_ROWS@, part(t, "filter"@), "Function"@),
        "rewrote MySQL SHOW FUNCTIONS to information_schema.routines query"@,
    )
}

pub fn translate_show_functions(t: &Node) -> (r: Translated)
    ensures
        r@ == show_functions_translation(t.tree()),
{
    let null = Node::Null;
    with_warning(
        render_sorted_rows(FUNCTION_ROWS, t.part("filter", &null), "Function"),
        "rewrote MySQL SHOW FUNCTIONS to information_schema.routines query",
    )
}

/// SHOW COLLATION.
pub open spec fn show_collation_translation(t: Tree) -> (Seq<char>, Seq<Seq<char>>) {
    warned(
        sorted_rows(COLLATION_ROWS@, part(t, "filter"@), "Collation"@),
        "rewrote MySQL SHOW COLLATION to compatibility rows"@,
    )
}

pub fn translate_show_collation(t: &Node) -> (r: Translated)
    ensures
        r@ == show_collation_translation(t.tree()),
{
    let null = Node::Null;
    with_warning(
        render_sorted_rows(COLLATION_ROWS, t.part("filter", &null), "Collation"),
        "rewrote MySQL SHOW COLLATION to compatibility rows",
    )
}

/// SHOW CHARACTER SET.
pub open spec fn show_charset_translation(t: Tree) -> (Seq<char>, Seq<Seq<char>>) {
    warned(
        sorted_rows(CHARSET_ROWS@, part(t, "filter"@), "Charset"@),
        "rewrote MySQL SHOW CHARSET/CHARACTER SET to compatibility rows"@,
    )
}

pub fn translate_show_charset(t: &Node) -> (r: Translated)
    ensures
        r@ == show_charset_translation(t.tree()),
{
    let null = Node::Null;
    with_warning(
        render_sorted_rows(CHARSET_ROWS, t.part("filter", &null), "Charset"),
        "rewrote MySQL SHOW CHARSET/CHARACTER SET to compatibility rows",
    )
}

/// SHOW VARIABLES and SHOW STATUS: compatibility rows, whatever the scope.
pub open spec fn scoped_rows(
    t: Tree,
    base: Seq<char>,
    refusal: Seq<char>,
    scope_warning: Seq<char>,
    warning: Seq<char>,
) -> Result<(Seq<char>, Seq<Seq<char>>), Failure> {
    let global = is_true(part(t, "global"@));
    let session = is_true(part(t, "session"@));
    if global && session {
        Err(Failure::Translation(refusal))
    } else {
        Ok(
            (
                sorted_rows(base, part(t, "filter"@), "Variable_name"@),
                if global || session {
                    seq![scope_warning, warning]
                } else {
                    seq![warning]
                },
            ),
        )
    }
}

fn render_scoped_rows(t: &Node, base: &str, refusal: &str, scope_warning: &str, warning: &str) -> (r: Result<
    Translated,
    MiddlewareError,
>)
    ensures
        translated_view(r) == scoped_rows(t.tree(), base@, refusal@, scope_warning@, warning@),
{
    let null = Node::Null;
    let global = t.flag("global");
    let session = t.flag("session");
    if global && session {
        return Err(translation_error(refusal));
    }
    let sql = render_sorted_rows(base, t.part("filter", &null), "Variable_name");
    let mut warnings: Vec<String> = Vec::new();
    if global || session {
        push_text(&mut warnings, scope_warning.to_string());
        push_text(&mut warnings, warning.to_string());
        assert(texts(warnings@) =~= seq![scope_warning@, warning@]);
    } else {
        push_text(&mut warnings, warning.to_string());
        assert(texts(warnings@) =~= seq![warning@]);
    }
    Ok(Translated { sql, warnings })
}

/// SHOW VARIABLES.
pub open spec fn show_variables_translation(t: Tree) -> Result<(Seq<char>, Seq<Seq<char>>), Failure> {
    scoped_rows(
        t,
        VARIABLE_ROWS@,
        "SHOW GLOBAL SESSION VARIABLES is not supported"@,
        "SHOW GLOBAL/SESSION VARIABLES is mapped to the current PostgreSQL session view"@,
        "rewrote MySQL SHOW VARIABLES to compatibility rows"@,
    )
}

pub fn translate_show_variables(t: &Node) -> (r: Result<Translated, MiddlewareError>)
    ensures
        translated_view(r) == show_variables_translation(t.tree()),
{
    render_scoped_rows(
        t,
        VARIABLE_ROWS,
        "SHOW GLOBAL SESSION VARIABLES is not supported",
        "SHOW GLOBAL/SESSION VARIABLES is mapped to the current PostgreSQL session view",
        "rewrote MySQL SHOW VARIABLES to compatibility rows",
    )
}

/// SHOW STATUS.
pub open spec fn show_status_translation(t: Tree) -> Result<(Seq<char>, Seq<Seq<char>>), Failure> {
    scoped_rows(
        t,
        STATUS_ROWS@,
        "SHOW GLOBAL SESSION STATUS is not supported"@,
        "SHOW GLOBAL/SESSION STATUS is mapped to PostgreSQL activity statistics"@,
        "rewrote MySQL SHOW STATUS to PostgreSQL activity query"@,
    )
}

pub fn translate_show_status(t: &Node) -> (r: Result<Translated, MiddlewareError>)
    ensures
        translated_view(r) == show_status_translation(t.tree()),
{
    render_scoped_rows(
        t,
        STATUS_ROWS,
        "SHOW GLOBAL SESSION STATUS is not supported",
        "SHOW GLOBAL/SESSION STATUS is mapped to PostgreSQL activity statistics",
        "rewrote MySQL SHOW STATUS to PostgreSQL activity query",
    )
}

/// The table that SHOW COLUMNS describes.
pub open spec fn columns_target(options: Tree) -> Result<Tree, Failure> {
    let show_in = part(options, "show_in"@);
    let kind = part(show_in, "parent_type"@);
    if !present(show_in) {
        Err(Failure::Translation("SHOW COLUMNS requires a target table"@))
    } else if present(kind) && !is_unit(kind, "Table"@) {
        Err(
            Failure::Translation(
                "SHOW COLUMNS "@ + shown(show_parent_sql(kind)) + " is not supported yet"@,
            ),
        )
    } else if !present(part(show_in, "parent_name"@)) {
        Err(Failure::Translation("SHOW COLUMNS requires a concrete table name"@))
    } else {
        Ok(part(show_in, "parent_name"@))
    }
}

pub open spec fn target_view(r: Result<&Node, MiddlewareError>) -> Result<Tree, Failure> {
    match r {
        Ok(n) => Ok(n.tree()),
        Err(e) => Err(e@),
    }
}

pub fn resolve_show_columns_target<'a>(options: &'a Node, null: &'a Node) -> (r: Result<
    &'a Node,
    MiddlewareError,
>)
    requires
        null.tree() is Null,
    ensures
        target_view(r) == columns_target(options.tree()),
{
    let show_in = options.part("show_in", null);
    let kind = show_in.part("parent_type", null);
    if show_in.is_null() {
        return Err(translation_error("SHOW COLUMNS requires a target table"));
    }
    if !kind.is_null() && !kind.is_unit("Table") {
        return Err(
            MiddlewareError::Translation(
                cat3("SHOW COLUMNS ", show(render_show_parent(kind)).as_str(), " is not supported yet"),
            ),
        );
    }
    match show_in.some_part("parent_name") {
        Some(name) => Ok(name),
        None => Err(translation_error("SHOW COLUMNS requires a concrete table name")),
    }
}

/// SHOW COLUMNS.
pub open spec fn show_columns_translation(t: Tree) -> Result<(Seq<char>, Seq<Seq<char>>), Failure> {
    let options = part(t, "show_options"@);
    if is_true(part(t, "extended"@)) {
        Err(Failure::Translation("SHOW EXTENDED COLUMNS is not supported yet"@))
    } else if has_limits(options) {
        Err(Failure::Translation("SHOW COLUMNS STARTS WITH/LIMIT options are not supported yet"@))
    } else {
        match columns_target(options) {
            Err(e) => Err(e),
            Ok(table) => describe_translation(table, show_filter(options), is_true(part(t, "full"@))),
        }
    }
}

pub fn translate_show_columns(t: &Node) -> (r: Result<Translated, MiddlewareError>)
    ensures
        translated_view(r) == show_columns_translation(t.tree()),
{
    let null = Node::Null;
    let options = t.part("show_options", &null);
    if t.flag("extended") {
        return Err(translation_error("SHOW EXTENDED COLUMNS is not supported yet"));
    }
    if limits_shown(options) {
        return Err(translation_error("SHOW COLUMNS STARTS WITH/LIMIT options are not supported yet"));
    }
    match resolve_show_columns_target(options, &null) {
        Err(e) => Err(e),
        Ok(table) => translate_describe_like_query(table, extract_show_filter(options, &null), t.flag("full")),
    }
}

/// The schema of SHOW CREATE as a literal.
pub open spec fn create_schema(schema: Option<Seq<char>>) -> Seq<char> {
    string_literal(
        match schema {
            Some(s) => s,
            None => "public"@,
        },
    )
}

/// SHOW CREATE TABLE.
pub open spec fn show_create_table_translation(name: Tree) -> Result<(Seq<char>, Seq<Seq<char>>), Failure> {
    match name_parts(name) {
        Err(e) => Err(e),
        Ok(n) => Ok(
            warned(
                CREATE_TABLE_TARGET@ + create_schema(n.0) + CREATE_TABLE_RELATION@ + string_literal(n.1)
                    + CREATE_TABLE_PIECES@ + string_literal(n.1) + CREATE_TABLE_TEXT@,
                "rewrote MySQL SHOW CREATE TABLE to PostgreSQL catalog query"@,
            ),
        ),
    }
}

/// SHOW CREATE VIEW.
pub open spec fn show_create_view_translation(name: Tree) -> Result<(Seq<char>, Seq<Seq<char>>), Failure> {
    match name_parts(name) {
        Err(e) => Err(e),
        Ok(n) => Ok(
            warned(
                "SELECT "@ + string_literal(n.1) + CREATE_VIEW_TEXT@ + create_schema(n.0) + CREATE_VIEW_RELATION@
                    + string_literal(n.1) + CREATE_VIEW_KIND@,
                "rewrote MySQL SHOW CREATE VIEW to PostgreSQL catalog query"@,
            ),
        ),
    }
}

/// SHOW CREATE.
pub open spec fn show_create_translation(t: Tree) -> Result<(Seq<char>, Seq<Seq<char>>), Failure> {
    let kind = part(t, "obj_type"@);
    if is_unit(kind, "Table"@) {
        show_create_table_translation(part(t, "obj_name"@))
    } else if is_unit(kind, "View"@) {
        show_create_view_translation(part(t, "obj_name"@))
    } else {
        Err(
            Failure::Translation(
                "SHOW CREATE "@ + shown(show_create_object_sql(kind)) + " is not supported yet"@,
            ),
        )
    }
}

fn create_schema_literal(schema: &Option<String>) -> (r: String)
    ensures
        r@ == create_schema(opt_text(*schema)),
{
    match schema {
        Some(s) => sql_string_literal(s.as_str()),
        None => sql_string_literal("public"),
    }
}

pub fn translate_show_create_table(name: &Node) -> (r: Result<Translated, MiddlewareError>)
    ensures
        translated_view(r) == show_create_table_translation(name.tree()),
{
    let (schema, relation) = match split_object_name(name) {
        Ok(n) => n,
        Err(e) => return Err(e),
    };
    let literal = sql_string_literal(relation.as_str());
    let sql = cat7(
        CREATE_TABLE_TARGET,
        create_schema_literal(&schema).as_str(),
        CREATE_TABLE_RELATION,
        literal.as_str(),
        CREATE_TABLE_PIECES,
        literal.as_str(),
        CREATE_TABLE_TEXT,
    );
    Ok(with_warning(sql, "rewrote MySQL SHOW CREATE TABLE to PostgreSQL catalog query"))
}

pub fn translate_show_create_view(name: &Node) -> (r: Result<Translated, MiddlewareError>)
    ensures
        translated_view(r) == show_create_view_translation(name.tree()),
{
    let (schema, relation) = match split_object_name(name) {
        Ok(n) => n,
        Err(e) => return Err(e),
    };
    let literal = sql_string_literal(relation.as_str());
    let sql = cat7(
        "SELECT ",
        literal.as_str(),
        CREATE_VIEW_TEXT,
        create_schema_literal(&schema).as_str(),
        CREATE_VIEW_RELATION,
        literal.as_str(),
        CREATE_VIEW_KIND,
    );
    Ok(with_warning(sql, "rewrote MySQL SHOW CREATE VIEW to PostgreSQL catalog query"))
}

pub fn translate_show_create(t: &Node) -> (r: Result<Translated, MiddlewareError>)
    ensures
        translated_view(r) == show_create_translation(t.tree()),
{
    let null = Node::Null;
    let kind = t.part("obj_type", &null);
    if kind.is_unit("Table") {
        translate_show_create_table(t.part("obj_name", &null))
    } else if kind.is_unit("View") {
        translate_show_create_view(t.part("obj_name", &null))
    } else {
        Err(
            MiddlewareError::Translation(
                cat3(
                    "SHOW CREATE ",
                    show(render_show_create_object(kind)).as_str(),
                    " is not supported yet",
                ),
            ),
        )
    }
}

/// Translates DESCRIBE.
pub fn translate_describe_table(table_name: &Node) -> (r: Result<Translated, MiddlewareError>)
    ensures
        translated_view(r) == describe_translation(table_name.tree(), Tree::Null, false),
{
    let null = Node::Null;
    translate_describe_like_query(table_name, &null, false)
}

} // verus!
