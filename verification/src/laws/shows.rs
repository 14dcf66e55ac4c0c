//! What SHOW and DESCRIBE return.
use vstd::prelude::*;

use crate::direct::{
    show_index_translation, table_status_translation, SHOW_INDEX_ROWS, TABLE_STATUS_ROWS,
};
use crate::error::Failure;
use crate::names::name_parts;
use crate::parser::{expr_sql, object_name_sql, shown};
use crate::passes::{derived_table, COLUMNS_VIEW, STATISTICS_VIEW};
use crate::quoting::string_literal;
use crate::show::{
    create_schema, describe_sql, describe_translation, named_filter, schema_expr,
    show_charset_translation, show_collation_translation, show_columns_translation,
    show_create_table_translation, show_create_translation, show_create_view_translation,
    show_databases_translation, show_schemas_translation, show_status_translation,
    show_tables_translation, show_variables_translation, show_views_translation, sorted_rows,
    CHARSET_ROWS, COLLATION_ROWS, CREATE_TABLE_PIECES, DESCRIBE_COLUMNS, STATUS_ROWS, VARIABLE_ROWS,
};
use crate::text::{occurs, occurs_at};
use crate::tree::{items, part, payload, tagged, text_of, Tree};

verus! {

proof fn lemma_stays(a: Seq<char>, b: Seq<char>, p: Seq<char>, k: int)
    requires
        occurs_at(a, p, k),
    ensures
        occurs(a + b, p),
{
    assert((a + b).subrange(k, k + p.len()) =~= a.subrange(k, k + p.len()));
    assert(occurs_at(a + b, p, k));
}

proof fn lemma_stays_behind(a: Seq<char>, b: Seq<char>, p: Seq<char>)
    requires
        occurs(b, p),
    ensures
        occurs(a + b, p),
{
    let k = choose|k: int| occurs_at(b, p, k);
    assert((a + b).subrange(a.len() + k, a.len() + k + p.len()) =~= b.subrange(k, k + p.len()));
    assert(occurs_at(a + b, p, a.len() + k));
}

#[verifier::spinoff_prover]
proof fn lemma_describe(rest: Seq<char>)
    ensures
        occurs(DESCRIBE_COLUMNS@ + rest, "c.column_name AS \"Field\""@),
        occurs(DESCRIBE_COLUMNS@ + rest, "WHEN 'integer' THEN 'int(11)'"@),
        occurs(DESCRIBE_COLUMNS@ + rest, "WHEN 'smallint' THEN 'smallint(6)'"@),
        occurs(DESCRIBE_COLUMNS@ + rest, "WHEN 'bigint' THEN 'bigint(20)'"@),
        occurs(DESCRIBE_COLUMNS@ + rest, "WHEN 'character varying' THEN 'varchar(' || c.character_maximum_length || ')'"@),
        occurs(DESCRIBE_COLUMNS@ + rest, "WHEN 'timestamp without time zone' THEN 'datetime'"@),
        occurs(DESCRIBE_COLUMNS@ + rest, "WHEN 'text' THEN 'mediumtext'"@),
        occurs(DESCRIBE_COLUMNS@ + rest, "WHEN 'bytea' THEN 'longblob'"@),
        occurs(DESCRIBE_COLUMNS@ + rest, "WHEN 'double precision' THEN 'double'"@),
        occurs(DESCRIBE_COLUMNS@ + rest, "WHEN 'real' THEN 'float'"@),
        occurs(DESCRIBE_COLUMNS@ + rest, "CASE WHEN c.is_nullable = 'YES' THEN 'YES' ELSE 'NO' END AS \"Null\""@),
        occurs(DESCRIBE_COLUMNS@ + rest, "pc.contype = 'p' ) THEN 'PRI'"@),
        occurs(DESCRIBE_COLUMNS@ + rest, "pc.contype = 'u' AND cardinality(pc.conkey) = 1 ) THEN 'UNI'"@),
        occurs(DESCRIBE_COLUMNS@ + rest, "pc.contype = 'f' ) THEN 'MUL'"@),
        occurs(DESCRIBE_COLUMNS@ + rest, "WHEN c.is_identity = 'YES' THEN 'auto_increment'"@),
{
    reveal_strlit("SELECT c.column_name AS \"Field\", CASE c.data_type WHEN 'integer' THEN 'int(11)' WHEN 'smallint' THEN 'smallint(6)' WHEN 'bigint' THEN 'bigint(20)' WHEN 'character varying' THEN 'varchar(' || c.character_maximum_length || ')' WHEN 'character' THEN 'char(' || c.character_maximum_length || ')' WHEN 'numeric' THEN COALESCE('decimal(' || c.numeric_precision || ',' || c.numeric_scale || ')', 'decimal') WHEN 'timestamp without time zone' THEN 'datetime' WHEN 'timestamp with time zone' THEN 'timestamp' WHEN 'text' THEN 'mediumtext' WHEN 'bytea' THEN 'longblob' WHEN 'real' THEN 'float' WHEN 'double precision' THEN 'double' WHEN 'jsonb' THEN 'json' ELSE pg_catalog.format_type(a.atttypid, a.atttypmod) END AS \"Type\", CASE WHEN c.is_nullable = 'YES' THEN 'YES' ELSE 'NO' END AS \"Null\", CASE WHEN EXISTS ( SELECT 1 FROM pg_constraint pc JOIN pg_attribute pa ON pa.attrelid = pc.conrelid AND pa.attnum = ANY(pc.conkey) WHERE pc.conrelid = cls.oid AND pa.attname = c.column_name AND pc.contype = 'p' ) THEN 'PRI' WHEN EXISTS ( SELECT 1 FROM pg_constraint pc JOIN pg_attribute pa ON pa.attrelid = pc.conrelid AND pa.attnum = ANY(pc.conkey) WHERE pc.conrelid = cls.oid AND pa.attname = c.column_name AND pc.contype = 'u' AND cardinality(pc.conkey) = 1 ) THEN 'UNI' WHEN EXISTS ( SELECT 1 FROM pg_index pi JOIN pg_attribute pa ON pa.attrelid = pi.indrelid AND pa.attnum = ANY(pi.indkey) WHERE pi.indrelid = cls.oid AND pa.attname = c.column_name ) OR EXISTS ( SELECT 1 FROM pg_constraint pc JOIN pg_attribute pa ON pa.attrelid = pc.conrelid AND pa.attnum = ANY(pc.conkey) WHERE pc.conrelid = cls.oid AND pa.attname = c.column_name AND pc.contype = 'f' ) THEN 'MUL' ELSE '' END AS \"Key\", regexp_replace(regexp_replace(c.column_default, '::[a-z ]+$', ''), '^''(.*)''$', '\\1') AS \"Default\", CASE WHEN c.is_identity = 'YES' THEN 'auto_increment' WHEN pg_get_expr(ad.adbin, ad.adrelid) LIKE 'nextval(%' THEN 'auto_increment' ELSE '' END");
    reveal_strlit("c.column_name AS \"Field\"");
    assert(DESCRIBE_COLUMNS@.subrange(7, 31) =~= "c.column_name AS \"Field\""@);
    lemma_stays(DESCRIBE_COLUMNS@, rest, "c.column_name AS \"Field\""@, 7);
    reveal_strlit("WHEN 'integer' THEN 'int(11)'");
    assert(DESCRIBE_COLUMNS@.subrange(50, 79) =~= "WHEN 'integer' THEN 'int(11)'"@);
    lemma_stays(DESCRIBE_COLUMNS@, rest, "WHEN 'integer' THEN 'int(11)'"@, 50);
    reveal_strlit("WHEN 'smallint' THEN 'smallint(6)'");
    assert(DESCRIBE_COLUMNS@.subrange(80, 114) =~= "WHEN 'smallint' THEN 'smallint(6)'"@);
    lemma_stays(DESCRIBE_COLUMNS@, rest, "WHEN 'smallint' THEN 'smallint(6)'"@, 80);
    reveal_strlit("WHEN 'bigint' THEN 'bigint(20)'");
    assert(DESCRIBE_COLUMNS@.subrange(115, 146) =~= "WHEN 'bigint' THEN 'bigint(20)'"@);
    lemma_stays(DESCRIBE_COLUMNS@, rest, "WHEN 'bigint' THEN 'bigint(20)'"@, 115);
    reveal_strlit("WHEN 'character varying' THEN 'varchar(' || c.character_maximum_length || ')'");
    assert(DESCRIBE_COLUMNS@.subrange(147, 224) =~= "WHEN 'character varying' THEN 'varchar(' || c.character_maximum_length || ')'"@);
    lemma_stays(DESCRIBE_COLUMNS@, rest, "WHEN 'character varying' THEN 'varchar(' || c.character_maximum_length || ')'"@, 147);
    reveal_strlit("WHEN 'timestamp without time zone' THEN 'datetime'");
    assert(DESCRIBE_COLUMNS@.subrange(400, 450) =~= "WHEN 'timestamp without time zone' THEN 'datetime'"@);
    lemma_stays(DESCRIBE_COLUMNS@, rest, "WHEN 'timestamp without time zone' THEN 'datetime'"@, 400);
    reveal_strlit("WHEN 'text' THEN 'mediumtext'");
    assert(DESCRIBE_COLUMNS@.subrange(500, 529) =~= "WHEN 'text' THEN 'mediumtext'"@);
    lemma_stays(DESCRIBE_COLUMNS@, rest, "WHEN 'text' THEN 'mediumtext'"@, 500);
    reveal_strlit("WHEN 'bytea' THEN 'longblob'");
    assert(DESCRIBE_COLUMNS@.subrange(530, 558) =~= "WHEN 'bytea' THEN 'longblob'"@);
    lemma_stays(DESCRIBE_COLUMNS@, rest, "WHEN 'bytea' THEN 'longblob'"@, 530);
    reveal_strlit("WHEN 'double precision' THEN 'double'");
    assert(DESCRIBE_COLUMNS@.subrange(584, 621) =~= "WHEN 'double precision' THEN 'double'"@);
    lemma_stays(DESCRIBE_COLUMNS@, rest, "WHEN 'double precision' THEN 'double'"@, 584);
    reveal_strlit("WHEN 'real' THEN 'float'");
    assert(DESCRIBE_COLUMNS@.subrange(559, 583) =~= "WHEN 'real' THEN 'float'"@);
    lemma_stays(DESCRIBE_COLUMNS@, rest, "WHEN 'real' THEN 'float'"@, 559);
    reveal_strlit("CASE WHEN c.is_nullable = 'YES' THEN 'YES' ELSE 'NO' END AS \"Null\"");
    assert(DESCRIBE_COLUMNS@.subrange(715, 781) =~= "CASE WHEN c.is_nullable = 'YES' THEN 'YES' ELSE 'NO' END AS \"Null\""@);
    lemma_stays(DESCRIBE_COLUMNS@, rest, "CASE WHEN c.is_nullable = 'YES' THEN 'YES' ELSE 'NO' END AS \"Null\""@, 715);
    reveal_strlit("pc.contype = 'p' ) THEN 'PRI'");
    assert(DESCRIBE_COLUMNS@.subrange(977, 1006) =~= "pc.contype = 'p' ) THEN 'PRI'"@);
    lemma_stays(DESCRIBE_COLUMNS@, rest, "pc.contype = 'p' ) THEN 'PRI'"@, 977);
    reveal_strlit("pc.contype = 'u' AND cardinality(pc.conkey) = 1 ) THEN 'UNI'");
    assert(DESCRIBE_COLUMNS@.subrange(1196, 1256) =~= "pc.contype = 'u' AND cardinality(pc.conkey) = 1 ) THEN 'UNI'"@);
    lemma_stays(DESCRIBE_COLUMNS@, rest, "pc.contype = 'u' AND cardinality(pc.conkey) = 1 ) THEN 'UNI'"@, 1196);
    reveal_strlit("pc.contype = 'f' ) THEN 'MUL'");
    assert(DESCRIBE_COLUMNS@.subrange(1626, 1655) =~= "pc.contype = 'f' ) THEN 'MUL'"@);
    lemma_stays(DESCRIBE_COLUMNS@, rest, "pc.contype = 'f' ) THEN 'MUL'"@, 1626);
    reveal_strlit("WHEN c.is_identity = 'YES' THEN 'auto_increment'");
    assert(DESCRIBE_COLUMNS@.subrange(1784, 1832) =~= "WHEN c.is_identity = 'YES' THEN 'auto_increment'"@);
    lemma_stays(DESCRIBE_COLUMNS@, rest, "WHEN c.is_identity = 'YES' THEN 'auto_increment'"@, 1784);
}

/// A schema in a condition: the one that is named, or the current one.
pub open spec fn in_schema(schema: Option<Seq<char>>) -> Seq<char> {
    match schema {
        Some(s) => string_literal(s),
        None => "current_schema()"@,
    }
}

/// DESCRIBE returns the columns of the table that it names, in order, with MySQL's name of each
/// type, whether it may be null, its key and whether it counts up.
pub proof fn columns_are_described_as_mysql_does(
    schema: Option<Seq<char>>,
    relation: Seq<char>,
    full: bool,
    filter: Seq<char>,
)
    ensures
        occurs(describe_sql(schema, relation, None, full), "c.column_name AS \"Field\""@),
        occurs(describe_sql(schema, relation, None, full), "WHEN 'integer' THEN 'int(11)'"@),
        occurs(describe_sql(schema, relation, None, full), "WHEN 'smallint' THEN 'smallint(6)'"@),
        occurs(describe_sql(schema, relation, None, full), "WHEN 'bigint' THEN 'bigint(20)'"@),
        occurs(describe_sql(schema, relation, None, full), "WHEN 'character varying' THEN 'varchar(' || c.character_maximum_length || ')'"@),
        occurs(describe_sql(schema, relation, None, full), "WHEN 'timestamp without time zone' THEN 'datetime'"@),
        occurs(describe_sql(schema, relation, None, full), "WHEN 'text' THEN 'mediumtext'"@),
        occurs(describe_sql(schema, relation, None, full), "WHEN 'bytea' THEN 'longblob'"@),
        occurs(describe_sql(schema, relation, None, full), "WHEN 'double precision' THEN 'double'"@),
        occurs(describe_sql(schema, relation, None, full), "WHEN 'real' THEN 'float'"@),
        occurs(describe_sql(schema, relation, None, full), "CASE WHEN c.is_nullable = 'YES' THEN 'YES' ELSE 'NO' END AS \"Null\""@),
        occurs(describe_sql(schema, relation, None, full), "pc.contype = 'p' ) THEN 'PRI'"@),
        occurs(describe_sql(schema, relation, None, full), "pc.contype = 'u' AND cardinality(pc.conkey) = 1 ) THEN 'UNI'"@),
        occurs(describe_sql(schema, relation, None, full), "pc.contype = 'f' ) THEN 'MUL'"@),
        occurs(describe_sql(schema, relation, None, full), "WHEN c.is_identity = 'YES' THEN 'auto_increment'"@),
        exists|head: Seq<char>|
            describe_sql(schema, relation, None, full) == #[trigger] (head + in_schema(schema)) + " AND c.table_name = "@
                + string_literal(relation) + ""@ + " ORDER BY c.ordinal_position"@,
        exists|head: Seq<char>|
            describe_sql(schema, relation, Some(filter), full) == #[trigger] (head + in_schema(schema))
                + " AND c.table_name = "@ + string_literal(relation) + (" AND "@ + filter) + " ORDER BY c.ordinal_position"@,
{
    let head = DESCRIBE_COLUMNS@ + crate::show::extra_column(full) + crate::show::DESCRIBE_FROM@;
    let tail = crate::show::extra_column(full) + crate::show::DESCRIBE_FROM@ + in_schema(schema) + " AND c.table_name = "@
        + string_literal(relation) + ""@ + " ORDER BY c.ordinal_position"@;
    lemma_describe(tail);
    assert(schema_expr(schema) == in_schema(schema));
    assert(describe_sql(schema, relation, None, full) =~= DESCRIBE_COLUMNS@ + tail);
    assert(describe_sql(schema, relation, None, full) == (head + in_schema(schema)) + " AND c.table_name = "@
        + string_literal(relation) + ""@ + " ORDER BY c.ordinal_position"@);
    assert(describe_sql(schema, relation, Some(filter), full) == (head + in_schema(schema)) + " AND c.table_name = "@
        + string_literal(relation) + (" AND "@ + filter) + " ORDER BY c.ordinal_position"@);
}

/// A table that is named with its schema is looked for there, and one without in the current one.
pub proof fn tables_are_described_by_name(table: Tree, filter: Tree, full: bool, a: Seq<char>, b: Seq<char>)
    requires
        filter is Null,
        items(table).len() == 1 || items(table).len() == 2,
        forall|i: int| 0 <= i < items(table).len() ==> payload(#[trigger] items(table)[i], "Identifier"@) is Some,
    ensures
        items(table).len() == 1 ==> describe_translation(table, filter, full) is Ok && describe_translation(
            table,
            filter,
            full,
        )->Ok_0.0 == describe_sql(
            None,
            text_of(part(payload(items(table)[0], "Identifier"@)->Some_0, "value"@)),
            None,
            full,
        ),
        items(table).len() == 2 ==> describe_translation(table, filter, full) is Ok && describe_translation(
            table,
            filter,
            full,
        )->Ok_0.0 == describe_sql(
            Some(text_of(part(payload(items(table)[0], "Identifier"@)->Some_0, "value"@))),
            text_of(part(payload(items(table)[1], "Identifier"@)->Some_0, "value"@)),
            None,
            full,
        ),
{
    assert(payload(items(table)[0], "Identifier"@) is Some);
    assert(items(table).len() == 2 ==> payload(items(table)[1], "Identifier"@) is Some);
    assert(!exists|i: int| 0 <= i < items(table).len() && crate::names::part_ident(#[trigger] items(table)[i]) is None);
}

#[verifier::spinoff_prover]
proof fn lemma_index_rows(rest: Seq<char>)
    ensures
        occurs(SHOW_INDEX_ROWS@ + rest, "cls.relname AS \"Table\""@),
        occurs(SHOW_INDEX_ROWS@ + rest, "CASE WHEN idx.indisunique THEN 0 ELSE 1 END AS \"Non_unique\""@),
        occurs(SHOW_INDEX_ROWS@ + rest, "CASE WHEN idx.indisprimary THEN 'PRIMARY' ELSE ci.relname END AS \"Key_name\""@),
        occurs(SHOW_INDEX_ROWS@ + rest, "key_columns.ordinality AS \"Seq_in_index\""@),
        occurs(SHOW_INDEX_ROWS@ + rest, "att.attname AS \"Column_name\""@),
        occurs(SHOW_INDEX_ROWS@ + rest, "CASE WHEN att.attnotnull THEN '' ELSE 'YES' END AS \"Null\""@),
        occurs(SHOW_INDEX_ROWS@ + rest, "ns.nspname = current_schema() AND cls.relname = "@),
{
    reveal_strlit("SELECT * FROM ( SELECT cls.relname AS \"Table\", CASE WHEN idx.indisunique THEN 0 ELSE 1 END AS \"Non_unique\", CASE WHEN idx.indisprimary THEN 'PRIMARY' ELSE ci.relname END AS \"Key_name\", key_columns.ordinality AS \"Seq_in_index\", att.attname AS \"Column_name\", 'A' AS \"Collation\", NULL::BIGINT AS \"Cardinality\", NULL::BIGINT AS \"Sub_part\", NULL::TEXT AS \"Packed\", CASE WHEN att.attnotnull THEN '' ELSE 'YES' END AS \"Null\", 'BTREE' AS \"Index_type\", '' AS \"Comment\", '' AS \"Index_comment\", 'YES' AS \"Visible\", NULL::TEXT AS \"Expression\" FROM pg_class cls JOIN pg_namespace ns ON ns.oid = cls.relnamespace JOIN pg_index idx ON idx.indrelid = cls.oid JOIN pg_class ci ON ci.oid = idx.indexrelid JOIN LATERAL unnest(idx.indkey) WITH ORDINALITY AS key_columns(attnum, ordinality) ON TRUE JOIN pg_attribute att ON att.attrelid = cls.oid AND att.attnum = key_columns.attnum WHERE ns.nspname = current_schema() AND cls.relname = ");
    reveal_strlit("cls.relname AS \"Table\"");
    assert(SHOW_INDEX_ROWS@.subrange(23, 45) =~= "cls.relname AS \"Table\""@);
    lemma_stays(SHOW_INDEX_ROWS@, rest, "cls.relname AS \"Table\""@, 23);
    reveal_strlit("CASE WHEN idx.indisunique THEN 0 ELSE 1 END AS \"Non_unique\"");
    assert(SHOW_INDEX_ROWS@.subrange(47, 106) =~= "CASE WHEN idx.indisunique THEN 0 ELSE 1 END AS \"Non_unique\""@);
    lemma_stays(SHOW_INDEX_ROWS@, rest, "CASE WHEN idx.indisunique THEN 0 ELSE 1 END AS \"Non_unique\""@, 47);
    reveal_strlit("CASE WHEN idx.indisprimary THEN 'PRIMARY' ELSE ci.relname END AS \"Key_name\"");
    assert(SHOW_INDEX_ROWS@.subrange(108, 183) =~= "CASE WHEN idx.indisprimary THEN 'PRIMARY' ELSE ci.relname END AS \"Key_name\""@);
    lemma_stays(SHOW_INDEX_ROWS@, rest, "CASE WHEN idx.indisprimary THEN 'PRIMARY' ELSE ci.relname END AS \"Key_name\""@, 108);
    reveal_strlit("key_columns.ordinality AS \"Seq_in_index\"");
    assert(SHOW_INDEX_ROWS@.subrange(185, 225) =~= "key_columns.ordinality AS \"Seq_in_index\""@);
    lemma_stays(SHOW_INDEX_ROWS@, rest, "key_columns.ordinality AS \"Seq_in_index\""@, 185);
    reveal_strlit("att.attname AS \"Column_name\"");
    assert(SHOW_INDEX_ROWS@.subrange(227, 255) =~= "att.attname AS \"Column_name\""@);
    lemma_stays(SHOW_INDEX_ROWS@, rest, "att.attname AS \"Column_name\""@, 227);
    reveal_strlit("CASE WHEN att.attnotnull THEN '' ELSE 'YES' END AS \"Null\"");
    assert(SHOW_INDEX_ROWS@.subrange(360, 417) =~= "CASE WHEN att.attnotnull THEN '' ELSE 'YES' END AS \"Null\""@);
    lemma_stays(SHOW_INDEX_ROWS@, rest, "CASE WHEN att.attnotnull THEN '' ELSE 'YES' END AS \"Null\""@, 360);
    reveal_strlit("ns.nspname = current_schema() AND cls.relname = ");
    assert(SHOW_INDEX_ROWS@.subrange(868, 916) =~= "ns.nspname = current_schema() AND cls.relname = "@);
    lemma_stays(SHOW_INDEX_ROWS@, rest, "ns.nspname = current_schema() AND cls.relname = "@, 868);
}

/// SHOW INDEX returns the columns of the indexes of its own table, and of those only the ones that
/// are asked for.
pub proof fn indexes_are_shown_of_their_table(sql: Seq<char>, m: Seq<Option<(int, int)>>)
    requires
        m.len() == 4,
        m[1] is None,
        m[2] is Some,
        m[3] is None,
    ensures
        show_index_translation(sql, seq![m]) matches Ok(Some(_)),
        occurs(show_index_translation(sql, seq![m])->Ok_0->Some_0.0, "cls.relname AS \"Table\""@),
        occurs(show_index_translation(sql, seq![m])->Ok_0->Some_0.0, "CASE WHEN idx.indisunique THEN 0 ELSE 1 END AS \"Non_unique\""@),
        occurs(show_index_translation(sql, seq![m])->Ok_0->Some_0.0, "CASE WHEN idx.indisprimary THEN 'PRIMARY' ELSE ci.relname END AS \"Key_name\""@),
        occurs(show_index_translation(sql, seq![m])->Ok_0->Some_0.0, "key_columns.ordinality AS \"Seq_in_index\""@),
        occurs(show_index_translation(sql, seq![m])->Ok_0->Some_0.0, "att.attname AS \"Column_name\""@),
        occurs(show_index_translation(sql, seq![m])->Ok_0->Some_0.0, "CASE WHEN att.attnotnull THEN '' ELSE 'YES' END AS \"Null\""@),
        occurs(show_index_translation(sql, seq![m])->Ok_0->Some_0.0, "ns.nspname = current_schema() AND cls.relname = "@),
        show_index_translation(sql, seq![m])->Ok_0->Some_0.0 == SHOW_INDEX_ROWS@ + string_literal(
            sql.subrange(m[2]->Some_0.0, m[2]->Some_0.1),
        ) + " ) AS show_index_rows WHERE "@ + "TRUE"@ + " ORDER BY \"Key_name\", \"Seq_in_index\""@,
{
    let rest = string_literal(sql.subrange(m[2]->Some_0.0, m[2]->Some_0.1)) + " ) AS show_index_rows WHERE "@ + "TRUE"@
        + " ORDER BY \"Key_name\", \"Seq_in_index\""@;
    lemma_index_rows(rest);
    assert(show_index_translation(sql, seq![m])->Ok_0->Some_0.0 =~= SHOW_INDEX_ROWS@ + rest);
}

#[verifier::spinoff_prover]
proof fn lemma_status_rows(rest: Seq<char>)
    ensures
        occurs(TABLE_STATUS_ROWS@ + rest, "c.relname AS \"Name\""@),
        occurs(TABLE_STATUS_ROWS@ + rest, "c.reltuples::bigint AS \"Rows\""@),
        occurs(TABLE_STATUS_ROWS@ + rest, "pg_table_size(c.oid) AS \"Data_length\""@),
        occurs(TABLE_STATUS_ROWS@ + rest, "pg_indexes_size(c.oid) AS \"Index_length\""@),
        occurs(TABLE_STATUS_ROWS@ + rest, "c.relkind IN ('r', 'p') AND n.nspname = "@),
{
    reveal_strlit("SELECT c.relname AS \"Name\", 'InnoDB' AS \"Engine\", 10 AS \"Version\", 'Dynamic' AS \"Row_format\", c.reltuples::bigint AS \"Rows\", 0 AS \"Avg_row_length\", pg_table_size(c.oid) AS \"Data_length\", 0 AS \"Max_data_length\", pg_indexes_size(c.oid) AS \"Index_length\", 0 AS \"Data_free\", NULL::bigint AS \"Auto_increment\", NULL::timestamp AS \"Create_time\", NULL::timestamp AS \"Update_time\", NULL::timestamp AS \"Check_time\", 'utf8mb4_unicode_ci' AS \"Collation\", NULL::bigint AS \"Checksum\", '' AS \"Create_options\", COALESCE(obj_description(c.oid, 'pg_class'), '') AS \"Comment\" FROM pg_class c JOIN pg_namespace n ON n.oid = c.relnamespace WHERE c.relkind IN ('r', 'p') AND n.nspname = ");
    reveal_strlit("c.relname AS \"Name\"");
    assert(TABLE_STATUS_ROWS@.subrange(7, 26) =~= "c.relname AS \"Name\""@);
    lemma_stays(TABLE_STATUS_ROWS@, rest, "c.relname AS \"Name\""@, 7);
    reveal_strlit("c.reltuples::bigint AS \"Rows\"");
    assert(TABLE_STATUS_ROWS@.subrange(94, 123) =~= "c.reltuples::bigint AS \"Rows\""@);
    lemma_stays(TABLE_STATUS_ROWS@, rest, "c.reltuples::bigint AS \"Rows\""@, 94);
    reveal_strlit("pg_table_size(c.oid) AS \"Data_length\"");
    assert(TABLE_STATUS_ROWS@.subrange(148, 185) =~= "pg_table_size(c.oid) AS \"Data_length\""@);
    lemma_stays(TABLE_STATUS_ROWS@, rest, "pg_table_size(c.oid) AS \"Data_length\""@, 148);
    reveal_strlit("pg_indexes_size(c.oid) AS \"Index_length\"");
    assert(TABLE_STATUS_ROWS@.subrange(211, 251) =~= "pg_indexes_size(c.oid) AS \"Index_length\""@);
    lemma_stays(TABLE_STATUS_ROWS@, rest, "pg_indexes_size(c.oid) AS \"Index_length\""@, 211);
    reveal_strlit("c.relkind IN ('r', 'p') AND n.nspname = ");
    assert(TABLE_STATUS_ROWS@.subrange(625, 665) =~= "c.relkind IN ('r', 'p') AND n.nspname = "@);
    lemma_stays(TABLE_STATUS_ROWS@, rest, "c.relkind IN ('r', 'p') AND n.nspname = "@, 625);
}

/// SHOW TABLE STATUS returns the tables of the schema that it names, or else of the current one.
pub proof fn table_status_is_that_of_the_schema(sql: Seq<char>, m: Seq<Option<(int, int)>>)
    requires
        m.len() == 4,
        m[1] is None,
        m[3] is None,
    ensures
        table_status_translation(sql, seq![m]) matches Ok(Some(_)),
        occurs(table_status_translation(sql, seq![m])->Ok_0->Some_0.0, "c.relname AS \"Name\""@),
        occurs(table_status_translation(sql, seq![m])->Ok_0->Some_0.0, "c.reltuples::bigint AS \"Rows\""@),
        occurs(table_status_translation(sql, seq![m])->Ok_0->Some_0.0, "pg_table_size(c.oid) AS \"Data_length\""@),
        occurs(table_status_translation(sql, seq![m])->Ok_0->Some_0.0, "pg_indexes_size(c.oid) AS \"Index_length\""@),
        occurs(table_status_translation(sql, seq![m])->Ok_0->Some_0.0, "c.relkind IN ('r', 'p') AND n.nspname = "@),
        m[2] is Some ==> table_status_translation(sql, seq![m])->Ok_0->Some_0.0 == TABLE_STATUS_ROWS@ + string_literal(
            sql.subrange(m[2]->Some_0.0, m[2]->Some_0.1),
        ) + ""@ + " ORDER BY c.relname"@,
        m[2] is None ==> table_status_translation(sql, seq![m])->Ok_0->Some_0.0 == TABLE_STATUS_ROWS@ + "current_schema()"@
            + ""@ + " ORDER BY c.relname"@,
{
    let schema = match m[2] {
        Some(g) => string_literal(sql.subrange(g.0, g.1)),
        None => "current_schema()"@,
    };
    let rest = schema + ""@ + " ORDER BY c.relname"@;
    lemma_status_rows(rest);
    assert(table_status_translation(sql, seq![m])->Ok_0->Some_0.0 =~= TABLE_STATUS_ROWS@ + rest);
}

#[verifier::spinoff_prover]
proof fn lemma_create_pieces(rest: Seq<char>)
    ensures
        occurs(CREATE_TABLE_PIECES@ + rest, "CASE a.attidentity WHEN 'a' THEN ' GENERATED ALWAYS AS IDENTITY' WHEN 'd' THEN ' GENERATED BY DEFAULT AS IDENTITY' ELSE '' END"@),
        occurs(CREATE_TABLE_PIECES@ + rest, "CASE WHEN a.attnotnull THEN ' NOT NULL' ELSE '' END"@),
        occurs(CREATE_TABLE_PIECES@ + rest, "a.attnum > 0 AND NOT a.attisdropped"@),
{
    reveal_strlit(" AND c.relkind IN ('r','p') ), pieces AS ( SELECT a.attnum AS ord, format('  %I %s%s%s%s', a.attname, pg_catalog.format_type(a.atttypid, a.atttypmod), CASE a.attidentity WHEN 'a' THEN ' GENERATED ALWAYS AS IDENTITY' WHEN 'd' THEN ' GENERATED BY DEFAULT AS IDENTITY' ELSE '' END, CASE WHEN a.attnotnull THEN ' NOT NULL' ELSE '' END, CASE WHEN ad.adbin IS NOT NULL AND a.attidentity = '' THEN ' DEFAULT ' || pg_get_expr(ad.adbin, ad.adrelid) ELSE '' END ) AS line FROM target t JOIN pg_attribute a ON a.attrelid = t.oid LEFT JOIN pg_attrdef ad ON ad.adrelid = a.attrelid AND ad.adnum = a.attnum WHERE a.attnum > 0 AND NOT a.attisdropped UNION ALL SELECT 100000 + row_number() OVER (ORDER BY con.oid), CASE WHEN con.contype = 'p' THEN '  ' || pg_get_constraintdef(con.oid) ELSE format('  CONSTRAINT %I %s', con.conname, pg_get_constraintdef(con.oid)) END FROM target t JOIN pg_constraint con ON con.conrelid = t.oid ) SELECT ");
    reveal_strlit("CASE a.attidentity WHEN 'a' THEN ' GENERATED ALWAYS AS IDENTITY' WHEN 'd' THEN ' GENERATED BY DEFAULT AS IDENTITY' ELSE '' END");
    assert(CREATE_TABLE_PIECES@.subrange(151, 277) =~= "CASE a.attidentity WHEN 'a' THEN ' GENERATED ALWAYS AS IDENTITY' WHEN 'd' THEN ' GENERATED BY DEFAULT AS IDENTITY' ELSE '' END"@);
    lemma_stays(CREATE_TABLE_PIECES@, rest, "CASE a.attidentity WHEN 'a' THEN ' GENERATED ALWAYS AS IDENTITY' WHEN 'd' THEN ' GENERATED BY DEFAULT AS IDENTITY' ELSE '' END"@, 151);
    reveal_strlit("CASE WHEN a.attnotnull THEN ' NOT NULL' ELSE '' END");
    assert(CREATE_TABLE_PIECES@.subrange(279, 330) =~= "CASE WHEN a.attnotnull THEN ' NOT NULL' ELSE '' END"@);
    lemma_stays(CREATE_TABLE_PIECES@, rest, "CASE WHEN a.attnotnull THEN ' NOT NULL' ELSE '' END"@, 279);
    reveal_strlit("a.attnum > 0 AND NOT a.attisdropped");
    assert(CREATE_TABLE_PIECES@.subrange(599, 634) =~= "a.attnum > 0 AND NOT a.attisdropped"@);
    lemma_stays(CREATE_TABLE_PIECES@, rest, "a.attnum > 0 AND NOT a.attisdropped"@, 599);
}

/// SHOW CREATE TABLE is written from its own table, with what each column is, and SHOW CREATE VIEW
/// from its own view.
pub proof fn definitions_are_those_of_their_table(name: Tree, s: Option<Seq<char>>, r: Seq<char>)
    requires
        name_parts(name) == Ok::<(Option<Seq<char>>, Seq<char>), Failure>((s, r)),
    ensures
        show_create_table_translation(name) is Ok,
        occurs(show_create_table_translation(name)->Ok_0.0, "CASE a.attidentity WHEN 'a' THEN ' GENERATED ALWAYS AS IDENTITY' WHEN 'd' THEN ' GENERATED BY DEFAULT AS IDENTITY' ELSE '' END"@),
        occurs(show_create_table_translation(name)->Ok_0.0, "CASE WHEN a.attnotnull THEN ' NOT NULL' ELSE '' END"@),
        occurs(show_create_table_translation(name)->Ok_0.0, "a.attnum > 0 AND NOT a.attisdropped"@),
        exists|a: Seq<char>, b: Seq<char>|
            #![trigger a + b]
            show_create_table_translation(name)->Ok_0.0 == a + (match s {
                Some(schema) => string_literal(schema),
                None => string_literal("public"@),
            }) + " AND c.relname = "@ + string_literal(r) + b,
        show_create_view_translation(name) is Ok,
        exists|a: Seq<char>, b: Seq<char>|
            #![trigger a + b]
            show_create_view_translation(name)->Ok_0.0 == a + (match s {
                Some(schema) => string_literal(schema),
                None => string_literal("public"@),
            }) + " AND c.relname = "@ + string_literal(r) + b,
        show_create_translation(
            Tree::Record(seq![("obj_name"@, name), ("obj_type"@, Tree::Text("Table"@))]),
        ) == show_create_table_translation(name),
        show_create_translation(
            Tree::Record(seq![("obj_name"@, name), ("obj_type"@, Tree::Text("View"@))]),
        ) == show_create_view_translation(name),
{
    let head = crate::show::CREATE_TABLE_TARGET@ + create_schema(s) + crate::show::CREATE_TABLE_RELATION@ + string_literal(r);
    let rest = string_literal(r) + crate::show::CREATE_TABLE_TEXT@;
    lemma_create_pieces(rest);
    let text = show_create_table_translation(name)->Ok_0.0;
    assert(text =~= head + (CREATE_TABLE_PIECES@ + rest));
    lemma_stays_behind(head, CREATE_TABLE_PIECES@ + rest, "CASE a.attidentity WHEN 'a' THEN ' GENERATED ALWAYS AS IDENTITY' WHEN 'd' THEN ' GENERATED BY DEFAULT AS IDENTITY' ELSE '' END"@);
    lemma_stays_behind(head, CREATE_TABLE_PIECES@ + rest, "CASE WHEN a.attnotnull THEN ' NOT NULL' ELSE '' END"@);
    lemma_stays_behind(head, CREATE_TABLE_PIECES@ + rest, "a.attnum > 0 AND NOT a.attisdropped"@);
    assert(text == crate::show::CREATE_TABLE_TARGET@ + create_schema(s) + " AND c.relname = "@ + string_literal(r) + (
        CREATE_TABLE_PIECES@ + rest)) by {
        assert(text =~= crate::show::CREATE_TABLE_TARGET@ + create_schema(s) + " AND c.relname = "@ + string_literal(r) + (
            CREATE_TABLE_PIECES@ + rest));
    }
    let ab = crate::show::CREATE_TABLE_TARGET@ + (CREATE_TABLE_PIECES@ + rest);
    let va = "SELECT "@ + string_literal(r) + crate::show::CREATE_VIEW_TEXT@;
    let vb = crate::show::CREATE_VIEW_KIND@;
    let view = show_create_view_translation(name)->Ok_0.0;
    assert(view == va + create_schema(s) + " AND c.relname = "@ + string_literal(r) + vb);
    let vab = va + vb;
    reveal_strlit("obj_name");
    reveal_strlit("obj_type");
    assert("obj_name"@.len() == 8);
    assert("obj_type"@.len() == 8);
    assert("obj_name"@[4] != "obj_type"@[4]);
    reveal_strlit("Table");
    reveal_strlit("View");
    assert("Table"@.len() == 5);
    assert("View"@.len() == 4);
    reveal_with_fuel(crate::tree::first_field, 3);
}

#[verifier::spinoff_prover]
proof fn lemma_variable_rows(rest: Seq<char>)
    ensures
        occurs(VARIABLE_ROWS@ + rest, "('autocommit', 'ON')"@),
        occurs(VARIABLE_ROWS@ + rest, "('character_set_client', 'utf8mb4')"@),
        occurs(VARIABLE_ROWS@ + rest, "('max_allowed_packet', '67108864')"@),
        occurs(VARIABLE_ROWS@ + rest, "('sql_mode', 'NO_AUTO_VALUE_ON_ZERO')"@),
        occurs(VARIABLE_ROWS@ + rest, "('lower_case_table_names', '0')"@),
        occurs(VARIABLE_ROWS@ + rest, "('version', '11.8.7-MariaDB-ubu2404')"@),
        occurs(VARIABLE_ROWS@ + rest, "('version_comment', 'MariaDB Server')"@),
        occurs(VARIABLE_ROWS@ + rest, "('transaction_isolation', current_setting('transaction_isolation'))"@),
{
    reveal_strlit("WITH vars AS ( SELECT * FROM (VALUES ('autocommit', 'ON'), ('character_set_client', 'utf8mb4'), ('character_set_connection', 'utf8mb4'), ('character_set_database', 'utf8mb4'), ('character_set_results', 'utf8mb4'), ('collation_connection', 'utf8mb4_unicode_ci'), ('collation_database', 'utf8mb4_unicode_ci'), ('lower_case_table_names', '0'), ('max_allowed_packet', '67108864'), ('secure_file_priv', NULL), ('sql_mode', 'NO_AUTO_VALUE_ON_ZERO'), ('system_time_zone', current_setting('TimeZone')), ('time_zone', current_setting('TimeZone')), ('transaction_isolation', current_setting('transaction_isolation')), ('tx_isolation', current_setting('transaction_isolation')), ('version', '11.8.7-MariaDB-ubu2404'), ('version_comment', 'MariaDB Server') ) AS v(\"Variable_name\", \"Value\") ) SELECT \"Variable_name\", \"Value\" FROM vars");
    reveal_strlit("('autocommit', 'ON')");
    assert(VARIABLE_ROWS@.subrange(37, 57) =~= "('autocommit', 'ON')"@);
    lemma_stays(VARIABLE_ROWS@, rest, "('autocommit', 'ON')"@, 37);
    reveal_strlit("('character_set_client', 'utf8mb4')");
    assert(VARIABLE_ROWS@.subrange(59, 94) =~= "('character_set_client', 'utf8mb4')"@);
    lemma_stays(VARIABLE_ROWS@, rest, "('character_set_client', 'utf8mb4')"@, 59);
    reveal_strlit("('max_allowed_packet', '67108864')");
    assert(VARIABLE_ROWS@.subrange(341, 375) =~= "('max_allowed_packet', '67108864')"@);
    lemma_stays(VARIABLE_ROWS@, rest, "('max_allowed_packet', '67108864')"@, 341);
    reveal_strlit("('sql_mode', 'NO_AUTO_VALUE_ON_ZERO')");
    assert(VARIABLE_ROWS@.subrange(405, 442) =~= "('sql_mode', 'NO_AUTO_VALUE_ON_ZERO')"@);
    lemma_stays(VARIABLE_ROWS@, rest, "('sql_mode', 'NO_AUTO_VALUE_ON_ZERO')"@, 405);
    reveal_strlit("('lower_case_table_names', '0')");
    assert(VARIABLE_ROWS@.subrange(308, 339) =~= "('lower_case_table_names', '0')"@);
    lemma_stays(VARIABLE_ROWS@, rest, "('lower_case_table_names', '0')"@, 308);
    reveal_strlit("('version', '11.8.7-MariaDB-ubu2404')");
    assert(VARIABLE_ROWS@.subrange(668, 705) =~= "('version', '11.8.7-MariaDB-ubu2404')"@);
    lemma_stays(VARIABLE_ROWS@, rest, "('version', '11.8.7-MariaDB-ubu2404')"@, 668);
    reveal_strlit("('version_comment', 'MariaDB Server')");
    assert(VARIABLE_ROWS@.subrange(707, 744) =~= "('version_comment', 'MariaDB Server')"@);
    lemma_stays(VARIABLE_ROWS@, rest, "('version_comment', 'MariaDB Server')"@, 707);
    reveal_strlit("('transaction_isolation', current_setting('transaction_isolation'))");
    assert(VARIABLE_ROWS@.subrange(539, 606) =~= "('transaction_isolation', current_setting('transaction_isolation'))"@);
    lemma_stays(VARIABLE_ROWS@, rest, "('transaction_isolation', current_setting('transaction_isolation'))"@, 539);
}

#[verifier::spinoff_prover]
proof fn lemma_server_status(rest: Seq<char>)
    ensures
        occurs(STATUS_ROWS@ + rest, "'Connections'::text AS \"Variable_name\""@),
        occurs(STATUS_ROWS@ + rest, "'Threads_connected', COALESCE((SELECT count(*)::text FROM pg_stat_activity WHERE datname = current_database()), '0')"@),
        occurs(STATUS_ROWS@ + rest, "current_database() AND state = 'active'"@),
{
    reveal_strlit("WITH status_rows AS ( SELECT 'Connections'::text AS \"Variable_name\", COALESCE((SELECT sum(numbackends)::bigint::text FROM pg_stat_database), '0') AS \"Value\" UNION ALL SELECT 'Threads_connected', COALESCE((SELECT count(*)::text FROM pg_stat_activity WHERE datname = current_database()), '0') UNION ALL SELECT 'Threads_running', COALESCE((SELECT count(*)::text FROM pg_stat_activity WHERE datname = current_database() AND state = 'active'), '0') UNION ALL SELECT 'Uptime', extract(epoch FROM CURRENT_TIMESTAMP - pg_postmaster_start_time())::bigint::text ) SELECT \"Variable_name\", \"Value\" FROM status_rows");
    reveal_strlit("'Connections'::text AS \"Variable_name\"");
    assert(STATUS_ROWS@.subrange(29, 67) =~= "'Connections'::text AS \"Variable_name\""@);
    lemma_stays(STATUS_ROWS@, rest, "'Connections'::text AS \"Variable_name\""@, 29);
    reveal_strlit("'Threads_connected', COALESCE((SELECT count(*)::text FROM pg_stat_activity WHERE datname = current_database()), '0')");
    assert(STATUS_ROWS@.subrange(174, 290) =~= "'Threads_connected', COALESCE((SELECT count(*)::text FROM pg_stat_activity WHERE datname = current_database()), '0')"@);
    lemma_stays(STATUS_ROWS@, rest, "'Threads_connected', COALESCE((SELECT count(*)::text FROM pg_stat_activity WHERE datname = current_database()), '0')"@, 174);
    reveal_strlit("current_database() AND state = 'active'");
    assert(STATUS_ROWS@.subrange(397, 436) =~= "current_database() AND state = 'active'"@);
    lemma_stays(STATUS_ROWS@, rest, "current_database() AND state = 'active'"@, 397);
}

#[verifier::spinoff_prover]
proof fn lemma_charset_rows(rest: Seq<char>)
    ensures
        occurs(CHARSET_ROWS@ + rest, "('utf8mb4', 'UTF-8 Unicode', 'utf8mb4_unicode_ci', 4)"@),
        occurs(CHARSET_ROWS@ + rest, "('utf8', 'UTF-8 Unicode', 'utf8_general_ci', 3)"@),
        occurs(CHARSET_ROWS@ + rest, "(\"Charset\", \"Description\", \"Default collation\", \"Maxlen\")"@),
{
    reveal_strlit("SELECT * FROM (VALUES ('utf8mb4', 'UTF-8 Unicode', 'utf8mb4_unicode_ci', 4), ('utf8', 'UTF-8 Unicode', 'utf8_general_ci', 3), ('latin1', 'cp1252 West European', 'latin1_swedish_ci', 1) ) AS charset_rows(\"Charset\", \"Description\", \"Default collation\", \"Maxlen\")");
    reveal_strlit("('utf8mb4', 'UTF-8 Unicode', 'utf8mb4_unicode_ci', 4)");
    assert(CHARSET_ROWS@.subrange(22, 75) =~= "('utf8mb4', 'UTF-8 Unicode', 'utf8mb4_unicode_ci', 4)"@);
    lemma_stays(CHARSET_ROWS@, rest, "('utf8mb4', 'UTF-8 Unicode', 'utf8mb4_unicode_ci', 4)"@, 22);
    reveal_strlit("('utf8', 'UTF-8 Unicode', 'utf8_general_ci', 3)");
    assert(CHARSET_ROWS@.subrange(77, 124) =~= "('utf8', 'UTF-8 Unicode', 'utf8_general_ci', 3)"@);
    lemma_stays(CHARSET_ROWS@, rest, "('utf8', 'UTF-8 Unicode', 'utf8_general_ci', 3)"@, 77);
    reveal_strlit("(\"Charset\", \"Description\", \"Default collation\", \"Maxlen\")");
    assert(CHARSET_ROWS@.subrange(202, 259) =~= "(\"Charset\", \"Description\", \"Default collation\", \"Maxlen\")"@);
    lemma_stays(CHARSET_ROWS@, rest, "(\"Charset\", \"Description\", \"Default collation\", \"Maxlen\")"@, 202);
}

#[verifier::spinoff_prover]
proof fn lemma_collation_rows(rest: Seq<char>)
    ensures
        occurs(COLLATION_ROWS@ + rest, "('utf8mb4_general_ci', 'utf8mb4', 45, 'Yes', 'Yes', 1)"@),
        occurs(COLLATION_ROWS@ + rest, "('utf8_general_ci', 'utf8', 33, '', 'Yes', 1)"@),
        occurs(COLLATION_ROWS@ + rest, "(\"Collation\", \"Charset\", \"Id\", \"Default\", \"Compiled\", \"Sortlen\")"@),
{
    reveal_strlit("SELECT * FROM (VALUES ('utf8mb4_general_ci', 'utf8mb4', 45, 'Yes', 'Yes', 1), ('utf8mb4_unicode_ci', 'utf8mb4', 224, '', 'Yes', 8), ('utf8_general_ci', 'utf8', 33, '', 'Yes', 1), ('latin1_swedish_ci', 'latin1', 8, '', 'Yes', 1) ) AS collation_rows(\"Collation\", \"Charset\", \"Id\", \"Default\", \"Compiled\", \"Sortlen\")");
    reveal_strlit("('utf8mb4_general_ci', 'utf8mb4', 45, 'Yes', 'Yes', 1)");
    assert(COLLATION_ROWS@.subrange(22, 76) =~= "('utf8mb4_general_ci', 'utf8mb4', 45, 'Yes', 'Yes', 1)"@);
    lemma_stays(COLLATION_ROWS@, rest, "('utf8mb4_general_ci', 'utf8mb4', 45, 'Yes', 'Yes', 1)"@, 22);
    reveal_strlit("('utf8_general_ci', 'utf8', 33, '', 'Yes', 1)");
    assert(COLLATION_ROWS@.subrange(132, 177) =~= "('utf8_general_ci', 'utf8', 33, '', 'Yes', 1)"@);
    lemma_stays(COLLATION_ROWS@, rest, "('utf8_general_ci', 'utf8', 33, '', 'Yes', 1)"@, 132);
    reveal_strlit("(\"Collation\", \"Charset\", \"Id\", \"Default\", \"Compiled\", \"Sortlen\")");
    assert(COLLATION_ROWS@.subrange(247, 311) =~= "(\"Collation\", \"Charset\", \"Id\", \"Default\", \"Compiled\", \"Sortlen\")"@);
    lemma_stays(COLLATION_ROWS@, rest, "(\"Collation\", \"Charset\", \"Id\", \"Default\", \"Compiled\", \"Sortlen\")"@, 247);
}

/// SHOW VARIABLES, STATUS, CHARSET and COLLATION return the rows that a MySQL client expects, sorted
/// by name, and with LIKE only those whose name is like the pattern.
pub proof fn compatibility_rows_are_the_expected_ones(t: Tree)
    requires
        part(t, "filter"@) is Null,
        part(t, "global"@) != Tree::Bool(true),
    ensures
        show_variables_translation(t) is Ok,
        show_variables_translation(t)->Ok_0.0 == VARIABLE_ROWS@ + " ORDER BY \""@ + "Variable_name"@ + "\""@,
        occurs(show_variables_translation(t)->Ok_0.0, "('autocommit', 'ON')"@),
        occurs(show_variables_translation(t)->Ok_0.0, "('character_set_client', 'utf8mb4')"@),
        occurs(show_variables_translation(t)->Ok_0.0, "('max_allowed_packet', '67108864')"@),
        occurs(show_variables_translation(t)->Ok_0.0, "('sql_mode', 'NO_AUTO_VALUE_ON_ZERO')"@),
        occurs(show_variables_translation(t)->Ok_0.0, "('lower_case_table_names', '0')"@),
        occurs(show_variables_translation(t)->Ok_0.0, "('version', '11.8.7-MariaDB-ubu2404')"@),
        occurs(show_variables_translation(t)->Ok_0.0, "('version_comment', 'MariaDB Server')"@),
        occurs(show_variables_translation(t)->Ok_0.0, "('transaction_isolation', current_setting('transaction_isolation'))"@),
        show_status_translation(t) is Ok,
        show_status_translation(t)->Ok_0.0 == STATUS_ROWS@ + " ORDER BY \""@ + "Variable_name"@ + "\""@,
        occurs(show_status_translation(t)->Ok_0.0, "'Connections'::text AS \"Variable_name\""@),
        occurs(show_status_translation(t)->Ok_0.0, "'Threads_connected', COALESCE((SELECT count(*)::text FROM pg_stat_activity WHERE datname = current_database()), '0')"@),
        occurs(show_status_translation(t)->Ok_0.0, "current_database() AND state = 'active'"@),
        show_charset_translation(t).0 == CHARSET_ROWS@ + " ORDER BY \""@ + "Charset"@ + "\""@,
        occurs(show_charset_translation(t).0, "('utf8mb4', 'UTF-8 Unicode', 'utf8mb4_unicode_ci', 4)"@),
        occurs(show_charset_translation(t).0, "('utf8', 'UTF-8 Unicode', 'utf8_general_ci', 3)"@),
        occurs(show_charset_translation(t).0, "(\"Charset\", \"Description\", \"Default collation\", \"Maxlen\")"@),
        show_collation_translation(t).0 == COLLATION_ROWS@ + " ORDER BY \""@ + "Collation"@ + "\""@,
        occurs(show_collation_translation(t).0, "('utf8mb4_general_ci', 'utf8mb4', 45, 'Yes', 'Yes', 1)"@),
        occurs(show_collation_translation(t).0, "('utf8_general_ci', 'utf8', 33, '', 'Yes', 1)"@),
        occurs(show_collation_translation(t).0, "(\"Collation\", \"Charset\", \"Id\", \"Default\", \"Compiled\", \"Sortlen\")"@),
{
    let a = " ORDER BY \""@ + "Variable_name"@ + "\""@;
    let b = " ORDER BY \""@ + "Charset"@ + "\""@;
    let c = " ORDER BY \""@ + "Collation"@ + "\""@;
    lemma_variable_rows(a);
    lemma_server_status(a);
    lemma_charset_rows(b);
    lemma_collation_rows(c);
    assert(show_variables_translation(t)->Ok_0.0 =~= VARIABLE_ROWS@ + a);
    assert(show_status_translation(t)->Ok_0.0 =~= STATUS_ROWS@ + a);
    assert(show_charset_translation(t).0 =~= CHARSET_ROWS@ + b);
    assert(show_collation_translation(t).0 =~= COLLATION_ROWS@ + c);
}

#[verifier::spinoff_prover]
proof fn lemma_columns_view(rest: Seq<char>)
    ensures
        occurs(COLUMNS_VIEW@ + rest, "WHEN 'integer' THEN 'int(11)'"@),
        occurs(COLUMNS_VIEW@ + rest, "WHEN 'bigint' THEN 'bigint(20)'"@),
        occurs(COLUMNS_VIEW@ + rest, "WHEN 'text' THEN 'mediumtext'"@),
        occurs(COLUMNS_VIEW@ + rest, "THEN 'auto_increment' ELSE '' END AS extra"@),
{
    reveal_strlit("(SELECT c.*, CASE c.data_type WHEN 'integer' THEN 'int(11)' WHEN 'smallint' THEN 'smallint(6)' WHEN 'bigint' THEN 'bigint(20)' WHEN 'character varying' THEN 'varchar(' || c.character_maximum_length || ')' WHEN 'character' THEN 'char(' || c.character_maximum_length || ')' WHEN 'numeric' THEN COALESCE('decimal(' || c.numeric_precision || ',' || c.numeric_scale || ')', 'decimal') WHEN 'timestamp without time zone' THEN 'datetime' WHEN 'timestamp with time zone' THEN 'timestamp' WHEN 'text' THEN 'mediumtext' WHEN 'bytea' THEN 'longblob' WHEN 'real' THEN 'float' WHEN 'double precision' THEN 'double' WHEN 'jsonb' THEN 'json' ELSE c.data_type END AS column_type, CASE WHEN c.is_identity = 'YES' OR c.column_default LIKE 'nextval(%' THEN 'auto_increment' ELSE '' END AS extra, ''::text AS column_comment FROM information_schema.columns c) AS ");
    reveal_strlit("WHEN 'integer' THEN 'int(11)'");
    assert(COLUMNS_VIEW@.subrange(30, 59) =~= "WHEN 'integer' THEN 'int(11)'"@);
    lemma_stays(COLUMNS_VIEW@, rest, "WHEN 'integer' THEN 'int(11)'"@, 30);
    reveal_strlit("WHEN 'bigint' THEN 'bigint(20)'");
    assert(COLUMNS_VIEW@.subrange(95, 126) =~= "WHEN 'bigint' THEN 'bigint(20)'"@);
    lemma_stays(COLUMNS_VIEW@, rest, "WHEN 'bigint' THEN 'bigint(20)'"@, 95);
    reveal_strlit("WHEN 'text' THEN 'mediumtext'");
    assert(COLUMNS_VIEW@.subrange(480, 509) =~= "WHEN 'text' THEN 'mediumtext'"@);
    lemma_stays(COLUMNS_VIEW@, rest, "WHEN 'text' THEN 'mediumtext'"@, 480);
    reveal_strlit("THEN 'auto_increment' ELSE '' END AS extra");
    assert(COLUMNS_VIEW@.subrange(733, 775) =~= "THEN 'auto_increment' ELSE '' END AS extra"@);
    lemma_stays(COLUMNS_VIEW@, rest, "THEN 'auto_increment' ELSE '' END AS extra"@, 733);
}

#[verifier::spinoff_prover]
proof fn lemma_statistics_view(rest: Seq<char>)
    ensures
        occurs(STATISTICS_VIEW@ + rest, "ns.nspname AS table_schema, cls.relname AS table_name"@),
        occurs(STATISTICS_VIEW@ + rest, "CASE WHEN idx.indisunique THEN 0 ELSE 1 END AS non_unique"@),
        occurs(STATISTICS_VIEW@ + rest, "CASE WHEN idx.indisprimary THEN 'PRIMARY' ELSE ci.relname END AS index_name"@),
        occurs(STATISTICS_VIEW@ + rest, "key_columns.ordinality AS seq_in_index, att.attname AS column_name"@),
{
    reveal_strlit("(SELECT ns.nspname AS table_schema, cls.relname AS table_name, CASE WHEN idx.indisunique THEN 0 ELSE 1 END AS non_unique, ns.nspname AS index_schema, CASE WHEN idx.indisprimary THEN 'PRIMARY' ELSE ci.relname END AS index_name, key_columns.ordinality AS seq_in_index, att.attname AS column_name, 'A' AS collation, NULL::bigint AS cardinality, NULL::bigint AS sub_part, CASE WHEN att.attnotnull THEN '' ELSE 'YES' END AS nullable, 'BTREE' AS index_type FROM pg_class cls JOIN pg_namespace ns ON ns.oid = cls.relnamespace JOIN pg_index idx ON idx.indrelid = cls.oid JOIN pg_class ci ON ci.oid = idx.indexrelid JOIN LATERAL unnest(idx.indkey) WITH ORDINALITY AS key_columns(attnum, ordinality) ON TRUE JOIN pg_attribute att ON att.attrelid = cls.oid AND att.attnum = key_columns.attnum) AS ");
    reveal_strlit("ns.nspname AS table_schema, cls.relname AS table_name");
    assert(STATISTICS_VIEW@.subrange(8, 61) =~= "ns.nspname AS table_schema, cls.relname AS table_name"@);
    lemma_stays(STATISTICS_VIEW@, rest, "ns.nspname AS table_schema, cls.relname AS table_name"@, 8);
    reveal_strlit("CASE WHEN idx.indisunique THEN 0 ELSE 1 END AS non_unique");
    assert(STATISTICS_VIEW@.subrange(63, 120) =~= "CASE WHEN idx.indisunique THEN 0 ELSE 1 END AS non_unique"@);
    lemma_stays(STATISTICS_VIEW@, rest, "CASE WHEN idx.indisunique THEN 0 ELSE 1 END AS non_unique"@, 63);
    reveal_strlit("CASE WHEN idx.indisprimary THEN 'PRIMARY' ELSE ci.relname END AS index_name");
    assert(STATISTICS_VIEW@.subrange(150, 225) =~= "CASE WHEN idx.indisprimary THEN 'PRIMARY' ELSE ci.relname END AS index_name"@);
    lemma_stays(STATISTICS_VIEW@, rest, "CASE WHEN idx.indisprimary THEN 'PRIMARY' ELSE ci.relname END AS index_name"@, 150);
    reveal_strlit("key_columns.ordinality AS seq_in_index, att.attname AS column_name");
    assert(STATISTICS_VIEW@.subrange(227, 293) =~= "key_columns.ordinality AS seq_in_index, att.attname AS column_name"@);
    lemma_stays(STATISTICS_VIEW@, rest, "key_columns.ordinality AS seq_in_index, att.attname AS column_name"@, 227);
}

/// The catalog tables that applications read have the columns that MySQL's have.
pub proof fn catalog_tables_have_mysql_columns(name: Seq<char>)
    ensures
        occurs(derived_table(COLUMNS_VIEW@, name, None, Seq::empty()), "WHEN 'integer' THEN 'int(11)'"@),
        occurs(derived_table(COLUMNS_VIEW@, name, None, Seq::empty()), "WHEN 'bigint' THEN 'bigint(20)'"@),
        occurs(derived_table(COLUMNS_VIEW@, name, None, Seq::empty()), "WHEN 'text' THEN 'mediumtext'"@),
        occurs(derived_table(COLUMNS_VIEW@, name, None, Seq::empty()), "THEN 'auto_increment' ELSE '' END AS extra"@),
        occurs(derived_table(STATISTICS_VIEW@, name, None, Seq::empty()), "ns.nspname AS table_schema, cls.relname AS table_name"@),
        occurs(derived_table(STATISTICS_VIEW@, name, None, Seq::empty()), "CASE WHEN idx.indisunique THEN 0 ELSE 1 END AS non_unique"@),
        occurs(derived_table(STATISTICS_VIEW@, name, None, Seq::empty()), "CASE WHEN idx.indisprimary THEN 'PRIMARY' ELSE ci.relname END AS index_name"@),
        occurs(derived_table(STATISTICS_VIEW@, name, None, Seq::empty()), "key_columns.ordinality AS seq_in_index, att.attname AS column_name"@),
{
    let rest = name + Seq::<char>::empty();
    lemma_columns_view(rest);
    lemma_statistics_view(rest);
    assert(derived_table(COLUMNS_VIEW@, name, None, Seq::empty()) =~= COLUMNS_VIEW@ + rest);
    assert(derived_table(STATISTICS_VIEW@, name, None, Seq::empty()) =~= STATISTICS_VIEW@ + rest);
}

/// A pattern filters by the name of what is shown, and a condition by itself.
pub proof fn shown_rows_are_filtered_by_name(base: Seq<char>, pattern: Tree, condition: Tree, name: Seq<char>)
    ensures
        sorted_rows(base, tagged("Like"@, pattern), name) == "SELECT * FROM ("@ + base + ") AS show_meta WHERE "@ + ("\""@ + name
            + "\" LIKE "@ + string_literal(text_of(pattern))) + " ORDER BY \""@ + name + "\""@,
        sorted_rows(base, tagged("Where"@, condition), name) == "SELECT * FROM ("@ + base + ") AS show_meta WHERE "@ + shown(
            expr_sql(condition),
        ) + " ORDER BY \""@ + name + "\""@,
        sorted_rows(base, Tree::Null, name) == base + " ORDER BY \""@ + name + "\""@,
        named_filter(tagged("Like"@, pattern), name) == Ok::<Option<Seq<char>>, Failure>(
            Some(name + " LIKE "@ + string_literal(text_of(pattern))),
        ),
        named_filter(Tree::Null, name) == Ok::<Option<Seq<char>>, Failure>(None),
        named_filter(tagged("Where"@, condition), name) is Err,
{
    reveal_strlit("Like");
    reveal_strlit("Where");
    assert("Like"@.len() == 4);
    assert("Where"@.len() == 5);
}

/// SHOW TABLES, DATABASES, SCHEMAS and VIEWS list what they name: of a schema its own tables, by the
/// name that MySQL gives the column.
pub proof fn lists_are_those_of_their_schema(t: Tree, name: Tree)
    requires
        part(t, "terse"@) is Null || part(t, "terse"@) == Tree::Bool(false),
        part(t, "history"@) is Null || part(t, "history"@) == Tree::Bool(false),
        part(t, "extended"@) is Null || part(t, "extended"@) == Tree::Bool(false),
        part(t, "external"@) is Null || part(t, "external"@) == Tree::Bool(false),
        part(t, "materialized"@) is Null || part(t, "materialized"@) == Tree::Bool(false),
        part(part(t, "show_options"@), "starts_with"@) is Null,
        part(part(t, "show_options"@), "limit"@) is Null,
        part(part(t, "show_options"@), "limit_from"@) is Null,
        part(part(t, "show_options"@), "filter_position"@) is Null,
    ensures
        part(part(t, "show_options"@), "show_in"@) is Null && part(t, "full"@) != Tree::Bool(true) ==> show_tables_translation(
            t,
        ) is Ok && show_tables_translation(t)->Ok_0.0 == "SELECT table_name AS \""@ + "Tables_in_current_schema"@ + "\""@ + ""@
            + " FROM information_schema.tables WHERE table_schema = "@ + "current_schema()"@
            + " AND table_type IN ('BASE TABLE', 'VIEW')"@ + ""@ + " ORDER BY table_name"@,
        part(part(t, "show_options"@), "show_in"@) is Null && part(t, "full"@) == Tree::Bool(true) ==> show_tables_translation(
            t,
        ) is Ok && show_tables_translation(t)->Ok_0.0 == "SELECT table_name AS \""@ + "Tables_in_current_schema"@ + "\""@ + (
        ", "@ + "CASE WHEN table_type = 'VIEW' THEN 'VIEW' ELSE 'BASE TABLE' END AS "@ + "\"Table_type\""@)
            + " FROM information_schema.tables WHERE table_schema = "@ + "current_schema()"@
            + " AND table_type IN ('BASE TABLE', 'VIEW')"@ + ""@ + " ORDER BY table_name"@,
        part(part(part(t, "show_options"@), "show_in"@), "parent_name"@) == name && !(name is Null) && part(
            part(part(t, "show_options"@), "show_in"@),
            "parent_type"@,
        ) is Null && part(t, "full"@) != Tree::Bool(true) ==> show_tables_translation(t) is Ok && show_tables_translation(
            t,
        )->Ok_0.0 == "SELECT table_name AS \""@ + ("Tables_in_"@ + shown(object_name_sql(name))) + "\""@ + ""@
            + " FROM information_schema.tables WHERE table_schema = "@ + string_literal(shown(object_name_sql(name)))
            + " AND table_type IN ('BASE TABLE', 'VIEW')"@ + ""@ + " ORDER BY table_name"@,
        part(part(t, "show_options"@), "show_in"@) is Null ==> show_databases_translation(t) is Ok
            && show_databases_translation(t)->Ok_0.0
            == "SELECT datname AS \"Database\" FROM pg_database WHERE datistemplate = false"@ + ""@ + " ORDER BY datname"@,
        part(part(t, "show_options"@), "show_in"@) is Null ==> show_schemas_translation(t) is Ok && show_schemas_translation(
            t,
        )->Ok_0.0 == "SELECT schema_name AS \"Database\" FROM information_schema.schemata"@ + ""@ + " ORDER BY schema_name"@,
        part(part(t, "show_options"@), "show_in"@) is Null ==> show_views_translation(t) is Ok && show_views_translation(
            t,
        )->Ok_0.0 == "SELECT table_name AS \""@ + "Tables_in_current_schema"@
            + "\" FROM information_schema.views WHERE table_schema = "@ + "current_schema()"@ + ""@ + " ORDER BY table_name"@,
{
    reveal_strlit("Infix");
    reveal_strlit("Suffix");
    reveal_strlit("Where");
    reveal_strlit("");
    assert("Infix"@.len() == 5);
    assert("Suffix"@.len() == 6);
    assert("Where"@.len() == 5);
    assert(""@.len() == 0);
    assert("Infix"@[0] != "Where"@[0]);
}

/// SHOW COLUMNS describes the table that it names, with LIKE only the columns that are like the
/// pattern, and with FULL with more about each.
pub proof fn shown_columns_are_those_of_their_table(t: Tree, table: Tree)
    requires
        part(t, "extended"@) is Null || part(t, "extended"@) == Tree::Bool(false),
        part(part(t, "show_options"@), "starts_with"@) is Null,
        part(part(t, "show_options"@), "limit"@) is Null,
        part(part(t, "show_options"@), "limit_from"@) is Null,
        part(part(part(t, "show_options"@), "show_in"@), "parent_name"@) == table,
        !(table is Null),
        part(part(part(t, "show_options"@), "show_in"@), "parent_type"@) is Null,
    ensures
        part(t, "full"@) == Tree::Bool(true) ==> show_columns_translation(t) == describe_translation(
            table,
            crate::show::show_filter(part(t, "show_options"@)),
            true,
        ),
        part(t, "full"@) != Tree::Bool(true) ==> show_columns_translation(t) == describe_translation(
            table,
            crate::show::show_filter(part(t, "show_options"@)),
            false,
        ),
        forall|f: Tree|
            part(part(t, "show_options"@), "filter_position"@) == #[trigger] tagged("Suffix"@, f) || part(
                part(t, "show_options"@),
                "filter_position"@,
            ) == tagged("Infix"@, f) ==> crate::show::show_filter(part(t, "show_options"@)) == f,
        part(part(t, "show_options"@), "filter_position"@) is Null ==> crate::show::show_filter(part(t, "show_options"@)) is Null,
{
    reveal_strlit("Infix");
    reveal_strlit("Suffix");
    reveal_strlit("Table");
    reveal_strlit("");
    assert("Infix"@.len() == 5);
    assert("Suffix"@.len() == 6);
    assert("Table"@.len() == 5);
    assert(""@.len() == 0);
    assert("Infix"@[0] != "Table"@[0]);
}

/// The columns that are described are filtered by their own name, and listed tables by theirs.
pub proof fn patterns_are_held_against_names(table: Tree, pattern: Tree, full: bool, s: Option<Seq<char>>, r: Seq<char>)
    requires
        name_parts(table) == Ok::<(Option<Seq<char>>, Seq<char>), Failure>((s, r)),
    ensures
        describe_translation(table, tagged("Like"@, pattern), full) is Ok,
        describe_translation(table, tagged("Like"@, pattern), full)->Ok_0.0 == describe_sql(
            s,
            r,
            Some("c.column_name"@ + " LIKE "@ + string_literal(text_of(pattern))),
            full,
        ),
        describe_translation(table, tagged("Where"@, pattern), full) is Err,
{
    reveal_strlit("Like");
    reveal_strlit("Where");
    assert("Like"@.len() == 4);
    assert("Where"@.len() == 5);
}

/// SHOW TABLES with a pattern lists the tables whose names are like it, and with a condition those
/// that meet it.
pub proof fn tables_are_filtered_by_name(schema: Seq<char>, column: Seq<char>, full: bool, filter: Seq<char>)
    ensures
        crate::show::tables_sql(schema, column, false, Some(filter)) == "SELECT table_name AS \""@ + column + "\""@ + ""@
            + " FROM information_schema.tables WHERE table_schema = "@ + schema
            + " AND table_type IN ('BASE TABLE', 'VIEW')"@ + (" AND "@ + filter) + " ORDER BY table_name"@,
        crate::show::tables_where_sql(schema, column, false, filter) == "SELECT \""@ + column + "\""@ + ""@
            + " FROM (SELECT table_name AS \""@ + column + "\", "@ + (
        "CASE WHEN table_type = 'VIEW' THEN 'VIEW' ELSE 'BASE TABLE' END AS "@ + "table_type"@
            + " FROM information_schema.tables WHERE table_schema = "@ + schema
            + " AND table_type IN ('BASE TABLE', 'VIEW')"@ + ") AS show_tables WHERE "@ + filter + " ORDER BY 1"@),
{
}

/// DESCRIBE says whether a column counts up, and with FULL has the columns for privileges and
/// comments too.
pub proof fn full_descriptions_have_more_columns()
    ensures
        crate::show::extra_column(false) == " AS \"Extra\" "@,
        crate::show::extra_column(true) == " AS \"Extra\", NULL::text AS \"Privileges\", NULL::text AS \"Comment\" "@,
{
}

} // verus!
