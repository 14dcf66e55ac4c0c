//! What comes back from PostgreSQL, and what is sent to it.
use vstd::prelude::*;
use vstd::utf8::{encode_utf8, valid_utf8};

use crate::config::AppConfig;
use crate::error::{failure_message, Failure};
use crate::executor::{
    announced, connection_string_of, counted, counted_sql, encoding, failure_parts, field_bytes,
    first_step, identity_step, insert_table, kind_named, search_path_sql, total, ColumnKind,
    ColumnValue, Date, DbFailure, PgParam, StepKind, Time, WireType,
};
use crate::laws::records::numbers_read_back;
use crate::quoting::quoted_ident;
use crate::text::{decimal, digits_value, is_number_text, padded, trimmed};

verus! {

/// A value comes out as MySQL would send it: a boolean as 1 or 0, a text and bytes as they are, a
/// null as none.
pub proof fn values_come_out_as_mysql_sends_them(text: String, bytes: Vec<u8>, n: i64)
    ensures
        field_bytes(ColumnValue::Null) is None,
        field_bytes(ColumnValue::Bool(true)) == Some(encode_utf8("1"@)),
        field_bytes(ColumnValue::Bool(false)) == Some(encode_utf8("0"@)),
        field_bytes(ColumnValue::Text(text)) == Some(encode_utf8(text@)),
        field_bytes(ColumnValue::Bytes(bytes)) == Some(bytes@),
        n >= 0 ==> exists|s: Seq<char>|
            field_bytes(ColumnValue::Int(n)) == Some(#[trigger] encode_utf8(s)) && is_number_text(s) && digits_value(s) == n,
        n < 0 ==> exists|s: Seq<char>|
            field_bytes(ColumnValue::Int(n)) == Some(#[trigger] encode_utf8(seq!['-'] + s)) && is_number_text(s)
                && digits_value(s) == -n,
{
    reveal_strlit("-");
    if n >= 0 {
        numbers_read_back(n as nat, 0);
        assert(field_bytes(ColumnValue::Int(n)) == Some(encode_utf8(decimal(n as nat))));
    } else {
        numbers_read_back((-n) as nat, 0);
        let s = decimal((-n) as nat);
        assert("-"@ + s =~= seq!['-'] + s);
        assert(field_bytes(ColumnValue::Int(n)) == Some(encode_utf8(seq!['-'] + s)));
    }
}

/// A date comes out as year, month and day, a time as hour, minute and second, and both in a row
/// with a blank between them.
pub proof fn dates_and_times_come_out_in_order(d: Date, t: Time)
    requires
        0 <= d.year <= 9999,
    ensures
        field_bytes(ColumnValue::Date(d)) == Some(
            encode_utf8(padded(d.year as nat, 4) + "-"@ + padded(d.month as nat, 2) + "-"@ + padded(d.day as nat, 2)),
        ),
        field_bytes(ColumnValue::Time(t)) == Some(
            encode_utf8(padded(t.hour as nat, 2) + ":"@ + padded(t.minute as nat, 2) + ":"@ + padded(t.second as nat, 2)),
        ),
        field_bytes(ColumnValue::Timestamp(d, t)) == Some(
            encode_utf8(
                (padded(d.year as nat, 4) + "-"@ + padded(d.month as nat, 2) + "-"@ + padded(d.day as nat, 2)) + " "@ + (padded(
                    t.hour as nat,
                    2,
                ) + ":"@ + padded(t.minute as nat, 2) + ":"@ + padded(t.second as nat, 2)),
            ),
        ),
{
}

/// A column is announced to the client as what its type is: whole numbers as such, numbers with a
/// fraction as such, and everything else as text.
pub proof fn columns_are_announced_by_type(name: Seq<char>)
    ensures
        name == "bool"@ ==> kind_named(name) == ColumnKind::Bool,
        name == "int2"@ ==> kind_named(name) == ColumnKind::Int2,
        name == "int4"@ ==> kind_named(name) == ColumnKind::Int4,
        name == "int8"@ ==> kind_named(name) == ColumnKind::Int8,
        name == "float4"@ ==> kind_named(name) == ColumnKind::Float4,
        name == "float8"@ ==> kind_named(name) == ColumnKind::Float8,
        name == "text"@ ==> kind_named(name) == ColumnKind::Text,
        name == "varchar"@ ==> kind_named(name) == ColumnKind::Text,
        name == "bpchar"@ ==> kind_named(name) == ColumnKind::Text,
        name == "name"@ ==> kind_named(name) == ColumnKind::Text,
        name == "json"@ ==> kind_named(name) == ColumnKind::Json,
        name == "jsonb"@ ==> kind_named(name) == ColumnKind::Json,
        name == "bytea"@ ==> kind_named(name) == ColumnKind::Bytes,
        name == "timestamp"@ ==> kind_named(name) == ColumnKind::Timestamp,
        name == "timestamptz"@ ==> kind_named(name) == ColumnKind::TimestampTz,
        name == "date"@ ==> kind_named(name) == ColumnKind::Date,
        name == "time"@ ==> kind_named(name) == ColumnKind::Time,
        name == "numeric"@ ==> kind_named(name) == ColumnKind::Numeric,
        name == "bool"@ || name == "int2"@ || name == "int4"@ || name == "int8"@ ==> announced(kind_named(name))
            == WireType::Integer,
        name == "float4"@ || name == "float8"@ ==> announced(kind_named(name)) == WireType::Float,
        name == "text"@ || name == "varchar"@ || name == "bytea"@ || name == "json"@ || name == "numeric"@ || name == "date"@
            || name == "timestamp"@ || name == "uuid"@ ==> announced(kind_named(name)) == WireType::Text,
{
    reveal_strlit("bool");
    reveal_strlit("int2");
    reveal_strlit("int4");
    reveal_strlit("int8");
    reveal_strlit("float4");
    reveal_strlit("float8");
    reveal_strlit("text");
    reveal_strlit("varchar");
    reveal_strlit("bpchar");
    reveal_strlit("name");
    reveal_strlit("json");
    reveal_strlit("jsonb");
    reveal_strlit("bytea");
    reveal_strlit("timestamp");
    reveal_strlit("timestamptz");
    reveal_strlit("date");
    reveal_strlit("time");
    reveal_strlit("numeric");
    reveal_strlit("uuid");
    assert("bool"@.len() == 4);
    assert("int2"@.len() == 4);
    assert("int4"@.len() == 4);
    assert("int8"@.len() == 4);
    assert("float4"@.len() == 6);
    assert("float8"@.len() == 6);
    assert("text"@.len() == 4);
    assert("varchar"@.len() == 7);
    assert("bpchar"@.len() == 6);
    assert("name"@.len() == 4);
    assert("json"@.len() == 4);
    assert("jsonb"@.len() == 5);
    assert("bytea"@.len() == 5);
    assert("timestamp"@.len() == 9);
    assert("timestamptz"@.len() == 11);
    assert("date"@.len() == 4);
    assert("time"@.len() == 4);
    assert("numeric"@.len() == 7);
    assert("uuid"@.len() == 4);
    assert("bool"@[0] != "int2"@[0]);
    assert("bool"@[0] != "int4"@[0]);
    assert("bool"@[0] != "int8"@[0]);
    assert("bool"@[0] != "text"@[0]);
    assert("bool"@[0] != "name"@[0]);
    assert("bool"@[0] != "json"@[0]);
    assert("bool"@[0] != "date"@[0]);
    assert("bool"@[0] != "time"@[0]);
    assert("bool"@[0] != "uuid"@[0]);
    assert("int2"@[3] != "int4"@[3]);
    assert("int2"@[3] != "int8"@[3]);
    assert("int2"@[0] != "text"@[0]);
    assert("int2"@[0] != "name"@[0]);
    assert("int2"@[0] != "json"@[0]);
    assert("int2"@[0] != "date"@[0]);
    assert("int2"@[0] != "time"@[0]);
    assert("int2"@[0] != "uuid"@[0]);
    assert("int4"@[3] != "int8"@[3]);
    assert("int4"@[0] != "text"@[0]);
    assert("int4"@[0] != "name"@[0]);
    assert("int4"@[0] != "json"@[0]);
    assert("int4"@[0] != "date"@[0]);
    assert("int4"@[0] != "time"@[0]);
    assert("int4"@[0] != "uuid"@[0]);
    assert("int8"@[0] != "text"@[0]);
    assert("int8"@[0] != "name"@[0]);
    assert("int8"@[0] != "json"@[0]);
    assert("int8"@[0] != "date"@[0]);
    assert("int8"@[0] != "time"@[0]);
    assert("int8"@[0] != "uuid"@[0]);
    assert("float4"@[5] != "float8"@[5]);
    assert("float4"@[0] != "bpchar"@[0]);
    assert("float8"@[0] != "bpchar"@[0]);
    assert("text"@[0] != "name"@[0]);
    assert("text"@[0] != "json"@[0]);
    assert("text"@[0] != "date"@[0]);
    assert("text"@[1] != "time"@[1]);
    assert("text"@[0] != "uuid"@[0]);
    assert("varchar"@[0] != "numeric"@[0]);
    assert("name"@[0] != "json"@[0]);
    assert("name"@[0] != "date"@[0]);
    assert("name"@[0] != "time"@[0]);
    assert("name"@[0] != "uuid"@[0]);
    assert("json"@[0] != "date"@[0]);
    assert("json"@[0] != "time"@[0]);
    assert("json"@[0] != "uuid"@[0]);
    assert("jsonb"@[0] != "bytea"@[0]);
    assert("date"@[0] != "time"@[0]);
    assert("date"@[0] != "uuid"@[0]);
    assert("time"@[0] != "uuid"@[0]);
}

/// A parameter is sent as what it is: a null as none, a text in UTF-8, and bytes as they are, in
/// binary for a column of bytes. Bytes that are no text are refused for any other column.
pub proof fn parameters_are_sent_as_they_are(text: String, bytes: Vec<u8>, bytea: bool)
    ensures
        encoding(PgParam::Null, bytea) == Ok::<(bool, Option<Seq<u8>>), Failure>((false, None)),
        encoding(PgParam::Text(text), bytea) == Ok::<(bool, Option<Seq<u8>>), Failure>((false, Some(encode_utf8(text@)))),
        encoding(PgParam::Bytes(bytes), true) == Ok::<(bool, Option<Seq<u8>>), Failure>((true, Some(bytes@))),
        valid_utf8(bytes@) ==> encoding(PgParam::Bytes(bytes), false) == Ok::<(bool, Option<Seq<u8>>), Failure>(
            (false, Some(bytes@)),
        ),
        !valid_utf8(bytes@) ==> encoding(PgParam::Bytes(bytes), false) is Err,
{
}

/// The schema of a session comes first on the search path, and the public one behind it.
pub proof fn schemas_come_first(schema: Seq<char>)
    ensures
        trimmed(schema).len() > 0 ==> search_path_sql(Some(schema)) == Some(
            "SET search_path TO "@ + quoted_ident(schema) + ", public"@,
        ),
        trimmed(schema).len() == 0 ==> search_path_sql(Some(schema)) is None,
        search_path_sql(None) is None,
{
}

/// A refusal is reported with its code and message first, and then with each of its details under
/// its own label.
pub proof fn refusals_are_reported_in_full(e: &DbFailure)
    ensures
        failure_parts(e).len() > 0,
        failure_parts(e)[0] == "["@ + e.code@ + "] "@ + e.message@,
        e.detail is None && e.hint is None && e.schema is None && e.table is None && e.column is None && e.constraint is None
            ==> failure_parts(e).len() == 1,
        e.detail is Some && e.hint is Some && e.schema is Some && e.table is Some && e.column is Some && e.constraint is Some
            ==> failure_parts(e) == seq![
            "["@ + e.code@ + "] "@ + e.message@,
            "detail: "@ + e.detail->Some_0@,
            "hint: "@ + e.hint->Some_0@,
            "schema: "@ + e.schema->Some_0@,
            "table: "@ + e.table->Some_0@,
            "column: "@ + e.column->Some_0@,
            "constraint: "@ + e.constraint->Some_0@,
        ],
        e.detail is None && e.hint is None && e.schema is None && e.table is None && e.column is Some && e.constraint is None
            ==> failure_parts(e)[1] == "column: "@ + e.column->Some_0@,
        e.detail is Some ==> failure_parts(e)[1] == "detail: "@ + e.detail->Some_0@,
{
    if e.detail is Some && e.hint is Some && e.schema is Some && e.table is Some && e.column is Some && e.constraint is Some {
        assert(failure_parts(e) =~= seq![
            "["@ + e.code@ + "] "@ + e.message@,
            "detail: "@ + e.detail->Some_0@,
            "hint: "@ + e.hint->Some_0@,
            "schema: "@ + e.schema->Some_0@,
            "table: "@ + e.table->Some_0@,
            "column: "@ + e.column->Some_0@,
            "constraint: "@ + e.constraint->Some_0@,
        ]);
    }
}

/// An error says of what sort it is.
pub proof fn errors_say_their_sort(m: Seq<char>)
    ensures
        failure_message(Failure::Config(m)) == "configuration error: "@ + m,
        failure_message(Failure::Parse(m)) == "parse error: "@ + m,
        failure_message(Failure::Translation(m)) == "translation error: "@ + m,
        failure_message(Failure::Execution(m)) == "execution error: "@ + m,
{
}

/// An insert whose table has a column that counts up is run so that it returns how many rows it
/// inserted and the highest number that was given; any other statement that writes is counted, and
/// one that reads returns its rows.
pub proof fn statements_are_run_for_what_they_return(sql: Seq<char>, column: Seq<char>)
    ensures
        first_step(sql, true) == StepKind::Query,
        insert_table(sql) is Some ==> first_step(sql, false) == StepKind::LookUpIdentity(insert_table(sql)->Some_0),
        identity_step(sql, Some(column)) == StepKind::Capture(
            "WITH inserted_rows AS ("@ + sql + " RETURNING \""@ + column + "\") "@
                + "SELECT COUNT(*)::BIGINT AS __mw_row_count__, COALESCE(MAX(\""@ + column
                + "\"), 0)::BIGINT AS __mw_last_insert_id__ FROM inserted_rows"@,
        ),
{
    reveal_strlit("WITH ");
    reveal_strlit("inserted_rows");
    reveal_strlit(" AS (");
    reveal_strlit("WITH inserted_rows AS (");
    reveal_strlit("\"), 0)::BIGINT AS __mw_last_insert_id__ FROM ");
    reveal_strlit("\"), 0)::BIGINT AS __mw_last_insert_id__ FROM inserted_rows");
    assert("WITH "@ + "inserted_rows"@ + " AS ("@ =~= "WITH inserted_rows AS ("@);
    assert("\"), 0)::BIGINT AS __mw_last_insert_id__ FROM "@ + "inserted_rows"@
        =~= "\"), 0)::BIGINT AS __mw_last_insert_id__ FROM inserted_rows"@);
    let a = "WITH inserted_rows AS ("@ + sql + " RETURNING \""@ + column + "\") "@
        + "SELECT COUNT(*)::BIGINT AS __mw_row_count__, COALESCE(MAX(\""@ + column
        + "\"), 0)::BIGINT AS __mw_last_insert_id__ FROM inserted_rows"@;
    assert(counted_sql("inserted_rows"@, sql, column) =~= a);
}

/// Counts of several statements are added up, and a count that is negative counts for nothing.
pub proof fn counts_are_added_up(counts: Seq<u64>, n: int, one: i64)
    requires
        0 < n <= counts.len(),
    ensures
        total(counts, n) == total(counts, n - 1) + counts[n - 1],
        total(counts, 0) == 0,
        one >= 0 ==> counted(one) == one,
        one < 0 ==> counted(one) == 0,
{
}

/// The database is reached by the connection string of the configuration, by the driver that is
/// there, and by no other.
pub proof fn databases_are_reached_as_configured(cfg: &AppConfig)
    ensures
        cfg.postgres.driver@ == "tokio-postgres"@ ==> connection_string_of(cfg) == Ok::<Seq<char>, Failure>(
            cfg.postgres.connection_string@,
        ),
        cfg.postgres.driver@ != "tokio-postgres"@ ==> connection_string_of(cfg) matches Err(Failure::Config(_)),
{
}

/// A year has four digits, and a sign where four digits do not do.
pub proof fn years_are_written_in_full(y: int)
    ensures
        0 <= y <= 9999 ==> crate::executor::year_text(y) == padded(y as nat, 4),
        y > 9999 ==> crate::executor::year_text(y) == "+"@ + decimal(y as nat),
        y < 0 ==> crate::executor::year_text(y) == "-"@ + padded((-y) as nat, 4),
{
}

/// The table of an insert, and the column that an update counts up, are read from the statement.
pub proof fn statements_are_read_for_their_table(sql: Seq<char>)
    ensures
        insert_table(sql) == crate::executor::matched_name(
            sql,
            crate::regexes::regex_captures(
                r#"(?is)^\s*INSERT\s+INTO\s+(?:"([^"]+)"|([A-Za-z_][A-Za-z0-9_]*))(?:\s|\(|$)"#@,
                sql,
            ),
        ),
{
}

/// The value that an update counts up is returned under its column, from the statement without the
/// call that marked it.
pub proof fn counted_updates_return_their_value(
    sql: Seq<char>,
    m: Seq<Option<(int, int)>>,
    call: Seq<Option<(int, int)>>,
)
    requires
        m.len() == 3,
        m[1] is None,
        m[2] is Some,
        call.len() == 2,
        call[0] is Some,
        call[1] is Some,
    ensures
        ({
            let column = sql.subrange(m[2]->Some_0.0, m[2]->Some_0.1);
            let plain = sql.take(call[0]->Some_0.0) + sql.subrange(call[1]->Some_0.0, call[1]->Some_0.1) + sql.skip(
                call[0]->Some_0.1,
            );
            crate::executor::last_insert_id_update(sql, seq![m], seq![call]) == Some(
                (column, counted_sql("updated_rows"@, plain, column)),
            )
        }),
        crate::executor::last_insert_id_update(sql, Seq::empty(), seq![call]) is None,
{
}

} // verus!
