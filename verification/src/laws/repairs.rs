//! How statements that PostgreSQL refuses are repaired.
use vstd::prelude::*;

use crate::compat::{compat_names, named_missing};
use crate::executor::DbFailure;
use crate::laws::inserts::are_quoted;
use crate::laws::sessions::is_name;
use crate::quoting::quoted_ident;
use crate::repair::{
    casts, column_inserted, column_list, conflict_retargeted, failure_move,
    implicit_default_literal, insert_columns, is_letter, is_transaction_control, letter_between,
    missing_function, source_coerced, tuples_extended, RepairMove, RepairState,
};
use crate::scan::{closing_paren_toggling, partner};
use crate::text::{
    begins, find_from, is_word, joined, lemma_find, lemma_find_first, lowered, occurs, occurs_at,
    skip_space, trimmed, trimmed_start, upper, uppered,
};

verus! {

proof fn lemma_starts(q: Seq<char>)
    ensures
        forall|p: Seq<char>| #[trigger] begins(q, p) && p.len() > 0 ==> q.len() >= p.len() && q[0] == p[0],
        forall|p: Seq<char>| #[trigger] begins(q, p) && p.len() > 1 ==> q[1] == p[1],
{
    assert forall|p: Seq<char>| #[trigger] begins(q, p) && p.len() > 0 implies q.len() >= p.len() && q[0] == p[0] by {
        assert(q.subrange(0, p.len() as int)[0] == q[0]);
    }
    assert forall|p: Seq<char>| #[trigger] begins(q, p) && p.len() > 1 implies q[1] == p[1] by {
        assert(q.subrange(0, p.len() as int)[1] == q[1]);
    }
}

/// A column that may not be null and was given no value takes MySQL's implicit default: an empty
/// text, zero, or no bytes. Dates and booleans have none.
pub proof fn implicit_defaults_fit_their_type(data_type: Seq<char>)
    ensures
        ({
            let t = lowered(data_type);
            let d = implicit_default_literal(data_type);
            &&& begins(t, "character"@) || begins(t, "varchar"@) || begins(t, "text"@) ==> d == Some("''"@)
            &&& begins(t, "smallint"@) || begins(t, "integer"@) || begins(t, "bigint"@) || begins(t, "numeric"@) || begins(
                t,
                "real"@,
            ) || begins(t, "double"@) ==> d == Some("0"@)
            &&& begins(t, "bytea"@) ==> d == Some("''::bytea"@)
            &&& begins(t, "boolean"@) || begins(t, "json"@) || begins(t, "uuid"@) ==> d is None
        }),
{
    let t = lowered(data_type);
    lemma_starts(t);
    reveal_strlit("character");
    reveal_strlit("varchar");
    reveal_strlit("text");
    reveal_strlit("citext");
    reveal_strlit("smallint");
    reveal_strlit("integer");
    reveal_strlit("bigint");
    reveal_strlit("numeric");
    reveal_strlit("decimal");
    reveal_strlit("real");
    reveal_strlit("double");
    reveal_strlit("bytea");
    reveal_strlit("boolean");
    reveal_strlit("json");
    reveal_strlit("uuid");
    assert("character"@.len() == 9 && "character"@[0] == 'c' && "character"@[1] == 'h');
    assert("varchar"@.len() == 7 && "varchar"@[0] == 'v' && "varchar"@[1] == 'a');
    assert("text"@.len() == 4 && "text"@[0] == 't' && "text"@[1] == 'e');
    assert("citext"@.len() == 6 && "citext"@[0] == 'c' && "citext"@[1] == 'i');
    assert("smallint"@.len() == 8 && "smallint"@[0] == 's' && "smallint"@[1] == 'm');
    assert("integer"@.len() == 7 && "integer"@[0] == 'i' && "integer"@[1] == 'n');
    assert("bigint"@.len() == 6 && "bigint"@[0] == 'b' && "bigint"@[1] == 'i');
    assert("numeric"@.len() == 7 && "numeric"@[0] == 'n' && "numeric"@[1] == 'u');
    assert("decimal"@.len() == 7 && "decimal"@[0] == 'd' && "decimal"@[1] == 'e');
    assert("real"@.len() == 4 && "real"@[0] == 'r' && "real"@[1] == 'e');
    assert("double"@.len() == 6 && "double"@[0] == 'd' && "double"@[1] == 'o');
    assert("bytea"@.len() == 5 && "bytea"@[0] == 'b' && "bytea"@[1] == 'y');
    assert("boolean"@.len() == 7 && "boolean"@[0] == 'b' && "boolean"@[1] == 'o');
    assert("json"@.len() == 4 && "json"@[0] == 'j' && "json"@[1] == 's');
    assert("uuid"@.len() == 4 && "uuid"@[0] == 'u' && "uuid"@[1] == 'u');
}

/// A refusal is answered by what mends it: a missing function is installed, a conflict target that
/// matches no key is looked up, a missing value is filled in. Anything else, and anything after too
/// many attempts, is given up.
pub proof fn refusals_are_mended_by_their_code(s: RepairState, e: &DbFailure)
    ensures
        s.attempts >= 24 ==> failure_move(s, e) == RepairMove::GiveUp,
        s.attempts < 24 && e.code@ == "42883"@ && missing_function(e) is Some ==> failure_move(s, e) == RepairMove::Install(
            missing_function(e)->Some_0,
        ),
        s.attempts < 24 && e.code@ == "42P10"@ && crate::executor::insert_table(s.sql) is Some ==> failure_move(s, e)
            == RepairMove::LookUpKey(crate::executor::insert_table(s.sql)->Some_0),
        s.attempts < 24 && e.code@ == "23502"@ && s.defaults && e.table is Some && e.column is Some ==> failure_move(s, e)
            == RepairMove::LookUpType(e.table->Some_0@, e.column->Some_0@),
        e.code@ == "23502"@ && !s.defaults ==> failure_move(s, e) == RepairMove::GiveUp,
        e.code@ == "23505"@ || e.code@ == "42P01"@ || e.code@ == "42601"@ ==> failure_move(s, e) == RepairMove::GiveUp,
{
    reveal_strlit("42883");
    reveal_strlit("42P10");
    reveal_strlit("23502");
    reveal_strlit("42804");
    reveal_strlit("23505");
    reveal_strlit("42P01");
    reveal_strlit("42601");
    assert("42883"@.len() == 5);
    assert("42P10"@.len() == 5);
    assert("23502"@.len() == 5);
    assert("42804"@.len() == 5);
    assert("23505"@.len() == 5);
    assert("42P01"@.len() == 5);
    assert("42601"@.len() == 5);
    assert("42883"@[2] != "42P10"@[2]);
    assert("42883"@[0] != "23502"@[0]);
    assert("42883"@[3] != "42804"@[3]);
    assert("42883"@[0] != "23505"@[0]);
    assert("42883"@[2] != "42P01"@[2]);
    assert("42883"@[2] != "42601"@[2]);
    assert("42P10"@[0] != "23502"@[0]);
    assert("42P10"@[2] != "42804"@[2]);
    assert("42P10"@[0] != "23505"@[0]);
    assert("42P10"@[3] != "42P01"@[3]);
    assert("42P10"@[2] != "42601"@[2]);
    assert("23502"@[0] != "42804"@[0]);
    assert("23502"@[4] != "23505"@[4]);
    assert("23502"@[0] != "42P01"@[0]);
    assert("23502"@[0] != "42601"@[0]);
    assert("42804"@[0] != "23505"@[0]);
    assert("42804"@[2] != "42P01"@[2]);
    assert("42804"@[2] != "42601"@[2]);
    assert("23505"@[0] != "42P01"@[0]);
    assert("23505"@[0] != "42601"@[0]);
    assert("42P01"@[2] != "42601"@[2]);
}

/// A missing function is found by its name, where the message names one that can be installed.
pub proof fn missing_functions_are_named(message: Seq<char>, i: int)
    requires
        0 <= i < 10,
        occurs(message, "function "@ + compat_names()[i] + "("@),
        forall|j: int| 0 <= j < i ==> !occurs(message, "function "@ + #[trigger] compat_names()[j] + "("@),
    ensures
        named_missing(message, 0) == Some(compat_names()[i]),
        compat_names() == seq![
            "crc32"@,
            "sha2"@,
            "weekday"@,
            "dayname"@,
            "monthname"@,
            "locate"@,
            "round"@,
            "hour"@,
            "dayofmonth"@,
            "hex"@,
        ],
{
    lemma_named(message, 0, i);
}

proof fn lemma_named(message: Seq<char>, from: int, i: int)
    requires
        0 <= from <= i < compat_names().len(),
        occurs(message, "function "@ + compat_names()[i] + "("@),
        forall|j: int| from <= j < i ==> !occurs(message, "function "@ + #[trigger] compat_names()[j] + "("@),
    ensures
        named_missing(message, from) == Some(compat_names()[i]),
    decreases i - from,
{
    if from < i {
        lemma_named(message, from + 1, i);
    }
}

/// A conflict target that matches no key is replaced by the columns of the key, all of them and in
/// order.
pub proof fn conflict_targets_become_the_key(sql: Seq<char>, keys: Seq<Seq<char>>, m: Seq<Option<(int, int)>>)
    requires
        keys.len() > 0,
        m.len() > 0,
        m[0] is Some,
    ensures
        exists|names: Seq<Seq<char>>| #[trigger] are_quoted(names, keys) && conflict_retargeted(sql, keys, seq![m]) == Some(
            sql.take(m[0]->Some_0.0) + ("ON CONFLICT ("@ + joined(names, ", "@) + ")"@) + sql.skip(m[0]->Some_0.1),
        ),
        conflict_retargeted(sql, Seq::empty(), seq![m]) is None,
        conflict_retargeted(sql, keys, Seq::empty()) is None,
{
    let names = crate::direct::all_quoted(keys);
    assert(are_quoted(names, keys));
}

/// Each column of a source is cast to the type of the column that it goes to.
pub proof fn sources_are_cast_to_their_columns(columns: Seq<Seq<char>>, types: Seq<Seq<char>>, i: int)
    requires
        0 <= i < columns.len(),
        columns.len() == types.len(),
    ensures
        casts(columns, types).len() == columns.len(),
        casts(columns, types)[i] == "CAST(coerced."@ + columns[i] + " AS "@ + types[i] + ")"@,
{
}

/// Whether a text has no quotes and no parentheses in it.
pub open spec fn is_flat(s: Seq<char>) -> bool {
    forall|i: int| 0 <= i < s.len() ==> (#[trigger] s[i]) != '(' && s[i] != ')' && s[i] != '\'' && s[i] != '"'
}

proof fn lemma_partner(s: Seq<char>, i: int, e: int)
    requires
        0 <= i <= e < s.len(),
        forall|j: int| i <= j < e ==> (#[trigger] s[j]) != '(' && s[j] != ')' && s[j] != '\'' && s[j] != '"',
        s[e] == ')',
    ensures
        closing_paren_toggling(s, i, None, 1, false) == e,
    decreases e - i,
{
    if i < e {
        assert(s[i] != '(' && s[i] != ')');
        lemma_partner(s, i + 1, e);
    }
}

proof fn lemma_open_at(s: Seq<char>, from: int, open: int)
    requires
        0 <= from <= open < s.len(),
        s[open] == '(',
        forall|j: int| from <= j < open ==> (#[trigger] s[j]) != '(',
    ensures
        find_from(s, seq!['('], from) == open,
{
    let p = seq!['('];
    assert(s.subrange(open, open + 1) =~= p);
    lemma_find_first(s, p, from, open);
    let at = find_from(s, p, from);
    assert(s.subrange(at, at + 1)[0] == s[at]);
}

proof fn lemma_no_open(s: Seq<char>, from: int)
    requires
        0 <= from,
        forall|j: int| from <= j < s.len() ==> (#[trigger] s[j]) != '(',
    ensures
        find_from(s, seq!['('], from) < from,
{
    let p = seq!['('];
    lemma_find(s, p, from);
    let at = find_from(s, p, from);
    if at >= from {
        assert(occurs_at(s, p, at));
        assert(s.subrange(at, at + 1)[0] == s[at]);
    }
}

/// A column that is supplied to an insert stands behind the columns that it names, and its value
/// behind the values of each of its rows.
pub proof fn supplied_columns_reach_every_row(
    table: Seq<char>,
    columns: Seq<char>,
    one: Seq<char>,
    two: Seq<char>,
    column: Seq<char>,
    value: Seq<char>,
)
    requires
        is_name(table),
        is_flat(columns),
        is_flat(one),
        is_flat(two),
    ensures
        column_inserted(
            "INSERT INTO "@ + table + " ("@ + columns + ") VALUES ("@ + one + ")"@,
            column,
            value,
        ) == Some(
            "INSERT INTO "@ + table + " ("@ + columns + ", "@ + quoted_ident(column) + ") VALUES ("@ + one + ", "@ + value
                + ")"@,
        ),
        column_inserted(
            "INSERT INTO "@ + table + " ("@ + columns + ") VALUES ("@ + one + "), ("@ + two + ")"@,
            column,
            value,
        ) == Some(
            "INSERT INTO "@ + table + " ("@ + columns + ", "@ + quoted_ident(column) + ") VALUES ("@ + one + ", "@ + value
                + "), ("@ + two + ", "@ + value + ")"@,
        ),
{
    lemma_one_row(table, columns, one, column, value);
    lemma_two_rows(table, columns, one, two, column, value);
}

/// The part of an insert in front of its first row.
spec fn insert_front(table: Seq<char>, columns: Seq<char>) -> Seq<char> {
    "INSERT INTO "@ + table + " ("@ + columns + ") VALUES ("@
}

proof fn lemma_front(table: Seq<char>, columns: Seq<char>, rest: Seq<char>)
    requires
        is_name(table),
        is_flat(columns),
    ensures
        ({
            let sql = insert_front(table, columns) + rest;
            let open = table.len() as int + 13;
            let close = open + 1 + columns.len();
            &&& find_from(sql, seq!['('], 0) == open
            &&& partner(sql, open, false) == close
            &&& skip_space(sql, close + 1) == close + 2
            &&& occurs_at(uppered(sql), "VALUES"@, close + 2)
            &&& begins(uppered(trimmed_start(sql)), "INSERT"@)
            &&& insert_front(table, columns).len() == close + 10
            &&& sql[close + 8] == ' '
            &&& sql[close + 9] == '('
            &&& sql.take(close) == "INSERT INTO "@ + table + " ("@ + columns
            &&& sql.subrange(close, close + 8) == ") VALUES"@
        }),
{
    reveal_strlit("INSERT INTO ");
    reveal_strlit(" (");
    reveal_strlit(") VALUES (");
    reveal_strlit(") VALUES");
    reveal_strlit("VALUES");
    reveal_strlit("INSERT");
    let sql = insert_front(table, columns) + rest;
    let open = table.len() as int + 13;
    let close = open + 1 + columns.len();
    assert forall|j: int| 0 <= j < open implies (#[trigger] sql[j]) != '(' by {
        if j < 12 {
            assert(sql[j] == "INSERT INTO "@[j]);
        } else if j < 12 + table.len() {
            assert(sql[j] == table[j - 12]);
            assert(is_word(table[j - 12]));
        } else {
            assert(sql[j] == " ("@[j - 12 - table.len()]);
        }
    }
    assert(sql[open] == " ("@[1]);
    lemma_open_at(sql, 0, open);
    assert forall|j: int| open + 1 <= j < close implies (#[trigger] sql[j]) != '(' && sql[j] != ')' && sql[j] != '\''
        && sql[j] != '"' by {
        assert(sql[j] == columns[j - open - 1]);
    }
    assert(sql[close] == ") VALUES ("@[0]);
    lemma_partner(sql, open + 1, close);
    assert(sql[close + 1] == ") VALUES ("@[1]);
    assert(sql[close + 2] == ") VALUES ("@[2]);
    assert(skip_space(sql, close + 2) == close + 2);
    let u = uppered(sql);
    assert(u.subrange(close + 2, close + 8) =~= "VALUES"@) by {
        assert forall|i: int| 0 <= i < 6 implies u.subrange(close + 2, close + 8)[i] == #[trigger] "VALUES"@[i] by {
            assert(sql[close + 2 + i] == ") VALUES ("@[2 + i]);
            assert(u[close + 2 + i] == upper(sql[close + 2 + i]));
        }
    }
    assert(sql[close + 8] == ") VALUES ("@[8]);
    assert(sql[close + 9] == ") VALUES ("@[9]);
    assert(sql[0] == 'I');
    assert(trimmed_start(sql) == sql);
    assert(u.subrange(0, 6) =~= "INSERT"@) by {
        assert forall|i: int| 0 <= i < 6 implies u.subrange(0, 6)[i] == #[trigger] "INSERT"@[i] by {
            assert(sql[i] == "INSERT INTO "@[i]);
            assert(u[i] == upper(sql[i]));
        }
    }
    assert(sql.take(close) =~= "INSERT INTO "@ + table + " ("@ + columns);
    assert(sql.subrange(close, close + 8) =~= ") VALUES"@) by {
        assert forall|i: int| 0 <= i < 8 implies sql.subrange(close, close + 8)[i] == #[trigger] ") VALUES"@[i] by {
            assert(sql[close + i] == ") VALUES ("@[i]);
        }
    }
}

proof fn lemma_last_tuple(s: Seq<char>, cursor: int, open: int, row: Seq<char>, value: Seq<char>)
    requires
        0 <= cursor <= open,
        open + row.len() + 2 == s.len(),
        s[open] == '(',
        forall|j: int| cursor <= j < open ==> (#[trigger] s[j]) == ' ' || s[j] == ',',
        s.subrange(open + 1, s.len() - 1) == row,
        is_flat(row),
        s.last() == ')',
    ensures
        tuples_extended(s, cursor, value) == Some((s.subrange(cursor, open) + "("@ + row + ", "@ + value + ")"@, true)),
{
    reveal_strlit("(");
    let close = s.len() - 1;
    assert forall|j: int| cursor <= j < open implies (#[trigger] s[j]) != '(' by {
        assert(s[j] == ' ' || s[j] == ',');
    }
    lemma_open_at(s, cursor, open);
    assert(!letter_between(s, cursor, open)) by {
        assert forall|j: int| cursor <= j < open implies !is_letter(#[trigger] s[j]) by {
            assert(s[j] == ' ' || s[j] == ',');
        }
    }
    assert forall|j: int| open + 1 <= j < close implies (#[trigger] s[j]) != '(' && s[j] != ')' && s[j] != '\'' && s[j]
        != '"' by {
        assert(s[j] == row[j - open - 1]);
    }
    lemma_partner(s, open + 1, close);
    lemma_no_open(s, close + 1);
    assert(tuples_extended(s, close + 1, value) == Some((s.skip(close + 1), false)));
    assert(s.skip(close + 1) =~= Seq::<char>::empty());
    assert(s.subrange(cursor, close) =~= s.subrange(cursor, open) + "("@ + row);
    let text = s.subrange(cursor, open) + "("@ + row + ", "@ + value + ")"@;
    assert(text + Seq::<char>::empty() =~= text);
}

proof fn lemma_one_row(table: Seq<char>, columns: Seq<char>, one: Seq<char>, column: Seq<char>, value: Seq<char>)
    requires
        is_name(table),
        is_flat(columns),
        is_flat(one),
    ensures
        column_inserted(
            "INSERT INTO "@ + table + " ("@ + columns + ") VALUES ("@ + one + ")"@,
            column,
            value,
        ) == Some(
            "INSERT INTO "@ + table + " ("@ + columns + ", "@ + quoted_ident(column) + ") VALUES ("@ + one + ", "@ + value
                + ")"@,
        ),
{
    reveal_strlit(")");
    reveal_strlit("(");
    reveal_strlit(") VALUES (");
    reveal_strlit(") VALUES");
    let rest = one + ")"@;
    let sql = "INSERT INTO "@ + table + " ("@ + columns + ") VALUES ("@ + one + ")"@;
    assert(sql =~= insert_front(table, columns) + rest);
    lemma_front(table, columns, rest);
    let open = table.len() as int + 13;
    let close = open + 1 + columns.len();
    let cursor = close + 8;
    let n = insert_front(table, columns).len() as int;
    assert(sql.subrange(n, sql.len() - 1) =~= one);
    assert(sql.last() == ')');
    lemma_last_tuple(sql, cursor, cursor + 1, one, value);
    let made = sql.take(close) + ", "@ + quoted_ident(column) + sql.subrange(close, cursor) + (sql.subrange(cursor, cursor + 1)
        + "("@ + one + ", "@ + value + ")"@);
    assert(column_inserted(sql, column, value) == Some(made));
    assert(sql.subrange(cursor, cursor + 1) =~= seq![' ']);
    assert(") VALUES"@ + seq![' '] + "("@ =~= ") VALUES ("@);
    assert(made =~= "INSERT INTO "@ + table + " ("@ + columns + ", "@ + quoted_ident(column) + ") VALUES ("@ + one + ", "@
        + value + ")"@);
}

proof fn lemma_first_tuple(s: Seq<char>, cursor: int, row: Seq<char>, value: Seq<char>, rest: Seq<char>)
    requires
        0 <= cursor,
        cursor + 2 + row.len() < s.len(),
        s[cursor] == ' ',
        s[cursor + 1] == '(',
        s.subrange(cursor + 2, cursor + 2 + row.len()) == row,
        is_flat(row),
        s[cursor + 2 + row.len()] == ')',
        tuples_extended(s, cursor + 3 + row.len(), value) == Some((rest, true)),
    ensures
        tuples_extended(s, cursor, value) == Some((" ("@ + row + ", "@ + value + ")"@ + rest, true)),
{
    reveal_strlit(" (");
    let end = cursor + 2 + row.len();
    assert forall|j: int| cursor <= j < cursor + 1 implies (#[trigger] s[j]) != '(' by {}
    lemma_open_at(s, cursor, cursor + 1);
    assert(!letter_between(s, cursor, cursor + 1)) by {
        assert(!is_letter(s[cursor]));
    }
    assert forall|j: int| cursor + 2 <= j < end implies (#[trigger] s[j]) != '(' && s[j] != ')' && s[j] != '\'' && s[j]
        != '"' by {
        assert(s[j] == row[j - cursor - 2]);
    }
    lemma_partner(s, cursor + 2, end);
    assert(s.subrange(cursor, end) =~= " ("@ + row) by {
        assert forall|j: int| 0 <= j < end - cursor implies s.subrange(cursor, end)[j] == #[trigger] (" ("@ + row)[j] by {
            if j >= 2 {
                assert(s.subrange(cursor + 2, end)[j - 2] == row[j - 2]);
            }
        }
    }
}

proof fn lemma_two_rows_text(front: Seq<char>, name: Seq<char>, one: Seq<char>, two: Seq<char>, value: Seq<char>)
    ensures
        front + ", "@ + name + ") VALUES"@ + (" ("@ + one + ", "@ + value + ")"@ + (seq![',', ' '] + "("@ + two + ", "@ + value
            + ")"@)) == front + ", "@ + name + ") VALUES ("@ + one + ", "@ + value + "), ("@ + two + ", "@ + value + ")"@,
{
    reveal_strlit(")");
    reveal_strlit("(");
    reveal_strlit(" (");
    reveal_strlit("), (");
    reveal_strlit(") VALUES (");
    reveal_strlit(") VALUES");
    let a = front + ", "@ + name;
    let b = one + ", "@ + value;
    let c = two + ", "@ + value + ")"@;
    assert(") VALUES"@ + " ("@ =~= ") VALUES ("@);
    assert(")"@ + seq![',', ' '] + "("@ =~= "), ("@);
    assert(a + ") VALUES"@ + (" ("@ + one + ", "@ + value + ")"@ + (seq![',', ' '] + "("@ + two + ", "@ + value + ")"@)) =~= a
        + (") VALUES"@ + " ("@) + b + (")"@ + seq![',', ' '] + "("@) + c);
    assert(a + ") VALUES ("@ + one + ", "@ + value + "), ("@ + two + ", "@ + value + ")"@ =~= a + ") VALUES ("@ + b + "), ("@
        + c);
}

proof fn lemma_two_rows(
    table: Seq<char>,
    columns: Seq<char>,
    one: Seq<char>,
    two: Seq<char>,
    column: Seq<char>,
    value: Seq<char>,
)
    requires
        is_name(table),
        is_flat(columns),
        is_flat(one),
        is_flat(two),
    ensures
        column_inserted(
            "INSERT INTO "@ + table + " ("@ + columns + ") VALUES ("@ + one + "), ("@ + two + ")"@,
            column,
            value,
        ) == Some(
            "INSERT INTO "@ + table + " ("@ + columns + ", "@ + quoted_ident(column) + ") VALUES ("@ + one + ", "@ + value
                + "), ("@ + two + ", "@ + value + ")"@,
        ),
{
    reveal_strlit(")");
    reveal_strlit("), (");
    let front = insert_front(table, columns);
    let rest = one + "), ("@ + two + ")"@;
    let sql = "INSERT INTO "@ + table + " ("@ + columns + ") VALUES ("@ + one + "), ("@ + two + ")"@;
    assert(sql =~= front + rest);
    lemma_front(table, columns, rest);
    let open = table.len() as int + 13;
    let close = open + 1 + columns.len();
    let cursor = close + 8;
    let n = front.len() as int;
    let end = n + one.len();
    let k = one.len() as int;
    assert(sql[end] == rest[k] && rest[k] == ')');
    assert(sql[end + 1] == rest[k + 1] && rest[k + 1] == ',');
    assert(sql[end + 2] == rest[k + 2] && rest[k + 2] == ' ');
    assert(sql[end + 3] == rest[k + 3] && rest[k + 3] == '(');
    assert(sql.subrange(end + 4, sql.len() - 1) =~= two);
    assert(sql.last() == ')');
    lemma_last_tuple(sql, end + 1, end + 3, two, value);
    assert(sql.subrange(end + 1, end + 3) =~= seq![',', ' ']);
    let tail = seq![',', ' '] + "("@ + two + ", "@ + value + ")"@;
    assert(sql.subrange(cursor + 2, cursor + 2 + one.len()) =~= one);
    lemma_first_tuple(sql, cursor, one, value, tail);
    lemma_two_rows_text("INSERT INTO "@ + table + " ("@ + columns, quoted_ident(column), one, two, value);
}

/// Statements that open, end or mark a transaction are told from those that read and write.
pub proof fn transaction_control_is_told_apart(sql: Seq<char>)
    ensures
        ({
            let q = uppered(trimmed_start(sql));
            &&& begins(q, "BEGIN"@) || begins(q, "START TRANSACTION"@) || begins(q, "COMMIT"@) || begins(q, "ROLLBACK"@)
                || begins(q, "SAVEPOINT"@) || begins(q, "RELEASE"@) ==> is_transaction_control(sql)
            &&& begins(q, "SELECT"@) || begins(q, "INSERT"@) || begins(q, "UPDATE"@) || begins(q, "DELETE"@)
                ==> !is_transaction_control(sql)
        }),
{
    let q = uppered(trimmed_start(sql));
    lemma_starts(q);
    reveal_strlit("BEGIN");
    reveal_strlit("START TRANSACTION");
    reveal_strlit("COMMIT");
    reveal_strlit("ROLLBACK");
    reveal_strlit("SAVEPOINT");
    reveal_strlit("RELEASE");
    reveal_strlit("SELECT");
    reveal_strlit("INSERT");
    reveal_strlit("UPDATE");
    reveal_strlit("DELETE");
    assert("BEGIN"@.len() == 5 && "BEGIN"@[0] == 'B' && "BEGIN"@[1] == 'E');
    assert("START TRANSACTION"@.len() == 17 && "START TRANSACTION"@[0] == 'S' && "START TRANSACTION"@[1] == 'T');
    assert("COMMIT"@.len() == 6 && "COMMIT"@[0] == 'C' && "COMMIT"@[1] == 'O');
    assert("ROLLBACK"@.len() == 8 && "ROLLBACK"@[0] == 'R' && "ROLLBACK"@[1] == 'O');
    assert("SAVEPOINT"@.len() == 9 && "SAVEPOINT"@[0] == 'S' && "SAVEPOINT"@[1] == 'A');
    assert("RELEASE"@.len() == 7 && "RELEASE"@[0] == 'R' && "RELEASE"@[1] == 'E');
    assert("SELECT"@.len() == 6 && "SELECT"@[0] == 'S' && "SELECT"@[1] == 'E');
    assert("INSERT"@.len() == 6 && "INSERT"@[0] == 'I' && "INSERT"@[1] == 'N');
    assert("UPDATE"@.len() == 6 && "UPDATE"@[0] == 'U' && "UPDATE"@[1] == 'P');
    assert("DELETE"@.len() == 6 && "DELETE"@[0] == 'D' && "DELETE"@[1] == 'E');
}

/// A source whose types do not fit is read as a table of its own, and each of its columns is cast to
/// the type of the column that it goes to; the columns, and what follows the source, stay.
pub proof fn sources_are_read_through_casts(
    sql: Seq<char>,
    types: Seq<Seq<char>>,
    found: Seq<Seq<Option<(int, int)>>>,
    open: int,
    close: int,
    columns: Seq<Seq<char>>,
)
    requires
        column_list(sql, found) == Some((open, close)),
        insert_columns(sql, found) == Some(columns),
        columns.len() == types.len(),
        !occurs(sql, ") AS coerced ("@),
        trimmed(sql.subrange(close + 1, sql.len() as int)).len() > 0,
    ensures
        exists|entries: Seq<Seq<char>>|
            entries.len() == columns.len() && (forall|i: int|
                0 <= i < columns.len() ==> #[trigger] entries[i] == "CAST(coerced."@ + columns[i] + " AS "@ + types[i] + ")"@)
                && source_coerced(sql, types, found, Seq::empty()) == Some(
                sql.take(close + 1) + " SELECT "@ + #[trigger] joined(entries, ", "@) + " FROM ("@ + trimmed(
                    sql.subrange(close + 1, sql.len() as int),
                ) + ") AS coerced ("@ + joined(columns, ", "@) + ")"@ + sql.skip(sql.len() as int),
            ),
        source_coerced(sql, types.push(Seq::empty()), found, Seq::empty()) is None,
{
    let entries = casts(columns, types);
    assert(source_coerced(sql, types, found, Seq::empty()) == Some(
        sql.take(close + 1) + " SELECT "@ + joined(entries, ", "@) + " FROM ("@ + trimmed(
            sql.subrange(close + 1, sql.len() as int),
        ) + ") AS coerced ("@ + joined(columns, ", "@) + ")"@ + sql.skip(sql.len() as int),
    ));
}

} // verus!
