//! Repairs: what is done about a statement that PostgreSQL refuses and MySQL would take.
use vstd::prelude::*;

use crate::compat::{find_missing, named_missing};
use crate::direct::{all_quoted, quote_all};
use crate::executor::{
    extract_insert_table_name, insert_table, lower_text, to_unicode_lower, DbFailure,
};
use crate::quoting::{bare_name, quote_ident, quoted_ident, strip_name_quotes};
use crate::regexes::{
    captures, founds, match_inside, matches_inside, regex_captures, splice_first, spliced_first,
    Capture,
};
use crate::scan::{
    csv, mask_quoted_sql_fragments, masked, masking_keeps_positions, matching_paren_in, partner,
    split_sql_csv, split_sql_statements, statements_in,
};
use crate::text::{
    after_space, begins, cat3, cat5, cat9, chars_of, contains, find_chars, find_from, from_chars,
    is_ascii, is_lower, is_upper, join, joined, lemma_find, lowered, matches_at, occurs, occurs_at,
    opt_text, push_text, same, skip_space, slice, starts_with, texts, to_lower, to_upper, trim,
    trim_start, trimmed, trimmed_start, uppered,
};

verus! {

pub const CONFLICT_TARGET: &'static str = r"(?is)ON\s+CONFLICT\s*\([^)]*\)";

/// The SQLSTATE of a call of a function that does not exist.
pub const UNDEFINED_FUNCTION: &'static str = "42883";

/// The SQLSTATE of a conflict target that no unique index matches.
pub const INVALID_COLUMN_REFERENCE: &'static str = "42P10";

/// The SQLSTATE of a missing value for a column that may not be null.
pub const NOT_NULL_VIOLATION: &'static str = "23502";

/// The SQLSTATE of a value of a type that its column does not take.
pub const DATATYPE_MISMATCH: &'static str = "42804";

/// The known function that an error says is missing.
pub open spec fn missing_function(e: &DbFailure) -> Option<Seq<char>> {
    if e.code@ == UNDEFINED_FUNCTION@ {
        named_missing(lower_text(e.message@), 0)
    } else {
        None
    }
}

/// The known function that an error says is missing.
pub fn missing_compat_function_name(e: &DbFailure) -> (r: Option<&'static str>)
    ensures
        match r {
            Some(name) => missing_function(e) == Some(name@),
            None => missing_function(e) is None,
        },
{
    if !same(e.code.as_str(), UNDEFINED_FUNCTION) {
        return None;
    }
    find_missing(to_unicode_lower(e.message.as_str()).as_str())
}

/// MySQL's implicit default for a column of a type, as a literal.
pub open spec fn implicit_default_literal(data_type: Seq<char>) -> Option<Seq<char>> {
    let t = lowered(data_type);
    if begins(t, "character"@) || begins(t, "varchar"@) || begins(t, "text"@) || begins(t, "citext"@) {
        Some("''"@)
    } else if begins(t, "smallint"@) || begins(t, "integer"@) || begins(t, "bigint"@) || begins(t, "numeric"@)
        || begins(t, "decimal"@) || begins(t, "real"@) || begins(t, "double"@) {
        Some("0"@)
    } else if begins(t, "bytea"@) {
        Some("''::bytea"@)
    } else {
        None
    }
}

/// MySQL's implicit default for a column of a type. Dates have none that PostgreSQL
/// could hold.
pub fn mysql_implicit_default_literal(data_type: &str) -> (r: Option<&'static str>)
    ensures
        match r {
            Some(s) => implicit_default_literal(data_type@) == Some(s@),
            None => implicit_default_literal(data_type@) is None,
        },
{
    let lower = to_lower(data_type);
    let t = lower.as_str();
    if starts_with(t, "character") || starts_with(t, "varchar") || starts_with(t, "text") || starts_with(
        t,
        "citext",
    ) {
        Some("''")
    } else if starts_with(t, "smallint") || starts_with(t, "integer") || starts_with(t, "bigint") || starts_with(
        t,
        "numeric",
    ) || starts_with(t, "decimal") || starts_with(t, "real") || starts_with(t, "double") {
        Some("0")
    } else if starts_with(t, "bytea") {
        Some("''::bytea")
    } else {
        None
    }
}

/// Dates and times have no implicit default: MySQL's has no counterpart in PostgreSQL, and
/// no other instant is stored in its place.
pub proof fn dates_have_no_implicit_default(data_type: Seq<char>)
    requires
        begins(lowered(data_type), "date"@) || begins(lowered(data_type), "time"@),
    ensures
        implicit_default_literal(data_type) is None,
{
    let t = lowered(data_type);
    reveal_strlit("character");
    reveal_strlit("varchar");
    reveal_strlit("text");
    reveal_strlit("citext");
    reveal_strlit("smallint");
    reveal_strlit("integer");
    reveal_strlit("bigint");
    reveal_strlit("numeric");
    reveal_strlit("decimal");
    reveal_strlit("real");
    reveal_strlit("double");
    reveal_strlit("bytea");
    reveal_strlit("date");
    reveal_strlit("time");
    assert forall|p: Seq<char>| #[trigger] begins(t, p) && p.len() > 1 implies t.len() > 1 && t[0] == p[0] && t[1]
        == p[1] by {
        assert(t.subrange(0, p.len() as int)[0] == t[0]);
        assert(t.subrange(0, p.len() as int)[1] == t[1]);
    }
}

/// Whether `char::is_alphabetic` holds of a character that is not ASCII.
pub uninterp spec fn unicode_alphabetic(c: char) -> bool;

/// Whether a character is a letter.
pub open spec fn is_letter(c: char) -> bool {
    if is_ascii(c) {
        is_lower(c) || is_upper(c)
    } else {
        unicode_alphabetic(c)
    }
}

/// `char::is_alphabetic`: whether Unicode counts the character among letters, which of the
/// ASCII characters are `a` to `z` and `A` to `Z`.
#[verifier::external_body]
fn is_alphabetic(c: char) -> (r: bool)
    ensures
        r == (if is_ascii(c) {
            is_lower(c) || is_upper(c)
        } else {
            unicode_alphabetic(c)
        }),
{
    c.is_alphabetic()
}

/// Whether a letter stands in a text from `from` up to `to`.
pub open spec fn letter_between(s: Seq<char>, from: int, to: int) -> bool {
    exists|i: int| from <= i < to && is_letter(#[trigger] s[i])
}

fn has_letter_between(c: &Vec<char>, from: usize, to: usize) -> (r: bool)
    requires
        from <= to <= c@.len(),
    ensures
        r == letter_between(c@, from as int, to as int),
{
    let mut i: usize = from;
    while i < to
        invariant
            from <= i <= to <= c@.len(),
            forall|j: int| from <= j < i ==> !is_letter(#[trigger] c@[j]),
        decreases to - i,
    {
        if is_alphabetic(c[i]) {
            assert(is_letter(c@[i as int]));
            return true;
        }
        i = i + 1;
    }
    false
}

/// The text from `cursor` on with a value appended to each tuple of the list that starts
/// there, and whether there was a tuple. Nothing where a tuple is never closed.
pub open spec fn tuples_extended(s: Seq<char>, cursor: int, value: Seq<char>) -> Option<(Seq<char>, bool)>
    decreases s.len() - cursor,
{
    let open = find_from(s, seq!['('], cursor);
    if cursor < 0 || open < cursor || open >= s.len() || letter_between(s, cursor, open) {
        Some((s.skip(cursor), false))
    } else {
        let close = partner(s, open, false);
        if close <= open || close >= s.len() {
            None
        } else {
            match tuples_extended(s, close + 1, value) {
                None => None,
                Some(rest) => Some((s.subrange(cursor, close) + ", "@ + value + ")"@ + rest.0, true)),
            }
        }
    }
}

fn extend_tuples(c: &Vec<char>, cursor: usize, value: &str) -> (r: Option<(String, bool)>)
    requires
        cursor <= c@.len(),
    ensures
        match r {
            Some((s, any)) => tuples_extended(c@, cursor as int, value@) == Some((s@, any)),
            None => tuples_extended(c@, cursor as int, value@) is None,
        },
    decreases c@.len() - cursor,
{
    let n: usize = c.len();
    let mut p: Vec<char> = Vec::new();
    p.push('(');
    assert(p@ =~= seq!['(']);
    proof {
        lemma_find(c@, p@, cursor as int);
    }
    let rest = from_chars(c, cursor, n);
    assert(rest@ =~= c@.skip(cursor as int));
    let open = match find_chars(c, &p, cursor) {
        Some(k) => k,
        None => return Some((rest, false)),
    };
    if has_letter_between(c, cursor, open) {
        return Some((rest, false));
    }
    match matching_paren_in(c, open, false) {
        None => None,
        Some(close) => match extend_tuples(c, close + 1, value) {
            None => None,
            Some((tail, _)) => {
                let head = from_chars(c, cursor, close);
                Some((cat5(head.as_str(), ", ", value, ")", tail.as_str()), true))
            },
        },
    }
}

/// An INSERT with a column added to its column list and a value to each of its tuples.
/// Nothing for a statement of any other shape than a column list with VALUES right behind
/// it.
pub open spec fn column_inserted(sql: Seq<char>, column: Seq<char>, value: Seq<char>) -> Option<Seq<char>> {
    let open = find_from(sql, seq!['('], 0);
    let close = partner(sql, open, false);
    let keyword = skip_space(sql, close + 1);
    if open < 0 || close < 0 || !begins(uppered(trimmed_start(sql)), "INSERT"@) || !occurs_at(
        uppered(sql),
        "VALUES"@,
        keyword,
    ) {
        None
    } else {
        match tuples_extended(sql, keyword + 6, value) {
            None => None,
            Some(tuples) => if tuples.1 {
                Some(
                    sql.take(close) + ", "@ + quoted_ident(column) + sql.subrange(close, keyword + 6)
                        + tuples.0,
                )
            } else {
                None
            },
        }
    }
}

/// Adds a column to an INSERT's column list and a value to each of its tuples, leaving
/// what follows the tuples untouched.
pub fn insert_column_with_value(sql: &str, column: &str, value: &str) -> (r: Option<String>)
    ensures
        opt_text(r) == column_inserted(sql@, column@, value@),
{
    let first = to_upper(trim_start(sql).as_str());
    if !starts_with(first.as_str(), "INSERT") {
        return None;
    }
    let c = chars_of(sql);
    let mut p: Vec<char> = Vec::new();
    p.push('(');
    assert(p@ =~= seq!['(']);
    proof {
        lemma_find(c@, p@, 0);
        reveal_strlit("VALUES");
    }
    let open = match find_chars(&c, &p, 0) {
        Some(k) => k,
        None => return None,
    };
    let close = match matching_paren_in(&c, open, false) {
        Some(k) => k,
        None => return None,
    };
    let upper = to_upper(sql);
    let u = chars_of(upper.as_str());
    let v = chars_of("VALUES");
    let keyword = after_space(&c, close + 1);
    if !matches_at(&u, &v, keyword) {
        return None;
    }
    match extend_tuples(&c, keyword + 6, value) {
        None => None,
        Some((tuples, any)) => {
            if !any {
                return None;
            }
            let head = from_chars(&c, 0, close);
            let middle = from_chars(&c, close, keyword + 6);
            assert(head@ =~= sql@.take(close as int));
            Some(
                cat5(
                    head.as_str(),
                    ", ",
                    quote_ident(column).as_str(),
                    middle.as_str(),
                    tuples.as_str(),
                ),
            )
        },
    }
}

/// An upsert aimed at the given key columns; `found` are the matches of
/// [`CONFLICT_TARGET`].
pub open spec fn conflict_retargeted(
    sql: Seq<char>,
    keys: Seq<Seq<char>>,
    found: Seq<Seq<Option<(int, int)>>>,
) -> Option<Seq<char>> {
    if keys.len() == 0 || found.len() == 0 {
        None
    } else {
        Some(
            spliced_first(sql, found, "ON CONFLICT ("@ + joined(all_quoted(keys), ", "@) + ")"@),
        )
    }
}

/// Aims a matched conflict target at the given key columns.
pub fn retarget_conflict(sql: &str, keys: &Vec<String>, found: &Vec<Capture>) -> (r: Option<String>)
    requires
        matches_inside(founds(found@), sql@.len() as int),
    ensures
        opt_text(r) == conflict_retargeted(sql@, texts(keys@), founds(found@)),
{
    if keys.len() == 0 || found.len() == 0 {
        return None;
    }
    let target = join(&quote_all(keys), ", ");
    let clause = cat3("ON CONFLICT (", target.as_str(), ")");
    Some(splice_first(sql, found, clause.as_str()))
}

/// Aims `ON CONFLICT (...)` at the table's real primary key.
pub fn repair_on_conflict_target(sql: &str, key_columns: &Vec<String>) -> (r: Option<String>)
    ensures
        opt_text(r) == conflict_retargeted(
            sql@,
            texts(key_columns@),
            regex_captures(CONFLICT_TARGET@, sql@),
        ),
{
    let found = captures(CONFLICT_TARGET, sql);
    retarget_conflict(sql, key_columns, &found)
}

pub const INSERT_COLUMNS: &'static str =
    r#"(?is)^\s*INSERT\s+INTO\s+(?:"[^"]+"|[A-Za-z_][A-Za-z0-9_]*)\s*\("#;

pub const INSERT_TAIL: &'static str = r"(?is)\s(?:ON\s+CONFLICT|RETURNING)\b.*$";

/// What marks an INSERT whose source was already cast.
pub const COERCED: &'static str = ") AS coerced (";

/// The positions of the parentheses around the column list of an INSERT; `found` are the
/// matches of [`INSERT_COLUMNS`].
pub open spec fn column_list(sql: Seq<char>, found: Seq<Seq<Option<(int, int)>>>) -> Option<(int, int)> {
    if found.len() == 0 {
        None
    } else {
        let open = found[0][0]->Some_0.1 - 1;
        let close = partner(sql, open, false);
        if close < 0 {
            None
        } else {
            Some((open, close))
        }
    }
}

/// The columns of an INSERT, as they are written.
pub open spec fn insert_columns(sql: Seq<char>, found: Seq<Seq<Option<(int, int)>>>) -> Option<Seq<Seq<char>>> {
    match column_list(sql, found) {
        Some(list) => match csv(sql.subrange(list.0 + 1, list.1)) {
            Ok(columns) => Some(columns),
            Err(_) => None,
        },
        None => None,
    }
}

/// `CAST(coerced.<column> AS <type>)` for each column.
pub open spec fn casts(columns: Seq<Seq<char>>, types: Seq<Seq<char>>) -> Seq<Seq<char>> {
    Seq::new(columns.len(), |i: int| "CAST(coerced."@ + columns[i] + " AS "@ + types[i] + ")"@)
}

/// Where what follows the source of an INSERT starts; `tail` are the matches of
/// [`INSERT_TAIL`] in the masked text.
pub open spec fn source_end(sql: Seq<char>, close: int, tail: Seq<Seq<Option<(int, int)>>>) -> int {
    if tail.len() > 0 && tail[0][0]->Some_0.0 > close {
        tail[0][0]->Some_0.0
    } else {
        sql.len() as int
    }
}

/// An INSERT whose source stands in a derived table, each column cast to the type of its
/// target.
pub open spec fn source_coerced(
    sql: Seq<char>,
    types: Seq<Seq<char>>,
    found: Seq<Seq<Option<(int, int)>>>,
    tail: Seq<Seq<Option<(int, int)>>>,
) -> Option<Seq<char>> {
    match (column_list(sql, found), insert_columns(sql, found)) {
        (Some(list), Some(columns)) => {
            let end = source_end(sql, list.1, tail);
            let source = trimmed(sql.subrange(list.1 + 1, end));
            if columns.len() != types.len() || source.len() == 0 || occurs(sql, COERCED@) {
                None
            } else {
                Some(
                    sql.take(list.1 + 1) + " SELECT "@ + joined(casts(columns, types), ", "@) + " FROM ("@ + source
                        + COERCED@ + joined(columns, ", "@) + ")"@ + sql.skip(end),
                )
            }
        },
        _ => None,
    }
}

fn find_column_list(sql: &str, found: &Vec<Capture>) -> (r: Option<(usize, usize)>)
    requires
        matches_inside(founds(found@), sql@.len() as int),
    ensures
        match r {
            Some((a, b)) => column_list(sql@, founds(found@)) == Some((a as int, b as int)) && a < b < sql@.len(),
            None => column_list(sql@, founds(found@)) is None,
        },
{
    if found.len() == 0 {
        return None;
    }
    assert(match_inside(founds(found@)[0], sql@.len() as int));
    let end = found[0].end(sql);
    if end == 0 {
        return None;
    }
    let c = chars_of(sql);
    match matching_paren_in(&c, end - 1, false) {
        Some(close) => Some((end - 1, close)),
        None => None,
    }
}

fn read_insert_columns(sql: &str, found: &Vec<Capture>) -> (r: Option<Vec<String>>)
    requires
        matches_inside(founds(found@), sql@.len() as int),
    ensures
        match r {
            Some(v) => insert_columns(sql@, founds(found@)) == Some(texts(v@)),
            None => insert_columns(sql@, founds(found@)) is None,
        },
{
    match find_column_list(sql, found) {
        Some((open, close)) => {
            let raw = slice(sql, open + 1, close);
            match split_sql_csv(raw.as_str()) {
                Ok(v) => Some(v),
                Err(_) => None,
            }
        },
        None => None,
    }
}

fn render_casts(columns: &Vec<String>, types: &Vec<String>) -> (r: Vec<String>)
    requires
        columns@.len() == types@.len(),
    ensures
        texts(r@) == casts(texts(columns@), texts(types@)),
{
    let mut out: Vec<String> = Vec::new();
    let mut i: usize = 0;
    while i < columns.len()
        invariant
            columns@.len() == types@.len(),
            i <= columns@.len(),
            texts(out@) =~= casts(texts(columns@), texts(types@)).take(i as int),
        decreases columns.len() - i,
    {
        push_text(&mut out, cat5("CAST(coerced.", columns[i].as_str(), " AS ", types[i].as_str(), ")"));
        i = i + 1;
        assert(texts(out@) =~= casts(texts(columns@), texts(types@)).take(i as int));
    }
    assert(texts(out@) =~= casts(texts(columns@), texts(types@)));
    out
}

/// Puts the source of a matched INSERT into a derived table and casts its columns.
pub fn coerce_source(sql: &str, types: &Vec<String>, found: &Vec<Capture>, tail: &Vec<Capture>) -> (r: Option<
    String,
>)
    requires
        matches_inside(founds(found@), sql@.len() as int),
        matches_inside(founds(tail@), sql@.len() as int),
    ensures
        opt_text(r) == source_coerced(sql@, texts(types@), founds(found@), founds(tail@)),
{
    let (_, close) = match find_column_list(sql, found) {
        Some(list) => list,
        None => return None,
    };
    let columns = match read_insert_columns(sql, found) {
        Some(v) => v,
        None => return None,
    };
    let n: usize = sql.unicode_len();
    let mut end: usize = n;
    if tail.len() > 0 {
        assert(match_inside(founds(tail@)[0], sql@.len() as int));
        let start = tail[0].start(sql);
        if start > close {
            end = start;
        }
    }
    let raw = slice(sql, close + 1, end);
    let source = trim(raw.as_str());
    assert(texts(columns@).len() == columns@.len());
    assert(texts(types@).len() == types@.len());
    if columns.len() != types.len() || source.as_str().is_empty() || contains(sql, COERCED) {
        return None;
    }
    let head = slice(sql, 0, close + 1);
    let rest = slice(sql, end, n);
    assert(head@ =~= sql@.take(close + 1));
    assert(rest@ =~= sql@.skip(end as int));
    Some(
        cat9(
            head.as_str(),
            " SELECT ",
            join(&render_casts(&columns, types), ", ").as_str(),
            " FROM (",
            source.as_str(),
            COERCED,
            join(&columns, ", ").as_str(),
            ")",
            rest.as_str(),
        ),
    )
}

/// The INSERT whose source is cast, of a statement as it is.
pub open spec fn coerced_insert(sql: Seq<char>, types: Seq<Seq<char>>) -> Option<Seq<char>> {
    source_coerced(
        sql,
        types,
        regex_captures(INSERT_COLUMNS@, sql),
        regex_captures(INSERT_TAIL@, masked(sql)),
    )
}

/// A source is cast once: a statement whose source was cast is not changed again.
pub proof fn sources_are_cast_once(sql: Seq<char>, types: Seq<Seq<char>>, more: Seq<Seq<char>>)
    ensures
        match coerced_insert(sql, types) {
            Some(cast) => coerced_insert(cast, more) is None,
            None => true,
        },
{
    match coerced_insert(sql, types) {
        Some(cast) => {
            let found = regex_captures(INSERT_COLUMNS@, sql);
            let tail = regex_captures(INSERT_TAIL@, masked(sql));
            let list = column_list(sql, found)->Some_0;
            let columns = insert_columns(sql, found)->Some_0;
            let end = source_end(sql, list.1, tail);
            let head = sql.take(list.1 + 1) + " SELECT "@ + joined(casts(columns, types), ", "@) + " FROM ("@ + trimmed(
                sql.subrange(list.1 + 1, end),
            );
            let rest = joined(columns, ", "@) + ")"@ + sql.skip(end);
            assert(cast =~= head + COERCED@ + rest);
            assert(cast.subrange(head.len() as int, (head.len() + COERCED@.len()) as int) =~= COERCED@);
            assert(occurs_at(cast, COERCED@, head.len() as int));
        },
        None => {},
    }
}

/// MySQL coerces freely between text and numbers; PostgreSQL refuses. Casts each column
/// of an INSERT's source, be it a query or a list of values, to the type of its target.
pub fn coerce_insert_source(sql: &str, types: &Vec<String>) -> (r: Option<String>)
    ensures
        opt_text(r) == coerced_insert(sql@, texts(types@)),
{
    let found = captures(INSERT_COLUMNS, sql);
    let hidden = mask_quoted_sql_fragments(sql);
    proof {
        masking_keeps_positions(sql@);
    }
    let tail = captures(INSERT_TAIL, hidden.as_str());
    coerce_source(sql, types, &found, &tail)
}

/// The columns of an INSERT without their quotes.
pub open spec fn bare_columns(sql: Seq<char>) -> Option<Seq<Seq<char>>> {
    match insert_columns(sql, regex_captures(INSERT_COLUMNS@, sql)) {
        Some(columns) => Some(Seq::new(columns.len(), |i: int| bare_name(columns[i]))),
        None => None,
    }
}

fn read_bare_columns(sql: &str) -> (r: Option<Vec<String>>)
    ensures
        match r {
            Some(v) => bare_columns(sql@) == Some(texts(v@)),
            None => bare_columns(sql@) is None,
        },
{
    let found = captures(INSERT_COLUMNS, sql);
    match read_insert_columns(sql, &found) {
        Some(columns) => {
            let mut out: Vec<String> = Vec::new();
            let mut i: usize = 0;
            let ghost want = Seq::new(texts(columns@).len(), |i: int| bare_name(texts(columns@)[i]));
            while i < columns.len()
                invariant
                    i <= columns@.len(),
                    want == Seq::new(texts(columns@).len(), |i: int| bare_name(texts(columns@)[i])),
                    texts(out@) =~= want.take(i as int),
                decreases columns.len() - i,
            {
                push_text(&mut out, strip_name_quotes(columns[i].as_str()));
                i = i + 1;
                assert(texts(out@) =~= want.take(i as int));
            }
            assert(texts(out@) =~= want);
            Some(out)
        },
        None => None,
    }
}

/// Whether a statement opens, ends or marks a transaction.
pub open spec fn is_transaction_control(sql: Seq<char>) -> bool {
    let q = uppered(trimmed_start(sql));
    begins(q, "BEGIN"@) || begins(q, "START TRANSACTION"@) || begins(q, "COMMIT"@) || begins(q, "ROLLBACK"@) || begins(
        q,
        "SAVEPOINT"@,
    ) || begins(q, "RELEASE"@)
}

/// Whether one of the statements of a text opens, ends or marks a transaction.
pub open spec fn controls_transaction(sql: Seq<char>) -> bool {
    exists|i: int| 0 <= i < statements_in(sql).len() && is_transaction_control(#[trigger] statements_in(sql)[i])
}

fn controls_alone(sql: &str) -> (r: bool)
    ensures
        r == is_transaction_control(sql@),
{
    let start = trim_start(sql);
    let upper = to_upper(start.as_str());
    let q = upper.as_str();
    starts_with(q, "BEGIN") || starts_with(q, "START TRANSACTION") || starts_with(q, "COMMIT") || starts_with(
        q,
        "ROLLBACK",
    ) || starts_with(q, "SAVEPOINT") || starts_with(q, "RELEASE")
}

/// Whether a text is sent under a savepoint. A failed statement aborts a PostgreSQL
/// transaction, so that within one neither a repaired statement nor the lookup for the
/// repair would be accepted without it.
pub fn repairs_under_savepoint(in_transaction: bool, sql: &str) -> (r: bool)
    ensures
        r == (in_transaction && !controls_transaction(sql@)),
{
    let list = split_sql_statements(sql);
    let mut i: usize = 0;
    while i < list.len()
        invariant
            i <= list@.len(),
            texts(list@) == statements_in(sql@),
            forall|j: int| 0 <= j < i ==> !is_transaction_control(#[trigger] texts(list@)[j]),
        decreases list.len() - i,
    {
        if controls_alone(list[i].as_str()) {
            assert(is_transaction_control(texts(list@)[i as int]));
            return false;
        }
        i = i + 1;
    }
    assert(texts(list@).len() == list@.len());
    in_transaction
}

/// More repairs than any statement needs: PostgreSQL reports one missing column at a
/// time, so a wide INSERT can take several.
pub const MAX_COMPAT_REPAIR_ATTEMPTS: usize = 24;

/// A statement under repair.
#[derive(Debug)]
pub struct Repair {
    /// The statement as it is sent next.
    pub sql: String,
    /// How many failures were dealt with.
    pub attempts: usize,
    /// Whether missing columns are supplied with MySQL's implicit defaults.
    pub defaults: bool,
}

/// The mathematical counterpart of [`Repair`].
pub struct RepairState {
    pub sql: Seq<char>,
    pub attempts: int,
    pub defaults: bool,
}

impl View for Repair {
    type V = RepairState;

    open spec fn view(&self) -> RepairState {
        RepairState { sql: self.sql@, attempts: self.attempts as int, defaults: self.defaults }
    }
}

/// What is done about a failed statement.
#[derive(Debug)]
pub enum RepairAction {
    /// Create this function, then report whether that worked.
    Install(String),
    /// Look up the primary key of this table, then report its columns.
    LookUpKey(String),
    /// Look up the type of this column of this table, then report it.
    LookUpType(String, String),
    /// Look up the types of these columns of this table, then report them.
    LookUpTypes(String, Vec<String>),
    /// Send the statement again.
    Retry,
    /// Report the error.
    GiveUp,
}

/// The mathematical counterpart of [`RepairAction`].
pub enum RepairMove {
    Install(Seq<char>),
    LookUpKey(Seq<char>),
    LookUpType(Seq<char>, Seq<char>),
    LookUpTypes(Seq<char>, Seq<Seq<char>>),
    Retry,
    GiveUp,
}

impl View for RepairAction {
    type V = RepairMove;

    open spec fn view(&self) -> RepairMove {
        match self {
            RepairAction::Install(n) => RepairMove::Install(n@),
            RepairAction::LookUpKey(t) => RepairMove::LookUpKey(t@),
            RepairAction::LookUpType(t, c) => RepairMove::LookUpType(t@, c@),
            RepairAction::LookUpTypes(t, c) => RepairMove::LookUpTypes(t@, texts(c@)),
            RepairAction::Retry => RepairMove::Retry,
            RepairAction::GiveUp => RepairMove::GiveUp,
        }
    }
}

/// The last repair: values of another type than their columns.
pub open spec fn coercion_move(s: RepairState, e: &DbFailure) -> RepairMove {
    if s.defaults && e.code@ == DATATYPE_MISMATCH@ && insert_table(s.sql) is Some && bare_columns(s.sql) is Some {
        RepairMove::LookUpTypes(insert_table(s.sql)->Some_0, bare_columns(s.sql)->Some_0)
    } else {
        RepairMove::GiveUp
    }
}

/// The repair before that: the implicit default of a missing column.
pub open spec fn default_move(s: RepairState, e: &DbFailure) -> RepairMove {
    if s.defaults && e.code@ == NOT_NULL_VIOLATION@ && e.column is Some && e.table is Some {
        RepairMove::LookUpType(e.table->Some_0@, e.column->Some_0@)
    } else {
        coercion_move(s, e)
    }
}

/// The repair after that of missing functions: the conflict target.
pub open spec fn conflict_move(s: RepairState, e: &DbFailure) -> RepairMove {
    if e.code@ == INVALID_COLUMN_REFERENCE@ && insert_table(s.sql) is Some {
        RepairMove::LookUpKey(insert_table(s.sql)->Some_0)
    } else {
        default_move(s, e)
    }
}

/// What is done first about a failure.
pub open spec fn failure_move(s: RepairState, e: &DbFailure) -> RepairMove {
    if s.attempts >= MAX_COMPAT_REPAIR_ATTEMPTS {
        RepairMove::GiveUp
    } else {
        match missing_function(e) {
            Some(name) => RepairMove::Install(name),
            None => conflict_move(s, e),
        }
    }
}

/// The statement after the primary key of its table was looked up.
pub open spec fn key_repair(s: RepairState, keys: Seq<Seq<char>>) -> Option<Seq<char>> {
    conflict_retargeted(s.sql, keys, regex_captures(CONFLICT_TARGET@, s.sql))
}

/// The statement after the type of the missing column was looked up.
pub open spec fn type_repair(s: RepairState, e: &DbFailure, data_type: Option<Seq<char>>) -> Option<Seq<char>> {
    match (data_type, e.column) {
        (Some(t), Some(column)) => match implicit_default_literal(t) {
            Some(value) => column_inserted(s.sql, column@, value),
            None => None,
        },
        _ => None,
    }
}

impl Repair {
    /// Starts to send a statement.
    pub fn start(sql: &str, defaults: bool) -> (r: Self)
        ensures
            r@ == (RepairState { sql: sql@, attempts: 0, defaults }),
    {
        Repair { sql: sql.to_string(), attempts: 0, defaults }
    }

    fn try_coercion(&self, e: &DbFailure) -> (r: RepairAction)
        ensures
            r@ == coercion_move(self@, e),
    {
        if self.defaults && same(e.code.as_str(), DATATYPE_MISMATCH) {
            match (extract_insert_table_name(self.sql.as_str()), read_bare_columns(self.sql.as_str())) {
                (Some(t), Some(c)) => return RepairAction::LookUpTypes(t, c),
                _ => {},
            }
        }
        RepairAction::GiveUp
    }

    fn try_default(&self, e: &DbFailure) -> (r: RepairAction)
        ensures
            r@ == default_move(self@, e),
    {
        if self.defaults && same(e.code.as_str(), NOT_NULL_VIOLATION) {
            match (&e.table, &e.column) {
                (Some(t), Some(c)) => return RepairAction::LookUpType(t.clone(), c.clone()),
                _ => {},
            }
        }
        self.try_coercion(e)
    }

    fn try_conflict(&self, e: &DbFailure) -> (r: RepairAction)
        ensures
            r@ == conflict_move(self@, e),
    {
        if same(e.code.as_str(), INVALID_COLUMN_REFERENCE) {
            match extract_insert_table_name(self.sql.as_str()) {
                Some(table) => return RepairAction::LookUpKey(table),
                None => {},
            }
        }
        self.try_default(e)
    }

    /// The statement failed: decides what is done about it.
    pub fn on_failure(&mut self, e: &DbFailure) -> (r: RepairAction)
        requires
            old(self).attempts <= MAX_COMPAT_REPAIR_ATTEMPTS,
        ensures
            r@ == failure_move(old(self)@, e),
            final(self)@.sql == old(self)@.sql,
            final(self)@.defaults == old(self)@.defaults,
            final(self)@.attempts == (if old(self)@.attempts < MAX_COMPAT_REPAIR_ATTEMPTS {
                old(self)@.attempts + 1
            } else {
                old(self)@.attempts
            }),
            final(self).attempts <= MAX_COMPAT_REPAIR_ATTEMPTS,
    {
        if self.attempts >= MAX_COMPAT_REPAIR_ATTEMPTS {
            return RepairAction::GiveUp;
        }
        self.attempts = self.attempts + 1;
        match missing_compat_function_name(e) {
            Some(name) => RepairAction::Install(name.to_string()),
            None => self.try_conflict(e),
        }
    }

    /// A missing function was created, or could not be.
    pub fn on_installed(&self, installed: bool, e: &DbFailure) -> (r: RepairAction)
        ensures
            r@ == (if installed {
                RepairMove::Retry
            } else {
                conflict_move(self@, e)
            }),
    {
        if installed {
            RepairAction::Retry
        } else {
            self.try_conflict(e)
        }
    }

    /// The primary key of the table was looked up.
    pub fn on_key_columns(&mut self, keys: &Vec<String>, e: &DbFailure) -> (r: RepairAction)
        ensures
            match key_repair(old(self)@, texts(keys@)) {
                Some(sql) => r@ == RepairMove::Retry && final(self)@ == (RepairState { sql, ..old(self)@ }),
                None => r@ == default_move(old(self)@, e) && final(self)@ == old(self)@,
            },
    {
        match repair_on_conflict_target(self.sql.as_str(), keys) {
            Some(repaired) => {
                self.sql = repaired;
                RepairAction::Retry
            },
            None => self.try_default(e),
        }
    }

    /// The type of the missing column was looked up.
    pub fn on_column_type(&mut self, data_type: &Option<String>, e: &DbFailure) -> (r: RepairAction)
        ensures
            match type_repair(old(self)@, e, opt_text(*data_type)) {
                Some(sql) => r@ == RepairMove::Retry && final(self)@ == (RepairState { sql, ..old(self)@ }),
                None => r@ == RepairMove::GiveUp && final(self)@ == old(self)@,
            },
    {
        let column = match &e.column {
            Some(c) => c,
            None => return RepairAction::GiveUp,
        };
        let t = match data_type {
            Some(t) => t,
            None => return RepairAction::GiveUp,
        };
        let value = match mysql_implicit_default_literal(t.as_str()) {
            Some(v) => v,
            None => return RepairAction::GiveUp,
        };
        match insert_column_with_value(self.sql.as_str(), column.as_str(), value) {
            Some(repaired) => {
                self.sql = repaired;
                RepairAction::Retry
            },
            None => RepairAction::GiveUp,
        }
    }

    /// The types of the columns of the INSERT were looked up.
    pub fn on_column_types(&mut self, types: &Vec<String>) -> (r: RepairAction)
        ensures
            match coerced_insert(old(self)@.sql, texts(types@)) {
                Some(sql) => r@ == RepairMove::Retry && final(self)@ == (RepairState { sql, ..old(self)@ }),
                None => r@ == RepairMove::GiveUp && final(self)@ == old(self)@,
            },
    {
        match coerce_insert_source(self.sql.as_str(), types) {
            Some(repaired) => {
                self.sql = repaired;
                RepairAction::Retry
            },
            None => RepairAction::GiveUp,
        }
    }
}

/// A statement is not repaired for ever: once the repairs are used up, every failure is
/// reported.
pub proof fn repairs_come_to_an_end(s: RepairState, e: &DbFailure)
    requires
        s.attempts >= MAX_COMPAT_REPAIR_ATTEMPTS,
    ensures
        failure_move(s, e) == RepairMove::GiveUp,
{
}

/// An error that names none of the repaired conditions is reported as it is.
pub proof fn other_failures_are_reported(s: RepairState, e: &DbFailure)
    requires
        e.code@ != UNDEFINED_FUNCTION@,
        e.code@ != INVALID_COLUMN_REFERENCE@,
        e.code@ != NOT_NULL_VIOLATION@,
        e.code@ != DATATYPE_MISMATCH@,
    ensures
        failure_move(s, e) == RepairMove::GiveUp,
{
}

} // verus!
