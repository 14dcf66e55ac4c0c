//! What the MySQL frontend answers itself: canned rows, session settings, and the names
//! of result columns.
use vstd::prelude::*;

use crate::direct::text_or;
use crate::error::{Failure, MiddlewareError};
use crate::names::{ident_value, value_of_ident};
use crate::parser::{
    expr_sql, mysql_parse, parse_mysql_sql, parse_postgres_sql, postgres_parse, render_expr, show,
    shown,
};
use crate::query::{item_alias, select_in, select_of};
use crate::quoting::{bare_name, strip_name_quotes};
use crate::ranking::{skip_nonspace, split_words, words_from};
use crate::regexes::{
    captures, founds, group, group_or_empty, match_inside, matches_inside, regex_captures, Capture,
};
use crate::text::{
    begins, cat2, cat4, char_is_space, chars_of, contains, decimal, eq_ignore_case, find_chars,
    find_from, from_chars, is_space, join, joined, lemma_find, lowered, number, occurs, opt_text,
    parse_u32, parsed_u32, push_text, push_texts, same, same_ignoring_case, slice, split, split_on,
    starts_with, strip_prefix, texts, to_lower, to_upper, trim, trim_end_matches, trim_matches,
    trimmed, unpadded, unpadded_end, uppered, without_prefix,
};
use crate::tree::{item_at, items, part, payload, Node, Tree};

verus! {

/// The server version that is reported where none is configured.
pub const MYSQL_COMPAT_VERSION: &'static str = "11.8.7-MariaDB-ubu2404";

/// The version comment that is reported where none is configured.
pub const MYSQL_COMPAT_VERSION_COMMENT: &'static str = "MariaDB Server";

pub const SELECT_SYSTEM_VARIABLE: &'static str =
    r"(?i)^\s*SELECT\s+@@(?:(SESSION|GLOBAL)\.)?([A-Z_][A-Z0-9_]*)(?:\s+(?:AS\s+)?`?([A-Z_][A-Z0-9_]*)`?)?\s*;?\s*$";

/// Rows under column names.
pub type Table = (Vec<String>, Vec<Vec<String>>);

/// The mathematical counterpart of [`Table`].
pub type TableView = (Seq<Seq<char>>, Seq<Seq<Seq<char>>>);

pub open spec fn rows_view(rows: Seq<Vec<String>>) -> Seq<Seq<Seq<char>>> {
    Seq::new(rows.len(), |i: int| texts(rows[i]@))
}

pub open spec fn table_view(t: Table) -> TableView {
    (texts(t.0@), rows_view(t.1@))
}

pub open spec fn opt_table(t: Option<Table>) -> Option<TableView> {
    match t {
        Some(t) => Some(table_view(t)),
        None => None,
    }
}

/// One value under one name.
pub open spec fn single_value(column: Seq<char>, value: Seq<char>) -> TableView {
    (seq![column], seq![seq![value]])
}

/// Makes a table of one value under one name.
pub fn one_value(column: &str, value: &str) -> (r: Table)
    ensures
        table_view(r) == single_value(column@, value@),
{
    let mut columns: Vec<String> = Vec::new();
    push_text(&mut columns, column.to_string());
    assert(texts(columns@) =~= seq![column@]);
    let mut row: Vec<String> = Vec::new();
    push_text(&mut row, value.to_string());
    assert(texts(row@) =~= seq![value@]);
    let mut rows: Vec<Vec<String>> = Vec::new();
    rows.push(row);
    assert(rows_view(rows@) =~= seq![seq![value@]]);
    (columns, rows)
}

/// A copy of a table.
pub fn copy_table(t: &Table) -> (r: Table)
    ensures
        table_view(r) == table_view(*t),
{
    let mut columns: Vec<String> = Vec::new();
    push_texts(&mut columns, &t.0);
    assert(texts(columns@) =~= texts(t.0@));
    let mut rows: Vec<Vec<String>> = Vec::new();
    let mut i: usize = 0;
    while i < t.1.len()
        invariant
            i <= t.1@.len(),
            rows_view(rows@) =~= rows_view(t.1@).take(i as int),
        decreases t.1.len() - i,
    {
        let mut row: Vec<String> = Vec::new();
        push_texts(&mut row, &t.1[i]);
        assert(texts(row@) =~= texts(t.1@[i as int]@));
        let ghost before = rows_view(rows@);
        let ghost text = texts(row@);
        rows.push(row);
        assert(rows_view(rows@) =~= before.push(text));
        i = i + 1;
        assert(rows_view(t.1@)[i - 1] == text);
        assert(rows_view(rows@) =~= rows_view(t.1@).take(i as int));
    }
    assert(rows_view(rows@) =~= rows_view(t.1@));
    (columns, rows)
}

/// The answer to a query that asks for the server's identity or mode.
pub open spec fn canned(query: Seq<char>, version: Seq<char>, comment: Seq<char>) -> Option<TableView> {
    let q = trimmed(query);
    if same_ignoring_case(q, "SELECT VERSION()"@) {
        Some(single_value("VERSION()"@, version))
    } else if same_ignoring_case(q, "SELECT @@VERSION"@) {
        Some(single_value("@@VERSION"@, version))
    } else if same_ignoring_case(q, "SELECT @@VERSION_COMMENT"@) {
        Some(single_value("@@VERSION_COMMENT"@, comment))
    } else if same_ignoring_case(q, "SELECT @@SESSION.SQL_MODE"@) || same_ignoring_case(
        q,
        "SELECT @@SQL_MODE"@,
    ) {
        Some(single_value(q, "NO_AUTO_VALUE_ON_ZERO"@))
    } else {
        None
    }
}

/// Answers a query that asks for the server's identity or mode.
pub fn canned_response(query: &str, version: &str, comment: &str) -> (r: Option<Table>)
    ensures
        opt_table(r) == canned(query@, version@, comment@),
{
    let t = trim(query);
    let q = t.as_str();
    if eq_ignore_case(q, "SELECT VERSION()") {
        Some(one_value("VERSION()", version))
    } else if eq_ignore_case(q, "SELECT @@VERSION") {
        Some(one_value("@@VERSION", version))
    } else if eq_ignore_case(q, "SELECT @@VERSION_COMMENT") {
        Some(one_value("@@VERSION_COMMENT", comment))
    } else if eq_ignore_case(q, "SELECT @@SESSION.SQL_MODE") || eq_ignore_case(q, "SELECT @@SQL_MODE") {
        Some(one_value(q, "NO_AUTO_VALUE_ON_ZERO"))
    } else {
        None
    }
}

/// Answers a query that asks for the server's identity or mode, under the version that
/// is reported where none is configured.
pub fn canned_response_for_query(query: &str) -> (r: Option<Table>)
    ensures
        opt_table(r) == canned(query@, MYSQL_COMPAT_VERSION@, MYSQL_COMPAT_VERSION_COMMENT@),
{
    canned_response(query, MYSQL_COMPAT_VERSION, MYSQL_COMPAT_VERSION_COMMENT)
}

/// The settings of a session that queries can ask for.
pub struct Settings {
    pub collation: Seq<char>,
    pub sql_mode: Seq<char>,
    pub isolation: Seq<char>,
    pub version: Seq<char>,
    pub comment: Seq<char>,
}

/// The value of a system variable in a session.
pub open spec fn variable_value(s: Settings, name: Seq<char>) -> Option<Seq<char>> {
    let n = lowered(name);
    if n == "sql_mode"@ {
        Some(s.sql_mode)
    } else if n == "collation_connection"@ {
        Some(s.collation)
    } else if n == "transaction_isolation"@ || n == "tx_isolation"@ {
        Some(s.isolation)
    } else if n == "version"@ {
        Some(s.version)
    } else if n == "version_comment"@ {
        Some(s.comment)
    } else {
        None
    }
}

/// The column name of a selected system variable: its alias, or the variable as it was
/// written.
pub open spec fn variable_column(q: Seq<char>, m: Seq<Option<(int, int)>>) -> Seq<char> {
    match group(q, m, 3) {
        Some(alias) => alias,
        None => match group(q, m, 1) {
            Some(scope) => "@@"@ + scope + "."@ + group_or_empty(q, m, 2),
            None => "@@"@ + group_or_empty(q, m, 2),
        },
    }
}

/// The answer to `SELECT @@variable`; `found` are the matches of
/// [`SELECT_SYSTEM_VARIABLE`].
pub open spec fn variable_response(s: Settings, q: Seq<char>, found: Seq<Seq<Option<(int, int)>>>) -> Option<
    TableView,
> {
    if found.len() == 0 || group(q, found[0], 2) is None {
        None
    } else {
        match variable_value(s, group(q, found[0], 2)->Some_0) {
            Some(value) => Some(single_value(variable_column(q, found[0]), value)),
            None => None,
        }
    }
}

/// The settings of a session, for the functions that answer queries.
pub struct SessionSettings<'a> {
    pub collation: &'a str,
    pub sql_mode: &'a str,
    pub isolation: &'a str,
    pub version: &'a str,
    pub comment: &'a str,
}

impl<'a> View for SessionSettings<'a> {
    type V = Settings;

    open spec fn view(&self) -> Settings {
        Settings {
            collation: self.collation@,
            sql_mode: self.sql_mode@,
            isolation: self.isolation@,
            version: self.version@,
            comment: self.comment@,
        }
    }
}

fn value_of_variable<'a>(s: &SessionSettings<'a>, name: &str) -> (r: Option<&'a str>)
    ensures
        match r {
            Some(v) => variable_value(s@, name@) == Some(v@),
            None => variable_value(s@, name@) is None,
        },
{
    let lower = to_lower(name);
    let n = lower.as_str();
    if same(n, "sql_mode") {
        Some(s.sql_mode)
    } else if same(n, "collation_connection") {
        Some(s.collation)
    } else if same(n, "transaction_isolation") || same(n, "tx_isolation") {
        Some(s.isolation)
    } else if same(n, "version") {
        Some(s.version)
    } else if same(n, "version_comment") {
        Some(s.comment)
    } else {
        None
    }
}

/// Answers a matched `SELECT @@variable`.
pub fn variable_from_match(s: &SessionSettings, query: &str, found: &Vec<Capture>) -> (r: Option<Table>)
    requires
        matches_inside(founds(found@), query@.len() as int),
    ensures
        opt_table(r) == variable_response(s@, query@, founds(found@)),
{
    if found.len() == 0 {
        return None;
    }
    assert(match_inside(founds(found@)[0], query@.len() as int));
    let name = match found[0].group(query, 2) {
        Some(n) => n,
        None => return None,
    };
    match value_of_variable(s, name.as_str()) {
        Some(value) => {
            let column = match found[0].group(query, 3) {
                Some(alias) => alias,
                None => match found[0].group(query, 1) {
                    Some(scope) => cat4("@@", scope.as_str(), ".", name.as_str()),
                    None => cat2("@@", name.as_str()),
                },
            };
            Some(one_value(column.as_str(), value))
        },
        None => None,
    }
}

/// The answer to a query about the state of its session.
pub open spec fn session_canned(
    connection_id: u32,
    db: Option<Seq<char>>,
    s: Settings,
    query: Seq<char>,
) -> Option<TableView> {
    let q = trimmed(query);
    match variable_response(s, q, regex_captures(SELECT_SYSTEM_VARIABLE@, q)) {
        Some(t) => Some(t),
        None => if same_ignoring_case(q, "SELECT CONNECTION_ID()"@) {
            Some(single_value("CONNECTION_ID()"@, decimal(connection_id as nat)))
        } else if same_ignoring_case(q, "SELECT DATABASE()"@) {
            Some(
                single_value(
                    "DATABASE()"@,
                    match db {
                        Some(d) => d,
                        None => Seq::empty(),
                    },
                ),
            )
        } else if same_ignoring_case(q, "SELECT @@COLLATION_CONNECTION"@) {
            Some(single_value("@@collation_connection"@, s.collation))
        } else if same_ignoring_case(q, "SHOW GLOBAL VARIABLES LIKE 'T%_ISOLATION'"@) {
            Some(
                (
                    seq!["Variable_name"@, "Value"@],
                    seq![seq!["transaction_isolation"@, s.isolation]],
                ),
            )
        } else {
            None
        },
    }
}

fn isolation_table(isolation: &str) -> (r: Table)
    ensures
        table_view(r) == (
            seq!["Variable_name"@, "Value"@],
            seq![seq!["transaction_isolation"@, isolation@]],
        ),
{
    let mut columns: Vec<String> = Vec::new();
    push_text(&mut columns, "Variable_name".to_string());
    push_text(&mut columns, "Value".to_string());
    assert(texts(columns@) =~= seq!["Variable_name"@, "Value"@]);
    let mut row: Vec<String> = Vec::new();
    push_text(&mut row, "transaction_isolation".to_string());
    push_text(&mut row, isolation.to_string());
    assert(texts(row@) =~= seq!["transaction_isolation"@, isolation@]);
    let mut rows: Vec<Vec<String>> = Vec::new();
    rows.push(row);
    assert(rows_view(rows@) =~= seq![seq!["transaction_isolation"@, isolation@]]);
    (columns, rows)
}

/// Answers a query about the state of its session.
pub fn session_response(connection_id: u32, current_db: &Option<String>, s: &SessionSettings, query: &str) -> (r:
    Option<Table>)
    ensures
        opt_table(r) == session_canned(connection_id, opt_text(*current_db), s@, query@),
{
    let t = trim(query);
    let q = t.as_str();
    let found = captures(SELECT_SYSTEM_VARIABLE, q);
    match variable_from_match(s, q, &found) {
        Some(t) => return Some(t),
        None => {},
    }
    if eq_ignore_case(q, "SELECT CONNECTION_ID()") {
        Some(one_value("CONNECTION_ID()", number(connection_id as u64).as_str()))
    } else if eq_ignore_case(q, "SELECT DATABASE()") {
        match current_db {
            Some(d) => Some(one_value("DATABASE()", d.as_str())),
            None => Some(one_value("DATABASE()", String::new().as_str())),
        }
    } else if eq_ignore_case(q, "SELECT @@COLLATION_CONNECTION") {
        Some(one_value("@@collation_connection", s.collation))
    } else if eq_ignore_case(q, "SHOW GLOBAL VARIABLES LIKE 'T%_ISOLATION'") {
        Some(isolation_table(s.isolation))
    } else {
        None
    }
}

pub open spec fn opt_str(o: Option<&str>) -> Option<Seq<char>> {
    match o {
        Some(s) => Some(s@),
        None => None,
    }
}

/// Answers a query about the state of its session, under the version that is reported
/// where none is configured.
pub fn dynamic_canned_response_for_query(
    connection_id: u32,
    current_db: Option<&str>,
    session_collation: &str,
    session_sql_mode: &str,
    transaction_isolation: &str,
    query: &str,
) -> (r: Option<Table>)
    ensures
        opt_table(r) == session_canned(
            connection_id,
            opt_str(current_db),
            (Settings {
                collation: session_collation@,
                sql_mode: session_sql_mode@,
                isolation: transaction_isolation@,
                version: MYSQL_COMPAT_VERSION@,
                comment: MYSQL_COMPAT_VERSION_COMMENT@,
            }),
            query@,
        ),
{
    let db = match current_db {
        Some(d) => Some(d.to_string()),
        None => None,
    };
    let s = SessionSettings {
        collation: session_collation,
        sql_mode: session_sql_mode,
        isolation: transaction_isolation,
        version: MYSQL_COMPAT_VERSION,
        comment: MYSQL_COMPAT_VERSION_COMMENT,
    };
    session_response(connection_id, &db, &s, query)
}

/// A query without the semicolons at its end.
pub open spec fn bare_query(query: Seq<char>) -> Seq<char> {
    trimmed(unpadded_end(trimmed(query), ';'))
}

fn strip_query(query: &str) -> (r: String)
    ensures
        r@ == bare_query(query@),
{
    let a = trim(query);
    let b = trim_end_matches(a.as_str(), ';');
    trim(b.as_str())
}

/// The database that a USE statement selects.
pub open spec fn used_database(query: Seq<char>) -> Option<Seq<char>> {
    let q = bare_query(query);
    if begins(uppered(q), "USE "@) && bare_name(q.skip(4)).len() > 0 {
        Some(bare_name(q.skip(4)))
    } else {
        None
    }
}

/// The database that a USE statement selects.
pub fn parse_use_database(query: &str) -> (r: Option<String>)
    ensures
        opt_text(r) == used_database(query@),
{
    let q = strip_query(query);
    let upper = to_upper(q.as_str());
    proof {
        reveal_strlit("USE ");
    }
    if !starts_with(upper.as_str(), "USE ") {
        return None;
    }
    let n: usize = q.as_str().unicode_len();
    let tail = slice(q.as_str(), 4, n);
    assert(tail@ =~= q@.skip(4));
    let name = strip_name_quotes(tail.as_str());
    if name.as_str().is_empty() {
        None
    } else {
        Some(name)
    }
}

/// The connection that a KILL statement names.
pub open spec fn kill_target(query: Seq<char>) -> Option<u32> {
    match without_prefix(uppered(bare_query(query)), "KILL "@) {
        Some(id) => parsed_u32(trimmed(id)),
        None => None,
    }
}

/// The connection that a KILL statement names.
pub fn parse_kill_connection_id(query: &str) -> (r: Option<u32>)
    ensures
        r == kill_target(query@),
{
    let bare = strip_query(query);
    let upper = to_upper(bare.as_str());
    match strip_prefix(upper.as_str(), "KILL ") {
        Some(id) => parse_u32(trim(id.as_str()).as_str()),
        None => None,
    }
}

/// The character set under the name that is kept for it.
pub open spec fn charset_name(charset: Seq<char>) -> Seq<char> {
    if lowered(charset) == "utf8mb3"@ {
        "utf8"@
    } else {
        lowered(charset)
    }
}

pub fn normalize_mysql_charset(charset: &str) -> (r: String)
    ensures
        r@ == charset_name(charset@),
{
    let lower = to_lower(charset);
    if same(lower.as_str(), "utf8mb3") {
        "utf8".to_string()
    } else {
        lower
    }
}

/// The default collation of a character set that is supported.
pub open spec fn default_collation(charset: Seq<char>) -> Option<Seq<char>> {
    if charset == "utf8"@ {
        Some("utf8_general_ci"@)
    } else if charset == "utf8mb4"@ {
        Some("utf8mb4_general_ci"@)
    } else {
        None
    }
}

pub fn default_mysql_collation_for_charset(charset: &str) -> (r: Option<&'static str>)
    ensures
        opt_str(r) == default_collation(charset@),
{
    if same(charset, "utf8") {
        Some("utf8_general_ci")
    } else if same(charset, "utf8mb4") {
        Some("utf8mb4_general_ci")
    } else {
        None
    }
}

/// Whether a collation belongs to a character set.
pub open spec fn collation_fits(charset: Seq<char>, collation: Seq<char>) -> bool {
    begins(collation, charset + "_"@)
}

pub fn collation_matches_charset(charset: &str, collation: &str) -> (r: bool)
    ensures
        r == collation_fits(charset@, collation@),
{
    starts_with(collation, cat2(charset, "_").as_str())
}

/// The default collation of a supported character set belongs to it.
pub proof fn default_collations_fit(charset: Seq<char>)
    ensures
        default_collation(charset) matches Some(c) ==> collation_fits(charset, c),
{
    reveal_strlit("utf8");
    reveal_strlit("utf8mb4");
    reveal_strlit("utf8_general_ci");
    reveal_strlit("utf8mb4_general_ci");
    reveal_strlit("_");
    if charset == "utf8"@ {
        assert("utf8_general_ci"@.subrange(0, 5) =~= charset + "_"@);
    } else if charset == "utf8mb4"@ {
        assert("utf8mb4_general_ci"@.subrange(0, 8) =~= charset + "_"@);
    }
}

/// The error for a character set that is not supported.
pub open spec fn unknown_charset(charset: Seq<char>) -> Failure {
    Failure::Execution("unknown character set: "@ + charset)
}

/// The collation that a name stands for: the default one for a character set's name.
pub open spec fn collation_name(charset: Seq<char>, collation: Seq<char>) -> Result<Seq<char>, Failure> {
    let c = lowered(collation);
    if c == "default"@ || c == "utf8"@ || c == "utf8mb3"@ || c == "utf8mb4"@ {
        match default_collation(charset) {
            Some(d) => Ok(d),
            None => Err(unknown_charset(charset)),
        }
    } else {
        Ok(c)
    }
}

pub fn normalize_mysql_collation(charset: &str, collation: &str) -> (r: Result<String, MiddlewareError>)
    ensures
        text_or(r) == collation_name(charset@, collation@),
{
    let c = to_lower(collation);
    if same(c.as_str(), "default") || same(c.as_str(), "utf8") || same(c.as_str(), "utf8mb3") || same(
        c.as_str(),
        "utf8mb4",
    ) {
        match default_mysql_collation_for_charset(charset) {
            Some(d) => Ok(d.to_string()),
            None => Err(MiddlewareError::Execution(cat2("unknown character set: ", charset))),
        }
    } else {
        Ok(c)
    }
}

/// A text without quotes of either kind around it.
pub open spec fn unquoted(s: Seq<char>) -> Seq<char> {
    unpadded(unpadded(s, '\''), '"')
}

fn strip_quotes_around(s: &str) -> (r: String)
    ensures
        r@ == unquoted(s@),
{
    let a = trim_matches(s, '\'');
    trim_matches(a.as_str(), '"')
}

/// The character set that SET NAMES names, of the text after the keywords.
pub open spec fn named_charset(payload: Seq<char>) -> Seq<char> {
    charset_name(trimmed(unquoted(payload.take(skip_nonspace(payload, 0)))))
}

/// The collation that SET NAMES names, if it does.
pub open spec fn named_collation(payload: Seq<char>) -> Option<Seq<char>> {
    let end = skip_nonspace(payload, 0);
    if end >= payload.len() {
        None
    } else {
        let rest = trimmed(payload.skip(end + 1));
        if begins(uppered(rest), "COLLATE "@) {
            Some(lowered(unquoted(trimmed(rest.skip(8)))))
        } else {
            None
        }
    }
}

/// The character set and collation after SET NAMES, or why they stay as they are.
pub open spec fn set_names(sql: Seq<char>) -> Result<(Seq<char>, Seq<char>), Failure> {
    let payload = trimmed(sql.skip(10));
    let charset = named_charset(payload);
    match default_collation(charset) {
        None => Err(unknown_charset(charset)),
        Some(default) => match named_collation(payload) {
            None => Ok((charset, default)),
            Some(name) => match collation_name(charset, name) {
                Err(e) => Err(e),
                Ok(c) => if collation_fits(charset, c) {
                    Ok((charset, c))
                } else {
                    Err(Failure::Execution("unknown collation: "@ + c))
                },
            },
        },
    }
}

/// After SET NAMES the collation belongs to the character set.
pub proof fn set_names_keeps_them_fitting(sql: Seq<char>)
    ensures
        set_names(sql) matches Ok(names) ==> collation_fits(names.0, names.1),
{
    default_collations_fit(named_charset(trimmed(sql.skip(10))));
}

pub open spec fn names_view(r: Result<(String, String), MiddlewareError>) -> Result<
    (Seq<char>, Seq<char>),
    Failure,
> {
    match r {
        Ok((a, b)) => Ok((a@, b@)),
        Err(e) => Err(e@),
    }
}

proof fn lemma_skip_nonspace(s: Seq<char>, from: int)
    requires
        0 <= from <= s.len(),
    ensures
        from <= skip_nonspace(s, from) <= s.len(),
    decreases s.len() - from,
{
    if from < s.len() && !is_space(s[from]) {
        lemma_skip_nonspace(s, from + 1);
    }
}

/// The position of the first white space.
fn first_space(c: &Vec<char>) -> (r: usize)
    ensures
        r == skip_nonspace(c@, 0),
        r <= c@.len(),
{
    let mut i: usize = 0;
    while i < c.len() && !char_is_space(c[i])
        invariant
            i <= c@.len(),
            skip_nonspace(c@, i as int) == skip_nonspace(c@, 0),
        decreases c.len() - i,
    {
        i = i + 1;
    }
    i
}

/// Reads the character set and collation off a SET NAMES statement.
pub fn apply_set_names(sql: &str) -> (r: Result<(String, String), MiddlewareError>)
    requires
        sql@.len() >= 10,
    ensures
        names_view(r) == set_names(sql@),
{
    let n: usize = sql.unicode_len();
    let raw = slice(sql, 10, n);
    assert(raw@ =~= sql@.skip(10));
    let payload = trim(raw.as_str());
    let c = chars_of(payload.as_str());
    let len: usize = c.len();
    let end = first_space(&c);
    let word = from_chars(&c, 0, end);
    assert(word@ =~= payload@.take(end as int));
    let bare = strip_quotes_around(word.as_str());
    let charset = normalize_mysql_charset(trim(bare.as_str()).as_str());
    let default = match default_mysql_collation_for_charset(charset.as_str()) {
        Some(d) => d,
        None => return Err(MiddlewareError::Execution(cat2("unknown character set: ", charset.as_str()))),
    };
    if end >= len {
        return Ok((charset, default.to_string()));
    }
    let tail = from_chars(&c, end + 1, len);
    assert(tail@ =~= payload@.skip(end + 1));
    let rest = trim(tail.as_str());
    let upper = to_upper(rest.as_str());
    proof {
        reveal_strlit("COLLATE ");
    }
    if !starts_with(upper.as_str(), "COLLATE ") {
        return Ok((charset, default.to_string()));
    }
    let rest_len: usize = rest.as_str().unicode_len();
    let value = slice(rest.as_str(), 8, rest_len);
    assert(value@ =~= rest@.skip(8));
    let stripped = strip_quotes_around(trim(value.as_str()).as_str());
    let name = to_lower(stripped.as_str());
    match normalize_mysql_collation(charset.as_str(), name.as_str()) {
        Err(e) => Err(e),
        Ok(collation) => if collation_matches_charset(charset.as_str(), collation.as_str()) {
            Ok((charset, collation))
        } else {
            Err(MiddlewareError::Execution(cat2("unknown collation: ", collation.as_str())))
        },
    }
}

/// An isolation level as MySQL reports it: its words joined by hyphens, in upper case.
pub open spec fn isolation_name(level: Seq<char>) -> Seq<char> {
    uppered(joined(words_from(level, 0), "-"@))
}

pub fn normalize_transaction_isolation(level: &str) -> (r: String)
    ensures
        r@ == isolation_name(level@),
{
    let words = split_words(level);
    to_upper(join(&words, "-").as_str())
}

/// Whether a statement in upper case sets the SQL mode.
pub open spec fn sets_sql_mode(upper: Seq<char>) -> bool {
    begins(upper, "SET SQL_MODE"@) || begins(upper, "SET SESSION SQL_MODE"@) || begins(upper, "SET @@SQL_MODE"@)
        || begins(upper, "SET @@SESSION.SQL_MODE"@)
}

pub fn is_set_sql_mode_query(upper: &str) -> (r: bool)
    ensures
        r == sets_sql_mode(upper@),
{
    starts_with(upper, "SET SQL_MODE") || starts_with(upper, "SET SESSION SQL_MODE") || starts_with(
        upper,
        "SET @@SQL_MODE",
    ) || starts_with(upper, "SET @@SESSION.SQL_MODE")
}

/// The value that a statement sets the SQL mode to.
pub open spec fn sql_mode_value(sql: Seq<char>) -> Seq<char> {
    let k = find_from(sql, seq!['='], 0);
    if k < 0 {
        Seq::empty()
    } else {
        unquoted(trimmed(unpadded_end(trimmed(sql.skip(k + 1)), ';')))
    }
}

pub fn parse_set_sql_mode_value(sql: &str) -> (r: String)
    ensures
        r@ == sql_mode_value(sql@),
{
    let c = chars_of(sql);
    let mut p: Vec<char> = Vec::new();
    p.push('=');
    assert(p@ =~= seq!['=']);
    proof {
        lemma_find(c@, p@, 0);
    }
    match find_chars(&c, &p, 0) {
        None => String::new(),
        Some(k) => {
            let n: usize = c.len();
            let value = from_chars(&c, k + 1, n);
            assert(value@ =~= sql@.skip(k + 1));
            let bare = strip_query(value.as_str());
            strip_quotes_around(bare.as_str())
        },
    }
}

/// Whether a SQL mode makes double quotes hold identifiers: whether one of the modes it
/// lists is ANSI or ANSI_QUOTES.
pub open spec fn mode_is_ansi(mode: Seq<char>) -> bool {
    exists|i: int|
        0 <= i < split(mode, ',').len() && is_ansi_word(#[trigger] split(mode, ',')[i])
}

pub open spec fn is_ansi_word(word: Seq<char>) -> bool {
    same_ignoring_case(trimmed(word), "ANSI"@) || same_ignoring_case(trimmed(word), "ANSI_QUOTES"@)
}

pub fn sql_mode_is_ansi(mode: &str) -> (r: bool)
    ensures
        r == mode_is_ansi(mode@),
{
    let words = split_on(mode, ',');
    let mut i: usize = 0;
    while i < words.len()
        invariant
            i <= words@.len(),
            texts(words@) == split(mode@, ','),
            forall|j: int| 0 <= j < i ==> !is_ansi_word(#[trigger] split(mode@, ',')[j]),
        decreases words.len() - i,
    {
        let word = trim(words[i].as_str());
        assert(texts(words@)[i as int] == words@[i as int]@);
        if eq_ignore_case(word.as_str(), "ANSI") || eq_ignore_case(word.as_str(), "ANSI_QUOTES") {
            assert(is_ansi_word(split(mode@, ',')[i as int]));
            return true;
        }
        i = i + 1;
    }
    false
}

/// Whether a statement in upper case sets something that has no meaning in PostgreSQL.
pub open spec fn session_noop(q: Seq<char>) -> bool {
    ||| begins(q, "SET WAIT_TIMEOUT"@)
    ||| begins(q, "SET SESSION WAIT_TIMEOUT"@)
    ||| begins(q, "SET @@WAIT_TIMEOUT"@)
    ||| begins(q, "SET @@SESSION.WAIT_TIMEOUT"@)
    ||| begins(q, "SET INTERACTIVE_TIMEOUT"@)
    ||| begins(q, "SET SESSION INTERACTIVE_TIMEOUT"@)
    ||| begins(q, "SET @@INTERACTIVE_TIMEOUT"@)
    ||| begins(q, "SET @@SESSION.INTERACTIVE_TIMEOUT"@)
    ||| begins(q, "SET SESSION GROUP_CONCAT_MAX_LEN"@)
    ||| begins(q, "SET @@SESSION.GROUP_CONCAT_MAX_LEN"@)
    ||| begins(q, "SET @@GROUP_CONCAT_MAX_LEN"@)
    ||| begins(q, "SET @@INNODB_LOCK_WAIT_TIMEOUT"@)
    ||| begins(q, "SET @@SESSION.INNODB_LOCK_WAIT_TIMEOUT"@)
    ||| begins(q, "SET SESSION SQL_REQUIRE_PRIMARY_KEY"@)
    ||| begins(q, "SET @@SESSION.SQL_REQUIRE_PRIMARY_KEY"@)
    ||| begins(q, "SET @@SQL_REQUIRE_PRIMARY_KEY"@)
    ||| begins(q, "SET GLOBAL INNODB_FORCE_PRIMARY_KEY"@)
    ||| begins(q, "SET SESSION CHARACTER_SET_CLIENT"@)
    ||| begins(q, "SET SESSION CHARACTER_SET_RESULTS"@)
    ||| begins(q, "SET SESSION COLLATION_CONNECTION"@)
    ||| begins(q, "SET CHARACTER_SET_CLIENT"@)
    ||| begins(q, "SET CHARACTER_SET_RESULTS"@)
    ||| begins(q, "SET COLLATION_CONNECTION"@)
    ||| begins(q, "SET TIME_ZONE"@)
    ||| begins(q, "SET SESSION TIME_ZONE"@)
    ||| begins(q, "SET FOREIGN_KEY_CHECKS"@)
    ||| begins(q, "SET UNIQUE_CHECKS"@)
    ||| begins(q, "SET SQL_NOTES"@)
    ||| begins(q, "SET SESSION TRANSACTION ISOLATION LEVEL"@)
    ||| begins(q, "SET TRANSACTION ISOLATION LEVEL"@)
}

pub fn is_mysql_session_compat_noop(q: &str) -> (r: bool)
    ensures
        r == session_noop(q@),
{
    starts_with(q, "SET WAIT_TIMEOUT") || starts_with(q, "SET SESSION WAIT_TIMEOUT") || starts_with(
        q,
        "SET @@WAIT_TIMEOUT",
    ) || starts_with(q, "SET @@SESSION.WAIT_TIMEOUT") || starts_with(q, "SET INTERACTIVE_TIMEOUT") || starts_with(
        q,
        "SET SESSION INTERACTIVE_TIMEOUT",
    ) || starts_with(q, "SET @@INTERACTIVE_TIMEOUT") || starts_with(q, "SET @@SESSION.INTERACTIVE_TIMEOUT")
        || starts_with(q, "SET SESSION GROUP_CONCAT_MAX_LEN") || starts_with(
        q,
        "SET @@SESSION.GROUP_CONCAT_MAX_LEN",
    ) || starts_with(q, "SET @@GROUP_CONCAT_MAX_LEN") || starts_with(q, "SET @@INNODB_LOCK_WAIT_TIMEOUT")
        || starts_with(q, "SET @@SESSION.INNODB_LOCK_WAIT_TIMEOUT") || starts_with(
        q,
        "SET SESSION SQL_REQUIRE_PRIMARY_KEY",
    ) || starts_with(q, "SET @@SESSION.SQL_REQUIRE_PRIMARY_KEY") || starts_with(
        q,
        "SET @@SQL_REQUIRE_PRIMARY_KEY",
    ) || starts_with(q, "SET GLOBAL INNODB_FORCE_PRIMARY_KEY") || starts_with(
        q,
        "SET SESSION CHARACTER_SET_CLIENT",
    ) || starts_with(q, "SET SESSION CHARACTER_SET_RESULTS") || starts_with(
        q,
        "SET SESSION COLLATION_CONNECTION",
    ) || starts_with(q, "SET CHARACTER_SET_CLIENT") || starts_with(q, "SET CHARACTER_SET_RESULTS")
        || starts_with(q, "SET COLLATION_CONNECTION") || starts_with(q, "SET TIME_ZONE") || starts_with(
        q,
        "SET SESSION TIME_ZONE",
    ) || starts_with(q, "SET FOREIGN_KEY_CHECKS") || starts_with(q, "SET UNIQUE_CHECKS") || starts_with(
        q,
        "SET SQL_NOTES",
    ) || starts_with(q, "SET SESSION TRANSACTION ISOLATION LEVEL") || starts_with(
        q,
        "SET TRANSACTION ISOLATION LEVEL",
    )
}

/// Whether the frontend answers a statement itself, without the translator.
pub open spec fn compat_noop(query: Seq<char>) -> bool {
    let q = uppered(trimmed(query));
    begins(q, "SET NAMES "@) || sets_sql_mode(q) || begins(q, "CREATE DATABASE "@) || begins(
        q,
        "DROP DATABASE "@,
    ) || session_noop(q)
}

pub fn is_compat_noop_query(query: &str) -> (r: bool)
    ensures
        r == compat_noop(query@),
{
    let t = trim(query);
    let upper = to_upper(t.as_str());
    let q = upper.as_str();
    starts_with(q, "SET NAMES ") || is_set_sql_mode_query(q) || starts_with(q, "CREATE DATABASE ") || starts_with(
        q,
        "DROP DATABASE ",
    ) || is_mysql_session_compat_noop(q)
}

/// The schema that statements run in; none where the database has a blank name.
pub open spec fn active_schema(db: Option<Seq<char>>) -> Option<Seq<char>> {
    match db {
        Some(d) => if trimmed(d).len() == 0 {
            None
        } else {
            Some(d)
        },
        None => None,
    }
}

pub fn active_schema_name(current_db: &Option<String>) -> (r: Option<String>)
    ensures
        opt_text(r) == active_schema(opt_text(*current_db)),
{
    match current_db {
        Some(d) => if trim(d.as_str()).as_str().is_empty() {
            None
        } else {
            Some(d.clone())
        },
        None => None,
    }
}

/// The database that a statement names after a prefix.
pub open spec fn database_after(sql: Seq<char>, prefix: Seq<char>) -> Option<Seq<char>> {
    match without_prefix(trimmed(sql), prefix) {
        None => None,
        Some(tail) => {
            let rest = trimmed(tail);
            let name = trimmed(
                match without_prefix(rest, "IF NOT EXISTS "@) {
                    Some(r) => r,
                    None => match without_prefix(rest, "IF EXISTS "@) {
                        Some(r) => r,
                        None => rest,
                    },
                },
            );
            let words = words_from(name, 0);
            if words.len() == 0 {
                None
            } else {
                let ident = unpadded(unpadded(unpadded(words[0], ';'), '`'), '"');
                if ident.len() == 0 {
                    None
                } else {
                    Some(ident)
                }
            }
        },
    }
}

pub fn parse_database_name(sql: &str, prefix: &str) -> (r: Option<String>)
    ensures
        opt_text(r) == database_after(sql@, prefix@),
{
    let t = trim(sql);
    let tail = match strip_prefix(t.as_str(), prefix) {
        Some(s) => s,
        None => return None,
    };
    let rest = trim(tail.as_str());
    let shorter = match strip_prefix(rest.as_str(), "IF NOT EXISTS ") {
        Some(s) => s,
        None => match strip_prefix(rest.as_str(), "IF EXISTS ") {
            Some(s) => s,
            None => rest,
        },
    };
    let name = trim(shorter.as_str());
    let words = split_words(name.as_str());
    assert(texts(words@).len() == words@.len());
    if words.len() == 0 {
        return None;
    }
    let a = trim_matches(words[0].as_str(), ';');
    let b = trim_matches(a.as_str(), '`');
    let ident = trim_matches(b.as_str(), '"');
    if ident.as_str().is_empty() {
        None
    } else {
        Some(ident)
    }
}

/// The database that CREATE DATABASE names.
pub open spec fn created_database(sql: Seq<char>) -> Option<Seq<char>> {
    match database_after(sql, "CREATE DATABASE"@) {
        Some(n) => Some(n),
        None => database_after(sql, "create database"@),
    }
}

pub fn parse_create_database_name(sql: &str) -> (r: Option<String>)
    ensures
        opt_text(r) == created_database(sql@),
{
    match parse_database_name(sql, "CREATE DATABASE") {
        Some(n) => Some(n),
        None => parse_database_name(sql, "create database"),
    }
}

/// The database that DROP DATABASE names.
pub open spec fn dropped_database(sql: Seq<char>) -> Option<Seq<char>> {
    match database_after(sql, "DROP DATABASE"@) {
        Some(n) => Some(n),
        None => database_after(sql, "drop database"@),
    }
}

pub fn parse_drop_database_name(sql: &str) -> (r: Option<String>)
    ensures
        opt_text(r) == dropped_database(sql@),
{
    match parse_database_name(sql, "DROP DATABASE") {
        Some(n) => Some(n),
        None => parse_database_name(sql, "drop database"),
    }
}

/// The name under which an expression appears in a result.
pub open spec fn expr_name(e: Tree) -> Seq<char> {
    match payload(e, "Identifier"@) {
        Some(ident) => ident_value(ident),
        None => match payload(e, "CompoundIdentifier"@) {
            Some(parts) => if items(parts).len() > 0 {
                ident_value(items(parts).last())
            } else {
                shown(expr_sql(e))
            },
            None => shown(expr_sql(e)),
        },
    }
}

fn infer_expr_name(e: &Node) -> (r: String)
    ensures
        r@ == expr_name(e.tree()),
{
    match e.payload("Identifier") {
        Some(ident) => return value_of_ident(ident),
        None => {},
    }
    match e.payload("CompoundIdentifier") {
        Some(parts) => {
            let count: usize = parts.count();
            if count > 0 {
                return value_of_ident(parts.item(count - 1));
            }
        },
        None => {},
    }
    show(render_expr(e))
}

/// The name under which an item of a SELECT list appears in a result; a star for
/// wildcards.
pub open spec fn item_name(item: Tree) -> Seq<char> {
    match item_alias(item) {
        Some(alias) => ident_value(alias),
        None => match payload(item, "UnnamedExpr"@) {
            Some(e) => expr_name(e),
            None => "*"@,
        },
    }
}

fn infer_select_item_name(item: &Node) -> (r: String)
    ensures
        r@ == item_name(item.tree()),
{
    let null = Node::Null;
    match item.payload("ExprWithAlias") {
        Some(x) => value_of_ident(x.part("alias", &null)),
        None => match item.payload("UnnamedExpr") {
            Some(e) => infer_expr_name(e),
            None => "*".to_string(),
        },
    }
}

pub open spec fn item_names(list: Seq<Tree>) -> Seq<Seq<char>> {
    Seq::new(list.len(), |i: int| item_name(list[i]))
}

/// The columns of a query, by its SELECT list.
pub open spec fn query_columns(query: Tree) -> Seq<Seq<char>> {
    match select_of(query) {
        Some(s) => item_names(items(part(s, "projection"@))),
        None => Seq::empty(),
    }
}

/// Infers the columns of a query from its SELECT list.
pub fn infer_query_result_columns(query: &Node) -> (r: Vec<String>)
    ensures
        texts(r@) == query_columns(query.tree()),
{
    let null = Node::Null;
    let mut out: Vec<String> = Vec::new();
    match select_in(query) {
        Some(s) => {
            let list = s.part("projection", &null);
            let mut i: usize = 0;
            let count: usize = list.count();
            let ghost want = item_names(items(list.tree()));
            while i < count
                invariant
                    count == items(list.tree()).len(),
                    i <= count,
                    want == item_names(items(list.tree())),
                    texts(out@) =~= want.take(i as int),
                decreases count - i,
            {
                push_text(&mut out, infer_select_item_name(list.item(i)));
                i = i + 1;
                assert(texts(out@) =~= want.take(i as int));
            }
            assert(texts(out@) =~= want);
        },
        None => {
            assert(texts(out@) =~= Seq::<Seq<char>>::empty());
        },
    }
    out
}

/// The columns of the first of a list of statements, where it is a query.
pub open spec fn first_columns(statements: Tree) -> Seq<Seq<char>> {
    match payload(item_at(statements, 0), "Query"@) {
        Some(query) => query_columns(query),
        None => Seq::empty(),
    }
}

/// Infers the columns of the first statement.
pub fn infer_first_columns(statements: &Node) -> (r: Vec<String>)
    ensures
        texts(r@) == first_columns(statements.tree()),
{
    let null = Node::Null;
    match statements.item_at(0, &null).payload("Query") {
        Some(query) => infer_query_result_columns(query),
        None => {
            let none: Vec<String> = Vec::new();
            assert(texts(none@) =~= Seq::<Seq<char>>::empty());
            none
        },
    }
}

/// The columns of a statement's result, as far as its text shows them.
pub open spec fn result_columns(query: Seq<char>) -> Seq<Seq<char>> {
    match mysql_parse(query) {
        Ok(statements) => first_columns(statements),
        Err(_) => Seq::empty(),
    }
}

/// Infers the columns of a statement's result from its text.
pub fn infer_result_columns(query: &str) -> (r: Vec<String>)
    ensures
        texts(r@) == result_columns(query@),
{
    match parse_mysql_sql(query) {
        Ok(statements) => infer_first_columns(&statements),
        Err(_) => {
            let none: Vec<String> = Vec::new();
            assert(texts(none@) =~= Seq::<Seq<char>>::empty());
            none
        },
    }
}

/// The columns of a PostgreSQL statement's result, as far as its text shows them.
pub open spec fn postgres_result_columns(query: Seq<char>) -> Seq<Seq<char>> {
    match postgres_parse(query) {
        Ok(statements) => first_columns(statements),
        Err(_) => Seq::empty(),
    }
}

/// Infers the columns of a PostgreSQL statement's result from its text.
pub fn infer_postgres_result_columns(query: &str) -> (r: Vec<String>)
    ensures
        texts(r@) == postgres_result_columns(query@),
{
    match parse_postgres_sql(query) {
        Ok(statements) => infer_first_columns(&statements),
        Err(_) => {
            let none: Vec<String> = Vec::new();
            assert(texts(none@) =~= Seq::<Seq<char>>::empty());
            none
        },
    }
}

/// The columns of SHOW INDEX.
pub open spec fn index_columns() -> Seq<Seq<char>> {
    seq![
        "Table"@,
        "Non_unique"@,
        "Key_name"@,
        "Seq_in_index"@,
        "Column_name"@,
        "Collation"@,
        "Cardinality"@,
        "Sub_part"@,
        "Packed"@,
        "Null"@,
        "Index_type"@,
        "Comment"@,
        "Index_comment"@,
        "Visible"@,
        "Expression"@,
    ]
}

/// The columns of the SHOW statements that are answered in a form of their own.
pub open spec fn show_columns(query: Seq<char>) -> Option<Seq<Seq<char>>> {
    let q = uppered(trimmed(query));
    if begins(q, "SHOW VARIABLES"@) || begins(q, "SHOW STATUS"@) {
        Some(seq!["Variable_name"@, "Value"@])
    } else if begins(q, "SHOW CHARACTER SET"@) {
        Some(seq!["Charset"@, "Description"@, "Default collation"@, "Maxlen"@])
    } else if begins(q, "SHOW TABLES"@) {
        Some(seq!["Tables_in_current_schema"@])
    } else if begins(q, "SHOW INDEX"@) || begins(q, "SHOW INDEXES"@) || begins(q, "SHOW KEYS"@) {
        Some(index_columns())
    } else {
        None
    }
}

pub open spec fn opt_texts(o: Option<Vec<String>>) -> Option<Seq<Seq<char>>> {
    match o {
        Some(v) => Some(texts(v@)),
        None => None,
    }
}

fn index_column_names() -> (r: Vec<String>)
    ensures
        texts(r@) == index_columns(),
{
    let mut v: Vec<String> = Vec::new();
    push_text(&mut v, "Table".to_string());
    push_text(&mut v, "Non_unique".to_string());
    push_text(&mut v, "Key_name".to_string());
    push_text(&mut v, "Seq_in_index".to_string());
    push_text(&mut v, "Column_name".to_string());
    push_text(&mut v, "Collation".to_string());
    push_text(&mut v, "Cardinality".to_string());
    push_text(&mut v, "Sub_part".to_string());
    push_text(&mut v, "Packed".to_string());
    push_text(&mut v, "Null".to_string());
    push_text(&mut v, "Index_type".to_string());
    push_text(&mut v, "Comment".to_string());
    push_text(&mut v, "Index_comment".to_string());
    push_text(&mut v, "Visible".to_string());
    push_text(&mut v, "Expression".to_string());
    assert(texts(v@) =~= index_columns());
    v
}

/// The columns of the SHOW statements that are answered in a form of their own.
pub fn compat_prepare_columns_for_query(query: &str) -> (r: Option<Vec<String>>)
    ensures
        opt_texts(r) == show_columns(query@),
{
    let t = trim(query);
    let upper = to_upper(t.as_str());
    let q = upper.as_str();
    let mut v: Vec<String> = Vec::new();
    if starts_with(q, "SHOW VARIABLES") || starts_with(q, "SHOW STATUS") {
        push_text(&mut v, "Variable_name".to_string());
        push_text(&mut v, "Value".to_string());
        assert(texts(v@) =~= seq!["Variable_name"@, "Value"@]);
        Some(v)
    } else if starts_with(q, "SHOW CHARACTER SET") {
        push_text(&mut v, "Charset".to_string());
        push_text(&mut v, "Description".to_string());
        push_text(&mut v, "Default collation".to_string());
        push_text(&mut v, "Maxlen".to_string());
        assert(texts(v@) =~= seq!["Charset"@, "Description"@, "Default collation"@, "Maxlen"@]);
        Some(v)
    } else if starts_with(q, "SHOW TABLES") {
        push_text(&mut v, "Tables_in_current_schema".to_string());
        assert(texts(v@) =~= seq!["Tables_in_current_schema"@]);
        Some(v)
    } else if starts_with(q, "SHOW INDEX") || starts_with(q, "SHOW INDEXES") || starts_with(q, "SHOW KEYS") {
        Some(index_column_names())
    } else {
        None
    }
}

/// Whether a list of column names holds a wildcard.
pub open spec fn has_star(columns: Seq<Seq<char>>) -> bool {
    exists|i: int| 0 <= i < columns.len() && #[trigger] columns[i] == "*"@
}

pub fn holds_star(columns: &Vec<String>) -> (r: bool)
    ensures
        r == has_star(texts(columns@)),
{
    let mut i: usize = 0;
    while i < columns.len()
        invariant
            i <= columns@.len(),
            forall|j: int| 0 <= j < i ==> #[trigger] texts(columns@)[j] != "*"@,
        decreases columns.len() - i,
    {
        if same(columns[i].as_str(), "*") {
            assert(texts(columns@)[i as int] == "*"@);
            return true;
        }
        i = i + 1;
    }
    false
}

/// The columns of a prepared statement, from its own text or else from its translation.
pub open spec fn prepared_columns(original: Seq<char>, translated: Seq<char>) -> Seq<Seq<char>> {
    match show_columns(original) {
        Some(c) => c,
        None => if result_columns(original).len() > 0 {
            result_columns(original)
        } else if has_star(postgres_result_columns(translated)) {
            Seq::empty()
        } else {
            postgres_result_columns(translated)
        },
    }
}

/// Infers the columns of a prepared statement.
pub fn infer_prepare_result_columns(original_sql: &str, translated_sql: &str) -> (r: Vec<String>)
    ensures
        texts(r@) == prepared_columns(original_sql@, translated_sql@),
{
    match compat_prepare_columns_for_query(original_sql) {
        Some(c) => return c,
        None => {},
    }
    let columns = infer_result_columns(original_sql);
    assert(texts(columns@).len() == columns@.len());
    if columns.len() > 0 {
        return columns;
    }
    let translated = infer_postgres_result_columns(translated_sql);
    if holds_star(&translated) {
        let none: Vec<String> = Vec::new();
        assert(texts(none@) =~= Seq::<Seq<char>>::empty());
        none
    } else {
        translated
    }
}

/// The MySQL error that a failure is reported as.
#[derive(Debug, Clone, Copy, PartialEq, Eq, Structural)]
pub enum ErrorKind {
    /// 1064
    Parse,
    /// 1243
    UnknownStatement,
    /// 1062
    DuplicateEntry,
    /// 1146
    NoSuchTable,
    /// 1054
    BadField,
    /// 1048
    BadNull,
    /// 1068
    MultiplePrimaryKey,
    /// 1050
    TableExists,
    /// 1060
    DuplicateField,
    /// 1213
    Deadlock,
    /// 1105
    Unknown,
}

/// The MySQL error for the SQLSTATE that a message holds in brackets.
pub open spec fn error_kind(message: Seq<char>) -> ErrorKind {
    if occurs(message, "[23505]"@) {
        ErrorKind::DuplicateEntry
    } else if occurs(message, "[42P01]"@) {
        ErrorKind::NoSuchTable
    } else if occurs(message, "[42703]"@) {
        ErrorKind::BadField
    } else if occurs(message, "[23502]"@) {
        ErrorKind::BadNull
    } else if occurs(message, "[42P16]"@) {
        ErrorKind::MultiplePrimaryKey
    } else if occurs(message, "[42P07]"@) {
        ErrorKind::TableExists
    } else if occurs(message, "[42701]"@) {
        ErrorKind::DuplicateField
    } else if occurs(message, "[40P01]"@) {
        ErrorKind::Deadlock
    } else if occurs(message, "[42601]"@) {
        ErrorKind::Parse
    } else {
        ErrorKind::Unknown
    }
}

/// The MySQL error for the SQLSTATE that a message holds, so that a client that branches
/// on a specific error behaves as it would on MySQL.
pub fn mysql_error_kind_for_message(message: &str) -> (r: ErrorKind)
    ensures
        r == error_kind(message@),
{
    if contains(message, "[23505]") {
        ErrorKind::DuplicateEntry
    } else if contains(message, "[42P01]") {
        ErrorKind::NoSuchTable
    } else if contains(message, "[42703]") {
        ErrorKind::BadField
    } else if contains(message, "[23502]") {
        ErrorKind::BadNull
    } else if contains(message, "[42P16]") {
        ErrorKind::MultiplePrimaryKey
    } else if contains(message, "[42P07]") {
        ErrorKind::TableExists
    } else if contains(message, "[42701]") {
        ErrorKind::DuplicateField
    } else if contains(message, "[40P01]") {
        ErrorKind::Deadlock
    } else if contains(message, "[42601]") {
        ErrorKind::Parse
    } else {
        ErrorKind::Unknown
    }
}

} // verus!
