//! Statements that do not parse: they are read by patterns.
use vstd::prelude::*;

use crate::error::{translation_error, Failure, MiddlewareError};
use crate::quoting::{
    copy_decoded, decode_mysql_copy_escape, escaped_twice, normalize_mysql_string_literals,
    quote_copy_literal, quote_ident, quote_object_name_from_text, quote_string_literal,
    quoted_dotted_name, quoted_ident, requote_names, requoted, sql_string_literal, string_literal,
    with_postgres_literals,
};
use crate::regexes::{
    captures, either_group, founds, group, group_or_empty, match_inside, matches_inside,
    regex_captures, Capture,
};
use crate::scan::{csv, split_sql_csv, texts_or};
use crate::text::{
    cat2, cat3, cat4, cat5, cat7, cat9, chars_of, contains, eq_ignore_case, find_chars, find_from,
    is_digit, is_identifier_char, is_word, join, joined, lemma_find, occurs, opt_text, push_text,
    same, same_ignoring_case, slice, split, split_on, texts, to_upper, trim, trimmed, uppered,
};

verus! {

/// A translation made from the text: the SQL and its warnings, or nothing where the
/// statement is not of that kind.
pub type Direct = Result<Option<(String, Vec<String>)>, MiddlewareError>;

/// The mathematical counterpart of [`Direct`].
pub type DirectView = Result<Option<(Seq<char>, Seq<Seq<char>>)>, Failure>;

pub open spec fn direct_view(r: Direct) -> DirectView {
    match r {
        Ok(Some((sql, warnings))) => Ok(Some((sql@, texts(warnings@)))),
        Ok(None) => Ok(None),
        Err(e) => Err(e@),
    }
}

pub const LOAD_DATA: &'static str =
    r#"(?is)^\s*LOAD\s+DATA\s+(LOCAL\s+)?INFILE\s+(?:'([^']*)'|\"([^\"]*)\")\s+INTO\s+TABLE\s+([`\"A-Za-z0-9_.]+)(.*?);?\s*$"#;

pub const FIELDS_TERMINATED: &'static str = r#"(?is)FIELDS\s+TERMINATED\s+BY\s+(?:'([^']*)'|\"([^\"]*)\")"#;

pub const LINES_TERMINATED: &'static str = r#"(?is)LINES\s+TERMINATED\s+BY\s+(?:'([^']*)'|\"([^\"]*)\")"#;

pub const COLUMN_LIST: &'static str = r"(?is)\(([^()]*)\)\s*$";

pub const ON_DUPLICATE_INSERT: &'static str =
    r#"(?is)^\s*INSERT\s+(?:IGNORE\s+)?INTO\s+(?:`([A-Za-z_][A-Za-z0-9_]*)`|([A-Za-z_][A-Za-z0-9_]*))\s*\((.+?)\)\s*VALUES\s*\((.+?)\)\s*ON\s+DUPLICATE\s+KEY\s+UPDATE\s+(.+?)\s*;?\s*$"#;

pub const SHOW_INDEX: &'static str =
    r#"(?is)^\s*SHOW\s+(?:INDEX|INDEXES|KEYS)\s+(?:FROM|IN)\s+(?:`([A-Za-z_][A-Za-z0-9_]*)`|([A-Za-z_][A-Za-z0-9_]*))(?:\s+WHERE\s+Key_name\s*=\s*(\?|'.*?'|".*?"))?\s*;?\s*$"#;

pub const SHOW_TABLE_STATUS: &'static str =
    r#"(?is)^\s*SHOW\s+TABLE\s+STATUS(?:\s+(?:FROM|IN)\s+(?:`([A-Za-z_][A-Za-z0-9_]*)`|([A-Za-z_][A-Za-z0-9_]*)))?(?:\s+LIKE\s+(\?|'.*?'|".*?"))?\s*;?\s*$"#;

pub const SHOW_INDEX_ROWS: &'static str =
    "SELECT * FROM ( SELECT cls.relname AS \"Table\", CASE WHEN idx.indisunique THEN 0 ELSE 1 END AS \"Non_unique\", CASE WHEN idx.indisprimary THEN 'PRIMARY' ELSE ci.relname END AS \"Key_name\", key_columns.ordinality AS \"Seq_in_index\", att.attname AS \"Column_name\", 'A' AS \"Collation\", NULL::BIGINT AS \"Cardinality\", NULL::BIGINT AS \"Sub_part\", NULL::TEXT AS \"Packed\", CASE WHEN att.attnotnull THEN '' ELSE 'YES' END AS \"Null\", 'BTREE' AS \"Index_type\", '' AS \"Comment\", '' AS \"Index_comment\", 'YES' AS \"Visible\", NULL::TEXT AS \"Expression\" FROM pg_class cls JOIN pg_namespace ns ON ns.oid = cls.relnamespace JOIN pg_index idx ON idx.indrelid = cls.oid JOIN pg_class ci ON ci.oid = idx.indexrelid JOIN LATERAL unnest(idx.indkey) WITH ORDINALITY AS key_columns(attnum, ordinality) ON TRUE JOIN pg_attribute att ON att.attrelid = cls.oid AND att.attnum = key_columns.attnum WHERE ns.nspname = current_schema() AND cls.relname = ";

pub const SHOW_INDEX_FILTER: &'static str = " ) AS show_index_rows WHERE ";

pub const SHOW_INDEX_ORDER: &'static str = " ORDER BY \"Key_name\", \"Seq_in_index\"";

pub const TABLE_STATUS_ROWS: &'static str =
    "SELECT c.relname AS \"Name\", 'InnoDB' AS \"Engine\", 10 AS \"Version\", 'Dynamic' AS \"Row_format\", c.reltuples::bigint AS \"Rows\", 0 AS \"Avg_row_length\", pg_table_size(c.oid) AS \"Data_length\", 0 AS \"Max_data_length\", pg_indexes_size(c.oid) AS \"Index_length\", 0 AS \"Data_free\", NULL::bigint AS \"Auto_increment\", NULL::timestamp AS \"Create_time\", NULL::timestamp AS \"Update_time\", NULL::timestamp AS \"Check_time\", 'utf8mb4_unicode_ci' AS \"Collation\", NULL::bigint AS \"Checksum\", '' AS \"Create_options\", COALESCE(obj_description(c.oid, 'pg_class'), '') AS \"Comment\" FROM pg_class c JOIN pg_namespace n ON n.oid = c.relnamespace WHERE c.relkind IN ('r', 'p') AND n.nspname = ";

/// The first match of a pattern that a clause of LOAD DATA gives, between either kind of
/// quotes.
pub open spec fn clause_text(options: Seq<char>, found: Seq<Seq<Option<(int, int)>>>) -> Option<Seq<char>> {
    if found.len() == 0 {
        None
    } else {
        either_group(options, found[0], 1, 2)
    }
}

fn read_clause(options: &str, found: &Vec<Capture>) -> (r: Option<String>)
    requires
        matches_inside(founds(found@), options@.len() as int),
    ensures
        opt_text(r) == clause_text(options@, founds(found@)),
{
    if found.len() == 0 {
        return None;
    }
    assert(match_inside(founds(found@)[0], options@.len() as int));
    found[0].either_group(options, 1, 2)
}

/// The column list of COPY; empty where LOAD DATA names no columns.
pub open spec fn copy_columns(options: Seq<char>, found: Seq<Seq<Option<(int, int)>>>) -> Seq<char> {
    if found.len() == 0 {
        Seq::empty()
    } else {
        " ("@ + joined(requoted(split(group_or_empty(options, found[0], 1), ',')), ", "@) + ")"@
    }
}

fn render_copy_columns(options: &str, found: &Vec<Capture>) -> (r: String)
    requires
        matches_inside(founds(found@), options@.len() as int),
    ensures
        r@ == copy_columns(options@, founds(found@)),
{
    if found.len() == 0 {
        return String::new();
    }
    assert(match_inside(founds(found@)[0], options@.len() as int));
    let raw = found[0].group_or_empty(options, 1);
    let parts = split_on(raw.as_str(), ',');
    let quoted = requote_names(&parts);
    let listed = join(&quoted, ", ");
    cat3(" (", listed.as_str(), ")")
}

/// The field separator of COPY: that of LOAD DATA with its escapes resolved, or a tab.
pub open spec fn copy_delimiter(clause: Option<Seq<char>>) -> Seq<char> {
    match clause {
        Some(s) => copy_decoded(s),
        None => "\t"@,
    }
}

/// COPY in place of LOAD DATA INFILE, given what the clauses of the statement say.
pub open spec fn copy_statement(
    table: Seq<char>,
    columns: Seq<char>,
    path: Seq<char>,
    delimiter: Seq<char>,
) -> Seq<char> {
    "COPY "@ + quoted_dotted_name(table) + columns + " FROM "@ + ("'"@ + escaped_twice(path) + "'"@)
        + " WITH (FORMAT csv, DELIMITER "@ + ("E'"@ + escaped_twice(delimiter) + "'"@)
        + ", NULL '\\\\N', HEADER false)"@
}

/// The warnings that a translated LOAD DATA carries.
pub open spec fn load_data_warnings(line_ending: Seq<char>, options: Seq<char>) -> Seq<Seq<char>> {
    let first = seq!["rewrote server-side MySQL LOAD DATA INFILE to PostgreSQL COPY"@];
    let second = if line_ending != "\\n"@ {
        first.push(
            "LOAD DATA line terminators other than newline require PostgreSQL COPY preprocessing"@,
        )
    } else {
        first
    };
    if occurs(uppered(options), "IGNORE "@) || occurs(uppered(options), "REPLACE"@) {
        second.push("LOAD DATA IGNORE/REPLACE semantics are not equivalent to PostgreSQL COPY"@)
    } else {
        second
    }
}

/// LOAD DATA as COPY; `found` are the matches of [`LOAD_DATA`].
pub open spec fn load_data_translation(sql: Seq<char>, found: Seq<Seq<Option<(int, int)>>>) -> DirectView {
    if found.len() == 0 {
        Ok(None)
    } else if group(sql, found[0], 1) is Some {
        Err(
            Failure::Translation(
                "LOAD DATA LOCAL INFILE requires MySQL client-local-infile wire support; server-side LOAD DATA INFILE is supported"@,
            ),
        )
    } else {
        let options = group_or_empty(sql, found[0], 5);
        let path = match either_group(sql, found[0], 2, 3) {
            Some(p) => p,
            None => Seq::empty(),
        };
        let line_ending = match clause_text(options, regex_captures(LINES_TERMINATED@, options)) {
            Some(s) => s,
            None => "\\n"@,
        };
        Ok(
            Some(
                (
                    copy_statement(
                        group_or_empty(sql, found[0], 4),
                        copy_columns(options, regex_captures(COLUMN_LIST@, options)),
                        path,
                        copy_delimiter(clause_text(options, regex_captures(FIELDS_TERMINATED@, options))),
                    ),
                    load_data_warnings(line_ending, options),
                ),
            ),
        )
    }
}

/// Writes COPY in place of LOAD DATA INFILE.
pub fn render_copy(table: &str, columns: &str, path: &str, delimiter: &str) -> (r: String)
    ensures
        r@ == copy_statement(table@, columns@, path@, delimiter@),
{
    let name = quote_object_name_from_text(table);
    let file = quote_string_literal(path);
    let separator = quote_copy_literal(delimiter);
    let head = cat7(
        "COPY ",
        name.as_str(),
        columns,
        " FROM ",
        file.as_str(),
        " WITH (FORMAT csv, DELIMITER ",
        separator.as_str(),
    );
    cat2(head.as_str(), ", NULL '\\\\N', HEADER false)")
}

/// Lists the warnings that a translated LOAD DATA carries.
pub fn warn_of_load_data(line_ending: &str, options: &str) -> (r: Vec<String>)
    ensures
        texts(r@) == load_data_warnings(line_ending@, options@),
{
    let mut warnings: Vec<String> = Vec::new();
    push_text(
        &mut warnings,
        "rewrote server-side MySQL LOAD DATA INFILE to PostgreSQL COPY".to_string(),
    );
    assert(texts(warnings@) =~= seq!["rewrote server-side MySQL LOAD DATA INFILE to PostgreSQL COPY"@]);
    if !same(line_ending, "\\n") {
        push_text(
            &mut warnings,
            "LOAD DATA line terminators other than newline require PostgreSQL COPY preprocessing".to_string(),
        );
    }
    let upper = to_upper(options);
    if contains(upper.as_str(), "IGNORE ") || contains(upper.as_str(), "REPLACE") {
        push_text(
            &mut warnings,
            "LOAD DATA IGNORE/REPLACE semantics are not equivalent to PostgreSQL COPY".to_string(),
        );
    }
    warnings
}

/// Translates a matched LOAD DATA.
pub fn load_data_from_match(sql: &str, found: &Vec<Capture>) -> (r: Direct)
    requires
        matches_inside(founds(found@), sql@.len() as int),
    ensures
        direct_view(r) == load_data_translation(sql@, founds(found@)),
{
    if found.len() == 0 {
        return Ok(None);
    }
    assert(match_inside(founds(found@)[0], sql@.len() as int));
    let m = &found[0];
    if m.group(sql, 1).is_some() {
        return Err(
            translation_error(
                "LOAD DATA LOCAL INFILE requires MySQL client-local-infile wire support; server-side LOAD DATA INFILE is supported",
            ),
        );
    }
    let path = match m.either_group(sql, 2, 3) {
        Some(p) => p,
        None => String::new(),
    };
    let table = m.group_or_empty(sql, 4);
    let options = m.group_or_empty(sql, 5);
    let fields = captures(FIELDS_TERMINATED, options.as_str());
    let delimiter = match read_clause(options.as_str(), &fields) {
        Some(s) => decode_mysql_copy_escape(s.as_str()),
        None => "\t".to_string(),
    };
    let lines = captures(LINES_TERMINATED, options.as_str());
    let line_ending = match read_clause(options.as_str(), &lines) {
        Some(s) => s,
        None => "\\n".to_string(),
    };
    let list = captures(COLUMN_LIST, options.as_str());
    let columns = render_copy_columns(options.as_str(), &list);
    let translated = render_copy(table.as_str(), columns.as_str(), path.as_str(), delimiter.as_str());
    let warnings = warn_of_load_data(line_ending.as_str(), options.as_str());
    Ok(Some((translated, warnings)))
}

/// Translates a server-side LOAD DATA INFILE to COPY.
pub fn translate_load_data_direct(sql: &str) -> (r: Direct)
    ensures
        direct_view(r) == load_data_translation(sql@, regex_captures(LOAD_DATA@, sql@)),
{
    let found = captures(LOAD_DATA, sql);
    load_data_from_match(sql, &found)
}

/// Whether a text is a plain identifier: a word that does not start with a digit.
pub open spec fn is_plain_name(s: Seq<char>) -> bool {
    s.len() > 0 && !is_digit(s[0]) && forall|i: int| 0 <= i < s.len() ==> is_word(#[trigger] s[i])
}

pub fn plain_name(s: &str) -> (r: bool)
    ensures
        r == is_plain_name(s@),
{
    let c = chars_of(s);
    if c.len() == 0 || ('0' <= c[0] && c[0] <= '9') {
        return false;
    }
    let mut i: usize = 0;
    while i < c.len()
        invariant
            c@ == s@,
            i <= c@.len(),
            forall|j: int| 0 <= j < i ==> is_word(#[trigger] c@[j]),
        decreases c.len() - i,
    {
        if !is_identifier_char(c[i]) {
            return false;
        }
        i = i + 1;
    }
    true
}

/// The text between two quotes `q`.
pub open spec fn between(s: Seq<char>, q: char) -> Option<Seq<char>> {
    if s.len() >= 2 && s[0] == q && s.last() == q {
        Some(s.subrange(1, s.len() - 1))
    } else {
        None
    }
}

pub fn strip_quotes(s: &str, q: char) -> (r: Option<String>)
    ensures
        opt_text(r) == between(s@, q),
{
    let n: usize = s.unicode_len();
    if n >= 2 && s.get_char(0) == q && s.get_char(n - 1) == q {
        Some(slice(s, 1, n - 1))
    } else {
        None
    }
}

/// The name that an identifier token stands for.
pub open spec fn identifier_token(token: Seq<char>) -> Result<Seq<char>, Failure> {
    let t = trimmed(token);
    match between(t, '`') {
        Some(name) => Ok(name),
        None => match between(t, '"') {
            Some(name) => Ok(name),
            None => if is_plain_name(t) {
                Ok(t)
            } else {
                Err(
                    Failure::Translation(
                        "unsupported identifier token `"@ + t + "` in direct SQL translation"@,
                    ),
                )
            },
        },
    }
}

pub open spec fn text_or(r: Result<String, MiddlewareError>) -> Result<Seq<char>, Failure> {
    match r {
        Ok(s) => Ok(s@),
        Err(e) => Err(e@),
    }
}

/// Reads the name that an identifier token stands for.
pub fn normalize_identifier_token(token: &str) -> (r: Result<String, MiddlewareError>)
    ensures
        text_or(r) == identifier_token(token@),
{
    let t = trim(token);
    match strip_quotes(t.as_str(), '`') {
        Some(name) => return Ok(name),
        None => {},
    }
    match strip_quotes(t.as_str(), '"') {
        Some(name) => return Ok(name),
        None => {},
    }
    if plain_name(t.as_str()) {
        return Ok(t);
    }
    Err(
        MiddlewareError::Translation(
            cat3("unsupported identifier token `", t.as_str(), "` in direct SQL translation"),
        ),
    )
}

/// The names of a list of identifier tokens, or the first error.
pub open spec fn identifier_tokens(parts: Seq<Seq<char>>) -> Result<Seq<Seq<char>>, Failure>
    decreases parts.len(),
{
    if parts.len() == 0 {
        Ok(Seq::empty())
    } else {
        match identifier_tokens(parts.drop_last()) {
            Err(e) => Err(e),
            Ok(v) => match identifier_token(parts.last()) {
                Err(e) => Err(e),
                Ok(t) => Ok(v.push(t)),
            },
        }
    }
}

pub proof fn lemma_tokens_prefix(parts: Seq<Seq<char>>, n: int)
    requires
        0 <= n <= parts.len(),
        identifier_tokens(parts.take(n)) is Err,
    ensures
        identifier_tokens(parts) == identifier_tokens(parts.take(n)),
    decreases parts.len() - n,
{
    if n < parts.len() {
        assert(parts.take(n + 1).drop_last() =~= parts.take(n));
        lemma_tokens_prefix(parts, n + 1);
    } else {
        assert(parts.take(n) =~= parts);
    }
}

/// Reads the names of a list of identifier tokens.
pub fn normalize_identifier_tokens(parts: &Vec<String>) -> (r: Result<Vec<String>, MiddlewareError>)
    ensures
        texts_or(r) == identifier_tokens(texts(parts@)),
{
    let ghost all = texts(parts@);
    let mut out: Vec<String> = Vec::new();
    let mut i: usize = 0;
    assert(texts(out@) =~= Seq::<Seq<char>>::empty());
    assert(all.take(0) =~= Seq::<Seq<char>>::empty());
    while i < parts.len()
        invariant
            i <= parts@.len(),
            all == texts(parts@),
            identifier_tokens(all.take(i as int)) == Ok::<Seq<Seq<char>>, Failure>(texts(out@)),
        decreases parts.len() - i,
    {
        assert(all.take(i + 1).drop_last() =~= all.take(i as int));
        assert(all.take(i + 1).last() == parts@[i as int]@);
        match normalize_identifier_token(parts[i].as_str()) {
            Ok(t) => {
                push_text(&mut out, t);
            },
            Err(e) => {
                proof {
                    lemma_tokens_prefix(all, i + 1);
                }
                return Err(e);
            },
        }
        i = i + 1;
    }
    assert(all.take(i as int) =~= all);
    Ok(out)
}

/// The column and the value of `column = value`.
pub open spec fn update_assignment(s: Seq<char>) -> Result<(Seq<char>, Seq<char>), Failure> {
    let k = find_from(s, seq!['='], 0);
    if k < 0 {
        Err(Failure::Translation("missing update assignment value"@))
    } else {
        match identifier_token(s.take(k)) {
            Err(e) => Err(e),
            Ok(column) => Ok((column, with_postgres_literals(trimmed(s.skip(k + 1))))),
        }
    }
}

pub open spec fn assignment_or(r: Result<(String, String), MiddlewareError>) -> Result<
    (Seq<char>, Seq<char>),
    Failure,
> {
    match r {
        Ok((a, b)) => Ok((a@, b@)),
        Err(e) => Err(e@),
    }
}

/// Reads `column = value`.
pub fn parse_update_assignment(assignment: &str) -> (r: Result<(String, String), MiddlewareError>)
    ensures
        assignment_or(r) == update_assignment(assignment@),
{
    let c = chars_of(assignment);
    let mut p: Vec<char> = Vec::new();
    p.push('=');
    assert(p@ =~= seq!['=']);
    proof {
        lemma_find(c@, p@, 0);
    }
    match find_chars(&c, &p, 0) {
        None => Err(translation_error("missing update assignment value")),
        Some(k) => {
            let n: usize = c.len();
            let left = slice(assignment, 0, k);
            let right = slice(assignment, k + 1, n);
            assert(left@ =~= assignment@.take(k as int));
            assert(right@ =~= assignment@.skip(k + 1));
            match normalize_identifier_token(left.as_str()) {
                Err(e) => Err(e),
                Ok(column) => {
                    let value = trim(right.as_str());
                    Ok((column, normalize_mysql_string_literals(value.as_str())))
                },
            }
        },
    }
}

/// The contents of a list of pairs.
pub open spec fn text_pairs(v: Seq<(String, String)>) -> Seq<(Seq<char>, Seq<char>)> {
    Seq::new(v.len(), |i: int| (v[i].0@, v[i].1@))
}

pub open spec fn assignments_or(r: Result<Vec<(String, String)>, MiddlewareError>) -> Result<
    Seq<(Seq<char>, Seq<char>)>,
    Failure,
> {
    match r {
        Ok(v) => Ok(text_pairs(v@)),
        Err(e) => Err(e@),
    }
}

/// The assignments of a list, or the first error.
pub open spec fn update_assignments(parts: Seq<Seq<char>>) -> Result<Seq<(Seq<char>, Seq<char>)>, Failure>
    decreases parts.len(),
{
    if parts.len() == 0 {
        Ok(Seq::empty())
    } else {
        match update_assignments(parts.drop_last()) {
            Err(e) => Err(e),
            Ok(v) => match update_assignment(parts.last()) {
                Err(e) => Err(e),
                Ok(t) => Ok(v.push(t)),
            },
        }
    }
}

pub proof fn lemma_assignments_prefix(parts: Seq<Seq<char>>, n: int)
    requires
        0 <= n <= parts.len(),
        update_assignments(parts.take(n)) is Err,
    ensures
        update_assignments(parts) == update_assignments(parts.take(n)),
    decreases parts.len() - n,
{
    if n < parts.len() {
        assert(parts.take(n + 1).drop_last() =~= parts.take(n));
        lemma_assignments_prefix(parts, n + 1);
    } else {
        assert(parts.take(n) =~= parts);
    }
}

/// Reads the assignments of a list.
pub fn parse_update_assignments(parts: &Vec<String>) -> (r: Result<Vec<(String, String)>, MiddlewareError>)
    ensures
        assignments_or(r) == update_assignments(texts(parts@)),
{
    let ghost all = texts(parts@);
    let mut out: Vec<(String, String)> = Vec::new();
    let mut i: usize = 0;
    assert(text_pairs(out@) =~= Seq::<(Seq<char>, Seq<char>)>::empty());
    assert(all.take(0) =~= Seq::<Seq<char>>::empty());
    while i < parts.len()
        invariant
            i <= parts@.len(),
            all == texts(parts@),
            update_assignments(all.take(i as int)) == Ok::<Seq<(Seq<char>, Seq<char>)>, Failure>(
                text_pairs(out@),
            ),
        decreases parts.len() - i,
    {
        assert(all.take(i + 1).drop_last() =~= all.take(i as int));
        assert(all.take(i + 1).last() == parts@[i as int]@);
        match parse_update_assignment(parts[i].as_str()) {
            Ok(t) => {
                let ghost before = text_pairs(out@);
                out.push(t);
                assert(text_pairs(out@) =~= before.push((t.0@, t.1@)));
            },
            Err(e) => {
                proof {
                    lemma_assignments_prefix(all, i + 1);
                }
                return Err(e);
            },
        }
        i = i + 1;
    }
    assert(all.take(i as int) =~= all);
    Ok(out)
}

/// Whether no assignment sets a column.
pub open spec fn untouched(column: Seq<char>, updates: Seq<(Seq<char>, Seq<char>)>) -> bool {
    forall|j: int| 0 <= j < updates.len() ==> !same_ignoring_case((#[trigger] updates[j]).0, column)
}

fn is_untouched(column: &str, updates: &Vec<(String, String)>) -> (r: bool)
    ensures
        r == untouched(column@, text_pairs(updates@)),
{
    let mut j: usize = 0;
    while j < updates.len()
        invariant
            j <= updates@.len(),
            forall|k: int|
                0 <= k < j ==> !same_ignoring_case((#[trigger] text_pairs(updates@)[k]).0, column@),
        decreases updates.len() - j,
    {
        if eq_ignore_case(updates[j].0.as_str(), column) {
            assert(same_ignoring_case(text_pairs(updates@)[j as int].0, column@));
            return false;
        }
        j = j + 1;
    }
    true
}

/// The first column from `i` on that no assignment sets; the first column where there
/// is none.
pub open spec fn conflict_column(
    columns: Seq<Seq<char>>,
    updates: Seq<(Seq<char>, Seq<char>)>,
    i: int,
) -> Seq<char>
    decreases columns.len() - i,
{
    if i < 0 || i >= columns.len() {
        columns[0]
    } else if untouched(columns[i], updates) {
        columns[i]
    } else {
        conflict_column(columns, updates, i + 1)
    }
}

/// The conflict target of an upsert: the only column, or else the first that the update
/// does not set, or else the first.
pub open spec fn conflict_target(
    columns: Seq<Seq<char>>,
    updates: Seq<(Seq<char>, Seq<char>)>,
) -> Result<Seq<char>, Failure> {
    if columns.len() == 0 {
        Err(
            Failure::Translation(
                "INSERT ... ON DUPLICATE KEY UPDATE requires at least one column"@,
            ),
        )
    } else if columns.len() == 1 {
        Ok(columns[0])
    } else {
        Ok(conflict_column(columns, updates, 0))
    }
}

/// Guesses the conflict target for a translated `ON DUPLICATE KEY UPDATE`. A column the
/// update assigns cannot be the conflict key, so the first that is only inserted is
/// preferred.
pub fn infer_on_conflict_target(
    columns: &Vec<String>,
    update_assignments: &Vec<(String, String)>,
) -> (r: Result<String, MiddlewareError>)
    ensures
        text_or(r) == conflict_target(texts(columns@), text_pairs(update_assignments@)),
{
    if columns.len() == 0 {
        return Err(translation_error("INSERT ... ON DUPLICATE KEY UPDATE requires at least one column"));
    }
    if columns.len() == 1 {
        return Ok(columns[0].clone());
    }
    let mut i: usize = 0;
    while i < columns.len()
        invariant
            i <= columns@.len(),
            columns@.len() > 1,
            conflict_column(texts(columns@), text_pairs(update_assignments@), i as int) == conflict_column(
                texts(columns@),
                text_pairs(update_assignments@),
                0,
            ),
        decreases columns.len() - i,
    {
        if is_untouched(columns[i].as_str(), update_assignments) {
            return Ok(columns[i].clone());
        }
        i = i + 1;
    }
    Ok(columns[0].clone())
}

/// Every value of a list with its string literals as PostgreSQL reads them.
pub open spec fn values_normalized(values: Seq<Seq<char>>) -> Seq<Seq<char>> {
    Seq::new(values.len(), |i: int| with_postgres_literals(values[i]))
}

fn normalize_values(values: &Vec<String>) -> (r: Vec<String>)
    ensures
        texts(r@) == values_normalized(texts(values@)),
{
    let mut out: Vec<String> = Vec::new();
    let mut i: usize = 0;
    while i < values.len()
        invariant
            i <= values@.len(),
            texts(out@) =~= values_normalized(texts(values@)).take(i as int),
        decreases values.len() - i,
    {
        push_text(&mut out, normalize_mysql_string_literals(values[i].as_str()));
        i = i + 1;
        assert(texts(out@) =~= values_normalized(texts(values@)).take(i as int));
    }
    assert(texts(out@) =~= values_normalized(texts(values@)));
    out
}

/// Every name of a list quoted.
pub open spec fn all_quoted(names: Seq<Seq<char>>) -> Seq<Seq<char>> {
    Seq::new(names.len(), |i: int| quoted_ident(names[i]))
}

pub fn quote_all(names: &Vec<String>) -> (r: Vec<String>)
    ensures
        texts(r@) == all_quoted(texts(names@)),
{
    let mut out: Vec<String> = Vec::new();
    let mut i: usize = 0;
    while i < names.len()
        invariant
            i <= names@.len(),
            texts(out@) =~= all_quoted(texts(names@)).take(i as int),
        decreases names.len() - i,
    {
        push_text(&mut out, quote_ident(names[i].as_str()));
        i = i + 1;
        assert(texts(out@) =~= all_quoted(texts(names@)).take(i as int));
    }
    assert(texts(out@) =~= all_quoted(texts(names@)));
    out
}

/// `"column" = value` for each assignment.
pub open spec fn set_clauses(updates: Seq<(Seq<char>, Seq<char>)>) -> Seq<Seq<char>> {
    Seq::new(updates.len(), |i: int| quoted_ident(updates[i].0) + " = "@ + updates[i].1)
}

fn render_set_clauses(updates: &Vec<(String, String)>) -> (r: Vec<String>)
    ensures
        texts(r@) == set_clauses(text_pairs(updates@)),
{
    let mut out: Vec<String> = Vec::new();
    let mut i: usize = 0;
    while i < updates.len()
        invariant
            i <= updates@.len(),
            texts(out@) =~= set_clauses(text_pairs(updates@)).take(i as int),
        decreases updates.len() - i,
    {
        let name = quote_ident(updates[i].0.as_str());
        push_text(&mut out, cat3(name.as_str(), " = ", updates[i].1.as_str()));
        i = i + 1;
        assert(texts(out@) =~= set_clauses(text_pairs(updates@)).take(i as int));
    }
    assert(texts(out@) =~= set_clauses(text_pairs(updates@)));
    out
}

/// The upsert that PostgreSQL writes with ON CONFLICT.
pub open spec fn upsert(
    table: Seq<char>,
    columns: Seq<Seq<char>>,
    values: Seq<Seq<char>>,
    updates: Seq<(Seq<char>, Seq<char>)>,
) -> DirectView {
    if columns.len() == 0 || columns.len() != values.len() {
        Err(
            Failure::Translation(
                "INSERT ... ON DUPLICATE KEY UPDATE requires matching column and value counts"@,
            ),
        )
    } else if updates.len() == 0 {
        Err(
            Failure::Translation(
                "INSERT ... ON DUPLICATE KEY UPDATE requires at least one assignment"@,
            ),
        )
    } else {
        match conflict_target(columns, updates) {
            Err(e) => Err(e),
            Ok(target) => Ok(
                Some(
                    (
                        "INSERT INTO "@ + quoted_ident(table) + " ("@ + joined(all_quoted(columns), ", "@)
                            + ") VALUES ("@ + joined(values, ", "@) + ") ON CONFLICT ("@ + quoted_ident(target)
                            + ") DO UPDATE SET "@ + joined(set_clauses(updates), ", "@),
                        seq![
                            "rewrote MySQL ON DUPLICATE KEY UPDATE using inferred PostgreSQL conflict target ("@
                                + target + ")"@,
                        ],
                    ),
                ),
            ),
        }
    }
}

/// Writes an upsert with ON CONFLICT.
pub fn render_upsert(
    table: &str,
    columns: &Vec<String>,
    values: &Vec<String>,
    updates: &Vec<(String, String)>,
) -> (r: Direct)
    ensures
        direct_view(r) == upsert(table@, texts(columns@), texts(values@), text_pairs(updates@)),
{
    if columns.len() == 0 || columns.len() != values.len() {
        return Err(
            translation_error(
                "INSERT ... ON DUPLICATE KEY UPDATE requires matching column and value counts",
            ),
        );
    }
    if updates.len() == 0 {
        return Err(
            translation_error("INSERT ... ON DUPLICATE KEY UPDATE requires at least one assignment"),
        );
    }
    let target = match infer_on_conflict_target(columns, updates) {
        Ok(target) => target,
        Err(e) => return Err(e),
    };
    let quoted_columns = join(&quote_all(columns), ", ");
    let listed_values = join(values, ", ");
    let sets = join(&render_set_clauses(updates), ", ");
    let quoted_table = quote_ident(table);
    let quoted_target = quote_ident(target.as_str());
    let head = cat9(
        "INSERT INTO ",
        quoted_table.as_str(),
        " (",
        quoted_columns.as_str(),
        ") VALUES (",
        listed_values.as_str(),
        ") ON CONFLICT (",
        quoted_target.as_str(),
        ") DO UPDATE SET ",
    );
    let translated = cat2(head.as_str(), sets.as_str());
    let mut warnings: Vec<String> = Vec::new();
    let warning = cat3(
        "rewrote MySQL ON DUPLICATE KEY UPDATE using inferred PostgreSQL conflict target (",
        target.as_str(),
        ")",
    );
    let ghost w = warning@;
    push_text(&mut warnings, warning);
    assert(texts(warnings@) =~= seq![w]);
    Ok(Some((translated, warnings)))
}

/// An upsert from the raw texts of its parts.
pub open spec fn upsert_of(
    table: Seq<char>,
    columns: Seq<char>,
    values: Seq<char>,
    updates: Seq<char>,
) -> DirectView {
    match csv(columns) {
        Err(e) => Err(e),
        Ok(cs) => match identifier_tokens(cs) {
            Err(e) => Err(e),
            Ok(names) => match csv(values) {
                Err(e) => Err(e),
                Ok(vs) => if names.len() == 0 || names.len() != vs.len() {
                    Err(
                        Failure::Translation(
                            "INSERT ... ON DUPLICATE KEY UPDATE requires matching column and value counts"@,
                        ),
                    )
                } else {
                    match csv(updates) {
                        Err(e) => Err(e),
                        Ok(us) => match update_assignments(us) {
                            Err(e) => Err(e),
                            Ok(sets) => upsert(table, names, values_normalized(vs), sets),
                        },
                    }
                },
            },
        },
    }
}

/// Translates an upsert from the raw texts of its parts.
pub fn translate_upsert(table: &str, raw_columns: &str, raw_values: &str, raw_updates: &str) -> (r: Direct)
    ensures
        direct_view(r) == upsert_of(table@, raw_columns@, raw_values@, raw_updates@),
{
    let parts = match split_sql_csv(raw_columns) {
        Ok(v) => v,
        Err(e) => return Err(e),
    };
    let columns = match normalize_identifier_tokens(&parts) {
        Ok(v) => v,
        Err(e) => return Err(e),
    };
    let raw = match split_sql_csv(raw_values) {
        Ok(v) => v,
        Err(e) => return Err(e),
    };
    let values = normalize_values(&raw);
    assert(texts(values@).len() == texts(raw@).len());
    if columns.len() == 0 || columns.len() != values.len() {
        return Err(
            translation_error(
                "INSERT ... ON DUPLICATE KEY UPDATE requires matching column and value counts",
            ),
        );
    }
    let parts = match split_sql_csv(raw_updates) {
        Ok(v) => v,
        Err(e) => return Err(e),
    };
    let updates = match parse_update_assignments(&parts) {
        Ok(v) => v,
        Err(e) => return Err(e),
    };
    render_upsert(table, &columns, &values, &updates)
}

/// `INSERT ... ON DUPLICATE KEY UPDATE` as an upsert; `found` are the matches of
/// [`ON_DUPLICATE_INSERT`].
pub open spec fn on_duplicate_translation(sql: Seq<char>, found: Seq<Seq<Option<(int, int)>>>) -> DirectView {
    if found.len() == 0 {
        Ok(None)
    } else if either_group(sql, found[0], 1, 2) is None {
        Err(Failure::Translation("failed to extract INSERT table name"@))
    } else if group(sql, found[0], 3) is None {
        Err(Failure::Translation("failed to extract INSERT columns"@))
    } else if group(sql, found[0], 4) is None {
        Err(Failure::Translation("failed to extract INSERT values"@))
    } else if group(sql, found[0], 5) is None {
        Err(Failure::Translation("failed to extract INSERT updates"@))
    } else {
        upsert_of(
            either_group(sql, found[0], 1, 2)->Some_0,
            group(sql, found[0], 3)->Some_0,
            group(sql, found[0], 4)->Some_0,
            group(sql, found[0], 5)->Some_0,
        )
    }
}

/// Translates a matched `INSERT ... ON DUPLICATE KEY UPDATE`.
pub fn on_duplicate_from_match(sql: &str, found: &Vec<Capture>) -> (r: Direct)
    requires
        matches_inside(founds(found@), sql@.len() as int),
    ensures
        direct_view(r) == on_duplicate_translation(sql@, founds(found@)),
{
    if found.len() == 0 {
        return Ok(None);
    }
    assert(match_inside(founds(found@)[0], sql@.len() as int));
    let m = &found[0];
    let table = match m.either_group(sql, 1, 2) {
        Some(s) => s,
        None => return Err(translation_error("failed to extract INSERT table name")),
    };
    let columns = match m.group(sql, 3) {
        Some(s) => s,
        None => return Err(translation_error("failed to extract INSERT columns")),
    };
    let values = match m.group(sql, 4) {
        Some(s) => s,
        None => return Err(translation_error("failed to extract INSERT values")),
    };
    let updates = match m.group(sql, 5) {
        Some(s) => s,
        None => return Err(translation_error("failed to extract INSERT updates")),
    };
    translate_upsert(table.as_str(), columns.as_str(), values.as_str(), updates.as_str())
}

/// Translates `INSERT [IGNORE] ... ON DUPLICATE KEY UPDATE`. In MySQL the ON DUPLICATE
/// clause is what handles the duplicate key, so IGNORE adds nothing to the upsert.
pub fn translate_insert_on_duplicate_key_direct(sql: &str) -> (r: Direct)
    ensures
        direct_view(r) == on_duplicate_translation(sql@, regex_captures(ON_DUPLICATE_INSERT@, sql@)),
{
    let found = captures(ON_DUPLICATE_INSERT, sql);
    on_duplicate_from_match(sql, &found)
}

/// The text inside single or double quotes.
pub open spec fn unquoted_value(s: Seq<char>) -> Option<Seq<char>> {
    match between(s, '\'') {
        Some(v) => Some(v),
        None => between(s, '"'),
    }
}

fn unquote_value(s: &str) -> (r: Option<String>)
    ensures
        opt_text(r) == unquoted_value(s@),
{
    match strip_quotes(s, '\'') {
        Some(v) => Some(v),
        None => strip_quotes(s, '"'),
    }
}

/// A comparison with a value that is a placeholder or a quoted text.
pub open spec fn compared_with(subject: Seq<char>, value: Seq<char>, what: Seq<char>) -> Result<
    Seq<char>,
    Failure,
> {
    if value == "?"@ {
        Ok(subject + "$1"@)
    } else {
        match unquoted_value(value) {
            Some(v) => Ok(subject + string_literal(v)),
            None => Err(Failure::Translation("unsupported "@ + what + " filter value `"@ + value + "`"@)),
        }
    }
}

/// Compares with a value that is a placeholder or a quoted text.
pub fn compare_with(subject: &str, value: &str, what: &str) -> (r: Result<String, MiddlewareError>)
    ensures
        text_or(r) == compared_with(subject@, value@, what@),
{
    if same(value, "?") {
        return Ok(cat2(subject, "$1"));
    }
    match unquote_value(value) {
        Some(v) => Ok(cat2(subject, sql_string_literal(v.as_str()).as_str())),
        None => Err(
            MiddlewareError::Translation(cat5("unsupported ", what, " filter value `", value, "`")),
        ),
    }
}

/// SHOW INDEX as a query on the catalog; `found` are the matches of [`SHOW_INDEX`].
pub open spec fn show_index_translation(sql: Seq<char>, found: Seq<Seq<Option<(int, int)>>>) -> DirectView {
    if found.len() == 0 {
        Ok(None)
    } else {
        match either_group(sql, found[0], 1, 2) {
            None => Err(Failure::Translation("failed to extract SHOW INDEX table name"@)),
            Some(table) => {
                let filter = match group(sql, found[0], 3) {
                    None => Ok("TRUE"@),
                    Some(value) => compared_with("\"Key_name\" = "@, trimmed(value), "SHOW INDEX"@),
                };
                match filter {
                    Err(e) => Err(e),
                    Ok(f) => Ok(
                        Some(
                            (
                                SHOW_INDEX_ROWS@ + string_literal(table) + SHOW_INDEX_FILTER@ + f
                                    + SHOW_INDEX_ORDER@,
                                seq!["translated SHOW INDEX to PostgreSQL catalog query"@],
                            ),
                        ),
                    ),
                }
            },
        }
    }
}

fn one_warning(warning: &str) -> (r: Vec<String>)
    ensures
        texts(r@) == seq![warning@],
{
    let mut warnings: Vec<String> = Vec::new();
    push_text(&mut warnings, warning.to_string());
    assert(texts(warnings@) =~= seq![warning@]);
    warnings
}

/// Translates a matched SHOW INDEX.
pub fn show_index_from_match(sql: &str, found: &Vec<Capture>) -> (r: Direct)
    requires
        matches_inside(founds(found@), sql@.len() as int),
    ensures
        direct_view(r) == show_index_translation(sql@, founds(found@)),
{
    if found.len() == 0 {
        return Ok(None);
    }
    assert(match_inside(founds(found@)[0], sql@.len() as int));
    let table = match found[0].either_group(sql, 1, 2) {
        Some(t) => t,
        None => return Err(translation_error("failed to extract SHOW INDEX table name")),
    };
    let filter = match found[0].group(sql, 3) {
        None => "TRUE".to_string(),
        Some(value) => {
            let v = trim(value.as_str());
            match compare_with("\"Key_name\" = ", v.as_str(), "SHOW INDEX") {
                Ok(f) => f,
                Err(e) => return Err(e),
            }
        },
    };
    let name = sql_string_literal(table.as_str());
    let translated = cat5(SHOW_INDEX_ROWS, name.as_str(), SHOW_INDEX_FILTER, filter.as_str(), SHOW_INDEX_ORDER);
    Ok(Some((translated, one_warning("translated SHOW INDEX to PostgreSQL catalog query"))))
}

/// Translates `SHOW INDEX | INDEXES | KEYS FROM | IN <table>`.
pub fn translate_show_index_direct(sql: &str) -> (r: Direct)
    ensures
        direct_view(r) == show_index_translation(sql@, regex_captures(SHOW_INDEX@, sql@)),
{
    let found = captures(SHOW_INDEX, sql);
    show_index_from_match(sql, &found)
}

/// SHOW TABLE STATUS as a query on the catalog; `found` are the matches of
/// [`SHOW_TABLE_STATUS`].
pub open spec fn table_status_translation(sql: Seq<char>, found: Seq<Seq<Option<(int, int)>>>) -> DirectView {
    if found.len() == 0 {
        Ok(None)
    } else {
        let schema = match either_group(sql, found[0], 1, 2) {
            Some(name) => string_literal(name),
            None => "current_schema()"@,
        };
        let filter = match group(sql, found[0], 3) {
            None => Ok(""@),
            Some(value) => compared_with(" AND c.relname LIKE "@, trimmed(value), "SHOW TABLE STATUS"@),
        };
        match filter {
            Err(e) => Err(e),
            Ok(f) => Ok(
                Some(
                    (
                        TABLE_STATUS_ROWS@ + schema + f + " ORDER BY c.relname"@,
                        seq!["translated SHOW TABLE STATUS to PostgreSQL catalog query"@],
                    ),
                ),
            ),
        }
    }
}

/// Translates a matched SHOW TABLE STATUS.
pub fn table_status_from_match(sql: &str, found: &Vec<Capture>) -> (r: Direct)
    requires
        matches_inside(founds(found@), sql@.len() as int),
    ensures
        direct_view(r) == table_status_translation(sql@, founds(found@)),
{
    if found.len() == 0 {
        return Ok(None);
    }
    assert(match_inside(founds(found@)[0], sql@.len() as int));
    let schema = match found[0].either_group(sql, 1, 2) {
        Some(name) => sql_string_literal(name.as_str()),
        None => "current_schema()".to_string(),
    };
    let filter = match found[0].group(sql, 3) {
        None => "".to_string(),
        Some(value) => {
            let v = trim(value.as_str());
            match compare_with(" AND c.relname LIKE ", v.as_str(), "SHOW TABLE STATUS") {
                Ok(f) => f,
                Err(e) => return Err(e),
            }
        },
    };
    let translated = cat4(TABLE_STATUS_ROWS, schema.as_str(), filter.as_str(), " ORDER BY c.relname");
    Ok(Some((translated, one_warning("translated SHOW TABLE STATUS to PostgreSQL catalog query"))))
}

/// Translates `SHOW TABLE STATUS`, every table reported under one engine and collation.
pub fn translate_show_table_status_direct(sql: &str) -> (r: Direct)
    ensures
        direct_view(r) == table_status_translation(sql@, regex_captures(SHOW_TABLE_STATUS@, sql@)),
{
    let found = captures(SHOW_TABLE_STATUS, sql);
    table_status_from_match(sql, &found)
}

/// The translation of a statement of one of these kinds; nothing for any other.
pub open spec fn unparsed_translation(sql: Seq<char>) -> DirectView {
    match load_data_translation(sql, regex_captures(LOAD_DATA@, sql)) {
        Ok(None) => match on_duplicate_translation(sql, regex_captures(ON_DUPLICATE_INSERT@, sql)) {
            Ok(None) => match show_index_translation(sql, regex_captures(SHOW_INDEX@, sql)) {
                Ok(None) => table_status_translation(sql, regex_captures(SHOW_TABLE_STATUS@, sql)),
                other => other,
            },
            other => other,
        },
        other => other,
    }
}

/// Translates a statement of one of these kinds.
pub fn translate_unparsed_sql(sql: &str) -> (r: Direct)
    ensures
        direct_view(r) == unparsed_translation(sql@),
{
    match translate_load_data_direct(sql) {
        Ok(None) => match translate_insert_on_duplicate_key_direct(sql) {
            Ok(None) => match translate_show_index_direct(sql) {
                Ok(None) => translate_show_table_status_direct(sql),
                other => other,
            },
            other => other,
        },
        other => other,
    }
}

} // verus!
