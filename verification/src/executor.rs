//! What is sent to PostgreSQL for a statement, and what its answers mean.
use vstd::prelude::*;
use vstd::utf8::{decode_utf8, encode_utf8, valid_utf8};

use crate::config::AppConfig;
use crate::direct::text_or;
use crate::error::{Failure, MiddlewareError};
use crate::quoting::{quote_ident, quoted_ident};
use crate::regexes::{
    captures, either_group, founds, group_or_empty, match_inside, matches_inside, regex_captures,
    splice_first, spliced_first, Capture,
};
use crate::text::{
    begins, cat2, cat3, cat4, cat5, cat7, decimal, is_ascii, join, joined, lowered, number,
    opt_text, pad, padded, push_text, same, signed_decimal, signed_number, slice, starts_with,
    texts, trim, trim_start, trimmed, trimmed_start, uppered,
};

verus! {

/// One column value, carried as bytes: a BLOB may hold anything, and what is no text
/// cannot go through a `String`.
#[derive(Debug, Clone, PartialEq, Eq)]
pub struct FieldValue(pub Vec<u8>);

/// What `String::from_utf8_lossy` makes of bytes.
pub uninterp spec fn lossy_text(bytes: Seq<u8>) -> Seq<char>;

/// `String::from_utf8_lossy`: the text that the bytes encode, with replacement characters
/// where they encode none. Bytes that are valid UTF-8 give exactly the text they encode.
#[verifier::external_body]
fn utf8_lossy(bytes: &[u8]) -> (r: String)
    ensures
        r@ == lossy_text(bytes@),
        valid_utf8(bytes@) ==> r@ == decode_utf8(bytes@),
{
    String::from_utf8_lossy(bytes).into_owned()
}

/// `std::str::from_utf8`: the text that the bytes encode, where they are valid UTF-8.
#[verifier::external_body]
pub(crate) fn utf8_text(bytes: &[u8]) -> (r: Option<String>)
    ensures
        match r {
            Some(s) => valid_utf8(bytes@) && s@ == decode_utf8(bytes@),
            None => !valid_utf8(bytes@),
        },
{
    std::str::from_utf8(bytes).ok().map(|s| s.to_string())
}

impl FieldValue {
    pub fn from_text(value: String) -> (r: Self)
        ensures
            r.0@ == encode_utf8(value@),
    {
        FieldValue(value.as_str().as_bytes_vec())
    }

    pub fn from_bytes(value: Vec<u8>) -> (r: Self)
        ensures
            r.0@ == value@,
    {
        FieldValue(value)
    }

    pub fn as_bytes(&self) -> (r: &[u8])
        ensures
            r@ == self.0@,
    {
        self.0.as_slice()
    }

    /// A lossy text view, for logging, JSON and the command line.
    pub fn to_lossy_string(&self) -> (r: String)
        ensures
            r@ == lossy_text(self.0@),
            valid_utf8(self.0@) ==> r@ == decode_utf8(self.0@),
    {
        utf8_lossy(self.0.as_slice())
    }
}

/// Makes a value from a text and reads it back: the lossy view of its bytes is that text.
pub fn text_round_trip(value: String) -> (r: String)
    ensures
        r@ == lossy_text(encode_utf8(value@)),
        r@ == value@,
{
    let ghost text = value@;
    let field = FieldValue::from_text(value);
    proof {
        vstd::utf8::encode_utf8_valid_utf8(text);
        vstd::utf8::encode_utf8_decode_utf8(text);
    }
    field.to_lossy_string()
}

/// The answer to a statement. In a row `None` is NULL, which is not the empty string.
#[derive(Debug)]
pub struct QueryResult {
    pub columns: Vec<String>,
    /// How the columns are decoded, where that is known.
    pub kinds: Vec<ColumnKind>,
    pub rows: Vec<Vec<Option<FieldValue>>>,
    pub row_count: u64,
    pub last_insert_id: u64,
}

/// The mathematical counterpart of [`QueryResult`].
pub struct ResultView {
    pub columns: Seq<Seq<char>>,
    pub kinds: Seq<ColumnKind>,
    pub rows: Seq<Seq<Option<Seq<u8>>>>,
    pub row_count: nat,
    pub last_insert_id: nat,
}

/// The values of rows.
pub open spec fn row_views(rows: Seq<Vec<Option<FieldValue>>>) -> Seq<Seq<Option<Seq<u8>>>> {
    Seq::new(rows.len(), |i: int| Seq::new(rows[i]@.len(), |j: int| field_view(rows[i]@[j])))
}

impl View for QueryResult {
    type V = ResultView;

    open spec fn view(&self) -> ResultView {
        ResultView {
            columns: texts(self.columns@),
            kinds: self.kinds@,
            rows: row_views(self.rows@),
            row_count: self.row_count as nat,
            last_insert_id: self.last_insert_id as nat,
        }
    }
}

/// A parameter bound to a statement.
#[derive(Debug)]
pub enum PgParam {
    Null,
    Text(String),
    Bytes(Vec<u8>),
}

/// How a parameter goes over the wire: in which format, and its bytes; no bytes for NULL.
#[derive(Debug)]
pub struct EncodedParam {
    pub binary: bool,
    pub bytes: Option<Vec<u8>>,
}

/// Whether a parameter goes in binary, and its bytes; none for NULL. Bytes that are no
/// text cannot go where text is expected.
pub open spec fn encoding(p: PgParam, bytea: bool) -> Result<(bool, Option<Seq<u8>>), Failure> {
    match p {
        PgParam::Null => Ok((false, None)),
        PgParam::Text(s) => Ok((false, Some(encode_utf8(s@)))),
        PgParam::Bytes(v) => if bytea || valid_utf8(v@) {
            Ok((bytea, Some(v@)))
        } else {
            Err(Failure::Execution("a parameter that is not valid UTF-8 cannot be sent as text"@))
        },
    }
}

pub open spec fn encoded_view(r: Result<EncodedParam, MiddlewareError>) -> Result<
    (bool, Option<Seq<u8>>),
    Failure,
> {
    match r {
        Ok(e) => Ok(
            (
                e.binary,
                match e.bytes {
                    Some(b) => Some(b@),
                    None => None,
                },
            ),
        ),
        Err(e) => Err(e@),
    }
}

impl PgParam {
    /// Encodes a parameter for a target that is `bytea` or not. Bytes go as they are to a
    /// `bytea`; for any other target they have to be text.
    pub fn encode(&self, bytea: bool) -> (r: Result<EncodedParam, MiddlewareError>)
        ensures
            encoded_view(r) == encoding(*self, bytea),
    {
        match self {
            PgParam::Null => Ok(EncodedParam { binary: false, bytes: None }),
            PgParam::Text(s) => Ok(EncodedParam { binary: false, bytes: Some(s.as_str().as_bytes_vec()) }),
            PgParam::Bytes(v) => {
                if !bytea && utf8_text(v.as_slice()).is_none() {
                    return Err(
                        MiddlewareError::Execution(
                            "a parameter that is not valid UTF-8 cannot be sent as text".to_string(),
                        ),
                    );
                }
                Ok(EncodedParam { binary: bytea, bytes: Some(vstd::slice::slice_to_vec(v.as_slice())) })
            },
        }
    }
}

/// An executor that opens a connection for every statement.
#[derive(Debug)]
pub struct TokioPostgresExecutor {
    pub connection_string: String,
}

impl TokioPostgresExecutor {
    pub fn new(connection_string: String) -> (r: Self)
        ensures
            r.connection_string@ == connection_string@,
    {
        TokioPostgresExecutor { connection_string }
    }
}

/// The error for a driver that is not supported.
pub open spec fn unsupported_driver(driver: Seq<char>) -> Failure {
    Failure::Config(
        "unsupported postgres driver `"@ + driver + "`; currently supported: tokio-postgres"@,
    )
}

/// The connection string of a configuration, where its driver is supported.
pub open spec fn connection_string_of(cfg: &AppConfig) -> Result<Seq<char>, Failure> {
    if cfg.postgres.driver@ == "tokio-postgres"@ {
        Ok(cfg.postgres.connection_string@)
    } else {
        Err(unsupported_driver(cfg.postgres.driver@))
    }
}

/// The connection string of a configuration.
pub fn connection_string_for_config(cfg: &AppConfig) -> (r: Result<String, MiddlewareError>)
    ensures
        text_or(r) == connection_string_of(cfg),
{
    if same(cfg.postgres.driver.as_str(), "tokio-postgres") {
        Ok(cfg.postgres.connection_string.clone())
    } else {
        Err(
            MiddlewareError::Config(
                cat3(
                    "unsupported postgres driver `",
                    cfg.postgres.driver.as_str(),
                    "`; currently supported: tokio-postgres",
                ),
            ),
        )
    }
}

/// Builds the executor that a configuration asks for.
pub fn build_executor(cfg: &AppConfig) -> (r: Result<TokioPostgresExecutor, MiddlewareError>)
    ensures
        match r {
            Ok(e) => connection_string_of(cfg) == Ok::<Seq<char>, Failure>(e.connection_string@),
            Err(e) => connection_string_of(cfg) == Err::<Seq<char>, Failure>(e@),
        },
{
    match connection_string_for_config(cfg) {
        Ok(s) => Ok(TokioPostgresExecutor::new(s)),
        Err(e) => Err(e),
    }
}

/// The statement that selects a schema; none where no schema is named.
pub open spec fn search_path_sql(schema: Option<Seq<char>>) -> Option<Seq<char>> {
    match schema {
        Some(s) => if trimmed(s).len() == 0 {
            None
        } else {
            Some("SET search_path TO "@ + quoted_ident(s) + ", public"@)
        },
        None => None,
    }
}

/// The statement that selects a schema.
pub fn search_path_statement(schema: &Option<String>) -> (r: Option<String>)
    ensures
        opt_text(r) == search_path_sql(opt_text(*schema)),
{
    match schema {
        Some(s) => if trim(s.as_str()).as_str().is_empty() {
            None
        } else {
            Some(cat3("SET search_path TO ", quote_ident(s.as_str()).as_str(), ", public"))
        },
        None => None,
    }
}

/// The statement that creates a schema.
pub fn create_schema_statement(schema: &str) -> (r: String)
    ensures
        r@ == "CREATE SCHEMA IF NOT EXISTS "@ + quoted_ident(schema@),
{
    cat2("CREATE SCHEMA IF NOT EXISTS ", quote_ident(schema).as_str())
}

/// The statement that drops a schema and all that is in it.
pub fn drop_schema_statement(schema: &str) -> (r: String)
    ensures
        r@ == "DROP SCHEMA IF EXISTS "@ + quoted_ident(schema@) + " CASCADE"@,
{
    cat3("DROP SCHEMA IF EXISTS ", quote_ident(schema).as_str(), " CASCADE")
}

/// An error that the database reported, in its parts.
#[derive(Debug)]
pub struct DbFailure {
    pub code: String,
    pub message: String,
    pub detail: Option<String>,
    pub hint: Option<String>,
    pub schema: Option<String>,
    pub table: Option<String>,
    pub column: Option<String>,
    pub constraint: Option<String>,
}

/// A list with a labelled part at its end, where there is one.
pub open spec fn labelled(parts: Seq<Seq<char>>, label: Seq<char>, value: Option<Seq<char>>) -> Seq<Seq<char>> {
    match value {
        Some(v) => parts.push(label + v),
        None => parts,
    }
}

fn push_labelled(parts: &mut Vec<String>, label: &str, value: &Option<String>)
    ensures
        texts(final(parts)@) == labelled(texts(old(parts)@), label@, opt_text(*value)),
{
    match value {
        Some(v) => {
            push_text(parts, cat2(label, v.as_str()));
        },
        None => {},
    }
}

/// The parts of a database error as they are shown.
pub open spec fn failure_parts(e: &DbFailure) -> Seq<Seq<char>> {
    let a = seq!["["@ + e.code@ + "] "@ + e.message@];
    let b = labelled(a, "detail: "@, opt_text(e.detail));
    let c = labelled(b, "hint: "@, opt_text(e.hint));
    let d = labelled(c, "schema: "@, opt_text(e.schema));
    let f = labelled(d, "table: "@, opt_text(e.table));
    let g = labelled(f, "column: "@, opt_text(e.column));
    labelled(g, "constraint: "@, opt_text(e.constraint))
}

/// Writes a database error: the SQLSTATE in brackets, the message, and the details.
pub fn format_pg_error(e: &DbFailure) -> (r: String)
    ensures
        r@ == joined(failure_parts(e), " | "@),
{
    let mut parts: Vec<String> = Vec::new();
    let head = cat4("[", e.code.as_str(), "] ", e.message.as_str());
    let ghost h = head@;
    push_text(&mut parts, head);
    assert(texts(parts@) =~= seq![h]);
    push_labelled(&mut parts, "detail: ", &e.detail);
    push_labelled(&mut parts, "hint: ", &e.hint);
    push_labelled(&mut parts, "schema: ", &e.schema);
    push_labelled(&mut parts, "table: ", &e.table);
    push_labelled(&mut parts, "column: ", &e.column);
    push_labelled(&mut parts, "constraint: ", &e.constraint);
    join(&parts, " | ")
}

pub const INSERT_TABLE: &'static str =
    r#"(?is)^\s*INSERT\s+INTO\s+(?:"([^"]+)"|([A-Za-z_][A-Za-z0-9_]*))(?:\s|\(|$)"#;

pub const LAST_INSERT_ID_COLUMN: &'static str =
    r#"(?is)^\s*UPDATE\b.*\bSET\b.*?(?:"([A-Za-z_][A-Za-z0-9_]*)"|([A-Za-z_][A-Za-z0-9_]*))\s*=\s*LAST_INSERT_ID\s*\("#;

pub const LAST_INSERT_ID_CALL: &'static str = r#"(?is)LAST_INSERT_ID\s*\(\s*(.*?)\s*\)"#;

/// The name that one of the first two groups of the first match holds.
pub open spec fn matched_name(sql: Seq<char>, found: Seq<Seq<Option<(int, int)>>>) -> Option<Seq<char>> {
    if found.len() == 0 {
        None
    } else {
        either_group(sql, found[0], 1, 2)
    }
}

pub fn name_of_match(sql: &str, found: &Vec<Capture>) -> (r: Option<String>)
    requires
        matches_inside(founds(found@), sql@.len() as int),
    ensures
        opt_text(r) == matched_name(sql@, founds(found@)),
{
    if found.len() == 0 {
        return None;
    }
    assert(match_inside(founds(found@)[0], sql@.len() as int));
    found[0].either_group(sql, 1, 2)
}

/// The table that an INSERT goes into.
pub open spec fn insert_table(sql: Seq<char>) -> Option<Seq<char>> {
    matched_name(sql, regex_captures(INSERT_TABLE@, sql))
}

/// The table that an INSERT goes into.
pub fn extract_insert_table_name(sql: &str) -> (r: Option<String>)
    ensures
        opt_text(r) == insert_table(sql@),
{
    let found = captures(INSERT_TABLE, sql);
    name_of_match(sql, &found)
}

/// A statement that returns the count of the rows it changed and the greatest value of a
/// column in them.
pub open spec fn counted_sql(rows: Seq<char>, sql: Seq<char>, column: Seq<char>) -> Seq<char> {
    ("WITH "@ + rows + " AS ("@ + sql + " RETURNING \""@ + column + "\") "@) + (
    "SELECT COUNT(*)::BIGINT AS __mw_row_count__, COALESCE(MAX(\""@ + column
        + "\"), 0)::BIGINT AS __mw_last_insert_id__ FROM "@ + rows)
}

fn count_rows(rows: &str, sql: &str, column: &str) -> (r: String)
    ensures
        r@ == counted_sql(rows@, sql@, column@),
{
    let head = cat7("WITH ", rows, " AS (", sql, " RETURNING \"", column, "\") ");
    let tail = cat4(
        "SELECT COUNT(*)::BIGINT AS __mw_row_count__, COALESCE(MAX(\"",
        column,
        "\"), 0)::BIGINT AS __mw_last_insert_id__ FROM ",
        rows,
    );
    cat2(head.as_str(), tail.as_str())
}

/// Wraps an INSERT so that it returns its row count and the identity it created.
pub fn wrap_insert_returning_sql(sql: &str, identity_column: &str) -> (r: String)
    ensures
        r@ == counted_sql("inserted_rows"@, sql@, identity_column@),
{
    count_rows("inserted_rows", sql, identity_column)
}

/// The first call of LAST_INSERT_ID replaced by its argument.
pub open spec fn unwrapped_call(sql: Seq<char>, calls: Seq<Seq<Option<(int, int)>>>) -> Seq<char> {
    if calls.len() == 0 {
        sql
    } else {
        spliced_first(sql, calls, group_or_empty(sql, calls[0], 1))
    }
}

/// The column that an UPDATE sets with LAST_INSERT_ID, and the statement that returns
/// its value; `found` and `calls` are the matches of the two patterns.
pub open spec fn last_insert_id_update(
    sql: Seq<char>,
    found: Seq<Seq<Option<(int, int)>>>,
    calls: Seq<Seq<Option<(int, int)>>>,
) -> Option<(Seq<char>, Seq<char>)> {
    match matched_name(sql, found) {
        Some(column) => Some((column, counted_sql("updated_rows"@, unwrapped_call(sql, calls), column))),
        None => None,
    }
}

pub open spec fn pair_view(r: Option<(String, String)>) -> Option<(Seq<char>, Seq<char>)> {
    match r {
        Some((a, b)) => Some((a@, b@)),
        None => None,
    }
}

/// Reads the update off the matches of the two patterns.
pub fn last_insert_id_from_matches(sql: &str, found: &Vec<Capture>, calls: &Vec<Capture>) -> (r: Option<
    (String, String),
>)
    requires
        matches_inside(founds(found@), sql@.len() as int),
        matches_inside(founds(calls@), sql@.len() as int),
    ensures
        pair_view(r) == last_insert_id_update(sql@, founds(found@), founds(calls@)),
{
    match name_of_match(sql, found) {
        Some(column) => {
            let stripped = if calls.len() == 0 {
                sql.to_string()
            } else {
                assert(match_inside(founds(calls@)[0], sql@.len() as int));
                let argument = calls[0].group_or_empty(sql, 1);
                splice_first(sql, calls, argument.as_str())
            };
            let wrapped = count_rows("updated_rows", stripped.as_str(), column.as_str());
            Some((column, wrapped))
        },
        None => None,
    }
}

/// The LAST_INSERT_ID idiom of an UPDATE, if it is one.
pub open spec fn last_insert_id_target(sql: Seq<char>) -> Option<(Seq<char>, Seq<char>)> {
    last_insert_id_update(
        sql,
        regex_captures(LAST_INSERT_ID_COLUMN@, sql),
        regex_captures(LAST_INSERT_ID_CALL@, sql),
    )
}

/// Detects `UPDATE ... SET col = LAST_INSERT_ID(expr) ...`, by which an application
/// increments a counter and reads back the new value, and rewrites it to return that
/// value: the column and the statement.
pub fn find_last_insert_id_update_target(sql: &str) -> (r: Option<(String, String)>)
    ensures
        pair_view(r) == last_insert_id_target(sql@),
{
    let found = captures(LAST_INSERT_ID_COLUMN, sql);
    let calls = captures(LAST_INSERT_ID_CALL, sql);
    last_insert_id_from_matches(sql, &found, &calls)
}

/// Whether a text holds nothing but ASCII characters.
pub open spec fn is_ascii_text(s: Seq<char>) -> bool {
    forall|i: int| 0 <= i < s.len() ==> is_ascii(#[trigger] s[i])
}

/// How many ASCII characters a text starts with.
pub open spec fn ascii_start(s: Seq<char>) -> int
    decreases s.len(),
{
    if s.len() > 0 && is_ascii(s[0]) {
        1 + ascii_start(s.skip(1))
    } else {
        0
    }
}

/// What `str::to_uppercase` makes of a text that does not start with an ASCII character.
pub uninterp spec fn unicode_upper(s: Seq<char>) -> Seq<char>;

/// The upper-case form of a text: ASCII capitals for the ASCII characters that it starts
/// with, and after them, where any is left, Unicode's form of the rest.
pub open spec fn upper_text(s: Seq<char>) -> Seq<char> {
    if is_ascii_text(s) {
        uppered(s)
    } else {
        uppered(s.take(ascii_start(s))) + unicode_upper(s.skip(ascii_start(s)))
    }
}

/// `str::to_uppercase`: the upper-case form of a text by Unicode's rules. It maps each
/// character by itself. So the ASCII characters at the start become ASCII capitals, and
/// behind them stands what the function makes of the rest alone, to which the name is given.
#[verifier::external_body]
fn to_unicode_upper(s: &str) -> (r: String)
    ensures
        r@ == (if is_ascii_text(s@) {
            uppered(s@)
        } else {
            uppered(s@.take(ascii_start(s@))) + unicode_upper(s@.skip(ascii_start(s@)))
        }),
{
    s.to_uppercase()
}

/// What `str::to_lowercase` makes of a text that is not all ASCII.
pub uninterp spec fn unicode_lower(s: Seq<char>) -> Seq<char>;

/// The lower-case form of a text: ASCII small letters where it is all ASCII, and else
/// Unicode's form.
pub open spec fn lower_text(s: Seq<char>) -> Seq<char> {
    if is_ascii_text(s) {
        lowered(s)
    } else {
        unicode_lower(s)
    }
}

/// `str::to_lowercase`: the lower-case form of a text by Unicode's rules, which of an ASCII
/// text changes the ASCII capitals and nothing else.
#[verifier::external_body]
pub(crate) fn to_unicode_lower(s: &str) -> (r: String)
    ensures
        r@ == (if is_ascii_text(s@) {
            lowered(s@)
        } else {
            unicode_lower(s@)
        }),
{
    s.to_lowercase()
}

/// Whether a text in upper case begins like a statement that returns rows.
pub open spec fn begins_like_query(upper: Seq<char>) -> bool {
    begins(upper, "SELECT"@) || begins(upper, "WITH"@) || begins(upper, "SHOW"@) || begins(upper, "VALUES"@)
}

/// Whether a text in upper case begins like a statement that returns rows.
pub fn looks_like_query(upper: &str) -> (r: bool)
    ensures
        r == begins_like_query(upper@),
{
    starts_with(upper, "SELECT") || starts_with(upper, "WITH") || starts_with(upper, "SHOW") || starts_with(
        upper,
        "VALUES",
    )
}

/// Whether a statement returns rows.
pub open spec fn returns_rows(sql: Seq<char>) -> bool {
    begins_like_query(upper_text(trimmed_start(sql)))
}

/// Whether a statement returns rows.
pub fn statement_returns_rows(sql: &str) -> (r: bool)
    ensures
        r == returns_rows(sql@),
{
    let start = trim_start(sql);
    looks_like_query(to_unicode_upper(start.as_str()).as_str())
}

/// What is done next with a statement.
#[derive(Debug)]
pub enum Step {
    /// Run it and return its rows.
    Query,
    /// Look up the identity column of this table, then ask again.
    LookUpIdentity(String),
    /// Run this statement, which returns a row count and an insert id.
    Capture(String),
    /// Run it and return the number of affected rows.
    Run,
}

/// The mathematical counterpart of [`Step`].
pub enum StepKind {
    Query,
    LookUpIdentity(Seq<char>),
    Capture(Seq<char>),
    Run,
}

impl View for Step {
    type V = StepKind;

    open spec fn view(&self) -> StepKind {
        match self {
            Step::Query => StepKind::Query,
            Step::LookUpIdentity(t) => StepKind::LookUpIdentity(t@),
            Step::Capture(s) => StepKind::Capture(s@),
            Step::Run => StepKind::Run,
        }
    }
}

/// The step for a statement that returns no rows and no identity.
pub open spec fn update_step(sql: Seq<char>) -> StepKind {
    match last_insert_id_target(sql) {
        Some(target) => StepKind::Capture(target.1),
        None => StepKind::Run,
    }
}

/// The first step for a statement, given whether it returns rows.
pub open spec fn first_step(sql: Seq<char>, rows: bool) -> StepKind {
    if rows {
        StepKind::Query
    } else {
        match insert_table(sql) {
            Some(table) => StepKind::LookUpIdentity(table),
            None => update_step(sql),
        }
    }
}

/// The step after the identity column of the table was looked up.
pub open spec fn identity_step(sql: Seq<char>, column: Option<Seq<char>>) -> StepKind {
    match column {
        Some(c) => StepKind::Capture(counted_sql("inserted_rows"@, sql, c)),
        None => update_step(sql),
    }
}

fn plan_update(sql: &str) -> (r: Step)
    ensures
        r@ == update_step(sql@),
{
    match find_last_insert_id_update_target(sql) {
        Some((_, wrapped)) => Step::Capture(wrapped),
        None => Step::Run,
    }
}

/// Decides how a statement is executed. Whether it returns rows is known from its text,
/// or of a prepared statement from its columns.
pub fn plan_statement(sql: &str, rows: bool) -> (r: Step)
    ensures
        r@ == first_step(sql@, rows),
{
    if rows {
        return Step::Query;
    }
    match extract_insert_table_name(sql) {
        Some(table) => Step::LookUpIdentity(table),
        None => plan_update(sql),
    }
}

/// Decides how an INSERT is executed, given the identity column of its table.
pub fn plan_with_identity(sql: &str, column: &Option<String>) -> (r: Step)
    ensures
        r@ == identity_step(sql@, opt_text(*column)),
{
    match column {
        Some(c) => Step::Capture(wrap_insert_returning_sql(sql, c.as_str())),
        None => plan_update(sql),
    }
}

/// A number that counts something: a negative one counts as none.
pub open spec fn counted(n: i64) -> u64 {
    if n < 0 {
        0
    } else {
        n as u64
    }
}

/// A result without rows.
pub open spec fn is_summary(r: QueryResult, row_count: u64, last_insert_id: u64) -> bool {
    r.columns@.len() == 0 && r.kinds@.len() == 0 && r.rows@.len() == 0 && r.row_count == row_count && r.last_insert_id
        == last_insert_id
}

/// The result of a statement that returned a row count and an insert id.
pub fn captured_result(row_count: i64, last_insert_id: i64) -> (r: QueryResult)
    ensures
        is_summary(r, counted(row_count), counted(last_insert_id)),
{
    let rows: u64 = if row_count < 0 {
        0
    } else {
        row_count as u64
    };
    let id: u64 = if last_insert_id < 0 {
        0
    } else {
        last_insert_id as u64
    };
    QueryResult { columns: Vec::new(), kinds: Vec::new(), rows: Vec::new(), row_count: rows, last_insert_id: id }
}

/// The result of a statement that affected rows.
pub fn affected_result(row_count: u64) -> (r: QueryResult)
    ensures
        is_summary(r, row_count, 0),
{
    QueryResult { columns: Vec::new(), kinds: Vec::new(), rows: Vec::new(), row_count, last_insert_id: 0 }
}

/// The sum of the first `n` counts.
pub open spec fn total(counts: Seq<u64>, n: int) -> nat
    decreases n,
{
    if n <= 0 {
        0
    } else {
        total(counts, n - 1) + counts[n - 1] as nat
    }
}

proof fn lemma_total_grows(counts: Seq<u64>, n: int, m: int)
    requires
        n <= m,
    ensures
        total(counts, n) <= total(counts, m),
    decreases m - n,
{
    if n < m {
        lemma_total_grows(counts, n, m - 1);
    }
}

/// Whether the affected rows of several statements can be counted together.
pub fn can_be_counted(counts: &Vec<u64>) -> (r: bool)
    ensures
        r == (total(counts@, counts@.len() as int) <= u64::MAX),
{
    let mut sum: u64 = 0;
    let mut i: usize = 0;
    while i < counts.len()
        invariant
            i <= counts@.len(),
            sum == total(counts@, i as int),
        decreases counts.len() - i,
    {
        if counts[i] > u64::MAX - sum {
            proof {
                lemma_total_grows(counts@, i + 1, counts@.len() as int);
            }
            return false;
        }
        sum = sum + counts[i];
        i = i + 1;
    }
    true
}

/// The result of several statements: their affected rows together.
pub fn summed_result(counts: &Vec<u64>) -> (r: QueryResult)
    requires
        total(counts@, counts@.len() as int) <= u64::MAX,
    ensures
        is_summary(r, total(counts@, counts@.len() as int) as u64, 0),
{
    let mut sum: u64 = 0;
    let mut i: usize = 0;
    while i < counts.len()
        invariant
            i <= counts@.len(),
            total(counts@, counts@.len() as int) <= u64::MAX,
            sum == total(counts@, i as int),
        decreases counts.len() - i,
    {
        proof {
            lemma_total_grows(counts@, i + 1, counts@.len() as int);
        }
        sum = sum + counts[i];
        i = i + 1;
    }
    affected_result(sum)
}

/// The result of a query.
pub fn rows_result(columns: Vec<String>, kinds: Vec<ColumnKind>, rows: Vec<Vec<Option<FieldValue>>>) -> (r:
    QueryResult)
    ensures
        r.columns@ == columns@,
        r.kinds@ == kinds@,
        r.rows@ == rows@,
        r.row_count == rows@.len(),
        r.last_insert_id == 0,
{
    let row_count: u64 = rows.len() as u64;
    QueryResult { columns, kinds, rows, row_count, last_insert_id: 0 }
}

/// A value of a column, decoded from PostgreSQL's binary format.
#[derive(Debug)]
pub enum ColumnValue {
    Null,
    Bool(bool),
    Int(i64),
    Text(String),
    Bytes(Vec<u8>),
    Timestamp(Date, Time),
    Date(Date),
    Time(Time),
    /// A value of a type that is not decoded.
    Unknown,
}

#[derive(Debug, Clone, Copy)]
pub struct Date {
    pub year: i32,
    pub month: u32,
    pub day: u32,
}

#[derive(Debug, Clone, Copy)]
pub struct Time {
    pub hour: u32,
    pub minute: u32,
    pub second: u32,
}

/// A year: four digits, with a sign where four digits do not do.
pub open spec fn year_text(y: int) -> Seq<char> {
    if y < 0 {
        "-"@ + padded((-y) as nat, 4)
    } else if y > 9999 {
        "+"@ + decimal_of(y)
    } else {
        padded(y as nat, 4)
    }
}

pub open spec fn decimal_of(n: int) -> Seq<char> {
    decimal(n as nat)
}

/// `YYYY-MM-DD`.
pub open spec fn date_text(d: Date) -> Seq<char> {
    year_text(d.year as int) + "-"@ + padded(d.month as nat, 2) + "-"@ + padded(d.day as nat, 2)
}

/// `HH:MM:SS`.
pub open spec fn time_text(t: Time) -> Seq<char> {
    padded(t.hour as nat, 2) + ":"@ + padded(t.minute as nat, 2) + ":"@ + padded(t.second as nat, 2)
}

fn render_date(d: &Date) -> (r: String)
    ensures
        r@ == date_text(*d),
{
    let year = if d.year < 0 {
        let magnitude: u64 = (-(d.year as i64)) as u64;
        cat2("-", pad(magnitude, 4).as_str())
    } else if d.year > 9999 {
        cat2("+", number(d.year as u64).as_str())
    } else {
        pad(d.year as u64, 4)
    };
    cat5(year.as_str(), "-", pad(d.month as u64, 2).as_str(), "-", pad(d.day as u64, 2).as_str())
}

fn render_time(t: &Time) -> (r: String)
    ensures
        r@ == time_text(*t),
{
    cat5(
        pad(t.hour as u64, 2).as_str(),
        ":",
        pad(t.minute as u64, 2).as_str(),
        ":",
        pad(t.second as u64, 2).as_str(),
    )
}

/// The bytes that a value goes to the client as; none for NULL.
pub open spec fn field_bytes(v: ColumnValue) -> Option<Seq<u8>> {
    match v {
        ColumnValue::Null => None,
        ColumnValue::Bool(b) => Some(
            encode_utf8(
                if b {
                    "1"@
                } else {
                    "0"@
                },
            ),
        ),
        ColumnValue::Int(n) => Some(encode_utf8(signed_decimal(n as int))),
        ColumnValue::Text(s) => Some(encode_utf8(s@)),
        ColumnValue::Bytes(b) => Some(b@),
        ColumnValue::Timestamp(d, t) => Some(encode_utf8(date_text(d) + " "@ + time_text(t))),
        ColumnValue::Date(d) => Some(encode_utf8(date_text(d))),
        ColumnValue::Time(t) => Some(encode_utf8(time_text(t))),
        ColumnValue::Unknown => Some(encode_utf8("<unrendered>"@)),
    }
}

pub open spec fn field_view(f: Option<FieldValue>) -> Option<Seq<u8>> {
    match f {
        Some(v) => Some(v.0@),
        None => None,
    }
}

/// Renders a column value for the MySQL protocol, NULL staying NULL and booleans being 1
/// and 0.
pub fn value_to_string(value: &ColumnValue) -> (r: Option<FieldValue>)
    ensures
        field_view(r) == field_bytes(*value),
{
    match value {
        ColumnValue::Null => None,
        ColumnValue::Bool(b) => Some(
            FieldValue::from_text(
                if *b {
                    "1".to_string()
                } else {
                    "0".to_string()
                },
            ),
        ),
        ColumnValue::Int(n) => Some(FieldValue::from_text(signed_number(*n))),
        ColumnValue::Text(s) => Some(FieldValue::from_text(s.clone())),
        ColumnValue::Bytes(b) => Some(FieldValue(vstd::slice::slice_to_vec(b.as_slice()))),
        ColumnValue::Timestamp(d, t) => Some(
            FieldValue::from_text(cat3(render_date(d).as_str(), " ", render_time(t).as_str())),
        ),
        ColumnValue::Date(d) => Some(FieldValue::from_text(render_date(d))),
        ColumnValue::Time(t) => Some(FieldValue::from_text(render_time(t))),
        ColumnValue::Unknown => Some(FieldValue::from_text("<unrendered>".to_string())),
    }
}

/// NULL and the empty string stay apart.
pub proof fn null_is_not_empty(s: String)
    ensures
        field_bytes(ColumnValue::Null) is None,
        field_bytes(ColumnValue::Text(s)) is Some,
{
}

/// How a column of a type is decoded.
#[derive(Debug, Clone, Copy, PartialEq, Eq, Structural)]
pub enum ColumnKind {
    Bool,
    Int2,
    Int4,
    Int8,
    Float4,
    Float8,
    Text,
    Json,
    Bytes,
    Timestamp,
    TimestampTz,
    Date,
    Time,
    Numeric,
    Other,
}

/// How a column is decoded, by PostgreSQL's name of its type.
pub open spec fn kind_named(name: Seq<char>) -> ColumnKind {
    if name == "bool"@ {
        ColumnKind::Bool
    } else if name == "int2"@ {
        ColumnKind::Int2
    } else if name == "int4"@ {
        ColumnKind::Int4
    } else if name == "int8"@ {
        ColumnKind::Int8
    } else if name == "float4"@ {
        ColumnKind::Float4
    } else if name == "float8"@ {
        ColumnKind::Float8
    } else if name == "text"@ || name == "varchar"@ || name == "bpchar"@ || name == "name"@ {
        ColumnKind::Text
    } else if name == "json"@ || name == "jsonb"@ {
        ColumnKind::Json
    } else if name == "bytea"@ {
        ColumnKind::Bytes
    } else if name == "timestamp"@ {
        ColumnKind::Timestamp
    } else if name == "timestamptz"@ {
        ColumnKind::TimestampTz
    } else if name == "date"@ {
        ColumnKind::Date
    } else if name == "time"@ {
        ColumnKind::Time
    } else if name == "numeric"@ {
        ColumnKind::Numeric
    } else {
        ColumnKind::Other
    }
}

/// How a column is decoded, by PostgreSQL's name of its type.
pub fn column_kind(name: &str) -> (r: ColumnKind)
    ensures
        r == kind_named(name@),
{
    if same(name, "bool") {
        ColumnKind::Bool
    } else if same(name, "int2") {
        ColumnKind::Int2
    } else if same(name, "int4") {
        ColumnKind::Int4
    } else if same(name, "int8") {
        ColumnKind::Int8
    } else if same(name, "float4") {
        ColumnKind::Float4
    } else if same(name, "float8") {
        ColumnKind::Float8
    } else if same(name, "text") || same(name, "varchar") || same(name, "bpchar") || same(name, "name") {
        ColumnKind::Text
    } else if same(name, "json") || same(name, "jsonb") {
        ColumnKind::Json
    } else if same(name, "bytea") {
        ColumnKind::Bytes
    } else if same(name, "timestamp") {
        ColumnKind::Timestamp
    } else if same(name, "timestamptz") {
        ColumnKind::TimestampTz
    } else if same(name, "date") {
        ColumnKind::Date
    } else if same(name, "time") {
        ColumnKind::Time
    } else if same(name, "numeric") {
        ColumnKind::Numeric
    } else {
        ColumnKind::Other
    }
}

/// How a column is announced to a client.
#[derive(Debug, Clone, Copy, PartialEq, Eq, Structural)]
pub enum WireType {
    Integer,
    Float,
    Text,
}

/// How a column is announced: numbers and booleans as numbers, so that a client in a language where
/// `"0"` is true reads them right, and everything else as text.
pub open spec fn announced(kind: ColumnKind) -> WireType {
    match kind {
        ColumnKind::Bool | ColumnKind::Int2 | ColumnKind::Int4 | ColumnKind::Int8 => WireType::Integer,
        ColumnKind::Float4 | ColumnKind::Float8 => WireType::Float,
        _ => WireType::Text,
    }
}

/// How a column is announced to a client.
pub fn wire_type(kind: ColumnKind) -> (r: WireType)
    ensures
        r == announced(kind),
{
    match kind {
        ColumnKind::Bool => WireType::Integer,
        ColumnKind::Int2 => WireType::Integer,
        ColumnKind::Int4 => WireType::Integer,
        ColumnKind::Int8 => WireType::Integer,
        ColumnKind::Float4 => WireType::Float,
        ColumnKind::Float8 => WireType::Float,
        _ => WireType::Text,
    }
}

} // verus!
