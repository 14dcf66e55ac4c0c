//! MySQL sessions: their state, what is done about each command, and what the answers
//! mean for the state.
use vstd::prelude::*;
use std::collections::{HashMap, HashSet};
use std::sync::Arc;

use crate::cache::TranslationCache;
use crate::config::{AppConfig, TranslatorConfig};
use crate::error::{failure_message, Failure, MiddlewareError};
use crate::executor::{affected_result, PgParam, QueryResult};
use crate::frontend::{
    active_schema, active_schema_name, apply_set_names, bare_query, canned, canned_response,
    collation_fits, compat_noop, copy_table, created_database, default_collations_fit,
    dropped_database, error_kind, has_star, holds_star, infer_prepare_result_columns,
    infer_result_columns, is_compat_noop_query, is_set_sql_mode_query, isolation_name, kill_target,
    mode_is_ansi, mysql_error_kind_for_message, normalize_transaction_isolation, one_value,
    opt_table, parse_create_database_name, parse_drop_database_name, parse_kill_connection_id,
    parse_set_sql_mode_value, parse_use_database, prepared_columns, result_columns, session_canned,
    session_response, set_names, set_names_keeps_them_fitting, sets_sql_mode, single_value,
    sql_mode_is_ansi, sql_mode_value, table_view, used_database, variable_value, ErrorKind,
    SessionSettings, Settings, Table, TableView, SELECT_SYSTEM_VARIABLE,
};
use crate::params::{
    all_bind, bound_params, count_prepare_placeholders, decode_mysql_param, decode_mysql_params,
    param_text, placeholders, postgres_placeholders, preparable_translation,
    rewrite_prepare_placeholders_for_postgres, translate_preparable_cached, RawParam,
};
use crate::quoting::{normalize_mysql_double_quoted_string_literals, without_double_quotes};
use crate::regexes::regex_captures;
use crate::scan::{
    is_complete, lemma_blank_before_statements, split_sql_statements, statements_in,
    statements_of_a_row,
};
use crate::text::{
    begins, cat4, contains, decimal, eq_ignore_case, lemma_split_whole, lowered, number, occurs,
    opt_text, push_text, push_texts, same, same_ignoring_case, slice, split, split_on, starts_with,
    texts, to_upper, trim, trim_end_matches, trim_start, trimmed, trimmed_start, uppered,
};
use crate::translator::translation;

verus! {

broadcast use vstd::std_specs::hash::group_hash_axioms;

/// A statement that a client prepared.
#[derive(Debug)]
pub struct PreparedStatement {
    pub original_sql: String,
    /// Empty where the frontend answers the statement itself.
    pub postgres_sql: String,
    pub params: usize,
    pub columns: Vec<String>,
    pub canned: Option<Table>,
}

/// The mathematical counterpart of [`PreparedStatement`].
pub struct Prepared {
    pub original_sql: Seq<char>,
    pub postgres_sql: Seq<char>,
    pub params: nat,
    pub columns: Seq<Seq<char>>,
    pub canned: Option<TableView>,
}

impl View for PreparedStatement {
    type V = Prepared;

    open spec fn view(&self) -> Prepared {
        Prepared {
            original_sql: self.original_sql@,
            postgres_sql: self.postgres_sql@,
            params: self.params as nat,
            columns: texts(self.columns@),
            canned: opt_table(self.canned),
        }
    }
}

/// The state of a client's session.
#[derive(Debug)]
pub struct Session {
    pub connection_id: u32,
    pub config: TranslatorConfig,
    pub version: String,
    pub version_comment: String,
    pub current_db: Option<String>,
    pub last_insert_id: u64,
    pub charset: String,
    pub collation: String,
    pub sql_mode: String,
    pub isolation: String,
    pub in_transaction: bool,
    pub next_statement_id: u32,
    pub prepared: HashMap<u32, PreparedStatement>,
}

/// The mathematical counterpart of [`Session`].
pub struct State {
    pub connection_id: u32,
    pub config: TranslatorConfig,
    pub version: Seq<char>,
    pub version_comment: Seq<char>,
    pub current_db: Option<Seq<char>>,
    pub last_insert_id: u64,
    pub charset: Seq<char>,
    pub collation: Seq<char>,
    pub sql_mode: Seq<char>,
    pub isolation: Seq<char>,
    pub in_transaction: bool,
    pub next_statement_id: u32,
    pub prepared: Map<u32, Prepared>,
}

/// The statements of a session by their numbers.
pub open spec fn prepared_view(m: Map<u32, PreparedStatement>) -> Map<u32, Prepared> {
    Map::new(|k: u32| m.dom().contains(k), |k: u32| m[k]@)
}

impl View for Session {
    type V = State;

    open spec fn view(&self) -> State {
        State {
            connection_id: self.connection_id,
            config: self.config,
            version: self.version@,
            version_comment: self.version_comment@,
            current_db: opt_text(self.current_db),
            last_insert_id: self.last_insert_id,
            charset: self.charset@,
            collation: self.collation@,
            sql_mode: self.sql_mode@,
            isolation: self.isolation@,
            in_transaction: self.in_transaction,
            next_statement_id: self.next_statement_id,
            prepared: prepared_view(self.prepared@),
        }
    }
}

/// A state whose collation belongs to its character set, and whose statements all have
/// numbers that were given out.
pub open spec fn valid(s: State) -> bool {
    &&& collation_fits(s.charset, s.collation)
    &&& forall|id: u32| s.prepared.dom().contains(id) ==> id < s.next_statement_id
}

/// The settings that queries can ask for.
pub open spec fn settings(s: State) -> Settings {
    Settings {
        collation: s.collation,
        sql_mode: s.sql_mode,
        isolation: s.isolation,
        version: s.version,
        comment: s.version_comment,
    }
}

/// The configuration of the translator under the session's SQL mode.
pub open spec fn session_config(s: State) -> TranslatorConfig {
    TranslatorConfig { ansi_quotes: s.config.ansi_quotes || mode_is_ansi(s.sql_mode), ..s.config }
}

/// The answer to a query about the session's state.
pub open spec fn own_answer(s: State, query: Seq<char>) -> Option<TableView> {
    match session_canned(s.connection_id, s.current_db, settings(s), query) {
        Some(t) => Some(t),
        None => if same_ignoring_case(trimmed(query), "SELECT LAST_INSERT_ID()"@) {
            Some(single_value("LAST_INSERT_ID()"@, decimal(s.last_insert_id as nat)))
        } else {
            None
        },
    }
}

/// The state after a statement that sets something of the session; nothing for a
/// statement that does not.
pub open spec fn after_session_query(s: State, query: Seq<char>) -> Result<Option<State>, Failure> {
    let q = bare_query(query);
    let upper = uppered(q);
    if begins(upper, "SET NAMES "@) {
        match set_names(q) {
            Ok(names) => Ok(Some(State { charset: names.0, collation: names.1, ..s })),
            Err(e) => Err(e),
        }
    } else if sets_sql_mode(upper) {
        Ok(Some(State { sql_mode: sql_mode_value(q), ..s }))
    } else if begins(upper, "SET SESSION TRANSACTION ISOLATION LEVEL "@) {
        Ok(Some(State { isolation: isolation_name(trimmed(q.skip(40))), ..s }))
    } else if begins(upper, "SET TRANSACTION ISOLATION LEVEL "@) {
        Ok(Some(State { isolation: isolation_name(trimmed(q.skip(32))), ..s }))
    } else {
        Ok(None)
    }
}

/// What is done about a query.
#[derive(Debug)]
pub enum QueryAction {
    /// Mark this connection as killed, then answer OK.
    Kill(u32),
    /// Make this the database of sessions that select none, then answer OK.
    Use(String),
    /// Answer with these rows.
    Rows(Table),
    /// Answer OK.
    Done,
    /// Answer with an error.
    Fail(ErrorKind, String),
    /// Create this schema, then report that it was created.
    CreateSchema(String),
    /// Drop this schema, then report that it was dropped.
    DropSchema(String),
    /// Execute this statement in this schema, then report its result.
    Execute(Option<String>, String),
}

/// The mathematical counterpart of [`QueryAction`].
pub enum Reaction {
    Kill(u32),
    Use(Seq<char>),
    Rows(TableView),
    Done,
    Fail(ErrorKind, Seq<char>),
    CreateSchema(Seq<char>),
    DropSchema(Seq<char>),
    Execute(Option<Seq<char>>, Seq<char>),
}

impl View for QueryAction {
    type V = Reaction;

    open spec fn view(&self) -> Reaction {
        match self {
            QueryAction::Kill(id) => Reaction::Kill(*id),
            QueryAction::Use(n) => Reaction::Use(n@),
            QueryAction::Rows(t) => Reaction::Rows(table_view(*t)),
            QueryAction::Done => Reaction::Done,
            QueryAction::Fail(k, m) => Reaction::Fail(*k, m@),
            QueryAction::CreateSchema(n) => Reaction::CreateSchema(n@),
            QueryAction::DropSchema(n) => Reaction::DropSchema(n@),
            QueryAction::Execute(s, q) => Reaction::Execute(opt_text(*s), q@),
        }
    }
}

/// What is done about a statement that the frontend answers without the translator.
pub open spec fn noop_reaction(q: Seq<char>) -> Reaction {
    match created_database(q) {
        Some(name) => Reaction::CreateSchema(name),
        None => match dropped_database(q) {
            Some(name) => Reaction::DropSchema(name),
            None => Reaction::Done,
        },
    }
}

/// What is done about a query that goes to the translator.
pub open spec fn translated_reaction(s: State, q: Seq<char>) -> Reaction {
    match translation(q, session_config(s)) {
        Ok(t) => Reaction::Execute(active_schema(s.current_db), t.translated_sql),
        Err(e) => Reaction::Fail(ErrorKind::Parse, failure_message(e)),
    }
}

/// What a query does to the session and what is done about it.
pub open spec fn query_outcome(s: State, query: Seq<char>) -> (State, Reaction) {
    let q = trimmed(query);
    if kill_target(q) is Some {
        (s, Reaction::Kill(kill_target(q)->Some_0))
    } else if used_database(q) is Some {
        (State { current_db: used_database(q), ..s }, Reaction::Use(used_database(q)->Some_0))
    } else if own_answer(s, q) is Some {
        (s, Reaction::Rows(own_answer(s, q)->Some_0))
    } else {
        match after_session_query(s, q) {
            Err(e) => (s, Reaction::Fail(ErrorKind::Unknown, failure_message(e))),
            Ok(Some(next)) => (next, Reaction::Done),
            Ok(None) => if compat_noop(q) {
                (s, noop_reaction(q))
            } else if canned(q, s.version, s.version_comment) is Some {
                (s, Reaction::Rows(canned(q, s.version, s.version_comment)->Some_0))
            } else {
                (s, translated_reaction(s, q))
            },
        }
    }
}

/// A statement that waits for its columns to be described.
#[derive(Debug)]
pub struct Pending {
    pub original_sql: String,
    pub postgres_sql: String,
    pub params: usize,
    pub inferred: Vec<String>,
    pub canned: Option<Table>,
}

/// What is done about a statement to prepare.
#[derive(Debug)]
pub enum PrepareAction {
    /// Answer with the statement's number, how many parameters it has, and its columns.
    Reply(u32, usize, Vec<String>),
    /// Answer with an error.
    Fail(ErrorKind, String),
    /// Have this statement described in this schema, then report its columns.
    Describe(Option<String>, Pending),
}

/// A statement as the labels of its columns are read from it: under a mode in which double
/// quotes hold identifiers, with its identifiers in backticks.
pub open spec fn read_by_mode(s: State, query: Seq<char>) -> Seq<char> {
    if session_config(s).ansi_quotes {
        without_double_quotes(query, true)
    } else {
        query
    }
}

/// The statement that a client prepares, as far as it is known from its text.
pub open spec fn translated_prepared(s: State, query: Seq<char>, postgres_sql: Seq<char>) -> Prepared {
    Prepared {
        original_sql: query,
        postgres_sql,
        params: placeholders(query),
        columns: prepared_columns(read_by_mode(s, query), postgres_sql),
        canned: canned(query, s.version, s.version_comment),
    }
}

/// A statement that the frontend answers with rows of its own.
pub open spec fn canned_prepared(query: Seq<char>, table: TableView) -> Prepared {
    Prepared {
        original_sql: query,
        postgres_sql: Seq::empty(),
        params: 0,
        columns: table.0,
        canned: Some(table),
    }
}

/// A statement that the frontend answers with OK.
pub open spec fn noop_prepared(query: Seq<char>) -> Prepared {
    Prepared {
        original_sql: query,
        postgres_sql: Seq::empty(),
        params: placeholders(query),
        columns: Seq::empty(),
        canned: None,
    }
}

/// A state with one more statement.
pub open spec fn with_prepared(s: State, p: Prepared) -> State {
    State {
        next_statement_id: (s.next_statement_id + 1) as u32,
        prepared: s.prepared.insert(s.next_statement_id, p),
        ..s
    }
}

/// The error or the PostgreSQL text of a statement to prepare.
pub open spec fn preparation(s: State, query: Seq<char>) -> Result<Seq<char>, Failure> {
    match preparable_translation(query, session_config(s)) {
        Err(e) => Err(e),
        Ok(t) => postgres_placeholders(t.translated_sql),
    }
}

/// What a statement to prepare leads to.
pub open spec fn prepare_outcome(s: State, query: Seq<char>, end: State, r: PrepareAction) -> bool {
    if own_answer(s, query) is Some {
        prepared_reply(s, canned_prepared(query, own_answer(s, query)->Some_0), end, r)
    } else if compat_noop(query) {
        prepared_reply(s, noop_prepared(query), end, r)
    } else {
        match preparation(s, query) {
            Err(e) => end == s && (r matches PrepareAction::Fail(k, m) && k == ErrorKind::Parse && m@
                == failure_message(e)),
            Ok(sql) => {
                let p = translated_prepared(s, query, sql);
                if p.columns.len() == 0 || has_star(p.columns) {
                    end == s && (r matches PrepareAction::Describe(schema, pending) && opt_text(schema)
                        == active_schema(s.current_db) && pending_is(pending, p))
                } else {
                    prepared_reply(s, p, end, r)
                }
            },
        }
    }
}

/// A statement that waits is the one that is prepared, its columns as they were
/// inferred.
pub open spec fn pending_is(pending: Pending, p: Prepared) -> bool {
    &&& pending.original_sql@ == p.original_sql
    &&& pending.postgres_sql@ == p.postgres_sql
    &&& pending.params == p.params
    &&& texts(pending.inferred@) == p.columns
    &&& opt_table(pending.canned) == p.canned
}

/// The statement was stored and is answered with its number, parameters and columns.
pub open spec fn prepared_reply(s: State, p: Prepared, end: State, r: PrepareAction) -> bool {
    &&& end == with_prepared(s, p)
    &&& r matches PrepareAction::Reply(id, params, columns) && id == s.next_statement_id && params == p.params
        && texts(columns@) == p.columns
}

/// What is done about the execution of a prepared statement.
#[derive(Debug)]
pub enum ExecuteAction {
    /// Answer with these rows.
    Rows(Table),
    /// Answer OK.
    Done,
    /// Answer with an error.
    Fail(ErrorKind, String),
    /// Execute these statements one after another in this schema, then report the rows
    /// they affected together.
    RunAll(Option<String>, Vec<String>),
    /// Execute this statement in this schema with these parameters, then report its
    /// result.
    Run(Option<String>, String, Vec<PgParam>),
}

/// The trimmed parts of the first `n` that hold more than white space.
pub open spec fn filled_parts(parts: Seq<Seq<char>>, n: int) -> Seq<Seq<char>>
    decreases n,
{
    if n <= 0 {
        Seq::empty()
    } else {
        let before = filled_parts(parts, n - 1);
        let part = trimmed(parts[n - 1]);
        if part.len() == 0 {
            before
        } else {
            before.push(part)
        }
    }
}

/// The statements of a text that holds several.
pub open spec fn statements_of(sql: Seq<char>) -> Seq<Seq<char>> {
    filled_parts(split(sql, ';'), split(sql, ';').len() as int)
}

pub fn split_statements(sql: &str) -> (r: Vec<String>)
    ensures
        texts(r@) == statements_of(sql@),
{
    let parts = split_on(sql, ';');
    let mut out: Vec<String> = Vec::new();
    let mut i: usize = 0;
    let ghost all = texts(parts@);
    assert(texts(out@) =~= Seq::<Seq<char>>::empty());
    while i < parts.len()
        invariant
            i <= parts@.len(),
            all == texts(parts@),
            texts(out@) == filled_parts(all, i as int),
        decreases parts.len() - i,
    {
        let part = trim(parts[i].as_str());
        if !part.as_str().is_empty() {
            push_text(&mut out, part);
        }
        i = i + 1;
    }
    out
}

/// The SQL mode that a prepared `SET sql_mode = ?` sets: its first parameter, where that
/// is text.
pub open spec fn bound_sql_mode(p: Prepared, params: Seq<RawParam>) -> Option<Seq<char>> {
    if p.postgres_sql.len() == 0 && sets_sql_mode(uppered(bare_query(p.original_sql))) && sql_mode_value(
        bare_query(p.original_sql),
    ) == "?"@ && params.len() > 0 {
        match param_text(params[0]) {
            Ok(Some(text)) => Some(text),
            _ => None,
        }
    } else {
        None
    }
}

/// What the execution of a statement leads to, once the session answered what it could.
pub open spec fn run_outcome(s: State, p: Prepared, params: Seq<RawParam>, r: ExecuteAction) -> bool {
    let bound = all_bind(params, params.len() as int);
    if !bound {
        r matches ExecuteAction::Fail(k, m) && k == ErrorKind::Parse && exists|e: MiddlewareError|
            #[trigger] bound_params(Err::<Vec<PgParam>, MiddlewareError>(e), params) && m@ == failure_message(e@)
    } else if p.params != params.len() {
        r matches ExecuteAction::Fail(k, m) && k == ErrorKind::Parse && m@
            == "prepared statement parameter count mismatch: expected "@ + decimal(p.params) + ", got "@
            + decimal(params.len())
    } else if params.len() == 0 && occurs(p.postgres_sql, ";"@) {
        r matches ExecuteAction::RunAll(schema, list) && opt_text(schema) == active_schema(s.current_db) && texts(
            list@,
        ) == statements_of(p.postgres_sql)
    } else {
        r matches ExecuteAction::Run(schema, sql, list) && opt_text(schema) == active_schema(s.current_db) && sql@
            == p.postgres_sql && bound_params(Ok::<Vec<PgParam>, MiddlewareError>(list), params)
    }
}

/// What the execution of a prepared statement leads to.
pub open spec fn execute_outcome(s: State, id: u32, params: Seq<RawParam>, end: State, r: ExecuteAction) -> bool {
    if !s.prepared.dom().contains(id) {
        end == s && (r matches ExecuteAction::Fail(k, m) && k == ErrorKind::UnknownStatement && m@
            == "unknown prepared statement id"@)
    } else {
        let p = s.prepared[id];
        if p.canned is Some {
            end == s && (r matches ExecuteAction::Rows(t) && table_view(t) == p.canned->Some_0)
        } else if bound_sql_mode(p, params) is Some {
            end == (State { sql_mode: bound_sql_mode(p, params)->Some_0, ..s }) && r is Done
        } else if p.postgres_sql.len() == 0 {
            match after_session_query(s, p.original_sql) {
                Err(e) => end == s && (r matches ExecuteAction::Fail(k, m) && k == ErrorKind::Unknown && m@
                    == failure_message(e)),
                Ok(Some(next)) => end == next && r is Done,
                Ok(None) => if compat_noop(p.original_sql) {
                    end == s && r is Done
                } else {
                    end == s && run_outcome(s, p, params, r)
                },
            }
        } else {
            end == s && run_outcome(s, p, params, r)
        }
    }
}

/// The state of the transaction after one statement that succeeded.
pub open spec fn transaction_step(open: bool, sql: Seq<char>) -> bool {
    let q = uppered(trimmed(sql));
    if begins(q, "BEGIN"@) || begins(q, "START TRANSACTION"@) {
        true
    } else if begins(q, "COMMIT"@) || (begins(q, "ROLLBACK"@) && !begins(q, "ROLLBACK TO"@)) {
        false
    } else {
        open
    }
}

/// The state of the transaction after the first `n` statements of a list.
pub open spec fn transaction_steps(open: bool, list: Seq<Seq<char>>, n: int) -> bool
    decreases n,
{
    if n <= 0 {
        open
    } else {
        transaction_step(transaction_steps(open, list, n - 1), list[n - 1])
    }
}

/// The state of the transaction after a text that succeeded, one statement after the other.
pub open spec fn transaction_after(open: bool, sql: Seq<char>) -> bool {
    transaction_steps(open, statements_in(sql), statements_in(sql).len() as int)
}

fn is_open_after_one(open: bool, sql: &str) -> (r: bool)
    ensures
        r == transaction_step(open, sql@),
{
    let t = trim(sql);
    let upper = to_upper(t.as_str());
    let q = upper.as_str();
    if starts_with(q, "BEGIN") || starts_with(q, "START TRANSACTION") {
        true
    } else if starts_with(q, "COMMIT") || (starts_with(q, "ROLLBACK") && !starts_with(q, "ROLLBACK TO")) {
        false
    } else {
        open
    }
}

fn is_open_after(open: bool, sql: &str) -> (r: bool)
    ensures
        r == transaction_after(open, sql@),
{
    let list = split_sql_statements(sql);
    assert(texts(list@).len() == list@.len());
    let mut now = open;
    let mut i: usize = 0;
    while i < list.len()
        invariant
            i <= list@.len(),
            now == transaction_steps(open, texts(list@), i as int),
        decreases list.len() - i,
    {
        now = is_open_after_one(now, list[i].as_str());
        i = i + 1;
    }
    now
}

proof fn lemma_steps_add(open: bool, a: Seq<Seq<char>>, b: Seq<Seq<char>>, n: int)
    requires
        0 <= n <= b.len(),
    ensures
        transaction_steps(open, a + b, a.len() + n) == transaction_steps(
            transaction_steps(open, a, a.len() as int),
            b,
            n,
        ),
    decreases n,
{
    if n > 0 {
        lemma_steps_add(open, a, b, n - 1);
        assert((a + b)[a.len() + n - 1] == b[n - 1]);
    } else {
        lemma_steps_prefix(open, a, b, a.len() as int);
    }
}

proof fn lemma_steps_prefix(open: bool, a: Seq<Seq<char>>, b: Seq<Seq<char>>, n: int)
    requires
        0 <= n <= a.len(),
    ensures
        transaction_steps(open, a + b, n) == transaction_steps(open, a, n),
    decreases n,
{
    if n > 0 {
        lemma_steps_prefix(open, a, b, n - 1);
        assert((a + b)[n - 1] == a[n - 1]);
    }
}

proof fn lemma_blank_step(open: bool, sql: Seq<char>)
    ensures
        transaction_step(open, seq![' '] + sql) == transaction_step(open, sql),
{
    let t = seq![' '] + sql;
    assert(t[0] == ' ');
    assert(t.skip(1) =~= sql);
    assert(trimmed_start(t) == trimmed_start(sql));
}

proof fn lemma_steps_alike(open: bool, a: Seq<Seq<char>>, b: Seq<Seq<char>>, n: int)
    requires
        0 <= n <= a.len(),
        a.len() == b.len(),
        a.len() > 0,
        a[0] == seq![' '] + b[0],
        forall|i: int| 0 < i < a.len() ==> #[trigger] a[i] == b[i],
    ensures
        transaction_steps(open, a, n) == transaction_steps(open, b, n),
    decreases n,
{
    if n > 0 {
        lemma_steps_alike(open, a, b, n - 1);
        lemma_blank_step(transaction_steps(open, b, n - 1), b[0]);
        if n > 1 {
            assert(a[n - 1] == b[n - 1]);
        }
    }
}

/// Texts that are sent as one leave the transaction as they do when they are sent one after
/// the other.
pub proof fn transactions_go_statement_by_statement(open: bool, a: Seq<char>, b: Seq<char>)
    requires
        is_complete(a),
    ensures
        transaction_after(open, a + "; "@ + b) == transaction_after(transaction_after(open, a), b),
{
    reveal_strlit("; ");
    reveal_strlit(";");
    let blank = seq![' '] + b;
    assert(a + "; "@ + b =~= a + ";"@ + blank);
    statements_of_a_row(a, blank);
    lemma_blank_before_statements(b);
    let first = statements_in(a);
    let second = statements_in(blank);
    lemma_steps_add(open, first, second, second.len() as int);
    lemma_steps_alike(transaction_after(open, a), second, statements_in(b), second.len() as int);
}

/// The state after a statement succeeded.
pub open spec fn after_success(s: State, sql: Seq<char>, last_insert_id: u64) -> State {
    State {
        last_insert_id: if last_insert_id > 0 {
            last_insert_id
        } else {
            s.last_insert_id
        },
        in_transaction: transaction_after(s.in_transaction, sql),
        ..s
    }
}

/// How a statement is answered.
#[derive(Debug)]
pub enum Reply {
    /// With the rows of a result, or with its row count where it has no columns.
    Result(QueryResult),
    /// With an error.
    Error(ErrorKind, String),
}

/// A result with the same rows, kinds of columns and counts.
pub open spec fn same_rows(a: QueryResult, b: QueryResult) -> bool {
    a.kinds == b.kinds && a.rows == b.rows && a.row_count == b.row_count && a.last_insert_id == b.last_insert_id
}

/// The columns of an empty answer where an option table that applications probe for is
/// missing; nothing for any other failure.
pub open spec fn missing_option_columns(original: Seq<char>, rendered: Seq<char>, message: Seq<char>) -> Option<
    Seq<Seq<char>>,
> {
    let q = uppered(trimmed_start(rendered));
    if !(occurs(message, "relation \"matomo_option\" does not exist"@) || occurs(
        message,
        "relation \"option\" does not exist"@,
    )) || !(occurs(rendered, "\"matomo_option\""@) || occurs(rendered, "\"option\""@)) {
        None
    } else if begins(q, "SELECT"@) {
        Some(result_columns(original))
    } else if begins(q, "DELETE"@) || begins(q, "UPDATE"@) {
        Some(Seq::empty())
    } else {
        None
    }
}

/// The empty answer for a missing option table: an application that is not installed yet
/// probes for it and expects no rows.
pub fn compat_empty_result_for_missing_matomo_option(original_sql: &str, rendered_sql: &str, message: &str) -> (r:
    Option<QueryResult>)
    ensures
        match r {
            Some(q) => missing_option_columns(original_sql@, rendered_sql@, message@) == Some(texts(q.columns@))
                && q.rows@.len() == 0 && q.row_count == 0 && q.last_insert_id == 0,
            None => missing_option_columns(original_sql@, rendered_sql@, message@) is None,
        },
{
    if !(contains(message, "relation \"matomo_option\" does not exist") || contains(
        message,
        "relation \"option\" does not exist",
    )) {
        return None;
    }
    if !(contains(rendered_sql, "\"matomo_option\"") || contains(rendered_sql, "\"option\"")) {
        return None;
    }
    let start = trim_start(rendered_sql);
    let upper = to_upper(start.as_str());
    if starts_with(upper.as_str(), "SELECT") {
        let columns = infer_result_columns(original_sql);
        Some(QueryResult { columns, kinds: Vec::new(), rows: Vec::new(), row_count: 0, last_insert_id: 0 })
    } else if starts_with(upper.as_str(), "DELETE") || starts_with(upper.as_str(), "UPDATE") {
        let r = affected_result(0);
        assert(texts(r.columns@) =~= Seq::<Seq<char>>::empty());
        Some(r)
    } else {
        None
    }
}

/// The answer to a failure.
pub open spec fn is_failure_reply(e: MiddlewareError, r: Reply) -> bool {
    r matches Reply::Error(k, m) && m@ == failure_message(e@) && k == error_kind(m@)
}

fn fail_reply(e: &MiddlewareError) -> (r: Reply)
    ensures
        is_failure_reply(*e, r),
{
    let message = e.to_string();
    let kind = mysql_error_kind_for_message(message.as_str());
    Reply::Error(kind, message)
}

/// The state of a session that was just opened.
pub open spec fn opened(
    connection_id: u32,
    config: TranslatorConfig,
    version: Seq<char>,
    version_comment: Seq<char>,
    current_db: Option<Seq<char>>,
) -> State {
    State {
        connection_id,
        config,
        version,
        version_comment,
        current_db,
        last_insert_id: 0,
        charset: "utf8mb4"@,
        collation: "utf8mb4_general_ci"@,
        sql_mode: "NO_AUTO_VALUE_ON_ZERO"@,
        isolation: "REPEATABLE-READ"@,
        in_transaction: false,
        next_statement_id: 1,
        prepared: Map::empty(),
    }
}

impl Session {
    /// Opens a session for a connection.
    pub fn open(
        connection_id: u32,
        config: TranslatorConfig,
        version: String,
        version_comment: String,
        current_db: Option<String>,
    ) -> (r: Self)
        ensures
            r@ == opened(connection_id, config, version@, version_comment@, opt_text(current_db)),
            valid(r@),
    {
        let prepared: HashMap<u32, PreparedStatement> = HashMap::new();
        assert(prepared_view(prepared@) =~= Map::<u32, Prepared>::empty());
        proof {
            default_collations_fit("utf8mb4"@);
            reveal_strlit("utf8");
            reveal_strlit("utf8mb4");
            assert("utf8"@.len() != "utf8mb4"@.len());
        }
        Session {
            connection_id,
            config,
            version,
            version_comment,
            current_db,
            last_insert_id: 0,
            charset: "utf8mb4".to_string(),
            collation: "utf8mb4_general_ci".to_string(),
            sql_mode: "NO_AUTO_VALUE_ON_ZERO".to_string(),
            isolation: "REPEATABLE-READ".to_string(),
            in_transaction: false,
            next_statement_id: 1,
            prepared,
        }
    }

    fn effective_config(&self) -> (r: TranslatorConfig)
        ensures
            r == session_config(self@),
    {
        TranslatorConfig {
            rewrite_limit_comma: self.config.rewrite_limit_comma,
            normalize_mysql_backticks: self.config.normalize_mysql_backticks,
            normalize_boolean_literals: self.config.normalize_boolean_literals,
            rewrite_mysql_functions: self.config.rewrite_mysql_functions,
            rewrite_json_operators: self.config.rewrite_json_operators,
            strip_mysql_table_options: self.config.strip_mysql_table_options,
            ansi_quotes: self.config.ansi_quotes || sql_mode_is_ansi(self.sql_mode.as_str()),
        }
    }

    fn answer_own(&self, query: &str) -> (r: Option<Table>)
        ensures
            opt_table(r) == own_answer(self@, query@),
    {
        let s = SessionSettings {
            collation: self.collation.as_str(),
            sql_mode: self.sql_mode.as_str(),
            isolation: self.isolation.as_str(),
            version: self.version.as_str(),
            comment: self.version_comment.as_str(),
        };
        match session_response(self.connection_id, &self.current_db, &s, query) {
            Some(t) => Some(t),
            None => if eq_ignore_case(trim(query).as_str(), "SELECT LAST_INSERT_ID()") {
                Some(one_value("LAST_INSERT_ID()", number(self.last_insert_id).as_str()))
            } else {
                None
            },
        }
    }

    /// Selects the database that a client asks for; none for a blank name.
    pub fn on_init(&mut self, schema: &str)
        requires
            valid(old(self)@),
        ensures
            final(self)@ == (State {
                current_db: if trimmed(schema@).len() == 0 {
                    None
                } else {
                    Some(trimmed(schema@))
                },
                ..old(self)@
            }),
            valid(final(self)@),
    {
        let name = trim(schema);
        if name.as_str().is_empty() {
            self.current_db = None;
        } else {
            self.current_db = Some(name);
        }
    }

    /// Takes over what a statement sets of the session: whether it did, or why it could
    /// not.
    pub fn handle_mysql_session_query(&mut self, query: &str) -> (r: Result<bool, MiddlewareError>)
        requires
            valid(old(self)@),
        ensures
            match after_session_query(old(self)@, query@) {
                Err(e) => final(self)@ == old(self)@ && (r matches Err(f) && f@ == e),
                Ok(Some(next)) => final(self)@ == next && r == Ok::<bool, MiddlewareError>(true),
                Ok(None) => final(self)@ == old(self)@ && r == Ok::<bool, MiddlewareError>(false),
            },
            valid(final(self)@),
    {
        let a = trim(query);
        let b = trim_end_matches(a.as_str(), ';');
        let q = trim(b.as_str());
        let upper = to_upper(q.as_str());
        let n: usize = q.as_str().unicode_len();
        proof {
            reveal_strlit("SET NAMES ");
            reveal_strlit("SET SESSION TRANSACTION ISOLATION LEVEL ");
            reveal_strlit("SET TRANSACTION ISOLATION LEVEL ");
            set_names_keeps_them_fitting(q@);
        }
        if starts_with(upper.as_str(), "SET NAMES ") {
            match apply_set_names(q.as_str()) {
                Ok((charset, collation)) => {
                    self.charset = charset;
                    self.collation = collation;
                    return Ok(true);
                },
                Err(e) => return Err(e),
            }
        }
        if is_set_sql_mode_query(upper.as_str()) {
            self.sql_mode = parse_set_sql_mode_value(q.as_str());
            return Ok(true);
        }
        if starts_with(upper.as_str(), "SET SESSION TRANSACTION ISOLATION LEVEL ") {
            let level = slice(q.as_str(), 40, n);
            assert(level@ =~= q@.skip(40));
            self.isolation = normalize_transaction_isolation(trim(level.as_str()).as_str());
            return Ok(true);
        }
        if starts_with(upper.as_str(), "SET TRANSACTION ISOLATION LEVEL ") {
            let level = slice(q.as_str(), 32, n);
            assert(level@ =~= q@.skip(32));
            self.isolation = normalize_transaction_isolation(trim(level.as_str()).as_str());
            return Ok(true);
        }
        Ok(false)
    }

    /// A query came in: decides what is done about it.
    pub fn on_query(&mut self, query: &str, cache: &mut TranslationCache) -> (r: QueryAction)
        requires
            valid(old(self)@),
            old(cache).faithful(),
        ensures
            final(cache).faithful(),
            (final(self)@, r@) == query_outcome(old(self)@, query@),
            valid(final(self)@),
    {
        let text = trim(query);
        let q = text.as_str();
        match parse_kill_connection_id(q) {
            Some(id) => return QueryAction::Kill(id),
            None => {},
        }
        match parse_use_database(q) {
            Some(name) => {
                self.current_db = Some(name.clone());
                return QueryAction::Use(name);
            },
            None => {},
        }
        match self.answer_own(q) {
            Some(t) => return QueryAction::Rows(t),
            None => {},
        }
        match self.handle_mysql_session_query(q) {
            Ok(true) => return QueryAction::Done,
            Ok(false) => {},
            Err(e) => return QueryAction::Fail(ErrorKind::Unknown, e.to_string()),
        }
        if is_compat_noop_query(q) {
            match parse_create_database_name(q) {
                Some(name) => return QueryAction::CreateSchema(name),
                None => {},
            }
            match parse_drop_database_name(q) {
                Some(name) => return QueryAction::DropSchema(name),
                None => {},
            }
            return QueryAction::Done;
        }
        match canned_response(q, self.version.as_str(), self.version_comment.as_str()) {
            Some(t) => return QueryAction::Rows(t),
            None => {},
        }
        match cache.translate_sql(q, &self.effective_config()) {
            Ok(t) => QueryAction::Execute(active_schema_name(&self.current_db), t.translated_sql),
            Err(e) => QueryAction::Fail(ErrorKind::Parse, e.to_string()),
        }
    }

    /// A schema was created: it is the session's database from now on.
    pub fn on_schema_created(&mut self, name: &str)
        requires
            valid(old(self)@),
        ensures
            final(self)@ == (State { current_db: Some(name@), ..old(self)@ }),
            valid(final(self)@),
    {
        self.current_db = Some(name.to_string());
    }

    /// A schema was dropped: where it was the session's database, there is none now.
    pub fn on_schema_dropped(&mut self, name: &str)
        requires
            valid(old(self)@),
        ensures
            final(self)@ == (State {
                current_db: if old(self)@.current_db == Some(name@) {
                    None
                } else {
                    old(self)@.current_db
                },
                ..old(self)@
            }),
            valid(final(self)@),
    {
        let drops = match &self.current_db {
            Some(d) => same(d.as_str(), name),
            None => false,
        };
        if drops {
            self.current_db = None;
        }
    }

    /// The result of an executed query came back.
    pub fn on_result(&mut self, sql: &str, result: Result<QueryResult, MiddlewareError>) -> (r: Reply)
        requires
            valid(old(self)@),
        ensures
            match result {
                Ok(q) => r == Reply::Result(q) && final(self)@ == after_success(
                    old(self)@,
                    sql@,
                    q.last_insert_id,
                ),
                Err(e) => is_failure_reply(e, r) && final(self)@ == old(self)@,
            },
            valid(final(self)@),
    {
        match result {
            Ok(q) => {
                if q.last_insert_id > 0 {
                    self.last_insert_id = q.last_insert_id;
                }
                self.in_transaction = is_open_after(self.in_transaction, sql);
                Reply::Result(q)
            },
            Err(e) => fail_reply(&e),
        }
    }

    fn store(&mut self, statement: PreparedStatement) -> (r: PrepareAction)
        requires
            valid(old(self)@),
            old(self)@.next_statement_id < u32::MAX,
        ensures
            prepared_reply(old(self)@, statement@, final(self)@, r),
            valid(final(self)@),
    {
        let id = self.next_statement_id;
        let params = statement.params;
        let mut columns: Vec<String> = Vec::new();
        push_texts(&mut columns, &statement.columns);
        assert(texts(columns@) =~= texts(statement.columns@));
        let ghost before = self.prepared@;
        let ghost p = statement@;
        self.next_statement_id = id + 1;
        self.prepared.insert(id, statement);
        assert(prepared_view(self.prepared@) =~= prepared_view(before).insert(id, p));
        PrepareAction::Reply(id, params, columns)
    }

    /// A statement is to be prepared: decides what is done about it.
    pub fn on_prepare(&mut self, query: &str, cache: &mut TranslationCache) -> (r: PrepareAction)
        requires
            valid(old(self)@),
            old(cache).faithful(),
            old(self)@.next_statement_id < u32::MAX,
        ensures
            final(cache).faithful(),
            prepare_outcome(old(self)@, query@, final(self)@, r),
            valid(final(self)@),
    {
        let params = count_prepare_placeholders(query);
        match self.answer_own(query) {
            Some(t) => {
                let mut columns: Vec<String> = Vec::new();
                push_texts(&mut columns, &t.0);
                assert(texts(columns@) =~= texts(t.0@));
                return self.store(
                    PreparedStatement {
                        original_sql: query.to_string(),
                        postgres_sql: String::new(),
                        params: 0,
                        columns,
                        canned: Some(t),
                    },
                );
            },
            None => {},
        }
        if is_compat_noop_query(query) {
            let columns: Vec<String> = Vec::new();
            assert(texts(columns@) =~= Seq::<Seq<char>>::empty());
            return self.store(
                PreparedStatement {
                    original_sql: query.to_string(),
                    postgres_sql: String::new(),
                    params,
                    columns,
                    canned: None,
                },
            );
        }
        let translated = match translate_preparable_cached(query, &self.effective_config(), cache) {
            Ok(t) => t.translated_sql,
            Err(e) => return PrepareAction::Fail(ErrorKind::Parse, e.to_string()),
        };
        let postgres_sql = match rewrite_prepare_placeholders_for_postgres(translated.as_str()) {
            Ok(s) => s,
            Err(e) => return PrepareAction::Fail(ErrorKind::Parse, e.to_string()),
        };
        let table = canned_response(query, self.version.as_str(), self.version_comment.as_str());
        let config = self.effective_config();
        let inferred = if config.ansi_quotes {
            let text = normalize_mysql_double_quoted_string_literals(query, true);
            infer_prepare_result_columns(text.as_str(), postgres_sql.as_str())
        } else {
            infer_prepare_result_columns(query, postgres_sql.as_str())
        };
        assert(texts(inferred@).len() == inferred@.len());
        if inferred.len() == 0 || holds_star(&inferred) {
            return PrepareAction::Describe(
                active_schema_name(&self.current_db),
                Pending { original_sql: query.to_string(), postgres_sql, params, inferred, canned: table },
            );
        }
        self.store(
            PreparedStatement {
                original_sql: query.to_string(),
                postgres_sql,
                params,
                columns: inferred,
                canned: table,
            },
        )
    }

    /// The columns of a statement were described, or could not be.
    pub fn on_described(&mut self, pending: Pending, described: Option<Vec<String>>) -> (r: PrepareAction)
        requires
            valid(old(self)@),
            old(self)@.next_statement_id < u32::MAX,
        ensures
            prepared_reply(
                old(self)@,
                (Prepared {
                    original_sql: pending.original_sql@,
                    postgres_sql: pending.postgres_sql@,
                    params: pending.params as nat,
                    columns: match described {
                        Some(c) => texts(c@),
                        None => texts(pending.inferred@),
                    },
                    canned: opt_table(pending.canned),
                }),
                final(self)@,
                r,
            ),
            valid(final(self)@),
    {
        let columns = match described {
            Some(c) => c,
            None => pending.inferred,
        };
        self.store(
            PreparedStatement {
                original_sql: pending.original_sql,
                postgres_sql: pending.postgres_sql,
                params: pending.params,
                columns,
                canned: pending.canned,
            },
        )
    }

    fn run(&self, postgres_sql: &str, expected: usize, params: &Vec<RawParam>) -> (r: ExecuteAction)
        ensures
            forall|p: Prepared|
                p.postgres_sql == postgres_sql@ && p.params == expected ==> #[trigger] run_outcome(
                    self@,
                    p,
                    params@,
                    r,
                ),
    {
        let bound = match decode_mysql_params(params) {
            Ok(v) => v,
            Err(e) => {
                assert(bound_params(Err::<Vec<PgParam>, MiddlewareError>(e), params@));
                return ExecuteAction::Fail(ErrorKind::Parse, e.to_string());
            },
        };
        if expected != bound.len() {
            return ExecuteAction::Fail(
                ErrorKind::Parse,
                cat4(
                    "prepared statement parameter count mismatch: expected ",
                    number(expected as u64).as_str(),
                    ", got ",
                    number(bound.len() as u64).as_str(),
                ),
            );
        }
        if bound.len() == 0 && contains(postgres_sql, ";") {
            return ExecuteAction::RunAll(active_schema_name(&self.current_db), split_statements(postgres_sql));
        }
        ExecuteAction::Run(active_schema_name(&self.current_db), postgres_sql.to_string(), bound)
    }

    /// A prepared statement is to be executed: decides what is done about it.
    pub fn on_execute(&mut self, id: u32, params: &Vec<RawParam>) -> (r: ExecuteAction)
        requires
            valid(old(self)@),
        ensures
            execute_outcome(old(self)@, id, params@, final(self)@, r),
            valid(final(self)@),
    {
        let ghost s = self@;
        let (original_sql, postgres_sql, expected) = match self.prepared.get(&id) {
            None => {
                return ExecuteAction::Fail(
                    ErrorKind::UnknownStatement,
                    "unknown prepared statement id".to_string(),
                );
            },
            Some(p) => {
                assert(s.prepared[id] == p@);
                match &p.canned {
                    Some(t) => return ExecuteAction::Rows(copy_table(t)),
                    None => {},
                }
                (p.original_sql.clone(), p.postgres_sql.clone(), p.params)
            },
        };
        let ghost p = s.prepared[id];
        if postgres_sql.as_str().is_empty() {
            let a = trim(original_sql.as_str());
            let b = trim_end_matches(a.as_str(), ';');
            let q = trim(b.as_str());
            let upper = to_upper(q.as_str());
            if params.len() > 0 && is_set_sql_mode_query(upper.as_str()) && same(
                parse_set_sql_mode_value(q.as_str()).as_str(),
                "?",
            ) {
                match decode_mysql_param(&params[0]) {
                    Ok(PgParam::Text(mode)) => {
                        self.sql_mode = mode;
                        return ExecuteAction::Done;
                    },
                    _ => {},
                }
            }
            match self.handle_mysql_session_query(original_sql.as_str()) {
                Ok(true) => return ExecuteAction::Done,
                Ok(false) => {},
                Err(e) => return ExecuteAction::Fail(ErrorKind::Unknown, e.to_string()),
            }
            if is_compat_noop_query(original_sql.as_str()) {
                return ExecuteAction::Done;
            }
        }
        let r = self.run(postgres_sql.as_str(), expected, params);
        assert(run_outcome(self@, p, params@, r));
        r
    }

    /// The result of an executed statement came back. Its columns go by the names that
    /// were announced when it was prepared.
    pub fn on_statement_result(&mut self, id: u32, result: Result<QueryResult, MiddlewareError>) -> (r: Reply)
        requires
            valid(old(self)@),
            old(self)@.prepared.dom().contains(id),
        ensures
            ({
                let p = old(self)@.prepared[id];
                match result {
                    Ok(q) => final(self)@ == after_success(old(self)@, p.postgres_sql, q.last_insert_id)
                        && (r matches Reply::Result(out) && same_rows(q, out) && texts(out.columns@) == (
                    if p.columns.len() > 0 && q.columns@.len() > 0 {
                        p.columns
                    } else {
                        texts(q.columns@)
                    })),
                    Err(e) => final(self)@ == old(self)@ && match missing_option_columns(
                        p.original_sql,
                        p.postgres_sql,
                        failure_message(e@),
                    ) {
                        Some(columns) => r matches Reply::Result(out) && texts(out.columns@) == columns
                            && out.rows@.len() == 0 && out.row_count == 0 && out.last_insert_id == 0,
                        None => is_failure_reply(e, r),
                    },
                }
            }),
            valid(final(self)@),
    {
        let ghost s = self@;
        let (original_sql, postgres_sql, columns) = match self.prepared.get(&id) {
            None => (String::new(), String::new(), Vec::new()),
            Some(p) => {
                assert(s.prepared[id] == p@);
                let mut columns: Vec<String> = Vec::new();
                push_texts(&mut columns, &p.columns);
                assert(texts(columns@) =~= texts(p.columns@));
                (p.original_sql.clone(), p.postgres_sql.clone(), columns)
            },
        };
        match result {
            Ok(q) => {
                if q.last_insert_id > 0 {
                    self.last_insert_id = q.last_insert_id;
                }
                self.in_transaction = is_open_after(self.in_transaction, postgres_sql.as_str());
                assert(texts(columns@).len() == columns@.len());
                if columns.len() > 0 && q.columns.len() > 0 {
                    Reply::Result(
                        QueryResult {
                            columns,
                            kinds: q.kinds,
                            rows: q.rows,
                            row_count: q.row_count,
                            last_insert_id: q.last_insert_id,
                        },
                    )
                } else {
                    Reply::Result(q)
                }
            },
            Err(e) => {
                let message = e.to_string();
                match compat_empty_result_for_missing_matomo_option(
                    original_sql.as_str(),
                    postgres_sql.as_str(),
                    message.as_str(),
                ) {
                    Some(q) => Reply::Result(q),
                    None => fail_reply(&e),
                }
            },
        }
    }

    /// A client reset a prepared statement: it is told the last insert id.
    pub fn on_reset(&self) -> (r: u64)
        ensures
            r == self@.last_insert_id,
    {
        self.last_insert_id
    }

    /// A client closed a prepared statement.
    pub fn on_close(&mut self, id: u32)
        requires
            valid(old(self)@),
        ensures
            final(self)@ == (State { prepared: old(self)@.prepared.remove(id), ..old(self)@ }),
            valid(final(self)@),
    {
        let ghost before = self.prepared@;
        self.prepared.remove(&id);
        assert(prepared_view(self.prepared@) =~= prepared_view(before).remove(id));
    }
}

/// Statements get numbers that no statement of the session has.
pub proof fn statement_numbers_are_fresh(s: State, p: Prepared)
    requires
        valid(s),
        s.next_statement_id < u32::MAX,
    ensures
        !s.prepared.dom().contains(s.next_statement_id),
        with_prepared(s, p).prepared[s.next_statement_id] == p,
        forall|id: u32|
            s.prepared.dom().contains(id) ==> with_prepared(s, p).prepared.dom().contains(id)
                && #[trigger] with_prepared(s, p).prepared[id] == s.prepared[id],
{
}

/// What a session answers itself leaves every setting as it is, unless the statement
/// sets it; and a statement that is refused changes nothing.
pub proof fn refused_settings_change_nothing(s: State, query: Seq<char>)
    requires
        kill_target(trimmed(query)) is None,
        used_database(trimmed(query)) is None,
        own_answer(s, trimmed(query)) is None,
        after_session_query(s, trimmed(query)) is Err,
    ensures
        query_outcome(s, query).0 == s,
        query_outcome(s, query).1 is Fail,
{
}

/// Whether the pattern for a selected system variable finds nothing in a query.
pub open spec fn selects_no_variable(query: Seq<char>) -> bool {
    regex_captures(SELECT_SYSTEM_VARIABLE@, trimmed(query)).len() == 0
}

/// A session that selected a database reports it.
pub proof fn selected_databases_are_reported(s: State, query: Seq<char>, ask: Seq<char>)
    requires
        used_database(trimmed(query)) is Some,
        same_ignoring_case(trimmed(ask), "SELECT DATABASE()"@),
    ensures
        selects_no_variable(ask) ==> own_answer(query_outcome(s, query).0, ask) == Some(
            single_value("DATABASE()"@, used_database(trimmed(query))->Some_0),
        ),
{
    let upper = uppered(bare_query(trimmed(query)));
    reveal_strlit("USE ");
    reveal_strlit("KILL ");
    reveal_strlit("SELECT DATABASE()");
    reveal_strlit("SELECT CONNECTION_ID()");
    assert(lowered("SELECT DATABASE()"@).len() == 17);
    assert(lowered("SELECT CONNECTION_ID()"@).len() == 22);
    if kill_target(trimmed(query)) is Some {
        assert(upper.subrange(0, 4)[0] == upper[0]);
        assert(upper.subrange(0, 5)[0] == upper[0]);
    }
}

/// A session reports the id of the last statement that inserted one.
pub proof fn insert_ids_are_reported(s: State, sql: Seq<char>, id: u64, ask: Seq<char>)
    requires
        id > 0,
        same_ignoring_case(trimmed(ask), "SELECT LAST_INSERT_ID()"@),
    ensures
        selects_no_variable(ask) ==> own_answer(after_success(s, sql, id), ask) == Some(
            single_value("LAST_INSERT_ID()"@, decimal(id as nat)),
        ),
        selects_no_variable(ask) ==> own_answer(after_success(after_success(s, sql, id), sql, 0), ask) == Some(
            single_value("LAST_INSERT_ID()"@, decimal(id as nat)),
        ),
{
    reveal_strlit("SELECT LAST_INSERT_ID()");
    reveal_strlit("SELECT DATABASE()");
    reveal_strlit("SELECT CONNECTION_ID()");
    reveal_strlit("SELECT @@COLLATION_CONNECTION");
    reveal_strlit("SHOW GLOBAL VARIABLES LIKE 'T%_ISOLATION'");
    assert(lowered("SELECT LAST_INSERT_ID()"@).len() == 23);
    assert(lowered("SELECT DATABASE()"@).len() == 17);
    assert(lowered("SELECT CONNECTION_ID()"@).len() == 22);
    assert(lowered("SELECT @@COLLATION_CONNECTION"@).len() == 29);
    assert(lowered("SHOW GLOBAL VARIABLES LIKE 'T%_ISOLATION'"@).len() == 41);
}

/// A session that sets no SQL mode has its statements read as the configuration says.
pub proof fn sessions_start_as_configured(
    connection_id: u32,
    config: TranslatorConfig,
    version: Seq<char>,
    version_comment: Seq<char>,
    current_db: Option<Seq<char>>,
)
    ensures
        session_config(opened(connection_id, config, version, version_comment, current_db)) == config,
        valid(opened(connection_id, config, version, version_comment, current_db)),
{
    let mode = "NO_AUTO_VALUE_ON_ZERO"@;
    reveal_strlit("NO_AUTO_VALUE_ON_ZERO");
    reveal_strlit("ANSI");
    reveal_strlit("ANSI_QUOTES");
    reveal_strlit("utf8");
    reveal_strlit("utf8mb4");
    lemma_split_whole(mode, ',');
    assert(trimmed(mode) == mode);
    assert(lowered(mode).len() == 21);
    assert(lowered("ANSI"@).len() == 4);
    assert(lowered("ANSI_QUOTES"@).len() == 11);
    default_collations_fit("utf8mb4"@);
    assert("utf8"@.len() != "utf8mb4"@.len());
}

/// A SQL mode that is set is the one that is reported, and it decides how the statements
/// that follow are read.
pub proof fn sql_modes_are_tracked(s: State, query: Seq<char>)
    requires
        sets_sql_mode(uppered(bare_query(query))),
    ensures
        after_session_query(s, query) matches Ok(Some(next)) && variable_value(settings(next), "sql_mode"@) == Some(
            sql_mode_value(bare_query(query)),
        ) && session_config(next).ansi_quotes == (s.config.ansi_quotes || mode_is_ansi(
            sql_mode_value(bare_query(query)),
        )),
{
    let upper = uppered(bare_query(query));
    reveal_strlit("sql_mode");
    assert(lowered("sql_mode"@) =~= "sql_mode"@);
    reveal_strlit("SET NAMES ");
    reveal_strlit("SET SQL_MODE");
    reveal_strlit("SET SESSION SQL_MODE");
    reveal_strlit("SET @@SQL_MODE");
    reveal_strlit("SET @@SESSION.SQL_MODE");
    if begins(upper, "SET NAMES "@) {
        assert(upper.subrange(0, 10)[4] == upper[4]);
        assert(upper.subrange(0, 10)[5] == upper[5]);
        if begins(upper, "SET SQL_MODE"@) {
            assert(upper.subrange(0, 12)[4] == upper[4]);
        } else if begins(upper, "SET SESSION SQL_MODE"@) {
            assert(upper.subrange(0, 20)[4] == upper[4]);
        } else if begins(upper, "SET @@SQL_MODE"@) {
            assert(upper.subrange(0, 14)[4] == upper[4]);
        } else {
            assert(upper.subrange(0, 22)[4] == upper[4]);
        }
    }
}

/// A statement that was closed is unknown from then on, and asking for it changes nothing.
pub proof fn closed_statements_are_unknown(s: State, id: u32, params: Seq<RawParam>, end: State, r: ExecuteAction)
    requires
        execute_outcome(State { prepared: s.prepared.remove(id), ..s }, id, params, end, r),
    ensures
        end == (State { prepared: s.prepared.remove(id), ..s }),
        r matches ExecuteAction::Fail(k, _) && k == ErrorKind::UnknownStatement,
{
}

/// What is executed of a prepared statement is the text it was prepared with, and with
/// as many parameters as it has; another number of parameters is refused.
pub proof fn prepared_statements_run_as_prepared(
    s: State,
    p: Prepared,
    params: Seq<RawParam>,
    end: State,
    r: ExecuteAction,
)
    requires
        valid(s),
        s.next_statement_id < u32::MAX,
        p.canned is None,
        p.postgres_sql.len() > 0,
        execute_outcome(with_prepared(s, p), s.next_statement_id, params, end, r),
    ensures
        end == with_prepared(s, p),
        r matches ExecuteAction::Run(schema, sql, list) ==> sql@ == p.postgres_sql && list@.len() == p.params,
        r matches ExecuteAction::RunAll(schema, list) ==> texts(list@) == statements_of(p.postgres_sql),
        p.params != params.len() ==> r is Fail,
{
}

/// An error that frontend and server report to a client.
#[derive(Debug)]
pub enum MySqlServerError {
    Io(String),
    Middleware(MiddlewareError),
}

impl MySqlServerError {
    /// The text shown to a user.
    pub fn to_string(&self) -> (r: String)
        ensures
            r@ == (match self {
                MySqlServerError::Io(m) => m@,
                MySqlServerError::Middleware(e) => failure_message(e@),
            }),
    {
        match self {
            MySqlServerError::Io(m) => m.clone(),
            MySqlServerError::Middleware(e) => e.to_string(),
        }
    }
}

/// Makes the sessions of a server.
#[derive(Debug)]
pub struct MySqlFrontendFactory {
    pub config: Arc<AppConfig>,
    pub connection_string: String,
}

impl MySqlFrontendFactory {
    pub fn new(config: Arc<AppConfig>, connection_string: String) -> (r: Self)
        ensures
            r.config == config,
            r.connection_string@ == connection_string@,
    {
        MySqlFrontendFactory { config, connection_string }
    }

    /// Opens a session of the server.
    pub fn connection_backend(&self, server: &mut Server) -> (r: Session)
        ensures
            valid(r@),
            r@ == opened(
                old(server)@.next_connection_id,
                self.config.translator,
                old(server)@.version,
                old(server)@.version_comment,
                old(server)@.default_database,
            ),
            final(server)@ == (ServerState {
                next_connection_id: old(server)@.next_connection_id.wrapping_add(1),
                ..old(server)@
            }),
    {
        let id = server.next_connection_id;
        server.next_connection_id = id.wrapping_add(1);
        let db = match &server.default_database {
            Some(d) => Some(d.clone()),
            None => None,
        };
        Session::open(
            id,
            self.config.translator,
            server.version.clone(),
            server.version_comment.clone(),
            db,
        )
    }
}

/// What the sessions of a server share.
#[derive(Debug)]
pub struct Server {
    pub next_connection_id: u32,
    /// The connections that were killed and have not noticed yet.
    pub killed: HashSet<u32>,
    /// The database of sessions that select none.
    pub default_database: Option<String>,
    pub version: String,
    pub version_comment: String,
}

/// The mathematical counterpart of [`Server`].
pub struct ServerState {
    pub next_connection_id: u32,
    pub killed: Set<u32>,
    pub default_database: Option<Seq<char>>,
    pub version: Seq<char>,
    pub version_comment: Seq<char>,
}

impl View for Server {
    type V = ServerState;

    open spec fn view(&self) -> ServerState {
        ServerState {
            next_connection_id: self.next_connection_id,
            killed: self.killed@,
            default_database: opt_text(self.default_database),
            version: self.version@,
            version_comment: self.version_comment@,
        }
    }
}

/// The server after a connection was killed.
pub open spec fn after_kill(s: ServerState, connection_id: u32) -> ServerState {
    ServerState { killed: s.killed.insert(connection_id), ..s }
}

/// The server after a connection asked whether it was killed.
pub open spec fn after_check(s: ServerState, connection_id: u32) -> ServerState {
    ServerState { killed: s.killed.remove(connection_id), ..s }
}

/// The server after a database was selected, or none.
pub open spec fn after_select(s: ServerState, name: Option<Seq<char>>) -> ServerState {
    ServerState {
        default_database: match name {
            Some(d) => if trimmed(d).len() == 0 {
                None
            } else {
                Some(trimmed(d))
            },
            None => None,
        },
        ..s
    }
}

/// The server after a database was dropped.
pub open spec fn after_drop(s: ServerState, name: Seq<char>) -> ServerState {
    ServerState {
        default_database: if s.default_database == Some(name) {
            None
        } else {
            s.default_database
        },
        ..s
    }
}

impl Server {
    /// A server without connections that reports this version.
    pub fn new(version: String, version_comment: String) -> (r: Self)
        ensures
            r@ == (ServerState {
                next_connection_id: 9,
                killed: Set::empty(),
                default_database: None,
                version: version@,
                version_comment: version_comment@,
            }),
    {
        Server { next_connection_id: 9, killed: HashSet::new(), default_database: None, version, version_comment }
    }

    /// Marks a connection as killed.
    pub fn kill_connection(&mut self, connection_id: u32)
        ensures
            final(self)@ == after_kill(old(self)@, connection_id),
    {
        self.killed.insert(connection_id);
    }

    /// Fails once for a connection that was killed.
    pub fn abort_if_connection_killed(&mut self, connection_id: u32) -> (r: Result<(), MySqlServerError>)
        ensures
            r is Err <==> old(self)@.killed.contains(connection_id),
            r matches Err(e) ==> e matches MySqlServerError::Io(m) && m@ == "MySQL server has gone away"@,
            final(self)@ == after_check(old(self)@, connection_id),
    {
        let ghost before = self.killed@;
        if self.killed.remove(&connection_id) {
            return Err(MySqlServerError::Io("MySQL server has gone away".to_string()));
        }
        assert(before.remove(connection_id) =~= before);
        Ok(())
    }

    /// Sets the database of sessions that select none; none for a blank name.
    pub fn set_default_database_name(&mut self, db_name: &Option<String>)
        ensures
            final(self)@ == after_select(old(self)@, opt_text(*db_name)),
    {
        match db_name {
            Some(d) => {
                let name = trim(d.as_str());
                if name.as_str().is_empty() {
                    self.default_database = None;
                } else {
                    self.default_database = Some(name);
                }
            },
            None => {
                self.default_database = None;
            },
        }
    }

    /// Forgets the database of sessions that select none, where it is this one.
    pub fn clear_default_database_name_if_matches(&mut self, db_name: &str)
        ensures
            final(self)@ == after_drop(old(self)@, db_name@),
    {
        let matches = match &self.default_database {
            Some(d) => same(d.as_str(), db_name),
            None => false,
        };
        if matches {
            self.default_database = None;
        }
    }
}

/// A killed connection aborts once, and no other connection is touched by that.
pub proof fn killed_connections_abort_once(s: ServerState, connection_id: u32, other: u32)
    ensures
        after_kill(s, connection_id).killed.contains(connection_id),
        !after_check(after_kill(s, connection_id), connection_id).killed.contains(connection_id),
        other != connection_id ==> after_check(after_kill(s, connection_id), connection_id).killed.contains(other)
            == s.killed.contains(other),
{
}

/// A database that was selected is not the default any more once it was dropped.
pub proof fn dropped_databases_are_not_defaults(s: ServerState, name: Seq<char>)
    ensures
        after_drop(after_select(s, Some(name)), trimmed(name)).default_database is None,
{
}

} // verus!
