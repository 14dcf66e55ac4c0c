//! The execution of one statement: what is asked of the database, one step after the
//! other, and what its answers lead to.
use vstd::prelude::*;

use crate::error::{Failure, MiddlewareError};
use crate::executor::{
    can_be_counted, captured_result, counted, failure_parts, first_step, format_pg_error,
    identity_step, plan_statement, plan_with_identity, returns_rows, row_views, rows_result,
    search_path_sql, search_path_statement, statement_returns_rows, summed_result, total,
    ColumnKind, DbFailure, FieldValue, QueryResult, ResultView, Step, StepKind,
};
use crate::repair::{
    coerced_insert, conflict_move, controls_transaction, default_move, failure_move, key_repair,
    repairs_under_savepoint, type_repair, Repair, RepairAction, RepairMove, RepairState,
    MAX_COMPAT_REPAIR_ATTEMPTS,
};
use crate::scan::{split_sql_statements, statements_in};
use crate::text::{
    begins, cat3, joined, opt_text, same, starts_with, texts, to_upper, trim_start, trimmed_start,
    uppered,
};

verus! {

/// How a statement is executed.
#[derive(Debug, Clone, Copy, PartialEq, Eq, Structural)]
pub enum Mode {
    /// As a text.
    Text,
    /// Prepared, with parameters.
    Bound,
    /// As a text, for its columns alone.
    Describe,
    /// Prepared, for its columns alone.
    DescribePrepared,
}

/// What of an execution can fail.
#[derive(Debug, Clone, Copy, PartialEq, Eq, Structural)]
pub enum Part {
    Selection,
    Savepoint,
    Preparation,
    Description,
    PreparedDescription,
    IdentityLookUp,
    Query,
    Statement,
}

/// How a failure of a part is introduced.
pub open spec fn part_text(part: Part) -> Seq<char> {
    match part {
        Part::Selection => "failed to set schema"@,
        Part::Savepoint => "savepoint failed"@,
        Part::Preparation => "statement preparation failed"@,
        Part::Description => "query description failed"@,
        Part::PreparedDescription => "statement description failed"@,
        Part::IdentityLookUp => "identity column lookup failed"@,
        Part::Query => "query failed"@,
        Part::Statement => "statement failed"@,
    }
}

fn text_of_part(part: Part) -> (r: &'static str)
    ensures
        r@ == part_text(part),
{
    match part {
        Part::Selection => "failed to set schema",
        Part::Savepoint => "savepoint failed",
        Part::Preparation => "statement preparation failed",
        Part::Description => "query description failed",
        Part::PreparedDescription => "statement description failed",
        Part::IdentityLookUp => "identity column lookup failed",
        Part::Query => "query failed",
        Part::Statement => "statement failed",
    }
}

/// What an execution waits for.
#[derive(Debug)]
pub enum Phase {
    Selecting,
    Marking,
    Preparing,
    /// The statement that captures an insert id is prepared.
    PreparingCapture(String),
    Describing,
    DescribingPrepared,
    Identifying,
    Capturing,
    Querying,
    Running,
    Keeping(QueryResult),
    Undoing(Part, DbFailure),
    Installing(Part, DbFailure),
    FindingKey(Part, DbFailure),
    FindingType(Part, DbFailure),
    FindingTypes(Part, DbFailure),
    Over,
}

/// The mathematical counterpart of [`Phase`].
pub enum Stage {
    Selecting,
    Marking,
    Preparing,
    PreparingCapture(Seq<char>),
    Describing,
    DescribingPrepared,
    Identifying,
    Capturing,
    Querying,
    Running,
    Keeping(ResultView),
    Undoing(Part, DbFailure),
    Installing(Part, DbFailure),
    FindingKey(Part, DbFailure),
    FindingType(Part, DbFailure),
    FindingTypes(Part, DbFailure),
    Over,
}

impl View for Phase {
    type V = Stage;

    open spec fn view(&self) -> Stage {
        match *self {
            Phase::Selecting => Stage::Selecting,
            Phase::Marking => Stage::Marking,
            Phase::Preparing => Stage::Preparing,
            Phase::PreparingCapture(sql) => Stage::PreparingCapture(sql@),
            Phase::Describing => Stage::Describing,
            Phase::DescribingPrepared => Stage::DescribingPrepared,
            Phase::Identifying => Stage::Identifying,
            Phase::Capturing => Stage::Capturing,
            Phase::Querying => Stage::Querying,
            Phase::Running => Stage::Running,
            Phase::Keeping(r) => Stage::Keeping(r@),
            Phase::Undoing(p, e) => Stage::Undoing(p, e),
            Phase::Installing(p, e) => Stage::Installing(p, e),
            Phase::FindingKey(p, e) => Stage::FindingKey(p, e),
            Phase::FindingType(p, e) => Stage::FindingType(p, e),
            Phase::FindingTypes(p, e) => Stage::FindingTypes(p, e),
            Phase::Over => Stage::Over,
        }
    }
}

/// What is asked of the database next.
#[derive(Debug)]
pub enum Action {
    /// Run this statement, which selects the schema.
    Select(String),
    /// Run this statement, for nothing but its success.
    Batch(String),
    /// Prepare this statement, and keep it.
    Prepare(String),
    /// Run this statement and return its rows.
    Query(String),
    /// Run this statement and return the names of its columns.
    Describe(String),
    /// Prepare this statement and return the names of its columns.
    DescribePrepared(String),
    /// Look up the identity column of this table.
    LookUpIdentity(String),
    /// Run this statement, which returns a row count and an insert id.
    Capture(String),
    /// Run this statement and return the number of affected rows.
    Run(String),
    /// Create this function.
    Install(String),
    /// Look up the columns of the primary key of this table.
    LookUpKey(String),
    /// Look up the type of this column of this table.
    LookUpType(String, String),
    /// Look up the types of these columns of this table.
    LookUpTypes(String, Vec<String>),
    /// The execution is over.
    Finish(Result<QueryResult, MiddlewareError>),
}

/// The mathematical counterpart of [`Action`].
pub enum Request {
    Select(Seq<char>),
    Batch(Seq<char>),
    Prepare(Seq<char>),
    Query(Seq<char>),
    Describe(Seq<char>),
    DescribePrepared(Seq<char>),
    LookUpIdentity(Seq<char>),
    Capture(Seq<char>),
    Run(Seq<char>),
    Install(Seq<char>),
    LookUpKey(Seq<char>),
    LookUpType(Seq<char>, Seq<char>),
    LookUpTypes(Seq<char>, Seq<Seq<char>>),
    Finish(Result<ResultView, Failure>),
}

/// The view of a result or an error.
pub open spec fn finished_view(r: Result<QueryResult, MiddlewareError>) -> Result<ResultView, Failure> {
    match r {
        Ok(q) => Ok(q@),
        Err(e) => Err(e@),
    }
}

impl View for Action {
    type V = Request;

    open spec fn view(&self) -> Request {
        match *self {
            Action::Select(s) => Request::Select(s@),
            Action::Batch(s) => Request::Batch(s@),
            Action::Prepare(s) => Request::Prepare(s@),
            Action::Query(s) => Request::Query(s@),
            Action::Describe(s) => Request::Describe(s@),
            Action::DescribePrepared(s) => Request::DescribePrepared(s@),
            Action::LookUpIdentity(t) => Request::LookUpIdentity(t@),
            Action::Capture(s) => Request::Capture(s@),
            Action::Run(s) => Request::Run(s@),
            Action::Install(n) => Request::Install(n@),
            Action::LookUpKey(t) => Request::LookUpKey(t@),
            Action::LookUpType(t, c) => Request::LookUpType(t@, c@),
            Action::LookUpTypes(t, c) => Request::LookUpTypes(t@, texts(c@)),
            Action::Finish(r) => Request::Finish(finished_view(r)),
        }
    }
}

/// What came of what was asked.
#[derive(Debug)]
pub enum Event {
    /// It was done.
    Done,
    /// The statement was prepared; it returns rows or not.
    Prepared(bool),
    /// The identity column of the table, where it has one.
    Identity(Option<String>),
    /// The rows of a query, under the names and the kinds of its columns.
    Rows(Vec<String>, Vec<ColumnKind>, Vec<Vec<Option<FieldValue>>>),
    /// The names of the columns.
    Columns(Vec<String>),
    /// A row count and an insert id.
    Captured(i64, i64),
    /// How many rows each of the statements affected.
    Affected(Vec<u64>),
    /// The database refused it.
    Refused(DbFailure),
    /// It failed otherwise.
    Broken(String),
    /// The function was created or not.
    Installed(bool),
    /// The columns of the primary key.
    Key(Vec<String>),
    /// The type of the column, where it was found.
    Type(Option<String>),
    /// The types of the columns.
    Types(Vec<String>),
}

/// The mathematical counterpart of [`Event`].
pub enum Answer {
    Done,
    Prepared(bool),
    Identity(Option<Seq<char>>),
    Rows(Seq<Seq<char>>, Seq<ColumnKind>, Seq<Seq<Option<Seq<u8>>>>),
    Columns(Seq<Seq<char>>),
    Captured(i64, i64),
    Affected(Seq<u64>),
    Refused(DbFailure),
    Broken(Seq<char>),
    Installed(bool),
    Key(Seq<Seq<char>>),
    Type(Option<Seq<char>>),
    Types(Seq<Seq<char>>),
}

impl View for Event {
    type V = Answer;

    open spec fn view(&self) -> Answer {
        match *self {
            Event::Done => Answer::Done,
            Event::Prepared(rows) => Answer::Prepared(rows),
            Event::Identity(c) => Answer::Identity(opt_text(c)),
            Event::Rows(c, k, r) => Answer::Rows(texts(c@), k@, row_views(r@)),
            Event::Columns(c) => Answer::Columns(texts(c@)),
            Event::Captured(n, id) => Answer::Captured(n, id),
            Event::Affected(n) => Answer::Affected(n@),
            Event::Refused(e) => Answer::Refused(e),
            Event::Broken(m) => Answer::Broken(m@),
            Event::Installed(b) => Answer::Installed(b),
            Event::Key(c) => Answer::Key(texts(c@)),
            Event::Type(t) => Answer::Type(opt_text(t)),
            Event::Types(t) => Answer::Types(texts(t@)),
        }
    }
}

/// A statement that is executed.
#[derive(Debug)]
pub struct Execution {
    pub repair: Repair,
    pub mode: Mode,
    /// Whether the statement returns rows.
    pub reads: bool,
    /// Whether every attempt runs under a savepoint.
    pub guarded: bool,
    pub phase: Phase,
}

/// The mathematical counterpart of [`Execution`].
pub struct Progress {
    pub repair: RepairState,
    pub mode: Mode,
    pub reads: bool,
    pub guarded: bool,
    pub stage: Stage,
}

impl View for Execution {
    type V = Progress;

    open spec fn view(&self) -> Progress {
        Progress {
            repair: self.repair@,
            mode: self.mode,
            reads: self.reads,
            guarded: self.guarded,
            stage: self.phase@,
        }
    }
}

/// An execution that asks for something and waits.
pub open spec fn waiting(s: Progress, stage: Stage, request: Request) -> (Progress, Request) {
    (Progress { stage, ..s }, request)
}

/// An execution that is over.
pub open spec fn over(s: Progress, r: Result<ResultView, Failure>) -> (Progress, Request) {
    waiting(s, Stage::Over, Request::Finish(r))
}

/// An execution that failed in a part.
pub open spec fn failed(s: Progress, part: Part, message: Seq<char>) -> (Progress, Request) {
    over(s, Err(Failure::Execution(part_text(part) + ": "@ + message)))
}

/// The text of an error that the database reported.
pub open spec fn refusal_text(e: DbFailure) -> Seq<char> {
    joined(failure_parts(&e), " | "@)
}

/// What a step of the plan asks for. A prepared statement that captures an insert id is
/// prepared first.
pub open spec fn planned(s: Progress, step: StepKind) -> (Progress, Request) {
    match step {
        StepKind::Query => waiting(s, Stage::Querying, Request::Query(s.repair.sql)),
        StepKind::LookUpIdentity(table) => waiting(s, Stage::Identifying, Request::LookUpIdentity(table)),
        StepKind::Capture(sql) => if s.mode == Mode::Bound {
            waiting(s, Stage::PreparingCapture(sql), Request::Prepare(sql))
        } else {
            waiting(s, Stage::Capturing, Request::Capture(sql))
        },
        StepKind::Run => waiting(s, Stage::Running, Request::Run(s.repair.sql)),
    }
}

/// The start of an attempt.
pub open spec fn attempted(s: Progress) -> (Progress, Request) {
    match s.mode {
        Mode::Text => planned(s, first_step(s.repair.sql, s.reads)),
        Mode::Bound => waiting(s, Stage::Preparing, Request::Prepare(s.repair.sql)),
        Mode::Describe => waiting(s, Stage::Describing, Request::Describe(s.repair.sql)),
        Mode::DescribePrepared => waiting(s, Stage::DescribingPrepared, Request::DescribePrepared(s.repair.sql)),
    }
}

pub const MARK: &'static str = "SAVEPOINT mw_repair";

pub const KEEP: &'static str = "RELEASE SAVEPOINT mw_repair";

pub const UNDO: &'static str = "ROLLBACK TO SAVEPOINT mw_repair";

/// The start of an attempt, under a savepoint where there has to be one.
pub open spec fn marked(s: Progress) -> (Progress, Request) {
    if s.guarded {
        waiting(s, Stage::Marking, Request::Batch(MARK@))
    } else {
        attempted(s)
    }
}

/// An attempt that succeeded.
pub open spec fn succeeded(s: Progress, r: ResultView) -> (Progress, Request) {
    if s.guarded {
        waiting(s, Stage::Keeping(r), Request::Batch(KEEP@))
    } else {
        over(s, Ok(r))
    }
}

/// What a repair asks for.
pub open spec fn repairing(s: Progress, part: Part, e: DbFailure, m: RepairMove) -> (Progress, Request) {
    match m {
        RepairMove::Install(name) => waiting(s, Stage::Installing(part, e), Request::Install(name)),
        RepairMove::LookUpKey(table) => waiting(s, Stage::FindingKey(part, e), Request::LookUpKey(table)),
        RepairMove::LookUpType(table, column) => waiting(
            s,
            Stage::FindingType(part, e),
            Request::LookUpType(table, column),
        ),
        RepairMove::LookUpTypes(table, columns) => waiting(
            s,
            Stage::FindingTypes(part, e),
            Request::LookUpTypes(table, columns),
        ),
        RepairMove::Retry => marked(s),
        RepairMove::GiveUp => failed(s, part, refusal_text(e)),
    }
}

/// One more failure, as long as failures are repaired.
pub open spec fn counted_failure(s: RepairState) -> RepairState {
    RepairState {
        attempts: if s.attempts < MAX_COMPAT_REPAIR_ATTEMPTS {
            s.attempts + 1
        } else {
            s.attempts
        },
        ..s
    }
}

/// What is done first about a failure.
pub open spec fn reacted(s: Progress, part: Part, e: DbFailure) -> (Progress, Request) {
    repairing(
        Progress { repair: counted_failure(s.repair), ..s },
        part,
        e,
        failure_move(s.repair, &e),
    )
}

/// An attempt that the database refused: the savepoint is returned to before anything
/// else is asked.
pub open spec fn refused(s: Progress, part: Part, e: DbFailure) -> (Progress, Request) {
    if s.guarded {
        waiting(s, Stage::Undoing(part, e), Request::Batch(UNDO@))
    } else {
        reacted(s, part, e)
    }
}

/// A statement that was repaired, or else the next move.
pub open spec fn repaired_or(
    s: Progress,
    part: Part,
    e: DbFailure,
    sql: Option<Seq<char>>,
    otherwise: RepairMove,
) -> (Progress, Request) {
    match sql {
        Some(sql) => repairing(
            Progress { repair: RepairState { sql, ..s.repair }, ..s },
            part,
            e,
            RepairMove::Retry,
        ),
        None => repairing(s, part, e, otherwise),
    }
}

/// The part of an attempt that a stage waits for.
pub open spec fn attempt_part(stage: Stage) -> Option<Part> {
    match stage {
        Stage::Preparing => Some(Part::Preparation),
        Stage::PreparingCapture(_) => Some(Part::Preparation),
        Stage::Describing => Some(Part::Description),
        Stage::DescribingPrepared => Some(Part::PreparedDescription),
        Stage::Capturing => Some(Part::Statement),
        Stage::Querying => Some(Part::Query),
        Stage::Running => Some(Part::Statement),
        _ => None,
    }
}

/// The part around an attempt that a stage waits for: where it fails, so does the
/// execution.
pub open spec fn outer_part(stage: Stage) -> Option<Part> {
    match stage {
        Stage::Selecting => Some(Part::Selection),
        Stage::Marking => Some(Part::Savepoint),
        Stage::Identifying => Some(Part::IdentityLookUp),
        Stage::Keeping(_) => Some(Part::Savepoint),
        _ => None,
    }
}

/// What a failure leads to.
pub open spec fn after_trouble(s: Progress, e: Answer) -> (Progress, Request) {
    match (s.stage, e) {
        (Stage::Undoing(part, f), _) => failed(s, part, refusal_text(f)),
        (_, Answer::Refused(f)) => if attempt_part(s.stage) is Some {
            refused(s, attempt_part(s.stage)->Some_0, f)
        } else if outer_part(s.stage) is Some {
            failed(s, outer_part(s.stage)->Some_0, refusal_text(f))
        } else {
            over(s, Err(Failure::Execution(UNEXPECTED@)))
        },
        (_, Answer::Broken(m)) => if attempt_part(s.stage) is Some {
            failed(s, attempt_part(s.stage)->Some_0, m)
        } else if outer_part(s.stage) is Some {
            failed(s, outer_part(s.stage)->Some_0, m)
        } else {
            over(s, Err(Failure::Execution(UNEXPECTED@)))
        },
        _ => over(s, Err(Failure::Execution(UNEXPECTED@))),
    }
}

/// The SQLSTATE of a statement in a transaction that an error has aborted.
pub const ABORTED_TRANSACTION: &'static str = "25P02";

/// The SQLSTATE of a savepoint outside a transaction.
pub const NO_TRANSACTION: &'static str = "25P01";

pub const TOO_MANY_ROWS: &'static str = "too many affected rows to count";

pub const UNEVEN_ROWS: &'static str = "a row has not as many values as there are columns";

/// Whether there is a kind for every column, and in every row a value.
pub open spec fn is_even(
    columns: Seq<Seq<char>>,
    kinds: Seq<ColumnKind>,
    rows: Seq<Seq<Option<Seq<u8>>>>,
) -> bool {
    kinds.len() == columns.len() && forall|i: int| 0 <= i < rows.len() ==> (#[trigger] rows[i]).len() == columns.len()
}

/// A result with rows.
pub open spec fn rows_view(
    columns: Seq<Seq<char>>,
    kinds: Seq<ColumnKind>,
    rows: Seq<Seq<Option<Seq<u8>>>>,
) -> ResultView {
    ResultView { columns, kinds, rows, row_count: rows.len(), last_insert_id: 0 }
}

/// A result without rows.
pub open spec fn summary_view(row_count: nat, last_insert_id: nat) -> ResultView {
    ResultView {
        columns: Seq::empty(),
        kinds: Seq::empty(),
        rows: Seq::empty(),
        row_count,
        last_insert_id,
    }
}

pub const UNEXPECTED: &'static str = "an answer came that was not asked for";

/// What an answer leads to while a refused statement is undone or repaired.
pub open spec fn after_repair(s: Progress, e: Answer) -> (Progress, Request) {
    match (s.stage, e) {
        (Stage::Undoing(part, f), Answer::Done) => reacted(s, part, f),
        (Stage::Installing(part, f), Answer::Installed(installed)) => repairing(
            s,
            part,
            f,
            if installed {
                RepairMove::Retry
            } else {
                conflict_move(s.repair, &f)
            },
        ),
        (Stage::FindingKey(part, f), Answer::Key(columns)) => repaired_or(
            s,
            part,
            f,
            key_repair(s.repair, columns),
            default_move(s.repair, &f),
        ),
        (Stage::FindingType(part, f), Answer::Type(t)) => repaired_or(
            s,
            part,
            f,
            type_repair(s.repair, &f, t),
            RepairMove::GiveUp,
        ),
        (Stage::FindingTypes(part, f), Answer::Types(types)) => repaired_or(
            s,
            part,
            f,
            coerced_insert(s.repair.sql, types),
            RepairMove::GiveUp,
        ),
        _ => after_trouble(s, e),
    }
}

/// What an answer leads to.
pub open spec fn after(s: Progress, e: Answer) -> (Progress, Request) {
    match (s.stage, e) {
        (Stage::Selecting, Answer::Done) => marked(s),
        (Stage::Marking, Answer::Done) => attempted(s),
        (Stage::Marking, Answer::Refused(f)) => if f.code@ == NO_TRANSACTION@ {
            attempted(Progress { guarded: false, ..s })
        } else {
            failed(s, Part::Savepoint, refusal_text(f))
        },
        (Stage::Preparing, Answer::Prepared(rows)) => planned(
            Progress { reads: rows, ..s },
            first_step(s.repair.sql, rows),
        ),
        (Stage::PreparingCapture(sql), Answer::Prepared(_)) => waiting(s, Stage::Capturing, Request::Capture(sql)),
        (Stage::Identifying, Answer::Identity(column)) => planned(s, identity_step(s.repair.sql, column)),
        (Stage::Selecting, Answer::Refused(f)) => if f.code@ == ABORTED_TRANSACTION@ {
            attempted(Progress { guarded: false, ..s })
        } else {
            failed(s, Part::Selection, refusal_text(f))
        },
        (Stage::Describing | Stage::DescribingPrepared, Answer::Columns(columns)) => succeeded(
            s,
            rows_view(columns, Seq::empty(), Seq::empty()),
        ),
        (Stage::Querying, Answer::Rows(columns, kinds, rows)) => if is_even(columns, kinds, rows) {
            succeeded(s, rows_view(columns, kinds, rows))
        } else {
            failed(s, Part::Query, UNEVEN_ROWS@)
        },
        (Stage::Capturing, Answer::Captured(n, id)) => succeeded(
            s,
            summary_view(counted(n) as nat, counted(id) as nat),
        ),
        (Stage::Running, Answer::Affected(counts)) => if total(counts, counts.len() as int) <= u64::MAX {
            succeeded(s, summary_view(total(counts, counts.len() as int), 0))
        } else {
            failed(s, Part::Statement, TOO_MANY_ROWS@)
        },
        (Stage::Keeping(r), Answer::Done) => over(s, Ok(r)),
        _ => after_repair(s, e),
    }
}

/// Whether a statement of a mode is supplied with MySQL's implicit defaults: any but a
/// text that returns rows.
pub open spec fn supplies_defaults(mode: Mode, sql: Seq<char>) -> bool {
    !(mode == Mode::Text && returns_rows(sql))
}

/// The statement that selects a schema, unless the connection has it selected.
pub open spec fn selection(schema: Option<Seq<char>>, selected: Option<Seq<char>>) -> Option<Seq<char>> {
    if schema == selected {
        None
    } else {
        search_path_sql(schema)
    }
}

/// Whether a statement ends a transaction or goes back in it.
pub open spec fn undoes_selection(sql: Seq<char>) -> bool {
    let q = uppered(trimmed_start(sql));
    begins(q, "COMMIT"@) || begins(q, "ROLLBACK"@)
}

/// Whether a connection has its schema still selected after a text: the end of a transaction
/// can undo what was selected within it.
pub fn keeps_selection(sql: &str) -> (r: bool)
    ensures
        r == (forall|i: int|
            0 <= i < statements_in(sql@).len() ==> !undoes_selection(#[trigger] statements_in(sql@)[i])),
{
    let list = split_sql_statements(sql);
    let mut i: usize = 0;
    while i < list.len()
        invariant
            i <= list@.len(),
            texts(list@) == statements_in(sql@),
            forall|j: int| 0 <= j < i ==> !undoes_selection(#[trigger] texts(list@)[j]),
        decreases list.len() - i,
    {
        let start = trim_start(list[i].as_str());
        let upper = to_upper(start.as_str());
        if starts_with(upper.as_str(), "COMMIT") || starts_with(upper.as_str(), "ROLLBACK") {
            assert(undoes_selection(texts(list@)[i as int]));
            return false;
        }
        i = i + 1;
    }
    assert(texts(list@).len() == list@.len());
    true
}

/// The start of an execution: its schema is selected first, where the connection has
/// another one.
pub open spec fn started(
    schema: Option<Seq<char>>,
    selected: Option<Seq<char>>,
    sql: Seq<char>,
    mode: Mode,
    in_transaction: bool,
) -> (Progress, Request) {
    let s = Progress {
        repair: RepairState { sql, attempts: 0, defaults: supplies_defaults(mode, sql) },
        mode,
        reads: returns_rows(sql),
        guarded: in_transaction && !controls_transaction(sql),
        stage: Stage::Selecting,
    };
    match selection(schema, selected) {
        Some(statement) => waiting(s, Stage::Selecting, Request::Select(statement)),
        None => marked(s),
    }
}

/// Whether a result is what an execution is for: rows, each as wide as there are columns
/// and all of them counted; or a count without rows; or columns alone.
pub open spec fn has_shape(s: Progress, r: ResultView) -> bool {
    match s.mode {
        Mode::Text | Mode::Bound => if s.reads {
            is_even(r.columns, r.kinds, r.rows) && r.row_count == r.rows.len() && r.last_insert_id == 0
        } else {
            r.columns.len() == 0 && r.kinds.len() == 0 && r.rows.len() == 0
        },
        _ => r.kinds.len() == 0 && r.rows.len() == 0 && r.row_count == 0 && r.last_insert_id == 0,
    }
}

/// Whether an execution waits for what its mode and its statement can lead to.
pub open spec fn is_apt(s: Progress) -> bool {
    let executes = s.mode == Mode::Text || s.mode == Mode::Bound;
    match s.stage {
        Stage::Preparing => s.mode == Mode::Bound,
        Stage::PreparingCapture(_) => executes && !s.reads,
        Stage::Identifying => executes && !s.reads,
        Stage::Capturing => executes && !s.reads,
        Stage::Running => executes && !s.reads,
        Stage::Querying => executes && s.reads,
        Stage::Describing => !executes,
        Stage::DescribingPrepared => !executes,
        Stage::Keeping(r) => has_shape(s, r),
        _ => true,
    }
}

impl Execution {
    /// Whether no more failures were counted than are repaired, and the execution waits for
    /// what it can lead to.
    pub open spec fn sound(self) -> bool {
        self.repair.attempts <= MAX_COMPAT_REPAIR_ATTEMPTS && is_apt(self@)
    }

    /// Whether no more failures were counted than are repaired.
    pub open spec fn bounded(self) -> bool {
        self.repair.attempts <= MAX_COMPAT_REPAIR_ATTEMPTS
    }

    fn wait(self, phase: Phase, action: Action) -> (r: (Execution, Action))
        requires
            self.bounded(),
        ensures
            (r.0@, r.1@) == waiting(self@, phase@, action@),
            r.0.bounded(),
    {
        (
            Execution { repair: self.repair, mode: self.mode, reads: self.reads, guarded: self.guarded, phase },
            action,
        )
    }

    fn end(self, result: Result<QueryResult, MiddlewareError>) -> (r: (Execution, Action))
        requires
            self.bounded(),
        ensures
            (r.0@, r.1@) == over(self@, finished_view(result)),
            r.0.bounded(),
    {
        self.wait(Phase::Over, Action::Finish(result))
    }

    fn fail(self, part: Part, message: &str) -> (r: (Execution, Action))
        requires
            self.bounded(),
        ensures
            (r.0@, r.1@) == failed(self@, part, message@),
            r.0.bounded(),
    {
        self.end(Err(MiddlewareError::Execution(cat3(text_of_part(part), ": ", message))))
    }

    fn go(self, step: Step) -> (r: (Execution, Action))
        requires
            self.bounded(),
        ensures
            (r.0@, r.1@) == planned(self@, step@),
            r.0.bounded(),
    {
        match step {
            Step::Query => {
                let sql = self.repair.sql.clone();
                self.wait(Phase::Querying, Action::Query(sql))
            },
            Step::LookUpIdentity(table) => self.wait(Phase::Identifying, Action::LookUpIdentity(table)),
            Step::Capture(sql) => if self.mode == Mode::Bound {
                let copy = sql.clone();
                self.wait(Phase::PreparingCapture(copy), Action::Prepare(sql))
            } else {
                self.wait(Phase::Capturing, Action::Capture(sql))
            },
            Step::Run => {
                let sql = self.repair.sql.clone();
                self.wait(Phase::Running, Action::Run(sql))
            },
        }
    }

    fn attempt(self) -> (r: (Execution, Action))
        requires
            self.bounded(),
        ensures
            (r.0@, r.1@) == attempted(self@),
            r.0.bounded(),
    {
        let sql = self.repair.sql.clone();
        match self.mode {
            Mode::Text => {
                let rows = self.reads;
                self.go(plan_statement(sql.as_str(), rows))
            },
            Mode::Bound => self.wait(Phase::Preparing, Action::Prepare(sql)),
            Mode::Describe => self.wait(Phase::Describing, Action::Describe(sql)),
            Mode::DescribePrepared => self.wait(Phase::DescribingPrepared, Action::DescribePrepared(sql)),
        }
    }

    fn mark(self) -> (r: (Execution, Action))
        requires
            self.bounded(),
        ensures
            (r.0@, r.1@) == marked(self@),
            r.0.bounded(),
    {
        if self.guarded {
            self.wait(Phase::Marking, Action::Batch(MARK.to_string()))
        } else {
            self.attempt()
        }
    }

    fn succeed(self, result: QueryResult) -> (r: (Execution, Action))
        requires
            self.bounded(),
        ensures
            (r.0@, r.1@) == succeeded(self@, result@),
            r.0.bounded(),
    {
        if self.guarded {
            self.wait(Phase::Keeping(result), Action::Batch(KEEP.to_string()))
        } else {
            self.end(Ok(result))
        }
    }

    fn follow(self, part: Part, e: DbFailure, action: RepairAction) -> (r: (Execution, Action))
        requires
            self.bounded(),
        ensures
            (r.0@, r.1@) == repairing(self@, part, e, action@),
            r.0.bounded(),
    {
        match action {
            RepairAction::Install(name) => self.wait(Phase::Installing(part, e), Action::Install(name)),
            RepairAction::LookUpKey(table) => self.wait(Phase::FindingKey(part, e), Action::LookUpKey(table)),
            RepairAction::LookUpType(table, column) => self.wait(
                Phase::FindingType(part, e),
                Action::LookUpType(table, column),
            ),
            RepairAction::LookUpTypes(table, columns) => self.wait(
                Phase::FindingTypes(part, e),
                Action::LookUpTypes(table, columns),
            ),
            RepairAction::Retry => self.mark(),
            RepairAction::GiveUp => {
                let message = format_pg_error(&e);
                self.fail(part, message.as_str())
            },
        }
    }

    fn react(self, part: Part, e: DbFailure) -> (r: (Execution, Action))
        requires
            self.bounded(),
        ensures
            (r.0@, r.1@) == reacted(self@, part, e),
            r.0.bounded(),
    {
        let mut repair = self.repair;
        let action = repair.on_failure(&e);
        let next = Execution {
            repair,
            mode: self.mode,
            reads: self.reads,
            guarded: self.guarded,
            phase: self.phase,
        };
        assert(next@.repair == counted_failure(self@.repair));
        next.follow(part, e, action)
    }

    fn refuse(self, part: Part, e: DbFailure) -> (r: (Execution, Action))
        requires
            self.bounded(),
        ensures
            (r.0@, r.1@) == refused(self@, part, e),
            r.0.bounded(),
    {
        if self.guarded {
            self.wait(Phase::Undoing(part, e), Action::Batch(UNDO.to_string()))
        } else {
            self.react(part, e)
        }
    }

    fn part_of_attempt(&self) -> (r: Option<Part>)
        ensures
            r == attempt_part(self@.stage),
    {
        match &self.phase {
            Phase::Preparing => Some(Part::Preparation),
            Phase::PreparingCapture(_) => Some(Part::Preparation),
            Phase::Describing => Some(Part::Description),
            Phase::DescribingPrepared => Some(Part::PreparedDescription),
            Phase::Capturing => Some(Part::Statement),
            Phase::Querying => Some(Part::Query),
            Phase::Running => Some(Part::Statement),
            _ => None,
        }
    }

    fn part_around(&self) -> (r: Option<Part>)
        ensures
            r == outer_part(self@.stage),
    {
        match &self.phase {
            Phase::Selecting => Some(Part::Selection),
            Phase::Marking => Some(Part::Savepoint),
            Phase::Identifying => Some(Part::IdentityLookUp),
            Phase::Keeping(_) => Some(Part::Savepoint),
            _ => None,
        }
    }

    fn give_up(self) -> (r: (Execution, Action))
        requires
            self.bounded(),
        ensures
            (r.0@, r.1@) == over(self@, Err(Failure::Execution(UNEXPECTED@))),
            r.0.bounded(),
    {
        self.end(Err(MiddlewareError::Execution(UNEXPECTED.to_string())))
    }

    fn on_trouble(self, event: Event) -> (r: (Execution, Action))
        requires
            self.bounded(),
        ensures
            (r.0@, r.1@) == after_trouble(self@, event@),
            r.0.bounded(),
    {
        let undone = match &self.phase {
            Phase::Undoing(part, f) => Some((*part, format_pg_error(f))),
            _ => None,
        };
        match undone {
            Some((part, message)) => return self.fail(part, message.as_str()),
            None => {},
        }
        let attempt = self.part_of_attempt();
        let around = self.part_around();
        match event {
            Event::Refused(f) => match (attempt, around) {
                (Some(part), _) => self.refuse(part, f),
                (None, Some(part)) => {
                    let message = format_pg_error(&f);
                    self.fail(part, message.as_str())
                },
                (None, None) => self.give_up(),
            },
            Event::Broken(m) => match (attempt, around) {
                (Some(part), _) => self.fail(part, m.as_str()),
                (None, Some(part)) => self.fail(part, m.as_str()),
                (None, None) => self.give_up(),
            },
            _ => self.give_up(),
        }
    }

    fn again(self, guarded: bool) -> (r: (Execution, Action))
        requires
            self.bounded(),
        ensures
            (r.0@, r.1@) == attempted(Progress { guarded, ..self@ }),
            r.0.bounded(),
    {
        let next = Execution { repair: self.repair, mode: self.mode, reads: self.reads, guarded, phase: self.phase };
        next.attempt()
    }

    fn take_rows(
        self,
        columns: Vec<String>,
        kinds: Vec<ColumnKind>,
        rows: Vec<Vec<Option<FieldValue>>>,
    ) -> (r: (Execution, Action))
        requires
            self.bounded(),
        ensures
            (r.0@, r.1@) == (if is_even(texts(columns@), kinds@, row_views(rows@)) {
                succeeded(self@, rows_view(texts(columns@), kinds@, row_views(rows@)))
            } else {
                failed(self@, Part::Query, UNEVEN_ROWS@)
            }),
            r.0.bounded(),
    {
        if all_even(&columns, &kinds, &rows) {
            self.succeed(rows_result(columns, kinds, rows))
        } else {
            self.fail(Part::Query, UNEVEN_ROWS)
        }
    }

    fn take_counts(self, counts: &Vec<u64>) -> (r: (Execution, Action))
        requires
            self.bounded(),
        ensures
            (r.0@, r.1@) == (if total(counts@, counts@.len() as int) <= u64::MAX {
                succeeded(self@, summary_view(total(counts@, counts@.len() as int), 0))
            } else {
                failed(self@, Part::Statement, TOO_MANY_ROWS@)
            }),
            r.0.bounded(),
    {
        if can_be_counted(counts) {
            let result = summed_result(counts);
            proof {
                lemma_summary_view(result);
            }
            self.succeed(result)
        } else {
            self.fail(Part::Statement, TOO_MANY_ROWS)
        }
    }

    fn take_capture(self, row_count: i64, last_insert_id: i64) -> (r: (Execution, Action))
        requires
            self.bounded(),
        ensures
            (r.0@, r.1@) == succeeded(
                self@,
                summary_view(counted(row_count) as nat, counted(last_insert_id) as nat),
            ),
            r.0.bounded(),
    {
        let result = captured_result(row_count, last_insert_id);
        proof {
            lemma_summary_view(result);
        }
        self.succeed(result)
    }

    fn take_columns(self, columns: Vec<String>) -> (r: (Execution, Action))
        requires
            self.bounded(),
        ensures
            (r.0@, r.1@) == succeeded(self@, rows_view(texts(columns@), Seq::empty(), Seq::empty())),
            r.0.bounded(),
    {
        let kinds: Vec<ColumnKind> = Vec::new();
        let rows: Vec<Vec<Option<FieldValue>>> = Vec::new();
        assert(kinds@ =~= Seq::<ColumnKind>::empty());
        assert(row_views(rows@) =~= Seq::<Seq<Option<Seq<u8>>>>::empty());
        self.succeed(rows_result(columns, kinds, rows))
    }

    /// Starts to execute a statement in a schema, on a connection that has one selected or
    /// none.
    pub fn start(
        schema: &Option<String>,
        selected: &Option<String>,
        sql: &str,
        mode: Mode,
        in_transaction: bool,
    ) -> (r: (Execution, Action))
        ensures
            (r.0@, r.1@) == started(opt_text(*schema), opt_text(*selected), sql@, mode, in_transaction),
            r.0.sound(),
    {
        let reads = statement_returns_rows(sql);
        let defaults = !(mode == Mode::Text && reads);
        let execution = Execution {
            repair: Repair::start(sql, defaults),
            mode,
            reads,
            guarded: repairs_under_savepoint(in_transaction, sql),
            phase: Phase::Selecting,
        };
        proof {
            lemma_marked_apt(execution@);
        }
        let same_schema = match (schema, selected) {
            (Some(a), Some(b)) => same(a.as_str(), b.as_str()),
            (None, None) => true,
            _ => false,
        };
        if same_schema {
            return execution.mark();
        }
        match search_path_statement(schema) {
            Some(statement) => execution.wait(Phase::Selecting, Action::Select(statement)),
            None => execution.mark(),
        }
    }

    #[verifier::spinoff_prover]
    fn respond_to_repair(self, event: Event) -> (r: (Execution, Action))
        requires
            self.bounded(),
        ensures
            (r.0@, r.1@) == after_repair(self@, event@),
            r.0.bounded(),
    {
        let Execution { repair, mode, reads, guarded, phase } = self;
        match (phase, event) {
            (Phase::Undoing(part, f), Event::Done) => Execution {
                repair,
                mode,
                reads,
                guarded,
                phase: Phase::Over,
            }.react(part, f),
            (Phase::Installing(part, f), Event::Installed(installed)) => {
                let action = repair.on_installed(installed, &f);
                Execution { repair, mode, reads, guarded, phase: Phase::Over }.follow(part, f, action)
            },
            (Phase::FindingKey(part, f), Event::Key(columns)) => {
                let mut fixed = repair;
                let action = fixed.on_key_columns(&columns, &f);
                Execution { repair: fixed, mode, reads, guarded, phase: Phase::Over }.follow(part, f, action)
            },
            (Phase::FindingType(part, f), Event::Type(t)) => {
                let mut fixed = repair;
                let action = fixed.on_column_type(&t, &f);
                Execution { repair: fixed, mode, reads, guarded, phase: Phase::Over }.follow(part, f, action)
            },
            (Phase::FindingTypes(part, f), Event::Types(types)) => {
                let mut fixed = repair;
                let action = fixed.on_column_types(&types);
                Execution { repair: fixed, mode, reads, guarded, phase: Phase::Over }.follow(part, f, action)
            },
            (phase, event) => Execution { repair, mode, reads, guarded, phase }.on_trouble(event),
        }
    }

    #[verifier::spinoff_prover]
    fn respond(self, event: Event) -> (r: (Execution, Action))
        requires
            self.bounded(),
        ensures
            (r.0@, r.1@) == after(self@, event@),
            r.0.bounded(),
    {
        let Execution { repair, mode, reads, guarded, phase } = self;
        match (phase, event) {
            (Phase::Selecting, Event::Done) => Execution { repair, mode, reads, guarded, phase: Phase::Over }.mark(),
            (Phase::Selecting, Event::Refused(f)) => {
                let next = Execution { repair, mode, reads, guarded, phase: Phase::Over };
                if same(f.code.as_str(), ABORTED_TRANSACTION) {
                    next.again(false)
                } else {
                    let message = format_pg_error(&f);
                    next.fail(Part::Selection, message.as_str())
                }
            },
            (Phase::Marking, Event::Done) => Execution { repair, mode, reads, guarded, phase: Phase::Over }.attempt(),
            (Phase::Marking, Event::Refused(f)) => {
                let next = Execution { repair, mode, reads, guarded, phase: Phase::Over };
                if same(f.code.as_str(), NO_TRANSACTION) {
                    next.again(false)
                } else {
                    let message = format_pg_error(&f);
                    next.fail(Part::Savepoint, message.as_str())
                }
            },
            (Phase::Preparing, Event::Prepared(rows)) => {
                let step = plan_statement(repair.sql.as_str(), rows);
                Execution { repair, mode, reads: rows, guarded, phase: Phase::Over }.go(step)
            },
            (Phase::PreparingCapture(sql), Event::Prepared(_)) => Execution {
                repair,
                mode,
                reads,
                guarded,
                phase: Phase::Over,
            }.wait(Phase::Capturing, Action::Capture(sql)),
            (Phase::Identifying, Event::Identity(column)) => {
                let step = plan_with_identity(repair.sql.as_str(), &column);
                Execution { repair, mode, reads, guarded, phase: Phase::Over }.go(step)
            },
            (Phase::Describing | Phase::DescribingPrepared, Event::Columns(columns)) => Execution {
                repair,
                mode,
                reads,
                guarded,
                phase: Phase::Over,
            }.take_columns(columns),
            (Phase::Querying, Event::Rows(columns, kinds, rows)) => Execution {
                repair,
                mode,
                reads,
                guarded,
                phase: Phase::Over,
            }.take_rows(columns, kinds, rows),
            (Phase::Capturing, Event::Captured(n, id)) => Execution {
                repair,
                mode,
                reads,
                guarded,
                phase: Phase::Over,
            }.take_capture(n, id),
            (Phase::Running, Event::Affected(counts)) => Execution {
                repair,
                mode,
                reads,
                guarded,
                phase: Phase::Over,
            }.take_counts(&counts),
            (Phase::Keeping(r), Event::Done) => Execution { repair, mode, reads, guarded, phase: Phase::Over }.end(
                Ok(r),
            ),
            (phase, event) => Execution { repair, mode, reads, guarded, phase }.respond_to_repair(event),
        }
    }

    /// An answer came: decides what is asked next. A result that comes out has the shape
    /// that the mode and the statement call for.
    pub fn on_event(self, event: Event) -> (r: (Execution, Action))
        requires
            self.sound(),
        ensures
            (r.0@, r.1@) == after(self@, event@),
            r.0.sound(),
            r.1 matches Action::Finish(Ok(q)) ==> has_shape(r.0@, q@),
    {
        proof {
            results_have_their_shape(self@, event@);
        }
        self.respond(event)
    }
}

proof fn lemma_summary_view(q: QueryResult)
    requires
        q.columns@.len() == 0,
        q.kinds@.len() == 0,
        q.rows@.len() == 0,
    ensures
        q@ == summary_view(q.row_count as nat, q.last_insert_id as nat),
{
    assert(texts(q.columns@) =~= Seq::<Seq<char>>::empty());
    assert(q.kinds@ =~= Seq::<ColumnKind>::empty());
    assert(row_views(q.rows@) =~= Seq::<Seq<Option<Seq<u8>>>>::empty());
}

fn all_even(columns: &Vec<String>, kinds: &Vec<ColumnKind>, rows: &Vec<Vec<Option<FieldValue>>>) -> (r: bool)
    ensures
        r == is_even(texts(columns@), kinds@, row_views(rows@)),
{
    let n: usize = columns.len();
    assert(texts(columns@).len() == n);
    if kinds.len() != n {
        return false;
    }
    let mut i: usize = 0;
    while i < rows.len()
        invariant
            i <= rows@.len(),
            n == texts(columns@).len(),
            kinds@.len() == n,
            forall|j: int| 0 <= j < i ==> (#[trigger] row_views(rows@)[j]).len() == n,
        decreases rows.len() - i,
    {
        assert(row_views(rows@)[i as int].len() == rows@[i as int]@.len());
        if rows[i].len() != n {
            return false;
        }
        i = i + 1;
    }
    true
}

proof fn lemma_marked_apt(s: Progress)
    ensures
        is_apt(attempted(s).0),
        is_apt(marked(s).0),
        !(attempted(s).1 is Finish),
        !(marked(s).1 is Finish),
{
}

proof fn lemma_repairing_apt(s: Progress, part: Part, e: DbFailure, m: RepairMove)
    ensures
        is_apt(repairing(s, part, e, m).0),
        repairing(s, part, e, m).1 matches Request::Finish(r) ==> r is Err,
{
    lemma_marked_apt(s);
}

proof fn lemma_trouble_apt(s: Progress, e: Answer)
    ensures
        is_apt(after_trouble(s, e).0),
        after_trouble(s, e).1 matches Request::Finish(r) ==> r is Err,
{
    match (s.stage, e) {
        (Stage::Undoing(_, _), _) => {},
        (_, Answer::Refused(f)) => {
            if attempt_part(s.stage) is Some {
                lemma_repairing_apt(
                    Progress { repair: counted_failure(s.repair), ..s },
                    attempt_part(s.stage)->Some_0,
                    f,
                    failure_move(s.repair, &f),
                );
            }
        },
        _ => {},
    }
}

/// A result that comes out of an execution has its shape. A query, by its text or as it was
/// prepared, gives rows as wide as its columns, all of them counted; any other statement a
/// count alone, without rows or columns; a description columns alone.
#[verifier::spinoff_prover]
pub proof fn results_have_their_shape(s: Progress, e: Answer)
    requires
        is_apt(s),
    ensures
        is_apt(after(s, e).0),
        after(s, e).1 matches Request::Finish(Ok(r)) ==> has_shape(after(s, e).0, r),
{
    lemma_marked_apt(s);
    lemma_marked_apt(Progress { guarded: false, ..s });
    lemma_trouble_apt(s, e);
    match (s.stage, e) {
        (Stage::Undoing(part, f), Answer::Done) => {
            lemma_repairing_apt(
                Progress { repair: counted_failure(s.repair), ..s },
                part,
                f,
                failure_move(s.repair, &f),
            );
        },
        (Stage::Installing(part, f), Answer::Installed(installed)) => {
            lemma_repairing_apt(
                s,
                part,
                f,
                if installed {
                    RepairMove::Retry
                } else {
                    conflict_move(s.repair, &f)
                },
            );
        },
        (Stage::FindingKey(part, f), Answer::Key(columns)) => {
            lemma_fixed_apt(s, part, f, key_repair(s.repair, columns), default_move(s.repair, &f));
        },
        (Stage::FindingType(part, f), Answer::Type(t)) => {
            lemma_fixed_apt(s, part, f, type_repair(s.repair, &f, t), RepairMove::GiveUp);
        },
        (Stage::FindingTypes(part, f), Answer::Types(types)) => {
            lemma_fixed_apt(s, part, f, coerced_insert(s.repair.sql, types), RepairMove::GiveUp);
        },
        _ => {},
    }
}

proof fn lemma_fixed_apt(s: Progress, part: Part, e: DbFailure, sql: Option<Seq<char>>, otherwise: RepairMove)
    ensures
        is_apt(repaired_or(s, part, e, sql, otherwise).0),
        repaired_or(s, part, e, sql, otherwise).1 matches Request::Finish(r) ==> r is Err,
{
    match sql {
        Some(sql) => lemma_repairing_apt(
            Progress { repair: RepairState { sql, ..s.repair }, ..s },
            part,
            e,
            RepairMove::Retry,
        ),
        None => lemma_repairing_apt(s, part, e, otherwise),
    }
}

/// A refused attempt under a savepoint is undone before anything else is asked, so that
/// the transaction takes what is asked then.
pub proof fn refused_attempts_are_undone_first(s: Progress, e: DbFailure)
    requires
        s.guarded,
        attempt_part(s.stage) is Some,
    ensures
        after(s, Answer::Refused(e)).1 == Request::Batch(UNDO@),
{
}

/// What was asked comes out of an execution as it was answered: rows, a count with an insert
/// id, and a count.
pub proof fn results_are_passed_on(s: Progress, e: Answer, r: ResultView)
    requires
        match (s.stage, e) {
            (Stage::Querying, Answer::Rows(columns, kinds, rows)) => is_even(columns, kinds, rows) && r == rows_view(
                columns,
                kinds,
                rows,
            ),
            (Stage::Capturing, Answer::Captured(n, id)) => r == summary_view(counted(n) as nat, counted(id) as nat),
            (Stage::Running, Answer::Affected(counts)) => total(counts, counts.len() as int) <= u64::MAX && r
                == summary_view(total(counts, counts.len() as int), 0),
            _ => false,
        },
    ensures
        !s.guarded ==> after(s, e).1 == Request::Finish(Ok(r)),
        s.guarded ==> after(after(s, e).0, Answer::Done).1 == Request::Finish(Ok(r)),
{
}

spec fn is_bare(r: (Progress, Request)) -> bool {
    !(r.1 is Batch) && !r.0.guarded
}

proof fn lemma_bare_reaction(s: Progress, part: Part, e: DbFailure)
    requires
        !s.guarded,
    ensures
        is_bare(reacted(s, part, e)),
        is_bare(refused(s, part, e)),
{
}

proof fn lemma_bare_trouble(s: Progress, e: Answer)
    requires
        !s.guarded,
    ensures
        is_bare(after_trouble(s, e)),
{
    if let Answer::Refused(f) = e {
        if let Some(part) = attempt_part(s.stage) {
            lemma_bare_reaction(s, part, f);
        }
    }
}

#[verifier::spinoff_prover]
proof fn lemma_bare_after_repair(s: Progress, e: Answer)
    requires
        !s.guarded,
    ensures
        is_bare(after_repair(s, e)),
{
    match (s.stage, e) {
        (Stage::Undoing(part, f), Answer::Done) => lemma_bare_reaction(s, part, f),
        _ => lemma_bare_trouble(s, e),
    }
}

/// Outside a transaction no savepoint is ever set, kept or returned to.
#[verifier::spinoff_prover]
pub proof fn savepoints_belong_to_transactions(s: Progress, e: Answer)
    requires
        !s.guarded,
    ensures
        !(after(s, e).1 is Batch),
        !after(s, e).0.guarded,
{
    lemma_bare_after_repair(s, e);
}

/// A refusal is repaired only so often: then it is reported, with what failed and what
/// the database said.
pub proof fn refusals_are_reported_in_the_end(s: Progress, part: Part, e: DbFailure)
    requires
        s.repair.attempts >= MAX_COMPAT_REPAIR_ATTEMPTS,
        attempt_part(s.stage) == Some(part),
        !s.guarded,
    ensures
        after(s, Answer::Refused(e)).1 == Request::Finish(
            Err::<ResultView, Failure>(Failure::Execution(part_text(part) + ": "@ + refusal_text(e))),
        ),
{
}

/// How far a stage is from the end of its attempt.
pub open spec fn stage_rank(stage: Stage) -> nat {
    match stage {
        Stage::Installing(_, _) => 14,
        Stage::FindingKey(_, _) => 13,
        Stage::FindingType(_, _) => 12,
        Stage::FindingTypes(_, _) => 12,
        Stage::Selecting => 11,
        Stage::Marking => 10,
        Stage::Preparing => 9,
        Stage::Identifying => 8,
        Stage::PreparingCapture(_) => 7,
        Stage::Describing => 6,
        Stage::DescribingPrepared => 6,
        Stage::Capturing => 6,
        Stage::Querying => 6,
        Stage::Running => 6,
        Stage::Keeping(_) => 2,
        Stage::Undoing(_, _) => 1,
        Stage::Over => 0,
    }
}

/// A bound on what an execution still asks for.
pub open spec fn steps_left(s: Progress) -> int {
    15 * (MAX_COMPAT_REPAIR_ATTEMPTS - s.repair.attempts) + stage_rank(s.stage)
}

/// Whether an outcome is over, or has counted as many failures and is at most at a rank.
spec fn within(r: (Progress, Request), attempts: int, rank: nat) -> bool {
    r.0.repair.attempts == attempts && (r.1 is Finish || stage_rank(r.0.stage) <= rank)
}

proof fn lemma_planned(s: Progress, step: StepKind)
    ensures
        within(planned(s, step), s.repair.attempts, 8),
        !(step is LookUpIdentity) ==> within(planned(s, step), s.repair.attempts, 7),
{
}

proof fn lemma_marked(s: Progress)
    ensures
        within(attempted(s), s.repair.attempts, 9),
        within(marked(s), s.repair.attempts, 10),
{
    lemma_planned(s, first_step(s.repair.sql, s.reads));
}

proof fn lemma_repairing(s: Progress, part: Part, e: DbFailure, m: RepairMove)
    ensures
        within(repairing(s, part, e, m), s.repair.attempts, 14),
        !(m is Install) ==> within(repairing(s, part, e, m), s.repair.attempts, 13),
        !(m is Install) && !(m is LookUpKey) ==> within(repairing(s, part, e, m), s.repair.attempts, 12),
        m is Retry || m is GiveUp ==> within(repairing(s, part, e, m), s.repair.attempts, 10),
{
    lemma_marked(s);
}

/// Whether an outcome is over or nearer to the end than a state.
spec fn nearer(r: (Progress, Request), s: Progress) -> bool {
    &&& 0 <= r.0.repair.attempts <= MAX_COMPAT_REPAIR_ATTEMPTS
    &&& r.1 is Finish || 0 <= steps_left(r.0) < steps_left(s)
}

proof fn lemma_reacted(s: Progress, part: Part, e: DbFailure)
    requires
        0 <= s.repair.attempts <= MAX_COMPAT_REPAIR_ATTEMPTS,
    ensures
        nearer(reacted(s, part, e), s),
{
    lemma_repairing(
        Progress { repair: counted_failure(s.repair), ..s },
        part,
        e,
        failure_move(s.repair, &e),
    );
}

proof fn lemma_trouble(s: Progress, e: Answer)
    requires
        0 <= s.repair.attempts <= MAX_COMPAT_REPAIR_ATTEMPTS,
    ensures
        nearer(after_trouble(s, e), s),
{
    match (s.stage, e) {
        (Stage::Undoing(_, _), _) => {},
        (_, Answer::Refused(f)) => {
            if attempt_part(s.stage) is Some {
                lemma_reacted(s, attempt_part(s.stage)->Some_0, f);
            }
        },
        _ => {},
    }
}

proof fn lemma_repair_answers(s: Progress, part: Part, f: DbFailure, sql: Option<Seq<char>>, otherwise: RepairMove)
    requires
        !(otherwise is Install),
        !(otherwise is LookUpKey),
    ensures
        within(repaired_or(s, part, f, sql, otherwise), s.repair.attempts, 12),
        otherwise is GiveUp ==> within(repaired_or(s, part, f, sql, otherwise), s.repair.attempts, 10),
{
    match sql {
        Some(sql) => lemma_repairing(
            Progress { repair: RepairState { sql, ..s.repair }, ..s },
            part,
            f,
            RepairMove::Retry,
        ),
        None => lemma_repairing(s, part, f, otherwise),
    }
}

/// Whatever is answered, an execution comes to its end: with every answer it is over or
/// one step nearer to being so.
#[verifier::spinoff_prover]
pub proof fn executions_come_to_an_end(s: Progress, e: Answer)
    requires
        0 <= s.repair.attempts <= MAX_COMPAT_REPAIR_ATTEMPTS,
    ensures
        0 <= after(s, e).0.repair.attempts <= MAX_COMPAT_REPAIR_ATTEMPTS,
        after(s, e).1 is Finish || 0 <= steps_left(after(s, e).0) < steps_left(s),
{
    lemma_marked(s);
    lemma_marked(Progress { guarded: false, ..s });
    lemma_trouble(s, e);
    assert(nearer(after(s, e), s)) by {
        match (s.stage, e) {
            (Stage::Preparing, Answer::Prepared(rows)) => {
                lemma_planned(Progress { reads: rows, ..s }, first_step(s.repair.sql, rows));
            },
            (Stage::Identifying, Answer::Identity(column)) => {
                lemma_planned(s, identity_step(s.repair.sql, column));
            },
            (Stage::Undoing(part, f), Answer::Done) => {
                lemma_reacted(s, part, f);
            },
            (Stage::Installing(part, f), Answer::Installed(installed)) => {
                lemma_repairing(
                    s,
                    part,
                    f,
                    if installed {
                        RepairMove::Retry
                    } else {
                        conflict_move(s.repair, &f)
                    },
                );
            },
            (Stage::FindingKey(part, f), Answer::Key(columns)) => {
                lemma_repair_answers(s, part, f, key_repair(s.repair, columns), default_move(s.repair, &f));
            },
            (Stage::FindingType(part, f), Answer::Type(t)) => {
                lemma_repair_answers(s, part, f, type_repair(s.repair, &f, t), RepairMove::GiveUp);
            },
            (Stage::FindingTypes(part, f), Answer::Types(types)) => {
                lemma_repair_answers(s, part, f, coerced_insert(s.repair.sql, types), RepairMove::GiveUp);
            },
            _ => {},
        }
    }
}

} // verus!
