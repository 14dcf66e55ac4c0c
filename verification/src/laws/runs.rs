//! How a statement is executed, step by step.
use vstd::prelude::*;

use crate::error::Failure;
use crate::execution::{
    after, attempted, part_text, refusal_text, repairing, started, Answer, Mode, Part, Progress,
    Request, Stage,
};
use crate::executor::{insert_table, is_ascii_text, last_insert_id_target, returns_rows, DbFailure};
use crate::quoting::quoted_ident;
use crate::repair::{controls_transaction, key_repair, type_repair, RepairMove};
use crate::text::{begins, trimmed, trimmed_start, uppered};

verus! {

/// A text that is ASCII and starts with a word that reads returns rows, and one that starts with a
/// word that writes does not.
pub proof fn reading_is_told_from_writing(sql: Seq<char>)
    requires
        is_ascii_text(trimmed_start(sql)),
    ensures
        ({
            let q = uppered(trimmed_start(sql));
            &&& begins(q, "SELECT"@) || begins(q, "WITH"@) || begins(q, "SHOW"@) || begins(q, "VALUES"@) ==> returns_rows(sql)
            &&& begins(q, "INSERT"@) || begins(q, "UPDATE"@) || begins(q, "DELETE"@) || begins(q, "CREATE"@) || begins(
                q,
                "ALTER"@,
            ) || begins(q, "DROP"@) || begins(q, "BEGIN"@) || begins(q, "COMMIT"@) || begins(q, "SET"@) ==> !returns_rows(sql)
        }),
{
    let q = uppered(trimmed_start(sql));
    assert forall|p: Seq<char>| #[trigger] begins(q, p) && p.len() > 2 implies q.len() > 2 && q[0] == p[0] && q[1] == p[1]
        && q[2] == p[2] by {
        assert(q.subrange(0, p.len() as int)[0] == q[0]);
        assert(q.subrange(0, p.len() as int)[1] == q[1]);
        assert(q.subrange(0, p.len() as int)[2] == q[2]);
    }
    reveal_strlit("SELECT");
    reveal_strlit("WITH");
    reveal_strlit("SHOW");
    reveal_strlit("VALUES");
    reveal_strlit("INSERT");
    reveal_strlit("UPDATE");
    reveal_strlit("DELETE");
    reveal_strlit("CREATE");
    reveal_strlit("ALTER");
    reveal_strlit("DROP");
    reveal_strlit("BEGIN");
    reveal_strlit("COMMIT");
    reveal_strlit("SET");
    assert("SELECT"@.len() == 6 && "SELECT"@[0] == 'S' && "SELECT"@[1] == 'E' && "SELECT"@[2] == 'L');
    assert("WITH"@.len() == 4 && "WITH"@[0] == 'W' && "WITH"@[1] == 'I' && "WITH"@[2] == 'T');
    assert("SHOW"@.len() == 4 && "SHOW"@[0] == 'S' && "SHOW"@[1] == 'H' && "SHOW"@[2] == 'O');
    assert("VALUES"@.len() == 6 && "VALUES"@[0] == 'V' && "VALUES"@[1] == 'A' && "VALUES"@[2] == 'L');
    assert("INSERT"@.len() == 6 && "INSERT"@[0] == 'I' && "INSERT"@[1] == 'N' && "INSERT"@[2] == 'S');
    assert("UPDATE"@.len() == 6 && "UPDATE"@[0] == 'U' && "UPDATE"@[1] == 'P' && "UPDATE"@[2] == 'D');
    assert("DELETE"@.len() == 6 && "DELETE"@[0] == 'D' && "DELETE"@[1] == 'E' && "DELETE"@[2] == 'L');
    assert("CREATE"@.len() == 6 && "CREATE"@[0] == 'C' && "CREATE"@[1] == 'R' && "CREATE"@[2] == 'E');
    assert("ALTER"@.len() == 5 && "ALTER"@[0] == 'A' && "ALTER"@[1] == 'L' && "ALTER"@[2] == 'T');
    assert("DROP"@.len() == 4 && "DROP"@[0] == 'D' && "DROP"@[1] == 'R' && "DROP"@[2] == 'O');
    assert("BEGIN"@.len() == 5 && "BEGIN"@[0] == 'B' && "BEGIN"@[1] == 'E' && "BEGIN"@[2] == 'G');
    assert("COMMIT"@.len() == 6 && "COMMIT"@[0] == 'C' && "COMMIT"@[1] == 'O' && "COMMIT"@[2] == 'M');
    assert("SET"@.len() == 3 && "SET"@[0] == 'S' && "SET"@[1] == 'E' && "SET"@[2] == 'T');
}

/// A statement is sent as it is: one that reads is queried, one that writes is run, one with
/// parameters is prepared, and one that is asked for its columns is described.
pub proof fn statements_are_sent_as_they_are(s: Progress)
    ensures
        s.mode == Mode::Text && s.reads ==> attempted(s).1 == Request::Query(s.repair.sql),
        s.mode == Mode::Text && !s.reads && insert_table(s.repair.sql) is None && last_insert_id_target(s.repair.sql) is None
            ==> attempted(s).1 == Request::Run(s.repair.sql),
        s.mode == Mode::Text && !s.reads && insert_table(s.repair.sql) is Some ==> attempted(s).1 == Request::LookUpIdentity(
            insert_table(s.repair.sql)->Some_0,
        ),
        s.mode == Mode::Bound ==> attempted(s).1 == Request::Prepare(s.repair.sql),
        s.mode == Mode::Describe ==> attempted(s).1 == Request::Describe(s.repair.sql),
        s.mode == Mode::DescribePrepared ==> attempted(s).1 == Request::DescribePrepared(s.repair.sql),
        attempted(s).0.repair == s.repair,
        attempted(s).0.guarded == s.guarded,
{
}

/// An execution starts with the schema, where it is not selected yet, then sets a savepoint, where
/// it is within a transaction, and then sends the statement itself.
pub proof fn executions_start_in_order(
    schema: Seq<char>,
    selected: Option<Seq<char>>,
    sql: Seq<char>,
    mode: Mode,
    in_transaction: bool,
)
    requires
        trimmed(schema).len() > 0,
    ensures
        selected != Some(schema) ==> started(Some(schema), selected, sql, mode, in_transaction).1 == Request::Select(
            "SET search_path TO "@ + quoted_ident(schema) + ", public"@,
        ),
        in_transaction && !controls_transaction(sql) ==> started(Some(schema), Some(schema), sql, mode, in_transaction).1
            == Request::Batch("SAVEPOINT mw_repair"@),
        mode == Mode::Describe && !in_transaction ==> started(Some(schema), Some(schema), sql, mode, in_transaction).1
            == Request::Describe(sql),
        mode == Mode::Bound && !in_transaction ==> started(Some(schema), Some(schema), sql, mode, in_transaction).1
            == Request::Prepare(sql),
        mode == Mode::Bound && controls_transaction(sql) ==> started(Some(schema), Some(schema), sql, mode, in_transaction).1
            == Request::Prepare(sql),
        started(Some(schema), selected, sql, mode, in_transaction).0.repair.sql == sql,
        started(Some(schema), selected, sql, mode, in_transaction).0.repair.attempts == 0,
        started(Some(schema), selected, sql, mode, in_transaction).0.mode == mode,
        !in_transaction ==> !started(Some(schema), selected, sql, mode, in_transaction).0.guarded,
{
}

/// What went well under a savepoint is kept, and what went wrong is undone; then, and only then,
/// it is repaired or reported.
pub proof fn savepoints_are_kept_or_undone(s: Progress, e: DbFailure)
    requires
        s.guarded,
        s.stage == Stage::Running || s.stage == Stage::Querying || s.stage == Stage::Capturing,
    ensures
        s.stage == Stage::Running ==> after(s, Answer::Affected(seq![])).1 == Request::Batch("RELEASE SAVEPOINT mw_repair"@),
        after(s, Answer::Refused(e)).1 == Request::Batch("ROLLBACK TO SAVEPOINT mw_repair"@),
        after(s, Answer::Refused(e)).0.repair == s.repair,
{
    reveal_with_fuel(crate::executor::total, 1);
}

/// A statement that was repaired is the one that is sent next, and one whose function was installed
/// is sent again as it was.
pub proof fn repaired_statements_are_sent(s: Progress, part: Part, e: DbFailure, keys: Seq<Seq<char>>, t: Option<Seq<char>>)
    ensures
        s.stage == Stage::FindingKey(part, e) && key_repair(s.repair, keys) is Some ==> after(
            s,
            Answer::Key(keys),
        ).0.repair.sql == key_repair(s.repair, keys)->Some_0,
        s.stage == Stage::FindingType(part, e) && type_repair(s.repair, &e, t) is Some ==> after(
            s,
            Answer::Type(t),
        ).0.repair.sql == type_repair(s.repair, &e, t)->Some_0,
        s.stage == Stage::Installing(part, e) ==> after(s, Answer::Installed(true)).0.repair.sql == s.repair.sql,
        s.stage == Stage::Installing(part, e) && !s.guarded && s.mode == Mode::Text && s.reads ==> after(
            s,
            Answer::Installed(true),
        ).1 == Request::Query(s.repair.sql),
        s.stage == Stage::Installing(part, e) && s.guarded ==> after(s, Answer::Installed(true)).1 == Request::Batch(
            "SAVEPOINT mw_repair"@,
        ),
{
}

/// What is asked for a repair is what the repair needs.
pub proof fn repairs_ask_for_what_they_need(s: Progress, part: Part, e: DbFailure, a: Seq<char>, b: Seq<char>, c: Seq<Seq<char>>)
    ensures
        repairing(s, part, e, RepairMove::Install(a)).1 == Request::Install(a),
        repairing(s, part, e, RepairMove::LookUpKey(a)).1 == Request::LookUpKey(a),
        repairing(s, part, e, RepairMove::LookUpType(a, b)).1 == Request::LookUpType(a, b),
        repairing(s, part, e, RepairMove::LookUpTypes(a, c)).1 == Request::LookUpTypes(a, c),
        repairing(s, part, e, RepairMove::GiveUp).1 == Request::Finish(
            Err(Failure::Execution(part_text(part) + ": "@ + refusal_text(e))),
        ),
{
}

/// A failure says what failed.
pub proof fn failures_say_what_failed(s: Progress, m: Seq<char>)
    ensures
        s.stage == Stage::Querying ==> after(s, Answer::Broken(m)).1 == Request::Finish(
            Err(Failure::Execution("query failed"@ + ": "@ + m)),
        ),
        s.stage == Stage::Running || s.stage == Stage::Capturing ==> after(s, Answer::Broken(m)).1 == Request::Finish(
            Err(Failure::Execution("statement failed"@ + ": "@ + m)),
        ),
        s.stage == Stage::Preparing ==> after(s, Answer::Broken(m)).1 == Request::Finish(
            Err(Failure::Execution("statement preparation failed"@ + ": "@ + m)),
        ),
        s.stage == Stage::Describing ==> after(s, Answer::Broken(m)).1 == Request::Finish(
            Err(Failure::Execution("query description failed"@ + ": "@ + m)),
        ),
        s.stage == Stage::Selecting ==> after(s, Answer::Broken(m)).1 == Request::Finish(
            Err(Failure::Execution("failed to set schema"@ + ": "@ + m)),
        ),
        s.stage == Stage::Identifying ==> after(s, Answer::Broken(m)).1 == Request::Finish(
            Err(Failure::Execution("identity column lookup failed"@ + ": "@ + m)),
        ),
        s.stage == Stage::Marking ==> after(s, Answer::Broken(m)).1 == Request::Finish(
            Err(Failure::Execution("savepoint failed"@ + ": "@ + m)),
        ),
{
}

/// A selection that PostgreSQL refuses because the transaction is aborted, and a savepoint that it
/// refuses because there is no transaction, do not stand in the way of the statement: it is sent,
/// without a savepoint.
pub proof fn statements_speak_for_themselves(s: Progress, e: DbFailure)
    requires
        s.mode == Mode::Describe,
    ensures
        s.stage == Stage::Selecting && e.code@ == "25P02"@ ==> after(s, Answer::Refused(e)).1 == Request::Describe(
            s.repair.sql,
        ) && !after(s, Answer::Refused(e)).0.guarded,
        s.stage == Stage::Marking && e.code@ == "25P01"@ ==> after(s, Answer::Refused(e)).1 == Request::Describe(
            s.repair.sql,
        ) && !after(s, Answer::Refused(e)).0.guarded,
        s.stage == Stage::Selecting && e.code@ == "42501"@ ==> after(s, Answer::Refused(e)).1 is Finish,
        s.stage == Stage::Marking && e.code@ == "42501"@ ==> after(s, Answer::Refused(e)).1 is Finish,
{
    reveal_strlit("25P02");
    reveal_strlit("25P01");
    reveal_strlit("42501");
    assert("25P02"@.len() == 5);
    assert("25P01"@.len() == 5);
    assert("42501"@.len() == 5);
    assert("25P02"@[4] != "25P01"@[4]);
    assert("25P02"@[0] != "42501"@[0]);
    assert("25P01"@[0] != "42501"@[0]);
}

/// Values that MySQL would supply are supplied to every statement but one that reads as a text.
pub proof fn defaults_are_supplied_to_statements_that_write(mode: Mode, sql: Seq<char>)
    ensures
        mode != Mode::Text ==> crate::execution::supplies_defaults(mode, sql),
        !returns_rows(sql) ==> crate::execution::supplies_defaults(mode, sql),
        returns_rows(sql) ==> !crate::execution::supplies_defaults(Mode::Text, sql),
        started(None, None, sql, mode, false).0.repair.defaults == crate::execution::supplies_defaults(mode, sql),
{
}

/// A schema that was selected within a transaction is not relied on once the transaction is over.
pub proof fn selections_end_with_their_transaction(sql: Seq<char>)
    ensures
        begins(uppered(trimmed_start(sql)), "COMMIT"@) || begins(uppered(trimmed_start(sql)), "ROLLBACK"@)
            ==> crate::execution::undoes_selection(sql),
        begins(uppered(trimmed_start(sql)), "SELECT"@) || begins(uppered(trimmed_start(sql)), "INSERT"@)
            ==> !crate::execution::undoes_selection(sql),
{
    let q = uppered(trimmed_start(sql));
    assert forall|p: Seq<char>| #[trigger] begins(q, p) && p.len() > 0 implies q.len() > 0 && q[0] == p[0] by {
        assert(q.subrange(0, p.len() as int)[0] == q[0]);
    }
    reveal_strlit("COMMIT");
    assert("COMMIT"@.len() == 6 && "COMMIT"@[0] == 'C');
    reveal_strlit("ROLLBACK");
    assert("ROLLBACK"@.len() == 8 && "ROLLBACK"@[0] == 'R');
    reveal_strlit("SELECT");
    assert("SELECT"@.len() == 6 && "SELECT"@[0] == 'S');
    reveal_strlit("INSERT");
    assert("INSERT"@.len() == 6 && "INSERT"@[0] == 'I');
}

/// Rows come out with their columns, all of them and in order, and are counted; what was inserted
/// comes out with its count and its id, and what was changed with the sum of its counts.
pub proof fn results_come_out_whole(
    s: Progress,
    columns: Seq<Seq<char>>,
    kinds: Seq<crate::executor::ColumnKind>,
    rows: Seq<Seq<Option<Seq<u8>>>>,
    n: i64,
    id: i64,
    one: u64,
    two: u64,
)
    requires
        !s.guarded,
        kinds.len() == columns.len(),
        forall|i: int| 0 <= i < rows.len() ==> (#[trigger] rows[i]).len() == columns.len(),
        n >= 0,
        id >= 0,
        one + two <= u64::MAX,
    ensures
        s.stage == Stage::Querying ==> (after(s, Answer::Rows(columns, kinds, rows)).1 matches Request::Finish(Ok(r))
            && r.columns == columns && r.kinds == kinds && r.rows == rows && r.row_count == rows.len() && r.last_insert_id == 0),
        s.stage == Stage::Capturing ==> (after(s, Answer::Captured(n, id)).1 matches Request::Finish(Ok(r)) && r.row_count == n
            && r.last_insert_id == id && r.rows.len() == 0 && r.columns.len() == 0),
        s.stage == Stage::Running ==> (after(s, Answer::Affected(seq![one, two])).1 matches Request::Finish(Ok(r))
            && r.row_count == one + two && r.last_insert_id == 0 && r.rows.len() == 0),
        s.stage == Stage::Describing ==> (after(s, Answer::Columns(columns)).1 matches Request::Finish(Ok(r)) && r.columns
            == columns && r.rows.len() == 0),
{
    reveal_with_fuel(crate::executor::total, 3);
}

/// Rows that have not as many values as there are columns are no result.
pub proof fn uneven_rows_are_no_result(
    s: Progress,
    columns: Seq<Seq<char>>,
    kinds: Seq<crate::executor::ColumnKind>,
    rows: Seq<Seq<Option<Seq<u8>>>>,
    i: int,
)
    requires
        s.stage == Stage::Querying,
        0 <= i < rows.len(),
        rows[i].len() != columns.len(),
    ensures
        after(s, Answer::Rows(columns, kinds, rows)).1 matches Request::Finish(Err(_)),
{
}

/// Every refusal that is reacted to is counted, and a statement that was prepared is run by what the
/// preparation said of it.
pub proof fn refusals_are_counted(s: Progress, e: DbFailure, rows: bool)
    requires
        s.repair.attempts < 24,
    ensures
        !s.guarded && (s.stage == Stage::Running || s.stage == Stage::Querying) ==> after(
            s,
            Answer::Refused(e),
        ).0.repair.attempts == s.repair.attempts + 1,
        s.stage == Stage::Preparing && rows ==> after(s, Answer::Prepared(rows)).1 == Request::Query(s.repair.sql),
        s.stage == Stage::Preparing ==> after(s, Answer::Prepared(rows)).0.reads == rows,
        s.stage == Stage::Identifying && s.mode == Mode::Text ==> forall|column: Seq<char>|
            (#[trigger] after(s, Answer::Identity(Some(column)))).1 == Request::Capture(
                crate::executor::counted_sql("inserted_rows"@, s.repair.sql, column),
            ),
{
}

} // verus!
