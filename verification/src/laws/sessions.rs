//! What a session answers and remembers.
use vstd::prelude::*;

use crate::config::TranslatorConfig;
use crate::error::Failure;
use crate::frontend::{
    active_schema, bare_query, canned, compat_noop, created_database, default_collation,
    dropped_database, error_kind, isolation_name, kill_target, query_columns, session_canned,
    set_names, show_columns, sql_mode_value, used_database, variable_value, ErrorKind, Settings,
};
use crate::laws::records::numbers_read_back;
use crate::query::select_of;
use crate::ranking::{skip_nonspace, words_from};
use crate::session::{
    after_session_query, after_success, opened, query_outcome, selects_no_variable, session_config,
    settings, statements_of, transaction_step, Reaction, State,
};
use crate::text::{
    begins, decimal, is_digit, is_space, is_word, joined, lacks, lemma_find_first, lower, lowered,
    occurs, occurs_at, parsed_u32, same_ignoring_case, skip_space, split, trimmed, trimmed_end,
    trimmed_start, unpadded, unpadded_end, unpadded_start, upper, uppered,
};
use crate::tree::{items, part, payload, text_of, Tree};

verus! {

/// Whether a text is a plain name.
pub open spec fn is_name(s: Seq<char>) -> bool {
    s.len() > 0 && forall|i: int| 0 <= i < s.len() ==> is_word(#[trigger] s[i])
}

proof fn lemma_bare(q: Seq<char>)
    requires
        q.len() > 0,
        !is_space(q[0]),
        !is_space(q.last()),
        q.last() != ';',
    ensures
        trimmed(q) == q,
        bare_query(q) == q,
{
    assert(trimmed_start(q) == q);
    assert(trimmed_end(q) == q);
    assert(unpadded_end(q, ';') == q);
}

pub proof fn lemma_bare_name(name: Seq<char>)
    requires
        is_name(name),
    ensures
        trimmed(name) == name,
        unpadded(name, '`') == name,
        unpadded(name, '"') == name,
        unpadded(name, '\'') == name,
        unpadded(name, ';') == name,
        crate::quoting::bare_name(name) == name,
{
    assert(is_word(name[0]));
    assert(is_word(name[name.len() - 1]));
    assert(trimmed_start(name) == name);
    assert(trimmed_end(name) == name);
}

proof fn lemma_upper_front(p: Seq<char>, rest: Seq<char>)
    ensures
        uppered(p + rest).subrange(0, p.len() as int) == uppered(p),
        uppered(p + rest).len() == p.len() + rest.len(),
{
    let u = uppered(p + rest);
    assert(u.subrange(0, p.len() as int) =~= uppered(p)) by {
        assert forall|i: int| 0 <= i < p.len() implies u.subrange(0, p.len() as int)[i] == #[trigger] uppered(p)[i] by {
            assert((p + rest)[i] == p[i]);
            assert(u[i] == upper((p + rest)[i]));
            assert(uppered(p)[i] == upper(p[i]));
        }
    }
}

/// USE selects the database that it names, however it is spelled, and changes nothing else.
pub proof fn databases_are_selected_by_name(s: State, word: Seq<char>, name: Seq<char>)
    requires
        uppered(word) == "USE "@,
        is_name(name),
    ensures
        used_database(word + name) == Some(name),
        query_outcome(s, word + name) == (State { current_db: Some(name), ..s }, Reaction::Use(name)),
{
    reveal_strlit("USE ");
    reveal_strlit("KILL ");
    let q = word + name;
    assert(uppered(word).len() == word.len());
    assert(word.len() == 4);
    assert(uppered(word)[0] == upper(word[0]));
    assert(word[0] == 'U' || word[0] == 'u') by {
        assert(upper(word[0]) == 'U');
    }
    assert(q[0] == word[0]);
    assert(q.last() == name[name.len() - 1]);
    assert(is_word(name[name.len() - 1]));
    lemma_bare(q);
    lemma_upper_front(word, name);
    assert(begins(uppered(q), "USE "@));
    assert(q.skip(4) =~= name);
    lemma_bare_name(name);
    let u = uppered(q);
    assert(u.subrange(0, 4)[0] == u[0]);
    assert(!begins(u, "KILL "@)) by {
        if begins(u, "KILL "@) {
            assert(u.subrange(0, 5)[0] == u[0]);
        }
    }
    assert(kill_target(q) is None);
}

/// KILL ends the connection whose number it gives.
pub proof fn kills_name_their_connection(word: Seq<char>, id: u32)
    requires
        uppered(word) == "KILL "@,
    ensures
        kill_target(word + decimal(id as nat)) == Some(id),
{
    reveal_strlit("KILL ");
    let digits = decimal(id as nat);
    numbers_read_back(id as nat, 0);
    let q = word + digits;
    assert(uppered(word).len() == word.len());
    assert(word.len() == 5);
    assert(uppered(word)[0] == upper(word[0]));
    assert(word[0] == 'K' || word[0] == 'k') by {
        assert(upper(word[0]) == 'K');
    }
    assert(q[0] == word[0]);
    assert(is_digit(digits[digits.len() - 1]));
    assert(q.last() == digits[digits.len() - 1]);
    lemma_bare(q);
    lemma_upper_front(word, digits);
    let u = uppered(q);
    assert(begins(u, "KILL "@));
    assert(u.skip(5) =~= digits) by {
        assert forall|i: int| 0 <= i < digits.len() implies u.skip(5)[i] == #[trigger] digits[i] by {
            assert(is_digit(digits[i]));
            assert(q[i + 5] == digits[i]);
            assert(u[i + 5] == upper(q[i + 5]));
        }
    }
    assert(is_digit(digits[0]));
    assert(trimmed_start(digits) == digits);
    assert(trimmed_end(digits) == digits);
    assert(parsed_u32(digits) == Some(id));
}

/// A session reports the values that it has for its variables, each under its own name.
pub proof fn variables_are_reported(s: Settings, name: Seq<char>)
    ensures
        lowered(name) == "sql_mode"@ ==> variable_value(s, name) == Some(s.sql_mode),
        lowered(name) == "collation_connection"@ ==> variable_value(s, name) == Some(s.collation),
        lowered(name) == "transaction_isolation"@ || lowered(name) == "tx_isolation"@ ==> variable_value(s, name) == Some(
            s.isolation,
        ),
        lowered(name) == "version"@ ==> variable_value(s, name) == Some(s.version),
        lowered(name) == "version_comment"@ ==> variable_value(s, name) == Some(s.comment),
{
    reveal_strlit("sql_mode");
    reveal_strlit("collation_connection");
    reveal_strlit("transaction_isolation");
    reveal_strlit("tx_isolation");
    reveal_strlit("version");
    reveal_strlit("version_comment");
    assert("sql_mode"@.len() == 8);
    assert("collation_connection"@.len() == 20);
    assert("transaction_isolation"@.len() == 21);
    assert("tx_isolation"@.len() == 12);
    assert("version"@.len() == 7);
    assert("version_comment"@.len() == 15);
}

/// A session reports its own connection number, its database, and its collation, isolation level
/// and version.
pub proof fn sessions_report_themselves(id: u32, db: Seq<char>, s: Settings, query: Seq<char>)
    ensures
        selects_no_variable(query) && same_ignoring_case(trimmed(query), "SELECT CONNECTION_ID()"@) ==> session_canned(
            id,
            Some(db),
            s,
            query,
        ) == Some((seq!["CONNECTION_ID()"@], seq![seq![decimal(id as nat)]])),
        selects_no_variable(query) && same_ignoring_case(trimmed(query), "SELECT DATABASE()"@) ==> session_canned(
            id,
            Some(db),
            s,
            query,
        ) == Some((seq!["DATABASE()"@], seq![seq![db]])),
        selects_no_variable(query) && same_ignoring_case(trimmed(query), "SELECT @@COLLATION_CONNECTION"@) ==> session_canned(
            id,
            Some(db),
            s,
            query,
        ) == Some((seq!["@@collation_connection"@], seq![seq![s.collation]])),
        selects_no_variable(query) && same_ignoring_case(trimmed(query), "SHOW GLOBAL VARIABLES LIKE 'T%_ISOLATION'"@)
            ==> session_canned(id, Some(db), s, query) == Some(
            (seq!["Variable_name"@, "Value"@], seq![seq!["transaction_isolation"@, s.isolation]]),
        ),
        same_ignoring_case(trimmed(query), "SELECT VERSION()"@) ==> canned(query, s.version, s.comment) == Some(
            (seq!["VERSION()"@], seq![seq![s.version]]),
        ),
        same_ignoring_case(trimmed(query), "SELECT @@VERSION"@) ==> canned(query, s.version, s.comment) == Some(
            (seq!["@@VERSION"@], seq![seq![s.version]]),
        ),
        same_ignoring_case(trimmed(query), "SELECT @@VERSION_COMMENT"@) ==> canned(query, s.version, s.comment) == Some(
            (seq!["@@VERSION_COMMENT"@], seq![seq![s.comment]]),
        ),
{
    reveal_strlit("SELECT CONNECTION_ID()");
    reveal_strlit("SELECT DATABASE()");
    reveal_strlit("SELECT @@COLLATION_CONNECTION");
    reveal_strlit("SHOW GLOBAL VARIABLES LIKE 'T%_ISOLATION'");
    reveal_strlit("SELECT VERSION()");
    reveal_strlit("SELECT @@VERSION");
    reveal_strlit("SELECT @@VERSION_COMMENT");
    assert(lowered("SELECT CONNECTION_ID()"@).len() == 22);
    assert(lowered("SELECT DATABASE()"@).len() == 17);
    assert(lowered("SELECT @@COLLATION_CONNECTION"@).len() == 29);
    assert(lowered("SHOW GLOBAL VARIABLES LIKE 'T%_ISOLATION'"@).len() == 41);
    assert(lowered("SELECT VERSION()"@).len() == 16);
    assert(lowered("SELECT @@VERSION"@).len() == 16);
    assert(lowered("SELECT @@VERSION_COMMENT"@).len() == 24);
    assert(lowered("SELECT VERSION()"@)[7] == 'v');
    assert(lowered("SELECT @@VERSION"@)[7] == '@');
}

/// A transaction is opened by BEGIN and START TRANSACTION and closed by COMMIT and ROLLBACK, and
/// by nothing else: going back to a savepoint, and statements that read or write, leave it as it
/// is.
pub proof fn transactions_open_and_close(open: bool, sql: Seq<char>)
    ensures
        ({
            let q = uppered(trimmed(sql));
            let after = transaction_step(open, sql);
            &&& begins(q, "BEGIN"@) || begins(q, "START TRANSACTION"@) ==> after
            &&& begins(q, "COMMIT"@) ==> !after
            &&& begins(q, "ROLLBACK"@) && !begins(q, "ROLLBACK TO"@) ==> !after
            &&& begins(q, "ROLLBACK TO"@) ==> after == open
            &&& begins(q, "SELECT"@) || begins(q, "INSERT"@) || begins(q, "UPDATE"@) || begins(q, "DELETE"@) || begins(
                q,
                "SAVEPOINT"@,
            ) || begins(q, "RELEASE"@) || begins(q, "SET"@) || q.len() == 0 ==> after == open
        }),
{
    let q = uppered(trimmed(sql));
    lemma_starts(q);
    reveal_strlit("BEGIN");
    reveal_strlit("START TRANSACTION");
    reveal_strlit("COMMIT");
    reveal_strlit("ROLLBACK");
    reveal_strlit("ROLLBACK TO");
    reveal_strlit("SELECT");
    reveal_strlit("INSERT");
    reveal_strlit("UPDATE");
    reveal_strlit("DELETE");
    reveal_strlit("SAVEPOINT");
    reveal_strlit("RELEASE");
    reveal_strlit("SET");
    assert("BEGIN"@[0] == 'B' && "BEGIN"@[1] == 'E' && "BEGIN"@.len() == 5);
    assert("START TRANSACTION"@[0] == 'S' && "START TRANSACTION"@[1] == 'T' && "START TRANSACTION"@.len() == 17);
    assert("COMMIT"@[0] == 'C' && "COMMIT"@[1] == 'O' && "COMMIT"@.len() == 6);
    assert("ROLLBACK"@[0] == 'R' && "ROLLBACK"@[1] == 'O' && "ROLLBACK"@.len() == 8);
    assert("ROLLBACK TO"@[0] == 'R' && "ROLLBACK TO"@[1] == 'O' && "ROLLBACK TO"@.len() == 11);
    assert("SELECT"@[0] == 'S' && "SELECT"@[1] == 'E' && "SELECT"@.len() == 6);
    assert("INSERT"@[0] == 'I' && "INSERT"@[1] == 'N' && "INSERT"@.len() == 6);
    assert("UPDATE"@[0] == 'U' && "UPDATE"@[1] == 'P' && "UPDATE"@.len() == 6);
    assert("DELETE"@[0] == 'D' && "DELETE"@[1] == 'E' && "DELETE"@.len() == 6);
    assert("SAVEPOINT"@[0] == 'S' && "SAVEPOINT"@[1] == 'A' && "SAVEPOINT"@.len() == 9);
    assert("RELEASE"@[0] == 'R' && "RELEASE"@[1] == 'E' && "RELEASE"@.len() == 7);
    assert("SET"@[0] == 'S' && "SET"@[1] == 'E' && "SET"@.len() == 3);
}

proof fn lemma_starts(q: Seq<char>)
    ensures
        forall|p: Seq<char>| #[trigger]
            begins(q, p) && p.len() > 1 ==> q.len() > 1 && q[0] == p[0] && q[1] == p[1] && q.len() >= p.len(),
        forall|p: Seq<char>, i: int| #![trigger begins(q, p), p[i]] begins(q, p) && 0 <= i < p.len() ==> q[i] == p[i],
{
    assert forall|p: Seq<char>, i: int| #![trigger begins(q, p), p[i]] begins(q, p) && 0 <= i < p.len() implies q[i]
        == p[i] by {
        assert(q.subrange(0, p.len() as int)[i] == q[i]);
    }
    assert forall|p: Seq<char>| #[trigger] begins(q, p) && p.len() > 1 implies q.len() > 1 && q[0] == p[0] && q[1] == p[1]
        && q.len() >= p.len() by {
        assert(q.subrange(0, p.len() as int)[0] == q[0]);
        assert(q.subrange(0, p.len() as int)[1] == q[1]);
    }
}

/// A refusal of the database is reported by the MySQL error that means the same.
pub proof fn refusals_have_their_error(message: Seq<char>)
    ensures
        occurs(message, "[23505]"@) && !occurs(message, "[42P01]"@) && !occurs(message, "[42703]"@) && !occurs(message, "[23502]"@) && !occurs(message, "[42P16]"@) && !occurs(message, "[42P07]"@) && !occurs(message, "[42701]"@) && !occurs(message, "[40P01]"@) && !occurs(message, "[42601]"@) ==> error_kind(message) == ErrorKind::DuplicateEntry,
        occurs(message, "[42P01]"@) && !occurs(message, "[23505]"@) && !occurs(message, "[42703]"@) && !occurs(message, "[23502]"@) && !occurs(message, "[42P16]"@) && !occurs(message, "[42P07]"@) && !occurs(message, "[42701]"@) && !occurs(message, "[40P01]"@) && !occurs(message, "[42601]"@) ==> error_kind(message) == ErrorKind::NoSuchTable,
        occurs(message, "[42703]"@) && !occurs(message, "[23505]"@) && !occurs(message, "[42P01]"@) && !occurs(message, "[23502]"@) && !occurs(message, "[42P16]"@) && !occurs(message, "[42P07]"@) && !occurs(message, "[42701]"@) && !occurs(message, "[40P01]"@) && !occurs(message, "[42601]"@) ==> error_kind(message) == ErrorKind::BadField,
        occurs(message, "[23502]"@) && !occurs(message, "[23505]"@) && !occurs(message, "[42P01]"@) && !occurs(message, "[42703]"@) && !occurs(message, "[42P16]"@) && !occurs(message, "[42P07]"@) && !occurs(message, "[42701]"@) && !occurs(message, "[40P01]"@) && !occurs(message, "[42601]"@) ==> error_kind(message) == ErrorKind::BadNull,
        occurs(message, "[42P16]"@) && !occurs(message, "[23505]"@) && !occurs(message, "[42P01]"@) && !occurs(message, "[42703]"@) && !occurs(message, "[23502]"@) && !occurs(message, "[42P07]"@) && !occurs(message, "[42701]"@) && !occurs(message, "[40P01]"@) && !occurs(message, "[42601]"@) ==> error_kind(message) == ErrorKind::MultiplePrimaryKey,
        occurs(message, "[42P07]"@) && !occurs(message, "[23505]"@) && !occurs(message, "[42P01]"@) && !occurs(message, "[42703]"@) && !occurs(message, "[23502]"@) && !occurs(message, "[42P16]"@) && !occurs(message, "[42701]"@) && !occurs(message, "[40P01]"@) && !occurs(message, "[42601]"@) ==> error_kind(message) == ErrorKind::TableExists,
        occurs(message, "[42701]"@) && !occurs(message, "[23505]"@) && !occurs(message, "[42P01]"@) && !occurs(message, "[42703]"@) && !occurs(message, "[23502]"@) && !occurs(message, "[42P16]"@) && !occurs(message, "[42P07]"@) && !occurs(message, "[40P01]"@) && !occurs(message, "[42601]"@) ==> error_kind(message) == ErrorKind::DuplicateField,
        occurs(message, "[40P01]"@) && !occurs(message, "[23505]"@) && !occurs(message, "[42P01]"@) && !occurs(message, "[42703]"@) && !occurs(message, "[23502]"@) && !occurs(message, "[42P16]"@) && !occurs(message, "[42P07]"@) && !occurs(message, "[42701]"@) && !occurs(message, "[42601]"@) ==> error_kind(message) == ErrorKind::Deadlock,
        occurs(message, "[42601]"@) && !occurs(message, "[23505]"@) && !occurs(message, "[42P01]"@) && !occurs(message, "[42703]"@) && !occurs(message, "[23502]"@) && !occurs(message, "[42P16]"@) && !occurs(message, "[42P07]"@) && !occurs(message, "[42701]"@) && !occurs(message, "[40P01]"@) ==> error_kind(message) == ErrorKind::Parse,
        !occurs(message, "[23505]"@) && !occurs(message, "[42P01]"@) && !occurs(message, "[42703]"@) && !occurs(message, "[23502]"@) && !occurs(message, "[42P16]"@) && !occurs(message, "[42P07]"@) && !occurs(message, "[42701]"@) && !occurs(message, "[40P01]"@) && !occurs(message, "[42601]"@) ==> error_kind(message) == ErrorKind::Unknown,
{
}

/// A statement that succeeded gives the session its insert id, where it has one, and leaves every
/// setting as it is.
pub proof fn successes_change_no_setting(s: State, sql: Seq<char>, id: u64)
    ensures
        after_success(s, sql, id).last_insert_id == (if id == 0 {
            s.last_insert_id
        } else {
            id
        }),
        after_success(s, sql, id).current_db == s.current_db,
        after_success(s, sql, id).charset == s.charset,
        after_success(s, sql, id).collation == s.collation,
        after_success(s, sql, id).sql_mode == s.sql_mode,
        after_success(s, sql, id).isolation == s.isolation,
        after_success(s, sql, id).prepared == s.prepared,
        after_success(s, sql, id).connection_id == s.connection_id,
        after_success(s, sql, id).next_statement_id == s.next_statement_id,
{
}

/// A session runs its statements in its database, where it has one.
pub proof fn statements_run_in_their_database(db: Seq<char>)
    ensures
        trimmed(db).len() > 0 ==> active_schema(Some(db)) == Some(db),
        trimmed(db).len() == 0 ==> active_schema(Some(db)) is None,
        active_schema(None) is None,
{
}

/// SET NAMES selects a character set with its own default collation, and refuses the character
/// sets that are not there.
pub proof fn character_sets_have_their_collations(charset: Seq<char>)
    ensures
        charset == "utf8"@ ==> default_collation(charset) == Some("utf8_general_ci"@),
        charset == "utf8mb4"@ ==> default_collation(charset) == Some("utf8mb4_general_ci"@),
        charset != "utf8"@ && charset != "utf8mb4"@ ==> default_collation(charset) is None,
{
    reveal_strlit("utf8");
    reveal_strlit("utf8mb4");
    assert("utf8"@.len() == 4);
    assert("utf8mb4"@.len() == 7);
}

/// SET NAMES with the name of a character set selects that one, and its default collation.
pub proof fn names_select_their_character_set(word: Seq<char>, name: Seq<char>)
    requires
        word.len() == 10,
        is_name(name),
    ensures
        lowered(name) == "utf8mb4"@ ==> set_names(word + name) == Ok::<(Seq<char>, Seq<char>), Failure>(
            ("utf8mb4"@, "utf8mb4_general_ci"@),
        ),
        lowered(name) == "utf8"@ || lowered(name) == "utf8mb3"@ ==> set_names(word + name) == Ok::<
            (Seq<char>, Seq<char>),
            Failure,
        >(("utf8"@, "utf8_general_ci"@)),
        lowered(name) == "latin1"@ || lowered(name) == "ascii"@ ==> set_names(word + name) is Err,
{
    reveal_strlit("utf8");
    reveal_strlit("utf8mb4");
    reveal_strlit("utf8mb3");
    reveal_strlit("latin1");
    reveal_strlit("ascii");
    assert("utf8"@.len() == 4);
    assert("utf8mb4"@.len() == 7);
    assert("utf8mb3"@.len() == 7);
    assert("latin1"@.len() == 6);
    assert("ascii"@.len() == 5);
    assert("utf8mb4"@[6] != "utf8mb3"@[6]);
    let sql = word + name;
    assert(sql.skip(10) =~= name);
    lemma_bare_name(name);
    lemma_one_word(name, 0);
    assert(name.take(name.len() as int) =~= name);
}

proof fn lemma_one_word(name: Seq<char>, i: int)
    requires
        is_name(name),
        0 <= i <= name.len(),
    ensures
        skip_nonspace(name, i) == name.len(),
    decreases name.len() - i,
{
    if i < name.len() {
        assert(is_word(name[i]));
        lemma_one_word(name, i + 1);
    }
}

proof fn lemma_word_stops(s: Seq<char>, i: int, e: int)
    requires
        0 <= i <= e <= s.len(),
        forall|j: int| i <= j < e ==> is_word(#[trigger] s[j]),
        e < s.len() ==> is_space(s[e]),
    ensures
        skip_nonspace(s, i) == e,
    decreases e - i,
{
    if i < e {
        assert(is_word(s[i]));
        lemma_word_stops(s, i + 1, e);
    }
}

/// An isolation level of two words is reported in capitals, with a hyphen between them.
pub proof fn isolation_levels_are_written_with_hyphens(a: Seq<char>, b: Seq<char>)
    requires
        is_name(a),
        is_name(b),
    ensures
        isolation_name(a + " "@ + b) == uppered(a) + "-"@ + uppered(b),
        isolation_name(a) == uppered(a),
{
    reveal_strlit(" ");
    reveal_strlit("-");
    let s = a + " "@ + b;
    let n = a.len() as int;
    lemma_words_two(a, b);
    assert(seq![a, b].drop_last() =~= seq![a]);
    assert(joined(seq![a], "-"@) == a);
    assert(joined(seq![a, b], "-"@) == a + "-"@ + b);
    assert(uppered(a + "-"@ + b) =~= uppered(a) + "-"@ + uppered(b));
}

proof fn lemma_words_two(a: Seq<char>, b: Seq<char>)
    requires
        is_name(a),
        is_name(b),
    ensures
        words_from(a + " "@ + b, 0) == seq![a, b],
        words_from(a, 0) == seq![a],
{
    reveal_strlit(" ");
    let s = a + " "@ + b;
    let n = a.len() as int;
    let m = s.len() as int;
    assert(is_word(a[0]) && is_word(b[0]));
    assert(s[0] == a[0]);
    assert forall|j: int| 0 <= j < n implies is_word(#[trigger] s[j]) by {
        assert(s[j] == a[j]);
    }
    assert(s[n] == ' ');
    lemma_word_stops(s, 0, n);
    assert(s.subrange(0, n) =~= a);
    assert(s[n + 1] == b[0]);
    assert(skip_space(s, n + 1) == n + 1);
    assert(skip_space(s, n) == n + 1);
    assert forall|j: int| n + 1 <= j < m implies is_word(#[trigger] s[j]) by {
        assert(s[j] == b[j - n - 1]);
    }
    lemma_word_stops(s, n + 1, m);
    assert(s.subrange(n + 1, m) =~= b);
    assert(words_from(s, m) =~= Seq::<Seq<char>>::empty());
    assert(words_from(s, n) =~= seq![b]);
    assert(words_from(s, 0) =~= seq![a, b]);
    lemma_word_stops(a, 0, n);
    assert(a.subrange(0, n) =~= a);
    assert(words_from(a, n) =~= Seq::<Seq<char>>::empty());
    assert(words_from(a, 0) =~= seq![a]);
}

/// A SQL mode that is set in quotes is remembered without them.
pub proof fn sql_modes_are_read_without_quotes(front: Seq<char>, mode: Seq<char>)
    requires
        lacks(front, '='),
        is_name(mode),
    ensures
        sql_mode_value(front + "= '"@ + mode + "'"@) == mode,
        sql_mode_value(front + "="@ + mode) == mode,
{
    reveal_strlit("= '");
    reveal_strlit("'");
    reveal_strlit("=");
    let k = front.len() as int;
    let p = seq!['='];
    let s = front + "= '"@ + mode + "'"@;
    assert(s.subrange(k, k + 1) =~= p);
    lemma_find_first(s, p, 0, k);
    assert forall|i: int| 0 <= i < k implies !#[trigger] occurs_at(s, p, i) by {
        assert(s.subrange(i, i + 1)[0] == s[i]);
        assert(s[i] == front[i]);
    }
    let quoted = seq!['\''] + mode + seq!['\''];
    assert(s.skip(k + 1) =~= seq![' '] + quoted);
    let t = seq![' '] + quoted;
    assert(t[0] == ' ');
    assert(t.skip(1) =~= quoted);
    lemma_bare_name(mode);
    assert(trimmed_start(quoted) == quoted);
    assert(trimmed_end(quoted) == quoted);
    assert(trimmed_start(t) == trimmed_start(t.skip(1)));
    assert(trimmed(t) == quoted);
    assert(unpadded_end(quoted, ';') == quoted);
    assert(quoted.skip(1) =~= mode + seq!['\'']);
    let half = mode + seq!['\''];
    assert(is_word(mode[0]) && is_word(mode[mode.len() - 1]));
    assert(half[0] == mode[0]);
    assert(unpadded_start(half, '\'') == half);
    assert(unpadded_start(quoted, '\'') == half);
    assert(half.drop_last() =~= mode);
    assert(unpadded_end(mode, '\'') == mode);
    assert(unpadded_end(half, '\'') == mode);
    assert(unpadded(quoted, '\'') == mode);
    let u = front + "="@ + mode;
    assert(u.subrange(k, k + 1) =~= p);
    lemma_find_first(u, p, 0, k);
    assert forall|i: int| 0 <= i < k implies !#[trigger] occurs_at(u, p, i) by {
        assert(u.subrange(i, i + 1)[0] == u[i]);
        assert(u[i] == front[i]);
    }
    assert(u.skip(k + 1) =~= mode);
    assert(unpadded_end(mode, ';') == mode);
}

/// A database is created and dropped under its own name.
pub proof fn databases_are_made_by_name(name: Seq<char>)
    requires
        is_name(name),
        name.len() != 2,
    ensures
        created_database("CREATE DATABASE "@ + name) == Some(name),
        dropped_database("DROP DATABASE "@ + name) == Some(name),
        dropped_database("CREATE DATABASE "@ + name) is None,
{
    lemma_database_after("CREATE DATABASE"@, name, "CREATE DATABASE "@);
    lemma_database_after("DROP DATABASE"@, name, "DROP DATABASE "@);
    reveal_strlit("CREATE DATABASE ");
    reveal_strlit("DROP DATABASE");
    reveal_strlit("drop database");
    let s = "CREATE DATABASE "@ + name;
    assert(s[0] == 'C');
    assert(is_word(name[name.len() - 1]));
    assert(s.last() == name[name.len() - 1]);
    lemma_bare(s);
    lemma_starts(s);
    assert("DROP DATABASE"@[0] == 'D' && "drop database"@[0] == 'd');
    assert("DROP DATABASE"@.len() == 13 && "drop database"@.len() == 13);
}

proof fn lemma_database_after(prefix: Seq<char>, name: Seq<char>, front: Seq<char>)
    requires
        is_name(name),
        prefix == "CREATE DATABASE"@ || prefix == "DROP DATABASE"@,
        front == prefix + seq![' '] || (prefix == "CREATE DATABASE"@ && front == "CREATE DATABASE "@) || (prefix
            == "DROP DATABASE"@ && front == "DROP DATABASE "@),
    ensures
        crate::frontend::database_after(front + name, prefix) == Some(name),
{
    reveal_strlit("CREATE DATABASE");
    reveal_strlit("DROP DATABASE");
    reveal_strlit("CREATE DATABASE ");
    reveal_strlit("DROP DATABASE ");
    reveal_strlit("IF NOT EXISTS ");
    reveal_strlit("IF EXISTS ");
    assert(front =~= prefix + seq![' ']);
    let s = front + name;
    assert(s[0] == prefix[0]);
    assert(is_word(name[0]));
    assert(is_word(name[name.len() - 1]));
    assert(s.last() == name[name.len() - 1]);
    lemma_bare(s);
    let n = prefix.len() as int;
    assert(s.subrange(0, n) =~= prefix);
    let tail = seq![' '] + name;
    assert(s.skip(n) =~= tail);
    lemma_bare_name(name);
    assert(tail.skip(1) =~= name);
    assert(tail[0] == ' ');
    assert(trimmed_start(tail) == trimmed_start(tail.skip(1)));
    assert(trimmed(tail) == name);
    lemma_starts(name);
    assert(!begins(name, "IF NOT EXISTS "@)) by {
        if begins(name, "IF NOT EXISTS "@) {
            assert("IF NOT EXISTS "@[2] == ' ');
            assert("IF NOT EXISTS "@.len() == 14);
            assert(is_word(name[2]));
        }
    }
    assert(!begins(name, "IF EXISTS "@)) by {
        if begins(name, "IF EXISTS "@) {
            assert("IF EXISTS "@[2] == ' ');
            assert("IF EXISTS "@.len() == 10);
            assert(is_word(name[2]));
        }
    }
    lemma_words_two(name, name);
}

/// A result has a column for each item of the SELECT list, in order: under its alias, or under the
/// last part of the column's name.
pub proof fn columns_are_named_as_selected(query: Tree, s: Tree, i: int)
    requires
        select_of(query) == Some(s),
        0 <= i < items(part(s, "projection"@)).len(),
    ensures
        query_columns(query).len() == items(part(s, "projection"@)).len(),
        ({
            let item = items(part(s, "projection"@))[i];
            let name = query_columns(query)[i];
            &&& payload(item, "ExprWithAlias"@) is Some ==> name == text_of(
                part(part(payload(item, "ExprWithAlias"@)->Some_0, "alias"@), "value"@),
            )
            &&& payload(item, "UnnamedExpr"@) is Some && payload(payload(item, "UnnamedExpr"@)->Some_0, "Identifier"@) is Some
                ==> name == text_of(
                part(payload(payload(item, "UnnamedExpr"@)->Some_0, "Identifier"@)->Some_0, "value"@),
            )
            &&& payload(item, "UnnamedExpr"@) is Some && payload(
                payload(item, "UnnamedExpr"@)->Some_0,
                "CompoundIdentifier"@,
            ) is Some && items(payload(payload(item, "UnnamedExpr"@)->Some_0, "CompoundIdentifier"@)->Some_0).len() > 0
                ==> name == text_of(
                part(items(payload(payload(item, "UnnamedExpr"@)->Some_0, "CompoundIdentifier"@)->Some_0).last(), "value"@),
            )
            &&& payload(item, "UnnamedExpr"@) is None && payload(item, "ExprWithAlias"@) is None ==> name == "*"@
        }),
{
    reveal_strlit("ExprWithAlias");
    reveal_strlit("UnnamedExpr");
    reveal_strlit("Identifier");
    reveal_strlit("CompoundIdentifier");
    assert("ExprWithAlias"@.len() == 13);
    assert("UnnamedExpr"@.len() == 11);
    assert("Identifier"@.len() == 10);
    assert("CompoundIdentifier"@.len() == 18);
}

/// The settings that mean nothing to PostgreSQL are taken without effect, and statements that read
/// or write are never taken for one.
pub proof fn settings_are_told_from_statements(query: Seq<char>)
    ensures
        ({
            let q = uppered(trimmed(query));
            &&& begins(q, "SET WAIT_TIMEOUT"@) ==> compat_noop(query)
            &&& begins(q, "SET SESSION WAIT_TIMEOUT"@) ==> compat_noop(query)
            &&& begins(q, "SET @@WAIT_TIMEOUT"@) ==> compat_noop(query)
            &&& begins(q, "SET @@SESSION.WAIT_TIMEOUT"@) ==> compat_noop(query)
            &&& begins(q, "SET INTERACTIVE_TIMEOUT"@) ==> compat_noop(query)
            &&& begins(q, "SET SESSION INTERACTIVE_TIMEOUT"@) ==> compat_noop(query)
            &&& begins(q, "SET SESSION GROUP_CONCAT_MAX_LEN"@) ==> compat_noop(query)
            &&& begins(q, "SET @@SESSION.GROUP_CONCAT_MAX_LEN"@) ==> compat_noop(query)
            &&& begins(q, "SET SESSION CHARACTER_SET_CLIENT"@) ==> compat_noop(query)
            &&& begins(q, "SET SESSION CHARACTER_SET_RESULTS"@) ==> compat_noop(query)
            &&& begins(q, "SET CHARACTER_SET_CLIENT"@) ==> compat_noop(query)
            &&& begins(q, "SET CHARACTER_SET_RESULTS"@) ==> compat_noop(query)
            &&& begins(q, "SET TIME_ZONE"@) ==> compat_noop(query)
            &&& begins(q, "SET SESSION TIME_ZONE"@) ==> compat_noop(query)
            &&& begins(q, "SET FOREIGN_KEY_CHECKS"@) ==> compat_noop(query)
            &&& begins(q, "SET UNIQUE_CHECKS"@) ==> compat_noop(query)
            &&& begins(q, "SET SQL_NOTES"@) ==> compat_noop(query)
            &&& begins(q, "SET NAMES "@) ==> compat_noop(query)
            &&& begins(q, "SET SQL_MODE"@) ==> compat_noop(query)
            &&& begins(q, "SET SESSION SQL_MODE"@) ==> compat_noop(query)
            &&& begins(q, "SET TRANSACTION ISOLATION LEVEL"@) ==> compat_noop(query)
            &&& begins(q, "SET SESSION TRANSACTION ISOLATION LEVEL"@) ==> compat_noop(query)
            &&& begins(q, "SELECT"@) ==> !compat_noop(query)
            &&& begins(q, "INSERT"@) ==> !compat_noop(query)
            &&& begins(q, "UPDATE"@) ==> !compat_noop(query)
            &&& begins(q, "DELETE"@) ==> !compat_noop(query)
            &&& begins(q, "CREATE TABLE"@) ==> !compat_noop(query)
            &&& begins(q, "ALTER"@) ==> !compat_noop(query)
            &&& begins(q, "DROP TABLE"@) ==> !compat_noop(query)
            &&& begins(q, "TRUNCATE"@) ==> !compat_noop(query)
            &&& begins(q, "BEGIN"@) ==> !compat_noop(query)
            &&& begins(q, "COMMIT"@) ==> !compat_noop(query)
            &&& begins(q, "SHOW"@) ==> !compat_noop(query)
        }),
{
    let q = uppered(trimmed(query));
    lemma_starts(q);
    reveal_strlit("SET WAIT_TIMEOUT");
    reveal_strlit("SET SESSION WAIT_TIMEOUT");
    reveal_strlit("SET @@WAIT_TIMEOUT");
    reveal_strlit("SET @@SESSION.WAIT_TIMEOUT");
    reveal_strlit("SET INTERACTIVE_TIMEOUT");
    reveal_strlit("SET SESSION INTERACTIVE_TIMEOUT");
    reveal_strlit("SET @@INTERACTIVE_TIMEOUT");
    reveal_strlit("SET @@SESSION.INTERACTIVE_TIMEOUT");
    reveal_strlit("SET SESSION GROUP_CONCAT_MAX_LEN");
    reveal_strlit("SET @@SESSION.GROUP_CONCAT_MAX_LEN");
    reveal_strlit("SET @@GROUP_CONCAT_MAX_LEN");
    reveal_strlit("SET @@INNODB_LOCK_WAIT_TIMEOUT");
    reveal_strlit("SET @@SESSION.INNODB_LOCK_WAIT_TIMEOUT");
    reveal_strlit("SET SESSION SQL_REQUIRE_PRIMARY_KEY");
    reveal_strlit("SET @@SESSION.SQL_REQUIRE_PRIMARY_KEY");
    reveal_strlit("SET @@SQL_REQUIRE_PRIMARY_KEY");
    reveal_strlit("SET GLOBAL INNODB_FORCE_PRIMARY_KEY");
    reveal_strlit("SET SESSION CHARACTER_SET_CLIENT");
    reveal_strlit("SET SESSION CHARACTER_SET_RESULTS");
    reveal_strlit("SET SESSION COLLATION_CONNECTION");
    reveal_strlit("SET CHARACTER_SET_CLIENT");
    reveal_strlit("SET CHARACTER_SET_RESULTS");
    reveal_strlit("SET COLLATION_CONNECTION");
    reveal_strlit("SET TIME_ZONE");
    reveal_strlit("SET SESSION TIME_ZONE");
    reveal_strlit("SET FOREIGN_KEY_CHECKS");
    reveal_strlit("SET UNIQUE_CHECKS");
    reveal_strlit("SET SQL_NOTES");
    reveal_strlit("SET SESSION TRANSACTION ISOLATION LEVEL");
    reveal_strlit("SET TRANSACTION ISOLATION LEVEL");
    reveal_strlit("SET NAMES ");
    reveal_strlit("SET SQL_MODE");
    reveal_strlit("SET SESSION SQL_MODE");
    reveal_strlit("SET @@SQL_MODE");
    reveal_strlit("SET @@SESSION.SQL_MODE");
    reveal_strlit("CREATE DATABASE ");
    reveal_strlit("DROP DATABASE ");
    reveal_strlit("SELECT");
    reveal_strlit("INSERT");
    reveal_strlit("UPDATE");
    reveal_strlit("DELETE");
    reveal_strlit("CREATE TABLE");
    reveal_strlit("ALTER");
    reveal_strlit("DROP TABLE");
    reveal_strlit("TRUNCATE");
    reveal_strlit("BEGIN");
    reveal_strlit("COMMIT");
    reveal_strlit("SHOW");
    assert("SET WAIT_TIMEOUT"@.len() == 16 && "SET WAIT_TIMEOUT"@[0] == 'S' && "SET WAIT_TIMEOUT"@[1] == 'E');
    assert("SET SESSION WAIT_TIMEOUT"@.len() == 24 && "SET SESSION WAIT_TIMEOUT"@[0] == 'S' && "SET SESSION WAIT_TIMEOUT"@[1] == 'E');
    assert("SET @@WAIT_TIMEOUT"@.len() == 18 && "SET @@WAIT_TIMEOUT"@[0] == 'S' && "SET @@WAIT_TIMEOUT"@[1] == 'E');
    assert("SET @@SESSION.WAIT_TIMEOUT"@.len() == 26 && "SET @@SESSION.WAIT_TIMEOUT"@[0] == 'S' && "SET @@SESSION.WAIT_TIMEOUT"@[1] == 'E');
    assert("SET INTERACTIVE_TIMEOUT"@.len() == 23 && "SET INTERACTIVE_TIMEOUT"@[0] == 'S' && "SET INTERACTIVE_TIMEOUT"@[1] == 'E');
    assert("SET SESSION INTERACTIVE_TIMEOUT"@.len() == 31 && "SET SESSION INTERACTIVE_TIMEOUT"@[0] == 'S' && "SET SESSION INTERACTIVE_TIMEOUT"@[1] == 'E');
    assert("SET @@INTERACTIVE_TIMEOUT"@.len() == 25 && "SET @@INTERACTIVE_TIMEOUT"@[0] == 'S' && "SET @@INTERACTIVE_TIMEOUT"@[1] == 'E');
    assert("SET @@SESSION.INTERACTIVE_TIMEOUT"@.len() == 33 && "SET @@SESSION.INTERACTIVE_TIMEOUT"@[0] == 'S' && "SET @@SESSION.INTERACTIVE_TIMEOUT"@[1] == 'E');
    assert("SET SESSION GROUP_CONCAT_MAX_LEN"@.len() == 32 && "SET SESSION GROUP_CONCAT_MAX_LEN"@[0] == 'S' && "SET SESSION GROUP_CONCAT_MAX_LEN"@[1] == 'E');
    assert("SET @@SESSION.GROUP_CONCAT_MAX_LEN"@.len() == 34 && "SET @@SESSION.GROUP_CONCAT_MAX_LEN"@[0] == 'S' && "SET @@SESSION.GROUP_CONCAT_MAX_LEN"@[1] == 'E');
    assert("SET @@GROUP_CONCAT_MAX_LEN"@.len() == 26 && "SET @@GROUP_CONCAT_MAX_LEN"@[0] == 'S' && "SET @@GROUP_CONCAT_MAX_LEN"@[1] == 'E');
    assert("SET @@INNODB_LOCK_WAIT_TIMEOUT"@.len() == 30 && "SET @@INNODB_LOCK_WAIT_TIMEOUT"@[0] == 'S' && "SET @@INNODB_LOCK_WAIT_TIMEOUT"@[1] == 'E');
    assert("SET @@SESSION.INNODB_LOCK_WAIT_TIMEOUT"@.len() == 38 && "SET @@SESSION.INNODB_LOCK_WAIT_TIMEOUT"@[0] == 'S' && "SET @@SESSION.INNODB_LOCK_WAIT_TIMEOUT"@[1] == 'E');
    assert("SET SESSION SQL_REQUIRE_PRIMARY_KEY"@.len() == 35 && "SET SESSION SQL_REQUIRE_PRIMARY_KEY"@[0] == 'S' && "SET SESSION SQL_REQUIRE_PRIMARY_KEY"@[1] == 'E');
    assert("SET @@SESSION.SQL_REQUIRE_PRIMARY_KEY"@.len() == 37 && "SET @@SESSION.SQL_REQUIRE_PRIMARY_KEY"@[0] == 'S' && "SET @@SESSION.SQL_REQUIRE_PRIMARY_KEY"@[1] == 'E');
    assert("SET @@SQL_REQUIRE_PRIMARY_KEY"@.len() == 29 && "SET @@SQL_REQUIRE_PRIMARY_KEY"@[0] == 'S' && "SET @@SQL_REQUIRE_PRIMARY_KEY"@[1] == 'E');
    assert("SET GLOBAL INNODB_FORCE_PRIMARY_KEY"@.len() == 35 && "SET GLOBAL INNODB_FORCE_PRIMARY_KEY"@[0] == 'S' && "SET GLOBAL INNODB_FORCE_PRIMARY_KEY"@[1] == 'E');
    assert("SET SESSION CHARACTER_SET_CLIENT"@.len() == 32 && "SET SESSION CHARACTER_SET_CLIENT"@[0] == 'S' && "SET SESSION CHARACTER_SET_CLIENT"@[1] == 'E');
    assert("SET SESSION CHARACTER_SET_RESULTS"@.len() == 33 && "SET SESSION CHARACTER_SET_RESULTS"@[0] == 'S' && "SET SESSION CHARACTER_SET_RESULTS"@[1] == 'E');
    assert("SET SESSION COLLATION_CONNECTION"@.len() == 32 && "SET SESSION COLLATION_CONNECTION"@[0] == 'S' && "SET SESSION COLLATION_CONNECTION"@[1] == 'E');
    assert("SET CHARACTER_SET_CLIENT"@.len() == 24 && "SET CHARACTER_SET_CLIENT"@[0] == 'S' && "SET CHARACTER_SET_CLIENT"@[1] == 'E');
    assert("SET CHARACTER_SET_RESULTS"@.len() == 25 && "SET CHARACTER_SET_RESULTS"@[0] == 'S' && "SET CHARACTER_SET_RESULTS"@[1] == 'E');
    assert("SET COLLATION_CONNECTION"@.len() == 24 && "SET COLLATION_CONNECTION"@[0] == 'S' && "SET COLLATION_CONNECTION"@[1] == 'E');
    assert("SET TIME_ZONE"@.len() == 13 && "SET TIME_ZONE"@[0] == 'S' && "SET TIME_ZONE"@[1] == 'E');
    assert("SET SESSION TIME_ZONE"@.len() == 21 && "SET SESSION TIME_ZONE"@[0] == 'S' && "SET SESSION TIME_ZONE"@[1] == 'E');
    assert("SET FOREIGN_KEY_CHECKS"@.len() == 22 && "SET FOREIGN_KEY_CHECKS"@[0] == 'S' && "SET FOREIGN_KEY_CHECKS"@[1] == 'E');
    assert("SET UNIQUE_CHECKS"@.len() == 17 && "SET UNIQUE_CHECKS"@[0] == 'S' && "SET UNIQUE_CHECKS"@[1] == 'E');
    assert("SET SQL_NOTES"@.len() == 13 && "SET SQL_NOTES"@[0] == 'S' && "SET SQL_NOTES"@[1] == 'E');
    assert("SET SESSION TRANSACTION ISOLATION LEVEL"@.len() == 39 && "SET SESSION TRANSACTION ISOLATION LEVEL"@[0] == 'S' && "SET SESSION TRANSACTION ISOLATION LEVEL"@[1] == 'E');
    assert("SET TRANSACTION ISOLATION LEVEL"@.len() == 31 && "SET TRANSACTION ISOLATION LEVEL"@[0] == 'S' && "SET TRANSACTION ISOLATION LEVEL"@[1] == 'E');
    assert("SET NAMES "@.len() == 10 && "SET NAMES "@[0] == 'S' && "SET NAMES "@[1] == 'E');
    assert("SET SQL_MODE"@.len() == 12 && "SET SQL_MODE"@[0] == 'S' && "SET SQL_MODE"@[1] == 'E');
    assert("SET SESSION SQL_MODE"@.len() == 20 && "SET SESSION SQL_MODE"@[0] == 'S' && "SET SESSION SQL_MODE"@[1] == 'E');
    assert("SET @@SQL_MODE"@.len() == 14 && "SET @@SQL_MODE"@[0] == 'S' && "SET @@SQL_MODE"@[1] == 'E');
    assert("SET @@SESSION.SQL_MODE"@.len() == 22 && "SET @@SESSION.SQL_MODE"@[0] == 'S' && "SET @@SESSION.SQL_MODE"@[1] == 'E');
    assert("CREATE DATABASE "@.len() == 16 && "CREATE DATABASE "@[0] == 'C' && "CREATE DATABASE "@[1] == 'R');
    assert("DROP DATABASE "@.len() == 14 && "DROP DATABASE "@[0] == 'D' && "DROP DATABASE "@[1] == 'R');
    assert("SELECT"@.len() == 6 && "SELECT"@[0] == 'S' && "SELECT"@[1] == 'E');
    assert("INSERT"@.len() == 6 && "INSERT"@[0] == 'I' && "INSERT"@[1] == 'N');
    assert("UPDATE"@.len() == 6 && "UPDATE"@[0] == 'U' && "UPDATE"@[1] == 'P');
    assert("DELETE"@.len() == 6 && "DELETE"@[0] == 'D' && "DELETE"@[1] == 'E');
    assert("CREATE TABLE"@.len() == 12 && "CREATE TABLE"@[0] == 'C' && "CREATE TABLE"@[1] == 'R');
    assert("ALTER"@.len() == 5 && "ALTER"@[0] == 'A' && "ALTER"@[1] == 'L');
    assert("DROP TABLE"@.len() == 10 && "DROP TABLE"@[0] == 'D' && "DROP TABLE"@[1] == 'R');
    assert("TRUNCATE"@.len() == 8 && "TRUNCATE"@[0] == 'T' && "TRUNCATE"@[1] == 'R');
    assert("BEGIN"@.len() == 5 && "BEGIN"@[0] == 'B' && "BEGIN"@[1] == 'E');
    assert("COMMIT"@.len() == 6 && "COMMIT"@[0] == 'C' && "COMMIT"@[1] == 'O');
    assert("SHOW"@.len() == 4 && "SHOW"@[0] == 'S' && "SHOW"@[1] == 'H');
    assert("SET WAIT_TIMEOUT"@[2] == 'T');
    assert("SET SESSION WAIT_TIMEOUT"@[2] == 'T');
    assert("SET @@WAIT_TIMEOUT"@[2] == 'T');
    assert("SET @@SESSION.WAIT_TIMEOUT"@[2] == 'T');
    assert("SET INTERACTIVE_TIMEOUT"@[2] == 'T');
    assert("SET SESSION INTERACTIVE_TIMEOUT"@[2] == 'T');
    assert("SET @@INTERACTIVE_TIMEOUT"@[2] == 'T');
    assert("SET @@SESSION.INTERACTIVE_TIMEOUT"@[2] == 'T');
    assert("SET SESSION GROUP_CONCAT_MAX_LEN"@[2] == 'T');
    assert("SET @@SESSION.GROUP_CONCAT_MAX_LEN"@[2] == 'T');
    assert("SET @@GROUP_CONCAT_MAX_LEN"@[2] == 'T');
    assert("SET @@INNODB_LOCK_WAIT_TIMEOUT"@[2] == 'T');
    assert("SET @@SESSION.INNODB_LOCK_WAIT_TIMEOUT"@[2] == 'T');
    assert("SET SESSION SQL_REQUIRE_PRIMARY_KEY"@[2] == 'T');
    assert("SET @@SESSION.SQL_REQUIRE_PRIMARY_KEY"@[2] == 'T');
    assert("SET @@SQL_REQUIRE_PRIMARY_KEY"@[2] == 'T');
    assert("SET GLOBAL INNODB_FORCE_PRIMARY_KEY"@[2] == 'T');
    assert("SET SESSION CHARACTER_SET_CLIENT"@[2] == 'T');
    assert("SET SESSION CHARACTER_SET_RESULTS"@[2] == 'T');
    assert("SET SESSION COLLATION_CONNECTION"@[2] == 'T');
    assert("SET CHARACTER_SET_CLIENT"@[2] == 'T');
    assert("SET CHARACTER_SET_RESULTS"@[2] == 'T');
    assert("SET COLLATION_CONNECTION"@[2] == 'T');
    assert("SET TIME_ZONE"@[2] == 'T');
    assert("SET SESSION TIME_ZONE"@[2] == 'T');
    assert("SET FOREIGN_KEY_CHECKS"@[2] == 'T');
    assert("SET UNIQUE_CHECKS"@[2] == 'T');
    assert("SET SQL_NOTES"@[2] == 'T');
    assert("SET SESSION TRANSACTION ISOLATION LEVEL"@[2] == 'T');
    assert("SET TRANSACTION ISOLATION LEVEL"@[2] == 'T');
    assert("SET NAMES "@[2] == 'T');
    assert("SET SQL_MODE"@[2] == 'T');
    assert("SET SESSION SQL_MODE"@[2] == 'T');
    assert("SET @@SQL_MODE"@[2] == 'T');
    assert("SET @@SESSION.SQL_MODE"@[2] == 'T');
    assert("CREATE DATABASE "@[2] == 'E');
    assert("DROP DATABASE "@[2] == 'O');
    assert("SELECT"@[2] == 'L');
    assert("CREATE DATABASE "@[7] == 'D' && "CREATE TABLE"@[7] == 'T');
    assert("DROP DATABASE "@[5] == 'D' && "DROP TABLE"@[5] == 'T');
}

/// The mode of a session, and what the configuration says, decide whether double quotes hold
/// names; nothing else of the configuration changes.
pub proof fn modes_change_quotes_alone(s: State)
    ensures
        session_config(s).rewrite_limit_comma == s.config.rewrite_limit_comma,
        session_config(s).normalize_mysql_backticks == s.config.normalize_mysql_backticks,
        session_config(s).normalize_boolean_literals == s.config.normalize_boolean_literals,
        session_config(s).rewrite_mysql_functions == s.config.rewrite_mysql_functions,
        session_config(s).rewrite_json_operators == s.config.rewrite_json_operators,
        session_config(s).strip_mysql_table_options == s.config.strip_mysql_table_options,
        s.config.ansi_quotes ==> session_config(s).ansi_quotes,
        lowered(s.sql_mode) == lowered("ANSI_QUOTES"@) || lowered(s.sql_mode) == lowered("ANSI"@) ==> session_config(
            s,
        ).ansi_quotes,
        !s.config.ansi_quotes && (s.sql_mode == "TRADITIONAL"@ || s.sql_mode == "STRICT_TRANS_TABLES"@ || s.sql_mode
            == ""@) ==> !session_config(s).ansi_quotes,
{
    let m = s.sql_mode;
    reveal_strlit("ANSI_QUOTES");
    reveal_strlit("ANSI");
    reveal_strlit("TRADITIONAL");
    reveal_strlit("STRICT_TRANS_TABLES");
    reveal_strlit("");
    assert("ANSI_QUOTES"@.len() == 11);
    assert("ANSI"@.len() == 4);
    assert("TRADITIONAL"@.len() == 11);
    assert("STRICT_TRANS_TABLES"@.len() == 19);
    assert(""@.len() == 0);
    assert("ANSI_QUOTES"@[0] != "TRADITIONAL"@[0]);
    if lowered(m) == lowered("ANSI_QUOTES"@) || lowered(m) == lowered("ANSI"@) {
        let w = if lowered(m) == lowered("ANSI"@) {
            "ANSI"@
        } else {
            "ANSI_QUOTES"@
        };
        assert(lowered(m).len() == m.len() && lowered(w).len() == w.len());
        assert forall|i: int| 0 <= i < m.len() implies is_word(#[trigger] m[i]) by {
            assert(lowered(m)[i] == lower(m[i]));
            assert(lowered(w)[i] == lower(w[i]));
            assert(is_word(w[i]));
        }
        assert(is_name(m));
        lemma_bare_name(m);
        lemma_one_item(m);
        assert(split(m, ',')[0] == m);
        assert(crate::frontend::is_ansi_word(split(m, ',')[0]));
    }
    if m == "TRADITIONAL"@ || m == "STRICT_TRANS_TABLES"@ || m == ""@ {
        lemma_one_item(m);
        if m.len() > 0 {
            assert(is_name(m));
            lemma_bare_name(m);
        }
        assert(lowered(m).len() == m.len());
        assert(lowered("ANSI"@).len() == 4);
        assert(lowered("ANSI_QUOTES"@).len() == 11);
        assert(m == "TRADITIONAL"@ ==> lowered(m)[0] == 't' && lowered("ANSI_QUOTES"@)[0] == 'a');
    }
}

proof fn lemma_one_item(m: Seq<char>)
    requires
        forall|i: int| 0 <= i < m.len() ==> is_word(#[trigger] m[i]),
    ensures
        split(m, ',') == seq![m],
{
    assert(lacks(m, ',')) by {
        assert forall|i: int| 0 <= i < m.len() implies #[trigger] m[i] != ',' by {
            assert(is_word(m[i]));
        }
    }
    crate::text::lemma_split_whole(m, ',');
}

/// A session starts in its database, without a transaction, with MySQL's defaults, and with no
/// statement prepared.
pub proof fn sessions_start_fresh(id: u32, config: TranslatorConfig, version: Seq<char>, comment: Seq<char>, db: Option<Seq<char>>)
    ensures
        ({
            let s = opened(id, config, version, comment, db);
            &&& s.connection_id == id
            &&& s.config == config
            &&& s.version == version
            &&& s.version_comment == comment
            &&& s.current_db == db
            &&& s.last_insert_id == 0
            &&& s.charset == "utf8mb4"@
            &&& s.collation == "utf8mb4_general_ci"@
            &&& s.sql_mode == "NO_AUTO_VALUE_ON_ZERO"@
            &&& s.isolation == "REPEATABLE-READ"@
            &&& !s.in_transaction
            &&& s.prepared == Map::<u32, crate::session::Prepared>::empty()
        }),
{
}

/// A setting changes itself alone: the database, the prepared statements, the insert id and the
/// transaction stay as they are, and of the settings only the one that is set changes.
pub proof fn settings_change_themselves_alone(s: State, query: Seq<char>)
    ensures
        after_session_query(s, query) matches Ok(Some(next)) ==> {
            &&& next.current_db == s.current_db
            &&& next.prepared == s.prepared
            &&& next.next_statement_id == s.next_statement_id
            &&& next.last_insert_id == s.last_insert_id
            &&& next.in_transaction == s.in_transaction
            &&& next.connection_id == s.connection_id
            &&& next.config == s.config
            &&& next.version == s.version
            &&& next.version_comment == s.version_comment
            &&& next.isolation != s.isolation ==> next.sql_mode == s.sql_mode && next.charset == s.charset && next.collation
                == s.collation
            &&& next.sql_mode != s.sql_mode ==> next.charset == s.charset && next.collation == s.collation
        },
{
}

proof fn lemma_front(q: Seq<char>, front: Seq<char>, rest: Seq<char>)
    requires
        q == front + rest,
    ensures
        uppered(front) == front ==> begins(uppered(q), front),
        forall|p: Seq<char>| #[trigger] begins(uppered(q), p) && uppered(front) == front ==> forall|i: int|
            0 <= i < p.len() && i < front.len() ==> p[i] == #[trigger] front[i],
{
    lemma_upper_front(front, rest);
    assert forall|p: Seq<char>| #[trigger] begins(uppered(q), p) && uppered(front) == front implies forall|i: int|
        0 <= i < p.len() && i < front.len() ==> p[i] == #[trigger] front[i] by {
        assert forall|i: int| 0 <= i < p.len() && i < front.len() implies p[i] == #[trigger] front[i] by {
            assert(uppered(q).subrange(0, p.len() as int)[i] == uppered(q)[i]);
            assert(uppered(q).subrange(0, front.len() as int)[i] == uppered(q)[i]);
        }
    }
}

/// An isolation level that is set is the one that is reported.
pub proof fn isolation_levels_are_set(s: State, a: Seq<char>, b: Seq<char>)
    requires
        is_name(a),
        is_name(b),
    ensures
        after_session_query(s, "SET TRANSACTION ISOLATION LEVEL "@ + (a + " "@ + b)) == Ok::<Option<State>, Failure>(
            Some(State { isolation: uppered(a) + "-"@ + uppered(b), ..s }),
        ),
        after_session_query(s, "SET SESSION TRANSACTION ISOLATION LEVEL "@ + (a + " "@ + b)) == Ok::<Option<State>, Failure>(
            Some(State { isolation: uppered(a) + "-"@ + uppered(b), ..s }),
        ),
{
    reveal_strlit(" ");
    reveal_strlit("SET TRANSACTION ISOLATION LEVEL ");
    assert("SET TRANSACTION ISOLATION LEVEL "@.len() == 32);
    reveal_strlit("SET SESSION TRANSACTION ISOLATION LEVEL ");
    assert("SET SESSION TRANSACTION ISOLATION LEVEL "@.len() == 40);
    reveal_strlit("SET NAMES ");
    assert("SET NAMES "@.len() == 10);
    reveal_strlit("SET SQL_MODE");
    assert("SET SQL_MODE"@.len() == 12);
    reveal_strlit("SET SESSION SQL_MODE");
    assert("SET SESSION SQL_MODE"@.len() == 20);
    reveal_strlit("SET @@SQL_MODE");
    assert("SET @@SQL_MODE"@.len() == 14);
    reveal_strlit("SET @@SESSION.SQL_MODE");
    assert("SET @@SESSION.SQL_MODE"@.len() == 22);
    let level = a + " "@ + b;
    let f = "SET TRANSACTION ISOLATION LEVEL "@;
    let g = "SET SESSION TRANSACTION ISOLATION LEVEL "@;
    let q = f + level;
    let r = g + level;
    assert(is_word(a[0]) && is_word(b[b.len() - 1]));
    assert(level[0] == a[0]);
    assert(level.last() == b[b.len() - 1]);
    assert(q[0] == 'S' && r[0] == 'S');
    assert(q.last() == level.last() && r.last() == level.last());
    lemma_bare(q);
    lemma_bare(r);
    lemma_bare(level);
    assert(uppered(f) =~= f);
    assert(uppered(g) =~= g);
    lemma_front(q, f, level);
    lemma_front(r, g, level);
    assert(f[4] == 'T' && g[4] == 'S' && g[5] == 'E' && g[12] == 'T');
    assert("SET NAMES "@[4] == 'N' && "SET SQL_MODE"@[4] == 'S' && "SET SQL_MODE"@[5] == 'Q');
    assert("SET SESSION SQL_MODE"@[4] == 'S' && "SET SESSION SQL_MODE"@[12] == 'S');
    assert("SET @@SQL_MODE"@[4] == '@' && "SET @@SESSION.SQL_MODE"@[4] == '@');
    assert(q.skip(32) =~= level);
    assert(r.skip(40) =~= level);
    isolation_levels_are_written_with_hyphens(a, b);
}

/// The columns of what SHOW returns are announced as MySQL names them.
pub proof fn shown_columns_are_announced(query: Seq<char>)
    ensures
        ({
            let q = uppered(trimmed(query));
            &&& begins(q, "SHOW VARIABLES"@) || begins(q, "SHOW STATUS"@) ==> show_columns(query) == Some(
                seq!["Variable_name"@, "Value"@],
            )
            &&& begins(q, "SHOW CHARACTER SET"@) ==> show_columns(query) == Some(
                seq!["Charset"@, "Description"@, "Default collation"@, "Maxlen"@],
            )
            &&& begins(q, "SHOW TABLES"@) ==> show_columns(query) == Some(seq!["Tables_in_current_schema"@])
            &&& begins(q, "SHOW INDEX"@) || begins(q, "SHOW KEYS"@) ==> show_columns(query) is Some && show_columns(
                query,
            )->Some_0.len() == 15 && show_columns(query)->Some_0[0] == "Table"@ && show_columns(query)->Some_0[1]
                == "Non_unique"@ && show_columns(query)->Some_0[2] == "Key_name"@ && show_columns(query)->Some_0[3]
                == "Seq_in_index"@ && show_columns(query)->Some_0[4] == "Column_name"@
            &&& begins(q, "SELECT"@) ==> show_columns(query) is None
        }),
{
    let q = uppered(trimmed(query));
    lemma_starts(q);
    reveal_strlit("SHOW VARIABLES");
    assert("SHOW VARIABLES"@.len() == 14 && "SHOW VARIABLES"@[0] == 'S' && "SHOW VARIABLES"@[1] == 'H');
    reveal_strlit("SHOW STATUS");
    assert("SHOW STATUS"@.len() == 11 && "SHOW STATUS"@[0] == 'S' && "SHOW STATUS"@[1] == 'H');
    reveal_strlit("SHOW CHARACTER SET");
    assert("SHOW CHARACTER SET"@.len() == 18 && "SHOW CHARACTER SET"@[0] == 'S' && "SHOW CHARACTER SET"@[1] == 'H');
    reveal_strlit("SHOW TABLES");
    assert("SHOW TABLES"@.len() == 11 && "SHOW TABLES"@[0] == 'S' && "SHOW TABLES"@[1] == 'H');
    reveal_strlit("SHOW INDEX");
    assert("SHOW INDEX"@.len() == 10 && "SHOW INDEX"@[0] == 'S' && "SHOW INDEX"@[1] == 'H');
    reveal_strlit("SHOW INDEXES");
    assert("SHOW INDEXES"@.len() == 12 && "SHOW INDEXES"@[0] == 'S' && "SHOW INDEXES"@[1] == 'H');
    reveal_strlit("SHOW KEYS");
    assert("SHOW KEYS"@.len() == 9 && "SHOW KEYS"@[0] == 'S' && "SHOW KEYS"@[1] == 'H');
    reveal_strlit("SELECT");
    assert("SELECT"@.len() == 6 && "SELECT"@[0] == 'S' && "SELECT"@[1] == 'E');
    assert("SHOW VARIABLES"@[5] == 'V');
    assert("SHOW STATUS"@[5] == 'S');
    assert("SHOW CHARACTER SET"@[5] == 'C');
    assert("SHOW TABLES"@[5] == 'T');
    assert("SHOW INDEX"@[5] == 'I');
    assert("SHOW INDEXES"@[5] == 'I');
    assert("SHOW KEYS"@[5] == 'K');
}

/// A text that runs several statements is taken apart into them, in order and without blanks around
/// them.
pub proof fn texts_are_taken_apart_at_semicolons(a: Seq<char>, b: Seq<char>)
    requires
        lacks(a, ';'),
        lacks(b, ';'),
    ensures
        trimmed(a).len() > 0 && trimmed(b).len() > 0 ==> statements_of(a + seq![';'] + b) == seq![trimmed(a), trimmed(b)],
        trimmed(a).len() > 0 && trimmed(b).len() == 0 ==> statements_of(a + seq![';'] + b) == seq![trimmed(a)],
        trimmed(a).len() > 0 ==> statements_of(a) == seq![trimmed(a)],
{
    crate::laws::functions::lemma_split_two(a, b, ';');
    crate::text::lemma_split_whole(a, ';');
    reveal_with_fuel(crate::session::filled_parts, 3);
    if trimmed(a).len() > 0 {
        assert(crate::session::filled_parts(seq![a], 1) =~= seq![trimmed(a)]);
        assert(crate::session::filled_parts(seq![a, b], 1) =~= seq![trimmed(a)]);
        if trimmed(b).len() > 0 {
            assert(crate::session::filled_parts(seq![a, b], 2) =~= seq![trimmed(a), trimmed(b)]);
        }
    }
}

/// An option table that is missing is answered with no rows, under the columns that were asked for;
/// no other failure is.
pub proof fn missing_options_are_answered_with_nothing(original: Seq<char>, rendered: Seq<char>, message: Seq<char>)
    ensures
        ({
            let r = crate::session::missing_option_columns(original, rendered, message);
            let q = uppered(trimmed_start(rendered));
            let missing = occurs(message, "relation \"matomo_option\" does not exist"@) || occurs(
                message,
                "relation \"option\" does not exist"@,
            );
            &&& !missing ==> r is None
            &&& missing && occurs(rendered, "\"matomo_option\""@) && begins(q, "SELECT"@) ==> r == Some(
                crate::frontend::result_columns(original),
            )
            &&& missing && occurs(rendered, "\"option\""@) && begins(q, "DELETE"@) && !begins(q, "SELECT"@) ==> r == Some(
                Seq::<Seq<char>>::empty(),
            )
            &&& !occurs(rendered, "\"matomo_option\""@) && !occurs(rendered, "\"option\""@) ==> r is None
        }),
{
}

/// A database that is created or dropped becomes a schema that is created or dropped under that
/// name.
pub proof fn databases_become_schemas(name: Seq<char>)
    requires
        is_name(name),
        name.len() != 2,
    ensures
        crate::session::noop_reaction("CREATE DATABASE "@ + name) == Reaction::CreateSchema(name),
        crate::session::noop_reaction("DROP DATABASE "@ + name) == Reaction::DropSchema(name),
        compat_noop("CREATE DATABASE "@ + name),
        compat_noop("DROP DATABASE "@ + name),
{
    databases_are_made_by_name(name);
    reveal_strlit("CREATE DATABASE ");
    reveal_strlit("DROP DATABASE ");
    reveal_strlit("CREATE DATABASE");
    reveal_strlit("create database");
    let a = "CREATE DATABASE "@ + name;
    let b = "DROP DATABASE "@ + name;
    assert(is_word(name[name.len() - 1]));
    assert(a[0] == 'C' && b[0] == 'D');
    assert(a.last() == name[name.len() - 1] && b.last() == name[name.len() - 1]);
    lemma_bare(a);
    lemma_bare(b);
    assert(uppered("CREATE DATABASE "@) =~= "CREATE DATABASE "@);
    assert(uppered("DROP DATABASE "@) =~= "DROP DATABASE "@);
    lemma_front(a, "CREATE DATABASE "@, name);
    lemma_front(b, "DROP DATABASE "@, name);
    lemma_starts(b);
    assert("CREATE DATABASE"@[0] == 'C' && "create database"@[0] == 'c');
    assert("CREATE DATABASE"@.len() == 15 && "create database"@.len() == 15);
}

/// A variable that is selected is answered under its alias, or as it was written, with its value.
pub proof fn selected_variables_are_answered(s: Settings, q: Seq<char>, m: Seq<Option<(int, int)>>)
    requires
        m.len() == 4,
        m[2] is Some,
        variable_value(s, q.subrange(m[2]->Some_0.0, m[2]->Some_0.1)) is Some,
    ensures
        ({
            let name = q.subrange(m[2]->Some_0.0, m[2]->Some_0.1);
            let value = variable_value(s, name)->Some_0;
            &&& m[3] is Some ==> crate::frontend::variable_response(s, q, seq![m]) == Some(
                (seq![q.subrange(m[3]->Some_0.0, m[3]->Some_0.1)], seq![seq![value]]),
            )
            &&& m[3] is None && m[1] is None ==> crate::frontend::variable_response(s, q, seq![m]) == Some(
                (seq!["@@"@ + name], seq![seq![value]]),
            )
            &&& m[3] is None && m[1] is Some ==> crate::frontend::variable_response(s, q, seq![m]) == Some(
                (seq!["@@"@ + q.subrange(m[1]->Some_0.0, m[1]->Some_0.1) + "."@ + name], seq![seq![value]]),
            )
        }),
        crate::frontend::variable_response(s, q, Seq::empty()) is None,
{
}

/// A statement that is prepared is remembered with its own text, what is sent in its place, and as
/// many parameters as it has placeholders.
pub proof fn statements_are_remembered_as_prepared(s: State, query: Seq<char>, sql: Seq<char>)
    ensures
        ({
            let p = crate::session::translated_prepared(s, query, sql);
            &&& p.original_sql == query
            &&& p.postgres_sql == sql
            &&& p.params == crate::params::placeholders(query)
            &&& p.canned == canned(query, s.version, s.version_comment)
        }),
        !session_config(s).ansi_quotes ==> crate::session::read_by_mode(s, query) == query,
        session_config(s).ansi_quotes ==> crate::session::read_by_mode(s, query)
            == crate::quoting::without_double_quotes(query, true),
{
}

/// The columns of a prepared statement are those of the statement, or else those of what is sent in
/// its place, unless they are not known before it runs.
pub proof fn prepared_columns_are_those_of_the_statement(original: Seq<char>, translated: Seq<char>)
    ensures
        show_columns(original) is Some ==> crate::frontend::prepared_columns(original, translated) == show_columns(
            original,
        )->Some_0,
        show_columns(original) is None && crate::frontend::result_columns(original).len() > 0
            ==> crate::frontend::prepared_columns(original, translated) == crate::frontend::result_columns(original),
        show_columns(original) is None && crate::frontend::result_columns(original).len() == 0
            && crate::frontend::postgres_result_columns(translated).contains("*"@) ==> crate::frontend::prepared_columns(
            original,
            translated,
        ).len() == 0,
        show_columns(original) is None && crate::frontend::result_columns(original).len() == 0
            && !crate::frontend::postgres_result_columns(translated).contains("*"@) ==> crate::frontend::prepared_columns(
            original,
            translated,
        ) == crate::frontend::postgres_result_columns(translated),
{
    let list = crate::frontend::postgres_result_columns(translated);
    if list.contains("*"@) {
        let i = choose|i: int| 0 <= i < list.len() && list[i] == "*"@;
        assert(list[i] == "*"@);
    }
}

/// A SQL mode that is bound to a prepared statement is set to what is bound.
pub proof fn bound_modes_are_set(p: crate::session::Prepared, params: Seq<crate::params::RawParam>, text: Seq<char>)
    requires
        p.postgres_sql.len() == 0,
        crate::frontend::sets_sql_mode(uppered(bare_query(p.original_sql))),
        params.len() > 0,
        crate::params::param_text(params[0]) == Ok::<Option<Seq<char>>, Failure>(Some(text)),
    ensures
        sql_mode_value(bare_query(p.original_sql)) == "?"@ ==> crate::session::bound_sql_mode(p, params) == Some(text),
        sql_mode_value(bare_query(p.original_sql)) != "?"@ ==> crate::session::bound_sql_mode(p, params) is None,
{
}

/// SET NAMES with a collation selects that collation, where it belongs to the character set, and is
/// refused where it does not.
pub proof fn names_select_their_collation(word: Seq<char>, name: Seq<char>, collation: Seq<char>)
    requires
        word.len() == 10,
        is_name(name),
        is_name(collation),
        lowered(name) == "utf8mb4"@,
        lowered(collation) != "default"@,
        lowered(collation) != "utf8"@,
        lowered(collation) != "utf8mb3"@,
        lowered(collation) != "utf8mb4"@,
    ensures
        begins(lowered(collation), "utf8mb4"@ + "_"@) ==> set_names(word + (name + " COLLATE "@ + collation)) == Ok::<
            (Seq<char>, Seq<char>),
            Failure,
        >(("utf8mb4"@, lowered(collation))),
        !begins(lowered(collation), "utf8mb4"@ + "_"@) ==> set_names(word + (name + " COLLATE "@ + collation)) is Err,
{
    reveal_strlit("utf8");
    reveal_strlit("utf8mb4");
    reveal_strlit("utf8mb3");
    assert("utf8"@.len() == 4);
    assert("utf8mb4"@.len() == 7);
    assert("utf8mb3"@.len() == 7);
    assert("utf8mb4"@[6] != "utf8mb3"@[6]);
    reveal_strlit(" COLLATE ");
    reveal_strlit("COLLATE ");
    let payload = name + " COLLATE "@ + collation;
    let sql = word + payload;
    assert(sql.skip(10) =~= payload);
    assert(is_word(name[0]) && is_word(collation[0]) && is_word(collation[collation.len() - 1]));
    assert(payload[0] == name[0]);
    assert(payload.last() == collation[collation.len() - 1]);
    lemma_bare(payload);
    let n = name.len() as int;
    assert forall|j: int| 0 <= j < n implies is_word(#[trigger] payload[j]) by {
        assert(payload[j] == name[j]);
    }
    assert(payload[n] == ' ');
    lemma_word_stops(payload, 0, n);
    assert(payload.take(n) =~= name);
    lemma_bare_name(name);
    lemma_bare_name(collation);
    let rest = "COLLATE "@ + collation;
    assert(payload.skip(n + 1) =~= rest);
    assert(rest[0] == 'C');
    assert(rest.last() == collation[collation.len() - 1]);
    lemma_bare(rest);
    assert(uppered("COLLATE "@) =~= "COLLATE "@);
    lemma_front(rest, "COLLATE "@, collation);
    assert(rest.skip(8) =~= collation);
    crate::laws::texts::cases_keep_the_length(collation);
}

} // verus!
