//! Rewrites of the statement text that have to happen before it can be parsed.
use vstd::prelude::*;

use crate::regexes::{
    captures, founds, group, group_inside, match_inside, matches_inside, regex_captures,
    splice_same, spliced_same, Capture,
};
use crate::scan::{lemma_assoc, matching_paren_in, partner};
use crate::text::{
    begins, cat2, cat3, chars_of, contains, find_chars, find_from, from_chars, is_ascii, is_digit,
    is_lower, is_upper, lemma_find, occurs, opt_text, slice, starts_with, trim, trim_start, trimmed,
    trimmed_start,
};

verus! {

pub const STATEMENT_TIMEOUT_HINT: &'static str =
    r"(?is)^\s*SET\s+STATEMENT\s+max_statement_time\s*=\s*\d+\s+FOR\s+";

pub const WITH_ROLLUP: &'static str = r"(?is)\bWITH\s+ROLLUP\b";

pub const GROUP_BY: &'static str = r"(?is)\bGROUP\s+BY\s+";

pub const DROP_TEMPORARY_TABLE: &'static str = r"(?is)\bDROP\s+TEMPORARY\s+TABLE\b";

pub const SESSION_VARIABLE_ASSIGNMENT: &'static str = r"(?is)\(\s*@([A-Za-z_][A-Za-z0-9_]*)\s*:=\s*";

/// Deeper nested assignments are left in place.
pub const MAX_SESSION_VARIABLE_INLINE_PASSES: usize = 16;

/// A text without what the first match holds and all before it.
pub open spec fn after_first(sql: Seq<char>, found: Seq<Seq<Option<(int, int)>>>) -> (Seq<char>, bool) {
    if found.len() > 0 {
        (sql.skip(found[0][0]->Some_0.1), true)
    } else {
        (sql, false)
    }
}

/// Drops a leading match.
pub fn drop_hint(sql: &str, found: &Vec<Capture>) -> (r: (String, bool))
    requires
        matches_inside(founds(found@), sql@.len() as int),
    ensures
        (r.0@, r.1) == after_first(sql@, founds(found@)),
{
    if found.len() > 0 {
        assert(match_inside(founds(found@)[0], sql@.len() as int));
        let e = found[0].end(sql);
        let n: usize = sql.unicode_len();
        assert(sql@.subrange(e as int, n as int) =~= sql@.skip(e as int));
        (slice(sql, e, n), true)
    } else {
        (sql.to_string(), false)
    }
}

/// A statement without MariaDB's per-statement timeout hint, and whether it had one.
pub open spec fn without_timeout_hint(sql: Seq<char>) -> (Seq<char>, bool) {
    after_first(sql, regex_captures(STATEMENT_TIMEOUT_HINT@, sql))
}

/// Strips `SET STATEMENT max_statement_time=<n> FOR`, which MariaDB-aware applications
/// put in front of a query to cap its execution time.
pub fn strip_mariadb_max_statement_time_hint(sql: &str) -> (r: (String, bool))
    ensures
        (r.0@, r.1) == without_timeout_hint(sql@),
{
    let found = captures(STATEMENT_TIMEOUT_HINT, sql);
    drop_hint(sql, &found)
}

/// A text with its matches replaced, and whether there were any.
pub open spec fn replaced_if_any(
    sql: Seq<char>,
    found: Seq<Seq<Option<(int, int)>>>,
    with: Seq<char>,
) -> (Seq<char>, bool) {
    if found.len() == 0 {
        (sql, false)
    } else {
        (spliced_same(sql, found, with), true)
    }
}

/// Replaces the matches, if there are any, by one text.
pub fn replace_if_any(sql: &str, found: &Vec<Capture>, with: &str) -> (r: (String, bool))
    requires
        matches_inside(founds(found@), sql@.len() as int),
    ensures
        (r.0@, r.1) == replaced_if_any(sql@, founds(found@), with@),
{
    if found.len() == 0 {
        (sql.to_string(), false)
    } else {
        (splice_same(sql, found, with), true)
    }
}

/// `DROP TEMPORARY TABLE` as `DROP TABLE`.
pub open spec fn without_drop_temporary(sql: Seq<char>) -> (Seq<char>, bool) {
    replaced_if_any(sql, regex_captures(DROP_TEMPORARY_TABLE@, sql), "DROP TABLE"@)
}

/// MySQL distinguishes `DROP TEMPORARY TABLE` from `DROP TABLE`; PostgreSQL drops a
/// temporary table with plain `DROP TABLE` and rejects the keyword.
pub fn strip_drop_temporary_keyword(sql: &str) -> (r: (String, bool))
    ensures
        (r.0@, r.1) == without_drop_temporary(sql@),
{
    let found = captures(DROP_TEMPORARY_TABLE, sql);
    replace_if_any(sql, &found, "DROP TABLE")
}

/// One `WITH ROLLUP` (from `start` to `end`) moved into the nearest `GROUP BY` before
/// it: the last of `groups`, the matches of `GROUP BY` in the text up to `start`.
pub open spec fn rollup_moved(
    sql: Seq<char>,
    start: int,
    end: int,
    groups: Seq<Seq<Option<(int, int)>>>,
) -> (Seq<char>, bool) {
    if groups.len() == 0 {
        (sql, false)
    } else {
        let whole = groups[groups.len() - 1][0]->Some_0;
        let exprs = trimmed(sql.subrange(whole.1, start));
        if exprs.len() == 0 {
            (sql, false)
        } else {
            (sql.take(whole.0) + ("GROUP BY ROLLUP("@ + exprs + ")"@) + sql.skip(end), true)
        }
    }
}

/// Moves one `WITH ROLLUP` into the nearest `GROUP BY` before it.
pub fn move_rollup(sql: &str, start: usize, end: usize, groups: &Vec<Capture>) -> (r: (String, bool))
    requires
        start <= end <= sql@.len(),
        matches_inside(founds(groups@), start as int),
    ensures
        (r.0@, r.1) == rollup_moved(sql@, start as int, end as int, founds(groups@)),
{
    if groups.len() == 0 {
        return (sql.to_string(), false);
    }
    let last = &groups[groups.len() - 1];
    assert(match_inside(founds(groups@)[groups@.len() - 1], start as int));
    let prefix = slice(sql, 0, start);
    let s = last.start(prefix.as_str());
    let e = last.end(prefix.as_str());
    let raw = slice(sql, e, start);
    let exprs = trim(raw.as_str());
    if exprs.as_str().is_empty() {
        return (sql.to_string(), false);
    }
    let n: usize = sql.unicode_len();
    assert(sql@.subrange(0, s as int) =~= sql@.take(s as int));
    assert(sql@.subrange(end as int, n as int) =~= sql@.skip(end as int));
    let head = slice(sql, 0, s);
    let middle = cat3("GROUP BY ROLLUP(", exprs.as_str(), ")");
    let tail = slice(sql, end, n);
    (cat3(head.as_str(), middle.as_str(), tail.as_str()), true)
}

/// The first `n` matches of `WITH ROLLUP` moved, the last of them first.
pub open spec fn rollups_moved(
    sql: Seq<char>,
    found: Seq<Seq<Option<(int, int)>>>,
    n: int,
) -> (Seq<char>, bool)
    decreases n,
{
    if n <= 0 {
        (sql, false)
    } else {
        let whole = found[n - 1][0]->Some_0;
        let one = if whole.1 <= sql.len() {
            rollup_moved(sql, whole.0, whole.1, regex_captures(GROUP_BY@, sql.take(whole.0)))
        } else {
            (sql, false)
        };
        let rest = rollups_moved(one.0, found, n - 1);
        (rest.0, one.1 || rest.1)
    }
}

/// `GROUP BY a, b WITH ROLLUP` as `GROUP BY ROLLUP(a, b)`, everywhere.
pub open spec fn with_rollup_rewritten(sql: Seq<char>) -> (Seq<char>, bool) {
    let found = regex_captures(WITH_ROLLUP@, sql);
    rollups_moved(sql, found, found.len() as int)
}

/// Moves every `WITH ROLLUP` of a list of matches into its own `GROUP BY`.
pub fn move_rollups(sql: &str, found: &Vec<Capture>) -> (r: (String, bool))
    requires
        matches_inside(founds(found@), sql@.len() as int),
    ensures
        (r.0@, r.1) == rollups_moved(sql@, founds(found@), found@.len() as int),
{
    let ghost f = founds(found@);
    let mut out = sql.to_string();
    let mut changed = false;
    let mut n: usize = found.len();
    while n > 0
        invariant
            n <= found@.len(),
            f == founds(found@),
            matches_inside(f, sql@.len() as int),
            ({
                let rest = rollups_moved(out@, f, n as int);
                let all = rollups_moved(sql@, f, found@.len() as int);
                rest.0 == all.0 && (changed || rest.1) == all.1
            }),
        decreases n,
    {
        assert(match_inside(f[n - 1], sql@.len() as int));
        assert(group_inside(f[n - 1], 0, sql@.len() as int));
        let start = found[n - 1].start(sql);
        let end = found[n - 1].end(sql);
        if end <= out.as_str().unicode_len() {
            let prefix = slice(out.as_str(), 0, start);
            assert(prefix@ =~= out@.take(start as int));
            let groups = captures(GROUP_BY, prefix.as_str());
            let (next, moved) = move_rollup(out.as_str(), start, end, &groups);
            out = next;
            changed = changed || moved;
        }
        n = n - 1;
    }
    (out, changed)
}

/// Rewrites MySQL's `GROUP BY a, b WITH ROLLUP` to the standard `GROUP BY ROLLUP(a, b)`.
/// Each `WITH ROLLUP` goes to its own nearest preceding `GROUP BY`, so that no rewrite
/// reaches across a subquery.
pub fn rewrite_with_rollup(sql: &str) -> (r: (String, bool))
    ensures
        (r.0@, r.1) == with_rollup_rewritten(sql@),
{
    let found = captures(WITH_ROLLUP, sql);
    move_rollups(sql, &found)
}

/// Whether `char::is_alphanumeric` holds of a character that is not ASCII.
pub uninterp spec fn unicode_alphanumeric(c: char) -> bool;

/// Whether a character is a letter or a number.
pub open spec fn is_letter_or_number(c: char) -> bool {
    if is_ascii(c) {
        is_lower(c) || is_upper(c) || is_digit(c)
    } else {
        unicode_alphanumeric(c)
    }
}

/// `char::is_alphanumeric`: whether Unicode counts the character among letters and
/// numbers, which of the ASCII characters are `a` to `z`, `A` to `Z` and `0` to `9`.
#[verifier::external_body]
fn is_alphanumeric(c: char) -> (r: bool)
    ensures
        r == (if is_ascii(c) {
            is_lower(c) || is_upper(c) || is_digit(c)
        } else {
            unicode_alphanumeric(c)
        }),
{
    c.is_alphanumeric()
}

/// Whether a variable's name that ends at `end` is read there: the name goes no further
/// and no `:=` follows.
pub open spec fn variable_read(s: Seq<char>, end: int) -> bool {
    &&& end < s.len() ==> !is_letter_or_number(s[end]) && s[end] != '_'
    &&& !begins(trimmed_start(s.skip(end)), ":="@)
}

/// A text from `from` on with the reads of a variable replaced.
pub open spec fn reads_replaced(s: Seq<char>, from: int, needle: Seq<char>, with: Seq<char>) -> Seq<char>
    decreases s.len() - from,
{
    let at = find_from(s, needle, from);
    if from < 0 || at < from || needle.len() == 0 || at + needle.len() > s.len() {
        s.skip(from)
    } else {
        let end = at + needle.len();
        s.subrange(from, at) + (if variable_read(s, end) {
            with
        } else {
            needle
        }) + reads_replaced(s, end, needle, with)
    }
}

/// Replaces `@name` where it reads the variable, leaving `@name :=` assignments alone.
pub fn replace_session_variable_references(sql: &str, name: &str, replacement: &str) -> (r: String)
    ensures
        r@ == reads_replaced(sql@, 0, "@"@ + name@, replacement@),
{
    let needle = cat2("@", name);
    let c = chars_of(sql);
    let p = chars_of(needle.as_str());
    let n: usize = c.len();
    let mut out = String::new();
    let mut cursor: usize = 0;
    let ghost whole = reads_replaced(c@, 0, p@, replacement@);
    proof {
        reveal_strlit("@");
        assert(p@.len() > 0);
        assert(out@ + whole =~= whole);
    }
    loop
        invariant
            n == c@.len(),
            c@ == sql@,
            p@ == "@"@ + name@,
            needle@ == p@,
            p@.len() > 0,
            cursor <= n,
            whole == reads_replaced(c@, 0, p@, replacement@),
            out@ + reads_replaced(c@, cursor as int, p@, replacement@) == whole,
        decreases n - cursor,
    {
        proof {
            lemma_find(c@, p@, cursor as int);
        }
        match find_chars(&c, &p, cursor) {
            None => {
                let rest = from_chars(&c, cursor, n);
                assert(rest@ =~= c@.skip(cursor as int));
                out.append(rest.as_str());
                return out;
            },
            Some(start) => {
                let end = start + p.len();
                let tail = from_chars(&c, end, n);
                assert(tail@ =~= c@.skip(end as int));
                let boundary_ok = end >= n || (!is_alphanumeric(c[end]) && c[end] != '_');
                let trimmed_tail = trim_start(tail.as_str());
                let is_assignment = starts_with(trimmed_tail.as_str(), ":=");
                let before = from_chars(&c, cursor, start);
                let ghost old_out = out@;
                let ghost piece = if variable_read(c@, end as int) {
                    replacement@
                } else {
                    p@
                };
                out.append(before.as_str());
                if boundary_ok && !is_assignment {
                    out.append(replacement);
                } else {
                    out.append(needle.as_str());
                }
                proof {
                    lemma_assoc(old_out + before@, piece, reads_replaced(c@, end as int, p@, replacement@));
                    lemma_assoc(
                        old_out,
                        before@,
                        piece + reads_replaced(c@, end as int, p@, replacement@),
                    );
                    lemma_assoc(before@, piece, reads_replaced(c@, end as int, p@, replacement@));
                }
                cursor = end;
            },
        }
    }
}

/// One assignment `(@name := value)` inlined: the value in parentheses takes its place
/// and that of every read of the variable. Nothing where there is no assignment, its
/// parenthesis is never closed, or the value refers to the variable itself.
pub open spec fn assignment_inlined(sql: Seq<char>, found: Seq<Seq<Option<(int, int)>>>) -> Option<
    Seq<char>,
> {
    if found.len() == 0 {
        None
    } else {
        let whole = found[0][0]->Some_0;
        let name = group(sql, found[0], 1);
        let close = partner(sql, whole.0, true);
        if name is None || close < whole.1 {
            None
        } else {
            let value = trimmed(sql.subrange(whole.1, close));
            if occurs(value, "@"@ + name->Some_0) {
                None
            } else {
                let replacement = "("@ + value + ")"@;
                Some(
                    reads_replaced(
                        sql.take(whole.0) + replacement + sql.skip(close + 1),
                        0,
                        "@"@ + name->Some_0,
                        replacement,
                    ),
                )
            }
        }
    }
}

/// Inlines the first assignment of a list of matches.
pub fn inline_assignment(sql: &str, found: &Vec<Capture>) -> (r: Option<String>)
    requires
        matches_inside(founds(found@), sql@.len() as int),
    ensures
        opt_text(r) == assignment_inlined(sql@, founds(found@)),
{
    if found.len() == 0 {
        return None;
    }
    assert(match_inside(founds(found@)[0], sql@.len() as int));
    let first = &found[0];
    let name = match first.group(sql, 1) {
        Some(name) => name,
        None => return None,
    };
    let open = first.start(sql);
    let value_start = first.end(sql);
    let c = chars_of(sql);
    let close = match matching_paren_in(&c, open, true) {
        Some(k) => k,
        None => return None,
    };
    if close < value_start {
        return None;
    }
    let raw = slice(sql, value_start, close);
    let value = trim(raw.as_str());
    let needle = cat2("@", name.as_str());
    if contains(value.as_str(), needle.as_str()) {
        return None;
    }
    let replacement = cat3("(", value.as_str(), ")");
    let n: usize = c.len();
    let head = slice(sql, 0, open);
    let tail = slice(sql, close + 1, n);
    assert(head@ =~= sql@.take(open as int));
    assert(tail@ =~= sql@.skip(close + 1));
    let rewritten = cat3(head.as_str(), replacement.as_str(), tail.as_str());
    Some(replace_session_variable_references(rewritten.as_str(), name.as_str(), replacement.as_str()))
}

/// A text with its first assignment inlined, and again up to `passes` times.
pub open spec fn assignments_inlined(sql: Seq<char>, passes: nat) -> (Seq<char>, bool)
    decreases passes,
{
    if passes == 0 {
        (sql, false)
    } else {
        match assignment_inlined(sql, regex_captures(SESSION_VARIABLE_ASSIGNMENT@, sql)) {
            None => (sql, false),
            Some(next) => (assignments_inlined(next, (passes - 1) as nat).0, true),
        }
    }
}

/// A text with the session variables that are assigned and used in one expression
/// inlined.
pub open spec fn session_variables_inlined(sql: Seq<char>) -> (Seq<char>, bool) {
    if occurs(sql, ":="@) {
        assignments_inlined(sql, MAX_SESSION_VARIABLE_INLINE_PASSES as nat)
    } else {
        (sql, false)
    }
}

/// Inlines MySQL session variables that are assigned and reused inside one expression:
/// `(@v := <expr>)` names a sub-expression, and substituting it for the assignment and
/// its later references keeps the meaning. An assignment that refers to its own variable
/// is an accumulator across rows and is left untouched.
pub fn inline_session_variable_expressions(sql: &str) -> (r: (String, bool))
    ensures
        (r.0@, r.1) == session_variables_inlined(sql@),
{
    if !contains(sql, ":=") {
        return (sql.to_string(), false);
    }
    let mut out = sql.to_string();
    let mut changed = false;
    let mut left: usize = MAX_SESSION_VARIABLE_INLINE_PASSES;
    while left > 0
        invariant
            occurs(sql@, ":="@),
            ({
                let rest = assignments_inlined(out@, left as nat);
                let all = assignments_inlined(sql@, MAX_SESSION_VARIABLE_INLINE_PASSES as nat);
                rest.0 == all.0 && (changed || rest.1) == all.1
            }),
        decreases left,
    {
        let found = captures(SESSION_VARIABLE_ASSIGNMENT, out.as_str());
        match inline_assignment(out.as_str(), &found) {
            None => {
                return (out, changed);
            },
            Some(next) => {
                out = next;
                changed = true;
            },
        }
        left = left - 1;
    }
    (out, changed)
}

/// A statement without `:=` keeps its text.
pub proof fn statements_without_assignments_are_kept(sql: Seq<char>)
    requires
        !occurs(sql, ":="@),
    ensures
        session_variables_inlined(sql) == (sql, false),
{
}

} // verus!
