//! The "ranking query" that MySQL applications build with session variables, as
//! PostgreSQL window functions.
//!
//! Such a query cross-joins counter initializers into its FROM clause and increments
//! the counters row by row, in the order of the subquery `actualQuery`, up to a limit:
//! exactly `LEAST(ROW_NUMBER() OVER (PARTITION BY <col> ORDER BY <inner order>), <limit>)`.
use vstd::prelude::*;

use crate::regexes::{
    captures, end_of, escape, escaped, founds, group, group_inside, group_or_empty, is_match,
    match_inside, matches_inside, pattern_matches, regex_captures, splice, splice_same, spliced,
    spliced_same, spliced_up_to, Capture,
};
use crate::text::{
    after_space, cat2, cat3, cat4, cat5, cat9, char_is_space, chars_of, contains, eq_ignore_case,
    from_chars, is_space, join, joined, lemma_skip_space, occurs, occurs_at, opt_text, push_text,
    same, same_ignoring_case, skip_space, slice, split, split_on, texts, trim, trim_end,
    trim_matches, trim_start, trimmed, trimmed_end, trimmed_start, unpadded,
};

verus! {

pub const OTHERS_LABEL: &'static str =
    r"(?is)(WHEN\s+counter\s*=\s*\d+\s+THEN\s+'(?:[^']|'')*'\s+ELSE\s+)(`[^`]+`|\w+)(\s+END)";

pub const INNER_ORDER_BY: &'static str = r"(?is)ORDER\s+BY\s+(.+?)\s*\)\s*actualQuery";

pub const QUALIFIED_ORDER_TERM: &'static str =
    r"(?is)^(`?[A-Za-z_][A-Za-z0-9_]*`?)\.(`?)([A-Za-z_][A-Za-z0-9_]*)`?(\s+(?:ASC|DESC))?$";

pub const COUNTER_INITIALIZER: &'static str =
    r"(?is)\(\s*SELECT\s+@counter[A-Za-z0-9_]*\s*:=\s*0\s*\)\s*initCounter[A-Za-z0-9_]*\s*,\s*";

pub const PARTITIONED_PAIR: &'static str =
    r"(?is)WHEN\s+(`[^`]+`|\w+)\s*=\s*(-?\d+)\s+AND\s+@counter[A-Za-z0-9_]+\s*=\s*(\d+)\s+THEN\s+\d+\s+WHEN\s+(`[^`]+`|\w+)\s*=\s*(-?\d+)\s+THEN\s+@counter[A-Za-z0-9_]+\s*:=\s*@counter[A-Za-z0-9_]+\s*\+\s*1";

pub const ROLLUP_COLUMN: &'static str =
    r"(?is)WHEN\s+(`[^`]+`|\w+)\s+IS\s+NULL\s+AND\s+@counterRollup\s*=\s*\d+\s+THEN\s+\d+";

pub const MINUS_ONE_COLUMN: &'static str = r"(?is)WHEN\s+(`[^`]+`|\w+)\s+IS\s+NULL\s+THEN\s+-\s*1\b";

pub const ROLLUP_PAIR: &'static str =
    r"(?is)WHEN\s+(?:`[^`]+`|\w+)\s+IS\s+NULL\s+AND\s+@counterRollup\s*=\s*(\d+)\s+THEN\s+\d+\s+WHEN\s+(?:`[^`]+`|\w+)\s+IS\s+NULL\s+THEN\s+@counterRollup\s*:=\s*@counterRollup\s*\+\s*1";

pub const SINGLE_COUNTER: &'static str =
    r"(?is)WHEN\s+@counter\s*=\s*(\d+)\s+THEN\s+\d+\s+ELSE\s+@counter\s*:=\s*@counter\s*\+\s*1";

/// The first position from `from` on that holds white space, or the length.
pub open spec fn skip_nonspace(s: Seq<char>, from: int) -> int
    decreases s.len() - from,
{
    if 0 <= from < s.len() && !is_space(s[from]) {
        skip_nonspace(s, from + 1)
    } else {
        from
    }
}

/// The stretches without white space, from position `from` on.
pub open spec fn words_from(s: Seq<char>, from: int) -> Seq<Seq<char>>
    decreases s.len() - from,
{
    let a = skip_space(s, from);
    let b = skip_nonspace(s, a);
    if from < 0 || a < from || a >= s.len() || b <= a || b > s.len() {
        Seq::empty()
    } else {
        seq![s.subrange(a, b)] + words_from(s, b)
    }
}

/// A text with one blank in place of each stretch of white space, and none at its ends.
pub open spec fn single_spaced(s: Seq<char>) -> Seq<char> {
    joined(words_from(s, 0), " "@)
}

/// The stretches of a text without white space.
pub fn split_words(value: &str) -> (r: Vec<String>)
    ensures
        texts(r@) == words_from(value@, 0),
{
    let c = chars_of(value);
    let n: usize = c.len();
    let mut words: Vec<String> = Vec::new();
    let mut at: usize = 0;
    assert(texts(words@) + words_from(c@, 0) =~= words_from(c@, 0));
    loop
        invariant
            n == c@.len(),
            c@ == value@,
            at <= n,
            texts(words@) + words_from(c@, at as int) == words_from(c@, 0),
        decreases n - at,
    {
        let a = after_space(&c, at);
        proof {
            lemma_skip_space(c@, at as int);
        }
        if a >= n {
            assert(texts(words@) =~= words_from(c@, 0));
            return words;
        }
        let mut b: usize = a;
        while b < n && !char_is_space(c[b])
            invariant
                n == c@.len(),
                a <= b <= n,
                skip_nonspace(c@, b as int) == skip_nonspace(c@, a as int),
                b == a ==> a < n && !is_space(c@[a as int]),
            decreases n - b,
        {
            b = b + 1;
        }
        let ghost before = texts(words@);
        let word = from_chars(&c, a, b);
        push_text(&mut words, word);
        assert(before.push(word@) + words_from(c@, b as int) =~= before + (seq![word@] + words_from(
            c@,
            b as int,
        )));
        at = b;
    }
}

/// Puts single blanks between the words of a text.
pub fn normalize_whitespace(value: &str) -> (r: String)
    ensures
        r@ == single_spaced(value@),
{
    join(&split_words(value), " ")
}

/// Whether one of two patterns matches: the column as an explicit alias, or projected
/// bare under its qualifier.
pub open spec fn projects_column(preceding: Seq<char>, qualifier: Seq<char>, column: Seq<char>) -> bool {
    let aliased = r"(?is)\bAS\s+`?"@ + escaped(column) + r"`?\s*(?:,|\bFROM\b)"@;
    let projected = r"(?is)\b`?"@ + escaped(qualifier) + r"`?\s*\.\s*`?"@ + escaped(column)
        + r"`?"@;
    pattern_matches(aliased, preceding) || pattern_matches(projected, preceding)
}

/// Whether the subquery exposes `column` as an output name: aliased explicitly, or
/// projected as a bare `qualifier.column`.
pub fn inner_query_projects_column(preceding_sql: &str, qualifier: &str, column: &str) -> (r: bool)
    ensures
        r == projects_column(preceding_sql@, qualifier@, column@),
{
    let q = escape(qualifier);
    let c = escape(column);
    let aliased = cat3(r"(?is)\bAS\s+`?", c.as_str(), r"`?\s*(?:,|\bFROM\b)");
    let projected = cat5(r"(?is)\b`?", q.as_str(), r"`?\s*\.\s*`?", c.as_str(), r"`?");
    is_match(aliased.as_str(), preceding_sql) || is_match(projected.as_str(), preceding_sql)
}

/// One sort term as it reads outside the subquery; `found` are the matches of
/// [`QUALIFIED_ORDER_TERM`] in it.
pub open spec fn order_term(
    term: Seq<char>,
    preceding: Seq<char>,
    found: Seq<Seq<Option<(int, int)>>>,
) -> Seq<char> {
    if found.len() == 0 {
        term
    } else {
        let qualifier = unpadded(group_or_empty(term, found[0], 1), '`');
        let column = group_or_empty(term, found[0], 3);
        if projects_column(preceding, qualifier, column) {
            column + group_or_empty(term, found[0], 4)
        } else {
            term
        }
    }
}

/// Resolves one sort term to the name the subquery exposes.
pub fn resolve_order_term(term: &str, preceding_sql: &str, found: &Vec<Capture>) -> (r: String)
    requires
        matches_inside(founds(found@), term@.len() as int),
    ensures
        r@ == order_term(term@, preceding_sql@, founds(found@)),
{
    if found.len() == 0 {
        return term.to_string();
    }
    assert(match_inside(founds(found@)[0], term@.len() as int));
    let raw = found[0].group_or_empty(term, 1);
    let qualifier = trim_matches(raw.as_str(), '`');
    let column = found[0].group_or_empty(term, 3);
    let direction = found[0].group_or_empty(term, 4);
    if inner_query_projects_column(preceding_sql, qualifier.as_str(), column.as_str()) {
        cat2(column.as_str(), direction.as_str())
    } else {
        term.to_string()
    }
}

/// The sort terms, each resolved.
pub open spec fn order_terms(parts: Seq<Seq<char>>, preceding: Seq<char>) -> Seq<Seq<char>> {
    Seq::new(
        parts.len(),
        |i: int|
            order_term(
                trimmed(parts[i]),
                preceding,
                regex_captures(QUALIFIED_ORDER_TERM@, trimmed(parts[i])),
            ),
    )
}

/// A sort list with `<table>.<column>` terms under the names that the subquery exposes.
pub open spec fn order_resolved(order_by: Seq<char>, preceding: Seq<char>) -> Seq<char> {
    joined(order_terms(split(order_by, ','), preceding), ", "@)
}

/// Rewrites `<table>.<column>` sort terms to the alias the inner query exposes them
/// under: outside the subquery only its output columns are in scope.
pub fn resolve_order_terms_to_inner_aliases(order_by: &str, preceding_sql: &str) -> (r: String)
    ensures
        r@ == order_resolved(order_by@, preceding_sql@),
{
    let parts = split_on(order_by, ',');
    let mut out: Vec<String> = Vec::new();
    let mut i: usize = 0;
    let ghost want = order_terms(texts(parts@), preceding_sql@);
    while i < parts.len()
        invariant
            i <= parts@.len(),
            want == order_terms(texts(parts@), preceding_sql@),
            texts(out@) =~= want.take(i as int),
        decreases parts.len() - i,
    {
        let term = trim(parts[i].as_str());
        let found = captures(QUALIFIED_ORDER_TERM, term.as_str());
        push_text(&mut out, resolve_order_term(term.as_str(), preceding_sql, &found));
        i = i + 1;
        assert(texts(out@) =~= want.take(i as int));
    }
    assert(texts(out@) =~= want);
    join(&out, ", ")
}

/// The sort order of the subquery, as it reads outside it; `found` are the matches of
/// [`INNER_ORDER_BY`].
pub open spec fn inner_order(sql: Seq<char>, found: Seq<Seq<Option<(int, int)>>>) -> Option<Seq<char>> {
    if found.len() == 0 || group(sql, found[0], 1) is None {
        None
    } else {
        let order_by = trimmed(group_or_empty(sql, found[0], 1));
        if order_by.len() == 0 {
            None
        } else {
            Some(order_resolved(single_spaced(order_by), sql.take(found[0][0]->Some_0.0)))
        }
    }
}

/// Reads the subquery's sort order off a match.
pub fn order_of_match(sql: &str, found: &Vec<Capture>) -> (r: Option<String>)
    requires
        matches_inside(founds(found@), sql@.len() as int),
    ensures
        opt_text(r) == inner_order(sql@, founds(found@)),
{
    if found.len() == 0 {
        return None;
    }
    assert(match_inside(founds(found@)[0], sql@.len() as int));
    match found[0].group(sql, 1) {
        None => None,
        Some(raw) => {
            let order_by = trim(raw.as_str());
            if order_by.as_str().is_empty() {
                return None;
            }
            let start = found[0].start(sql);
            let preceding = slice(sql, 0, start);
            assert(preceding@ =~= sql@.take(start as int));
            let spaced = normalize_whitespace(order_by.as_str());
            Some(resolve_order_terms_to_inner_aliases(spaced.as_str(), preceding.as_str()))
        },
    }
}

/// The inner `( ... ORDER BY <expr list> ) actualQuery` sort order, which the window
/// functions must reproduce.
pub fn ranking_query_inner_order_by(sql: &str) -> (r: Option<String>)
    ensures
        opt_text(r) == inner_order(sql@, regex_captures(INNER_ORDER_BY@, sql@)),
{
    let found = captures(INNER_ORDER_BY, sql);
    order_of_match(sql, &found)
}

/// A query without its counter initializers.
pub open spec fn without_initializers(sql: Seq<char>) -> Seq<char> {
    spliced_same(sql, regex_captures(COUNTER_INITIALIZER@, sql), ""@)
}

pub fn strip_ranking_query_counter_initializers(sql: &str) -> (r: String)
    ensures
        r@ == without_initializers(sql@),
{
    let found = captures(COUNTER_INITIALIZER, sql);
    splice_same(sql, &found, "")
}

/// The distinct texts of the first group of the first `n` matches, in order.
pub open spec fn distinct_groups(sql: Seq<char>, found: Seq<Seq<Option<(int, int)>>>, n: int) -> Seq<
    Seq<char>,
>
    decreases n,
{
    if n <= 0 {
        Seq::empty()
    } else {
        let before = distinct_groups(sql, found, n - 1);
        match group(sql, found[n - 1], 1) {
            Some(c) => if before.contains(c) {
                before
            } else {
                before.push(c)
            },
            None => before,
        }
    }
}

/// Collects the distinct texts of the first group.
pub fn collect_distinct_groups(sql: &str, found: &Vec<Capture>) -> (r: Vec<String>)
    requires
        matches_inside(founds(found@), sql@.len() as int),
    ensures
        texts(r@) == distinct_groups(sql@, founds(found@), found@.len() as int),
{
    let ghost f = founds(found@);
    let mut out: Vec<String> = Vec::new();
    let mut i: usize = 0;
    assert(texts(out@) =~= Seq::<Seq<char>>::empty());
    while i < found.len()
        invariant
            i <= found@.len(),
            f == founds(found@),
            matches_inside(f, sql@.len() as int),
            texts(out@) == distinct_groups(sql@, f, i as int),
        decreases found.len() - i,
    {
        assert(match_inside(f[i as int], sql@.len() as int));
        match found[i].group(sql, 1) {
            Some(column) => {
                let mut known = false;
                let mut j: usize = 0;
                while j < out.len()
                    invariant
                        j <= out@.len(),
                        known <==> exists|k: int| 0 <= k < j && #[trigger] texts(out@)[k] == column@,
                    decreases out.len() - j,
                {
                    if same(out[j].as_str(), column.as_str()) {
                        assert(texts(out@)[j as int] == column@);
                        known = true;
                    }
                    j = j + 1;
                }
                assert(known == texts(out@).contains(column@));
                if !known {
                    push_text(&mut out, column);
                }
            },
            None => {},
        }
        i = i + 1;
    }
    out
}

/// `<column> IS NULL` for each column.
pub open spec fn null_tests(columns: Seq<Seq<char>>) -> Seq<Seq<char>> {
    Seq::new(columns.len(), |i: int| columns[i] + " IS NULL"@)
}

pub fn is_null_tests(columns: &Vec<String>, sep: &str) -> (r: String)
    ensures
        r@ == joined(null_tests(texts(columns@)), sep@),
{
    let mut out: Vec<String> = Vec::new();
    let mut i: usize = 0;
    while i < columns.len()
        invariant
            i <= columns@.len(),
            texts(out@) =~= null_tests(texts(columns@)).take(i as int),
        decreases columns.len() - i,
    {
        push_text(&mut out, cat2(columns[i].as_str(), " IS NULL"));
        i = i + 1;
        assert(texts(out@) =~= null_tests(texts(columns@)).take(i as int));
    }
    assert(texts(out@) =~= null_tests(texts(columns@)));
    join(&out, sep)
}

/// The columns the rollup counter watches.
pub open spec fn rollup_column_names(sql: Seq<char>) -> Seq<Seq<char>> {
    let found = regex_captures(ROLLUP_COLUMN@, sql);
    distinct_groups(sql, found, found.len() as int)
}

/// The columns the rollup counter watches, in the order they are written.
pub fn rollup_columns(sql: &str) -> (r: Vec<String>)
    ensures
        texts(r@) == rollup_column_names(sql@),
{
    let found = captures(ROLLUP_COLUMN, sql);
    collect_distinct_groups(sql, &found)
}

/// The expression that tells grand totals, partial rollup rows and detail rows apart.
pub open spec fn row_class(columns: Seq<Seq<char>>) -> Option<Seq<char>> {
    if columns.len() == 0 {
        None
    } else {
        Some(
            "(CASE WHEN "@ + joined(null_tests(columns), " AND "@) + " THEN 2 WHEN "@ + joined(
                null_tests(columns),
                " OR "@,
            ) + " THEN 1 ELSE 0 END)"@,
        )
    }
}

/// Classifies each row as grand total (all rollup columns NULL), partial rollup row
/// (some NULL) or detail row.
pub fn rollup_row_class_expression(sql: &str) -> (r: Option<String>)
    ensures
        opt_text(r) == row_class(rollup_column_names(sql@)),
{
    let columns = rollup_columns(sql);
    if columns.len() == 0 {
        return None;
    }
    let all_null = is_null_tests(&columns, " AND ");
    let any_null = is_null_tests(&columns, " OR ");
    Some(
        cat5("(CASE WHEN ", all_null.as_str(), " THEN 2 WHEN ", any_null.as_str(), " THEN 1 ELSE 0 END)"),
    )
}

/// The expression that tells rollup rows from the rows the main counter numbers.
pub open spec fn main_partition(columns: Seq<Seq<char>>) -> Option<Seq<char>> {
    if columns.len() == 0 {
        None
    } else {
        Some("(CASE WHEN "@ + joined(null_tests(columns), " OR "@) + " THEN 1 ELSE 0 END)"@)
    }
}

pub open spec fn minus_one_columns(sql: Seq<char>) -> Seq<Seq<char>> {
    let found = regex_captures(MINUS_ONE_COLUMN@, sql);
    distinct_groups(sql, found, found.len() as int)
}

/// The main counter in a rollup query returns -1 for rollup rows without consuming a
/// number, so it is numbered within the other rows only.
pub fn main_counter_partition_expression(sql: &str) -> (r: Option<String>)
    ensures
        opt_text(r) == main_partition(minus_one_columns(sql@)),
{
    let found = captures(MINUS_ONE_COLUMN, sql);
    let columns = collect_distinct_groups(sql, &found);
    if columns.len() == 0 {
        return None;
    }
    let any_null = is_null_tests(&columns, " OR ");
    Some(cat3("(CASE WHEN ", any_null.as_str(), " THEN 1 ELSE 0 END)"))
}

/// A text with the stretch from the first match's start to the last one's end replaced.
pub open spec fn stretch_replaced(
    sql: Seq<char>,
    found: Seq<Seq<Option<(int, int)>>>,
    with: Seq<char>,
) -> Seq<char> {
    sql.take(found[0][0]->Some_0.0) + with + sql.skip(found[found.len() - 1][0]->Some_0.1)
}

proof fn lemma_ordered(found: Seq<Seq<Option<(int, int)>>>, i: int, len: int)
    requires
        matches_inside(found, len),
        0 <= i < found.len(),
    ensures
        0 <= found[0][0]->Some_0.0 <= found[i][0]->Some_0.1 <= len,
    decreases i,
{
    assert(match_inside(found[i], len));
    assert(group_inside(found[i], 0, len));
    assert(match_inside(found[0], len));
    assert(group_inside(found[0], 0, len));
    if i > 0 {
        lemma_ordered(found, i - 1, len);
        assert(found[i][0]->Some_0.0 >= found[i - 1][0]->Some_0.1);
    }
}

pub fn replace_stretch(sql: &str, found: &Vec<Capture>, with: &str) -> (r: String)
    requires
        matches_inside(founds(found@), sql@.len() as int),
        found@.len() > 0,
    ensures
        r@ == stretch_replaced(sql@, founds(found@), with@),
{
    let ghost f = founds(found@);
    proof {
        lemma_ordered(f, f.len() - 1, sql@.len() as int);
        assert(match_inside(f[0], sql@.len() as int));
        assert(match_inside(f[f.len() - 1], sql@.len() as int));
    }
    let start = found[0].start(sql);
    let end = found[found.len() - 1].end(sql);
    let n: usize = sql.unicode_len();
    let head = slice(sql, 0, start);
    let tail = slice(sql, end, n);
    assert(head@ =~= sql@.take(start as int));
    assert(tail@ =~= sql@.skip(end as int));
    cat3(head.as_str(), with, tail.as_str())
}

/// Whether a `WHEN` pair tests one partition value twice, and the column and limit are
/// those of the first pair.
pub open spec fn pair_fits(
    sql: Seq<char>,
    m: Seq<Option<(int, int)>>,
    first: Seq<Option<(int, int)>>,
) -> bool {
    &&& group(sql, m, 1) is Some
    &&& group(sql, m, 2) is Some
    &&& group(sql, m, 3) is Some
    &&& group(sql, m, 4) == group(sql, m, 1)
    &&& group(sql, m, 5) == group(sql, m, 2)
    &&& group(sql, m, 1) == group(sql, first, 1)
    &&& group(sql, m, 3) == group(sql, first, 3)
}

/// The partition values of the pairs.
pub open spec fn pair_values(sql: Seq<char>, found: Seq<Seq<Option<(int, int)>>>) -> Seq<Seq<char>> {
    Seq::new(found.len(), |i: int| group_or_empty(sql, found[i], 2))
}

/// The per-partition counters as one partitioned row number; `found` are the matches of
/// [`PARTITIONED_PAIR`].
pub open spec fn partitioned_counters(
    sql: Seq<char>,
    order_by: Seq<char>,
    found: Seq<Seq<Option<(int, int)>>>,
) -> Option<Seq<char>> {
    if found.len() == 0 || exists|i: int|
        0 <= i < found.len() && !#[trigger] pair_fits(sql, found[i], found[0]) {
        None
    } else {
        let column = group_or_empty(sql, found[0], 1);
        let limit = group_or_empty(sql, found[0], 3);
        let replacement = ("WHEN "@ + column + " IN ("@ + joined(pair_values(sql, found), ", "@)
            + ") THEN LEAST(ROW_NUMBER() OVER (PARTITION BY "@ + column + " ORDER BY "@ + order_by + "), "@)
            + (limit + ")"@);
        Some(stretch_replaced(sql, found, replacement))
    }
}

fn same_group(a: &Option<String>, b: &Option<String>) -> (r: bool)
    ensures
        r == (opt_text(*a) == opt_text(*b)),
{
    match (a, b) {
        (Some(x), Some(y)) => same(x.as_str(), y.as_str()),
        (None, None) => true,
        _ => false,
    }
}

/// Collapses matched `WHEN` pairs into one partitioned row number.
pub fn collapse_partitioned_pairs(sql: &str, order_by: &str, found: &Vec<Capture>) -> (r: Option<String>)
    requires
        matches_inside(founds(found@), sql@.len() as int),
    ensures
        opt_text(r) == partitioned_counters(sql@, order_by@, founds(found@)),
{
    let ghost f = founds(found@);
    if found.len() == 0 {
        return None;
    }
    assert(match_inside(f[0], sql@.len() as int));
    let column = found[0].group(sql, 1);
    let limit = found[0].group(sql, 3);
    let mut values: Vec<String> = Vec::new();
    let mut i: usize = 0;
    while i < found.len()
        invariant
            i <= found@.len(),
            found@.len() > 0,
            f == founds(found@),
            matches_inside(f, sql@.len() as int),
            opt_text(column) == group(sql@, f[0], 1),
            opt_text(limit) == group(sql@, f[0], 3),
            texts(values@) =~= pair_values(sql@, f).take(i as int),
            forall|j: int| 0 <= j < i ==> #[trigger] pair_fits(sql@, f[j], f[0]),
        decreases found.len() - i,
    {
        assert(match_inside(f[i as int], sql@.len() as int));
        let c = found[i].group(sql, 1);
        let v = found[i].group(sql, 2);
        let l = found[i].group(sql, 3);
        let c2 = found[i].group(sql, 4);
        let v2 = found[i].group(sql, 5);
        if c.is_none() || v.is_none() || l.is_none() || !same_group(&c, &c2) || !same_group(&v, &v2)
            || !same_group(&c, &column) || !same_group(&l, &limit) {
            assert(!pair_fits(sql@, f[i as int], f[0]));
            return None;
        }
        assert(pair_fits(sql@, f[i as int], f[0]));
        push_text(&mut values, found[i].group_or_empty(sql, 2));
        i = i + 1;
        assert(texts(values@) =~= pair_values(sql@, f).take(i as int));
    }
    assert(texts(values@) =~= pair_values(sql@, f));
    let column = found[0].group_or_empty(sql, 1);
    let limit = found[0].group_or_empty(sql, 3);
    let listed = join(&values, ", ");
    let head = cat9(
        "WHEN ",
        column.as_str(),
        " IN (",
        listed.as_str(),
        ") THEN LEAST(ROW_NUMBER() OVER (PARTITION BY ",
        column.as_str(),
        " ORDER BY ",
        order_by,
        "), ",
    );
    let last = cat2(limit.as_str(), ")");
    let replacement = cat2(head.as_str(), last.as_str());
    Some(replace_stretch(sql, found, replacement.as_str()))
}

/// Collapses the per-partition `WHEN ... THEN @counterN:=@counterN+1` pairs into a
/// single partitioned ROW_NUMBER() branch.
pub fn rewrite_partitioned_ranking_counters(sql: &str, order_by: &str) -> (r: Option<String>)
    ensures
        opt_text(r) == partitioned_counters(sql@, order_by@, regex_captures(PARTITIONED_PAIR@, sql@)),
{
    let found = captures(PARTITIONED_PAIR, sql);
    collapse_partitioned_pairs(sql, order_by, &found)
}

/// The rollup counter as one partitioned row number; `found` are the matches of
/// [`ROLLUP_PAIR`].
pub open spec fn rollup_counter(
    sql: Seq<char>,
    order_by: Seq<char>,
    class: Option<Seq<char>>,
    columns: Seq<Seq<char>>,
    found: Seq<Seq<Option<(int, int)>>>,
) -> Option<Seq<char>> {
    if class is None || columns.len() == 0 || found.len() == 0 || group(sql, found[0], 1) is None || exists|
        i: int,
    |
        0 <= i < found.len() && #[trigger] group(sql, found[i], 1) != group(sql, found[0], 1) {
        None
    } else {
        let replacement = "WHEN "@ + joined(null_tests(columns), " OR "@)
            + " THEN LEAST(ROW_NUMBER() OVER (PARTITION BY "@ + class->Some_0 + " ORDER BY "@ + order_by
            + "), "@ + group_or_empty(sql, found[0], 1) + ")"@;
        Some(stretch_replaced(sql, found, replacement))
    }
}

/// Collapses matched rollup pairs into one partitioned row number.
pub fn collapse_rollup_pairs(
    sql: &str,
    order_by: &str,
    row_class: &Option<String>,
    columns: &Vec<String>,
    found: &Vec<Capture>,
) -> (r: Option<String>)
    requires
        matches_inside(founds(found@), sql@.len() as int),
    ensures
        opt_text(r) == rollup_counter(
            sql@,
            order_by@,
            opt_text(*row_class),
            texts(columns@),
            founds(found@),
        ),
{
    let ghost f = founds(found@);
    let class = match row_class {
        Some(class) => class,
        None => return None,
    };
    if columns.len() == 0 || found.len() == 0 {
        return None;
    }
    assert(match_inside(f[0], sql@.len() as int));
    let limit = found[0].group(sql, 1);
    if limit.is_none() {
        return None;
    }
    let mut i: usize = 0;
    while i < found.len()
        invariant
            i <= found@.len(),
            found@.len() > 0,
            f == founds(found@),
            matches_inside(f, sql@.len() as int),
            opt_text(limit) == group(sql@, f[0], 1),
            forall|j: int| 0 <= j < i ==> #[trigger] group(sql@, f[j], 1) == group(sql@, f[0], 1),
        decreases found.len() - i,
    {
        assert(match_inside(f[i as int], sql@.len() as int));
        let l = found[i].group(sql, 1);
        if !same_group(&l, &limit) {
            assert(group(sql@, f[i as int], 1) != group(sql@, f[0], 1));
            return None;
        }
        i = i + 1;
    }
    let any_null = is_null_tests(columns, " OR ");
    let limit_text = found[0].group_or_empty(sql, 1);
    let replacement = cat9(
        "WHEN ",
        any_null.as_str(),
        " THEN LEAST(ROW_NUMBER() OVER (PARTITION BY ",
        class.as_str(),
        " ORDER BY ",
        order_by,
        "), ",
        limit_text.as_str(),
        ")",
    );
    Some(replace_stretch(sql, found, replacement.as_str()))
}

/// Collapses the `@counterRollup` arms into one partitioned ROW_NUMBER() branch.
pub fn rewrite_rollup_ranking_counter(sql: &str, order_by: &str, row_class: &Option<String>) -> (r: Option<
    String,
>)
    ensures
        opt_text(r) == rollup_counter(
            sql@,
            order_by@,
            opt_text(*row_class),
            rollup_column_names(sql@),
            regex_captures(ROLLUP_PAIR@, sql@),
        ),
{
    let columns = rollup_columns(sql);
    let found = captures(ROLLUP_PAIR, sql);
    collapse_rollup_pairs(sql, order_by, row_class, &columns, &found)
}

/// The `CASE ... END` of which the stretch from `start` to `end` is the whole body.
pub open spec fn whenless_case(sql: Seq<char>, start: int, end: int) -> Option<(int, int)> {
    let before = trimmed_end(sql.take(start));
    let after = sql.skip(end);
    let rest = trimmed_start(after);
    if before.len() < 4 || !same_ignoring_case(before.skip(before.len() - 4), "CASE"@) || rest.len() < 3
        || !same_ignoring_case(rest.take(3), "END"@) {
        None
    } else {
        Some((before.len() - 4, end + (after.len() - rest.len()) + 3))
    }
}

proof fn lemma_trimmed_lens(s: Seq<char>)
    ensures
        trimmed_end(s).len() <= s.len(),
        trimmed_start(s).len() <= s.len(),
    decreases s.len(),
{
    if s.len() > 0 {
        lemma_trimmed_lens(s.drop_last());
        lemma_trimmed_lens(s.skip(1));
    }
}

/// If the stretch at `start..end` is the entire body of a `CASE ... END`, so that
/// removing it would leave no arms, the range of that whole `CASE ... END`.
pub fn enclosing_whenless_case(sql: &str, start: usize, end: usize) -> (r: Option<(usize, usize)>)
    requires
        start <= end <= sql@.len(),
    ensures
        match r {
            Some((a, b)) => whenless_case(sql@, start as int, end as int) == Some((a as int, b as int)) && a
                <= b <= sql@.len(),
            None => whenless_case(sql@, start as int, end as int) is None,
        },
{
    let n: usize = sql.unicode_len();
    let head = slice(sql, 0, start);
    assert(head@ =~= sql@.take(start as int));
    let before = trim_end(head.as_str());
    let after = slice(sql, end, n);
    assert(after@ =~= sql@.skip(end as int));
    let rest = trim_start(after.as_str());
    let bl: usize = before.as_str().unicode_len();
    let rl: usize = rest.as_str().unicode_len();
    proof {
        lemma_trimmed_lens(head@);
        lemma_trimmed_lens(after@);
    }
    if bl < 4 || rl < 3 {
        return None;
    }
    let keyword = slice(before.as_str(), bl - 4, bl);
    assert(keyword@ =~= before@.skip(before@.len() - 4));
    let closing = slice(rest.as_str(), 0, 3);
    assert(closing@ =~= rest@.take(3));
    if !eq_ignore_case(keyword.as_str(), "CASE") || !eq_ignore_case(closing.as_str(), "END") {
        return None;
    }
    let al: usize = after.as_str().unicode_len();
    Some((bl - 4, end + (al - rl) + 3))
}

/// The single counter as a row number; `found` are the matches of [`SINGLE_COUNTER`].
pub open spec fn single_counter(
    sql: Seq<char>,
    order_by: Seq<char>,
    partition: Option<Seq<char>>,
    found: Seq<Seq<Option<(int, int)>>>,
) -> Option<Seq<char>> {
    if found.len() == 0 || group(sql, found[0], 1) is None {
        None
    } else {
        let over = match partition {
            Some(p) => "PARTITION BY "@ + p + " ORDER BY "@ + order_by,
            None => "ORDER BY "@ + order_by,
        };
        let numbering = "LEAST(ROW_NUMBER() OVER ("@ + over + "), "@ + group_or_empty(sql, found[0], 1)
            + ")"@;
        let whole = found[0][0]->Some_0;
        match whenless_case(sql, whole.0, whole.1) {
            Some(case) => Some(sql.take(case.0) + numbering + sql.skip(case.1)),
            None => Some(sql.take(whole.0) + ("ELSE "@ + numbering) + sql.skip(whole.1)),
        }
    }
}

/// Replaces a matched single counter by a row number.
pub fn replace_single_counter(
    sql: &str,
    order_by: &str,
    partition: &Option<String>,
    found: &Vec<Capture>,
) -> (r: Option<String>)
    requires
        matches_inside(founds(found@), sql@.len() as int),
    ensures
        opt_text(r) == single_counter(sql@, order_by@, opt_text(*partition), founds(found@)),
{
    if found.len() == 0 {
        return None;
    }
    assert(match_inside(founds(found@)[0], sql@.len() as int));
    let limit = match found[0].group(sql, 1) {
        Some(limit) => limit,
        None => return None,
    };
    let over = match partition {
        Some(p) => cat4("PARTITION BY ", p.as_str(), " ORDER BY ", order_by),
        None => cat2("ORDER BY ", order_by),
    };
    let numbering = cat5("LEAST(ROW_NUMBER() OVER (", over.as_str(), "), ", limit.as_str(), ")");
    let start = found[0].start(sql);
    let end = found[0].end(sql);
    let n: usize = sql.unicode_len();
    match enclosing_whenless_case(sql, start, end) {
        Some((a, b)) => {
            let head = slice(sql, 0, a);
            let tail = slice(sql, b, n);
            assert(head@ =~= sql@.take(a as int));
            assert(tail@ =~= sql@.skip(b as int));
            Some(cat3(head.as_str(), numbering.as_str(), tail.as_str()))
        },
        None => {
            let head = slice(sql, 0, start);
            let tail = slice(sql, end, n);
            assert(head@ =~= sql@.take(start as int));
            assert(tail@ =~= sql@.skip(end as int));
            let arm = cat2("ELSE ", numbering.as_str());
            Some(cat3(head.as_str(), arm.as_str(), tail.as_str()))
        },
    }
}

/// The unpartitioned form: a single `@counter` for the whole result set. Where its arms
/// are the only ones of their `CASE`, the whole `CASE` goes.
pub fn rewrite_single_ranking_counter(sql: &str, order_by: &str, partition: &Option<String>) -> (r: Option<
    String,
>)
    ensures
        opt_text(r) == single_counter(
            sql@,
            order_by@,
            opt_text(*partition),
            regex_captures(SINGLE_COUNTER@, sql@),
        ),
{
    let found = captures(SINGLE_COUNTER, sql);
    replace_single_counter(sql, order_by, partition, &found)
}

/// A matched "others" label with its column branch, the second group, cast to text. What the
/// match holds before and behind the column stays.
pub open spec fn others_cast(sql: Seq<char>, m: Seq<Option<(int, int)>>) -> Seq<char> {
    let whole = m[0]->Some_0;
    if m.len() > 2 && m[2] is Some {
        let column = m[2]->Some_0;
        sql.subrange(whole.0, column.0) + "CAST("@ + sql.subrange(column.0, column.1) + " AS TEXT)"@ + sql.subrange(
            column.1,
            whole.1,
        )
    } else {
        sql.subrange(whole.0, whole.1)
    }
}

pub open spec fn others_casts(sql: Seq<char>, found: Seq<Seq<Option<(int, int)>>>) -> Seq<Seq<char>> {
    Seq::new(found.len(), |i: int| others_cast(sql, found[i]))
}

/// Casts the column branch of each matched "others" label to text.
pub fn cast_others_labels(sql: &str, found: &Vec<Capture>) -> (r: String)
    requires
        matches_inside(founds(found@), sql@.len() as int),
    ensures
        r@ == spliced(sql@, founds(found@), others_casts(sql@, founds(found@))),
{
    let ghost f = founds(found@);
    let mut reps: Vec<String> = Vec::new();
    let mut i: usize = 0;
    while i < found.len()
        invariant
            i <= found@.len(),
            f == founds(found@),
            matches_inside(f, sql@.len() as int),
            reps@.len() == i,
            texts(reps@) =~= others_casts(sql@, f).take(i as int),
        decreases found.len() - i,
    {
        assert(match_inside(f[i as int], sql@.len() as int));
        assert(group_inside(f[i as int], 0, sql@.len() as int));
        let start = found[i].start(sql);
        let end = found[i].end(sql);
        match found[i].span(sql, 2) {
            Some(column) => {
                assert(group_inside(f[i as int], 2, sql@.len() as int));
                let a = slice(sql, start, column.start);
                let b = slice(sql, column.start, column.end);
                let c = slice(sql, column.end, end);
                push_text(&mut reps, cat5(a.as_str(), "CAST(", b.as_str(), " AS TEXT)", c.as_str()));
            },
            None => push_text(&mut reps, slice(sql, start, end)),
        }
        i = i + 1;
        assert(texts(reps@) =~= others_casts(sql@, f).take(i as int));
    }
    assert(texts(reps@) =~= others_casts(sql@, f));
    splice(sql, found, &reps)
}

pub open spec fn others_labels_coerced(sql: Seq<char>) -> Seq<char> {
    let found = regex_captures(OTHERS_LABEL@, sql);
    spliced(sql, found, others_casts(sql, found))
}

/// Whether a text has no character in common with another.
spec fn is_apart(x: Seq<char>, p: Seq<char>) -> bool {
    forall|i: int, j: int| 0 <= i < x.len() && 0 <= j < p.len() ==> #[trigger] x[i] != #[trigger] p[j]
}

proof fn lemma_part_lacks(s: Seq<char>, p: Seq<char>, from: int, to: int)
    requires
        0 <= from <= to <= s.len(),
        !occurs(s, p),
    ensures
        !occurs(s.subrange(from, to), p),
{
    let t = s.subrange(from, to);
    assert forall|i: int| !#[trigger] occurs_at(t, p, i) by {
        if occurs_at(t, p, i) {
            assert(s.subrange(from + i, from + i + p.len()) =~= t.subrange(i, i + p.len()));
            assert(occurs_at(s, p, from + i));
        }
    }
}

proof fn lemma_apart_lacks(a: Seq<char>, x: Seq<char>, b: Seq<char>, p: Seq<char>)
    requires
        !occurs(a, p),
        !occurs(b, p),
        is_apart(x, p),
        x.len() > 0,
        p.len() > 0,
    ensures
        !occurs(a + x + b, p),
{
    let s = a + x + b;
    assert forall|i: int| !#[trigger] occurs_at(s, p, i) by {
        if occurs_at(s, p, i) {
            let n = a.len() as int;
            let k = x.len() as int;
            let w = s.subrange(i, i + p.len());
            if i + p.len() <= n {
                assert(a.subrange(i, i + p.len()) =~= w);
                assert(occurs_at(a, p, i));
            } else if i >= n + k {
                assert(b.subrange(i - n - k, i - n - k + p.len()) =~= w);
                assert(occurs_at(b, p, i - n - k));
            } else {
                let at = if i < n {
                    n
                } else {
                    i
                };
                assert(s[at] == x[at - n]);
                assert(w[at - i] == s[at]);
                assert(p[at - i] == x[at - n]);
            }
        }
    }
}

/// The first `n` matches replaced, up to the last cast.
spec fn cast_head(sql: Seq<char>, found: Seq<Seq<Option<(int, int)>>>, n: int) -> Seq<char>
    decreases n,
{
    if n <= 0 {
        Seq::empty()
    } else {
        let m = found[n - 1];
        let before = cast_head(sql, found, n - 1);
        if m.len() > 2 && m[2] is Some {
            let column = m[2]->Some_0;
            before + sql.subrange(cast_end(found, n - 1), column.0) + "CAST("@ + sql.subrange(column.0, column.1)
                + " AS TEXT)"@
        } else {
            before
        }
    }
}

/// The end of the last column that is cast in the first `n` matches.
spec fn cast_end(found: Seq<Seq<Option<(int, int)>>>, n: int) -> int
    decreases n,
{
    if n <= 0 {
        0
    } else if found[n - 1].len() > 2 && found[n - 1][2] is Some {
        found[n - 1][2]->Some_0.1
    } else {
        cast_end(found, n - 1)
    }
}

proof fn lemma_cast_head(sql: Seq<char>, found: Seq<Seq<Option<(int, int)>>>, n: int, p: Seq<char>)
    requires
        matches_inside(found, sql.len() as int),
        0 <= n <= found.len(),
        !occurs(sql, p),
        p.len() > 0,
        is_apart("CAST("@, p),
        is_apart(" AS TEXT)"@, p),
        "CAST("@.len() > 0,
        " AS TEXT)"@.len() > 0,
    ensures
        0 <= cast_end(found, n) <= end_of(found, n) <= sql.len(),
        spliced_up_to(sql, found, others_casts(sql, found), n) == cast_head(sql, found, n) + sql.subrange(
            cast_end(found, n),
            end_of(found, n),
        ),
        forall|q: int|
            cast_end(found, n) <= q <= sql.len() ==> !occurs(
                cast_head(sql, found, n) + #[trigger] sql.subrange(cast_end(found, n), q),
                p,
            ),
    decreases n,
{
    let with = others_casts(sql, found);
    if n == 0 {
        assert forall|q: int| 0 <= q <= sql.len() implies !occurs(
            cast_head(sql, found, n) + #[trigger] sql.subrange(0, q),
            p,
        ) by {
            lemma_part_lacks(sql, p, 0, q);
            assert(cast_head(sql, found, n) + sql.subrange(0, q) =~= sql.subrange(0, q));
        }
        assert(spliced_up_to(sql, found, with, 0) =~= cast_head(sql, found, 0) + sql.subrange(0, 0));
    } else {
        lemma_cast_head(sql, found, n - 1, p);
        let m = found[n - 1];
        let head = cast_head(sql, found, n - 1);
        let e = cast_end(found, n - 1);
        assert(match_inside(m, sql.len() as int));
        assert(group_inside(m, 0, sql.len() as int));
        let whole = m[0]->Some_0;
        assert(end_of(found, n - 1) <= whole.0) by {
            if n > 1 {
                assert(found[n - 1][0]->Some_0.0 >= found[n - 2][0]->Some_0.1);
            }
        }
        assert(with[n - 1] == others_cast(sql, m));
        if m.len() > 2 && m[2] is Some {
            assert(group_inside(m, 2, sql.len() as int));
            let column = m[2]->Some_0;
            let up = head + sql.subrange(e, column.0);
            let value = sql.subrange(column.0, column.1);
            lemma_part_lacks(sql, p, column.0, column.1);
            lemma_apart_lacks(up, "CAST("@, value, p);
            let opened = up + "CAST("@ + value;
            assert forall|q: int| column.1 <= q <= sql.len() implies !occurs(
                cast_head(sql, found, n) + #[trigger] sql.subrange(column.1, q),
                p,
            ) by {
                lemma_part_lacks(sql, p, column.1, q);
                lemma_apart_lacks(opened, " AS TEXT)"@, sql.subrange(column.1, q), p);
            }
            assert(sql.subrange(e, column.0) =~= sql.subrange(e, end_of(found, n - 1)) + sql.subrange(
                end_of(found, n - 1),
                whole.0,
            ) + sql.subrange(whole.0, column.0));
        } else {
            assert(sql.subrange(e, whole.1) =~= sql.subrange(e, end_of(found, n - 1)) + sql.subrange(
                end_of(found, n - 1),
                whole.0,
            ) + sql.subrange(whole.0, whole.1));
        }
        assert(spliced_up_to(sql, found, with, n) =~= cast_head(sql, found, n) + sql.subrange(
            cast_end(found, n),
            whole.1,
        ));
    }
}

/// A label that is cast brings no counter into a query that holds none.
proof fn lemma_casts_bring_no_counter(sql: Seq<char>, found: Seq<Seq<Option<(int, int)>>>)
    requires
        matches_inside(found, sql.len() as int),
        !occurs(sql, "@counter"@),
    ensures
        !occurs(spliced(sql, found, others_casts(sql, found)), "@counter"@),
{
    reveal_strlit("@counter");
    reveal_strlit("CAST(");
    reveal_strlit(" AS TEXT)");
    let n = found.len() as int;
    lemma_cast_head(sql, found, n, "@counter"@);
    let e = cast_end(found, n);
    assert(cast_head(sql, found, n) + sql.subrange(e, sql.len() as int) =~= spliced(
        sql,
        found,
        others_casts(sql, found),
    ));
}

/// Makes the branches of the "others" bucket's `CASE` agree on a type: its label is a
/// text, so the column branch is cast to TEXT.
pub fn coerce_ranking_query_others_labels(sql: &str) -> (r: String)
    ensures
        r@ == others_labels_coerced(sql@),
        !occurs(sql@, "@counter"@) ==> !occurs(r@, "@counter"@),
{
    let found = captures(OTHERS_LABEL, sql);
    proof {
        if !occurs(sql@, "@counter"@) {
            lemma_casts_bring_no_counter(sql@, founds(found@));
        }
    }
    cast_others_labels(sql, &found)
}

/// The query with its main counter replaced, and whether it had one that was recognised.
pub open spec fn main_counter_rewritten(sql: Seq<char>, order_by: Seq<char>) -> (Seq<char>, bool) {
    match partitioned_counters(sql, order_by, regex_captures(PARTITIONED_PAIR@, sql)) {
        Some(out) => (out, true),
        None => match single_counter(
            sql,
            order_by,
            main_partition(minus_one_columns(sql)),
            regex_captures(SINGLE_COUNTER@, sql),
        ) {
            Some(out) => (out, true),
            None => (sql, false),
        },
    }
}

/// The query with its rollup counter replaced, and whether it had one that was
/// recognised.
pub open spec fn rollup_counter_rewritten(sql: Seq<char>, order_by: Seq<char>) -> (Seq<char>, bool) {
    match rollup_counter(
        sql,
        order_by,
        row_class(rollup_column_names(sql)),
        rollup_column_names(sql),
        regex_captures(ROLLUP_PAIR@, sql),
    ) {
        Some(out) => (out, true),
        None => (sql, false),
    }
}

/// A ranking query with window functions in place of its counters, and whether anything
/// changed. A query with a counter that is not recognised stays as it is.
pub open spec fn ranking_query_rewritten(sql: Seq<char>) -> (Seq<char>, bool) {
    let order = inner_order(sql, regex_captures(INNER_ORDER_BY@, sql));
    if !occurs(sql, "@counter"@) || order is None {
        (sql, false)
    } else {
        let rollup = rollup_counter_rewritten(without_initializers(sql), order->Some_0);
        let main = main_counter_rewritten(rollup.0, order->Some_0);
        if occurs(main.0, "@counter"@) || !(rollup.1 || main.1) {
            (sql, false)
        } else {
            (others_labels_coerced(main.0), true)
        }
    }
}

/// Rewrites the ranking query that is built on session counters into PostgreSQL window
/// functions. Where a counter is left over, the statement stays untouched, so that it
/// fails loudly rather than returning wrong numbers: the query comes back as it is, or
/// without any counter.
pub fn rewrite_mysql_ranking_query(sql: &str) -> (r: (String, bool))
    ensures
        (r.0@, r.1) == ranking_query_rewritten(sql@),
        r.1 ==> !occurs(r.0@, "@counter"@),
        !r.1 ==> r.0@ == sql@,
{
    if !contains(sql, "@counter") {
        return (sql.to_string(), false);
    }
    let order_by = match ranking_query_inner_order_by(sql) {
        Some(order_by) => order_by,
        None => return (sql.to_string(), false),
    };
    let mut out = strip_ranking_query_counter_initializers(sql);
    let mut changed = false;
    let rollup_class = rollup_row_class_expression(out.as_str());
    match rewrite_rollup_ranking_counter(out.as_str(), order_by.as_str(), &rollup_class) {
        Some(rewritten) => {
            out = rewritten;
            changed = true;
        },
        None => {},
    }
    let main_partition = main_counter_partition_expression(out.as_str());
    match rewrite_partitioned_ranking_counters(out.as_str(), order_by.as_str()) {
        Some(rewritten) => {
            out = rewritten;
            changed = true;
        },
        None => {
            match rewrite_single_ranking_counter(out.as_str(), order_by.as_str(), &main_partition) {
                Some(rewritten) => {
                    out = rewritten;
                    changed = true;
                },
                None => {},
            }
        },
    }
    if contains(out.as_str(), "@counter") || !changed {
        return (sql.to_string(), false);
    }
    (coerce_ranking_query_others_labels(out.as_str()), true)
}

} // verus!
