//! Ranking queries.
use vstd::prelude::*;

use crate::ranking::{
    distinct_groups, main_partition, null_tests, order_term, order_terms, partitioned_counters,
    projects_column, rollup_counter, row_class, single_counter, whenless_case,
};
use crate::regexes::group;
use crate::text::{joined, unpadded};

verus! {

/// The text of a group of a match that took part in it.
pub open spec fn taken(text: Seq<char>, m: Seq<Option<(int, int)>>, k: int) -> Seq<char> {
    text.subrange(m[k]->Some_0.0, m[k]->Some_0.1)
}

/// Whether a list of texts asks of each column whether it is null, in order.
pub open spec fn ask_for_null(tests: Seq<Seq<char>>, columns: Seq<Seq<char>>) -> bool {
    tests.len() == columns.len() && forall|i: int| 0 <= i < columns.len() ==> #[trigger] tests[i] == columns[i] + " IS NULL"@
}

/// The rows of a rollup are told apart by how many of its columns are null: all, some, or none.
pub proof fn rollup_rows_are_told_apart(columns: Seq<Seq<char>>)
    requires
        columns.len() > 0,
    ensures
        exists|tests: Seq<Seq<char>>| #[trigger] ask_for_null(tests, columns) && row_class(columns) == Some(
            "(CASE WHEN "@ + joined(tests, " AND "@) + " THEN 2 WHEN "@ + joined(tests, " OR "@) + " THEN 1 ELSE 0 END)"@,
        ),
        exists|tests: Seq<Seq<char>>| #[trigger] ask_for_null(tests, columns) && main_partition(columns) == Some(
            "(CASE WHEN "@ + joined(tests, " OR "@) + " THEN 1 ELSE 0 END)"@,
        ),
        row_class(Seq::empty()) is None,
        main_partition(Seq::empty()) is None,
{
    assert(ask_for_null(null_tests(columns), columns));
}

/// A counter for each value of a column becomes a numbering within that value, in the order of the
/// query inside, up to the counter's limit.
pub proof fn partitioned_counters_become_numberings(sql: Seq<char>, order: Seq<char>, m: Seq<Option<(int, int)>>)
    requires
        m.len() == 6,
        forall|k: int| 0 <= k < 6 ==> (#[trigger] m[k]) is Some,
        taken(sql, m, 4) == taken(sql, m, 1),
        taken(sql, m, 5) == taken(sql, m, 2),
    ensures
        partitioned_counters(sql, order, seq![m]) == Some(
            sql.take(m[0]->Some_0.0) + ("WHEN "@ + taken(sql, m, 1) + " IN ("@ + taken(sql, m, 2)
                + ") THEN LEAST(ROW_NUMBER() OVER (PARTITION BY "@ + taken(sql, m, 1) + " ORDER BY "@ + order + "), "@ + (taken(
                sql,
                m,
                3,
            ) + ")"@)) + sql.skip(m[0]->Some_0.1),
        ),
        partitioned_counters(sql, order, Seq::empty()) is None,
{
    assert(m[0] is Some && m[1] is Some && m[2] is Some && m[3] is Some && m[4] is Some && m[5] is Some);
    let found = seq![m];
    assert(crate::ranking::pair_fits(sql, found[0], found[0]));
    assert(crate::ranking::pair_values(sql, found) =~= seq![taken(sql, m, 2)]);
    assert(joined(seq![taken(sql, m, 2)], ", "@) == taken(sql, m, 2));
}

/// A counter of the rows of a rollup becomes a numbering within their class.
pub proof fn rollup_counters_become_numberings(
    sql: Seq<char>,
    order: Seq<char>,
    class: Seq<char>,
    columns: Seq<Seq<char>>,
    m: Seq<Option<(int, int)>>,
)
    requires
        columns.len() > 0,
        m.len() == 2,
        m[0] is Some,
        m[1] is Some,
    ensures
        exists|tests: Seq<Seq<char>>| #[trigger] ask_for_null(tests, columns) && rollup_counter(
            sql,
            order,
            Some(class),
            columns,
            seq![m],
        ) == Some(
            sql.take(m[0]->Some_0.0) + ("WHEN "@ + joined(tests, " OR "@) + " THEN LEAST(ROW_NUMBER() OVER (PARTITION BY "@ + class
                + " ORDER BY "@ + order + "), "@ + taken(sql, m, 1) + ")"@) + sql.skip(m[0]->Some_0.1),
        ),
        rollup_counter(sql, order, None, columns, seq![m]) is None,
{
    assert(ask_for_null(null_tests(columns), columns));
}

/// A single counter becomes a numbering of all rows, within its partition where it has one, up to
/// its limit.
pub proof fn single_counters_become_numberings(
    sql: Seq<char>,
    order: Seq<char>,
    partition: Seq<char>,
    m: Seq<Option<(int, int)>>,
)
    requires
        m.len() == 2,
        m[0] is Some,
        m[1] is Some,
        whenless_case(sql, m[0]->Some_0.0, m[0]->Some_0.1) is None,
    ensures
        single_counter(sql, order, None, seq![m]) == Some(
            sql.take(m[0]->Some_0.0) + ("ELSE "@ + ("LEAST(ROW_NUMBER() OVER ("@ + ("ORDER BY "@ + order) + "), "@ + taken(sql, m, 1)
                + ")"@)) + sql.skip(m[0]->Some_0.1),
        ),
        single_counter(sql, order, Some(partition), seq![m]) == Some(
            sql.take(m[0]->Some_0.0) + ("ELSE "@ + ("LEAST(ROW_NUMBER() OVER ("@ + ("PARTITION BY "@ + partition + " ORDER BY "@
                + order) + "), "@ + taken(sql, m, 1) + ")"@)) + sql.skip(m[0]->Some_0.1),
        ),
{
}

/// What a query is sorted by keeps its terms, in order; a term loses the table in front of it where
/// the query shows the column, and keeps its direction.
pub proof fn sort_terms_are_resolved_one_by_one(
    term: Seq<char>,
    preceding: Seq<char>,
    m: Seq<Option<(int, int)>>,
    parts: Seq<Seq<char>>,
)
    requires
        m.len() == 5,
        m[1] is Some,
        m[3] is Some,
        m[4] is Some,
    ensures
        order_term(term, preceding, Seq::empty()) == term,
        projects_column(preceding, unpadded(taken(term, m, 1), '`'), taken(term, m, 3)) ==> order_term(
            term,
            preceding,
            seq![m],
        ) == taken(term, m, 3) + taken(term, m, 4),
        !projects_column(preceding, unpadded(taken(term, m, 1), '`'), taken(term, m, 3)) ==> order_term(
            term,
            preceding,
            seq![m],
        ) == term,
        order_terms(parts, preceding).len() == parts.len(),
{
}

/// Columns that are found more than once are used once, in the order in which they are found first.
pub proof fn columns_are_used_once(sql: Seq<char>, found: Seq<Seq<Option<(int, int)>>>, n: int)
    requires
        0 <= n <= found.len(),
    ensures
        distinct_groups(sql, found, n).no_duplicates(),
        forall|i: int|
            0 <= i < n && group(sql, #[trigger] found[i], 1) is Some ==> distinct_groups(sql, found, n).contains(
                group(sql, found[i], 1)->Some_0,
            ),
    decreases n,
{
    if n > 0 {
        columns_are_used_once(sql, found, n - 1);
        let before = distinct_groups(sql, found, n - 1);
        let after = distinct_groups(sql, found, n);
        assert forall|i: int| 0 <= i < n && group(sql, #[trigger] found[i], 1) is Some implies after.contains(
            group(sql, found[i], 1)->Some_0,
        ) by {
            let c = group(sql, found[i], 1)->Some_0;
            if i < n - 1 {
                let k = choose|k: int| 0 <= k < before.len() && before[k] == c;
                assert(after[k] == c);
            } else if !before.contains(c) {
                assert(after[before.len() as int] == c);
            }
        }
    }
}

} // verus!
