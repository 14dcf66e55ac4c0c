//! What the command line prints, what the configuration is by default, and what the cache keeps.
use vstd::prelude::*;

use crate::cache::{entries_put, entries_used, place_of};
use crate::cli::{
    result_report, row_lines, shown_value, shown_values, translation_report, warning_lines,
};
use crate::config::default_translator;
use crate::executor::{FieldValue, QueryResult};
use crate::text::{decimal, joined, texts};
use crate::translator::Translation;

verus! {

/// A translation is printed with each of its texts under its own heading, and its warnings below,
/// one to a line.
pub proof fn translations_are_printed_in_full(t: Translation)
    ensures
        t.warnings.len() == 0 ==> translation_report(t) == "Original SQL:\n"@ + t.original_sql
            + "\n\nCanonical MySQL AST render:\n"@ + t.canonical_mysql_sql + ("\n\nTranslated PostgreSQL SQL:\n"@
            + t.translated_sql),
        t.warnings.len() == 1 ==> translation_report(t) == "Original SQL:\n"@ + t.original_sql
            + "\n\nCanonical MySQL AST render:\n"@ + t.canonical_mysql_sql + ("\n\nTranslated PostgreSQL SQL:\n"@
            + t.translated_sql) + "\n\nWarnings:"@ + ("\n- "@ + t.warnings[0]),
        forall|n: int|
            0 < n <= t.warnings.len() ==> #[trigger] warning_lines(t.warnings, n) == warning_lines(t.warnings, n - 1) + "\n- "@
                + t.warnings[n - 1],
{
    reveal_with_fuel(warning_lines, 2);
    if t.warnings.len() == 1 {
        assert(Seq::<char>::empty() + "\n- "@ + t.warnings[0] =~= "\n- "@ + t.warnings[0]);
    }
}

/// A result is printed with its columns, each of its rows, value by value, and the number of its
/// rows; one without columns with the number alone.
pub proof fn results_are_printed_in_full(q: QueryResult, rows: Seq<Vec<Option<FieldValue>>>, n: int)
    requires
        0 < n <= rows.len(),
    ensures
        q.columns@.len() == 0 ==> result_report(q) == "rows: "@ + decimal(q.row_count as nat),
        q.columns@.len() > 0 ==> result_report(q) == "columns: "@ + joined(texts(q.columns@), ", "@) + "\n"@ + row_lines(
            q.rows@,
            q.rows@.len() as int,
        ) + ("rows: "@ + decimal(q.row_count as nat)),
        row_lines(rows, n) == row_lines(rows, n - 1) + joined(shown_values(rows[n - 1]@), " | "@) + "\n"@,
        row_lines(rows, 0).len() == 0,
        shown_values(rows[n - 1]@).len() == rows[n - 1]@.len(),
        shown_value(None) == "NULL"@,
{
}

/// By default everything is rewritten, and double quotes hold strings.
pub proof fn everything_is_rewritten_by_default()
    ensures
        default_translator().rewrite_limit_comma,
        default_translator().normalize_mysql_backticks,
        default_translator().normalize_boolean_literals,
        default_translator().rewrite_mysql_functions,
        default_translator().rewrite_json_operators,
        default_translator().strip_mysql_table_options,
        !default_translator().ansi_quotes,
{
}

proof fn lemma_place(entries: Seq<(Seq<char>, Translation)>, key: Seq<char>)
    ensures
        -1 <= place_of(entries, key) < entries.len(),
        place_of(entries, key) >= 0 ==> entries[place_of(entries, key)].0 == key,
        place_of(entries, key) < 0 ==> forall|i: int| 0 <= i < entries.len() ==> (#[trigger] entries[i]).0 != key,
    decreases entries.len(),
{
    if entries.len() > 0 && entries[0].0 != key {
        lemma_place(entries.skip(1), key);
        assert forall|i: int| place_of(entries, key) < 0 && 0 <= i < entries.len() implies (#[trigger] entries[i]).0 != key by {
            if i > 0 {
                assert(entries.skip(1)[i - 1] == entries[i]);
            }
        }
    }
}

/// A translation that is put into the cache comes first and is found there; what is there stays, but
/// for an older one of the same statement, and for the one that was used longest ago where the cache
/// is full.
pub proof fn caches_keep_what_was_used_last(
    entries: Seq<(Seq<char>, Translation)>,
    key: Seq<char>,
    value: Translation,
    limit: nat,
)
    requires
        entries.len() <= limit,
        limit > 0,
    ensures
        entries_put(entries, key, value, limit).len() > 0,
        entries_put(entries, key, value, limit)[0] == (key, value),
        place_of(entries_put(entries, key, value, limit), key) == 0,
        entries_put(entries, key, value, limit).len() <= limit,
        place_of(entries, key) < 0 && entries.len() < limit ==> entries_put(entries, key, value, limit).skip(1) == entries,
        place_of(entries, key) < 0 && entries.len() == limit ==> entries_put(entries, key, value, limit).skip(1)
            == entries.drop_last(),
        entries_used(entries, key).len() == entries.len(),
        place_of(entries, key) >= 0 ==> entries_used(entries, key)[0] == entries[place_of(entries, key)],
        place_of(entries, key) < 0 ==> entries_used(entries, key) == entries,
{
    lemma_place(entries, key);
    let p = place_of(entries, key);
    let after = entries_put(entries, key, value, limit);
    if p < 0 && entries.len() < limit {
        assert(after.skip(1) =~= entries);
    }
    if p < 0 && entries.len() == limit {
        assert(after.skip(1) =~= entries.drop_last());
    }
}

} // verus!
