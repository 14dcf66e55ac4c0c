//! Statements as a whole, and the texts that go through without a parser.
use vstd::prelude::*;

use crate::ddl::{alter_table_translation, create_table_translation, rename_translation};
use crate::direct::{
    compared_with, copy_columns, copy_delimiter, copy_statement, load_data_translation,
    on_duplicate_translation,
};
use crate::error::Failure;
use crate::parser::{shown, statement_sql};
use crate::prepass::{
    after_first, assignment_inlined, reads_replaced, replaced_if_any, rollup_moved, variable_read,
};
use crate::quoting::{
    copy_decoded, copy_decoded_from, double_quotes_from, escaped_twice, quoted_dotted_name,
    quoted_ident, requoted, string_literal, without_double_quotes,
};
use crate::regexes::spliced_same;
use crate::scan::{after_quote, escape_value, quoted_value};
use crate::show::{
    describe_translation, show_charset_translation, show_collation_translation,
    show_columns_translation, show_create_translation, show_databases_translation,
    show_functions_translation, show_schemas_translation, show_status_translation,
    show_tables_translation, show_variables_translation, show_views_translation,
};
use crate::statement::{
    all_checked, canonical_texts, insert_translation, is_checked, query_translation,
    statement_translation, translations, update_translation, written,
};
use crate::text::{
    begins, find_from, joined, lacks, lemma_find_first, occurs, occurs_at, trimmed, trimmed_start,
};
use crate::translator::{noted, parsed_translation, Prepared};
use crate::tree::{items, part, tagged, Tree};

verus! {

/// Each kind of statement is translated by its own rules, and any other is written as it was
/// parsed.
pub proof fn statements_are_translated_by_their_kind(body: Tree)
    ensures
        statement_translation(tagged("CreateTable"@, body)) == create_table_translation(body),
        statement_translation(tagged("Insert"@, body)) == insert_translation(body),
        statement_translation(tagged("Update"@, body)) == update_translation(body),
        statement_translation(tagged("ShowTables"@, body)) == show_tables_translation(body),
        statement_translation(tagged("ShowDatabases"@, body)) == show_databases_translation(body),
        statement_translation(tagged("ShowSchemas"@, body)) == show_schemas_translation(body),
        statement_translation(tagged("ShowViews"@, body)) == show_views_translation(body),
        statement_translation(tagged("ShowFunctions"@, body)) == Ok::<(Seq<char>, Seq<Seq<char>>), Failure>(show_functions_translation(body)),
        statement_translation(tagged("ShowCollation"@, body)) == Ok::<(Seq<char>, Seq<Seq<char>>), Failure>(show_collation_translation(body)),
        statement_translation(tagged("ShowCharset"@, body)) == Ok::<(Seq<char>, Seq<Seq<char>>), Failure>(show_charset_translation(body)),
        statement_translation(tagged("ShowVariables"@, body)) == show_variables_translation(body),
        statement_translation(tagged("ShowStatus"@, body)) == show_status_translation(body),
        statement_translation(tagged("ShowColumns"@, body)) == show_columns_translation(body),
        statement_translation(tagged("ShowCreate"@, body)) == show_create_translation(body),
        statement_translation(tagged("ExplainTable"@, body)) == describe_translation(part(body, "table_name"@), Tree::Null, false),
        statement_translation(tagged("AlterTable"@, body)) == alter_table_translation(body),
        statement_translation(tagged("RenameTable"@, body)) == Ok::<(Seq<char>, Seq<Seq<char>>), Failure>(rename_translation(body)),
        statement_translation(tagged("Query"@, body)) == query_translation(body),
        written(tagged("Delete"@, body)) is Ok ==> statement_translation(tagged("Delete"@, body)) == Ok::<
            (Seq<char>, Seq<Seq<char>>),
            Failure,
        >((written(tagged("Delete"@, body))->Ok_0, Seq::empty())),
{
    reveal_strlit("CreateTable");
    reveal_strlit("Insert");
    reveal_strlit("Update");
    reveal_strlit("ShowTables");
    reveal_strlit("ShowDatabases");
    reveal_strlit("ShowSchemas");
    reveal_strlit("ShowViews");
    reveal_strlit("ShowFunctions");
    reveal_strlit("ShowCollation");
    reveal_strlit("ShowCharset");
    reveal_strlit("ShowVariables");
    reveal_strlit("ShowStatus");
    reveal_strlit("ShowColumns");
    reveal_strlit("ShowCreate");
    reveal_strlit("ExplainTable");
    reveal_strlit("AlterTable");
    reveal_strlit("RenameTable");
    reveal_strlit("Query");
    reveal_strlit("Delete");
    assert("CreateTable"@.len() == 11);
    assert("Insert"@.len() == 6);
    assert("Update"@.len() == 6);
    assert("ShowTables"@.len() == 10);
    assert("ShowDatabases"@.len() == 13);
    assert("ShowSchemas"@.len() == 11);
    assert("ShowViews"@.len() == 9);
    assert("ShowFunctions"@.len() == 13);
    assert("ShowCollation"@.len() == 13);
    assert("ShowCharset"@.len() == 11);
    assert("ShowVariables"@.len() == 13);
    assert("ShowStatus"@.len() == 10);
    assert("ShowColumns"@.len() == 11);
    assert("ShowCreate"@.len() == 10);
    assert("ExplainTable"@.len() == 12);
    assert("AlterTable"@.len() == 10);
    assert("RenameTable"@.len() == 11);
    assert("Query"@.len() == 5);
    assert("Delete"@.len() == 6);
    assert("CreateTable"@[0] != "ShowSchemas"@[0]);
    assert("CreateTable"@[0] != "ShowCharset"@[0]);
    assert("CreateTable"@[0] != "ShowColumns"@[0]);
    assert("CreateTable"@[0] != "RenameTable"@[0]);
    assert("Insert"@[0] != "Update"@[0]);
    assert("Insert"@[0] != "Delete"@[0]);
    assert("Update"@[0] != "Delete"@[0]);
    assert("ShowTables"@[4] != "ShowStatus"@[4]);
    assert("ShowTables"@[4] != "ShowCreate"@[4]);
    assert("ShowTables"@[0] != "AlterTable"@[0]);
    assert("ShowDatabases"@[4] != "ShowFunctions"@[4]);
    assert("ShowDatabases"@[4] != "ShowCollation"@[4]);
    assert("ShowDatabases"@[4] != "ShowVariables"@[4]);
    assert("ShowSchemas"@[4] != "ShowCharset"@[4]);
    assert("ShowSchemas"@[4] != "ShowColumns"@[4]);
    assert("ShowSchemas"@[0] != "RenameTable"@[0]);
    assert("ShowFunctions"@[4] != "ShowCollation"@[4]);
    assert("ShowFunctions"@[4] != "ShowVariables"@[4]);
    assert("ShowCollation"@[4] != "ShowVariables"@[4]);
    assert("ShowCharset"@[5] != "ShowColumns"@[5]);
    assert("ShowCharset"@[0] != "RenameTable"@[0]);
    assert("ShowStatus"@[4] != "ShowCreate"@[4]);
    assert("ShowStatus"@[0] != "AlterTable"@[0]);
    assert("ShowColumns"@[0] != "RenameTable"@[0]);
    assert("ShowCreate"@[0] != "AlterTable"@[0]);
}

/// A text of several statements is translated statement by statement, in order, and every one of
/// them is there.
pub proof fn every_statement_is_translated(list: Seq<Tree>, n: int)
    requires
        0 <= n <= list.len(),
    ensures
        translations(list, n) matches Ok(t) ==> t.0.len() == n && forall|i: int|
            0 <= i < n ==> statement_translation(#[trigger] list[i]) is Ok && t.0[i] == statement_translation(
                list[i],
            )->Ok_0.0,
        translations(list, n) is Err ==> exists|i: int| 0 <= i < n && statement_translation(#[trigger] list[i]) is Err,
        canonical_texts(list, n).len() == n,
        forall|i: int| 0 <= i < n ==> #[trigger] canonical_texts(list, n)[i] == shown(statement_sql(list[i])),
        all_checked(list, n) <==> forall|i: int| 0 <= i < n ==> is_checked(#[trigger] list[i]),
    decreases n,
{
    if n > 0 {
        every_statement_is_translated(list, n - 1);
        assert forall|i: int| 0 <= i < n implies #[trigger] canonical_texts(list, n)[i] == shown(statement_sql(list[i])) by {
            if i < n - 1 {
                assert(canonical_texts(list, n)[i] == canonical_texts(list, n - 1)[i]);
            }
        }
        if translations(list, n) is Ok {
            let t = translations(list, n)->Ok_0;
            let before = translations(list, n - 1)->Ok_0;
            assert forall|i: int| 0 <= i < n implies statement_translation(#[trigger] list[i]) is Ok && t.0[i]
                == statement_translation(list[i])->Ok_0.0 by {
                if i < n - 1 {
                    assert(t.0[i] == before.0[i]);
                }
            }
        } else if translations(list, n - 1) is Err {
            let i = choose|i: int| 0 <= i < n - 1 && statement_translation(#[trigger] list[i]) is Err;
            assert(statement_translation(list[i]) is Err);
        } else {
            assert(statement_translation(list[n - 1]) is Err);
        }
    }
}

/// Statements that only look at the catalog are not checked for features that PostgreSQL lacks, and
/// all others are.
pub proof fn catalog_statements_are_not_checked(body: Tree)
    ensures
        !is_checked(tagged("ShowTables"@, body)),
        !is_checked(tagged("ShowColumns"@, body)),
        !is_checked(tagged("ShowVariables"@, body)),
        !is_checked(tagged("ShowStatus"@, body)),
        !is_checked(tagged("ShowCreate"@, body)),
        !is_checked(tagged("ExplainTable"@, body)),
        is_checked(tagged("Query"@, body)),
        is_checked(tagged("Insert"@, body)),
        is_checked(tagged("Update"@, body)),
        is_checked(tagged("CreateTable"@, body)),
        is_checked(tagged("AlterTable"@, body)),
{
    reveal_strlit("CreateTable");
    reveal_strlit("Insert");
    reveal_strlit("Update");
    reveal_strlit("ShowTables");
    reveal_strlit("ShowDatabases");
    reveal_strlit("ShowSchemas");
    reveal_strlit("ShowViews");
    reveal_strlit("ShowFunctions");
    reveal_strlit("ShowCollation");
    reveal_strlit("ShowCharset");
    reveal_strlit("ShowVariables");
    reveal_strlit("ShowStatus");
    reveal_strlit("ShowColumns");
    reveal_strlit("ShowCreate");
    reveal_strlit("ExplainTable");
    reveal_strlit("AlterTable");
    reveal_strlit("RenameTable");
    reveal_strlit("Query");
    assert("CreateTable"@.len() == 11);
    assert("Insert"@.len() == 6);
    assert("Update"@.len() == 6);
    assert("ShowTables"@.len() == 10);
    assert("ShowDatabases"@.len() == 13);
    assert("ShowSchemas"@.len() == 11);
    assert("ShowViews"@.len() == 9);
    assert("ShowFunctions"@.len() == 13);
    assert("ShowCollation"@.len() == 13);
    assert("ShowCharset"@.len() == 11);
    assert("ShowVariables"@.len() == 13);
    assert("ShowStatus"@.len() == 10);
    assert("ShowColumns"@.len() == 11);
    assert("ShowCreate"@.len() == 10);
    assert("ExplainTable"@.len() == 12);
    assert("AlterTable"@.len() == 10);
    assert("RenameTable"@.len() == 11);
    assert("Query"@.len() == 5);
    assert("CreateTable"@[0] != "ShowSchemas"@[0]);
    assert("CreateTable"@[0] != "ShowCharset"@[0]);
    assert("CreateTable"@[0] != "ShowColumns"@[0]);
    assert("CreateTable"@[0] != "RenameTable"@[0]);
    assert("Insert"@[0] != "Update"@[0]);
    assert("ShowTables"@[4] != "ShowStatus"@[4]);
    assert("ShowTables"@[4] != "ShowCreate"@[4]);
    assert("ShowTables"@[0] != "AlterTable"@[0]);
    assert("ShowDatabases"@[4] != "ShowFunctions"@[4]);
    assert("ShowDatabases"@[4] != "ShowCollation"@[4]);
    assert("ShowDatabases"@[4] != "ShowVariables"@[4]);
    assert("ShowSchemas"@[4] != "ShowCharset"@[4]);
    assert("ShowSchemas"@[4] != "ShowColumns"@[4]);
    assert("ShowSchemas"@[0] != "RenameTable"@[0]);
    assert("ShowFunctions"@[4] != "ShowCollation"@[4]);
    assert("ShowFunctions"@[4] != "ShowVariables"@[4]);
    assert("ShowCollation"@[4] != "ShowVariables"@[4]);
    assert("ShowCharset"@[5] != "ShowColumns"@[5]);
    assert("ShowCharset"@[0] != "RenameTable"@[0]);
    assert("ShowStatus"@[4] != "ShowCreate"@[4]);
    assert("ShowStatus"@[0] != "AlterTable"@[0]);
    assert("ShowColumns"@[0] != "RenameTable"@[0]);
    assert("ShowCreate"@[0] != "AlterTable"@[0]);
}

/// What was done to a text before it was parsed is noted, each in its own words, and nothing else.
pub proof fn what_was_done_is_noted(w: Seq<Seq<char>>, p: Prepared)
    ensures
        !p.timeout_hint && !p.ranking && !p.session_variables && !p.rollup && !p.drop_temporary ==> noted(w, p) == w,
        noted(w, p).len() == w.len() + (if p.timeout_hint {
            1int
        } else {
            0
        }) + (if p.ranking {
            1int
        } else {
            0
        }) + (if p.session_variables {
            1int
        } else {
            0
        }) + (if p.rollup {
            1int
        } else {
            0
        }) + (if p.drop_temporary {
            1int
        } else {
            0
        }),
        p.drop_temporary ==> noted(w, p).last()
            == "rewrote MySQL's `DROP TEMPORARY TABLE` to `DROP TABLE`; PostgreSQL drops temporary tables with the same statement as permanent ones"@,
        p.rollup && !p.drop_temporary ==> noted(w, p).last()
            == "rewrote MySQL's `GROUP BY ... WITH ROLLUP` to standard `GROUP BY ROLLUP(...)`"@,
        p.timeout_hint && !p.ranking && !p.session_variables && !p.rollup && !p.drop_temporary ==> noted(w, p).last()
            == "dropped MariaDB's `SET STATEMENT max_statement_time=... FOR` per-statement timeout hint; PostgreSQL has no equivalent single-statement timeout syntax"@,
{
}

/// A hint in front of a statement is dropped and the statement kept, and WITH ROLLUP moves what is
/// grouped on into ROLLUP, with everything around it kept.
pub proof fn texts_are_prepared_around_their_matches(
    sql: Seq<char>,
    m: Seq<Option<(int, int)>>,
    group_by: Seq<Option<(int, int)>>,
    start: int,
    end: int,
    with: Seq<char>,
)
    requires
        m.len() > 0,
        m[0] is Some,
        group_by.len() > 0,
        group_by[0] is Some,
        0 <= group_by[0]->Some_0.0 <= group_by[0]->Some_0.1 <= start <= end <= sql.len(),
    ensures
        after_first(sql, seq![m]) == (sql.skip(m[0]->Some_0.1), true),
        after_first(sql, Seq::empty()) == (sql, false),
        trimmed(sql.subrange(group_by[0]->Some_0.1, start)).len() > 0 ==> rollup_moved(sql, start, end, seq![group_by]) == (
            sql.take(group_by[0]->Some_0.0) + ("GROUP BY ROLLUP("@ + trimmed(sql.subrange(group_by[0]->Some_0.1, start)) + ")"@)
                + sql.skip(end),
            true,
        ),
        rollup_moved(sql, start, end, Seq::empty()) == (sql, false),
        replaced_if_any(sql, seq![m], with) == (spliced_same(sql, seq![m], with), true),
        replaced_if_any(sql, Seq::empty(), with) == (sql, false),
{
}

/// A variable that is read is replaced, and one whose name goes on, or that is assigned, is not.
pub proof fn variables_are_replaced_where_they_are_read(a: Seq<char>, name: Seq<char>, rest: Seq<char>, with: Seq<char>)
    requires
        lacks(a, '@'),
        lacks(rest, '@'),
        lacks(name, '@'),
    ensures
        variable_read(a + "@"@ + name + rest, (a.len() + 1 + name.len()) as int) ==> reads_replaced(
            a + "@"@ + name + rest,
            0,
            "@"@ + name,
            with,
        ) == a + with + rest,
        !variable_read(a + "@"@ + name + rest, (a.len() + 1 + name.len()) as int) ==> reads_replaced(
            a + "@"@ + name + rest,
            0,
            "@"@ + name,
            with,
        ) == a + "@"@ + name + rest,
        rest.len() > 0 && (crate::text::is_word(rest[0])) ==> !variable_read(
            a + "@"@ + name + rest,
            (a.len() + 1 + name.len()) as int,
        ),
        begins(rest, ":="@) ==> !variable_read(a + "@"@ + name + rest, (a.len() + 1 + name.len()) as int),
{
    reveal_strlit("@");
    reveal_strlit(":=");
    let s = a + "@"@ + name + rest;
    let needle = "@"@ + name;
    let n = a.len() as int;
    let end = n + 1 + name.len();
    assert(s.subrange(n, end) =~= needle);
    assert(occurs_at(s, needle, n));
    lemma_find_first(s, needle, 0, n);
    let at = find_from(s, needle, 0);
    assert(at == n) by {
        assert(s.subrange(at, at + needle.len())[0] == s[at]);
        assert(needle[0] == '@');
        if at < n {
            assert(s[at] == a[at]);
        }
    }
    assert forall|i: int| end <= i implies !#[trigger] occurs_at(s, needle, i) by {
        if occurs_at(s, needle, i) {
            assert(s.subrange(i, i + needle.len())[0] == s[i]);
            assert(s[i] == rest[i - end]);
        }
    }
    crate::text::lemma_find(s, needle, end);
    assert(find_from(s, needle, end) < end);
    assert(reads_replaced(s, end, needle, with) == s.skip(end));
    assert(s.skip(end) =~= rest);
    assert(s.subrange(0, n) =~= a);
    assert(a + needle + rest =~= s);
    if rest.len() > 0 {
        assert(s[end] == rest[0]);
    }
    if begins(rest, ":="@) {
        assert(rest.subrange(0, 2)[0] == rest[0]);
        assert(trimmed_start(rest) == rest);
    }
}

/// LOAD DATA becomes COPY into the same table, from the same file, with the same columns and the
/// same delimiter.
pub proof fn loads_keep_their_parts(table: Seq<char>, columns: Seq<char>, path: Seq<char>, delimiter: Seq<char>)
    ensures
        copy_statement(table, columns, path, delimiter) == "COPY "@ + quoted_dotted_name(table) + columns + " FROM "@ + ("'"@
            + escaped_twice(path) + "'"@) + " WITH (FORMAT csv, DELIMITER "@ + ("E'"@ + escaped_twice(delimiter) + "'"@)
            + ", NULL '\\\\N', HEADER false)"@,
        copy_delimiter(None) == "\t"@,
        copy_delimiter(Some(delimiter)) == copy_decoded(delimiter),
{
}

/// The escapes in a delimiter stand for tab, newline, return, null and backslash; any other
/// character stands for itself.
pub proof fn delimiters_are_read_with_their_escapes(c: char)
    ensures
        copy_decoded(seq!['\\', 't']) == seq!['\t'],
        copy_decoded(seq!['\\', 'n']) == seq!['\n'],
        copy_decoded(seq!['\\', 'r']) == seq!['\r'],
        copy_decoded(seq!['\\', '0']) == seq!['\0'],
        copy_decoded(seq!['\\', '\\']) == seq!['\\'],
        c != '\\' ==> copy_decoded(seq![c]) == seq![c],
{
    reveal_with_fuel(copy_decoded_from, 3);
    assert(copy_decoded(seq!['\\', 't']) =~= seq!['\t']);
    assert(copy_decoded(seq!['\\', 'n']) =~= seq!['\n']);
    assert(copy_decoded(seq!['\\', 'r']) =~= seq!['\r']);
    assert(copy_decoded(seq!['\\', '0']) =~= seq!['\0']);
    assert(copy_decoded(seq!['\\', '\\']) =~= seq!['\\']);
    assert(c != '\\' ==> copy_decoded(seq![c]) =~= seq![c]);
}

/// The escapes in a string stand for what MySQL takes them for.
pub proof fn strings_are_read_with_their_escapes(c: char)
    ensures
        escape_value('n') == seq!['\n'],
        escape_value('t') == seq!['\t'],
        escape_value('r') == seq!['\r'],
        escape_value('0') == seq!['\0'],
        escape_value('b') == seq!['\u{8}'],
        escape_value('Z') == seq!['\u{1a}'],
        escape_value('\'') == seq!['\''],
        escape_value('"') == seq!['"'],
        escape_value('\\') == seq!['\\'],
        c == '%' || c == '_' ==> escape_value(c) == seq!['\\', c],
{
}

proof fn lemma_escaped(s: Seq<char>, a: Seq<char>, c: char, b: Seq<char>, q: char, i: int)
    requires
        q == '\'' || q == '"',
        s == seq![q] + a + seq!['\\', c] + b + seq![q],
        lacks(a, q) && lacks(a, '\\') && lacks(b, q) && lacks(b, '\\'),
        1 <= i <= a.len() + 1 || a.len() + 3 <= i <= a.len() + b.len() + 3,
    ensures
        after_quote(s, i, q) == s.len(),
        i <= a.len() + 1 ==> quoted_value(s, i, q) == a.skip(i - 1) + escape_value(c) + b,
        i >= a.len() + 3 ==> quoted_value(s, i, q) == b.skip(i - 3 - a.len()),
    decreases s.len() - i,
{
    let n = a.len() as int;
    if i <= n {
        assert(s[i] == a[i - 1]);
        lemma_escaped(s, a, c, b, q, i + 1);
        assert(seq![a[i - 1]] + (a.skip(i) + escape_value(c) + b) =~= a.skip(i - 1) + escape_value(c) + b);
    } else if i == n + 1 {
        assert(s[i] == '\\');
        assert(s[i + 1] == c);
        lemma_escaped(s, a, c, b, q, i + 2);
        assert(b.skip(0) =~= b);
        assert(a.skip(n) + escape_value(c) + b =~= escape_value(c) + b);
    } else if i < n + 3 + b.len() {
        assert(s[i] == b[i - n - 3]);
        lemma_escaped(s, a, c, b, q, i + 1);
        assert(seq![b[i - n - 3]] + b.skip(i - n - 2) =~= b.skip(i - n - 3));
    } else {
        assert(s[i] == q);
        assert(b.skip(i - n - 3) =~= Seq::<char>::empty());
    }
}

/// A string in double quotes becomes a string literal of the same text, its escapes read, unless
/// double quotes hold names. A text without quotes is left alone.
pub proof fn double_quoted_strings_keep_their_text(a: Seq<char>, c: char, b: Seq<char>)
    requires
        lacks(a, '"') && lacks(a, '\\') && lacks(b, '"') && lacks(b, '\\'),
    ensures
        without_double_quotes(seq!['"'] + a + seq!['\\', c] + b + seq!['"'], false) == string_literal(
            a + escape_value(c) + b,
        ),
{
    let s = seq!['"'] + a + seq!['\\', c] + b + seq!['"'];
    assert(s[0] == '"');
    lemma_escaped(s, a, c, b, '"', 1);
    assert(a.skip(0) =~= a);
    assert(double_quotes_from(s, s.len() as int, false) =~= Seq::<char>::empty());
    let lit = string_literal(a + escape_value(c) + b);
    assert(lit + Seq::<char>::empty() =~= lit);
}

/// A filter is compared with its own value, as a string, or with the first parameter.
pub proof fn filters_keep_their_value(subject: Seq<char>, value: Seq<char>, what: Seq<char>)
    ensures
        compared_with(subject, "?"@, what) == Ok::<Seq<char>, Failure>(subject + "$1"@),
        compared_with(subject, seq!['\''] + value + seq!['\''], what) == Ok::<Seq<char>, Failure>(
            subject + string_literal(value),
        ),
        compared_with(subject, seq!['"'] + value + seq!['"'], what) == Ok::<Seq<char>, Failure>(
            subject + string_literal(value),
        ),
{
    reveal_strlit("?");
    let a = seq!['\''] + value + seq!['\''];
    let b = seq!['"'] + value + seq!['"'];
    assert(a[0] == '\'' && a.last() == '\'');
    assert(b[0] == '"' && b.last() == '"');
    assert(a.subrange(1, a.len() - 1) =~= value);
    assert(b.subrange(1, b.len() - 1) =~= value);
    assert("?"@.len() == 1);
}

/// The parts of an upsert are taken from the groups of its match: the table, the columns, the
/// values and the assignments, in that order.
pub proof fn upserts_take_their_groups(sql: Seq<char>, m: Seq<Option<(int, int)>>)
    requires
        m.len() == 6,
        m[2] is Some,
        m[1] is None,
        m[3] is Some,
        m[4] is Some,
        m[5] is Some,
    ensures
        on_duplicate_translation(sql, seq![m]) == crate::direct::upsert_of(
            sql.subrange(m[2]->Some_0.0, m[2]->Some_0.1),
            sql.subrange(m[3]->Some_0.0, m[3]->Some_0.1),
            sql.subrange(m[4]->Some_0.0, m[4]->Some_0.1),
            sql.subrange(m[5]->Some_0.0, m[5]->Some_0.1),
        ),
        on_duplicate_translation(sql, Seq::empty()) == Ok::<Option<(Seq<char>, Seq<Seq<char>>)>, Failure>(None),
{
}

/// LOAD DATA takes its table, its file and its options from its own places, and is refused where the
/// client would have to send the file.
pub proof fn loads_take_their_groups(sql: Seq<char>, m: Seq<Option<(int, int)>>)
    requires
        m.len() == 6,
        m[2] is Some,
        m[4] is Some,
        m[5] is Some,
    ensures
        m[1] is Some ==> load_data_translation(sql, seq![m]) is Err,
        m[1] is None ==> load_data_translation(sql, seq![m]) matches Ok(Some(_)),
        m[1] is None ==> {
            let options = sql.subrange(m[5]->Some_0.0, m[5]->Some_0.1);
            load_data_translation(sql, seq![m])->Ok_0->Some_0.0 == copy_statement(
                sql.subrange(m[4]->Some_0.0, m[4]->Some_0.1),
                copy_columns(options, crate::regexes::regex_captures(r"(?is)\(([^()]*)\)\s*$"@, options)),
                sql.subrange(m[2]->Some_0.0, m[2]->Some_0.1),
                copy_delimiter(
                    crate::direct::clause_text(
                        options,
                        crate::regexes::regex_captures(crate::direct::FIELDS_TERMINATED@, options),
                    ),
                ),
            )
        },
        load_data_translation(sql, Seq::empty()) == Ok::<Option<(Seq<char>, Seq<Seq<char>>)>, Failure>(None),
{
}

/// A name of two parts keeps both, each in double quotes, in order.
pub proof fn dotted_names_keep_their_parts(a: Seq<char>, b: Seq<char>)
    requires
        crate::laws::sessions::is_name(a),
        crate::laws::sessions::is_name(b),
    ensures
        quoted_dotted_name(a) == quoted_ident(a),
        quoted_dotted_name(a + seq!['.'] + b) == quoted_ident(a) + "."@ + quoted_ident(b),
{
    crate::laws::sessions::lemma_bare_name(a);
    crate::laws::sessions::lemma_bare_name(b);
    assert(lacks(a, '.') && lacks(b, '.')) by {
        assert forall|i: int| 0 <= i < a.len() implies #[trigger] a[i] != '.' by {
            assert(crate::text::is_word(a[i]));
        }
        assert forall|i: int| 0 <= i < b.len() implies #[trigger] b[i] != '.' by {
            assert(crate::text::is_word(b[i]));
        }
    }
    crate::laws::functions::lemma_split_two(a, b, '.');
    crate::text::lemma_split_whole(a, '.');
    let one = requoted(seq![a]);
    let two = requoted(seq![a, b]);
    assert(one =~= seq![quoted_ident(a)]);
    assert(two =~= seq![quoted_ident(a), quoted_ident(b)]);
    assert(two.drop_last() =~= one);
    assert(joined(one, "."@) == quoted_ident(a));
}

/// The rows that an insert takes from a query are those of the query as PostgreSQL takes it.
pub proof fn inserted_queries_are_made_to_fit(insert: Tree)
    requires
        crate::tree::field(insert, "source"@) is Some,
        !(part(insert, "source"@) is Null),
    ensures
        crate::tree::payload(part(part(insert, "source"@), "body"@), "Values"@) is None ==> part(
            crate::statement::source_fixed(insert),
            "source"@,
        ) == crate::query::compatible_query(part(insert, "source"@)),
        crate::tree::payload(part(part(insert, "source"@), "body"@), "Values"@) is Some
            ==> crate::statement::source_fixed(insert) == insert,
{
    crate::laws::records::changed_parts_are_read(
        insert,
        "source"@,
        crate::query::compatible_query(part(insert, "source"@)),
        "source"@,
    );
}

/// Each pass over the text of a statement looks for its own pattern.
pub proof fn passes_look_for_their_own_pattern(d: (Seq<char>, Seq<Seq<char>>))
    ensures
        crate::passes::limits_rewritten(d) == crate::passes::pass_over(
            d,
            crate::passes::Rewrite::LimitOperands,
            crate::regexes::regex_captures(r"(?i)\bLIMIT\s+(\d+)\s*,\s*(\d+)\b"@, d.0),
            "rewrote MySQL LIMIT offset,count to PostgreSQL LIMIT count OFFSET offset"@,
        ),
        crate::passes::hex_rewritten(d.0) == crate::passes::rewritten(
            crate::passes::Rewrite::HexLiteral,
            d.0,
            crate::regexes::regex_captures(r"(?i)\bX'([0-9a-f]*)'"@, d.0),
        ),
        crate::passes::select_modifiers_stripped(d) == crate::passes::pass_over(
            d,
            crate::passes::Rewrite::SelectModifier,
            crate::regexes::regex_captures(r"(?i)\bSELECT\s+(DISTINCT\s+)?SQL_NO_CACHE\s+"@, d.0),
            "stripped MySQL SELECT modifier SQL_NO_CACHE"@,
        ),
        crate::regexes::regex_captures(r"(?i)\)\s*ENGINE\s*=\s*\w+(?:\s+DEFAULT)?(?:\s+CHARSET\s*=\s*\w+)?"@, d.0).len() > 0
            ==> crate::passes::table_options_stripped(d).0 == spliced_same(
            d.0,
            crate::regexes::regex_captures(
                r"(?i)\)\s*ENGINE\s*=\s*\w+(?:\s+DEFAULT)?(?:\s+CHARSET\s*=\s*\w+)?"@,
                d.0,
            ),
            ")"@,
        ),
{
}

/// A pass replaces every match by what stands for it, in order, keeps the text between the matches,
/// and says that it did.
pub proof fn passes_replace_every_match(
    d: (Seq<char>, Seq<Seq<char>>),
    kind: crate::passes::Rewrite,
    found: Seq<Seq<Option<(int, int)>>>,
    warning: Seq<char>,
    i: int,
)
    ensures
        found.len() == 0 ==> crate::passes::pass_over(d, kind, found, warning) == d,
        found.len() > 0 ==> crate::passes::pass_over(d, kind, found, warning).1 == d.1.push(warning),
        found.len() > 0 ==> crate::passes::pass_over(d, kind, found, warning).0 == crate::regexes::spliced(
            d.0,
            found,
            crate::passes::rewrites(kind, d.0, found),
        ),
        crate::passes::rewrites(kind, d.0, found).len() == found.len(),
        0 <= i < found.len() ==> crate::passes::rewrites(kind, d.0, found)[i] == crate::passes::rewrite_of(
            kind,
            d.0,
            found[i],
        ),
{
}

/// A configuration that switches every rewrite off leaves the text of a statement to what is always
/// done: catalog tables, system variables, hexadecimal literals, MySQL's modifiers and reserved names.
pub proof fn rewrites_can_be_switched_off(d: (Seq<char>, Seq<Seq<char>>), cfg: crate::config::TranslatorConfig)
    requires
        !cfg.rewrite_limit_comma,
        !cfg.normalize_mysql_backticks,
        !cfg.normalize_boolean_literals,
        !cfg.rewrite_mysql_functions,
        !cfg.rewrite_json_operators,
        !cfg.strip_mysql_table_options,
    ensures
        ({
            let a = crate::passes::system_variables_rewritten(crate::passes::catalog_views_served(d));
            crate::translator::polished(d, cfg) == crate::passes::reserved_relations_quoted(
                crate::passes::select_modifiers_stripped((crate::passes::hex_rewritten(a.0), a.1)),
            )
        }),
{
}

/// A translation has the statement that it was asked for, the text that was parsed, and the text
/// that was made of it, each in its own place, with its statements joined in order.
pub proof fn translations_are_put_together_in_order(
    sql: Seq<char>,
    statements: Tree,
    p: Prepared,
    cfg: crate::config::TranslatorConfig,
)
    ensures
        parsed_translation(sql, statements, p, cfg) is Ok ==> {
            let list = items(statements);
            let n = list.len() as int;
            let t = parsed_translation(sql, statements, p, cfg)->Ok_0;
            &&& n > 0
            &&& translations(list, n) is Ok
            &&& t.original_sql == sql
            &&& t.canonical_mysql_sql == joined(canonical_texts(list, n), "; "@)
            &&& t.translated_sql == crate::translator::polished(
                (joined(translations(list, n)->Ok_0.0, "; "@), translations(list, n)->Ok_0.1),
                cfg,
            ).0
        },
        items(statements).len() == 0 ==> parsed_translation(sql, statements, p, cfg) is Err,
{
}

/// An assignment inside a statement is replaced by its value in parentheses, and so is every later
/// read of its variable.
pub proof fn assignments_are_replaced_by_their_value(sql: Seq<char>, m: Seq<Option<(int, int)>>, close: int)
    requires
        m.len() == 2,
        m[0] is Some,
        m[1] is Some,
        close == crate::scan::partner(sql, m[0]->Some_0.0, true),
        m[0]->Some_0.1 <= close,
    ensures
        ({
            let name = "@"@ + sql.subrange(m[1]->Some_0.0, m[1]->Some_0.1);
            let value = trimmed(sql.subrange(m[0]->Some_0.1, close));
            let inlined = "("@ + value + ")"@;
            &&& !occurs(value, name) ==> assignment_inlined(sql, seq![m]) == Some(
                reads_replaced(sql.take(m[0]->Some_0.0) + inlined + sql.skip(close + 1), 0, name, inlined),
            )
            &&& occurs(value, name) ==> assignment_inlined(sql, seq![m]) is None
        }),
        assignment_inlined(sql, Seq::empty()) is None,
{
}

} // verus!
