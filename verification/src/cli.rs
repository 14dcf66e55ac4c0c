//! The command line: where a statement comes from, and how results are shown.
use vstd::prelude::*;

use crate::executor::{lossy_text, FieldValue, QueryResult};
use crate::text::{cat2, cat3, cat4, decimal, join, joined, number, push_text, texts};
use crate::translator::{Translation, TranslationResult};

verus! {

/// Where a statement comes from.
#[derive(Debug)]
pub enum Input {
    Sql(String),
    File(String),
}

/// Decides where a statement comes from: exactly one source has to be given.
pub fn read_input(sql: Option<String>, file: Option<String>) -> (r: Result<Input, String>)
    ensures
        match (sql, file) {
            (Some(s), None) => r == Ok::<Input, String>(Input::Sql(s)),
            (None, Some(f)) => r == Ok::<Input, String>(Input::File(f)),
            (Some(_), Some(_)) => r matches Err(m) && m@ == "provide either --sql or --file, not both"@,
            (None, None) => r matches Err(m) && m@ == "provide one of --sql or --file"@,
        },
{
    match (sql, file) {
        (Some(s), None) => Ok(Input::Sql(s)),
        (None, Some(f)) => Ok(Input::File(f)),
        (Some(_), Some(_)) => Err("provide either --sql or --file, not both".to_string()),
        (None, None) => Err("provide one of --sql or --file".to_string()),
    }
}

/// The lines of the first `n` warnings.
pub open spec fn warning_lines(warnings: Seq<Seq<char>>, n: int) -> Seq<char>
    decreases n,
{
    if n <= 0 {
        Seq::empty()
    } else {
        warning_lines(warnings, n - 1) + "\n- "@ + warnings[n - 1]
    }
}

/// A translation as it is shown.
pub open spec fn translation_report(t: Translation) -> Seq<char> {
    let body = "Original SQL:\n"@ + t.original_sql + "\n\nCanonical MySQL AST render:\n"@ + t.canonical_mysql_sql
        + ("\n\nTranslated PostgreSQL SQL:\n"@ + t.translated_sql);
    if t.warnings.len() == 0 {
        body
    } else {
        body + "\n\nWarnings:"@ + warning_lines(t.warnings, t.warnings.len() as int)
    }
}

/// Shows a translation.
pub fn print_translation(result: &TranslationResult) -> (r: String)
    ensures
        r@ == translation_report(result@),
{
    let translated = cat2("\n\nTranslated PostgreSQL SQL:\n", result.translated_sql.as_str());
    let head = cat4(
        "Original SQL:\n",
        result.original_sql.as_str(),
        "\n\nCanonical MySQL AST render:\n",
        result.canonical_mysql_sql.as_str(),
    );
    let body = cat2(head.as_str(), translated.as_str());
    if result.warnings.len() == 0 {
        return body;
    }
    let mut lines = String::new();
    let mut i: usize = 0;
    let ghost w = texts(result.warnings@);
    while i < result.warnings.len()
        invariant
            i <= result.warnings@.len(),
            w == texts(result.warnings@),
            lines@ == warning_lines(w, i as int),
        decreases result.warnings.len() - i,
    {
        lines.append("\n- ");
        lines.append(result.warnings[i].as_str());
        i = i + 1;
    }
    cat3(body.as_str(), "\n\nWarnings:", lines.as_str())
}

/// A value as it is shown; NULL as such.
pub open spec fn shown_value(f: Option<FieldValue>) -> Seq<char> {
    match f {
        Some(v) => lossy_text(v.0@),
        None => "NULL"@,
    }
}

pub open spec fn shown_values(row: Seq<Option<FieldValue>>) -> Seq<Seq<char>> {
    Seq::new(row.len(), |i: int| shown_value(row[i]))
}

/// The lines of the first `n` rows.
pub open spec fn row_lines(rows: Seq<Vec<Option<FieldValue>>>, n: int) -> Seq<char>
    decreases n,
{
    if n <= 0 {
        Seq::empty()
    } else {
        row_lines(rows, n - 1) + joined(shown_values(rows[n - 1]@), " | "@) + "\n"@
    }
}

/// A result as it is shown.
pub open spec fn result_report(q: QueryResult) -> Seq<char> {
    let count = "rows: "@ + decimal(q.row_count as nat);
    if q.columns@.len() == 0 {
        count
    } else {
        "columns: "@ + joined(texts(q.columns@), ", "@) + "\n"@ + row_lines(q.rows@, q.rows@.len() as int) + count
    }
}

fn show_row(row: &Vec<Option<FieldValue>>) -> (r: String)
    ensures
        r@ == joined(shown_values(row@), " | "@),
{
    let mut out: Vec<String> = Vec::new();
    let mut i: usize = 0;
    while i < row.len()
        invariant
            i <= row@.len(),
            texts(out@) =~= shown_values(row@).take(i as int),
        decreases row.len() - i,
    {
        let text = match &row[i] {
            Some(v) => v.to_lossy_string(),
            None => "NULL".to_string(),
        };
        push_text(&mut out, text);
        i = i + 1;
        assert(texts(out@) =~= shown_values(row@).take(i as int));
    }
    assert(texts(out@) =~= shown_values(row@));
    join(&out, " | ")
}

/// Shows a result.
pub fn print_result(q: &QueryResult) -> (r: String)
    ensures
        r@ == result_report(*q),
{
    let count = cat2("rows: ", number(q.row_count).as_str());
    if q.columns.len() == 0 {
        return count;
    }
    let mut lines = String::new();
    let mut i: usize = 0;
    while i < q.rows.len()
        invariant
            i <= q.rows@.len(),
            lines@ == row_lines(q.rows@, i as int),
        decreases q.rows.len() - i,
    {
        lines.append(show_row(&q.rows[i]).as_str());
        lines.append("\n");
        i = i + 1;
    }
    let head = cat3("columns: ", join(&q.columns, ", ").as_str(), "\n");
    cat3(head.as_str(), lines.as_str(), count.as_str())
}

} // verus!
