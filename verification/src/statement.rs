//! Statements: each kind goes to its own translation.
use vstd::prelude::*;

use crate::ddl::{
    alter_table_translation, create_table_translation, rename_translation, translate_alter_table,
    translate_create_table, translate_rename_table, translated_view, Translated,
};
use crate::error::{translation_error, Failure, MiddlewareError};
use crate::exprs::{mapped_items, mapped_list};
use crate::parser::{render_statement, show, shown, statement_sql};
use crate::query::{compatible_query, make_compatible, query_warnings};
use crate::show::{
    describe_translation, show_charset_translation, show_collation_translation,
    show_columns_translation, show_create_translation, show_databases_translation,
    show_functions_translation, show_schemas_translation, show_status_translation,
    show_tables_translation, show_variables_translation, show_views_translation,
    translate_describe_table, translate_show_charset, translate_show_collation,
    translate_show_columns, translate_show_create, translate_show_databases,
    translate_show_functions, translate_show_schemas, translate_show_status, translate_show_tables,
    translate_show_variables, translate_show_views,
};
use crate::text::{push_text, push_texts, same, texts};
use crate::tree::{
    group_trees, inner, is_true, items, pairs, part, payload, present, push_node, put, single, tag,
    tagged, text_node, trees, variant, with_field, Field, Node, Tree,
};

verus! {

/// The text of a statement, or an error where the tree is not that of one.
pub open spec fn written(t: Tree) -> Result<Seq<char>, Failure> {
    match statement_sql(t) {
        Some(s) => Ok(s),
        None => Err(Failure::Translation("the syntax tree is not a statement"@)),
    }
}

/// A written statement with warnings.
pub open spec fn written_with(t: Tree, warnings: Seq<Seq<char>>) -> Result<
    (Seq<char>, Seq<Seq<char>>),
    Failure,
> {
    match written(t) {
        Ok(s) => Ok((s, warnings)),
        Err(e) => Err(e),
    }
}

fn write_with(n: &Node, warnings: Vec<String>) -> (r: Result<Translated, MiddlewareError>)
    ensures
        translated_view(r) == written_with(n.tree(), texts(warnings@)),
{
    match render_statement(n) {
        Some(sql) => Ok(Translated { sql, warnings }),
        None => Err(translation_error("the syntax tree is not a statement")),
    }
}

/// The translation of a query.
pub open spec fn query_translation(query: Tree) -> Result<(Seq<char>, Seq<Seq<char>>), Failure> {
    written_with(tagged("Query"@, compatible_query(query)), query_warnings(query))
}

/// Translates a query.
pub fn translate_query(query: &Node) -> (r: Result<Translated, MiddlewareError>)
    ensures
        translated_view(r) == query_translation(query.tree()),
{
    let (out, warnings) = make_compatible(query);
    write_with(&tag("Query", out), warnings)
}

/// ON CONFLICT DO NOTHING.
pub open spec fn do_nothing() -> Tree {
    tagged(
        "OnConflict"@,
        Tree::Record(seq![("action"@, Tree::Text("DoNothing"@)), ("conflict_target"@, Tree::Null)]),
    )
}

fn do_nothing_node() -> (r: Node)
    ensures
        r.tree() == do_nothing(),
{
    broadcast use group_trees;
    let mut f: Vec<Field> = Vec::new();
    put(&mut f, "action", text_node("DoNothing"));
    put(&mut f, "conflict_target", Node::Null);
    assert(pairs(f@) =~= seq![("action"@, Tree::Text("DoNothing"@)), ("conflict_target"@, Tree::Null)]);
    tag("OnConflict", Node::Record(f))
}

/// Whether INSERT takes its rows from a query rather than from a list of values.
pub open spec fn inserts_query(insert: Tree) -> bool {
    let source = part(insert, "source"@);
    present(source) && payload(part(source, "body"@), "Values"@) is None
}

/// INSERT with the query it takes its rows from made compatible.
pub open spec fn source_fixed(insert: Tree) -> Tree {
    if inserts_query(insert) {
        with_field(insert, "source"@, compatible_query(part(insert, "source"@)))
    } else {
        insert
    }
}

pub open spec fn source_warnings(insert: Tree) -> Seq<Seq<char>> {
    if inserts_query(insert) {
        query_warnings(part(insert, "source"@))
    } else {
        Seq::empty()
    }
}

/// The translation of INSERT.
pub open spec fn insert_translation(insert: Tree) -> Result<(Seq<char>, Seq<Seq<char>>), Failure> {
    let fixed = source_fixed(insert);
    if is_true(part(insert, "ignore"@)) {
        if present(part(insert, "on"@)) {
            Err(
                Failure::Translation(
                    "MySQL INSERT IGNORE with an additional conflict clause is not supported"@,
                ),
            )
        } else {
            written_with(
                tagged(
                    "Insert"@,
                    with_field(with_field(fixed, "ignore"@, Tree::Bool(false)), "on"@, do_nothing()),
                ),
                source_warnings(insert).push(
                    "rewrote MySQL INSERT IGNORE to PostgreSQL INSERT ... ON CONFLICT DO NOTHING"@,
                ),
            )
        }
    } else {
        written_with(tagged("Insert"@, fixed), source_warnings(insert))
    }
}

fn fix_source(insert: &Node) -> (r: (Node, Vec<String>))
    ensures
        r.0.tree() == source_fixed(insert.tree()),
        texts(r.1@) == source_warnings(insert.tree()),
{
    let null = Node::Null;
    match insert.some_part("source") {
        Some(source) => {
            if source.part("body", &null).payload("Values").is_none() {
                let (query, warnings) = make_compatible(source);
                return (insert.with_field("source", &query), warnings);
            }
        },
        None => {},
    }
    let none: Vec<String> = Vec::new();
    assert(texts(none@) =~= Seq::<Seq<char>>::empty());
    (insert.copy(), none)
}

/// Translates INSERT: INSERT IGNORE becomes ON CONFLICT DO NOTHING, and the query of
/// INSERT ... SELECT gets the rewrites of a query.
pub fn translate_insert(insert: &Node) -> (r: Result<Translated, MiddlewareError>)
    ensures
        translated_view(r) == insert_translation(insert.tree()),
{
    if insert.flag("ignore") {
        if insert.has_part("on") {
            return Err(
                translation_error("MySQL INSERT IGNORE with an additional conflict clause is not supported"),
            );
        }
        let (fixed, mut warnings) = fix_source(insert);
        let plain = fixed.with_field("ignore", &Node::Bool(false));
        let out = plain.with_field("on", &do_nothing_node());
        push_text(
            &mut warnings,
            "rewrote MySQL INSERT IGNORE to PostgreSQL INSERT ... ON CONFLICT DO NOTHING".to_string(),
        );
        return write_with(&tag("Insert", out), warnings);
    }
    let (fixed, warnings) = fix_source(insert);
    write_with(&tag("Insert", fixed), warnings)
}

/// A column name without its qualifiers.
pub open spec fn unqualified(name: Tree) -> Tree {
    if items(name).len() > 1 {
        Tree::List(seq![items(name).last()])
    } else {
        name
    }
}

/// An assignment whose target has no qualifiers.
pub open spec fn bare_assignment(a: Tree) -> Tree {
    match payload(part(a, "target"@), "ColumnName"@) {
        Some(name) => with_field(a, "target"@, tagged("ColumnName"@, unqualified(name))),
        None => a,
    }
}

fn strip_assignment(a: &Node) -> (r: Node)
    ensures
        r.tree() == bare_assignment(a.tree()),
{
    let null = Node::Null;
    match a.part("target", &null).payload("ColumnName") {
        Some(name) => {
            let count: usize = name.count();
            let bare = if count > 1 {
                single(name.item(count - 1).copy())
            } else {
                name.copy()
            };
            a.with_field("target", &tag("ColumnName", bare))
        },
        None => a.copy(),
    }
}

/// UPDATE with targets that PostgreSQL accepts: it rejects a qualified one.
pub open spec fn bare_update(update: Tree) -> Tree {
    with_field(
        update,
        "assignments"@,
        mapped_list(part(update, "assignments"@), |t: Tree| bare_assignment(t)),
    )
}

fn strip_assignments(list: &Node) -> (r: Node)
    ensures
        r.tree() == mapped_list(list.tree(), |t: Tree| bare_assignment(t)),
{
    broadcast use group_trees;
    match list {
        Node::List(v) => {
            let mut out: Vec<Node> = Vec::new();
            let mut i: usize = 0;
            let ghost want = mapped_items(trees(v@), |t: Tree| bare_assignment(t));
            while i < v.len()
                invariant
                    i <= v@.len(),
                    want == mapped_items(trees(v@), |t: Tree| bare_assignment(t)),
                    trees(out@) =~= want.take(i as int),
                decreases v.len() - i,
            {
                push_node(&mut out, strip_assignment(&v[i]));
                i = i + 1;
                assert(trees(out@) =~= want.take(i as int));
            }
            assert(trees(out@) =~= want);
            Node::List(out)
        },
        _ => list.copy(),
    }
}

/// The translation of UPDATE.
pub open spec fn update_translation(update: Tree) -> Result<(Seq<char>, Seq<Seq<char>>), Failure> {
    written_with(tagged("Update"@, bare_update(update)), Seq::empty())
}

/// Translates UPDATE.
pub fn translate_update(update: &Node) -> (r: Result<Translated, MiddlewareError>)
    ensures
        translated_view(r) == update_translation(update.tree()),
{
    let null = Node::Null;
    let list = strip_assignments(update.part("assignments", &null));
    let out = update.with_field("assignments", &list);
    let none: Vec<String> = Vec::new();
    assert(texts(none@) =~= Seq::<Seq<char>>::empty());
    write_with(&tag("Update", out), none)
}

/// The translation of a statement.
pub open spec fn statement_translation(t: Tree) -> Result<(Seq<char>, Seq<Seq<char>>), Failure> {
    let v = variant(t);
    let body = inner(t);
    if v == "CreateTable"@ {
        create_table_translation(body)
    } else if v == "Insert"@ {
        insert_translation(body)
    } else if v == "Update"@ {
        update_translation(body)
    } else if v == "ShowTables"@ {
        show_tables_translation(body)
    } else if v == "ShowDatabases"@ {
        show_databases_translation(body)
    } else if v == "ShowSchemas"@ {
        show_schemas_translation(body)
    } else if v == "ShowViews"@ {
        show_views_translation(body)
    } else if v == "ShowFunctions"@ {
        Ok(show_functions_translation(body))
    } else if v == "ShowCollation"@ {
        Ok(show_collation_translation(body))
    } else if v == "ShowCharset"@ {
        Ok(show_charset_translation(body))
    } else if v == "ShowVariables"@ {
        show_variables_translation(body)
    } else if v == "ShowStatus"@ {
        show_status_translation(body)
    } else if v == "ShowColumns"@ {
        show_columns_translation(body)
    } else if v == "ShowCreate"@ {
        show_create_translation(body)
    } else if v == "ExplainTable"@ {
        describe_translation(part(body, "table_name"@), Tree::Null, false)
    } else if v == "AlterTable"@ {
        alter_table_translation(body)
    } else if v == "RenameTable"@ {
        Ok(rename_translation(body))
    } else if v == "Query"@ {
        query_translation(body)
    } else {
        written_with(t, Seq::empty())
    }
}

/// Translates a statement.
pub fn translate_statement(stmt: &Node) -> (r: Result<Translated, MiddlewareError>)
    ensures
        translated_view(r) == statement_translation(stmt.tree()),
{
    let null = Node::Null;
    let name = stmt.variant();
    let v = name.as_str();
    let body = stmt.inner(&null);
    if same(v, "CreateTable") {
        translate_create_table(body)
    } else if same(v, "Insert") {
        translate_insert(body)
    } else if same(v, "Update") {
        translate_update(body)
    } else if same(v, "ShowTables") {
        translate_show_tables(body)
    } else if same(v, "ShowDatabases") {
        translate_show_databases(body)
    } else if same(v, "ShowSchemas") {
        translate_show_schemas(body)
    } else if same(v, "ShowViews") {
        translate_show_views(body)
    } else if same(v, "ShowFunctions") {
        Ok(translate_show_functions(body))
    } else if same(v, "ShowCollation") {
        Ok(translate_show_collation(body))
    } else if same(v, "ShowCharset") {
        Ok(translate_show_charset(body))
    } else if same(v, "ShowVariables") {
        translate_show_variables(body)
    } else if same(v, "ShowStatus") {
        translate_show_status(body)
    } else if same(v, "ShowColumns") {
        translate_show_columns(body)
    } else if same(v, "ShowCreate") {
        translate_show_create(body)
    } else if same(v, "ExplainTable") {
        translate_describe_table(body.part("table_name", &null))
    } else if same(v, "AlterTable") {
        translate_alter_table(body)
    } else if same(v, "RenameTable") {
        Ok(translate_rename_table(body))
    } else if same(v, "Query") {
        translate_query(body)
    } else {
        let none: Vec<String> = Vec::new();
        assert(texts(none@) =~= Seq::<Seq<char>>::empty());
        write_with(stmt, none)
    }
}

/// Whether a statement is checked for features that have no translation: those that are
/// answered from the catalog are not.
pub open spec fn is_checked(t: Tree) -> bool {
    let v = variant(t);
    !(v == "ShowTables"@ || v == "ShowDatabases"@ || v == "ShowSchemas"@ || v == "ShowViews"@ || v
        == "ShowFunctions"@ || v == "ShowCollation"@ || v == "ShowCharset"@ || v == "ShowVariables"@ || v
        == "ShowStatus"@ || v == "ShowColumns"@ || v == "ShowCreate"@ || v == "ExplainTable"@)
}

pub fn statement_requires_unsupported_rejection(stmt: &Node) -> (r: bool)
    ensures
        r == is_checked(stmt.tree()),
{
    let name = stmt.variant();
    let v = name.as_str();
    !(same(v, "ShowTables") || same(v, "ShowDatabases") || same(v, "ShowSchemas") || same(v, "ShowViews") || same(
        v,
        "ShowFunctions",
    ) || same(v, "ShowCollation") || same(v, "ShowCharset") || same(v, "ShowVariables") || same(v, "ShowStatus")
        || same(v, "ShowColumns") || same(v, "ShowCreate") || same(v, "ExplainTable"))
}

/// Whether every one of the first `n` statements is checked.
pub open spec fn all_checked(list: Seq<Tree>, n: int) -> bool
    decreases n,
{
    n <= 0 || (is_checked(list[n - 1]) && all_checked(list, n - 1))
}

/// The first `n` statements as the parser writes them.
pub open spec fn canonical_texts(list: Seq<Tree>, n: int) -> Seq<Seq<char>>
    decreases n,
{
    if n <= 0 {
        Seq::empty()
    } else {
        canonical_texts(list, n - 1).push(shown(statement_sql(list[n - 1])))
    }
}

/// The translations of the first `n` statements and their warnings, or the first error.
pub open spec fn translations(list: Seq<Tree>, n: int) -> Result<(Seq<Seq<char>>, Seq<Seq<char>>), Failure>
    decreases n,
{
    if n <= 0 {
        Ok((Seq::empty(), Seq::empty()))
    } else {
        match translations(list, n - 1) {
            Err(e) => Err(e),
            Ok(before) => match statement_translation(list[n - 1]) {
                Err(e) => Err(e),
                Ok(one) => Ok((before.0.push(one.0), before.1 + one.1)),
            },
        }
    }
}

proof fn lemma_translations_prefix(list: Seq<Tree>, n: int, m: int)
    requires
        n <= m,
        translations(list, n) is Err,
    ensures
        translations(list, m) == translations(list, n),
    decreases m - n,
{
    if n < m {
        lemma_translations_prefix(list, n, m - 1);
    }
}

/// The statements of a text, translated.
pub struct Statements {
    /// The statements as the parser writes them.
    pub canonical: Vec<String>,
    /// The translated statements.
    pub translated: Vec<String>,
    pub warnings: Vec<String>,
    /// Whether every statement is checked for features that have no translation.
    pub checked: bool,
}

/// What the translation of a list of statements holds, or its error.
pub open spec fn statements_outcome(r: Result<Statements, MiddlewareError>, list: Seq<Tree>) -> bool {
    let n = list.len() as int;
    match r {
        Ok(s) => {
            &&& texts(s.canonical@) == canonical_texts(list, n)
            &&& translations(list, n) == Ok::<(Seq<Seq<char>>, Seq<Seq<char>>), Failure>(
                (texts(s.translated@), texts(s.warnings@)),
            )
            &&& s.checked == all_checked(list, n)
        },
        Err(e) => translations(list, n) == Err::<(Seq<Seq<char>>, Seq<Seq<char>>), Failure>(e@),
    }
}

/// Translates a list of statements.
pub fn translate_statements(statements: &Node) -> (r: Result<Statements, MiddlewareError>)
    ensures
        statements_outcome(r, items(statements.tree())),
{
    let mut canonical: Vec<String> = Vec::new();
    let mut translated: Vec<String> = Vec::new();
    let mut warnings: Vec<String> = Vec::new();
    let mut checked = true;
    let mut i: usize = 0;
    let count: usize = statements.count();
    let ghost list = items(statements.tree());
    assert(texts(canonical@) =~= Seq::<Seq<char>>::empty());
    while i < count
        invariant
            list == items(statements.tree()),
            count == list.len(),
            i <= count,
            texts(canonical@) == canonical_texts(list, i as int),
            translations(list, i as int) == Ok::<(Seq<Seq<char>>, Seq<Seq<char>>), Failure>(
                (texts(translated@), texts(warnings@)),
            ),
            checked == all_checked(list, i as int),
        decreases count - i,
    {
        let stmt = statements.item(i);
        push_text(&mut canonical, show(render_statement(stmt)));
        match translate_statement(stmt) {
            Ok(t) => {
                push_text(&mut translated, t.sql);
                push_texts(&mut warnings, &t.warnings);
            },
            Err(e) => {
                proof {
                    lemma_translations_prefix(list, i + 1, count as int);
                }
                return Err(e);
            },
        }
        checked = statement_requires_unsupported_rejection(stmt) && checked;
        i = i + 1;
    }
    Ok(Statements { canonical, translated, warnings, checked })
}

} // verus!
