//! CREATE TABLE, ALTER TABLE and RENAME TABLE.
use vstd::prelude::*;

use crate::direct::{all_quoted, quote_all, text_or};
use crate::error::{translation_error, Failure, MiddlewareError};
use crate::names::{
    bare_object_name_tail, bare_tail, ident_of_part, ident_value, ident_values, index_name,
    part_ident, prefixed_index_name, quote_object_name, quoted_name, value_of_ident,
    values_of_idents,
};
use crate::parser::{
    alter_operation_sql, characteristics_sql, column_option_sql, expr_sql, function_sql, ident_sql,
    index_type_sql, match_kind_sql, nulls_distinct_sql, referential_action_sql,
    render_alter_operation, render_characteristics, render_column_option, render_expr,
    render_function, render_ident, render_index_type, render_match_kind, render_nulls_distinct,
    render_referential_action, render_token, show, shown, token_sql,
};
use crate::quoting::{quote_ident, quoted_ident};
use crate::scan::texts_or;
use crate::text::{
    cat2, cat3, cat4, cat5, cat6, cat7, cat8, chars_of, eq_ignore_case, is_digit, join, joined,
    opt_text, push_text, push_texts, same, same_ignoring_case, texts, trim_matches, unpadded,
};
use crate::tree::{
    inner, is_true, is_unit, item_at, items, opt_tree, part, payload, present, variant, Node, Tree,
};
use crate::types::{implicit_default, implicit_default_of, translate_data_type, type_mapping};

verus! {

/// What a part of a DDL statement contributes: items of the statement itself, items that
/// come after all others, statements that follow it, and warnings.
pub struct Effect {
    pub items: Vec<String>,
    pub extras: Vec<String>,
    pub posts: Vec<String>,
    pub warnings: Vec<String>,
}

/// The mathematical counterpart of [`Effect`].
pub struct Contribution {
    pub items: Seq<Seq<char>>,
    pub extras: Seq<Seq<char>>,
    pub posts: Seq<Seq<char>>,
    pub warnings: Seq<Seq<char>>,
}

impl View for Effect {
    type V = Contribution;

    open spec fn view(&self) -> Contribution {
        Contribution {
            items: texts(self.items@),
            extras: texts(self.extras@),
            posts: texts(self.posts@),
            warnings: texts(self.warnings@),
        }
    }
}

pub open spec fn nothing() -> Contribution {
    Contribution { items: Seq::empty(), extras: Seq::empty(), posts: Seq::empty(), warnings: Seq::empty() }
}

/// Two contributions, the first in front.
pub open spec fn both(a: Contribution, b: Contribution) -> Contribution {
    Contribution {
        items: a.items + b.items,
        extras: a.extras + b.extras,
        posts: a.posts + b.posts,
        warnings: a.warnings + b.warnings,
    }
}

/// The contributions of all parts together, or the first error.
pub open spec fn combined(parts: Seq<Result<Contribution, Failure>>) -> Result<Contribution, Failure>
    decreases parts.len(),
{
    if parts.len() == 0 {
        Ok(nothing())
    } else {
        match combined(parts.drop_last()) {
            Err(e) => Err(e),
            Ok(a) => match parts.last() {
                Err(e) => Err(e),
                Ok(b) => Ok(both(a, b)),
            },
        }
    }
}

proof fn lemma_combined_prefix(parts: Seq<Result<Contribution, Failure>>, n: int)
    requires
        0 <= n <= parts.len(),
        combined(parts.take(n)) is Err,
    ensures
        combined(parts) == combined(parts.take(n)),
    decreases parts.len() - n,
{
    if n < parts.len() {
        assert(parts.take(n + 1).drop_last() =~= parts.take(n));
        lemma_combined_prefix(parts, n + 1);
    } else {
        assert(parts.take(n) =~= parts);
    }
}

pub open spec fn effect_view(r: Result<Effect, MiddlewareError>) -> Result<Contribution, Failure> {
    match r {
        Ok(e) => Ok(e@),
        Err(e) => Err(e@),
    }
}

fn no_effect() -> (r: Effect)
    ensures
        r@ == nothing(),
{
    let r = Effect { items: Vec::new(), extras: Vec::new(), posts: Vec::new(), warnings: Vec::new() };
    assert(texts(r.items@) =~= Seq::<Seq<char>>::empty());
    r
}

fn add_effect(a: &mut Effect, b: &Effect)
    ensures
        final(a)@ == both(old(a)@, b@),
{
    push_texts(&mut a.items, &b.items);
    push_texts(&mut a.extras, &b.extras);
    push_texts(&mut a.posts, &b.posts);
    push_texts(&mut a.warnings, &b.warnings);
}

/// Adds one part's effect to those before it.
fn combine(acc: &mut Effect, next: Result<Effect, MiddlewareError>, Ghost(parts): Ghost<Seq<Result<Contribution, Failure>>>, Ghost(i): Ghost<int>) -> (r: Result<(), MiddlewareError>)
    requires
        0 <= i < parts.len(),
        combined(parts.take(i)) == Ok::<Contribution, Failure>(old(acc)@),
        effect_view(next) == parts[i],
    ensures
        match r {
            Ok(_) => combined(parts.take(i + 1)) == Ok::<Contribution, Failure>(final(acc)@),
            Err(e) => combined(parts) == Err::<Contribution, Failure>(e@),
        },
{
    proof {
        assert(parts.take(i + 1).drop_last() =~= parts.take(i));
        assert(parts.take(i + 1).last() == parts[i]);
    }
    match next {
        Ok(e) => {
            add_effect(acc, &e);
            Ok(())
        },
        Err(e) => {
            proof {
                lemma_combined_prefix(parts, i + 1);
            }
            Err(e)
        },
    }
}

/// A name as the parser writes it, or `<unnamed>`.
pub open spec fn shown_name(t: Tree) -> Seq<char> {
    if present(t) {
        shown(ident_sql(t))
    } else {
        "<unnamed>"@
    }
}

fn show_name(n: &Node) -> (r: String)
    ensures
        r@ == shown_name(n.tree()),
{
    if n.is_null() {
        "<unnamed>".to_string()
    } else {
        show(render_ident(n))
    }
}

/// The sort direction of an index column.
pub open spec fn direction(column: Tree) -> Seq<char> {
    let asc = part(part(part(column, "column"@), "options"@), "asc"@);
    if asc == Tree::Bool(true) {
        " ASC"@
    } else if asc == Tree::Bool(false) {
        " DESC"@
    } else {
        ""@
    }
}

fn render_direction(column: &Node) -> (r: &'static str)
    ensures
        r@ == direction(column.tree()),
{
    let null = Node::Null;
    let asc = column.part("column", &null).part("options", &null).part("asc", &null);
    match asc {
        Node::Bool(b) => if *b {
            " ASC"
        } else {
            " DESC"
        },
        _ => "",
    }
}

/// The operator class of an index column.
pub open spec fn operator_class(column: Tree) -> Seq<char> {
    let class = part(column, "operator_class"@);
    if present(class) {
        " "@ + quoted_name(class)
    } else {
        ""@
    }
}

fn render_operator_class(column: &Node) -> (r: String)
    ensures
        r@ == operator_class(column.tree()),
{
    match column.some_part("operator_class") {
        Some(class) => cat2(" ", quote_object_name(class).as_str()),
        None => "".to_string(),
    }
}

/// The expression that an index column indexes.
pub open spec fn index_expr(column: Tree) -> Tree {
    part(part(column, "column"@), "expr"@)
}

/// A column of a UNIQUE or PRIMARY KEY constraint.
pub open spec fn key_column(column: Tree) -> Seq<char> {
    quoted_ident(unpadded(unpadded(shown(expr_sql(index_expr(column))), '`'), '"')) + direction(column)
        + operator_class(column)
}

pub open spec fn key_columns(columns: Seq<Tree>) -> Seq<Seq<char>> {
    Seq::new(columns.len(), |i: int| key_column(columns[i]))
}

pub fn render_index_column(column: &Node) -> (r: String)
    ensures
        r@ == key_column(column.tree()),
{
    let null = Node::Null;
    let expr = column.part("column", &null).part("expr", &null);
    let text = show(render_expr(expr));
    let text = trim_matches(text.as_str(), '`');
    let text = trim_matches(text.as_str(), '"');
    let name = quote_ident(text.as_str());
    cat3(name.as_str(), render_direction(column), render_operator_class(column).as_str())
}

fn render_key_columns(columns: &Node) -> (r: String)
    ensures
        r@ == joined(key_columns(items(columns.tree())), ", "@),
{
    let mut out: Vec<String> = Vec::new();
    let mut i: usize = 0;
    let count: usize = columns.count();
    let ghost want = key_columns(items(columns.tree()));
    while i < count
        invariant
            count == items(columns.tree()).len(),
            i <= count,
            want == key_columns(items(columns.tree())),
            texts(out@) =~= want.take(i as int),
        decreases count - i,
    {
        push_text(&mut out, render_index_column(columns.item(i)));
        i = i + 1;
        assert(texts(out@) =~= want.take(i as int));
    }
    assert(texts(out@) =~= want);
    join(&out, ", ")
}

/// The error for an index expression that has no translation.
pub open spec fn unsupported_index(function: Tree) -> Failure {
    Failure::Translation(
        "MySQL index expression `"@ + shown(function_sql(function)) + "` is not supported yet"@,
    )
}

/// The length of a prefix index `column(length)`, if the call is of that form.
pub open spec fn prefix_length_expr(function: Tree) -> Option<Tree> {
    let list = payload(part(function, "args"@), "List"@);
    if is_true(part(function, "uses_odbc_syntax"@)) || !is_unit(part(function, "parameters"@), "None"@) || present(
        part(function, "filter"@),
    ) || present(part(function, "null_treatment"@)) || present(part(function, "over"@)) || items(
        part(function, "within_group"@),
    ).len() > 0 || items(part(function, "name"@)).len() != 1 || part_ident(item_at(part(function, "name"@), 0)) is None
        || list is None {
        None
    } else {
        let args = items(part(list->Some_0, "args"@));
        if present(part(list->Some_0, "duplicate_treatment"@)) || items(part(list->Some_0, "clauses"@)).len() > 0
            || args.len() != 1 {
            None
        } else {
            match payload(args[0], "Unnamed"@) {
                Some(arg) => payload(arg, "Expr"@),
                None => None,
            }
        }
    }
}

pub open spec fn all_digits(s: Seq<char>) -> bool {
    forall|i: int| 0 <= i < s.len() ==> is_digit(#[trigger] s[i])
}

fn only_digits(s: &str) -> (r: bool)
    ensures
        r == all_digits(s@),
{
    let c = chars_of(s);
    let mut i: usize = 0;
    while i < c.len()
        invariant
            c@ == s@,
            i <= c@.len(),
            forall|j: int| 0 <= j < i ==> is_digit(#[trigger] c@[j]),
        decreases c.len() - i,
    {
        if !('0' <= c[i] && c[i] <= '9') {
            return false;
        }
        i = i + 1;
    }
    true
}

/// A prefix index `column(length)` as an expression index.
pub open spec fn prefix_index(function: Tree) -> Result<Seq<char>, Failure> {
    match prefix_length_expr(function) {
        None => Err(unsupported_index(function)),
        Some(expr) => {
            let length = shown(expr_sql(expr));
            if !all_digits(length) {
                Err(
                    Failure::Translation(
                        "MySQL index prefix length `"@ + length + "` in `"@ + shown(function_sql(function))
                            + "` is not supported yet"@,
                    ),
                )
            } else {
                Ok(
                    "left("@ + quoted_ident(part_ident(item_at(part(function, "name"@), 0))->Some_0) + ", "@
                        + length + ")"@,
                )
            }
        },
    }
}

fn find_prefix_length<'a>(function: &'a Node) -> (r: Option<&'a Node>)
    ensures
        opt_tree(r) == prefix_length_expr(function.tree()),
{
    let null = Node::Null;
    let name = function.part("name", &null);
    if function.flag("uses_odbc_syntax") || !function.part("parameters", &null).is_unit("None")
        || function.has_part("filter") || function.has_part("null_treatment") || function.has_part("over")
        || function.part("within_group", &null).count() > 0 || name.count() != 1 || ident_of_part(
        name.item_at(0, &null),
    ).is_none() {
        return None;
    }
    let args = match function.field("args") {
        Some(a) => a,
        None => return None,
    };
    let list = match args.payload("List") {
        Some(l) => l,
        None => return None,
    };
    if list.has_part("duplicate_treatment") || list.part("clauses", &null).count() > 0 {
        return None;
    }
    let args = match list.field("args") {
        Some(a) => a,
        None => return None,
    };
    if args.count() != 1 {
        return None;
    }
    match args.item(0).payload("Unnamed") {
        Some(arg) => arg.payload("Expr"),
        None => None,
    }
}

pub fn render_mysql_prefix_index_expr(function: &Node) -> (r: Result<String, MiddlewareError>)
    ensures
        text_or(r) == prefix_index(function.tree()),
{
    let null = Node::Null;
    let shown_function = show(render_function(function));
    match find_prefix_length(function) {
        None => Err(
            MiddlewareError::Translation(
                cat3("MySQL index expression `", shown_function.as_str(), "` is not supported yet"),
            ),
        ),
        Some(expr) => {
            let length = show(render_expr(expr));
            if !only_digits(length.as_str()) {
                return Err(
                    MiddlewareError::Translation(
                        cat5(
                            "MySQL index prefix length `",
                            length.as_str(),
                            "` in `",
                            shown_function.as_str(),
                            "` is not supported yet",
                        ),
                    ),
                );
            }
            let column = match ident_of_part(function.part("name", &null).item_at(0, &null)) {
                Some(c) => c,
                None => String::new(),
            };
            Ok(cat5("left(", quote_ident(column.as_str()).as_str(), ", ", length.as_str(), ")"))
        },
    }
}

/// What an index column indexes: a name, or an expression in parentheses.
pub open spec fn index_target(expr: Tree) -> Result<Seq<char>, Failure> {
    match payload(expr, "Identifier"@) {
        Some(ident) => Ok(quoted_ident(ident_value(ident))),
        None => match payload(expr, "CompoundIdentifier"@) {
            Some(parts) => Ok(joined(all_quoted(ident_values(items(parts))), "."@)),
            None => match payload(expr, "Function"@) {
                Some(function) => match prefix_index(function) {
                    Ok(e) => Ok("("@ + e + ")"@),
                    Err(e) => Err(e),
                },
                None => Err(
                    Failure::Translation(
                        "MySQL index expression `"@ + shown(expr_sql(expr)) + "` is not supported yet"@,
                    ),
                ),
            },
        },
    }
}

pub fn render_index_target_expr(expr: &Node) -> (r: Result<String, MiddlewareError>)
    ensures
        text_or(r) == index_target(expr.tree()),
{
    match expr.payload("Identifier") {
        Some(ident) => return Ok(quote_ident(value_of_ident(ident).as_str())),
        None => {},
    }
    match expr.payload("CompoundIdentifier") {
        Some(parts) => return Ok(join(&quote_all(&values_of_idents(parts)), ".")),
        None => {},
    }
    match expr.payload("Function") {
        Some(function) => match render_mysql_prefix_index_expr(function) {
            Ok(e) => Ok(cat3("(", e.as_str(), ")")),
            Err(e) => Err(e),
        },
        None => Err(
            MiddlewareError::Translation(
                cat3(
                    "MySQL index expression `",
                    show(render_expr(expr)).as_str(),
                    "` is not supported yet",
                ),
            ),
        ),
    }
}

/// A column of CREATE INDEX.
pub open spec fn index_column(column: Tree) -> Result<Seq<char>, Failure> {
    match index_target(index_expr(column)) {
        Ok(target) => Ok(target + direction(column) + operator_class(column)),
        Err(e) => Err(e),
    }
}

pub fn render_index_for_create_index(column: &Node) -> (r: Result<String, MiddlewareError>)
    ensures
        text_or(r) == index_column(column.tree()),
{
    let null = Node::Null;
    match render_index_target_expr(column.part("column", &null).part("expr", &null)) {
        Ok(target) => Ok(
            cat3(target.as_str(), render_direction(column), render_operator_class(column).as_str()),
        ),
        Err(e) => Err(e),
    }
}

/// The columns of CREATE INDEX, or the first error.
pub open spec fn index_columns(columns: Seq<Tree>) -> Result<Seq<Seq<char>>, Failure>
    decreases columns.len(),
{
    if columns.len() == 0 {
        Ok(Seq::empty())
    } else {
        match index_columns(columns.drop_last()) {
            Err(e) => Err(e),
            Ok(v) => match index_column(columns.last()) {
                Err(e) => Err(e),
                Ok(c) => Ok(v.push(c)),
            },
        }
    }
}

proof fn lemma_index_columns_prefix(columns: Seq<Tree>, n: int)
    requires
        0 <= n <= columns.len(),
        index_columns(columns.take(n)) is Err,
    ensures
        index_columns(columns) == index_columns(columns.take(n)),
    decreases columns.len() - n,
{
    if n < columns.len() {
        assert(columns.take(n + 1).drop_last() =~= columns.take(n));
        lemma_index_columns_prefix(columns, n + 1);
    } else {
        assert(columns.take(n) =~= columns);
    }
}

fn render_index_columns(columns: &Node) -> (r: Result<Vec<String>, MiddlewareError>)
    ensures
        texts_or(r) == index_columns(items(columns.tree())),
{
    let mut out: Vec<String> = Vec::new();
    let mut i: usize = 0;
    let count: usize = columns.count();
    let ghost all = items(columns.tree());
    assert(all.take(0) =~= Seq::<Tree>::empty());
    assert(texts(out@) =~= Seq::<Seq<char>>::empty());
    while i < count
        invariant
            count == items(columns.tree()).len(),
            all == items(columns.tree()),
            i <= count,
            index_columns(all.take(i as int)) == Ok::<Seq<Seq<char>>, Failure>(texts(out@)),
        decreases count - i,
    {
        assert(all.take(i + 1).drop_last() =~= all.take(i as int));
        assert(all.take(i + 1).last() == all[i as int]);
        match render_index_for_create_index(columns.item(i)) {
            Ok(c) => {
                push_text(&mut out, c);
            },
            Err(e) => {
                proof {
                    lemma_index_columns_prefix(all, i + 1);
                }
                return Err(e);
            },
        }
        i = i + 1;
    }
    assert(all.take(i as int) =~= all);
    Ok(out)
}

/// CREATE INDEX on a table.
pub open spec fn create_index(
    keyword: Seq<char>,
    name: Seq<char>,
    table: Tree,
    columns: Seq<Tree>,
) -> Result<Seq<char>, Failure> {
    match index_columns(columns) {
        Err(e) => Err(e),
        Ok(cs) => Ok(
            keyword + quoted_ident(name) + " ON "@ + quoted_name(table) + " ("@ + joined(cs, ", "@) + ")"@,
        ),
    }
}

fn render_create_index(keyword: &str, name: &str, table: &Node, columns: &Node) -> (r: Result<
    String,
    MiddlewareError,
>)
    ensures
        text_or(r) == create_index(keyword@, name@, table.tree(), items(columns.tree())),
{
    match render_index_columns(columns) {
        Err(e) => Err(e),
        Ok(cs) => Ok(
            cat7(
                keyword,
                quote_ident(name).as_str(),
                " ON ",
                quote_object_name(table).as_str(),
                " (",
                join(&cs, ", ").as_str(),
                ")",
            ),
        ),
    }
}

/// The written name of an index, if it has one.
pub open spec fn written_name(t: Tree) -> Option<Seq<char>> {
    if present(t) {
        Some(shown(ident_sql(t)))
    } else {
        None
    }
}

fn write_name(n: &Node) -> (r: Option<String>)
    ensures
        opt_text(r) == written_name(n.tree()),
{
    if n.is_null() {
        None
    } else {
        Some(show(render_ident(n)))
    }
}

/// An inline KEY or INDEX as a CREATE INDEX statement.
pub open spec fn inline_index(index: Tree, table: Tree) -> Result<Seq<char>, Failure> {
    let name = part(index, "name"@);
    if items(part(index, "index_options"@)).len() > 0 {
        Err(
            Failure::Translation(
                "MySQL inline KEY/INDEX `"@ + shown_name(name) + "` with index options is not supported yet"@,
            ),
        )
    } else if present(part(index, "index_type"@)) {
        Err(
            Failure::Translation(
                "MySQL inline KEY/INDEX `"@ + shown_name(name) + "` USING "@ + shown(
                    index_type_sql(part(index, "index_type"@)),
                ) + " is not supported yet"@,
            ),
        )
    } else {
        create_index(
            "CREATE INDEX "@,
            index_name(table, written_name(name), "idx"@),
            table,
            items(part(index, "columns"@)),
        )
    }
}

pub fn translate_inline_index(index: &Node, table_name: &Node) -> (r: Result<String, MiddlewareError>)
    ensures
        text_or(r) == inline_index(index.tree(), table_name.tree()),
{
    let null = Node::Null;
    let name = index.part("name", &null);
    let shown_as = show_name(name);
    if index.part("index_options", &null).count() > 0 {
        return Err(
            MiddlewareError::Translation(
                cat3(
                    "MySQL inline KEY/INDEX `",
                    shown_as.as_str(),
                    "` with index options is not supported yet",
                ),
            ),
        );
    }
    match index.some_part("index_type") {
        Some(index_type) => {
            return Err(
                MiddlewareError::Translation(
                    cat5(
                        "MySQL inline KEY/INDEX `",
                        shown_as.as_str(),
                        "` USING ",
                        show(render_index_type(index_type)).as_str(),
                        " is not supported yet",
                    ),
                ),
            );
        },
        None => {},
    }
    let full_name = prefixed_index_name(table_name, &write_name(name), "idx");
    render_create_index("CREATE INDEX ", full_name.as_str(), table_name, index.part("columns", &null))
}

/// The name of a UNIQUE KEY: that of its index, or that of the constraint.
pub open spec fn unique_key_name(unique: Tree) -> Tree {
    if present(part(unique, "index_name"@)) {
        part(unique, "index_name"@)
    } else {
        part(unique, "name"@)
    }
}

/// A UNIQUE KEY over expressions as a CREATE UNIQUE INDEX statement.
pub open spec fn unique_index(unique: Tree, table: Tree) -> Result<Seq<char>, Failure> {
    let name = shown_name(unique_key_name(unique));
    if items(part(unique, "index_options"@)).len() > 0 {
        Err(
            Failure::Translation(
                "MySQL UNIQUE KEY `"@ + name + "` with index options is not supported yet"@,
            ),
        )
    } else if present(part(unique, "index_type"@)) {
        Err(
            Failure::Translation(
                "MySQL UNIQUE KEY `"@ + name + "` USING <index type> is not supported yet"@,
            ),
        )
    } else if present(part(unique, "characteristics"@)) || !is_unit(part(unique, "nulls_distinct"@), "None"@) {
        Err(
            Failure::Translation(
                "MySQL UNIQUE KEY `"@ + name
                    + "` with PostgreSQL-specific constraint options is not supported in expression-index rewriting"@,
            ),
        )
    } else {
        create_index(
            "CREATE UNIQUE INDEX "@,
            index_name(table, written_name(unique_key_name(unique)), "uniq_idx"@),
            table,
            items(part(unique, "columns"@)),
        )
    }
}

fn find_unique_key_name<'a>(unique: &'a Node, null: &'a Node) -> (r: &'a Node)
    requires
        null.tree() is Null,
    ensures
        r.tree() == unique_key_name(unique.tree()),
{
    match unique.some_part("index_name") {
        Some(n) => n,
        None => unique.part("name", null),
    }
}

pub fn translate_unique_constraint_as_index(unique: &Node, table_name: &Node) -> (r: Result<
    String,
    MiddlewareError,
>)
    ensures
        text_or(r) == unique_index(unique.tree(), table_name.tree()),
{
    let null = Node::Null;
    let name = find_unique_key_name(unique, &null);
    let shown_as = show_name(name);
    if unique.part("index_options", &null).count() > 0 {
        return Err(
            MiddlewareError::Translation(
                cat3(
                    "MySQL UNIQUE KEY `",
                    shown_as.as_str(),
                    "` with index options is not supported yet",
                ),
            ),
        );
    }
    if unique.has_part("index_type") {
        return Err(
            MiddlewareError::Translation(
                cat3(
                    "MySQL UNIQUE KEY `",
                    shown_as.as_str(),
                    "` USING <index type> is not supported yet",
                ),
            ),
        );
    }
    if unique.has_part("characteristics") || !unique.part("nulls_distinct", &null).is_unit("None") {
        return Err(
            MiddlewareError::Translation(
                cat3(
                    "MySQL UNIQUE KEY `",
                    shown_as.as_str(),
                    "` with PostgreSQL-specific constraint options is not supported in expression-index rewriting",
                ),
            ),
        );
    }
    let full_name = prefixed_index_name(table_name, &write_name(name), "uniq_idx");
    render_create_index(
        "CREATE UNIQUE INDEX ",
        full_name.as_str(),
        table_name,
        unique.part("columns", &null),
    )
}

/// Whether an index column is an expression rather than a name.
pub open spec fn uses_expression(column: Tree) -> bool {
    payload(index_expr(column), "Identifier"@) is None && payload(
        index_expr(column),
        "CompoundIdentifier"@,
    ) is None
}

/// Whether a UNIQUE constraint has to become an index, because it is over expressions.
pub open spec fn requires_post_index(unique: Tree) -> bool {
    exists|i: int|
        0 <= i < items(part(unique, "columns"@)).len() && uses_expression(
            #[trigger] items(part(unique, "columns"@))[i],
        )
}

pub fn unique_constraint_requires_post_index(unique: &Node) -> (r: bool)
    ensures
        r == requires_post_index(unique.tree()),
{
    let null = Node::Null;
    let columns = unique.part("columns", &null);
    let mut i: usize = 0;
    let count: usize = columns.count();
    while i < count
        invariant
            null.tree() is Null,
            columns.tree() == part(unique.tree(), "columns"@),
            count == items(columns.tree()).len(),
            i <= count,
            forall|j: int| 0 <= j < i ==> !uses_expression(#[trigger] items(columns.tree())[j]),
        decreases count - i,
    {
        let expr = columns.item(i).part("column", &null).part("expr", &null);
        if expr.payload("Identifier").is_none() && expr.payload("CompoundIdentifier").is_none() {
            assert(uses_expression(items(columns.tree())[i as int]));
            return true;
        }
        i = i + 1;
    }
    false
}

/// `CONSTRAINT "name" ` in front of a named constraint.
pub open spec fn constraint_name(constraint: Tree) -> Seq<char> {
    let name = part(constraint, "name"@);
    if present(name) {
        "CONSTRAINT "@ + quoted_ident(ident_value(name)) + " "@
    } else {
        ""@
    }
}

fn render_constraint_name(constraint: &Node) -> (r: String)
    ensures
        r@ == constraint_name(constraint.tree()),
{
    match constraint.some_part("name") {
        Some(name) => cat3("CONSTRAINT ", quote_ident(value_of_ident(name).as_str()).as_str(), " "),
        None => "".to_string(),
    }
}

/// The characteristics of a constraint, with a blank in front.
pub open spec fn characteristics(constraint: Tree) -> Seq<char> {
    let c = part(constraint, "characteristics"@);
    if present(c) {
        " "@ + shown(characteristics_sql(c))
    } else {
        ""@
    }
}

fn render_constraint_characteristics(constraint: &Node) -> (r: String)
    ensures
        r@ == characteristics(constraint.tree()),
{
    match constraint.some_part("characteristics") {
        Some(c) => cat2(" ", show(render_characteristics(c)).as_str()),
        None => "".to_string(),
    }
}

pub open spec fn unique_constraint(t: Tree) -> Seq<char> {
    constraint_name(t) + "UNIQUE"@ + shown(nulls_distinct_sql(part(t, "nulls_distinct"@))) + " ("@ + joined(
        key_columns(items(part(t, "columns"@))),
        ", "@,
    ) + ")"@ + characteristics(t)
}

pub open spec fn primary_key_constraint(t: Tree) -> Seq<char> {
    constraint_name(t) + "PRIMARY KEY ("@ + joined(key_columns(items(part(t, "columns"@))), ", "@) + ")"@
        + characteristics(t)
}

/// A referential action with its keyword in front.
pub open spec fn action_clause(keyword: Seq<char>, action: Tree) -> Seq<char> {
    if present(action) {
        keyword + shown(referential_action_sql(action))
    } else {
        ""@
    }
}

fn render_action_clause(keyword: &str, action: &Node) -> (r: String)
    ensures
        r@ == action_clause(keyword@, action.tree()),
{
    if action.is_null() {
        "".to_string()
    } else {
        cat2(keyword, show(render_referential_action(action)).as_str())
    }
}

pub open spec fn match_clause(t: Tree) -> Seq<char> {
    let kind = part(t, "match_kind"@);
    if present(kind) {
        " "@ + shown(match_kind_sql(kind))
    } else {
        ""@
    }
}

pub open spec fn foreign_key_constraint(t: Tree) -> Seq<char> {
    (constraint_name(t) + "FOREIGN KEY ("@ + joined(
        all_quoted(ident_values(items(part(t, "columns"@)))),
        ", "@,
    ) + ") REFERENCES "@ + quoted_name(part(t, "foreign_table"@)) + " ("@ + joined(
        all_quoted(ident_values(items(part(t, "referred_columns"@)))),
        ", "@,
    ) + ")"@) + (match_clause(t) + action_clause(" ON DELETE "@, part(t, "on_delete"@)) + action_clause(
        " ON UPDATE "@,
        part(t, "on_update"@),
    ) + characteristics(t))
}

fn render_foreign_key(t: &Node) -> (r: String)
    ensures
        r@ == foreign_key_constraint(t.tree()),
{
    let null = Node::Null;
    let name = render_constraint_name(t);
    let columns = join(&quote_all(&values_of_idents(t.part("columns", &null))), ", ");
    let referred = join(&quote_all(&values_of_idents(t.part("referred_columns", &null))), ", ");
    let table = quote_object_name(t.part("foreign_table", &null));
    let kind = match t.some_part("match_kind") {
        Some(k) => cat2(" ", show(render_match_kind(k)).as_str()),
        None => "".to_string(),
    };
    let on_delete = render_action_clause(" ON DELETE ", t.part("on_delete", &null));
    let on_update = render_action_clause(" ON UPDATE ", t.part("on_update", &null));
    let rest = render_constraint_characteristics(t);
    let head = cat8(
        name.as_str(),
        "FOREIGN KEY (",
        columns.as_str(),
        ") REFERENCES ",
        table.as_str(),
        " (",
        referred.as_str(),
        ")",
    );
    let tail = cat4(kind.as_str(), on_delete.as_str(), on_update.as_str(), rest.as_str());
    cat2(head.as_str(), tail.as_str())
}

/// A table constraint.
pub open spec fn table_constraint(t: Tree) -> Result<Seq<char>, Failure> {
    let body = inner(t);
    if variant(t) == "Unique"@ {
        Ok(unique_constraint(body))
    } else if variant(t) == "PrimaryKey"@ {
        Ok(primary_key_constraint(body))
    } else if variant(t) == "ForeignKey"@ {
        Ok(foreign_key_constraint(body))
    } else if variant(t) == "Check"@ {
        Ok(constraint_name(body) + "CHECK ("@ + shown(expr_sql(part(body, "expr"@))) + ")"@)
    } else if variant(t) == "Index"@ {
        Err(
            Failure::Translation(
                "MySQL KEY/INDEX constraint should be handled before table constraint rendering"@,
            ),
        )
    } else {
        Err(
            Failure::Translation(
                "MySQL FULLTEXT/SPATIAL constraint `"@ + shown_name(part(body, "opt_index_name"@))
                    + "` is not supported in PostgreSQL translation"@,
            ),
        )
    }
}

/// Renders a table constraint.
pub fn translate_table_constraint(constraint: &Node) -> (r: Result<String, MiddlewareError>)
    ensures
        text_or(r) == table_constraint(constraint.tree()),
{
    let null = Node::Null;
    let body = constraint.inner(&null);
    let v = constraint.variant();
    if same(v.as_str(), "Unique") {
        Ok(
            cat7(
                render_constraint_name(body).as_str(),
                "UNIQUE",
                show(render_nulls_distinct(body.part("nulls_distinct", &null))).as_str(),
                " (",
                render_key_columns(body.part("columns", &null)).as_str(),
                ")",
                render_constraint_characteristics(body).as_str(),
            ),
        )
    } else if same(v.as_str(), "PrimaryKey") {
        Ok(
            cat5(
                render_constraint_name(body).as_str(),
                "PRIMARY KEY (",
                render_key_columns(body.part("columns", &null)).as_str(),
                ")",
                render_constraint_characteristics(body).as_str(),
            ),
        )
    } else if same(v.as_str(), "ForeignKey") {
        Ok(render_foreign_key(body))
    } else if same(v.as_str(), "Check") {
        Ok(
            cat4(
                render_constraint_name(body).as_str(),
                "CHECK (",
                show(render_expr(body.part("expr", &null))).as_str(),
                ")",
            ),
        )
    } else if same(v.as_str(), "Index") {
        Err(
            translation_error(
                "MySQL KEY/INDEX constraint should be handled before table constraint rendering",
            ),
        )
    } else {
        Err(
            MiddlewareError::Translation(
                cat3(
                    "MySQL FULLTEXT/SPATIAL constraint `",
                    show_name(body.part("opt_index_name", &null)).as_str(),
                    "` is not supported in PostgreSQL translation",
                ),
            ),
        )
    }
}

/// Whether the tokens of a dialect-specific option are AUTO_INCREMENT.
pub open spec fn auto_increment_tokens(tokens: Tree) -> bool {
    items(tokens).len() == 1 && same_ignoring_case(shown(token_sql(items(tokens)[0])), "AUTO_INCREMENT"@)
}

pub fn is_auto_increment(tokens: &Node) -> (r: bool)
    ensures
        r == auto_increment_tokens(tokens.tree()),
{
    tokens.count() == 1 && eq_ignore_case(show(render_token(tokens.item(0))).as_str(), "AUTO_INCREMENT")
}

/// What a column option means for the translation.
#[derive(Clone, Copy, PartialEq, Eq, Structural)]
pub enum OptionKind {
    AutoIncrement,
    OnUpdate,
    Charset,
    Comment,
    Invisible,
    NotNull,
    Null,
    Default,
    Other,
}

pub open spec fn option_kind(o: Tree) -> OptionKind {
    let v = variant(o);
    if v == "DialectSpecific"@ && auto_increment_tokens(inner(o)) {
        OptionKind::AutoIncrement
    } else if v == "OnUpdate"@ {
        OptionKind::OnUpdate
    } else if v == "CharacterSet"@ || v == "Collation"@ {
        OptionKind::Charset
    } else if v == "Comment"@ {
        OptionKind::Comment
    } else if v == "Invisible"@ {
        OptionKind::Invisible
    } else if v == "NotNull"@ {
        OptionKind::NotNull
    } else if v == "Null"@ {
        OptionKind::Null
    } else if v == "Default"@ {
        OptionKind::Default
    } else {
        OptionKind::Other
    }
}

pub fn kind_of_option(o: &Node) -> (r: OptionKind)
    ensures
        r == option_kind(o.tree()),
{
    let null = Node::Null;
    let name = o.variant();
    let v = name.as_str();
    if same(v, "DialectSpecific") && is_auto_increment(o.inner(&null)) {
        OptionKind::AutoIncrement
    } else if same(v, "OnUpdate") {
        OptionKind::OnUpdate
    } else if same(v, "CharacterSet") || same(v, "Collation") {
        OptionKind::Charset
    } else if same(v, "Comment") {
        OptionKind::Comment
    } else if same(v, "Invisible") {
        OptionKind::Invisible
    } else if same(v, "NotNull") {
        OptionKind::NotNull
    } else if same(v, "Null") {
        OptionKind::Null
    } else if same(v, "Default") {
        OptionKind::Default
    } else {
        OptionKind::Other
    }
}

/// The options of a column definition, without their names.
pub open spec fn bare_options(defs: Seq<Tree>) -> Seq<Tree> {
    Seq::new(defs.len(), |i: int| part(defs[i], "option"@))
}

/// Whether one of the first `n` options is of a kind.
pub open spec fn any_option(options: Seq<Tree>, kind: OptionKind, n: int) -> bool
    decreases n,
{
    n > 0 && (option_kind(options[n - 1]) == kind || any_option(options, kind, n - 1))
}

/// The options, of the first `n`, that PostgreSQL takes as they are.
pub open spec fn kept_options(options: Seq<Tree>, n: int) -> Seq<Seq<char>>
    decreases n,
{
    if n <= 0 {
        Seq::empty()
    } else {
        let before = kept_options(options, n - 1);
        let kind = option_kind(options[n - 1]);
        if kind == OptionKind::AutoIncrement || kind == OptionKind::OnUpdate || kind == OptionKind::Charset || kind
            == OptionKind::Comment || kind == OptionKind::Invisible {
            before
        } else {
            before.push(shown(column_option_sql(options[n - 1])))
        }
    }
}

/// The warnings about the first `n` options.
pub open spec fn option_warnings(options: Seq<Tree>, column: Seq<char>, n: int) -> Seq<Seq<char>>
    decreases n,
{
    if n <= 0 {
        Seq::empty()
    } else {
        let before = option_warnings(options, column, n - 1);
        match option_kind(options[n - 1]) {
            OptionKind::AutoIncrement => before.push(
                "rewrote AUTO_INCREMENT on column `"@ + column + "` to PostgreSQL identity"@,
            ),
            OptionKind::OnUpdate => before.push(
                "dropped MySQL ON UPDATE clause from column `"@ + column
                    + "`; PostgreSQL requires a trigger for equivalent behavior"@,
            ),
            OptionKind::Charset => before.push(
                "dropped MySQL character set/collation column option from `"@ + column + "`"@,
            ),
            OptionKind::Comment => before.push("dropped MySQL column comment from `"@ + column + "`"@),
            OptionKind::Invisible => before.push(
                "dropped MySQL INVISIBLE column attribute from `"@ + column + "`"@,
            ),
            _ => before,
        }
    }
}

/// The options of a column as PostgreSQL writes them. A column that is added to a table
/// with rows gets the default that MySQL would fill it with (`backfill`).
pub open spec fn column_options(options: Seq<Tree>, pg_type: Seq<char>, backfill: bool) -> Seq<Seq<char>> {
    let n = options.len() as int;
    let kept = kept_options(options, n);
    if any_option(options, OptionKind::AutoIncrement, n) {
        kept.push("GENERATED BY DEFAULT AS IDENTITY"@)
    } else if backfill && any_option(options, OptionKind::NotNull, n) && !any_option(
        options,
        OptionKind::Default,
        n,
    ) && implicit_default(pg_type) is Some {
        kept.push("DEFAULT "@ + implicit_default(pg_type)->Some_0)
    } else {
        kept
    }
}

/// A column definition: the column itself, the constraints that keep its value range,
/// and the warnings.
pub open spec fn column_definition(column: Tree, backfill: bool) -> Contribution {
    let name = shown(ident_sql(part(column, "name"@)));
    let mapping = type_mapping(name, part(column, "data_type"@));
    let options = bare_options(items(part(column, "options"@)));
    let rendered = column_options(options, mapping.sql, backfill);
    let head = quoted_ident(ident_value(part(column, "name"@))) + " "@ + mapping.sql;
    Contribution {
        items: seq![
            if rendered.len() == 0 {
                head
            } else {
                head + " "@ + joined(rendered, " "@)
            },
        ],
        extras: mapping.checks,
        posts: Seq::empty(),
        warnings: mapping.warnings + option_warnings(options, name, options.len() as int),
    }
}

/// The options of a column, read one by one.
struct ReadOptions {
    kept: Vec<String>,
    warnings: Vec<String>,
    auto_increment: bool,
    not_null: bool,
    default: bool,
}

fn read_options(defs: &Node, column: &str) -> (r: ReadOptions)
    ensures
        ({
            let options = bare_options(items(defs.tree()));
            let n = options.len() as int;
            &&& texts(r.kept@) == kept_options(options, n)
            &&& texts(r.warnings@) == option_warnings(options, column@, n)
            &&& r.auto_increment == any_option(options, OptionKind::AutoIncrement, n)
            &&& r.not_null == any_option(options, OptionKind::NotNull, n)
            &&& r.default == any_option(options, OptionKind::Default, n)
        }),
{
    let null = Node::Null;
    let mut kept: Vec<String> = Vec::new();
    let mut warnings: Vec<String> = Vec::new();
    let mut auto_increment = false;
    let mut not_null = false;
    let mut default = false;
    let mut i: usize = 0;
    let count: usize = defs.count();
    let ghost options = bare_options(items(defs.tree()));
    assert(texts(kept@) =~= Seq::<Seq<char>>::empty());
    while i < count
        invariant
            null.tree() is Null,
            count == items(defs.tree()).len(),
            options == bare_options(items(defs.tree())),
            i <= count,
            texts(kept@) == kept_options(options, i as int),
            texts(warnings@) == option_warnings(options, column@, i as int),
            auto_increment == any_option(options, OptionKind::AutoIncrement, i as int),
            not_null == any_option(options, OptionKind::NotNull, i as int),
            default == any_option(options, OptionKind::Default, i as int),
        decreases count - i,
    {
        let o = defs.item(i).part("option", &null);
        assert(o.tree() == options[i as int]);
        match kind_of_option(o) {
            OptionKind::AutoIncrement => {
                auto_increment = true;
                push_text(
                    &mut warnings,
                    cat3("rewrote AUTO_INCREMENT on column `", column, "` to PostgreSQL identity"),
                );
            },
            OptionKind::OnUpdate => {
                push_text(
                    &mut warnings,
                    cat3(
                        "dropped MySQL ON UPDATE clause from column `",
                        column,
                        "`; PostgreSQL requires a trigger for equivalent behavior",
                    ),
                );
            },
            OptionKind::Charset => {
                push_text(
                    &mut warnings,
                    cat3("dropped MySQL character set/collation column option from `", column, "`"),
                );
            },
            OptionKind::Comment => {
                push_text(&mut warnings, cat3("dropped MySQL column comment from `", column, "`"));
            },
            OptionKind::Invisible => {
                push_text(
                    &mut warnings,
                    cat3("dropped MySQL INVISIBLE column attribute from `", column, "`"),
                );
            },
            OptionKind::NotNull => {
                not_null = true;
                push_text(&mut kept, show(render_column_option(o)));
            },
            OptionKind::Default => {
                default = true;
                push_text(&mut kept, show(render_column_option(o)));
            },
            OptionKind::Null => {
                push_text(&mut kept, show(render_column_option(o)));
            },
            OptionKind::Other => {
                push_text(&mut kept, show(render_column_option(o)));
            },
        }
        i = i + 1;
    }
    ReadOptions { kept, warnings, auto_increment, not_null, default }
}

/// Translates a column definition.
pub fn translate_column(column: &Node, backfill: bool) -> (r: Effect)
    ensures
        r@ == column_definition(column.tree(), backfill),
{
    let null = Node::Null;
    let name_node = column.part("name", &null);
    let name = show(render_ident(name_node));
    let mapped = translate_data_type(name.as_str(), column.part("data_type", &null));
    let mut read = read_options(column.part("options", &null), name.as_str());
    if read.auto_increment {
        push_text(&mut read.kept, "GENERATED BY DEFAULT AS IDENTITY".to_string());
    } else if backfill && read.not_null && !read.default {
        match implicit_default_of(mapped.sql.as_str()) {
            Some(value) => {
                push_text(&mut read.kept, cat2("DEFAULT ", value));
            },
            None => {},
        }
    }
    let quoted = quote_ident(value_of_ident(name_node).as_str());
    let rendered = if read.kept.len() == 0 {
        cat3(quoted.as_str(), " ", mapped.sql.as_str())
    } else {
        cat5(quoted.as_str(), " ", mapped.sql.as_str(), " ", join(&read.kept, " ").as_str())
    };
    let ghost text = rendered@;
    let mut items: Vec<String> = Vec::new();
    push_text(&mut items, rendered);
    assert(texts(items@) =~= seq![text]);
    let mut warnings = mapped.warnings;
    push_texts(&mut warnings, &read.warnings);
    let posts: Vec<String> = Vec::new();
    assert(texts(posts@) =~= Seq::<Seq<char>>::empty());
    Effect { items, extras: mapped.checks, posts, warnings }
}

/// The contribution of one constraint of CREATE TABLE.
pub open spec fn constraint_contribution(t: Tree, table: Tree) -> Result<Contribution, Failure> {
    let body = inner(t);
    if variant(t) == "Index"@ {
        match inline_index(body, table) {
            Err(e) => Err(e),
            Ok(sql) => Ok(
                Contribution {
                    items: Seq::empty(),
                    extras: Seq::empty(),
                    posts: seq![sql],
                    warnings: seq![
                        "rewrote MySQL inline KEY/INDEX `"@ + shown_name(part(body, "name"@))
                            + "` to a separate PostgreSQL CREATE INDEX statement"@,
                    ],
                },
            ),
        }
    } else if variant(t) == "Unique"@ && requires_post_index(body) {
        match unique_index(body, table) {
            Err(e) => Err(e),
            Ok(sql) => Ok(
                Contribution {
                    items: Seq::empty(),
                    extras: Seq::empty(),
                    posts: seq![sql],
                    warnings: seq![
                        "rewrote MySQL UNIQUE KEY `"@ + shown_name(unique_key_name(body))
                            + "` with index expressions to a separate PostgreSQL CREATE UNIQUE INDEX statement"@,
                    ],
                },
            ),
        }
    } else {
        match table_constraint(t) {
            Err(e) => Err(e),
            Ok(sql) => Ok(
                Contribution {
                    items: seq![sql],
                    extras: Seq::empty(),
                    posts: Seq::empty(),
                    warnings: Seq::empty(),
                },
            ),
        }
    }
}

fn item_effect(sql: String) -> (r: Effect)
    ensures
        r@ == (Contribution {
            items: seq![sql@],
            extras: Seq::empty(),
            posts: Seq::empty(),
            warnings: Seq::empty(),
        }),
{
    let ghost text = sql@;
    let mut r = no_effect();
    push_text(&mut r.items, sql);
    assert(texts(r.items@) =~= seq![text]);
    r
}

fn post_effect(sql: String, warning: String) -> (r: Effect)
    ensures
        r@ == (Contribution {
            items: Seq::empty(),
            extras: Seq::empty(),
            posts: seq![sql@],
            warnings: seq![warning@],
        }),
{
    let ghost text = sql@;
    let ghost w = warning@;
    let mut r = no_effect();
    push_text(&mut r.posts, sql);
    push_text(&mut r.warnings, warning);
    assert(texts(r.posts@) =~= seq![text]);
    assert(texts(r.warnings@) =~= seq![w]);
    r
}

fn constraint_effect(t: &Node, table: &Node) -> (r: Result<Effect, MiddlewareError>)
    ensures
        effect_view(r) == constraint_contribution(t.tree(), table.tree()),
{
    let null = Node::Null;
    let body = t.inner(&null);
    let v = t.variant();
    if same(v.as_str(), "Index") {
        match translate_inline_index(body, table) {
            Err(e) => Err(e),
            Ok(sql) => Ok(
                post_effect(
                    sql,
                    cat3(
                        "rewrote MySQL inline KEY/INDEX `",
                        show_name(body.part("name", &null)).as_str(),
                        "` to a separate PostgreSQL CREATE INDEX statement",
                    ),
                ),
            ),
        }
    } else if same(v.as_str(), "Unique") && unique_constraint_requires_post_index(body) {
        match translate_unique_constraint_as_index(body, table) {
            Err(e) => Err(e),
            Ok(sql) => Ok(
                post_effect(
                    sql,
                    cat3(
                        "rewrote MySQL UNIQUE KEY `",
                        show_name(find_unique_key_name(body, &null)).as_str(),
                        "` with index expressions to a separate PostgreSQL CREATE UNIQUE INDEX statement",
                    ),
                ),
            ),
        }
    } else {
        match translate_table_constraint(t) {
            Err(e) => Err(e),
            Ok(sql) => Ok(item_effect(sql)),
        }
    }
}

pub open spec fn column_contributions(columns: Seq<Tree>) -> Seq<Result<Contribution, Failure>> {
    Seq::new(columns.len(), |i: int| Ok(column_definition(columns[i], false)))
}

pub open spec fn constraint_contributions(constraints: Seq<Tree>, table: Tree) -> Seq<
    Result<Contribution, Failure>,
> {
    Seq::new(constraints.len(), |i: int| constraint_contribution(constraints[i], table))
}

fn columns_effect(columns: &Node) -> (r: Result<Effect, MiddlewareError>)
    ensures
        effect_view(r) == combined(column_contributions(items(columns.tree()))),
{
    let mut acc = no_effect();
    let mut i: usize = 0;
    let count: usize = columns.count();
    let ghost parts = column_contributions(items(columns.tree()));
    assert(parts.take(0) =~= Seq::<Result<Contribution, Failure>>::empty());
    while i < count
        invariant
            count == items(columns.tree()).len(),
            parts == column_contributions(items(columns.tree())),
            i <= count,
            combined(parts.take(i as int)) == Ok::<Contribution, Failure>(acc@),
        decreases count - i,
    {
        let one = translate_column(columns.item(i), false);
        match combine(&mut acc, Ok(one), Ghost(parts), Ghost(i as int)) {
            Ok(_) => {},
            Err(e) => return Err(e),
        }
        i = i + 1;
    }
    assert(parts.take(i as int) =~= parts);
    Ok(acc)
}

fn constraints_effect(constraints: &Node, table: &Node) -> (r: Result<Effect, MiddlewareError>)
    ensures
        effect_view(r) == combined(constraint_contributions(items(constraints.tree()), table.tree())),
{
    let mut acc = no_effect();
    let mut i: usize = 0;
    let count: usize = constraints.count();
    let ghost parts = constraint_contributions(items(constraints.tree()), table.tree());
    assert(parts.take(0) =~= Seq::<Result<Contribution, Failure>>::empty());
    while i < count
        invariant
            count == items(constraints.tree()).len(),
            parts == constraint_contributions(items(constraints.tree()), table.tree()),
            i <= count,
            combined(parts.take(i as int)) == Ok::<Contribution, Failure>(acc@),
        decreases count - i,
    {
        let one = constraint_effect(constraints.item(i), table);
        match combine(&mut acc, one, Ghost(parts), Ghost(i as int)) {
            Ok(_) => {},
            Err(e) => return Err(e),
        }
        i = i + 1;
    }
    assert(parts.take(i as int) =~= parts);
    Ok(acc)
}

/// Whether CREATE TABLE uses a feature that is not translated.
pub open spec fn complex_create(t: Tree) -> bool {
    ||| is_true(part(t, "or_replace"@))
    ||| is_true(part(t, "external"@))
    ||| is_true(part(t, "dynamic"@))
    ||| present(part(t, "global"@))
    ||| is_true(part(t, "transient"@))
    ||| is_true(part(t, "volatile"@))
    ||| is_true(part(t, "iceberg"@))
    ||| present(part(t, "query"@))
    ||| is_true(part(t, "without_rowid"@))
    ||| present(part(t, "like"@))
    ||| present(part(t, "clone"@))
    ||| present(part(t, "version"@))
    ||| present(part(t, "comment"@))
    ||| present(part(t, "on_commit"@))
    ||| present(part(t, "on_cluster"@))
    ||| present(part(t, "primary_key"@))
    ||| present(part(t, "order_by"@))
    ||| present(part(t, "partition_by"@))
    ||| present(part(t, "cluster_by"@))
    ||| present(part(t, "clustered_by"@))
    ||| present(part(t, "inherits"@))
    ||| present(part(t, "partition_of"@))
    ||| present(part(t, "for_values"@))
    ||| is_true(part(t, "strict"@))
    ||| is_true(part(t, "copy_grants"@))
    ||| present(part(t, "enable_schema_evolution"@))
    ||| present(part(t, "change_tracking"@))
    ||| present(part(t, "data_retention_time_in_days"@))
    ||| present(part(t, "max_data_extension_time_in_days"@))
    ||| present(part(t, "default_ddl_collation"@))
    ||| present(part(t, "with_aggregation_policy"@))
    ||| present(part(t, "with_row_access_policy"@))
    ||| present(part(t, "with_tags"@))
    ||| present(part(t, "external_volume"@))
    ||| present(part(t, "base_location"@))
    ||| present(part(t, "catalog"@))
    ||| present(part(t, "catalog_sync"@))
    ||| present(part(t, "storage_serialization_policy"@))
    ||| present(part(t, "target_lag"@))
    ||| present(part(t, "warehouse"@))
    ||| present(part(t, "refresh_mode"@))
    ||| present(part(t, "initialize"@))
    ||| is_true(part(t, "require_user"@))
}

fn is_complex_create(t: &Node) -> (r: bool)
    ensures
        r == complex_create(t.tree()),
{
    t.flag("or_replace") || t.flag("external") || t.flag("dynamic") || t.has_part("global") || t.flag("transient")
        || t.flag("volatile") || t.flag("iceberg") || t.has_part("query") || t.flag("without_rowid")
        || t.has_part("like") || t.has_part("clone") || t.has_part("version") || t.has_part("comment")
        || t.has_part("on_commit") || t.has_part("on_cluster") || t.has_part("primary_key") || t.has_part(
        "order_by",
    ) || t.has_part("partition_by") || t.has_part("cluster_by") || t.has_part("clustered_by") || t.has_part(
        "inherits",
    ) || t.has_part("partition_of") || t.has_part("for_values") || t.flag("strict") || t.flag("copy_grants")
        || t.has_part("enable_schema_evolution") || t.has_part("change_tracking") || t.has_part(
        "data_retention_time_in_days",
    ) || t.has_part("max_data_extension_time_in_days") || t.has_part("default_ddl_collation") || t.has_part(
        "with_aggregation_policy",
    ) || t.has_part("with_row_access_policy") || t.has_part("with_tags") || t.has_part("external_volume")
        || t.has_part("base_location") || t.has_part("catalog") || t.has_part("catalog_sync") || t.has_part(
        "storage_serialization_policy",
    ) || t.has_part("target_lag") || t.has_part("warehouse") || t.has_part("refresh_mode") || t.has_part(
        "initialize",
    ) || t.flag("require_user")
}

/// A translated statement and its warnings.
pub struct Translated {
    pub sql: String,
    pub warnings: Vec<String>,
}

impl View for Translated {
    type V = (Seq<char>, Seq<Seq<char>>);

    open spec fn view(&self) -> (Seq<char>, Seq<Seq<char>>) {
        (self.sql@, texts(self.warnings@))
    }
}

pub open spec fn translated_view(r: Result<Translated, MiddlewareError>) -> Result<
    (Seq<char>, Seq<Seq<char>>),
    Failure,
> {
    match r {
        Ok(t) => Ok(t@),
        Err(e) => Err(e@),
    }
}

/// A statement and those that follow it.
pub open spec fn with_posts(sql: Seq<char>, posts: Seq<Seq<char>>) -> Seq<char> {
    if posts.len() == 0 {
        sql
    } else {
        joined(seq![sql] + posts, "; "@)
    }
}

/// CREATE TABLE without what PostgreSQL does not take.
pub open spec fn create_table_sql(t: Tree, items: Seq<Seq<char>>) -> Seq<char> {
    "CREATE "@ + (if is_true(part(t, "temporary"@)) {
        "TEMPORARY "@
    } else {
        ""@
    }) + "TABLE "@ + (if is_true(part(t, "if_not_exists"@)) {
        "IF NOT EXISTS "@
    } else {
        ""@
    }) + quoted_name(part(t, "name"@)) + " ("@ + joined(items, ", "@) + ")"@
}

/// The translation of CREATE TABLE.
pub open spec fn create_table_translation(t: Tree) -> Result<(Seq<char>, Seq<Seq<char>>), Failure> {
    if complex_create(t) {
        Err(
            Failure::Translation(
                "complex CREATE TABLE variants are not yet supported for PostgreSQL translation"@,
            ),
        )
    } else {
        match combined(column_contributions(items(part(t, "columns"@)))) {
            Err(e) => Err(e),
            Ok(columns) => match combined(
                constraint_contributions(items(part(t, "constraints"@)), part(t, "name"@)),
            ) {
                Err(e) => Err(e),
                Ok(constraints) => {
                    let warnings = columns.warnings + constraints.warnings;
                    Ok(
                        (
                            with_posts(
                                create_table_sql(t, columns.items + constraints.items + columns.extras),
                                constraints.posts,
                            ),
                            if is_unit(part(t, "table_options"@), "None"@) {
                                warnings
                            } else {
                                warnings.push("stripped MySQL-specific CREATE TABLE options"@)
                            },
                        ),
                    )
                },
            },
        }
    }
}

fn render_with_posts(sql: String, posts: &Vec<String>) -> (r: String)
    ensures
        r@ == with_posts(sql@, texts(posts@)),
{
    if posts.len() == 0 {
        return sql;
    }
    let ghost text = sql@;
    let mut statements: Vec<String> = Vec::new();
    push_text(&mut statements, sql);
    assert(texts(statements@) =~= seq![text]);
    push_texts(&mut statements, posts);
    join(&statements, "; ")
}

/// Translates CREATE TABLE: MySQL's inline indexes become statements of their own, its
/// table options go.
pub fn translate_create_table(create: &Node) -> (r: Result<Translated, MiddlewareError>)
    ensures
        translated_view(r) == create_table_translation(create.tree()),
{
    let null = Node::Null;
    if is_complex_create(create) {
        return Err(
            translation_error(
                "complex CREATE TABLE variants are not yet supported for PostgreSQL translation",
            ),
        );
    }
    let columns = match columns_effect(create.part("columns", &null)) {
        Ok(e) => e,
        Err(e) => return Err(e),
    };
    let name = create.part("name", &null);
    let constraints = match constraints_effect(create.part("constraints", &null), name) {
        Ok(e) => e,
        Err(e) => return Err(e),
    };
    let mut items = columns.items;
    push_texts(&mut items, &constraints.items);
    push_texts(&mut items, &columns.extras);
    let mut warnings = columns.warnings;
    push_texts(&mut warnings, &constraints.warnings);
    if !create.part("table_options", &null).is_unit("None") {
        push_text(&mut warnings, "stripped MySQL-specific CREATE TABLE options".to_string());
    }
    let temporary = if create.flag("temporary") {
        "TEMPORARY "
    } else {
        ""
    };
    let if_not_exists = if create.flag("if_not_exists") {
        "IF NOT EXISTS "
    } else {
        ""
    };
    let sql = cat8(
        "CREATE ",
        temporary,
        "TABLE ",
        if_not_exists,
        quote_object_name(name).as_str(),
        " (",
        join(&items, ", ").as_str(),
        ")",
    );
    Ok(Translated { sql: render_with_posts(sql, &constraints.posts), warnings })
}

/// What the first `n` options of MODIFY COLUMN say: whether the column may be null, its
/// default, and the warnings.
pub struct Modified {
    pub nullable: Option<bool>,
    pub default: Option<Seq<char>>,
    pub warnings: Seq<Seq<char>>,
}

pub open spec fn modify_options(options: Seq<Tree>, column: Seq<char>, n: int) -> Result<Modified, Failure>
    decreases n,
{
    if n <= 0 {
        Ok(Modified { nullable: None, default: None, warnings: Seq::empty() })
    } else {
        match modify_options(options, column, n - 1) {
            Err(e) => Err(e),
            Ok(m) => {
                let o = options[n - 1];
                match option_kind(o) {
                    OptionKind::Null => Ok(Modified { nullable: Some(true), ..m }),
                    OptionKind::NotNull => Ok(Modified { nullable: Some(false), ..m }),
                    OptionKind::Default => Ok(Modified { default: Some(shown(expr_sql(inner(o)))), ..m }),
                    OptionKind::Charset => Ok(
                        Modified {
                            warnings: m.warnings.push(
                                "dropped MySQL character set/collation option from ALTER TABLE MODIFY COLUMN `"@
                                    + column + "`"@,
                            ),
                            ..m
                        },
                    ),
                    OptionKind::Comment => Ok(
                        Modified {
                            warnings: m.warnings.push(
                                "dropped MySQL column comment from ALTER TABLE MODIFY COLUMN `"@ + column + "`"@,
                            ),
                            ..m
                        },
                    ),
                    OptionKind::OnUpdate => Ok(
                        Modified {
                            warnings: m.warnings.push(
                                "dropped MySQL ON UPDATE clause from ALTER TABLE MODIFY COLUMN `"@ + column
                                    + "`; PostgreSQL requires a trigger for equivalent behavior"@,
                            ),
                            ..m
                        },
                    ),
                    OptionKind::AutoIncrement => Err(
                        Failure::Translation(
                            "AUTO_INCREMENT cannot be applied by ALTER TABLE MODIFY COLUMN `"@ + column
                                + "` without recreating identity metadata"@,
                        ),
                    ),
                    _ => Err(
                        Failure::Translation(
                            "ALTER TABLE MODIFY COLUMN `"@ + column + "` option `"@ + shown(
                                column_option_sql(o),
                            ) + "` is not supported yet"@,
                        ),
                    ),
                }
            },
        }
    }
}

proof fn lemma_modify_prefix(options: Seq<Tree>, column: Seq<char>, n: int, m: int)
    requires
        n <= m,
        modify_options(options, column, n) is Err,
    ensures
        modify_options(options, column, m) == modify_options(options, column, n),
    decreases m - n,
{
    if n < m {
        lemma_modify_prefix(options, column, n, m - 1);
    }
}

/// The options of MODIFY COLUMN, read one by one.
struct ReadModify {
    nullable: Option<bool>,
    default: Option<String>,
    warnings: Vec<String>,
}

spec fn read_modify_view(r: Result<ReadModify, MiddlewareError>) -> Result<Modified, Failure> {
    match r {
        Ok(m) => Ok(
            Modified { nullable: m.nullable, default: opt_text(m.default), warnings: texts(m.warnings@) },
        ),
        Err(e) => Err(e@),
    }
}

fn read_modify_options(options: &Node, column: &str) -> (r: Result<ReadModify, MiddlewareError>)
    ensures
        read_modify_view(r) == modify_options(
            items(options.tree()),
            column@,
            items(options.tree()).len() as int,
        ),
{
    let null = Node::Null;
    let mut nullable: Option<bool> = None;
    let mut default: Option<String> = None;
    let mut warnings: Vec<String> = Vec::new();
    let mut i: usize = 0;
    let count: usize = options.count();
    let ghost all = items(options.tree());
    assert(texts(warnings@) =~= Seq::<Seq<char>>::empty());
    while i < count
        invariant
            null.tree() is Null,
            count == all.len(),
            all == items(options.tree()),
            i <= count,
            modify_options(all, column@, i as int) == Ok::<Modified, Failure>(
                Modified { nullable, default: opt_text(default), warnings: texts(warnings@) },
            ),
        decreases count - i,
    {
        let o = options.item(i);
        match kind_of_option(o) {
            OptionKind::Null => {
                nullable = Some(true);
            },
            OptionKind::NotNull => {
                nullable = Some(false);
            },
            OptionKind::Default => {
                default = Some(show(render_expr(o.inner(&null))));
            },
            OptionKind::Charset => {
                push_text(
                    &mut warnings,
                    cat3(
                        "dropped MySQL character set/collation option from ALTER TABLE MODIFY COLUMN `",
                        column,
                        "`",
                    ),
                );
            },
            OptionKind::Comment => {
                push_text(
                    &mut warnings,
                    cat3("dropped MySQL column comment from ALTER TABLE MODIFY COLUMN `", column, "`"),
                );
            },
            OptionKind::OnUpdate => {
                push_text(
                    &mut warnings,
                    cat3(
                        "dropped MySQL ON UPDATE clause from ALTER TABLE MODIFY COLUMN `",
                        column,
                        "`; PostgreSQL requires a trigger for equivalent behavior",
                    ),
                );
            },
            OptionKind::AutoIncrement => {
                proof {
                    lemma_modify_prefix(all, column@, i + 1, count as int);
                }
                return Err(
                    MiddlewareError::Translation(
                        cat3(
                            "AUTO_INCREMENT cannot be applied by ALTER TABLE MODIFY COLUMN `",
                            column,
                            "` without recreating identity metadata",
                        ),
                    ),
                );
            },
            _ => {
                proof {
                    lemma_modify_prefix(all, column@, i + 1, count as int);
                }
                return Err(
                    MiddlewareError::Translation(
                        cat5(
                            "ALTER TABLE MODIFY COLUMN `",
                            column,
                            "` option `",
                            show(render_column_option(o)).as_str(),
                            "` is not supported yet",
                        ),
                    ),
                );
            },
        }
        i = i + 1;
    }
    Ok(ReadModify { nullable, default, warnings })
}

/// Each text with another in front.
pub open spec fn prefixed(prefix: Seq<char>, list: Seq<Seq<char>>) -> Seq<Seq<char>> {
    Seq::new(list.len(), |i: int| prefix + list[i])
}

fn prefix_all(prefix: &str, list: &Vec<String>) -> (r: Vec<String>)
    ensures
        texts(r@) == prefixed(prefix@, texts(list@)),
{
    let mut out: Vec<String> = Vec::new();
    let mut i: usize = 0;
    while i < list.len()
        invariant
            i <= list@.len(),
            texts(out@) =~= prefixed(prefix@, texts(list@)).take(i as int),
        decreases list.len() - i,
    {
        push_text(&mut out, cat2(prefix, list[i].as_str()));
        i = i + 1;
        assert(texts(out@) =~= prefixed(prefix@, texts(list@)).take(i as int));
    }
    assert(texts(out@) =~= prefixed(prefix@, texts(list@)));
    out
}

/// The operation that sets whether a column may be null; without a word on it, it may.
pub open spec fn nullability_clause(quoted: Seq<char>, nullable: Option<bool>) -> Seq<char> {
    if nullable == Some(false) {
        "ALTER COLUMN "@ + quoted + " SET NOT NULL"@
    } else {
        "ALTER COLUMN "@ + quoted + " DROP NOT NULL"@
    }
}

/// The operation that sets the default of a column; without a word on it, it has none.
pub open spec fn default_clause(quoted: Seq<char>, default: Option<Seq<char>>) -> Seq<char> {
    match default {
        Some(d) => "ALTER COLUMN "@ + quoted + " SET DEFAULT "@ + d,
        None => "ALTER COLUMN "@ + quoted + " DROP DEFAULT"@,
    }
}

/// The contribution of MODIFY COLUMN: type, nullability and default are set anew.
pub open spec fn modify_column(op: Tree) -> Result<Contribution, Failure> {
    let ident = part(op, "col_name"@);
    let column = shown(ident_sql(ident));
    let quoted = quoted_ident(ident_value(ident));
    let mapping = type_mapping(ident_value(ident), part(op, "data_type"@));
    let options = items(part(op, "options"@));
    match modify_options(options, column, options.len() as int) {
        Err(e) => Err(e),
        Ok(m) => Ok(
            Contribution {
                items: seq![
                    "ALTER COLUMN "@ + quoted + " TYPE "@ + mapping.sql,
                    nullability_clause(quoted, m.nullable),
                    default_clause(quoted, m.default),
                ] + prefixed("ADD "@, mapping.checks),
                extras: Seq::empty(),
                posts: Seq::empty(),
                warnings: mapping.warnings + m.warnings + if present(part(op, "column_position"@)) {
                    seq![
                        "dropped MySQL column position clause from ALTER TABLE MODIFY COLUMN `"@ + column
                            + "`"@,
                    ]
                } else {
                    Seq::empty()
                },
            },
        ),
    }
}

/// Translates MODIFY COLUMN.
pub fn translate_modify_column(op: &Node) -> (r: Result<Effect, MiddlewareError>)
    ensures
        effect_view(r) == modify_column(op.tree()),
{
    let null = Node::Null;
    let ident = op.part("col_name", &null);
    let column = show(render_ident(ident));
    let value = value_of_ident(ident);
    let mapped = translate_data_type(value.as_str(), op.part("data_type", &null));
    let quoted = quote_ident(value.as_str());
    let read = match read_modify_options(op.part("options", &null), column.as_str()) {
        Ok(m) => m,
        Err(e) => return Err(e),
    };
    let mut items: Vec<String> = Vec::new();
    let a = cat4("ALTER COLUMN ", quoted.as_str(), " TYPE ", mapped.sql.as_str());
    let b = match read.nullable {
        Some(false) => cat3("ALTER COLUMN ", quoted.as_str(), " SET NOT NULL"),
        _ => cat3("ALTER COLUMN ", quoted.as_str(), " DROP NOT NULL"),
    };
    let c = match &read.default {
        Some(d) => cat4("ALTER COLUMN ", quoted.as_str(), " SET DEFAULT ", d.as_str()),
        None => cat3("ALTER COLUMN ", quoted.as_str(), " DROP DEFAULT"),
    };
    assert(b@ == nullability_clause(quoted@, read.nullable));
    assert(c@ == default_clause(quoted@, opt_text(read.default)));
    let ghost wanted = seq![a@, b@, c@];
    push_text(&mut items, a);
    push_text(&mut items, b);
    push_text(&mut items, c);
    assert(texts(items@) =~= wanted);
    push_texts(&mut items, &prefix_all("ADD ", &mapped.checks));
    let mut warnings = mapped.warnings;
    push_texts(&mut warnings, &read.warnings);
    let ghost before = texts(warnings@);
    if op.has_part("column_position") {
        push_text(
            &mut warnings,
            cat3(
                "dropped MySQL column position clause from ALTER TABLE MODIFY COLUMN `",
                column.as_str(),
                "`",
            ),
        );
        assert(texts(warnings@) =~= before + seq![
            "dropped MySQL column position clause from ALTER TABLE MODIFY COLUMN `"@ + column@ + "`"@,
        ]);
    } else {
        assert(texts(warnings@) =~= before + Seq::<Seq<char>>::empty());
    }
    let extras: Vec<String> = Vec::new();
    let posts: Vec<String> = Vec::new();
    assert(texts(posts@) =~= Seq::<Seq<char>>::empty());
    Ok(Effect { items, extras, posts, warnings })
}

/// The contribution of ADD COLUMN.
pub open spec fn add_column(op: Tree) -> Contribution {
    let column = part(op, "column_def"@);
    let definition = column_definition(column, true);
    Contribution {
        items: seq![
            "ADD COLUMN "@ + (if is_true(part(op, "if_not_exists"@)) {
                "IF NOT EXISTS "@
            } else {
                ""@
            }) + definition.items[0],
        ] + prefixed("ADD "@, definition.extras),
        extras: Seq::empty(),
        posts: Seq::empty(),
        warnings: definition.warnings + if present(part(op, "column_position"@)) {
            seq![
                "dropped MySQL column position clause from ALTER TABLE ADD COLUMN `"@ + shown(
                    ident_sql(part(column, "name"@)),
                ) + "`"@,
            ]
        } else {
            Seq::empty()
        },
    }
}

fn add_column_effect(op: &Node) -> (r: Effect)
    ensures
        r@ == add_column(op.tree()),
{
    let null = Node::Null;
    let column = op.part("column_def", &null);
    let definition = translate_column(column, true);
    assert(texts(definition.items@).len() == 1);
    let if_not_exists = if op.flag("if_not_exists") {
        "IF NOT EXISTS "
    } else {
        ""
    };
    let mut items: Vec<String> = Vec::new();
    let first = cat3("ADD COLUMN ", if_not_exists, definition.items[0].as_str());
    let ghost text = first@;
    push_text(&mut items, first);
    assert(texts(items@) =~= seq![text]);
    push_texts(&mut items, &prefix_all("ADD ", &definition.extras));
    let mut warnings = definition.warnings;
    let ghost before = texts(warnings@);
    if op.has_part("column_position") {
        let name = show(render_ident(column.part("name", &null)));
        push_text(
            &mut warnings,
            cat3("dropped MySQL column position clause from ALTER TABLE ADD COLUMN `", name.as_str(), "`"),
        );
        assert(texts(warnings@) =~= before + seq![
            "dropped MySQL column position clause from ALTER TABLE ADD COLUMN `"@ + name@ + "`"@,
        ]);
    } else {
        assert(texts(warnings@) =~= before + Seq::<Seq<char>>::empty());
    }
    let extras: Vec<String> = Vec::new();
    let posts: Vec<String> = Vec::new();
    assert(texts(posts@) =~= Seq::<Seq<char>>::empty());
    Effect { items, extras, posts, warnings }
}

/// The contribution of ADD INDEX.
pub open spec fn add_index(op: Tree, table: Tree) -> Result<Contribution, Failure> {
    let index = inner(part(op, "constraint"@));
    let name = shown_name(part(index, "name"@));
    if is_true(part(op, "not_valid"@)) {
        Err(
            Failure::Translation(
                "MySQL ADD INDEX `"@ + name + "` cannot be marked NOT VALID in PostgreSQL translation"@,
            ),
        )
    } else {
        match inline_index(index, table) {
            Err(e) => Err(e),
            Ok(sql) => Ok(
                Contribution {
                    items: Seq::empty(),
                    extras: Seq::empty(),
                    posts: seq![sql],
                    warnings: seq![
                        "rewrote MySQL ALTER TABLE ADD KEY/INDEX `"@ + name
                            + "` to a separate PostgreSQL CREATE INDEX statement"@,
                    ],
                },
            ),
        }
    }
}

pub open spec fn one_item(sql: Seq<char>) -> Contribution {
    Contribution { items: seq![sql], extras: Seq::empty(), posts: Seq::empty(), warnings: Seq::empty() }
}

/// The contribution of one operation of ALTER TABLE.
pub open spec fn operation_contribution(t: Tree, table: Tree) -> Result<Contribution, Failure> {
    let op = inner(t);
    if variant(t) == "AddConstraint"@ {
        if variant(part(op, "constraint"@)) == "Index"@ {
            add_index(op, table)
        } else {
            match table_constraint(part(op, "constraint"@)) {
                Err(e) => Err(e),
                Ok(sql) => Ok(
                    one_item(
                        "ADD "@ + sql + if is_true(part(op, "not_valid"@)) {
                            " NOT VALID"@
                        } else {
                            ""@
                        },
                    ),
                ),
            }
        }
    } else if variant(t) == "AddColumn"@ {
        Ok(add_column(op))
    } else if variant(t) == "ModifyColumn"@ {
        modify_column(op)
    } else if variant(t) == "DropIndex"@ {
        let name = shown(ident_sql(part(op, "name"@)));
        Ok(
            Contribution {
                items: Seq::empty(),
                extras: Seq::empty(),
                posts: seq!["DROP INDEX "@ + quoted_ident(index_name(table, Some(name), "idx"@))],
                warnings: seq![
                    "rewrote MySQL ALTER TABLE DROP INDEX `"@ + name
                        + "` to a separate PostgreSQL DROP INDEX statement"@,
                ],
            },
        )
    } else if variant(t) == "DropPrimaryKey"@ {
        Ok(one_item("DROP CONSTRAINT "@ + quoted_ident(bare_tail(table) + "_pkey"@)))
    } else if variant(t) == "DropForeignKey"@ {
        Ok(one_item("DROP CONSTRAINT "@ + quoted_ident(ident_value(part(op, "name"@)))))
    } else {
        Ok(one_item(shown(alter_operation_sql(t))))
    }
}

fn operation_effect(t: &Node, table: &Node) -> (r: Result<Effect, MiddlewareError>)
    ensures
        effect_view(r) == operation_contribution(t.tree(), table.tree()),
{
    let null = Node::Null;
    let op = t.inner(&null);
    let name = t.variant();
    let v = name.as_str();
    if same(v, "AddConstraint") {
        let constraint = op.part("constraint", &null);
        if same(constraint.variant().as_str(), "Index") {
            let index = constraint.inner(&null);
            let shown_as = show_name(index.part("name", &null));
            if op.flag("not_valid") {
                return Err(
                    MiddlewareError::Translation(
                        cat3(
                            "MySQL ADD INDEX `",
                            shown_as.as_str(),
                            "` cannot be marked NOT VALID in PostgreSQL translation",
                        ),
                    ),
                );
            }
            match translate_inline_index(index, table) {
                Err(e) => Err(e),
                Ok(sql) => Ok(
                    post_effect(
                        sql,
                        cat3(
                            "rewrote MySQL ALTER TABLE ADD KEY/INDEX `",
                            shown_as.as_str(),
                            "` to a separate PostgreSQL CREATE INDEX statement",
                        ),
                    ),
                ),
            }
        } else {
            let not_valid = if op.flag("not_valid") {
                " NOT VALID"
            } else {
                ""
            };
            match translate_table_constraint(constraint) {
                Err(e) => Err(e),
                Ok(sql) => Ok(item_effect(cat3("ADD ", sql.as_str(), not_valid))),
            }
        }
    } else if same(v, "AddColumn") {
        Ok(add_column_effect(op))
    } else if same(v, "ModifyColumn") {
        translate_modify_column(op)
    } else if same(v, "DropIndex") {
        let written = show(render_ident(op.part("name", &null)));
        let full_name = prefixed_index_name(table, &Some(written.clone()), "idx");
        Ok(
            post_effect(
                cat2("DROP INDEX ", quote_ident(full_name.as_str()).as_str()),
                cat3(
                    "rewrote MySQL ALTER TABLE DROP INDEX `",
                    written.as_str(),
                    "` to a separate PostgreSQL DROP INDEX statement",
                ),
            ),
        )
    } else if same(v, "DropPrimaryKey") {
        let key = cat2(bare_object_name_tail(table).as_str(), "_pkey");
        Ok(item_effect(cat2("DROP CONSTRAINT ", quote_ident(key.as_str()).as_str())))
    } else if same(v, "DropForeignKey") {
        let key = value_of_ident(op.part("name", &null));
        Ok(item_effect(cat2("DROP CONSTRAINT ", quote_ident(key.as_str()).as_str())))
    } else {
        Ok(item_effect(show(render_alter_operation(t))))
    }
}

pub open spec fn operation_contributions(operations: Seq<Tree>, table: Tree) -> Seq<
    Result<Contribution, Failure>,
> {
    Seq::new(operations.len(), |i: int| operation_contribution(operations[i], table))
}

fn operations_effect(operations: &Node, table: &Node) -> (r: Result<Effect, MiddlewareError>)
    ensures
        effect_view(r) == combined(operation_contributions(items(operations.tree()), table.tree())),
{
    let mut acc = no_effect();
    let mut i: usize = 0;
    let count: usize = operations.count();
    let ghost parts = operation_contributions(items(operations.tree()), table.tree());
    assert(parts.take(0) =~= Seq::<Result<Contribution, Failure>>::empty());
    while i < count
        invariant
            count == items(operations.tree()).len(),
            parts == operation_contributions(items(operations.tree()), table.tree()),
            i <= count,
            combined(parts.take(i as int)) == Ok::<Contribution, Failure>(acc@),
        decreases count - i,
    {
        let one = operation_effect(operations.item(i), table);
        match combine(&mut acc, one, Ghost(parts), Ghost(i as int)) {
            Ok(_) => {},
            Err(e) => return Err(e),
        }
        i = i + 1;
    }
    assert(parts.take(i as int) =~= parts);
    Ok(acc)
}

/// ALTER TABLE with its operations.
pub open spec fn alter_table_sql(t: Tree, operations: Seq<Seq<char>>) -> Seq<char> {
    "ALTER TABLE "@ + (if is_true(part(t, "if_exists"@)) {
        "IF EXISTS "@
    } else {
        ""@
    }) + (if is_true(part(t, "only"@)) {
        "ONLY "@
    } else {
        ""@
    }) + quoted_name(part(t, "name"@)) + " "@ + joined(operations, ", "@)
}

/// The translation of ALTER TABLE.
pub open spec fn alter_table_translation(t: Tree) -> Result<(Seq<char>, Seq<Seq<char>>), Failure> {
    if present(part(t, "table_type"@)) || present(part(t, "location"@)) || present(part(t, "on_cluster"@)) {
        Err(
            Failure::Translation(
                "complex ALTER TABLE variants are not yet supported for PostgreSQL translation"@,
            ),
        )
    } else {
        match combined(operation_contributions(items(part(t, "operations"@)), part(t, "name"@))) {
            Err(e) => Err(e),
            Ok(c) => if c.items.len() == 0 && c.posts.len() == 0 {
                Err(
                    Failure::Translation(
                        "ALTER TABLE statement did not contain translatable operations"@,
                    ),
                )
            } else {
                Ok(
                    (
                        joined(
                            (if c.items.len() == 0 {
                                Seq::empty()
                            } else {
                                seq![alter_table_sql(t, c.items)]
                            }) + c.posts,
                            "; "@,
                        ),
                        c.warnings,
                    ),
                )
            },
        }
    }
}

/// Translates ALTER TABLE: its index operations become statements of their own.
pub fn translate_alter_table(alter: &Node) -> (r: Result<Translated, MiddlewareError>)
    ensures
        translated_view(r) == alter_table_translation(alter.tree()),
{
    let null = Node::Null;
    if alter.has_part("table_type") || alter.has_part("location") || alter.has_part("on_cluster") {
        return Err(
            translation_error(
                "complex ALTER TABLE variants are not yet supported for PostgreSQL translation",
            ),
        );
    }
    let name = alter.part("name", &null);
    let effect = match operations_effect(alter.part("operations", &null), name) {
        Ok(e) => e,
        Err(e) => return Err(e),
    };
    let ghost c = effect@;
    if effect.items.len() == 0 && effect.posts.len() == 0 {
        return Err(translation_error("ALTER TABLE statement did not contain translatable operations"));
    }
    let mut statements: Vec<String> = Vec::new();
    assert(texts(statements@) =~= Seq::<Seq<char>>::empty());
    if effect.items.len() > 0 {
        let if_exists = if alter.flag("if_exists") {
            "IF EXISTS "
        } else {
            ""
        };
        let only = if alter.flag("only") {
            "ONLY "
        } else {
            ""
        };
        let sql = cat6(
            "ALTER TABLE ",
            if_exists,
            only,
            quote_object_name(name).as_str(),
            " ",
            join(&effect.items, ", ").as_str(),
        );
        let ghost text = sql@;
        push_text(&mut statements, sql);
        assert(texts(statements@) =~= seq![text]);
    }
    push_texts(&mut statements, &effect.posts);
    Ok(Translated { sql: join(&statements, "; "), warnings: effect.warnings })
}

/// One renaming of RENAME TABLE as a statement of its own.
pub open spec fn rename_statement(t: Tree) -> Seq<char> {
    "ALTER TABLE "@ + quoted_name(part(t, "old_name"@)) + " RENAME TO "@ + quoted_ident(
        bare_tail(part(t, "new_name"@)),
    )
}

pub open spec fn rename_statements(list: Seq<Tree>) -> Seq<Seq<char>> {
    Seq::new(list.len(), |i: int| rename_statement(list[i]))
}

/// The translation of RENAME TABLE.
pub open spec fn rename_translation(t: Tree) -> (Seq<char>, Seq<Seq<char>>) {
    (
        joined(rename_statements(items(t)), "; "@),
        seq!["rewrote MySQL RENAME TABLE to PostgreSQL ALTER TABLE ... RENAME TO"@],
    )
}

/// Translates RENAME TABLE: each pair becomes a statement of its own.
pub fn translate_rename_table(list: &Node) -> (r: Translated)
    ensures
        r@ == rename_translation(list.tree()),
{
    let null = Node::Null;
    let mut out: Vec<String> = Vec::new();
    let mut i: usize = 0;
    let count: usize = list.count();
    let ghost want = rename_statements(items(list.tree()));
    while i < count
        invariant
            null.tree() is Null,
            count == items(list.tree()).len(),
            i <= count,
            want == rename_statements(items(list.tree())),
            texts(out@) =~= want.take(i as int),
        decreases count - i,
    {
        let pair = list.item(i);
        let from = quote_object_name(pair.part("old_name", &null));
        let to = bare_object_name_tail(pair.part("new_name", &null));
        push_text(
            &mut out,
            cat4("ALTER TABLE ", from.as_str(), " RENAME TO ", quote_ident(to.as_str()).as_str()),
        );
        i = i + 1;
        assert(texts(out@) =~= want.take(i as int));
    }
    assert(texts(out@) =~= want);
    let mut warnings: Vec<String> = Vec::new();
    push_text(
        &mut warnings,
        "rewrote MySQL RENAME TABLE to PostgreSQL ALTER TABLE ... RENAME TO".to_string(),
    );
    assert(texts(warnings@) =~= seq!["rewrote MySQL RENAME TABLE to PostgreSQL ALTER TABLE ... RENAME TO"@]);
    Translated { sql: join(&out, "; "), warnings }
}

} // verus!
