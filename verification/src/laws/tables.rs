//! Tables, their columns, keys, constraints and indexes.
use vstd::prelude::*;

use crate::ddl::{
    add_column, alter_table_sql, column_contributions, column_definition, column_options, combined,
    constraint_contribution, create_table_sql, direction, index_column, index_columns, index_expr,
    inline_index, kept_options, key_columns, modify_column, modify_options, operation_contribution,
    prefix_index, prefix_length_expr, rename_statements, requires_post_index, table_constraint,
    unique_index, uses_expression, Contribution, OptionKind,
};
use crate::error::Failure;
use crate::laws::inserts::are_quoted;
use crate::names::{bare_tail, ident_value, ident_values, index_name, quoted_name, quoted_parts};
use crate::parser::{characteristics_sql, column_option_sql, expr_sql, ident_sql, shown, token_sql};
use crate::quoting::quoted_ident;
use crate::text::{begins, joined, same_ignoring_case, unpadded};
use crate::tree::{inner, item_at, items, part, payload, tagged, text_of, variant, Tree};
use crate::types::type_mapping;

verus! {

/// The text of a key's column, without the quotes around it.
pub open spec fn column_text(column: Tree) -> Seq<char> {
    unpadded(unpadded(shown(expr_sql(part(part(column, "column"@), "expr"@))), '`'), '"')
}

/// The order that a key's column is written with.
pub open spec fn order_text(column: Tree) -> Seq<char> {
    match part(part(part(column, "column"@), "options"@), "asc"@) {
        Tree::Bool(ascending) => if ascending {
            " ASC"@
        } else {
            " DESC"@
        },
        _ => ""@,
    }
}

/// Whether a list of texts has an entry for each column of a key, in order: its name, and then
/// its order.
pub open spec fn are_key_columns(entries: Seq<Seq<char>>, columns: Seq<Tree>) -> bool {
    entries.len() == columns.len() && forall|i: int|
        0 <= i < columns.len() ==> begins(#[trigger] entries[i], quoted_ident(column_text(columns[i])) + order_text(columns[i]))
}

/// What stands in front of a constraint: its name, where it has one.
pub open spec fn name_in_front(body: Tree) -> Seq<char> {
    if part(body, "name"@) is Null {
        ""@
    } else {
        "CONSTRAINT "@ + quoted_ident(text_of(part(part(body, "name"@), "value"@))) + " "@
    }
}

/// What stands behind a constraint.
pub open spec fn behind(body: Tree) -> Seq<char> {
    if part(body, "characteristics"@) is Null {
        ""@
    } else {
        " "@ + shown(characteristics_sql(part(body, "characteristics"@)))
    }
}

proof fn lemma_begins(a: Seq<char>, b: Seq<char>)
    ensures
        begins(a + b, a),
{
    assert((a + b).subrange(0, a.len() as int) =~= a);
}

proof fn lemma_key_columns(columns: Seq<Tree>)
    ensures
        are_key_columns(key_columns(columns), columns),
{
    let entries = key_columns(columns);
    assert forall|i: int| 0 <= i < columns.len() implies begins(
        #[trigger] entries[i],
        quoted_ident(column_text(columns[i])) + order_text(columns[i]),
    ) by {
        assert(direction(columns[i]) == order_text(columns[i]));
        lemma_begins(
            quoted_ident(column_text(columns[i])) + order_text(columns[i]),
            crate::ddl::operator_class(columns[i]),
        );
    }
}

proof fn lemma_constraint_kinds()
    ensures
        "Unique"@ != "PrimaryKey"@,
        "Unique"@ != "ForeignKey"@,
        "Unique"@ != "Check"@,
        "Unique"@ != "Index"@,
        "PrimaryKey"@ != "ForeignKey"@,
        "PrimaryKey"@ != "Check"@,
        "PrimaryKey"@ != "Index"@,
        "ForeignKey"@ != "Check"@,
        "ForeignKey"@ != "Index"@,
        "Check"@ != "Index"@,
{
    reveal_strlit("Unique");
    reveal_strlit("PrimaryKey");
    reveal_strlit("ForeignKey");
    reveal_strlit("Check");
    reveal_strlit("Index");
    assert("Unique"@.len() == 6);
    assert("PrimaryKey"@.len() == 10);
    assert("ForeignKey"@.len() == 10);
    assert("Check"@.len() == 5);
    assert("Index"@.len() == 5);
    assert("PrimaryKey"@[0] != "ForeignKey"@[0]);
    assert("Check"@[0] != "Index"@[0]);
}

/// A primary key and a unique key keep all their columns, in order, each under its own name, and
/// nothing else is added to them.
pub proof fn keys_keep_their_columns(body: Tree)
    ensures
        exists|entries: Seq<Seq<char>>| #[trigger] are_key_columns(entries, items(part(body, "columns"@))) && table_constraint(
            tagged("PrimaryKey"@, body),
        ) == Ok::<Seq<char>, Failure>(
            name_in_front(body) + "PRIMARY KEY ("@ + joined(entries, ", "@) + ")"@ + behind(body),
        ),
        part(body, "nulls_distinct"@) == Tree::Text("None"@) ==> exists|entries: Seq<Seq<char>>| #[trigger]
            are_key_columns(entries, items(part(body, "columns"@))) && table_constraint(tagged("Unique"@, body)) == Ok::<
                Seq<char>,
                Failure,
            >(name_in_front(body) + "UNIQUE ("@ + joined(entries, ", "@) + ")"@ + behind(body)),
{
    lemma_constraint_kinds();
    reveal_strlit("");
    reveal_strlit("UNIQUE");
    reveal_strlit("UNIQUE (");
    reveal_strlit(" (");
    let columns = items(part(body, "columns"@));
    let entries = key_columns(columns);
    lemma_key_columns(columns);
    assert(are_key_columns(entries, columns));
    assert(crate::ddl::constraint_name(body) == name_in_front(body));
    assert(crate::ddl::characteristics(body) == behind(body));
    let list = joined(entries, ", "@);
    assert(name_in_front(body) + "UNIQUE"@ + ""@ + " ("@ + list + ")"@ + behind(body) =~= name_in_front(body) + "UNIQUE ("@
        + list + ")"@ + behind(body));
}

/// What a foreign key does on a change: the words for its action.
pub open spec fn action_text(keyword: Seq<char>, action: Tree) -> Seq<char> {
    if action == Tree::Text("Cascade"@) {
        keyword + "CASCADE"@
    } else if action == Tree::Text("SetNull"@) {
        keyword + "SET NULL"@
    } else if action == Tree::Text("Restrict"@) {
        keyword + "RESTRICT"@
    } else if action == Tree::Text("NoAction"@) {
        keyword + "NO ACTION"@
    } else {
        keyword + "SET DEFAULT"@
    }
}

/// Whether a tree is one of the actions of a foreign key.
pub open spec fn is_action(action: Tree) -> bool {
    action == Tree::Text("Cascade"@) || action == Tree::Text("SetNull"@) || action == Tree::Text("Restrict"@) || action
        == Tree::Text("NoAction"@) || action == Tree::Text("SetDefault"@)
}

proof fn lemma_action(keyword: Seq<char>, action: Tree)
    ensures
        is_action(action) ==> crate::ddl::action_clause(keyword, action) == action_text(keyword, action),
        action is Null ==> crate::ddl::action_clause(keyword, action) == ""@,
{
    reveal_strlit("Cascade");
    reveal_strlit("SetNull");
    reveal_strlit("Restrict");
    reveal_strlit("NoAction");
    reveal_strlit("SetDefault");
    assert("Cascade"@[0] != "SetNull"@[0]);
    assert("Restrict"@[0] != "NoAction"@[0]);
}

/// A foreign key keeps its own columns and those it refers to, in order and on their own sides,
/// and what it does on a deletion and on a change.
pub proof fn foreign_keys_keep_both_sides(body: Tree)
    requires
        part(body, "match_kind"@) is Null,
        is_action(part(body, "on_delete"@)) || part(body, "on_delete"@) is Null,
        is_action(part(body, "on_update"@)) || part(body, "on_update"@) is Null,
    ensures
        exists|own: Seq<Seq<char>>, theirs: Seq<Seq<char>>|
            #![trigger are_quoted(own, ident_values(items(part(body, "columns"@)))), are_quoted(
                theirs,
                ident_values(items(part(body, "referred_columns"@))),
            )]
            {
                &&& are_quoted(own, ident_values(items(part(body, "columns"@))))
                &&& are_quoted(theirs, ident_values(items(part(body, "referred_columns"@))))
                &&& table_constraint(tagged("ForeignKey"@, body)) == Ok::<Seq<char>, Failure>(
                    name_in_front(body) + "FOREIGN KEY ("@ + joined(own, ", "@) + ") REFERENCES "@ + quoted_name(
                        part(body, "foreign_table"@),
                    ) + " ("@ + joined(theirs, ", "@) + ")"@ + (if part(body, "on_delete"@) is Null {
                        ""@
                    } else {
                        action_text(" ON DELETE "@, part(body, "on_delete"@))
                    }) + (if part(body, "on_update"@) is Null {
                        ""@
                    } else {
                        action_text(" ON UPDATE "@, part(body, "on_update"@))
                    }) + behind(body),
                )
            },
        forall|i: int|
            0 <= i < items(part(body, "columns"@)).len() ==> #[trigger] ident_values(items(part(body, "columns"@)))[i]
                == text_of(part(items(part(body, "columns"@))[i], "value"@)),
        ident_values(items(part(body, "columns"@))).len() == items(part(body, "columns"@)).len(),
        ident_values(items(part(body, "referred_columns"@))).len() == items(part(body, "referred_columns"@)).len(),
{
    lemma_constraint_kinds();
    reveal_strlit("");
    lemma_action(" ON DELETE "@, part(body, "on_delete"@));
    lemma_action(" ON UPDATE "@, part(body, "on_update"@));
    let own = crate::direct::all_quoted(ident_values(items(part(body, "columns"@))));
    let theirs = crate::direct::all_quoted(ident_values(items(part(body, "referred_columns"@))));
    assert(are_quoted(own, ident_values(items(part(body, "columns"@)))));
    assert(are_quoted(theirs, ident_values(items(part(body, "referred_columns"@)))));
    assert(crate::ddl::constraint_name(body) == name_in_front(body));
    assert(crate::ddl::characteristics(body) == behind(body));
    let head = name_in_front(body) + "FOREIGN KEY ("@ + joined(own, ", "@) + ") REFERENCES "@ + quoted_name(
        part(body, "foreign_table"@),
    ) + " ("@ + joined(theirs, ", "@) + ")"@;
    let deleted = if part(body, "on_delete"@) is Null {
        ""@
    } else {
        action_text(" ON DELETE "@, part(body, "on_delete"@))
    };
    let updated = if part(body, "on_update"@) is Null {
        ""@
    } else {
        action_text(" ON UPDATE "@, part(body, "on_update"@))
    };
    assert(head + (""@ + deleted + updated + behind(body)) =~= head + deleted + updated + behind(body));
}

/// A check keeps its condition.
pub proof fn checks_keep_their_condition(body: Tree)
    ensures
        table_constraint(tagged("Check"@, body)) == Ok::<Seq<char>, Failure>(
            name_in_front(body) + "CHECK ("@ + shown(expr_sql(part(body, "expr"@))) + ")"@,
        ),
{
    lemma_constraint_kinds();
    assert(crate::ddl::constraint_name(body) == name_in_front(body));
}

/// A name keeps all its parts, in order, each of them in double quotes.
pub proof fn names_keep_their_parts(name: Tree)
    requires
        forall|i: int| 0 <= i < items(name).len() ==> payload(#[trigger] items(name)[i], "Identifier"@) is Some,
    ensures
        exists|entries: Seq<Seq<char>>|
            entries.len() == items(name).len() && quoted_name(name) == #[trigger] joined(entries, "."@) && forall|i: int|
                0 <= i < items(name).len() ==> #[trigger] entries[i] == quoted_ident(
                    text_of(part(payload(items(name)[i], "Identifier"@)->Some_0, "value"@)),
                ),
        items(name).len() > 0 ==> bare_tail(name) == text_of(
            part(payload(items(name).last(), "Identifier"@)->Some_0, "value"@),
        ),
{
    let entries = quoted_parts(items(name));
    assert(quoted_name(name) == joined(entries, "."@));
    if items(name).len() > 0 {
        assert(payload(items(name)[items(name).len() - 1], "Identifier"@) is Some);
    }
}

proof fn lemma_index_columns(columns: Seq<Tree>)
    ensures
        index_columns(columns) matches Ok(v) ==> v.len() == columns.len() && forall|i: int|
            0 <= i < columns.len() ==> index_column(#[trigger] columns[i]) == Ok::<Seq<char>, Failure>(v[i]),
    decreases columns.len(),
{
    if columns.len() > 0 && index_columns(columns) is Ok {
        let n = columns.len() - 1;
        lemma_index_columns(columns.drop_last());
        let v = index_columns(columns)->Ok_0;
        let before = index_columns(columns.drop_last())->Ok_0;
        assert forall|i: int| 0 <= i < columns.len() implies index_column(#[trigger] columns[i]) == Ok::<
            Seq<char>,
            Failure,
        >(v[i]) by {
            if i < n {
                assert(columns.drop_last()[i] == columns[i]);
                assert(v[i] == before[i]);
            } else {
                assert(columns.last() == columns[n]);
            }
        }
    }
}

/// What an index has as its entry for a column: the column, or the first characters of it.
pub open spec fn indexes_column(entry: Seq<char>, column: Tree) -> bool {
    let expr = part(part(column, "column"@), "expr"@);
    &&& payload(expr, "Identifier"@) matches Some(ident) ==> begins(
        entry,
        quoted_ident(text_of(part(ident, "value"@))) + order_text(column),
    )
    &&& payload(expr, "Function"@) matches Some(f) ==> (items(part(f, "name"@)).len() == 1 && payload(
        items(part(f, "name"@))[0],
        "Identifier"@,
    ) is Some && exists|length: Seq<char>|
        begins(
            entry,
            "(left("@ + quoted_ident(
                text_of(part(payload(items(part(f, "name"@))[0], "Identifier"@)->Some_0, "value"@)),
            ) + ", "@ + #[trigger] (length + "))"@) + order_text(column),
        ))
}

proof fn lemma_index_column(column: Tree)
    requires
        index_column(column) is Ok,
    ensures
        indexes_column(index_column(column)->Ok_0, column),
{
    reveal_strlit("Identifier");
    reveal_strlit("CompoundIdentifier");
    reveal_strlit("Function");
    assert("Identifier"@.len() == 10);
    assert("CompoundIdentifier"@.len() == 18);
    assert("Function"@.len() == 8);
    reveal_strlit("(");
    reveal_strlit("left(");
    reveal_strlit("(left(");
    reveal_strlit(")");
    reveal_strlit("))");
    let expr = index_expr(column);
    let entry = index_column(column)->Ok_0;
    let class = crate::ddl::operator_class(column);
    assert(direction(column) == order_text(column));
    match payload(expr, "Identifier"@) {
        Some(ident) => {
            lemma_begins(quoted_ident(ident_value(ident)) + order_text(column), class);
        },
        None => match payload(expr, "Function"@) {
            Some(f) => {
                let length = shown(expr_sql(prefix_length_expr(f)->Some_0));
                let name = quoted_ident(crate::names::part_ident(item_at(part(f, "name"@), 0))->Some_0);
                let text = "(left("@ + name + ", "@ + (length + "))"@) + order_text(column);
                assert("("@ + "left("@ =~= "(left("@);
                assert(")"@ + ")"@ =~= "))"@);
                assert(prefix_index(f) == Ok::<Seq<char>, Failure>("left("@ + name + ", "@ + length + ")"@));
                assert(entry == "("@ + ("left("@ + name + ", "@ + length + ")"@) + ")"@ + order_text(column) + class);
                assert(entry =~= text + class);
                lemma_begins(text, class);
            },
            None => {},
        },
    }
}

/// Whether a list of texts has an entry for each column of an index, in order.
pub open spec fn are_index_columns(entries: Seq<Seq<char>>, columns: Seq<Tree>) -> bool {
    entries.len() == columns.len() && forall|i: int|
        0 <= i < columns.len() ==> indexes_column(#[trigger] entries[i], columns[i])
}

/// An index, unique or not, is created under its name on its own table, over all its columns in
/// order.
pub proof fn indexes_keep_their_columns(index: Tree, table: Tree)
    ensures
        inline_index(index, table) is Ok ==> exists|name: Seq<char>, entries: Seq<Seq<char>>|
            #![trigger quoted_ident(name), are_index_columns(entries, items(part(index, "columns"@)))]
            are_index_columns(entries, items(part(index, "columns"@))) && inline_index(index, table)->Ok_0
                == "CREATE INDEX "@ + quoted_ident(name) + " ON "@ + quoted_name(table) + " ("@ + joined(entries, ", "@)
                + ")"@,
        unique_index(index, table) is Ok ==> exists|name: Seq<char>, entries: Seq<Seq<char>>|
            #![trigger quoted_ident(name), are_index_columns(entries, items(part(index, "columns"@)))]
            are_index_columns(entries, items(part(index, "columns"@))) && unique_index(index, table)->Ok_0
                == "CREATE UNIQUE INDEX "@ + quoted_ident(name) + " ON "@ + quoted_name(table) + " ("@ + joined(
                entries,
                ", "@,
            ) + ")"@,
{
    let columns = items(part(index, "columns"@));
    lemma_index_columns(columns);
    if index_columns(columns) is Ok {
        let entries = index_columns(columns)->Ok_0;
        assert forall|i: int| 0 <= i < columns.len() implies indexes_column(#[trigger] entries[i], columns[i]) by {
            assert(index_column(columns[i]) == Ok::<Seq<char>, Failure>(entries[i]));
            lemma_index_column(columns[i]);
        }
        assert(are_index_columns(entries, columns));
        let plain = index_name(table, crate::ddl::written_name(part(index, "name"@)), "idx"@);
        let unique = index_name(table, crate::ddl::written_name(crate::ddl::unique_key_name(index)), "uniq_idx"@);
        assert(quoted_ident(plain) == quoted_ident(plain));
        assert(quoted_ident(unique) == quoted_ident(unique));
    }
}

proof fn lemma_columns_combined(columns: Seq<Tree>, n: nat)
    requires
        n <= columns.len(),
    ensures
        combined(column_contributions(columns).take(n as int)) is Ok,
        combined(column_contributions(columns).take(n as int))->Ok_0.items.len() == n,
        combined(column_contributions(columns).take(n as int))->Ok_0.posts.len() == 0,
        forall|i: int|
            0 <= i < n ==> (#[trigger] combined(column_contributions(columns).take(n as int))->Ok_0.items[i])
                == column_definition(columns[i], false).items[0],
    decreases n,
{
    let parts = column_contributions(columns).take(n as int);
    if n > 0 {
        let m = (n - 1) as nat;
        lemma_columns_combined(columns, m);
        assert(parts.drop_last() =~= column_contributions(columns).take(m as int));
        assert(parts.last() == Ok::<Contribution, Failure>(column_definition(columns[n - 1], false)));
        let before = combined(parts.drop_last())->Ok_0;
        let after = combined(parts)->Ok_0;
        assert(after.items == before.items + column_definition(columns[n - 1], false).items);
        assert forall|i: int| 0 <= i < n implies (#[trigger] after.items[i]) == column_definition(columns[i], false).items[0] by {
            if i < n - 1 {
                assert(after.items[i] == before.items[i]);
            }
        }
    }
}

/// A table is created with all its columns, in order, each under its own name and with the type
/// that its MySQL type is mapped to.
pub proof fn tables_keep_their_columns(columns: Seq<Tree>)
    ensures
        combined(column_contributions(columns)) is Ok,
        combined(column_contributions(columns))->Ok_0.items.len() == columns.len(),
        forall|i: int|
            0 <= i < columns.len() ==> begins(
                #[trigger] combined(column_contributions(columns))->Ok_0.items[i],
                quoted_ident(text_of(part(part(columns[i], "name"@), "value"@))) + " "@ + type_mapping(
                    shown(ident_sql(part(columns[i], "name"@))),
                    part(columns[i], "data_type"@),
                ).sql,
            ),
{
    lemma_columns_combined(columns, columns.len());
    assert(column_contributions(columns).take(columns.len() as int) =~= column_contributions(columns));
    assert forall|i: int| 0 <= i < columns.len() implies begins(
        #[trigger] combined(column_contributions(columns))->Ok_0.items[i],
        quoted_ident(text_of(part(part(columns[i], "name"@), "value"@))) + " "@ + type_mapping(
            shown(ident_sql(part(columns[i], "name"@))),
            part(columns[i], "data_type"@),
        ).sql,
    ) by {
        let mapping = type_mapping(shown(ident_sql(part(columns[i], "name"@))), part(columns[i], "data_type"@));
        let head = quoted_ident(ident_value(part(columns[i], "name"@))) + " "@ + mapping.sql;
        let options = crate::ddl::bare_options(items(part(columns[i], "options"@)));
        let rendered = column_options(options, mapping.sql, false);
        if rendered.len() == 0 {
            assert(head + Seq::<char>::empty() =~= head);
            lemma_begins(head, Seq::empty());
        } else {
            assert(head + " "@ + joined(rendered, " "@) =~= head + (" "@ + joined(rendered, " "@)));
            lemma_begins(head, " "@ + joined(rendered, " "@));
        }
    }
}

/// Of the parts of a statement nothing is lost: what a further part adds stands behind what was
/// there, among the items, the checks and the statements that follow.
pub proof fn parts_are_added_up(parts: Seq<Result<Contribution, Failure>>, more: Contribution)
    requires
        combined(parts) is Ok,
    ensures
        combined(parts.push(Ok(more))) is Ok,
        combined(parts.push(Ok(more)))->Ok_0.items == combined(parts)->Ok_0.items + more.items,
        combined(parts.push(Ok(more)))->Ok_0.extras == combined(parts)->Ok_0.extras + more.extras,
        combined(parts.push(Ok(more)))->Ok_0.posts == combined(parts)->Ok_0.posts + more.posts,
        combined(parts.push(Ok(more)))->Ok_0.warnings == combined(parts)->Ok_0.warnings + more.warnings,
        combined(Seq::<Result<Contribution, Failure>>::empty()) is Ok,
        combined(Seq::<Result<Contribution, Failure>>::empty())->Ok_0.items.len() == 0,
{
    assert(parts.push(Ok::<Contribution, Failure>(more)).drop_last() =~= parts);
}

/// A table is created under its own name, for the session alone where it is temporary, and left
/// as it is where that is asked for. Its checks stand behind its columns and constraints, and the
/// indexes follow as statements of their own.
pub proof fn tables_are_created_as_asked(t: Tree)
    requires
        !crate::ddl::complex_create(t),
        combined(
            crate::ddl::constraint_contributions(items(part(t, "constraints"@)), part(t, "name"@)),
        ) is Ok,
    ensures
        ({
            let columns = combined(column_contributions(items(part(t, "columns"@))))->Ok_0;
            let constraints = combined(
                crate::ddl::constraint_contributions(items(part(t, "constraints"@)), part(t, "name"@)),
            )->Ok_0;
            let head = "CREATE "@ + (if part(t, "temporary"@) == Tree::Bool(true) {
                "TEMPORARY "@
            } else {
                ""@
            }) + "TABLE "@ + (if part(t, "if_not_exists"@) == Tree::Bool(true) {
                "IF NOT EXISTS "@
            } else {
                ""@
            }) + quoted_name(part(t, "name"@));
            let body = " ("@ + joined(columns.items + constraints.items + columns.extras, ", "@) + ")"@;
            &&& crate::ddl::create_table_translation(t) is Ok
            &&& constraints.posts.len() == 0 ==> crate::ddl::create_table_translation(t)->Ok_0.0 == head + body
            &&& constraints.posts.len() == 1 ==> crate::ddl::create_table_translation(t)->Ok_0.0 == head + body + "; "@
                + constraints.posts[0]
        }),
{
    tables_keep_their_columns(items(part(t, "columns"@)));
    let columns = combined(column_contributions(items(part(t, "columns"@))))->Ok_0;
    let constraints = combined(
        crate::ddl::constraint_contributions(items(part(t, "constraints"@)), part(t, "name"@)),
    )->Ok_0;
    let head = "CREATE "@ + (if part(t, "temporary"@) == Tree::Bool(true) {
        "TEMPORARY "@
    } else {
        ""@
    }) + "TABLE "@ + (if part(t, "if_not_exists"@) == Tree::Bool(true) {
        "IF NOT EXISTS "@
    } else {
        ""@
    }) + quoted_name(part(t, "name"@));
    let list = joined(columns.items + constraints.items + columns.extras, ", "@);
    let sql = create_table_sql(t, columns.items + constraints.items + columns.extras);
    assert(sql =~= head + (" ("@ + list + ")"@));
    if constraints.posts.len() == 1 {
        let all = seq![sql] + constraints.posts;
        assert(all.drop_last() =~= seq![sql]);
        assert(all.last() == constraints.posts[0]);
        assert(joined(seq![sql], "; "@) == sql);
        assert(joined(all, "; "@) == sql + "; "@ + constraints.posts[0]);
    }
}

/// The options of a column that mean something to PostgreSQL are kept, in order, and those that
/// do not are left out.
pub proof fn column_options_are_kept(options: Seq<Tree>, n: int)
    requires
        0 < n <= options.len(),
    ensures
        ({
            let v = variant(options[n - 1]);
            let kept = kept_options(options, n - 1).push(shown(column_option_sql(options[n - 1])));
            &&& v == "NotNull"@ || v == "Null"@ || v == "Default"@ || v == "PrimaryKey"@ || v == "Unique"@ || v
                == "Check"@ || v == "ForeignKey"@ || v == "Generated"@ ==> kept_options(options, n) == kept
            &&& v == "Comment"@ || v == "OnUpdate"@ || v == "CharacterSet"@ || v == "Collation"@ || v == "Invisible"@
                ==> kept_options(options, n) == kept_options(options, n - 1)
        }),
        kept_options(options, 0).len() == 0,
{
    lemma_option_names();
}

proof fn lemma_option_names()
    ensures
        crate::ddl::option_kind(Tree::Null) == OptionKind::Other,
        forall|o: Tree| variant(o) == "NotNull"@ ==> #[trigger] crate::ddl::option_kind(o) == OptionKind::NotNull,
        forall|o: Tree| variant(o) == "Null"@ ==> #[trigger] crate::ddl::option_kind(o) == OptionKind::Null,
        forall|o: Tree| variant(o) == "Default"@ ==> #[trigger] crate::ddl::option_kind(o) == OptionKind::Default,
        forall|o: Tree|
            variant(o) == "PrimaryKey"@ || variant(o) == "Unique"@ || variant(o) == "Check"@ || variant(o) == "ForeignKey"@
                || variant(o) == "Generated"@ ==> #[trigger] crate::ddl::option_kind(o) == OptionKind::Other,
        forall|o: Tree| variant(o) == "Comment"@ ==> #[trigger] crate::ddl::option_kind(o) == OptionKind::Comment,
        forall|o: Tree| variant(o) == "OnUpdate"@ ==> #[trigger] crate::ddl::option_kind(o) == OptionKind::OnUpdate,
        forall|o: Tree|
            variant(o) == "CharacterSet"@ || variant(o) == "Collation"@ ==> #[trigger] crate::ddl::option_kind(o)
                == OptionKind::Charset,
        forall|o: Tree| variant(o) == "Invisible"@ ==> #[trigger] crate::ddl::option_kind(o) == OptionKind::Invisible,
{
    reveal_strlit("DialectSpecific");
    reveal_strlit("OnUpdate");
    reveal_strlit("CharacterSet");
    reveal_strlit("Collation");
    reveal_strlit("Comment");
    reveal_strlit("Invisible");
    reveal_strlit("NotNull");
    reveal_strlit("Null");
    reveal_strlit("Default");
    reveal_strlit("PrimaryKey");
    reveal_strlit("Unique");
    reveal_strlit("Check");
    reveal_strlit("ForeignKey");
    reveal_strlit("Generated");
    assert("DialectSpecific"@.len() == 15);
    assert("OnUpdate"@.len() == 8);
    assert("CharacterSet"@.len() == 12);
    assert("Collation"@.len() == 9);
    assert("Comment"@.len() == 7);
    assert("Invisible"@.len() == 9);
    assert("NotNull"@.len() == 7);
    assert("Null"@.len() == 4);
    assert("Default"@.len() == 7);
    assert("PrimaryKey"@.len() == 10);
    assert("Unique"@.len() == 6);
    assert("Check"@.len() == 5);
    assert("ForeignKey"@.len() == 10);
    assert("Generated"@.len() == 9);
    assert("Collation"@[0] != "Invisible"@[0]);
    assert("Collation"@[0] != "Generated"@[0]);
    assert("Comment"@[0] != "NotNull"@[0]);
    assert("Comment"@[0] != "Default"@[0]);
    assert("Invisible"@[0] != "Generated"@[0]);
    assert("NotNull"@[0] != "Default"@[0]);
    assert("PrimaryKey"@[0] != "ForeignKey"@[0]);
}

proof fn lemma_any_option(options: Seq<Tree>, kind: OptionKind, i: int, n: int)
    requires
        0 <= i < n <= options.len(),
        crate::ddl::option_kind(options[i]) == kind,
    ensures
        crate::ddl::any_option(options, kind, n),
    decreases n,
{
    if i < n - 1 {
        lemma_any_option(options, kind, i, n - 1);
    }
}

/// A column that counts up by itself becomes an identity column.
pub proof fn counting_columns_become_identities(options: Seq<Tree>, i: int, pg_type: Seq<char>, backfill: bool)
    requires
        0 <= i < options.len(),
        payload(options[i], "DialectSpecific"@) is Some,
        items(payload(options[i], "DialectSpecific"@)->Some_0).len() == 1,
        same_ignoring_case(shown(token_sql(items(payload(options[i], "DialectSpecific"@)->Some_0)[0])), "AUTO_INCREMENT"@),
    ensures
        column_options(options, pg_type, backfill).len() > 0,
        column_options(options, pg_type, backfill).last() == "GENERATED BY DEFAULT AS IDENTITY"@,
{
    lemma_any_option(options, OptionKind::AutoIncrement, i, options.len() as int);
}

proof fn lemma_no_option(options: Seq<Tree>, kind: OptionKind, n: int)
    requires
        0 <= n <= options.len(),
        forall|i: int| 0 <= i < n ==> crate::ddl::option_kind(#[trigger] options[i]) != kind,
    ensures
        !crate::ddl::any_option(options, kind, n),
    decreases n,
{
    if n > 0 {
        lemma_no_option(options, kind, n - 1);
    }
}

/// A column that is added to a table, may not be null and has no default is filled with zeros,
/// empty texts or FALSE, as MySQL would fill it.
pub proof fn added_columns_are_filled(options: Seq<Tree>, pg_type: Seq<char>, i: int)
    requires
        0 <= i < options.len(),
        variant(options[i]) == "NotNull"@,
        forall|j: int| 0 <= j < options.len() ==> variant(#[trigger] options[j]) == "NotNull"@ || variant(options[j]) == "Comment"@,
    ensures
        pg_type == "SMALLINT"@ || pg_type == "INTEGER"@ || pg_type == "BIGINT"@ || pg_type == "REAL"@ || pg_type
            == "DOUBLE PRECISION"@ ==> column_options(options, pg_type, true).last() == "DEFAULT 0"@,
        pg_type == "TEXT"@ || pg_type == "BYTEA"@ ==> column_options(options, pg_type, true).last() == "DEFAULT ''"@,
        pg_type == "BOOLEAN"@ ==> column_options(options, pg_type, true).last() == "DEFAULT FALSE"@,
        pg_type == "JSONB"@ || pg_type == "TIMESTAMP"@ ==> column_options(options, pg_type, true) == kept_options(
            options,
            options.len() as int,
        ),
        column_options(options, pg_type, false) == kept_options(options, options.len() as int),
{
    lemma_option_names();
    let n = options.len() as int;
    lemma_any_option(options, OptionKind::NotNull, i, n);
    lemma_no_option(options, OptionKind::AutoIncrement, n);
    lemma_no_option(options, OptionKind::Default, n);
    reveal_strlit("SMALLINT");
    reveal_strlit("INTEGER");
    reveal_strlit("BIGINT");
    reveal_strlit("REAL");
    reveal_strlit("DOUBLE PRECISION");
    reveal_strlit("NUMERIC");
    reveal_strlit("BOOLEAN");
    reveal_strlit("TEXT");
    reveal_strlit("BYTEA");
    reveal_strlit("VARCHAR");
    reveal_strlit("CHAR");
    reveal_strlit("JSONB");
    reveal_strlit("TIMESTAMP");
    assert("SMALLINT"@.len() == 8);
    assert("INTEGER"@.len() == 7);
    assert("BIGINT"@.len() == 6);
    assert("REAL"@.len() == 4);
    assert("DOUBLE PRECISION"@.len() == 16);
    assert("NUMERIC"@.len() == 7);
    assert("BOOLEAN"@.len() == 7);
    assert("TEXT"@.len() == 4);
    assert("BYTEA"@.len() == 5);
    assert("VARCHAR"@.len() == 7);
    assert("CHAR"@.len() == 4);
    assert("JSONB"@.len() == 5);
    assert("TIMESTAMP"@.len() == 9);
    assert("INTEGER"@[0] != "NUMERIC"@[0]);
    assert("INTEGER"@[0] != "BOOLEAN"@[0]);
    assert("INTEGER"@[0] != "VARCHAR"@[0]);
    assert("REAL"@[0] != "TEXT"@[0]);
    assert("REAL"@[0] != "CHAR"@[0]);
    assert("NUMERIC"@[0] != "BOOLEAN"@[0]);
    assert("NUMERIC"@[0] != "VARCHAR"@[0]);
    assert("BOOLEAN"@[0] != "VARCHAR"@[0]);
    assert("TEXT"@[0] != "CHAR"@[0]);
    assert("BYTEA"@[0] != "JSONB"@[0]);
    reveal_strlit("DEFAULT ");
    reveal_strlit("DEFAULT 0");
    reveal_strlit("DEFAULT ''");
    reveal_strlit("DEFAULT FALSE");
    reveal_strlit("0");
    reveal_strlit("''");
    reveal_strlit("FALSE");
    assert("DEFAULT "@ + "0"@ =~= "DEFAULT 0"@);
    assert("DEFAULT "@ + "''"@ =~= "DEFAULT ''"@);
    assert("DEFAULT "@ + "FALSE"@ =~= "DEFAULT FALSE"@);
    assert("TEXT"@[0] == 'T' && "BYTEA"@[0] == 'B' && "JSONB"@[0] == 'J' && "TIMESTAMP"@[0] == 'T');
    assert("NUMERIC"@[0] == 'N' && "VARCHAR"@[0] == 'V' && "CHAR"@[0] == 'C');
    assert forall|p: Seq<char>| #[trigger] begins(pg_type, p) && p.len() > 0 implies pg_type.len() > 0 && pg_type[0] == p[0] by {
        assert(pg_type.subrange(0, p.len() as int)[0] == pg_type[0]);
    }
}

/// A column that is redefined is given its type, then may or may not be null as the last word on
/// it says, and takes the default that is given, or none.
pub proof fn redefined_columns_say_everything(op: Tree)
    requires
        items(part(op, "options"@)).len() <= 1,
        modify_column(op) is Ok,
    ensures
        ({
            let c = modify_column(op)->Ok_0;
            let name = quoted_ident(text_of(part(part(op, "col_name"@), "value"@)));
            let options = items(part(op, "options"@));
            &&& c.items.len() >= 3
            &&& c.items[0] == "ALTER COLUMN "@ + name + " TYPE "@ + type_mapping(
                text_of(part(part(op, "col_name"@), "value"@)),
                part(op, "data_type"@),
            ).sql
            &&& options.len() == 1 && variant(options[0]) == "NotNull"@ ==> c.items[1] == "ALTER COLUMN "@ + name
                + " SET NOT NULL"@ && c.items[2] == "ALTER COLUMN "@ + name + " DROP DEFAULT"@
            &&& options.len() == 0 || variant(options[0]) == "Null"@ ==> c.items[1] == "ALTER COLUMN "@ + name
                + " DROP NOT NULL"@ && c.items[2] == "ALTER COLUMN "@ + name + " DROP DEFAULT"@
            &&& options.len() == 1 && variant(options[0]) == "Default"@ ==> c.items[1] == "ALTER COLUMN "@ + name
                + " DROP NOT NULL"@ && c.items[2] == "ALTER COLUMN "@ + name + " SET DEFAULT "@ + shown(
                expr_sql(inner(options[0])),
            )
        }),
{
    lemma_option_names();
    let options = items(part(op, "options"@));
    let column = shown(ident_sql(part(op, "col_name"@)));
    reveal_with_fuel(modify_options, 3);
    if options.len() == 1 {
        assert(modify_options(options, column, 0) is Ok);
    }
}

/// What is said of a column last counts: whether it may be null, and its default.
pub proof fn last_words_count(options: Seq<Tree>, column: Seq<char>, n: int)
    requires
        0 < n <= options.len(),
        modify_options(options, column, n - 1) is Ok,
    ensures
        ({
            let before = modify_options(options, column, n - 1)->Ok_0;
            let after = modify_options(options, column, n);
            let v = variant(options[n - 1]);
            &&& v == "Null"@ ==> after is Ok && after->Ok_0.nullable == Some(true) && after->Ok_0.default == before.default
            &&& v == "NotNull"@ ==> after is Ok && after->Ok_0.nullable == Some(false) && after->Ok_0.default
                == before.default
            &&& v == "Default"@ ==> after is Ok && after->Ok_0.default == Some(shown(expr_sql(inner(options[n - 1]))))
                && after->Ok_0.nullable == before.nullable
            &&& v == "Comment"@ || v == "CharacterSet"@ || v == "Collation"@ || v == "OnUpdate"@ ==> after is Ok
                && after->Ok_0.nullable == before.nullable && after->Ok_0.default == before.default
            &&& v == "PrimaryKey"@ || v == "Unique"@ || v == "Check"@ ==> after is Err
        }),
{
    lemma_option_names();
}

/// The operations of ALTER TABLE that drop something drop it under its own name, and a constraint
/// or a column that is added is the one that was asked for.
pub proof fn alterations_name_what_they_change(op: Tree, table: Tree)
    ensures
        operation_contribution(tagged("DropForeignKey"@, op), table) is Ok,
        operation_contribution(tagged("DropForeignKey"@, op), table)->Ok_0.items == seq![
            "DROP CONSTRAINT "@ + quoted_ident(text_of(part(part(op, "name"@), "value"@))),
        ],
        operation_contribution(tagged("DropPrimaryKey"@, op), table) is Ok,
        operation_contribution(tagged("DropPrimaryKey"@, op), table)->Ok_0.items == seq![
            "DROP CONSTRAINT "@ + quoted_ident(bare_tail(table) + "_pkey"@),
        ],
        operation_contribution(tagged("DropIndex"@, op), table) is Ok,
        operation_contribution(tagged("DropIndex"@, op), table)->Ok_0.items.len() == 0,
        operation_contribution(tagged("DropIndex"@, op), table)->Ok_0.posts == seq![
            "DROP INDEX "@ + quoted_ident(index_name(table, Some(shown(ident_sql(part(op, "name"@)))), "idx"@)),
        ],
        payload(part(op, "constraint"@), "Index"@) is Some && part(op, "not_valid"@) != Tree::Bool(true) && inline_index(
            payload(part(op, "constraint"@), "Index"@)->Some_0,
            table,
        ) is Ok ==> operation_contribution(tagged("AddConstraint"@, op), table) is Ok && operation_contribution(
            tagged("AddConstraint"@, op),
            table,
        )->Ok_0.posts == seq![inline_index(payload(part(op, "constraint"@), "Index"@)->Some_0, table)->Ok_0],
        variant(part(op, "constraint"@)) != "Index"@ && table_constraint(part(op, "constraint"@)) is Ok && part(
            op,
            "not_valid"@,
        ) != Tree::Bool(true) ==> operation_contribution(tagged("AddConstraint"@, op), table) is Ok
            && operation_contribution(tagged("AddConstraint"@, op), table)->Ok_0.items == seq![
            "ADD "@ + table_constraint(part(op, "constraint"@))->Ok_0,
        ],
        operation_contribution(tagged("AddColumn"@, op), table) is Ok,
        operation_contribution(tagged("AddColumn"@, op), table)->Ok_0.items.len() > 0,
        part(op, "if_not_exists"@) != Tree::Bool(true) ==> operation_contribution(
            tagged("AddColumn"@, op),
            table,
        )->Ok_0.items[0] == "ADD COLUMN "@ + column_definition(part(op, "column_def"@), true).items[0],
        part(op, "if_not_exists"@) == Tree::Bool(true) ==> operation_contribution(
            tagged("AddColumn"@, op),
            table,
        )->Ok_0.items[0] == "ADD COLUMN IF NOT EXISTS "@ + column_definition(part(op, "column_def"@), true).items[0],
{
    reveal_strlit("DropForeignKey");
    reveal_strlit("DropPrimaryKey");
    reveal_strlit("DropIndex");
    reveal_strlit("AddConstraint");
    reveal_strlit("AddColumn");
    reveal_strlit("ModifyColumn");
    assert("DropForeignKey"@.len() == 14);
    assert("DropPrimaryKey"@.len() == 14);
    assert("DropIndex"@.len() == 9);
    assert("AddConstraint"@.len() == 13);
    assert("AddColumn"@.len() == 9);
    assert("ModifyColumn"@.len() == 12);
    assert("DropForeignKey"@[4] != "DropPrimaryKey"@[4]);
    assert("DropIndex"@[0] != "AddColumn"@[0]);
    reveal_strlit("");
    reveal_strlit("IF NOT EXISTS ");
    reveal_strlit("ADD COLUMN ");
    reveal_strlit("ADD COLUMN IF NOT EXISTS ");
    assert("ADD COLUMN "@ + "IF NOT EXISTS "@ =~= "ADD COLUMN IF NOT EXISTS "@);
    assert("ADD COLUMN "@ + ""@ =~= "ADD COLUMN "@);
    match table_constraint(part(op, "constraint"@)) {
        Ok(sql) => {
            assert("ADD "@ + sql + ""@ =~= "ADD "@ + sql);
        },
        Err(_) => {},
    }
}

/// A table keeps its place in its schema and takes the new name, and of several tables each takes
/// its own.
pub proof fn tables_are_renamed_to_their_new_names(list: Seq<Tree>, i: int)
    requires
        0 <= i < list.len(),
    ensures
        rename_statements(list).len() == list.len(),
        rename_statements(list)[i] == "ALTER TABLE "@ + quoted_name(part(list[i], "old_name"@)) + " RENAME TO "@
            + quoted_ident(bare_tail(part(list[i], "new_name"@))),
        crate::ddl::rename_translation(Tree::List(list)).0 == joined(rename_statements(list), "; "@),
{
}

/// ALTER TABLE changes its own table, and does all that was asked for in the order in which it
/// was asked.
pub proof fn alterations_keep_their_order(t: Tree, operations: Seq<Seq<char>>)
    ensures
        alter_table_sql(t, operations) == "ALTER TABLE "@ + (if part(t, "if_exists"@) == Tree::Bool(true) {
            "IF EXISTS "@
        } else {
            ""@
        }) + (if part(t, "only"@) == Tree::Bool(true) {
            "ONLY "@
        } else {
            ""@
        }) + quoted_name(part(t, "name"@)) + " "@ + joined(operations, ", "@),
        forall|i: int|
            0 <= i < items(part(t, "operations"@)).len() ==> #[trigger] crate::ddl::operation_contributions(
                items(part(t, "operations"@)),
                part(t, "name"@),
            )[i] == operation_contribution(items(part(t, "operations"@))[i], part(t, "name"@)),
        crate::ddl::operation_contributions(items(part(t, "operations"@)), part(t, "name"@)).len() == items(
            part(t, "operations"@),
        ).len(),
{
}

/// What a table is created from or with that has no counterpart here is refused rather than dropped:
/// rows of a query, the columns of another table, partitions and the like.
pub proof fn unknown_tables_are_refused(t: Tree)
    ensures
        !(part(t, "global"@) is Null) ==> crate::ddl::create_table_translation(t) is Err,
        !(part(t, "query"@) is Null) ==> crate::ddl::create_table_translation(t) is Err,
        !(part(t, "like"@) is Null) ==> crate::ddl::create_table_translation(t) is Err,
        !(part(t, "clone"@) is Null) ==> crate::ddl::create_table_translation(t) is Err,
        !(part(t, "version"@) is Null) ==> crate::ddl::create_table_translation(t) is Err,
        !(part(t, "comment"@) is Null) ==> crate::ddl::create_table_translation(t) is Err,
        !(part(t, "on_commit"@) is Null) ==> crate::ddl::create_table_translation(t) is Err,
        !(part(t, "on_cluster"@) is Null) ==> crate::ddl::create_table_translation(t) is Err,
        !(part(t, "primary_key"@) is Null) ==> crate::ddl::create_table_translation(t) is Err,
        !(part(t, "order_by"@) is Null) ==> crate::ddl::create_table_translation(t) is Err,
        !(part(t, "partition_by"@) is Null) ==> crate::ddl::create_table_translation(t) is Err,
        !(part(t, "cluster_by"@) is Null) ==> crate::ddl::create_table_translation(t) is Err,
        !(part(t, "clustered_by"@) is Null) ==> crate::ddl::create_table_translation(t) is Err,
        !(part(t, "inherits"@) is Null) ==> crate::ddl::create_table_translation(t) is Err,
        !(part(t, "partition_of"@) is Null) ==> crate::ddl::create_table_translation(t) is Err,
        !(part(t, "for_values"@) is Null) ==> crate::ddl::create_table_translation(t) is Err,
        part(t, "or_replace"@) == Tree::Bool(true) ==> crate::ddl::create_table_translation(t) is Err,
        part(t, "external"@) == Tree::Bool(true) ==> crate::ddl::create_table_translation(t) is Err,
        part(t, "dynamic"@) == Tree::Bool(true) ==> crate::ddl::create_table_translation(t) is Err,
        part(t, "transient"@) == Tree::Bool(true) ==> crate::ddl::create_table_translation(t) is Err,
        part(t, "volatile"@) == Tree::Bool(true) ==> crate::ddl::create_table_translation(t) is Err,
        part(t, "iceberg"@) == Tree::Bool(true) ==> crate::ddl::create_table_translation(t) is Err,
        part(t, "without_rowid"@) == Tree::Bool(true) ==> crate::ddl::create_table_translation(t) is Err,
        part(t, "strict"@) == Tree::Bool(true) ==> crate::ddl::create_table_translation(t) is Err,
        part(t, "copy_grants"@) == Tree::Bool(true) ==> crate::ddl::create_table_translation(t) is Err,
        part(t, "require_user"@) == Tree::Bool(true) ==> crate::ddl::create_table_translation(t) is Err,
        !(part(t, "table_type"@) is Null) || !(part(t, "location"@) is Null) || !(part(t, "on_cluster"@) is Null)
            ==> crate::ddl::alter_table_translation(t) is Err,
{
}

/// An index of a table becomes a statement of its own behind it; a unique key stays in the table,
/// unless it is over an expression, and then becomes a unique index.
pub proof fn indexes_follow_their_table(body: Tree, table: Tree)
    ensures
        inline_index(body, table) is Ok ==> constraint_contribution(tagged("Index"@, body), table) is Ok
            && constraint_contribution(tagged("Index"@, body), table)->Ok_0.posts == seq![inline_index(body, table)->Ok_0]
            && constraint_contribution(tagged("Index"@, body), table)->Ok_0.items.len() == 0,
        inline_index(body, table) is Err ==> constraint_contribution(tagged("Index"@, body), table) is Err,
        constraint_contribution(tagged("PrimaryKey"@, body), table) is Ok,
        constraint_contribution(tagged("PrimaryKey"@, body), table)->Ok_0.items == seq![
            table_constraint(tagged("PrimaryKey"@, body))->Ok_0,
        ],
        constraint_contribution(tagged("ForeignKey"@, body), table) is Ok,
        constraint_contribution(tagged("ForeignKey"@, body), table)->Ok_0.items == seq![
            table_constraint(tagged("ForeignKey"@, body))->Ok_0,
        ],
        constraint_contribution(tagged("Check"@, body), table) is Ok,
        constraint_contribution(tagged("Check"@, body), table)->Ok_0.items == seq![
            table_constraint(tagged("Check"@, body))->Ok_0,
        ],
        (forall|i: int|
            0 <= i < items(part(body, "columns"@)).len() ==> payload(
                part(part(#[trigger] items(part(body, "columns"@))[i], "column"@), "expr"@),
                "Identifier"@,
            ) is Some) ==> constraint_contribution(tagged("Unique"@, body), table) is Ok && constraint_contribution(
            tagged("Unique"@, body),
            table,
        )->Ok_0.items == seq![table_constraint(tagged("Unique"@, body))->Ok_0],
        (exists|i: int|
            0 <= i < items(part(body, "columns"@)).len() && payload(
                part(part(#[trigger] items(part(body, "columns"@))[i], "column"@), "expr"@),
                "Function"@,
            ) is Some) && unique_index(body, table) is Ok ==> constraint_contribution(tagged("Unique"@, body), table) is Ok
            && constraint_contribution(tagged("Unique"@, body), table)->Ok_0.posts == seq![unique_index(body, table)->Ok_0]
            && constraint_contribution(tagged("Unique"@, body), table)->Ok_0.items.len() == 0,
{
    lemma_constraint_kinds();
    reveal_strlit("Identifier");
    reveal_strlit("CompoundIdentifier");
    reveal_strlit("Function");
    assert("Identifier"@.len() == 10);
    assert("CompoundIdentifier"@.len() == 18);
    assert("Function"@.len() == 8);
    let columns = items(part(body, "columns"@));
    if exists|i: int|
        0 <= i < columns.len() && payload(part(part(#[trigger] columns[i], "column"@), "expr"@), "Function"@) is Some {
        let i = choose|i: int|
            0 <= i < columns.len() && payload(part(part(#[trigger] columns[i], "column"@), "expr"@), "Function"@) is Some;
        assert(uses_expression(columns[i]));
        assert(requires_post_index(body));
    }
    if forall|i: int|
        0 <= i < columns.len() ==> payload(part(part(#[trigger] columns[i], "column"@), "expr"@), "Identifier"@) is Some {
        assert(!requires_post_index(body)) by {
            assert forall|i: int| 0 <= i < columns.len() implies !uses_expression(#[trigger] columns[i]) by {
                assert(payload(part(part(columns[i], "column"@), "expr"@), "Identifier"@) is Some);
            }
        }
    }
}

/// The checks that come with the type of a column are added with the column, one by one.
pub proof fn checks_come_with_their_column(op: Tree, i: int)
    ensures
        ({
            let column = part(op, "column_def"@);
            let checks = type_mapping(shown(ident_sql(part(column, "name"@))), part(column, "data_type"@)).checks;
            &&& add_column(op).items.len() == 1 + checks.len()
            &&& 0 <= i < checks.len() ==> add_column(op).items[1 + i] == "ADD "@ + checks[i]
        }),
        modify_column(op) is Ok ==> {
            let checks = type_mapping(text_of(part(part(op, "col_name"@), "value"@)), part(op, "data_type"@)).checks;
            &&& modify_column(op)->Ok_0.items.len() == 3 + checks.len()
            &&& 0 <= i < checks.len() ==> modify_column(op)->Ok_0.items[3 + i] == "ADD "@ + checks[i]
        },
        column_definition(part(op, "column_def"@), false).extras == type_mapping(
            shown(ident_sql(part(part(op, "column_def"@), "name"@))),
            part(part(op, "column_def"@), "data_type"@),
        ).checks,
{
}

/// What ALTER TABLE is asked for is done in one statement where PostgreSQL has it there, and the
/// indexes follow as statements of their own.
pub proof fn alterations_are_followed_by_their_indexes(t: Tree, c: Contribution)
    requires
        part(t, "table_type"@) is Null,
        part(t, "location"@) is Null,
        part(t, "on_cluster"@) is Null,
        combined(
            crate::ddl::operation_contributions(items(part(t, "operations"@)), part(t, "name"@)),
        ) == Ok::<Contribution, Failure>(c),
    ensures
        c.items.len() > 0 && c.posts.len() == 0 ==> crate::ddl::alter_table_translation(t) is Ok
            && crate::ddl::alter_table_translation(t)->Ok_0.0 == alter_table_sql(t, c.items),
        c.items.len() == 0 && c.posts.len() == 1 ==> crate::ddl::alter_table_translation(t) is Ok
            && crate::ddl::alter_table_translation(t)->Ok_0.0 == c.posts[0],
        c.items.len() > 0 && c.posts.len() == 1 ==> crate::ddl::alter_table_translation(t) is Ok
            && crate::ddl::alter_table_translation(t)->Ok_0.0 == alter_table_sql(t, c.items) + "; "@ + c.posts[0],
        c.items.len() == 0 && c.posts.len() == 0 ==> crate::ddl::alter_table_translation(t) is Err,
{
    let one = seq![alter_table_sql(t, c.items)];
    if c.posts.len() == 0 {
        assert(one + c.posts =~= one);
    } else if c.posts.len() == 1 {
        assert(Seq::<Seq<char>>::empty() + c.posts =~= c.posts);
        assert((one + c.posts).drop_last() =~= one);
        assert(joined(one, "; "@) == one[0]);
    }
}

} // verus!
