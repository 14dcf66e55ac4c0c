//! Queries as a whole: the queries inside them, their aliases and the names that they use.
use vstd::prelude::*;

use crate::error::Failure;
use crate::exprs::{no_expr_under, passed_at, passed_over, PassKind};
use crate::laws::records::changed_parts_are_read;
use crate::laws::select::select_lists_keep_their_items;
use crate::names::{index_char, index_name, name_parts, sanitized};
use crate::query::{
    aliases_of, aligned, compatible_query, fixed, fixed_item, fixed_query, grouped, is_query,
    order_fixed, own_aliases, projection_fixed, query_grouped, query_names,
};
use crate::statement::{query_translation, written};
use crate::text::{begins, is_digit, is_lower, is_upper, is_word};
use crate::tree::{field, first_field, items, part, payload, tagged, text_of, with_field, Tree};

verus! {

/// Queries inside a query, however deep, are made to fit PostgreSQL like the query itself: each
/// part of a statement is, and none is left out or put in another place.
pub proof fn inner_queries_are_fixed_too(t: Tree, depth: nat, i: int)
    requires
        depth > 0,
    ensures
        t is List && 0 <= i < items(t).len() ==> items(fixed(t, depth)).len() == items(t).len() && items(fixed(t, depth))[i]
            == fixed(items(t)[i], (depth - 1) as nat),
        t is Record && !is_query(t) && 0 <= i < t->Record_0.len() ==> fixed(t, depth) is Record && fixed(
            t,
            depth,
        )->Record_0.len() == t->Record_0.len() && fixed(t, depth)->Record_0[i] == (
            t->Record_0[i].0,
            fixed(t->Record_0[i].1, (depth - 1) as nat),
        ),
        is_query(t) && fixed_query(t).0 is Record && 0 <= i < fixed_query(t).0->Record_0.len() ==> fixed(t, depth) is Record
            && fixed(t, depth)->Record_0[i] == (
            fixed_query(t).0->Record_0[i].0,
            fixed(fixed_query(t).0->Record_0[i].1, (depth - 1) as nat),
        ),
        !(t is List) && !(t is Record) ==> fixed(t, depth) == t,
        t is Record && !is_query(t) && 0 <= i < t->Record_0.len() ==> aligned(t, depth) is Record && aligned(
            t,
            depth,
        )->Record_0[i] == (t->Record_0[i].0, aligned(t->Record_0[i].1, (depth - 1) as nat)),
        t is List && 0 <= i < items(t).len() ==> items(aligned(t, depth)).len() == items(t).len() && items(
            aligned(t, depth),
        )[i] == aligned(items(t)[i], (depth - 1) as nat),
        !(t is List) && !(t is Record) ==> aligned(t, depth) == t,
{
}

/// A query is written as PostgreSQL takes it, whole.
pub proof fn queries_are_written_whole(query: Tree)
    ensures
        query_translation(query) is Ok <==> written(tagged("Query"@, compatible_query(query))) is Ok,
        query_translation(query) is Ok ==> query_translation(query)->Ok_0.0 == written(
            tagged("Query"@, compatible_query(query)),
        )->Ok_0,
{
}

proof fn lemma_passed_field(
    fields: Seq<(Seq<char>, Tree)>,
    new: Seq<(Seq<char>, Tree)>,
    key: Seq<char>,
    from: int,
    pass: PassKind,
)
    requires
        0 <= from <= fields.len(),
        new.len() == fields.len(),
        forall|i: int|
            0 <= i < fields.len() ==> #[trigger] new[i] == (
                fields[i].0,
                passed_over(pass, fields[i].1, no_expr_under(fields[i].0, fields[i].1)),
            ),
    ensures
        match first_field(fields, key, from) {
            Some(v) => first_field(new, key, from) == Some(passed_over(pass, v, no_expr_under(key, v))),
            None => first_field(new, key, from) is None,
        },
    decreases fields.len() - from,
{
    if from < fields.len() {
        assert(new[from].0 == fields[from].0);
        lemma_passed_field(fields, new, key, from + 1, pass);
    }
}

proof fn lemma_passed_record(t: Tree, key: Seq<char>)
    requires
        t is Record,
        passed_keeps(t),
    ensures
        field(t, key) is Some ==> field(passed_over(PassKind::Normalize, t, false), key) == Some(
            passed_over(PassKind::Normalize, part(t, key), no_expr_under(key, part(t, key))),
        ),
{
    let fields = t->Record_0;
    let inside = passed_over(PassKind::Normalize, t, true);
    lemma_passed_field(fields, inside->Record_0, key, 0, PassKind::Normalize);
    lemma_single(t);
}

/// Whether a record is none of the expressions that are rewritten.
spec fn passed_keeps(t: Tree) -> bool {
    t->Record_0.len() != 1 || (t->Record_0[0].0 != "Cast"@ && t->Record_0[0].0 != "Function"@ && t->Record_0[0].0 != "Case"@)
}

/// In a query that is made to fit, the SELECT list has as many items as it had, in order: each of
/// them relaxed where its group needs it, and with its expressions rewritten.
pub proof fn fitted_queries_keep_their_items(q: Tree, s: Tree, i: int)
    requires
        is_query(q),
        part(q, "body"@) == tagged("Select"@, s),
        s is Record,
        s->Record_0.len() > 1,
        field(s, "projection"@) is Some,
        part(s, "projection"@) is List,
        0 <= i < items(part(s, "projection"@)).len(),
    ensures
        ({
            let r = payload(part(fixed_query(q).0, "body"@), "Select"@)->Some_0;
            let before = items(part(s, "projection"@));
            let after = items(part(r, "projection"@));
            &&& payload(part(fixed_query(q).0, "body"@), "Select"@) is Some
            &&& after.len() == before.len()
            &&& after[i] == passed_over(PassKind::Normalize, fixed_item(before[i], grouped(s)), false)
        }),
{
    reveal_strlit("body");
    reveal_strlit("limit_clause");
    reveal_strlit("with");
    reveal_strlit("order_by");
    reveal_strlit("projection");
    reveal_strlit("args");
    reveal_strlit("Cast");
    reveal_strlit("Function");
    reveal_strlit("Case");
    reveal_strlit("Select");
    assert("body"@.len() == 4);
    assert("limit_clause"@.len() == 12);
    assert("with"@.len() == 4);
    assert("order_by"@.len() == 8);
    assert("projection"@.len() == 10);
    assert("args"@.len() == 4);
    assert("Cast"@.len() == 4);
    assert("Function"@.len() == 8);
    assert("Case"@.len() == 4);
    assert("Select"@.len() == 6);
    assert("body"@[0] != "with"@[0]);
    assert("body"@[0] != "args"@[0]);
    assert("body"@[0] != "Cast"@[0]);
    assert("body"@[0] != "Case"@[0]);
    assert("with"@[0] != "args"@[0]);
    assert("with"@[0] != "Cast"@[0]);
    assert("with"@[0] != "Case"@[0]);
    assert("order_by"@[0] != "Function"@[0]);
    assert("args"@[0] != "Cast"@[0]);
    assert("args"@[0] != "Case"@[0]);
    assert("Cast"@[3] != "Case"@[3]);
    select_lists_keep_their_items(q, s, i, "with"@);
    let p = projection_fixed(q);
    let list = part(s, "projection"@);
    let fitted = crate::exprs::mapped_list(list, |t: Tree| fixed_item(t, grouped(s)));
    let s2 = with_field(s, "projection"@, fitted);
    changed_parts_are_read(q, "body"@, tagged("Select"@, s2), "limit_clause"@);
    changed_parts_are_read(q, "body"@, tagged("Select"@, s2), "with"@);
    assert(p == with_field(q, "body"@, tagged("Select"@, s2)));
    let n = passed_over(PassKind::Normalize, p, false);
    assert(p is Record);
    assert(p->Record_0.len() != 1) by {
        if p->Record_0.len() == 1 {
            reveal_with_fuel(first_field, 3);
            assert(field(p, "body"@) is Some);
            assert(field(p, "with"@) is Some);
        }
    }
    lemma_passed_record(p, "body"@);
    let body = tagged("Select"@, s2);
    assert(part(p, "body"@) == body);
    lemma_not_names("body"@, body);
    assert(part(n, "body"@) == passed_over(PassKind::Normalize, body, false));
    lemma_passed_record(body, "Select"@);
    reveal_with_fuel(first_field, 2);
    assert(body->Record_0[0] == ("Select"@, s2));
    assert(field(body, "Select"@) == Some(s2));
    lemma_not_names("Select"@, s2);
    let select = passed_over(PassKind::Normalize, s2, false);
    let b = passed_over(PassKind::Normalize, body, false);
    assert(field(b, "Select"@) == Some(select));
    assert(b is Record && b->Record_0.len() == 1 && b->Record_0[0].0 == "Select"@) by {
        lemma_single(body);
    }
    assert(payload(b, "Select"@) == Some(select));
    lemma_passed_record(s2, "projection"@);
    changed_parts_are_read(s, "projection"@, fitted, "projection"@);
    lemma_not_names("projection"@, fitted);
    assert(part(select, "projection"@) == passed_over(PassKind::Normalize, fitted, false));
    assert(items(passed_over(PassKind::Normalize, fitted, false))[i] == passed_over(
        PassKind::Normalize,
        items(fitted)[i],
        false,
    ));
    assert(items(fitted)[i] == fixed_item(items(list)[i], grouped(s)));
    let ordered = order_fixed(n, query_grouped(q)).0;
    match crate::query::order_terms(n) {
        Some(terms) => {
            let new = crate::exprs::mapped_list(
                terms,
                |t: Tree| crate::query::relaxed_term(t, query_grouped(q), query_names(n)),
            );
            let clause = with_field(part(n, "order_by"@), "kind"@, tagged("Expressions"@, new));
            changed_parts_are_read(n, "order_by"@, clause, "body"@);
        },
        None => {},
    }
    assert(part(ordered, "body"@) == part(n, "body"@));
}

proof fn lemma_single(t: Tree)
    requires
        t is Record,
        passed_keeps(t),
    ensures
        passed_over(PassKind::Normalize, t, false) == passed_over(PassKind::Normalize, t, true),
        ({
            let b = passed_over(PassKind::Normalize, t, false);
            b is Record && b->Record_0.len() == t->Record_0.len() && (t->Record_0.len() == 1 ==> b->Record_0[0].0
                == t->Record_0[0].0)
        }),
{
    let inside = passed_over(PassKind::Normalize, t, true);
    assert(passed_over(PassKind::Normalize, t, false) == passed_at(PassKind::Normalize, inside));
    assert(payload(inside, "Cast"@) is None && payload(inside, "Function"@) is None && payload(inside, "Case"@) is None) by {
        if inside->Record_0.len() == 1 {
            assert(inside->Record_0[0].0 == t->Record_0[0].0);
        }
    }
}

proof fn lemma_not_names(key: Seq<char>, v: Tree)
    requires
        key == "body"@ || key == "Select"@ || key == "projection"@,
        v is Record || key == "projection"@,
    ensures
        !no_expr_under(key, v),
{
    lemma_no_name_key(key);
}

proof fn lemma_no_name_key(key: Seq<char>)
    requires
        key == "body"@ || key == "Select"@ || key == "projection"@,
    ensures
        !crate::exprs::is_name_key(key),
        key != "args"@,
{
    reveal_strlit("body");
    reveal_strlit("Select");
    reveal_strlit("projection");
    reveal_strlit("name");
    reveal_strlit("names");
    reveal_strlit("new_name");
    reveal_strlit("old_name");
    reveal_strlit("table");
    reveal_strlit("tables");
    reveal_strlit("table_name");
    reveal_strlit("foreign_table");
    reveal_strlit("obj_name");
    reveal_strlit("parent_name");
    reveal_strlit("operator_class");
    reveal_strlit("collation");
    reveal_strlit("charset");
    reveal_strlit("lateral_view_name");
    reveal_strlit("index_name");
    reveal_strlit("into");
    reveal_strlit("of");
    reveal_strlit("to");
    reveal_strlit("key");
    reveal_strlit("function");
    reveal_strlit("variable");
    reveal_strlit("variables");
    reveal_strlit("columns");
    reveal_strlit("row_alias");
    reveal_strlit("Custom");
    reveal_strlit("ObjectName");
    reveal_strlit("QualifiedWildcard");
    reveal_strlit("TableName");
    reveal_strlit("ColumnName");
    reveal_strlit("CharacterSet");
    reveal_strlit("Collation");
    reveal_strlit("Using");
    reveal_strlit("args");
    assert("body"@.len() == 4);
    assert("Select"@.len() == 6);
    assert("projection"@.len() == 10);
    assert("name"@.len() == 4);
    assert("names"@.len() == 5);
    assert("new_name"@.len() == 8);
    assert("old_name"@.len() == 8);
    assert("table"@.len() == 5);
    assert("tables"@.len() == 6);
    assert("table_name"@.len() == 10);
    assert("foreign_table"@.len() == 13);
    assert("obj_name"@.len() == 8);
    assert("parent_name"@.len() == 11);
    assert("operator_class"@.len() == 14);
    assert("collation"@.len() == 9);
    assert("charset"@.len() == 7);
    assert("lateral_view_name"@.len() == 17);
    assert("index_name"@.len() == 10);
    assert("into"@.len() == 4);
    assert("of"@.len() == 2);
    assert("to"@.len() == 2);
    assert("key"@.len() == 3);
    assert("function"@.len() == 8);
    assert("variable"@.len() == 8);
    assert("variables"@.len() == 9);
    assert("columns"@.len() == 7);
    assert("row_alias"@.len() == 9);
    assert("Custom"@.len() == 6);
    assert("ObjectName"@.len() == 10);
    assert("QualifiedWildcard"@.len() == 17);
    assert("TableName"@.len() == 9);
    assert("ColumnName"@.len() == 10);
    assert("CharacterSet"@.len() == 12);
    assert("Collation"@.len() == 9);
    assert("Using"@.len() == 5);
    assert("args"@.len() == 4);
    assert("body"@[0] != "name"@[0]);
    assert("body"@[0] != "into"@[0]);
    assert("body"@[0] != "args"@[0]);
    assert("Select"@[0] != "tables"@[0]);
    assert("Select"@[0] != "Custom"@[0]);
    assert("projection"@[0] != "table_name"@[0]);
    assert("projection"@[0] != "index_name"@[0]);
    assert("projection"@[0] != "ObjectName"@[0]);
    assert("projection"@[0] != "ColumnName"@[0]);
    assert("name"@[0] != "into"@[0]);
    assert("name"@[0] != "args"@[0]);
    assert("names"@[0] != "table"@[0]);
    assert("names"@[0] != "Using"@[0]);
    assert("new_name"@[0] != "old_name"@[0]);
    assert("new_name"@[0] != "obj_name"@[0]);
    assert("new_name"@[0] != "function"@[0]);
    assert("new_name"@[0] != "variable"@[0]);
    assert("old_name"@[1] != "obj_name"@[1]);
    assert("old_name"@[0] != "function"@[0]);
    assert("old_name"@[0] != "variable"@[0]);
    assert("table"@[0] != "Using"@[0]);
    assert("tables"@[0] != "Custom"@[0]);
    assert("table_name"@[0] != "index_name"@[0]);
    assert("table_name"@[0] != "ObjectName"@[0]);
    assert("table_name"@[0] != "ColumnName"@[0]);
    assert("obj_name"@[0] != "function"@[0]);
    assert("obj_name"@[0] != "variable"@[0]);
    assert("collation"@[0] != "variables"@[0]);
    assert("collation"@[0] != "row_alias"@[0]);
    assert("collation"@[0] != "TableName"@[0]);
    assert("collation"@[0] != "Collation"@[0]);
    assert("charset"@[1] != "columns"@[1]);
    assert("lateral_view_name"@[0] != "QualifiedWildcard"@[0]);
    assert("index_name"@[0] != "ObjectName"@[0]);
    assert("index_name"@[0] != "ColumnName"@[0]);
    assert("into"@[0] != "args"@[0]);
    assert("of"@[0] != "to"@[0]);
    assert("function"@[0] != "variable"@[0]);
    assert("variables"@[0] != "row_alias"@[0]);
    assert("variables"@[0] != "TableName"@[0]);
    assert("variables"@[0] != "Collation"@[0]);
    assert("row_alias"@[0] != "TableName"@[0]);
    assert("row_alias"@[0] != "Collation"@[0]);
    assert("ObjectName"@[0] != "ColumnName"@[0]);
    assert("TableName"@[0] != "Collation"@[0]);
}

/// The aliases of a SELECT list are those of its items, in order, and no others.
pub proof fn aliases_are_those_of_the_items(list: Seq<Tree>, n: int)
    requires
        0 <= n <= list.len(),
    ensures
        forall|i: int|
            0 <= i < n && payload(#[trigger] list[i], "ExprWithAlias"@) is Some ==> aliases_of(list, n).contains(
                text_of(part(part(payload(list[i], "ExprWithAlias"@)->Some_0, "alias"@), "value"@)),
            ),
        forall|a: Seq<char>| #[trigger]
            aliases_of(list, n).contains(a) ==> exists|i: int|
                0 <= i < n && payload(#[trigger] list[i], "ExprWithAlias"@) is Some && a == text_of(
                    part(part(payload(list[i], "ExprWithAlias"@)->Some_0, "alias"@), "value"@),
                ),
    decreases n,
{
    if n > 0 {
        aliases_are_those_of_the_items(list, n - 1);
        let before = aliases_of(list, n - 1);
        let after = aliases_of(list, n);
        assert forall|i: int| 0 <= i < n && payload(#[trigger] list[i], "ExprWithAlias"@) is Some implies after.contains(
            text_of(part(part(payload(list[i], "ExprWithAlias"@)->Some_0, "alias"@), "value"@)),
        ) by {
            let a = text_of(part(part(payload(list[i], "ExprWithAlias"@)->Some_0, "alias"@), "value"@));
            if i < n - 1 {
                let k = choose|k: int| 0 <= k < before.len() && before[k] == a;
                assert(after[k] == a);
            } else {
                assert(after[before.len() as int] == a);
            }
        }
        assert forall|a: Seq<char>| #[trigger] after.contains(a) implies exists|i: int|
            0 <= i < n && payload(#[trigger] list[i], "ExprWithAlias"@) is Some && a == text_of(
                part(part(payload(list[i], "ExprWithAlias"@)->Some_0, "alias"@), "value"@),
            ) by {
            let k = choose|k: int| 0 <= k < after.len() && after[k] == a;
            if k < before.len() {
                assert(before[k] == a);
                assert(before.contains(a));
            } else {
                assert(payload(list[n - 1], "ExprWithAlias"@) is Some);
            }
        }
    }
}

/// A name without a schema is looked for in the current one, a name with one in that, and longer
/// names are refused.
pub proof fn names_are_taken_apart(t: Tree)
    requires
        forall|i: int| 0 <= i < items(t).len() ==> payload(#[trigger] items(t)[i], "Identifier"@) is Some,
    ensures
        items(t).len() == 1 ==> name_parts(t) == Ok::<(Option<Seq<char>>, Seq<char>), Failure>(
            (None, text_of(part(payload(items(t)[0], "Identifier"@)->Some_0, "value"@))),
        ),
        items(t).len() == 2 ==> name_parts(t) == Ok::<(Option<Seq<char>>, Seq<char>), Failure>(
            (
                Some(text_of(part(payload(items(t)[0], "Identifier"@)->Some_0, "value"@))),
                text_of(part(payload(items(t)[1], "Identifier"@)->Some_0, "value"@)),
            ),
        ),
        items(t).len() > 2 ==> name_parts(t) is Err,
{
    assert(!exists|i: int| 0 <= i < items(t).len() && crate::names::part_ident(#[trigger] items(t)[i]) is None);
    if items(t).len() > 0 {
        assert(payload(items(t)[0], "Identifier"@) is Some);
    }
    if items(t).len() == 2 {
        assert(payload(items(t)[1], "Identifier"@) is Some);
    }
}

/// The name of an index starts with the name of its table, so that indexes of different tables do
/// not clash.
pub proof fn indexes_are_named_after_their_table(table: Tree, name: Option<Seq<char>>, suffix: Seq<char>)
    ensures
        begins(index_name(table, name, suffix), sanitized(crate::names::name_tail(table)) + "_"@),
        name is None ==> index_name(table, name, suffix) == sanitized(crate::names::name_tail(table)) + "_"@ + suffix,
        name is Some && !begins(sanitized(name->Some_0), sanitized(crate::names::name_tail(table)) + "_"@) ==> index_name(
            table,
            name,
            suffix,
        ) == sanitized(crate::names::name_tail(table)) + "_"@ + sanitized(name->Some_0),
{
    let front = sanitized(crate::names::name_tail(table)) + "_"@;
    match name {
        Some(n) => {
            assert((front + sanitized(n)).subrange(0, front.len() as int) =~= front);
        },
        None => {
            assert((front + suffix).subrange(0, front.len() as int) =~= front);
        },
    }
}

/// The characters of an index name are small letters, digits and underscores.
pub proof fn index_names_are_plain(c: char)
    ensures
        is_word(index_char(c)),
        !is_upper(index_char(c)),
        is_digit(c) || is_lower(c) || c == '_' ==> index_char(c) == c,
        !is_word(c) ==> index_char(c) == '_',
{
}

/// Names in WHERE follow the aliases of the tables that a query reads, and names in GROUP BY, HAVING
/// and ORDER BY those of its own SELECT list too.
pub proof fn clauses_see_the_aliases_they_may(s: Tree)
    requires
        field(s, "selection"@) is Some,
        field(s, "having"@) is Some,
        field(s, "group_by"@) is Some,
        field(s, "projection"@) is Some,
    ensures
        part(crate::query::aligned_select(s), "selection"@) == crate::query::canonicalized(
            part(s, "selection"@),
            crate::query::derived_aliases(s),
        ),
        part(crate::query::aligned_select(s), "having"@) == crate::query::canonicalized(
            part(s, "having"@),
            crate::query::derived_aliases(s) + own_aliases(s),
        ),
        payload(part(s, "group_by"@), "Expressions"@) is Some && items(
            payload(part(s, "group_by"@), "Expressions"@)->Some_0,
        ).len() > 0 ==> payload(part(crate::query::aligned_select(s), "group_by"@), "Expressions"@) is Some && items(
            payload(part(crate::query::aligned_select(s), "group_by"@), "Expressions"@)->Some_0,
        )[0] == crate::query::canonicalized(
            items(payload(part(s, "group_by"@), "Expressions"@)->Some_0)[0],
            crate::query::derived_aliases(s) + own_aliases(s),
        ),
{
    reveal_strlit("selection");
    reveal_strlit("having");
    reveal_strlit("group_by");
    reveal_strlit("projection");
    assert("selection"@.len() == 9);
    assert("having"@.len() == 6);
    assert("group_by"@.len() == 8);
    assert("projection"@.len() == 10);
    let derived = crate::query::derived_aliases(s);
    let grouping = derived + own_aliases(s);
    let list = crate::exprs::mapped_list(part(s, "projection"@), |t: Tree| crate::query::aligned_item(t, derived));
    let a = with_field(s, "projection"@, list);
    let where_ = crate::query::canonicalized(part(s, "selection"@), derived);
    let b = with_field(a, "selection"@, where_);
    let groups = crate::query::aligned_group_by(part(s, "group_by"@), grouping);
    let c = with_field(b, "group_by"@, groups);
    let having = crate::query::canonicalized(part(s, "having"@), grouping);
    changed_parts_are_read(s, "projection"@, list, "selection"@);
    changed_parts_are_read(s, "projection"@, list, "group_by"@);
    changed_parts_are_read(s, "projection"@, list, "having"@);
    changed_parts_are_read(a, "selection"@, where_, "group_by"@);
    changed_parts_are_read(a, "selection"@, where_, "having"@);
    changed_parts_are_read(b, "group_by"@, groups, "selection"@);
    changed_parts_are_read(b, "group_by"@, groups, "having"@);
    changed_parts_are_read(c, "having"@, having, "selection"@);
    changed_parts_are_read(c, "having"@, having, "group_by"@);
}

/// The aliases of a derived table are those of the query that it is.
pub proof fn derived_tables_show_their_aliases(d: Tree, select: Tree, from: Seq<Tree>, n: int)
    requires
        part(part(d, "subquery"@), "body"@) == tagged("Select"@, select),
        0 < n <= from.len(),
    ensures
        crate::query::factor_aliases(tagged("Derived"@, d)) == own_aliases(select),
        own_aliases(select) == aliases_of(
            items(part(select, "projection"@)),
            items(part(select, "projection"@)).len() as int,
        ),
        crate::query::table_aliases(from, n) == crate::query::table_aliases(from, n - 1) + crate::query::factor_aliases(
            part(from[n - 1], "relation"@),
        ) + crate::query::join_aliases(
            items(part(from[n - 1], "joins"@)),
            items(part(from[n - 1], "joins"@)).len() as int,
        ),
        crate::query::join_aliases(from, n) == crate::query::join_aliases(from, n - 1) + crate::query::factor_aliases(
            part(from[n - 1], "relation"@),
        ),
{
}

/// The names that a SELECT shows to ORDER BY are its aliases and the names of its plain columns, and
/// no others.
pub proof fn shown_names_are_those_of_the_items(list: Seq<Tree>, n: int, a: Seq<char>)
    requires
        0 <= n <= list.len(),
    ensures
        forall|i: int|
            0 <= i < n && payload(#[trigger] list[i], "ExprWithAlias"@) is Some ==> crate::query::output_names(
                list,
                n,
            ).contains(text_of(part(part(payload(list[i], "ExprWithAlias"@)->Some_0, "alias"@), "value"@))),
        forall|i: int|
            0 <= i < n && payload(#[trigger] list[i], "UnnamedExpr"@) is Some && payload(
                payload(list[i], "UnnamedExpr"@)->Some_0,
                "Identifier"@,
            ) is Some ==> crate::query::output_names(list, n).contains(
                text_of(part(payload(payload(list[i], "UnnamedExpr"@)->Some_0, "Identifier"@)->Some_0, "value"@)),
            ),
    decreases n,
{
    if n > 0 {
        shown_names_are_those_of_the_items(list, n - 1, a);
        reveal_strlit("ExprWithAlias");
        reveal_strlit("UnnamedExpr");
        reveal_strlit("Identifier");
        reveal_strlit("CompoundIdentifier");
        assert("ExprWithAlias"@.len() == 13);
        assert("UnnamedExpr"@.len() == 11);
        assert("Identifier"@.len() == 10);
        assert("CompoundIdentifier"@.len() == 18);
        let before = crate::query::output_names(list, n - 1);
        let after = crate::query::output_names(list, n);
        assert forall|x: Seq<char>| before.contains(x) implies #[trigger] after.contains(x) by {
            let k = choose|k: int| 0 <= k < before.len() && before[k] == x;
            assert(after[k] == x);
        }
        let item = list[n - 1];
        if payload(item, "ExprWithAlias"@) is Some {
            assert(after[before.len() as int] == text_of(
                part(part(payload(item, "ExprWithAlias"@)->Some_0, "alias"@), "value"@),
            ));
        } else if payload(item, "UnnamedExpr"@) is Some && payload(payload(item, "UnnamedExpr"@)->Some_0, "Identifier"@) is Some {
            assert(after[before.len() as int] == text_of(
                part(payload(payload(item, "UnnamedExpr"@)->Some_0, "Identifier"@)->Some_0, "value"@),
            ));
        }
        assert forall|i: int| 0 <= i < n && payload(#[trigger] list[i], "ExprWithAlias"@) is Some implies after.contains(
            text_of(part(part(payload(list[i], "ExprWithAlias"@)->Some_0, "alias"@), "value"@)),
        ) by {
            let x = text_of(part(part(payload(list[i], "ExprWithAlias"@)->Some_0, "alias"@), "value"@));
            if i < n - 1 {
                assert(before.contains(x));
            } else {
                assert(after[before.len() as int] == x);
            }
        }
        assert forall|i: int|
            0 <= i < n && payload(#[trigger] list[i], "UnnamedExpr"@) is Some && payload(
                payload(list[i], "UnnamedExpr"@)->Some_0,
                "Identifier"@,
            ) is Some implies after.contains(
            text_of(part(payload(payload(list[i], "UnnamedExpr"@)->Some_0, "Identifier"@)->Some_0, "value"@)),
        ) by {
            let x = text_of(part(payload(payload(list[i], "UnnamedExpr"@)->Some_0, "Identifier"@)->Some_0, "value"@));
            if i < n - 1 {
                assert(before.contains(x));
            } else {
                assert(after[before.len() as int] == x);
            }
        }
    }
}

/// A query says that it was relaxed where one of its items was, and only then.
pub proof fn relaxations_are_reported(list: Seq<Tree>, grouped: Seq<Tree>, n: int)
    requires
        0 <= n <= list.len(),
    ensures
        crate::query::any_relaxed(list, grouped, n) <==> grouped.len() > 0 && exists|i: int|
            0 <= i < n && crate::query::item_needs_relaxation(#[trigger] list[i], grouped),
    decreases n,
{
    if n > 0 {
        relaxations_are_reported(list, grouped, n - 1);
        if crate::query::any_relaxed(list, grouped, n) && !crate::query::item_needs_relaxation(list[n - 1], grouped) {
            let i = choose|i: int| 0 <= i < n - 1 && crate::query::item_needs_relaxation(#[trigger] list[i], grouped);
            assert(crate::query::item_needs_relaxation(list[i], grouped));
        }
    }
}

/// Where a statement stands in its text is dropped, and nothing else of it: texts, numbers and names
/// stay, and so do the parts of a record and the items of a list.
pub proof fn positions_are_dropped_alone(t: Tree, value: Seq<char>, i: int)
    ensures
        !(t is List) && !(t is Record) ==> crate::exprs::without_positions(t) == t,
        t is List ==> items(crate::exprs::without_positions(t)).len() == items(t).len(),
        t is List && 0 <= i < items(t).len() ==> items(crate::exprs::without_positions(t))[i]
            == crate::exprs::without_positions(items(t)[i]),
        t is Record && field(t, "token"@) is None ==> crate::exprs::without_positions(t) is Record
            && crate::exprs::without_positions(t)->Record_0.len() == t->Record_0.len(),
        t is Record && field(t, "token"@) is None && 0 <= i < t->Record_0.len() && t->Record_0[i].0 != "span"@
            ==> crate::exprs::without_positions(t)->Record_0[i] == (
            t->Record_0[i].0,
            crate::exprs::without_positions(t->Record_0[i].1),
        ),
{
}

} // verus!
