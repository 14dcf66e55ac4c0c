//! Queries: their SELECT lists, grouping, aliases and expressions.
use vstd::prelude::*;

use crate::exprs::{
    branches_unified, canonical, cast_fixed, fields_hold_aggregate, holds_aggregate,
    holds_ungrouped, ident_tree, if_as_case, is_column, is_number, mapped_list, needs_relaxation,
    passed_over, PassKind,
};
use crate::laws::records::changed_parts_are_read;
use crate::query::{
    alias_grouped, aligned_item, aligned_term, all_group_on, fixed_item, grouped, groups_on,
    implicit_alias, integerized_item, item_expr, names_output, projection_fixed, relaxed_item,
    relaxed_term, select_of,
};
use crate::text::{lowered, same_ignoring_case};
use crate::tree::{field, first_field, items, part, payload, tagged, text_of, with_field, Tree};

verus! {

/// Whether an expression is a call of a function of that name, in lower case.
pub open spec fn is_call(e: Tree, name: Seq<char>) -> bool {
    payload(e, "Function"@) is Some && {
        let f = payload(e, "Function"@)->Some_0;
        let names = items(part(f, "name"@));
        &&& field(f, "over"@) is Some
        &&& names.len() > 0
        &&& payload(names.last(), "Identifier"@) is Some
        &&& lowered(text_of(part(payload(names.last(), "Identifier"@)->Some_0, "value"@))) == name
    }
}

/// Whether an expression is a call of a window function.
pub open spec fn is_window_call(e: Tree) -> bool {
    payload(e, "Function"@) is Some && field(payload(e, "Function"@)->Some_0, "over"@) is Some && !(part(
        payload(e, "Function"@)->Some_0,
        "over"@,
    ) is Null)
}

/// The names of the aggregate functions.
pub open spec fn is_aggregate_call(e: Tree) -> bool {
    ||| is_call(e, "count"@)
    ||| is_call(e, "sum"@)
    ||| is_call(e, "avg"@)
    ||| is_call(e, "min"@)
    ||| is_call(e, "max"@)
    ||| is_call(e, "group_concat"@)
    ||| is_call(e, "string_agg"@)
    ||| is_call(e, "array_agg"@)
    ||| is_call(e, "bit_and"@)
    ||| is_call(e, "bit_or"@)
    ||| is_call(e, "bit_xor"@)
    ||| is_call(e, "std"@)
    ||| is_call(e, "stddev"@)
    ||| is_call(e, "stddev_pop"@)
    ||| is_call(e, "stddev_samp"@)
    ||| is_call(e, "variance"@)
    ||| is_call(e, "var_pop"@)
    ||| is_call(e, "var_samp"@)
    ||| is_call(e, "json_arrayagg"@)
    ||| is_call(e, "json_objectagg"@)
    ||| is_call(e, "bool_and"@)
    ||| is_call(e, "bool_or"@)
    ||| is_call(e, "every"@)
}

/// Whether an item of a SELECT list is an expression, with or without an alias.
pub open spec fn is_item_of(item: Tree, e: Tree) -> bool {
    item == tagged("UnnamedExpr"@, e) || (payload(item, "ExprWithAlias"@) is Some && part(
        payload(item, "ExprWithAlias"@)->Some_0,
        "expr"@,
    ) == e)
}

proof fn lemma_item_kinds()
    ensures
        "UnnamedExpr"@ != "ExprWithAlias"@,
{
    reveal_strlit("UnnamedExpr");
    reveal_strlit("ExprWithAlias");
    assert("UnnamedExpr"@.len() == 11);
    assert("ExprWithAlias"@.len() == 13);
}

proof fn lemma_item(item: Tree, e: Tree)
    requires
        is_item_of(item, e),
    ensures
        item_expr(item) == Some(e),
{
    lemma_item_kinds();
}

proof fn lemma_call_is_no_condition(e: Tree)
    requires
        payload(e, "Function"@) is Some,
    ensures
        !crate::exprs::yields_boolean(e),
        !is_column(e),
{
    reveal_strlit("Function");
    reveal_strlit("BinaryOp");
    reveal_strlit("UnaryOp");
    reveal_strlit("IsNull");
    reveal_strlit("IsNotNull");
    reveal_strlit("Like");
    reveal_strlit("ILike");
    reveal_strlit("RLike");
    reveal_strlit("InList");
    reveal_strlit("InSubquery");
    reveal_strlit("Between");
    reveal_strlit("Exists");
    reveal_strlit("Identifier");
    reveal_strlit("CompoundIdentifier");
    assert("Function"@.len() == 8);
    assert("BinaryOp"@.len() == 8);
    assert("UnaryOp"@.len() == 7);
    assert("IsNull"@.len() == 6);
    assert("IsNotNull"@.len() == 9);
    assert("Like"@.len() == 4);
    assert("ILike"@.len() == 5);
    assert("RLike"@.len() == 5);
    assert("InList"@.len() == 6);
    assert("InSubquery"@.len() == 10);
    assert("Between"@.len() == 7);
    assert("Exists"@.len() == 6);
    assert("Identifier"@.len() == 10);
    assert("CompoundIdentifier"@.len() == 18);
    assert("Function"@[0] != "BinaryOp"@[0]);
    assert("UnaryOp"@[0] != "Between"@[0]);
    assert("IsNull"@[1] != "InList"@[1]);
    assert("IsNull"@[0] != "Exists"@[0]);
    assert("ILike"@[0] != "RLike"@[0]);
    assert("InList"@[0] != "Exists"@[0]);
    assert("InSubquery"@[1] != "Identifier"@[1]);
}

/// A call of an aggregate function, or of a window function, is never wrapped in another
/// aggregate: in the SELECT list of a grouped query, and among what it is sorted by, it stays as
/// it is.
pub proof fn aggregates_are_never_wrapped(item: Tree, e: Tree, sort: Tree, grouped: Seq<Tree>, names: Seq<Seq<char>>)
    requires
        is_item_of(item, e),
        part(sort, "expr"@) == e,
        is_aggregate_call(e) || is_window_call(e),
    ensures
        fixed_item(item, grouped) == item,
        relaxed_term(sort, grouped, names) == sort,
{
    lemma_item(item, e);
    lemma_call_is_no_condition(e);
    assert(crate::exprs::is_aggregate(e));
    assert(e is Record);
    assert(holds_aggregate(e, false));
}

proof fn lemma_field_holds_aggregate(fields: Seq<(Seq<char>, Tree)>, i: int, n: nat)
    requires
        0 <= i < n <= fields.len(),
        holds_aggregate(fields[i].1, crate::exprs::no_expr_under(fields[i].0, fields[i].1)),
    ensures
        fields_hold_aggregate(fields, n),
    decreases n,
{
    if i < n - 1 {
        lemma_field_holds_aggregate(fields, i, (n - 1) as nat);
    }
}

/// What is computed from an aggregate is not wrapped in another one either.
pub proof fn sums_with_aggregates_are_kept(item: Tree, fields: Seq<(Seq<char>, Tree)>, i: int, grouped: Seq<Tree>)
    requires
        is_item_of(item, tagged("BinaryOp"@, Tree::Record(fields))),
        0 <= i < fields.len(),
        fields[i].0 == "left"@ || fields[i].0 == "right"@,
        is_aggregate_call(fields[i].1),
    ensures
        relaxed_item(item, grouped) == item,
{
    let e = tagged("BinaryOp"@, Tree::Record(fields));
    lemma_item(item, e);
    let x = fields[i].1;
    assert(crate::exprs::is_aggregate(x));
    reveal_strlit("left");
    reveal_strlit("right");
    reveal_strlit("args");
    assert("left"@.len() == 4);
    assert("right"@.len() == 5);
    assert("args"@.len() == 4);
    assert("left"@[0] != "args"@[0]);
    assert(!crate::exprs::no_expr_under(fields[i].0, x)) by {
        assert(x is Record);
    }
    assert(holds_aggregate(x, false));
    lemma_field_holds_aggregate(fields, i, fields.len());
    let inner = Tree::Record(fields);
    assert(holds_aggregate(inner, true)) by {
        assert(fields_hold_aggregate(fields, fields.len()));
    }
    assert(holds_aggregate(inner, false));
    let outer = seq![("BinaryOp"@, inner)];
    assert(outer[0].1 == inner);
    lemma_field_holds_aggregate(outer, 0, 1);
    assert(e == Tree::Record(outer));
    assert(holds_aggregate(e, false));
}

proof fn lemma_ident_holds_nothing(value: Seq<char>, quote: Tree, bare: bool)
    requires
        quote is Null || quote is Text,
    ensures
        !holds_aggregate(ident_tree(value, quote), bare),
{
    reveal_with_fuel(holds_aggregate, 5);
    reveal_with_fuel(fields_hold_aggregate, 5);
    reveal_strlit("Subquery");
    reveal_strlit("Exists");
    reveal_strlit("InSubquery");
    reveal_strlit("Function");
    assert("Subquery"@.len() == 8);
    assert("Exists"@.len() == 6);
    assert("InSubquery"@.len() == 10);
    assert("Function"@.len() == 8);
    assert("Subquery"@[0] != "Function"@[0]);
    let t = ident_tree(value, quote);
    let fields = t->Record_0;
    assert(fields.len() == 3);
    let span = fields[1].1;
    let inner = span->Record_0;
    assert(inner.len() == 2);
    assert(!holds_aggregate(inner[0].1, false) && !holds_aggregate(inner[0].1, true));
    assert(!holds_aggregate(inner[1].1, false) && !holds_aggregate(inner[1].1, true));
    assert(!fields_hold_aggregate(inner, 1));
    assert(!fields_hold_aggregate(inner, 2));
    assert(!holds_aggregate(span, false) && !holds_aggregate(span, true));
    assert(!fields_hold_aggregate(fields, 1));
    assert(!fields_hold_aggregate(fields, 2));
    assert(!fields_hold_aggregate(fields, 3));
}

/// Whether a tree is a call of MIN, of one plain argument and nothing else.
pub open spec fn is_min_of(t: Tree, e: Tree) -> bool {
    is_call(t, "min"@) && {
        let f = payload(t, "Function"@)->Some_0;
        let list = payload(part(f, "args"@), "List"@);
        &&& part(f, "over"@) is Null
        &&& part(f, "filter"@) is Null
        &&& list is Some
        &&& part(list->Some_0, "args"@) == Tree::List(seq![tagged("Unnamed"@, tagged("Expr"@, e))])
        &&& part(list->Some_0, "duplicate_treatment"@) is Null
    }
}

proof fn lemma_min(e: Tree)
    ensures
        is_min_of(crate::exprs::min_tree(e), e),
{
    reveal_with_fuel(first_field, 9);
    reveal_strlit("MIN");
    reveal_strlit("min");
    reveal_strlit("args");
    reveal_strlit("filter");
    reveal_strlit("name");
    reveal_strlit("null_treatment");
    reveal_strlit("over");
    reveal_strlit("clauses");
    reveal_strlit("duplicate_treatment");
    reveal_strlit("quote_style");
    reveal_strlit("span");
    reveal_strlit("value");
    assert("args"@.len() == 4);
    assert("filter"@.len() == 6);
    assert("name"@.len() == 4);
    assert("null_treatment"@.len() == 14);
    assert("over"@.len() == 4);
    assert("clauses"@.len() == 7);
    assert("duplicate_treatment"@.len() == 19);
    assert("quote_style"@.len() == 11);
    assert("span"@.len() == 4);
    assert("value"@.len() == 5);
    assert("args"@[0] != "name"@[0]);
    assert("args"@[0] != "over"@[0]);
    assert("args"@[0] != "span"@[0]);
    assert("name"@[0] != "over"@[0]);
    assert("name"@[0] != "span"@[0]);
    assert("over"@[0] != "span"@[0]);
    let t = crate::exprs::min_tree(e);
    let f = payload(t, "Function"@)->Some_0;
    assert(part(f, "name"@) == f->Record_0[2].1);
    let ident = ident_tree("MIN"@, Tree::Null);
    assert(part(ident, "value"@) == Tree::Text("MIN"@));
    assert(lowered("MIN"@) =~= "min"@);
    assert(part(f, "over"@) is Null);
    let list = payload(part(f, "args"@), "List"@);
    assert(list is Some);
    assert(part(list->Some_0, "args"@) == list->Some_0->Record_0[0].1);
}

/// A column that a grouped query neither groups on nor aggregates becomes the minimum of that
/// column, and is known under its own name still.
pub proof fn ungrouped_columns_become_minima(value: Seq<char>, quote: Tree, grouped: Seq<Tree>)
    requires
        quote is Null || quote is Text,
        grouped.len() > 0,
        !grouped.contains(tagged("Identifier"@, ident_tree(value, quote))),
    ensures
        ({
            let column = tagged("Identifier"@, ident_tree(value, quote));
            let r = fixed_item(tagged("UnnamedExpr"@, column), grouped);
            &&& payload(r, "ExprWithAlias"@) is Some
            &&& part(payload(r, "ExprWithAlias"@)->Some_0, "alias"@) == ident_tree(value, quote)
            &&& is_min_of(part(payload(r, "ExprWithAlias"@)->Some_0, "expr"@), column)
        }),
{
    let ident = ident_tree(value, quote);
    let column = tagged("Identifier"@, ident);
    let item = tagged("UnnamedExpr"@, column);
    lemma_item_kinds();
    lemma_item(item, column);
    lemma_min(column);
    lemma_ident_holds_nothing(value, quote, false);
    lemma_ident_holds_nothing(value, quote, true);
    reveal_strlit("Identifier");
    reveal_strlit("Subquery");
    reveal_strlit("Exists");
    reveal_strlit("InSubquery");
    reveal_strlit("Function");
    reveal_strlit("alias");
    reveal_strlit("expr");
    assert("Identifier"@.len() == 10);
    assert("Subquery"@.len() == 8);
    assert("Exists"@.len() == 6);
    assert("InSubquery"@.len() == 10);
    assert("Function"@.len() == 8);
    assert("alias"@.len() == 5);
    assert("expr"@.len() == 4);
    assert("Identifier"@[1] != "InSubquery"@[1]);
    assert("Subquery"@[0] != "Function"@[0]);
    reveal_with_fuel(first_field, 3);
    reveal_with_fuel(fields_hold_aggregate, 2);
    assert(is_column(column));
    assert(holds_ungrouped(column, grouped, false));
    assert(!crate::exprs::is_aggregate(column));
    let outer = column->Record_0;
    assert(outer.len() == 1 && outer[0].1 == ident);
    assert(!fields_hold_aggregate(outer, 0));
    assert(!fields_hold_aggregate(outer, 1));
    assert(!holds_aggregate(column, false));
    assert(needs_relaxation(column, grouped));
    let relaxed = relaxed_item(item, grouped);
    assert(relaxed == crate::query::aliased(crate::exprs::min_tree(column), ident));
    let x = payload(relaxed, "ExprWithAlias"@)->Some_0;
    assert(part(x, "expr"@) == crate::exprs::min_tree(column));
    lemma_call_is_no_condition(crate::exprs::min_tree(column));
}

/// A qualified column is known by the last part of its name.
pub proof fn columns_are_known_by_their_last_part(parts: Seq<Tree>, ident: Tree)
    requires
        parts.len() > 0,
    ensures
        implicit_alias(tagged("CompoundIdentifier"@, Tree::List(parts))) == parts.last(),
        implicit_alias(tagged("Identifier"@, ident)) == ident,
{
    reveal_strlit("Identifier");
    reveal_strlit("CompoundIdentifier");
    assert("Identifier"@.len() == 10);
    assert("CompoundIdentifier"@.len() == 18);
}

/// Whether a tree is an operator that compares or joins conditions.
pub open spec fn is_condition_operator(op: Tree) -> bool {
    op == Tree::Text("Eq"@) || op == Tree::Text("NotEq"@) || op == Tree::Text("Lt"@) || op == Tree::Text("LtEq"@) || op
        == Tree::Text("Gt"@) || op == Tree::Text("GtEq"@) || op == Tree::Text("And"@) || op == Tree::Text("Or"@)
}

/// Whether an expression is a condition, which MySQL returns as a number.
pub open spec fn is_condition(e: Tree) -> bool {
    ||| payload(e, "BinaryOp"@) is Some && is_condition_operator(part(payload(e, "BinaryOp"@)->Some_0, "op"@))
    ||| payload(e, "UnaryOp"@) is Some && part(payload(e, "UnaryOp"@)->Some_0, "op"@) == Tree::Text("Not"@)
    ||| payload(e, "IsNull"@) is Some
    ||| payload(e, "IsNotNull"@) is Some
    ||| payload(e, "Like"@) is Some
    ||| payload(e, "ILike"@) is Some
    ||| payload(e, "RLike"@) is Some
    ||| payload(e, "InList"@) is Some
    ||| payload(e, "InSubquery"@) is Some
    ||| payload(e, "Between"@) is Some
    ||| payload(e, "Exists"@) is Some
}

/// Whether a tree is CAST(e AS INT).
pub open spec fn is_int_of(t: Tree, e: Tree) -> bool {
    payload(t, "Cast"@) is Some && part(payload(t, "Cast"@)->Some_0, "expr"@) == e && payload(
        part(payload(t, "Cast"@)->Some_0, "data_type"@),
        "Int"@,
    ) is Some && part(payload(t, "Cast"@)->Some_0, "kind"@) == Tree::Text("Cast"@)
}

proof fn lemma_int(e: Tree)
    ensures
        is_int_of(crate::exprs::cast_to_int(e), e),
{
    reveal_with_fuel(first_field, 6);
    reveal_strlit("array");
    reveal_strlit("data_type");
    reveal_strlit("expr");
    reveal_strlit("format");
    reveal_strlit("kind");
    assert("array"@.len() == 5);
    assert("data_type"@.len() == 9);
    assert("expr"@.len() == 4);
    assert("format"@.len() == 6);
    assert("kind"@.len() == 4);
    assert("expr"@[0] != "kind"@[0]);
    let c = payload(crate::exprs::cast_to_int(e), "Cast"@)->Some_0;
    assert(part(c, "expr"@) == c->Record_0[2].1);
    assert(part(c, "data_type"@) == c->Record_0[1].1);
    assert(part(c, "kind"@) == c->Record_0[4].1);
}

/// A condition in a SELECT list comes out as a number, and keeps its alias. Arithmetic, columns
/// and calls stay as they are.
pub proof fn conditions_come_out_as_numbers(e: Tree, item: Tree)
    requires
        is_item_of(item, e),
    ensures
        is_condition(e) && item == tagged("UnnamedExpr"@, e) ==> payload(integerized_item(item), "UnnamedExpr"@) is Some
            && is_int_of(payload(integerized_item(item), "UnnamedExpr"@)->Some_0, e),
        is_condition(e) && payload(item, "ExprWithAlias"@) is Some && field(
            payload(item, "ExprWithAlias"@)->Some_0,
            "expr"@,
        ) is Some ==> {
            let x = payload(item, "ExprWithAlias"@)->Some_0;
            let y = payload(integerized_item(item), "ExprWithAlias"@)->Some_0;
            &&& payload(integerized_item(item), "ExprWithAlias"@) is Some
            &&& part(y, "alias"@) == part(x, "alias"@)
            &&& is_int_of(part(y, "expr"@), e)
        },
        payload(e, "BinaryOp"@) is Some && (part(payload(e, "BinaryOp"@)->Some_0, "op"@) == Tree::Text("Plus"@) || part(
            payload(e, "BinaryOp"@)->Some_0,
            "op"@,
        ) == Tree::Text("Minus"@) || part(payload(e, "BinaryOp"@)->Some_0, "op"@) == Tree::Text("Multiply"@) || part(
            payload(e, "BinaryOp"@)->Some_0,
            "op"@,
        ) == Tree::Text("Divide"@) || part(payload(e, "BinaryOp"@)->Some_0, "op"@) == Tree::Text("Modulo"@))
            ==> integerized_item(item) == item,
        payload(e, "Function"@) is Some || payload(e, "Identifier"@) is Some || payload(e, "CompoundIdentifier"@) is Some
            || payload(e, "Value"@) is Some || payload(e, "Case"@) is Some ==> integerized_item(item) == item,
{
    lemma_item(item, e);
    lemma_item_kinds();
    lemma_int(e);
    reveal_strlit("Function");
    reveal_strlit("BinaryOp");
    reveal_strlit("UnaryOp");
    reveal_strlit("IsNull");
    reveal_strlit("IsNotNull");
    reveal_strlit("Like");
    reveal_strlit("ILike");
    reveal_strlit("RLike");
    reveal_strlit("InList");
    reveal_strlit("InSubquery");
    reveal_strlit("Between");
    reveal_strlit("Exists");
    reveal_strlit("Identifier");
    reveal_strlit("CompoundIdentifier");
    reveal_strlit("Value");
    reveal_strlit("Case");
    assert("Function"@.len() == 8);
    assert("BinaryOp"@.len() == 8);
    assert("UnaryOp"@.len() == 7);
    assert("IsNull"@.len() == 6);
    assert("IsNotNull"@.len() == 9);
    assert("Like"@.len() == 4);
    assert("ILike"@.len() == 5);
    assert("RLike"@.len() == 5);
    assert("InList"@.len() == 6);
    assert("InSubquery"@.len() == 10);
    assert("Between"@.len() == 7);
    assert("Exists"@.len() == 6);
    assert("Identifier"@.len() == 10);
    assert("CompoundIdentifier"@.len() == 18);
    assert("Value"@.len() == 5);
    assert("Case"@.len() == 4);
    assert("Function"@[0] != "BinaryOp"@[0]);
    assert("UnaryOp"@[0] != "Between"@[0]);
    assert("IsNull"@[1] != "InList"@[1]);
    assert("IsNull"@[0] != "Exists"@[0]);
    assert("Like"@[0] != "Case"@[0]);
    assert("ILike"@[0] != "RLike"@[0]);
    assert("ILike"@[0] != "Value"@[0]);
    assert("RLike"@[0] != "Value"@[0]);
    assert("InList"@[0] != "Exists"@[0]);
    assert("InSubquery"@[1] != "Identifier"@[1]);
    reveal_strlit("Eq");
    reveal_strlit("NotEq");
    reveal_strlit("Lt");
    reveal_strlit("LtEq");
    reveal_strlit("Gt");
    reveal_strlit("GtEq");
    reveal_strlit("And");
    reveal_strlit("Or");
    reveal_strlit("Plus");
    reveal_strlit("Minus");
    reveal_strlit("Multiply");
    reveal_strlit("Divide");
    reveal_strlit("Modulo");
    reveal_strlit("Not");
    reveal_strlit("alias");
    reveal_strlit("expr");
    assert("Eq"@.len() == 2);
    assert("NotEq"@.len() == 5);
    assert("Lt"@.len() == 2);
    assert("LtEq"@.len() == 4);
    assert("Gt"@.len() == 2);
    assert("GtEq"@.len() == 4);
    assert("And"@.len() == 3);
    assert("Or"@.len() == 2);
    assert("Plus"@.len() == 4);
    assert("Minus"@.len() == 5);
    assert("Multiply"@.len() == 8);
    assert("Divide"@.len() == 6);
    assert("Modulo"@.len() == 6);
    assert("Not"@.len() == 3);
    assert("alias"@.len() == 5);
    assert("expr"@.len() == 4);
    assert("Eq"@[0] != "Lt"@[0]);
    assert("Eq"@[0] != "Gt"@[0]);
    assert("Eq"@[0] != "Or"@[0]);
    assert("NotEq"@[0] != "Minus"@[0]);
    assert("NotEq"@[0] != "alias"@[0]);
    assert("Lt"@[0] != "Gt"@[0]);
    assert("Lt"@[0] != "Or"@[0]);
    assert("LtEq"@[0] != "GtEq"@[0]);
    assert("LtEq"@[0] != "Plus"@[0]);
    assert("LtEq"@[0] != "expr"@[0]);
    assert("Gt"@[0] != "Or"@[0]);
    assert("GtEq"@[0] != "Plus"@[0]);
    assert("GtEq"@[0] != "expr"@[0]);
    assert("And"@[0] != "Not"@[0]);
    assert("Plus"@[0] != "expr"@[0]);
    assert("Minus"@[0] != "alias"@[0]);
    assert("Divide"@[0] != "Modulo"@[0]);
    if payload(item, "ExprWithAlias"@) is Some {
        let x = payload(item, "ExprWithAlias"@)->Some_0;
        changed_parts_are_read(x, "expr"@, crate::exprs::cast_to_int(e), "alias"@);
    }
}

/// An item keeps its alias, letter for letter, and it is put in double quotes, so that PostgreSQL
/// keeps its letters too.
pub proof fn aliases_keep_their_letters(x: Tree, derived: Seq<Seq<char>>)
    requires
        field(x, "alias"@) is Some,
        field(part(x, "alias"@), "quote_style"@) is Some,
    ensures
        ({
            let r = aligned_item(tagged("ExprWithAlias"@, x), derived);
            let alias = part(payload(r, "ExprWithAlias"@)->Some_0, "alias"@);
            &&& payload(r, "ExprWithAlias"@) is Some
            &&& part(alias, "value"@) == part(part(x, "alias"@), "value"@)
            &&& part(alias, "quote_style"@) == Tree::Text("\""@)
            &&& derived.len() == 0 ==> part(payload(r, "ExprWithAlias"@)->Some_0, "expr"@) == part(x, "expr"@)
        }),
{
    reveal_strlit("alias");
    reveal_strlit("expr");
    reveal_strlit("value");
    reveal_strlit("quote_style");
    assert("alias"@.len() == 5);
    assert("expr"@.len() == 4);
    assert("value"@.len() == 5);
    assert("quote_style"@.len() == 11);
    assert("alias"@[0] != "value"@[0]);
    let quoted = with_field(part(x, "alias"@), "quote_style"@, Tree::Text("\""@));
    changed_parts_are_read(part(x, "alias"@), "quote_style"@, Tree::Text("\""@), "value"@);
    changed_parts_are_read(x, "alias"@, quoted, "expr"@);
    let y = with_field(x, "alias"@, quoted);
    let e = crate::query::canonicalized(part(x, "expr"@), derived);
    changed_parts_are_read(y, "expr"@, e, "alias"@);
    if field(x, "expr"@) is None {
        assert(part(x, "expr"@) is Null);
    }
}

proof fn lemma_alias_named(aliases: Seq<Seq<char>>, name: Seq<char>, i: int)
    requires
        0 <= i,
    ensures
        crate::exprs::alias_named(aliases, name, i) matches Some(a) ==> aliases.contains(a) && lowered(a) == lowered(name),
        crate::exprs::alias_named(aliases, name, i) is None ==> forall|k: int|
            i <= k < aliases.len() ==> lowered(#[trigger] aliases[k]) != lowered(name),
    decreases aliases.len() - i,
{
    if i < aliases.len() {
        if lowered(aliases[i]) == lowered(name) {
            assert(aliases.contains(aliases[i]));
        } else {
            lemma_alias_named(aliases, name, i + 1);
        }
    }
}

/// A name that refers to an alias is written with the letters of the alias, in double quotes: it
/// differs in nothing but case. A name that refers to none, or is in double quotes already, stays.
pub proof fn references_follow_their_alias(ident: Tree, aliases: Seq<Seq<char>>)
    ensures
        ({
            let t = tagged("Identifier"@, ident);
            let r = canonical(t, aliases);
            let name = text_of(part(ident, "value"@));
            let quote = part(ident, "quote_style"@);
            &&& (forall|k: int| 0 <= k < aliases.len() ==> lowered(#[trigger] aliases[k]) != lowered(name)) ==> r == t
            &&& quote == Tree::Text("\""@) ==> r == t
            &&& r != t ==> exists|alias: Seq<char>| #[trigger]
                aliases.contains(alias) && lowered(alias) == lowered(name) && r == tagged(
                    "Identifier"@,
                    ident_tree(alias, Tree::Text("\""@)),
                )
            &&& (quote is Null || quote == Tree::Text("`"@)) && (exists|k: int|
                0 <= k < aliases.len() && lowered(#[trigger] aliases[k]) == lowered(name)) ==> exists|alias: Seq<char>| #[trigger]
                aliases.contains(alias) && lowered(alias) == lowered(name) && r == tagged(
                    "Identifier"@,
                    ident_tree(alias, Tree::Text("\""@)),
                )
        }),
{
    reveal_strlit("\"");
    reveal_strlit("`");
    assert("\""@[0] != "`"@[0]);
    let name = text_of(part(ident, "value"@));
    lemma_alias_named(aliases, name, 0);
}

/// CAST to a signed or unsigned number becomes a cast to BIGINT, and to CHAR a cast to TEXT, of
/// the same expression.
pub proof fn casts_keep_their_expression(c: Tree)
    requires
        field(c, "data_type"@) is Some,
    ensures
        ({
            let t = tagged("Cast"@, c);
            let v = crate::tree::variant(part(c, "data_type"@));
            let d = payload(cast_fixed(t), "Cast"@)->Some_0;
            &&& payload(cast_fixed(t), "Cast"@) is Some
            &&& part(d, "expr"@) == part(c, "expr"@)
            &&& part(d, "kind"@) == part(c, "kind"@)
            &&& v == "Signed"@ || v == "SignedInteger"@ || v == "Unsigned"@ || v == "UnsignedInteger"@ ==> payload(
                part(d, "data_type"@),
                "BigInt"@,
            ) is Some
            &&& v == "Char"@ ==> part(d, "data_type"@) == Tree::Text("Text"@)
            &&& v == "Decimal"@ || v == "Date"@ || v == "Datetime"@ || v == "Binary"@ || v == "JSON"@ ==> d == c
        }),
{
    reveal_strlit("data_type");
    reveal_strlit("expr");
    reveal_strlit("kind");
    reveal_strlit("Signed");
    reveal_strlit("SignedInteger");
    reveal_strlit("Unsigned");
    reveal_strlit("UnsignedInteger");
    reveal_strlit("Char");
    reveal_strlit("Decimal");
    reveal_strlit("Date");
    reveal_strlit("Datetime");
    reveal_strlit("Binary");
    reveal_strlit("JSON");
    assert("data_type"@.len() == 9);
    assert("expr"@.len() == 4);
    assert("kind"@.len() == 4);
    assert("Signed"@.len() == 6);
    assert("SignedInteger"@.len() == 13);
    assert("Unsigned"@.len() == 8);
    assert("UnsignedInteger"@.len() == 15);
    assert("Char"@.len() == 4);
    assert("Decimal"@.len() == 7);
    assert("Date"@.len() == 4);
    assert("Datetime"@.len() == 8);
    assert("Binary"@.len() == 6);
    assert("JSON"@.len() == 4);
    assert("expr"@[0] != "kind"@[0]);
    assert("expr"@[0] != "Char"@[0]);
    assert("expr"@[0] != "Date"@[0]);
    assert("expr"@[0] != "JSON"@[0]);
    assert("kind"@[0] != "Char"@[0]);
    assert("kind"@[0] != "Date"@[0]);
    assert("kind"@[0] != "JSON"@[0]);
    assert("Signed"@[0] != "Binary"@[0]);
    assert("Unsigned"@[0] != "Datetime"@[0]);
    assert("Char"@[0] != "Date"@[0]);
    assert("Char"@[0] != "JSON"@[0]);
    assert("Date"@[0] != "JSON"@[0]);
    let big = tagged("BigInt"@, Tree::Null);
    changed_parts_are_read(c, "data_type"@, big, "expr"@);
    changed_parts_are_read(c, "data_type"@, big, "kind"@);
    changed_parts_are_read(c, "data_type"@, Tree::Text("Text"@), "expr"@);
    changed_parts_are_read(c, "data_type"@, Tree::Text("Text"@), "kind"@);
}

/// Whether a tree is a call of IF of three plain arguments.
pub open spec fn is_if_of(t: Tree, a: Tree, b: Tree, c: Tree) -> bool {
    is_call(t, "if"@) && {
        let f = payload(t, "Function"@)->Some_0;
        let list = payload(part(f, "args"@), "List"@);
        &&& part(f, "over"@) is Null
        &&& list is Some
        &&& part(list->Some_0, "args"@) == Tree::List(
            seq![
                tagged("Unnamed"@, tagged("Expr"@, a)),
                tagged("Unnamed"@, tagged("Expr"@, b)),
                tagged("Unnamed"@, tagged("Expr"@, c)),
            ],
        )
    }
}

/// Whether a tree is CASE WHEN a THEN b ELSE c END.
pub open spec fn is_choice(t: Tree, a: Tree, b: Tree, c: Tree) -> bool {
    payload(t, "Case"@) is Some && {
        let body = payload(t, "Case"@)->Some_0;
        let arms = items(part(body, "conditions"@));
        &&& part(body, "operand"@) is Null
        &&& arms.len() == 1
        &&& part(arms[0], "condition"@) == a
        &&& part(arms[0], "result"@) == b
        &&& part(body, "else_result"@) == c
    }
}

proof fn lemma_case(a: Tree, b: Tree, c: Tree)
    ensures
        is_choice(crate::exprs::case_tree(a, b, c), a, b, c),
{
    reveal_with_fuel(first_field, 6);
    reveal_strlit("case_token");
    reveal_strlit("conditions");
    reveal_strlit("else_result");
    reveal_strlit("end_token");
    reveal_strlit("operand");
    reveal_strlit("condition");
    reveal_strlit("result");
    assert("case_token"@.len() == 10);
    assert("conditions"@.len() == 10);
    assert("else_result"@.len() == 11);
    assert("end_token"@.len() == 9);
    assert("operand"@.len() == 7);
    assert("condition"@.len() == 9);
    assert("result"@.len() == 6);
    assert("case_token"@[1] != "conditions"@[1]);
    assert("end_token"@[0] != "condition"@[0]);
    let body = payload(crate::exprs::case_tree(a, b, c), "Case"@)->Some_0;
    assert(part(body, "conditions"@) == body->Record_0[1].1);
    assert(part(body, "else_result"@) == body->Record_0[2].1);
    assert(part(body, "operand"@) == body->Record_0[4].1);
    let arm = items(part(body, "conditions"@))[0];
    assert(part(arm, "condition"@) == arm->Record_0[0].1);
    assert(part(arm, "result"@) == arm->Record_0[1].1);
}

/// IF keeps its meaning: it becomes a CASE with one arm, whose condition is the first argument
/// and whose result the second, and which else results in the third. Any other call stays.
pub proof fn conditionals_keep_their_meaning(t: Tree, a: Tree, b: Tree, c: Tree)
    ensures
        is_if_of(t, a, b, c) ==> is_choice(if_as_case(t), a, b, c),
        !(exists|x: Tree, y: Tree, z: Tree| is_if_of(t, x, y, z)) && !is_call(t, "if"@) ==> if_as_case(t) == t,
{
    if is_if_of(t, a, b, c) {
        let f = payload(t, "Function"@)->Some_0;
        let args = items(part(payload(part(f, "args"@), "List"@)->Some_0, "args"@));
        assert(args.len() == 3);
        assert(crate::exprs::plain_argument(args[0]) == Some(a));
        assert(crate::exprs::plain_argument(args[1]) == Some(b));
        assert(crate::exprs::plain_argument(args[2]) == Some(c));
        lemma_case(a, b, c);
    }
}

/// Whether a result of a CASE is another one, or that one as text.
pub open spec fn is_same_or_text(t: Tree, e: Tree) -> bool {
    t == e || (payload(t, "Cast"@) is Some && part(payload(t, "Cast"@)->Some_0, "expr"@) == e && part(
        payload(t, "Cast"@)->Some_0,
        "data_type"@,
    ) == Tree::Text("Text"@) && is_number(e))
}

proof fn lemma_text_or_same(e: Tree)
    ensures
        is_same_or_text(crate::exprs::number_as_text(e), e),
{
    reveal_with_fuel(first_field, 6);
    reveal_strlit("array");
    reveal_strlit("data_type");
    reveal_strlit("expr");
    reveal_strlit("format");
    reveal_strlit("kind");
    assert("array"@.len() == 5);
    assert("data_type"@.len() == 9);
    assert("expr"@.len() == 4);
    assert("format"@.len() == 6);
    assert("kind"@.len() == 4);
    assert("expr"@[0] != "kind"@[0]);
    let c = payload(crate::exprs::cast_to_text(e), "Cast"@)->Some_0;
    assert(part(c, "expr"@) == c->Record_0[2].1);
    assert(part(c, "data_type"@) == c->Record_0[1].1);
}

/// A CASE keeps its arms, in order, with their conditions; a result changes at most in that a
/// number is cast to text.
pub proof fn choices_keep_their_arms(body: Tree, i: int)
    requires
        part(body, "conditions"@) is List,
        0 <= i < items(part(body, "conditions"@)).len(),
        field(body, "else_result"@) is Some,
        field(items(part(body, "conditions"@))[i], "result"@) is Some,
    ensures
        ({
            let t = tagged("Case"@, body);
            let r = payload(branches_unified(t), "Case"@)->Some_0;
            let before = items(part(body, "conditions"@));
            let after = items(part(r, "conditions"@));
            &&& payload(branches_unified(t), "Case"@) is Some
            &&& after.len() == before.len()
            &&& part(after[i], "condition"@) == part(before[i], "condition"@)
            &&& is_same_or_text(part(after[i], "result"@), part(before[i], "result"@))
            &&& is_same_or_text(part(r, "else_result"@), part(body, "else_result"@))
            &&& part(r, "operand"@) == part(body, "operand"@)
        }),
{
    reveal_strlit("conditions");
    reveal_strlit("else_result");
    reveal_strlit("operand");
    reveal_strlit("condition");
    reveal_strlit("result");
    assert("conditions"@.len() == 10);
    assert("else_result"@.len() == 11);
    assert("operand"@.len() == 7);
    assert("condition"@.len() == 9);
    assert("result"@.len() == 6);
    let arms = part(body, "conditions"@);
    let before = items(arms);
    let list = mapped_list(arms, |w: Tree| crate::exprs::arm_as_text(w));
    let other = crate::exprs::number_as_text(part(body, "else_result"@));
    lemma_text_or_same(part(body, "else_result"@));
    lemma_text_or_same(part(before[i], "result"@));
    changed_parts_are_read(body, "conditions"@, list, "else_result"@);
    changed_parts_are_read(body, "conditions"@, list, "operand"@);
    let one = with_field(body, "conditions"@, list);
    changed_parts_are_read(one, "else_result"@, other, "conditions"@);
    changed_parts_are_read(one, "else_result"@, other, "operand"@);
    changed_parts_are_read(
        before[i],
        "result"@,
        crate::exprs::number_as_text(part(before[i], "result"@)),
        "condition"@,
    );
    assert(items(list)[i] == crate::exprs::arm_as_text(before[i]));
    assert(field(body, "conditions"@) is Some);
}

/// A query keeps the items of its SELECT list, in order and in number, and everything else that
/// the SELECT says.
pub proof fn select_lists_keep_their_items(q: Tree, s: Tree, i: int, key: Seq<char>)
    requires
        field(q, "body"@) is Some,
        part(q, "body"@) == tagged("Select"@, s),
        field(s, "projection"@) is Some,
        part(s, "projection"@) is List,
        0 <= i < items(part(s, "projection"@)).len(),
        key != "projection"@,
    ensures
        ({
            let r = payload(part(projection_fixed(q), "body"@), "Select"@)->Some_0;
            let before = items(part(s, "projection"@));
            let after = items(part(r, "projection"@));
            &&& payload(part(projection_fixed(q), "body"@), "Select"@) is Some
            &&& after.len() == before.len()
            &&& after[i] == fixed_item(before[i], grouped(s))
            &&& part(r, key) == part(s, key)
        }),
{
    let list = mapped_list(part(s, "projection"@), |t: Tree| fixed_item(t, grouped(s)));
    changed_parts_are_read(s, "projection"@, list, key);
    let t = with_field(s, "projection"@, list);
    changed_parts_are_read(q, "body"@, tagged("Select"@, t), "body"@);
    assert(select_of(q) == Some(s));
    assert(items(list)[i] == fixed_item(items(part(s, "projection"@))[i], grouped(s)));
}

/// A query groups on what its GROUP BY says, one expression after the other; ROLLUP, CUBE and
/// GROUPING SETS group on their arguments.
pub proof fn groups_are_what_is_grouped_on(e: Tree, a: Tree, b: Tree, exprs: Seq<Tree>, n: int)
    requires
        0 < n <= exprs.len(),
    ensures
        payload(e, "Function"@) is None ==> groups_on(e) == seq![e],
        is_rollup_of(e, a, b) ==> groups_on(e) == seq![a, b],
        all_group_on(exprs, n) == all_group_on(exprs, n - 1) + groups_on(exprs[n - 1]),
        all_group_on(exprs, 0).len() == 0,
{
    if is_rollup_of(e, a, b) {
        let f = payload(e, "Function"@)->Some_0;
        let args = items(part(payload(part(f, "args"@), "List"@)->Some_0, "args"@));
        assert(args.len() == 2);
        assert(crate::exprs::plain_argument(args[0]) == Some(a));
        assert(crate::exprs::plain_argument(args[1]) == Some(b));
        reveal_with_fuel(crate::query::plain_arguments, 3);
        assert(groups_on(e) =~= seq![a, b]);
    }
}

/// Whether a tree is ROLLUP or CUBE of two expressions.
pub open spec fn is_rollup_of(t: Tree, a: Tree, b: Tree) -> bool {
    (is_call(t, "rollup"@) || is_call(t, "cube"@)) && {
        let f = payload(t, "Function"@)->Some_0;
        let list = payload(part(f, "args"@), "List"@);
        &&& list is Some
        &&& part(list->Some_0, "args"@) == Tree::List(
            seq![tagged("Unnamed"@, tagged("Expr"@, a)), tagged("Unnamed"@, tagged("Expr"@, b))],
        )
    }
}

/// An item whose alias is grouped on, and an item that is grouped on itself, are not wrapped.
pub proof fn grouped_items_are_not_wrapped(item: Tree, e: Tree, grouped: Seq<Tree>, ident: Tree, alias: Tree)
    requires
        is_item_of(item, e),
    ensures
        grouped.contains(e) ==> relaxed_item(item, grouped) == item,
        payload(item, "ExprWithAlias"@) is Some && part(payload(item, "ExprWithAlias"@)->Some_0, "alias"@) == alias
            && grouped.contains(tagged("Identifier"@, ident)) && same_ignoring_case(
            text_of(part(ident, "value"@)),
            text_of(part(alias, "value"@)),
        ) ==> relaxed_item(item, grouped) == item,
{
    lemma_item(item, e);
    if grouped.contains(tagged("Identifier"@, ident)) {
        let i = choose|i: int| 0 <= i < grouped.len() && grouped[i] == tagged("Identifier"@, ident);
        assert(payload(grouped[i], "Identifier"@) == Some(ident));
        if same_ignoring_case(text_of(part(ident, "value"@)), text_of(part(alias, "value"@))) {
            assert(alias_grouped(text_of(part(alias, "value"@)), grouped));
        }
    }
}

/// What a query is sorted by stays where it is grouped on or names an item of the SELECT list,
/// and keeps its direction in any case.
pub proof fn sort_terms_keep_their_direction(o: Tree, grouped: Seq<Tree>, names: Seq<Seq<char>>, i: int, key: Seq<char>)
    ensures
        key != "expr"@ ==> part(relaxed_term(o, grouped, names), key) == part(o, key),
        grouped.contains(part(o, "expr"@)) ==> relaxed_term(o, grouped, names) == o,
        payload(part(o, "expr"@), "Identifier"@) is Some && 0 <= i < names.len() && same_ignoring_case(
            names[i],
            text_of(part(payload(part(o, "expr"@), "Identifier"@)->Some_0, "value"@)),
        ) ==> relaxed_term(o, grouped, names) == o,
        relaxed_term(o, grouped, names) != o && field(o, "expr"@) is Some ==> is_min_of(
            part(relaxed_term(o, grouped, names), "expr"@),
            part(o, "expr"@),
        ),
        key != "expr"@ ==> part(aligned_term(o, names), key) == part(o, key),
{
    lemma_min(part(o, "expr"@));
    changed_parts_are_read(o, "expr"@, crate::exprs::min_tree(part(o, "expr"@)), key);
    changed_parts_are_read(o, "expr"@, crate::query::canonicalized(part(o, "expr"@), names), key);
    if payload(part(o, "expr"@), "Identifier"@) is Some && 0 <= i < names.len() && same_ignoring_case(
        names[i],
        text_of(part(payload(part(o, "expr"@), "Identifier"@)->Some_0, "value"@)),
    ) {
        assert(names_output(part(o, "expr"@), names));
    }
}

/// A pass over expressions leaves texts, numbers and null as they are, and lists and records with
/// as many parts as they had, under the same names.
pub proof fn passes_keep_the_shape(pass: PassKind, t: Tree, bare: bool, fields: Seq<(Seq<char>, Tree)>, i: int)
    ensures
        !(t is List) && !(t is Record) ==> passed_over(pass, t, bare) == t,
        t is List ==> passed_over(pass, t, bare) is List && items(passed_over(pass, t, bare)).len() == items(t).len(),
        t is List && 0 <= i < items(t).len() ==> items(passed_over(pass, t, bare))[i] == passed_over(
            pass,
            items(t)[i],
            bare,
        ),
        t == Tree::Record(fields) && bare ==> passed_over(pass, t, bare) is Record && passed_over(
            pass,
            t,
            bare,
        )->Record_0.len() == fields.len(),
        t == Tree::Record(fields) && bare && 0 <= i < fields.len() ==> passed_over(pass, t, bare)->Record_0[i].0
            == fields[i].0,
{
}

/// A choice between a text and a number becomes a choice between texts.
pub proof fn mixed_choices_become_texts(body: Tree, text: Tree, number: Tree)
    requires
        part(body, "conditions"@) is List,
        items(part(body, "conditions"@)).len() == 1,
        field(body, "else_result"@) is Some,
        field(items(part(body, "conditions"@))[0], "result"@) is Some,
        payload(text, "Value"@) is Some,
        payload(part(payload(text, "Value"@)->Some_0, "value"@), "SingleQuotedString"@) is Some,
        payload(number, "Value"@) is Some,
        payload(part(payload(number, "Value"@)->Some_0, "value"@), "Number"@) is Some,
    ensures
        part(items(part(body, "conditions"@))[0], "result"@) == text && part(body, "else_result"@) == number ==> part(
            payload(branches_unified(tagged("Case"@, body)), "Case"@)->Some_0,
            "else_result"@,
        ) == crate::exprs::cast_to_text(number),
        part(items(part(body, "conditions"@))[0], "result"@) == number && part(body, "else_result"@) == text ==> part(
            items(part(payload(branches_unified(tagged("Case"@, body)), "Case"@)->Some_0, "conditions"@))[0],
            "result"@,
        ) == crate::exprs::cast_to_text(number),
        part(items(part(body, "conditions"@))[0], "result"@) == text && part(body, "else_result"@) == text
            ==> branches_unified(tagged("Case"@, body)) == tagged("Case"@, body),
        part(items(part(body, "conditions"@))[0], "result"@) == number && part(body, "else_result"@) == number
            ==> branches_unified(tagged("Case"@, body)) == tagged("Case"@, body),
{
    reveal_strlit("conditions");
    reveal_strlit("else_result");
    reveal_strlit("condition");
    reveal_strlit("result");
    reveal_strlit("Value");
    reveal_strlit("Nested");
    reveal_strlit("UnaryOp");
    reveal_strlit("Substring");
    reveal_strlit("Trim");
    reveal_strlit("Function");
    reveal_strlit("SingleQuotedString");
    reveal_strlit("DoubleQuotedString");
    reveal_strlit("Number");
    assert("conditions"@.len() == 10);
    assert("else_result"@.len() == 11);
    assert("condition"@.len() == 9);
    assert("result"@.len() == 6);
    assert("Value"@.len() == 5);
    assert("Nested"@.len() == 6);
    assert("UnaryOp"@.len() == 7);
    assert("Substring"@.len() == 9);
    assert("Trim"@.len() == 4);
    assert("Function"@.len() == 8);
    assert("SingleQuotedString"@.len() == 18);
    assert("DoubleQuotedString"@.len() == 18);
    assert("Number"@.len() == 6);
    assert("condition"@[0] != "Substring"@[0]);
    assert("result"@[0] != "Nested"@[0]);
    assert("result"@[0] != "Number"@[0]);
    assert("Nested"@[1] != "Number"@[1]);
    assert("SingleQuotedString"@[0] != "DoubleQuotedString"@[0]);
    assert(crate::exprs::is_text(text) && !crate::exprs::is_text(number));
    assert(is_number(number) && !is_number(text));
    let arms = part(body, "conditions"@);
    let before = items(arms);
    let list = mapped_list(arms, |w: Tree| crate::exprs::arm_as_text(w));
    let other = crate::exprs::number_as_text(part(body, "else_result"@));
    changed_parts_are_read(body, "conditions"@, list, "else_result"@);
    let one = with_field(body, "conditions"@, list);
    changed_parts_are_read(one, "else_result"@, other, "conditions"@);
    changed_parts_are_read(
        before[0],
        "result"@,
        crate::exprs::number_as_text(part(before[0], "result"@)),
        "condition"@,
    );
    assert(items(list)[0] == crate::exprs::arm_as_text(before[0]));
    assert(field(body, "conditions"@) is Some);
    assert(is_number(part(before[0], "result"@)) ==> crate::exprs::any_number_result(before, part(body, "else_result"@)));
    assert(crate::exprs::is_text(part(before[0], "result"@)) ==> crate::exprs::any_text_result(
        before,
        part(body, "else_result"@),
    ));
}

/// A qualified column that a grouped query neither groups on nor aggregates becomes the minimum of
/// that column too, and is known under the last part of its name.
pub proof fn qualified_columns_become_minima(table: Seq<char>, value: Seq<char>, grouped: Seq<Tree>)
    requires
        grouped.len() > 0,
        !grouped.contains(
            tagged(
                "CompoundIdentifier"@,
                Tree::List(seq![ident_tree(table, Tree::Null), ident_tree(value, Tree::Null)]),
            ),
        ),
    ensures
        ({
            let column = tagged(
                "CompoundIdentifier"@,
                Tree::List(seq![ident_tree(table, Tree::Null), ident_tree(value, Tree::Null)]),
            );
            let r = fixed_item(tagged("UnnamedExpr"@, column), grouped);
            &&& payload(r, "ExprWithAlias"@) is Some
            &&& part(payload(r, "ExprWithAlias"@)->Some_0, "alias"@) == ident_tree(value, Tree::Null)
            &&& is_min_of(part(payload(r, "ExprWithAlias"@)->Some_0, "expr"@), column)
        }),
{
    let a = ident_tree(table, Tree::Null);
    let b = ident_tree(value, Tree::Null);
    let parts = Tree::List(seq![a, b]);
    let column = tagged("CompoundIdentifier"@, parts);
    let item = tagged("UnnamedExpr"@, column);
    lemma_item_kinds();
    lemma_item(item, column);
    lemma_min(column);
    lemma_ident_holds_nothing(table, Tree::Null, false);
    lemma_ident_holds_nothing(table, Tree::Null, true);
    lemma_ident_holds_nothing(value, Tree::Null, false);
    lemma_ident_holds_nothing(value, Tree::Null, true);
    columns_are_known_by_their_last_part(seq![a, b], a);
    reveal_strlit("Identifier");
    reveal_strlit("CompoundIdentifier");
    reveal_strlit("Subquery");
    reveal_strlit("Exists");
    reveal_strlit("InSubquery");
    reveal_strlit("Function");
    reveal_strlit("alias");
    reveal_strlit("expr");
    assert("Identifier"@.len() == 10);
    assert("CompoundIdentifier"@.len() == 18);
    assert("Subquery"@.len() == 8);
    assert("Exists"@.len() == 6);
    assert("InSubquery"@.len() == 10);
    assert("Function"@.len() == 8);
    assert("alias"@.len() == 5);
    assert("expr"@.len() == 4);
    assert("Identifier"@[1] != "InSubquery"@[1]);
    assert("Subquery"@[0] != "Function"@[0]);
    reveal_with_fuel(first_field, 3);
    reveal_with_fuel(fields_hold_aggregate, 2);
    reveal_with_fuel(crate::exprs::items_hold_aggregate, 3);
    assert(is_column(column));
    assert(holds_ungrouped(column, grouped, false));
    assert(!crate::exprs::is_aggregate(column));
    let list = seq![a, b];
    assert(!crate::exprs::items_hold_aggregate(list, false, 0) && !crate::exprs::items_hold_aggregate(list, true, 0));
    assert(!crate::exprs::items_hold_aggregate(list, false, 1) && !crate::exprs::items_hold_aggregate(list, true, 1));
    assert(!crate::exprs::items_hold_aggregate(list, false, 2) && !crate::exprs::items_hold_aggregate(list, true, 2));
    assert(!holds_aggregate(parts, false) && !holds_aggregate(parts, true));
    let outer = column->Record_0;
    assert(outer.len() == 1 && outer[0].1 == parts);
    assert(!fields_hold_aggregate(outer, 0));
    assert(!fields_hold_aggregate(outer, 1));
    assert(!holds_aggregate(column, false));
    assert(needs_relaxation(column, grouped));
    let relaxed = relaxed_item(item, grouped);
    assert(relaxed == crate::query::aliased(crate::exprs::min_tree(column), b));
    lemma_call_is_no_condition(crate::exprs::min_tree(column));
}

/// What a function of texts returns is text, and so is a string, and a number is a number with or
/// without a sign.
pub proof fn texts_are_told_from_numbers(e: Tree, u: Tree)
    ensures
        is_call(e, "substring"@) || is_call(e, "substr"@) || is_call(e, "concat"@) || is_call(e, "concat_ws"@) || is_call(e, "left"@) || is_call(e, "right"@) || is_call(e, "trim"@) || is_call(e, "ltrim"@) || is_call(e, "rtrim"@) || is_call(e, "lower"@) || is_call(e, "upper"@) || is_call(e, "replace"@) || is_call(e, "lpad"@) || is_call(e, "rpad"@) || is_call(e, "md5"@) || is_call(e, "sha1"@) || is_call(e, "sha2"@) || is_call(e, "hex"@) ==> crate::exprs::is_text(e),
        payload(e, "Substring"@) is Some || payload(e, "Trim"@) is Some ==> crate::exprs::is_text(e),
        is_call(e, "count"@) || is_call(e, "sum"@) || is_call(e, "abs"@) ==> !crate::exprs::is_text(e),
        payload(e, "Value"@) is Some && payload(part(payload(e, "Value"@)->Some_0, "value"@), "Number"@) is Some
            ==> is_number(e),
        payload(u, "UnaryOp"@) is Some && field(payload(u, "UnaryOp"@)->Some_0, "expr"@) == Some(e) && is_number(e) && part(
            payload(u, "UnaryOp"@)->Some_0,
            "op"@,
        ) == Tree::Text("Minus"@) ==> is_number(u),
        payload(e, "Identifier"@) is Some ==> !is_number(e) && !crate::exprs::is_text(e),
{
    reveal_strlit("Nested");
    reveal_strlit("Value");
    reveal_strlit("Substring");
    reveal_strlit("Trim");
    reveal_strlit("Function");
    reveal_strlit("UnaryOp");
    reveal_strlit("Identifier");
    assert("Nested"@.len() == 6);
    assert("Value"@.len() == 5);
    assert("Substring"@.len() == 9);
    assert("Trim"@.len() == 4);
    assert("Function"@.len() == 8);
    assert("UnaryOp"@.len() == 7);
    assert("Identifier"@.len() == 10);
    reveal_strlit("substring");
    reveal_strlit("substr");
    reveal_strlit("concat");
    reveal_strlit("concat_ws");
    reveal_strlit("left");
    reveal_strlit("right");
    reveal_strlit("trim");
    reveal_strlit("ltrim");
    reveal_strlit("rtrim");
    reveal_strlit("lower");
    reveal_strlit("upper");
    reveal_strlit("replace");
    reveal_strlit("lpad");
    reveal_strlit("rpad");
    reveal_strlit("md5");
    reveal_strlit("sha1");
    reveal_strlit("sha2");
    reveal_strlit("hex");
    reveal_strlit("count");
    reveal_strlit("sum");
    reveal_strlit("abs");
    assert("substring"@.len() == 9);
    assert("substr"@.len() == 6);
    assert("concat"@.len() == 6);
    assert("concat_ws"@.len() == 9);
    assert("left"@.len() == 4);
    assert("right"@.len() == 5);
    assert("trim"@.len() == 4);
    assert("ltrim"@.len() == 5);
    assert("rtrim"@.len() == 5);
    assert("lower"@.len() == 5);
    assert("upper"@.len() == 5);
    assert("replace"@.len() == 7);
    assert("lpad"@.len() == 4);
    assert("rpad"@.len() == 4);
    assert("md5"@.len() == 3);
    assert("sha1"@.len() == 4);
    assert("sha2"@.len() == 4);
    assert("hex"@.len() == 3);
    assert("count"@.len() == 5);
    assert("sum"@.len() == 3);
    assert("abs"@.len() == 3);
    assert("substring"@[0] != "concat_ws"@[0]);
    assert("substr"@[0] != "concat"@[0]);
    assert("left"@[0] != "trim"@[0]);
    assert("left"@[1] != "lpad"@[1]);
    assert("left"@[0] != "rpad"@[0]);
    assert("left"@[0] != "sha1"@[0]);
    assert("left"@[0] != "sha2"@[0]);
    assert("right"@[0] != "ltrim"@[0]);
    assert("right"@[1] != "rtrim"@[1]);
    assert("right"@[0] != "lower"@[0]);
    assert("right"@[0] != "upper"@[0]);
    assert("right"@[0] != "count"@[0]);
    assert("trim"@[0] != "lpad"@[0]);
    assert("trim"@[0] != "rpad"@[0]);
    assert("trim"@[0] != "sha1"@[0]);
    assert("trim"@[0] != "sha2"@[0]);
    assert("ltrim"@[0] != "rtrim"@[0]);
    assert("ltrim"@[1] != "lower"@[1]);
    assert("ltrim"@[0] != "upper"@[0]);
    assert("ltrim"@[0] != "count"@[0]);
    assert("rtrim"@[0] != "lower"@[0]);
    assert("rtrim"@[0] != "upper"@[0]);
    assert("rtrim"@[0] != "count"@[0]);
    assert("lower"@[0] != "upper"@[0]);
    assert("lower"@[0] != "count"@[0]);
    assert("upper"@[0] != "count"@[0]);
    assert("lpad"@[0] != "rpad"@[0]);
    assert("lpad"@[0] != "sha1"@[0]);
    assert("lpad"@[0] != "sha2"@[0]);
    assert("rpad"@[0] != "sha1"@[0]);
    assert("rpad"@[0] != "sha2"@[0]);
    assert("md5"@[0] != "hex"@[0]);
    assert("md5"@[0] != "sum"@[0]);
    assert("md5"@[0] != "abs"@[0]);
    assert("sha1"@[3] != "sha2"@[3]);
    assert("hex"@[0] != "sum"@[0]);
    assert("hex"@[0] != "abs"@[0]);
    assert("sum"@[0] != "abs"@[0]);
    reveal_strlit("Number");
    reveal_strlit("SingleQuotedString");
    reveal_strlit("DoubleQuotedString");
    assert("Number"@.len() == 6);
    assert("SingleQuotedString"@.len() == 18);
    assert("DoubleQuotedString"@.len() == 18);
    assert("SingleQuotedString"@[0] != "DoubleQuotedString"@[0]);
}

} // verus!
