//! Expressions in syntax trees: how they are recognised, built and walked.
//!
//! The functions here speak of trees without source positions (see
//! [`without_positions`]), so that two expressions written alike are equal.
use vstd::prelude::*;

use crate::names::{ident_of_part, ident_value, part_ident, value_of_ident};
use crate::text::{eq_ignore_case, lowered, opt_text, same, same_ignoring_case, texts, to_lower};
use crate::tree::{
    field, first_field, group_trees, inner, is_unit, items, opt_tree, pairs, part, payload, present,
    push_node, put, same_tree, single, tag, tagged, text_node, trees, variant, with_field, Field,
    Node, Tree,
};

verus! {

/// The items of a list, each mapped.
pub open spec fn mapped_items(list: Seq<Tree>, f: spec_fn(Tree) -> Tree) -> Seq<Tree> {
    Seq::new(list.len(), |i: int| f(list[i]))
}

/// Maps each item of a list; anything but a list stays as it is.
pub open spec fn mapped_list(t: Tree, f: spec_fn(Tree) -> Tree) -> Tree {
    match t {
        Tree::List(v) => Tree::List(mapped_items(v, f)),
        _ => t,
    }
}

/// A location that stands for no location.
pub open spec fn no_location() -> Tree {
    Tree::Record(seq![("column"@, Tree::Number("0"@)), ("line"@, Tree::Number("0"@))])
}

/// A span that stands for no span.
pub open spec fn no_span() -> Tree {
    Tree::Record(seq![("end"@, no_location()), ("start"@, no_location())])
}

/// A token that stands for no token.
pub open spec fn no_token() -> Tree {
    Tree::Record(seq![("span"@, no_span()), ("token"@, Tree::Text("EOF"@))])
}

fn location_node() -> (r: Node)
    ensures
        r.tree() == no_location(),
{
    broadcast use group_trees;
    let mut f: Vec<Field> = Vec::new();
    put(&mut f, "column", Node::Number("0".to_string()));
    put(&mut f, "line", Node::Number("0".to_string()));
    assert(pairs(f@) =~= no_location()->Record_0);
    Node::Record(f)
}

fn span_node() -> (r: Node)
    ensures
        r.tree() == no_span(),
{
    broadcast use group_trees;
    let mut f: Vec<Field> = Vec::new();
    put(&mut f, "end", location_node());
    put(&mut f, "start", location_node());
    assert(pairs(f@) =~= no_span()->Record_0);
    Node::Record(f)
}

fn token_node() -> (r: Node)
    ensures
        r.tree() == no_token(),
{
    broadcast use group_trees;
    let mut f: Vec<Field> = Vec::new();
    put(&mut f, "span", span_node());
    put(&mut f, "token", text_node("EOF"));
    assert(pairs(f@) =~= no_token()->Record_0);
    Node::Record(f)
}

/// Whether a record is a token with its position, as the parser attaches them to
/// keywords.
pub open spec fn is_attached_token(t: Tree) -> bool {
    field(t, "token"@) is Some && field(t, "span"@) is Some
}

/// A tree without the positions of its parts in the source text.
pub open spec fn without_positions(t: Tree) -> Tree
    decreases t,
{
    match t {
        Tree::List(v) => Tree::List(
            Seq::new(
                v.len(),
                |i: int|
                    if 0 <= i < v.len() {
                        without_positions(v[i])
                    } else {
                        Tree::Null
                    },
            ),
        ),
        Tree::Record(fields) => if is_attached_token(t) {
            no_token()
        } else {
            Tree::Record(
                Seq::new(
                    fields.len(),
                    |i: int|
                        if 0 <= i < fields.len() && fields[i].0 != "span"@ {
                            (fields[i].0, without_positions(fields[i].1))
                        } else {
                            ("span"@, no_span())
                        },
                ),
            )
        },
        _ => t,
    }
}

/// Drops the positions of a tree's parts in the source text.
#[verifier::loop_isolation(false)]
pub fn drop_positions(n: &Node) -> (r: Node)
    ensures
        r.tree() == without_positions(n.tree()),
    decreases n,
{
    broadcast use group_trees;
    match n {
        Node::List(v) => {
            let mut out: Vec<Node> = Vec::new();
            let mut i: usize = 0;
            let ghost want = without_positions(n.tree())->List_0;
            while i < v.len()
                invariant
                    *n == Node::List(*v),
                    i <= v@.len(),
                    want.len() == v@.len(),
                    forall|j: int| 0 <= j < v@.len() ==> #[trigger] want[j] == without_positions(v@[j].tree()),
                    trees(out@) =~= want.take(i as int),
                decreases v.len() - i,
            {
                assert(decreases_to!(*v => v[i as int]));
                push_node(&mut out, drop_positions(&v[i]));
                i = i + 1;
                assert(trees(out@) =~= want.take(i as int));
            }
            assert(trees(out@) =~= want);
            Node::List(out)
        },
        Node::Record(fields) => {
            if n.field("token").is_some() && n.field("span").is_some() {
                return token_node();
            }
            let mut out: Vec<Field> = Vec::new();
            let mut i: usize = 0;
            let ghost want = without_positions(n.tree())->Record_0;
            while i < fields.len()
                invariant
                    *n == Node::Record(*fields),
                    i <= fields@.len(),
                    want.len() == fields@.len(),
                    forall|j: int|
                        0 <= j < fields@.len() ==> #[trigger] want[j] == (if fields@[j].key@ != "span"@ {
                            (fields@[j].key@, without_positions(fields@[j].value.tree()))
                        } else {
                            ("span"@, no_span())
                        }),
                    pairs(out@) =~= want.take(i as int),
                decreases fields.len() - i,
            {
                assert(decreases_to!(*fields => fields[i as int]));
                if same(fields[i].key.as_str(), "span") {
                    put(&mut out, "span", span_node());
                } else {
                    put(&mut out, fields[i].key.as_str(), drop_positions(&fields[i].value));
                }
                i = i + 1;
                assert(pairs(out@) =~= want.take(i as int));
            }
            assert(pairs(out@) =~= want);
            Node::Record(out)
        },
        _ => n.copy(),
    }
}

/// An identifier without a position.
pub open spec fn ident_tree(value: Seq<char>, quote: Tree) -> Tree {
    Tree::Record(seq![("quote_style"@, quote), ("span"@, no_span()), ("value"@, Tree::Text(value))])
}

/// Builds an identifier, quoted or not.
pub fn ident_node(value: &str, quoted: bool) -> (r: Node)
    ensures
        r.tree() == ident_tree(
            value@,
            if quoted {
                Tree::Text("\""@)
            } else {
                Tree::Null
            },
        ),
{
    broadcast use group_trees;
    let mut f: Vec<Field> = Vec::new();
    let quote = if quoted {
        text_node("\"")
    } else {
        Node::Null
    };
    let ghost q = quote.tree();
    put(&mut f, "quote_style", quote);
    put(&mut f, "span", span_node());
    put(&mut f, "value", text_node(value));
    assert(pairs(f@) =~= seq![("quote_style"@, q), ("span"@, no_span()), ("value"@, Tree::Text(value@))]);
    Node::Record(f)
}

/// `CAST(expr AS type)`.
pub open spec fn cast_tree(expr: Tree, data_type: Tree) -> Tree {
    tagged(
        "Cast"@,
        Tree::Record(
            seq![
                ("array"@, Tree::Bool(false)),
                ("data_type"@, data_type),
                ("expr"@, expr),
                ("format"@, Tree::Null),
                ("kind"@, Tree::Text("Cast"@)),
            ],
        ),
    )
}

pub fn cast_node(expr: Node, data_type: Node) -> (r: Node)
    ensures
        r.tree() == cast_tree(expr.tree(), data_type.tree()),
{
    broadcast use group_trees;
    let ghost e = expr.tree();
    let ghost d = data_type.tree();
    let mut f: Vec<Field> = Vec::new();
    put(&mut f, "array", Node::Bool(false));
    put(&mut f, "data_type", data_type);
    put(&mut f, "expr", expr);
    put(&mut f, "format", Node::Null);
    put(&mut f, "kind", text_node("Cast"));
    assert(pairs(f@) =~= inner(cast_tree(e, d))->Record_0);
    tag("Cast", Node::Record(f))
}

/// `CAST(expr AS TEXT)`.
pub open spec fn cast_to_text(expr: Tree) -> Tree {
    cast_tree(expr, Tree::Text("Text"@))
}

/// `CAST(expr AS INT)`.
pub open spec fn cast_to_int(expr: Tree) -> Tree {
    cast_tree(expr, tagged("Int"@, Tree::Null))
}

/// `CASE WHEN condition THEN then ELSE otherwise END`.
pub open spec fn case_tree(condition: Tree, then_result: Tree, otherwise: Tree) -> Tree {
    tagged(
        "Case"@,
        Tree::Record(
            seq![
                ("case_token"@, no_token()),
                (
                    "conditions"@,
                    Tree::List(
                        seq![Tree::Record(seq![("condition"@, condition), ("result"@, then_result)])],
                    ),
                ),
                ("else_result"@, otherwise),
                ("end_token"@, no_token()),
                ("operand"@, Tree::Null),
            ],
        ),
    )
}

pub fn case_node(condition: Node, then_result: Node, otherwise: Node) -> (r: Node)
    ensures
        r.tree() == case_tree(condition.tree(), then_result.tree(), otherwise.tree()),
{
    broadcast use group_trees;
    let ghost a = condition.tree();
    let ghost b = then_result.tree();
    let ghost c = otherwise.tree();
    let mut w: Vec<Field> = Vec::new();
    put(&mut w, "condition", condition);
    put(&mut w, "result", then_result);
    assert(pairs(w@) =~= seq![("condition"@, a), ("result"@, b)]);
    let mut f: Vec<Field> = Vec::new();
    put(&mut f, "case_token", token_node());
    put(&mut f, "conditions", single(Node::Record(w)));
    put(&mut f, "else_result", otherwise);
    put(&mut f, "end_token", token_node());
    put(&mut f, "operand", Node::Null);
    assert(pairs(f@) =~= inner(case_tree(a, b, c))->Record_0);
    tag("Case", Node::Record(f))
}

/// `MIN(expr)`.
pub open spec fn min_tree(expr: Tree) -> Tree {
    tagged(
        "Function"@,
        Tree::Record(
            seq![
                (
                    "args"@,
                    tagged(
                        "List"@,
                        Tree::Record(
                            seq![
                                ("args"@, Tree::List(seq![tagged("Unnamed"@, tagged("Expr"@, expr))])),
                                ("clauses"@, Tree::List(Seq::empty())),
                                ("duplicate_treatment"@, Tree::Null),
                            ],
                        ),
                    ),
                ),
                ("filter"@, Tree::Null),
                ("name"@, Tree::List(seq![tagged("Identifier"@, ident_tree("MIN"@, Tree::Null))])),
                ("null_treatment"@, Tree::Null),
                ("over"@, Tree::Null),
                ("parameters"@, Tree::Text("None"@)),
                ("uses_odbc_syntax"@, Tree::Bool(false)),
                ("within_group"@, Tree::List(Seq::empty())),
            ],
        ),
    )
}

fn empty_list() -> (r: Node)
    ensures
        r.tree() == Tree::List(Seq::empty()),
{
    broadcast use group_trees;
    let v: Vec<Node> = Vec::new();
    assert(trees(v@) =~= Seq::<Tree>::empty());
    Node::List(v)
}

/// Wraps an expression in MIN.
pub fn wrap_in_min(expr: Node) -> (r: Node)
    ensures
        r.tree() == min_tree(expr.tree()),
{
    broadcast use group_trees;
    let ghost e = expr.tree();
    let mut list: Vec<Field> = Vec::new();
    put(&mut list, "args", single(tag("Unnamed", tag("Expr", expr))));
    put(&mut list, "clauses", empty_list());
    put(&mut list, "duplicate_treatment", Node::Null);
    assert(pairs(list@) =~= inner(part(inner(min_tree(e)), "args"@))->Record_0) by {
        assert(inner(min_tree(e))->Record_0[0].0 == "args"@);
    }
    let mut f: Vec<Field> = Vec::new();
    put(&mut f, "args", tag("List", Node::Record(list)));
    put(&mut f, "filter", Node::Null);
    put(&mut f, "name", single(tag("Identifier", ident_node("MIN", false))));
    put(&mut f, "null_treatment", Node::Null);
    put(&mut f, "over", Node::Null);
    put(&mut f, "parameters", text_node("None"));
    put(&mut f, "uses_odbc_syntax", Node::Bool(false));
    put(&mut f, "within_group", empty_list());
    assert(pairs(f@) =~= inner(min_tree(e))->Record_0);
    tag("Function", Node::Record(f))
}

/// The function that an expression calls. A table function and a function in a name
/// have no OVER clause, so they are none.
pub open spec fn called_function(e: Tree) -> Option<Tree> {
    match payload(e, "Function"@) {
        Some(f) => if field(f, "over"@) is Some {
            Some(f)
        } else {
            None
        },
        None => None,
    }
}

pub fn function_of(e: &Node) -> (r: Option<&Node>)
    ensures
        opt_tree(r) == called_function(e.tree()),
{
    match e.payload("Function") {
        Some(f) => if f.field("over").is_some() {
            Some(f)
        } else {
            None
        },
        None => None,
    }
}

/// The last part of the name of a called function, in lower case.
pub open spec fn function_name(f: Tree) -> Option<Seq<char>> {
    let name = items(part(f, "name"@));
    if name.len() == 0 {
        None
    } else {
        match part_ident(name.last()) {
            Some(n) => Some(lowered(n)),
            None => None,
        }
    }
}

pub fn name_of_function(f: &Node) -> (r: Option<String>)
    ensures
        opt_text(r) == function_name(f.tree()),
{
    let null = Node::Null;
    let name = f.part("name", &null);
    let count: usize = name.count();
    if count == 0 {
        return None;
    }
    match ident_of_part(name.item(count - 1)) {
        Some(n) => Some(to_lower(n.as_str())),
        None => None,
    }
}

/// The plain arguments of a called function, where it has a list of arguments.
pub open spec fn argument_list(f: Tree) -> Option<Seq<Tree>> {
    match payload(part(f, "args"@), "List"@) {
        Some(list) => Some(items(part(list, "args"@))),
        None => None,
    }
}

/// The expression of a plain argument.
pub open spec fn plain_argument(arg: Tree) -> Option<Tree> {
    match payload(arg, "Unnamed"@) {
        Some(a) => payload(a, "Expr"@),
        None => None,
    }
}

pub fn argument_expr(arg: &Node) -> (r: Option<&Node>)
    ensures
        opt_tree(r) == plain_argument(arg.tree()),
{
    match arg.payload("Unnamed") {
        Some(a) => a.payload("Expr"),
        None => None,
    }
}

/// The list of arguments of a called function.
pub fn arguments_of(f: &Node) -> (r: Option<&Node>)
    ensures
        match r {
            Some(list) => argument_list(f.tree()) == Some(items(list.tree())),
            None => argument_list(f.tree()) is None || argument_list(f.tree()) == Some(Seq::<Tree>::empty()),
        },
{
    match f.field("args") {
        Some(a) => match a.payload("List") {
            Some(list) => list.field("args"),
            None => None,
        },
        None => None,
    }
}

/// Whether an expression is a number, possibly with a sign.
pub open spec fn is_number(e: Tree) -> bool
    decreases e,
    via is_number_decreases
{
    match payload(e, "Value"@) {
        Some(v) => variant(part(v, "value"@)) == "Number"@,
        None => match payload(e, "UnaryOp"@) {
            Some(u) => match field(u, "expr"@) {
                Some(x) => (is_unit(part(u, "op"@), "Minus"@) || is_unit(part(u, "op"@), "Plus"@)) && is_number(x),
                None => false,
            },
            None => false,
        },
    }
}

proof fn lemma_first_field_smaller(fields: Seq<(Seq<char>, Tree)>, key: Seq<char>, from: int)
    requires
        0 <= from,
    ensures
        first_is_in(fields, key, from),
    decreases fields.len() - from,
{
    if from < fields.len() && fields[from].0 != key {
        lemma_first_field_smaller(fields, key, from + 1);
    }
}

spec fn first_is_in(fields: Seq<(Seq<char>, Tree)>, key: Seq<char>, from: int) -> bool {
    first_field(fields, key, from) matches Some(v) ==> exists|i: int|
        from <= i < fields.len() && (#[trigger] fields[i]).1 == v
}

/// A part of a record is smaller than the record.
pub proof fn lemma_part_smaller(t: Tree, key: Seq<char>)
    requires
        field(t, key) is Some,
    ensures
        decreases_to!(t => part(t, key)),
{
    match t {
        Tree::Record(fields) => {
            lemma_first_field_smaller(fields, key, 0);
            let i = choose|i: int| 0 <= i < fields.len() && (#[trigger] fields[i]).1 == part(t, key);
            assert(decreases_to!(t => fields));
            assert(decreases_to!(fields => fields[i]));
            assert(decreases_to!(fields[i] => fields[i].1));
        },
        _ => {},
    }
}

/// A payload is smaller than its variant.
pub proof fn lemma_payload_smaller(t: Tree, name: Seq<char>)
    requires
        payload(t, name) is Some,
    ensures
        decreases_to!(t => payload(t, name)->Some_0),
{
    match t {
        Tree::Record(fields) => {
            assert(decreases_to!(t => fields));
            assert(decreases_to!(fields => fields[0]));
            assert(decreases_to!(fields[0] => fields[0].1));
        },
        _ => {},
    }
}

#[via_fn]
proof fn is_number_decreases(e: Tree) {
    match payload(e, "UnaryOp"@) {
        Some(u) => {
            lemma_payload_smaller(e, "UnaryOp"@);
            if field(u, "expr"@) is Some {
                lemma_part_smaller(u, "expr"@);
            }
        },
        None => {},
    }
}


/// Whether an expression is a number, possibly with a sign.
pub fn is_numeric_literal(e: &Node) -> (r: bool)
    ensures
        r == is_number(e.tree()),
    decreases e.tree(),
{
    match e.payload("Value") {
        Some(v) => {
            let null = Node::Null;
            same(v.part("value", &null).variant().as_str(), "Number")
        },
        None => match e.payload("UnaryOp") {
            Some(u) => match u.field("expr") {
                Some(x) => {
                    let null = Node::Null;
                    let op = u.part("op", &null);
                    proof {
                        lemma_payload_smaller(e.tree(), "UnaryOp"@);
                        lemma_part_smaller(u.tree(), "expr"@);
                    }
                    (op.is_unit("Minus") || op.is_unit("Plus")) && is_numeric_literal(x)
                },
                None => false,
            },
            None => false,
        },
    }
}

/// The functions that yield text.
pub open spec fn is_text_function(n: Seq<char>) -> bool {
    ||| n == "substring"@
    ||| n == "substr"@
    ||| n == "concat"@
    ||| n == "concat_ws"@
    ||| n == "left"@
    ||| n == "right"@
    ||| n == "trim"@
    ||| n == "ltrim"@
    ||| n == "rtrim"@
    ||| n == "lower"@
    ||| n == "upper"@
    ||| n == "replace"@
    ||| n == "lpad"@
    ||| n == "rpad"@
    ||| n == "md5"@
    ||| n == "sha1"@
    ||| n == "sha2"@
    ||| n == "hex"@
}

fn names_text_function(n: &str) -> (r: bool)
    ensures
        r == is_text_function(n@),
{
    same(n, "substring") || same(n, "substr") || same(n, "concat") || same(n, "concat_ws") || same(n, "left")
        || same(n, "right") || same(n, "trim") || same(n, "ltrim") || same(n, "rtrim") || same(n, "lower") || same(
        n,
        "upper",
    ) || same(n, "replace") || same(n, "lpad") || same(n, "rpad") || same(n, "md5") || same(n, "sha1") || same(
        n,
        "sha2",
    ) || same(n, "hex")
}

/// Whether an expression is recognisably text: a string literal, possibly in
/// parentheses, or a call of a function that yields text.
pub open spec fn is_text(e: Tree) -> bool
    decreases e,
    via is_text_decreases
{
    match payload(e, "Nested"@) {
        Some(x) => is_text(x),
        None => match payload(e, "Value"@) {
            Some(v) => variant(part(v, "value"@)) == "SingleQuotedString"@ || variant(part(v, "value"@))
                == "DoubleQuotedString"@,
            None => payload(e, "Substring"@) is Some || payload(e, "Trim"@) is Some || match called_function(e) {
                Some(f) => function_name(f) is Some && is_text_function(function_name(f)->Some_0),
                None => false,
            },
        },
    }
}

#[via_fn]
proof fn is_text_decreases(e: Tree) {
    if payload(e, "Nested"@) is Some {
        lemma_payload_smaller(e, "Nested"@);
    }
}

/// Whether an expression is recognisably text.
pub fn is_text_typed_expression(e: &Node) -> (r: bool)
    ensures
        r == is_text(e.tree()),
    decreases e.tree(),
{
    match e.payload("Nested") {
        Some(x) => {
            proof {
                lemma_payload_smaller(e.tree(), "Nested"@);
            }
            return is_text_typed_expression(x);
        },
        None => {},
    }
    match e.payload("Value") {
        Some(v) => {
            let null = Node::Null;
            let kind = v.part("value", &null).variant();
            return same(kind.as_str(), "SingleQuotedString") || same(kind.as_str(), "DoubleQuotedString");
        },
        None => {},
    }
    if e.payload("Substring").is_some() || e.payload("Trim").is_some() {
        return true;
    }
    match function_of(e) {
        Some(f) => match name_of_function(f) {
            Some(n) => names_text_function(n.as_str()),
            None => false,
        },
        None => false,
    }
}

/// Whether a comparison or logical operator.
pub open spec fn yields_boolean_op(op: Tree) -> bool {
    ||| is_unit(op, "Eq"@)
    ||| is_unit(op, "NotEq"@)
    ||| is_unit(op, "Lt"@)
    ||| is_unit(op, "LtEq"@)
    ||| is_unit(op, "Gt"@)
    ||| is_unit(op, "GtEq"@)
    ||| is_unit(op, "And"@)
    ||| is_unit(op, "Or"@)
}

/// Whether PostgreSQL gives an expression the type boolean where MySQL has 1 and 0.
pub open spec fn yields_boolean(e: Tree) -> bool {
    match payload(e, "BinaryOp"@) {
        Some(b) => yields_boolean_op(part(b, "op"@)),
        None => match payload(e, "UnaryOp"@) {
            Some(u) => is_unit(part(u, "op"@), "Not"@),
            None => payload(e, "IsNull"@) is Some || payload(e, "IsNotNull"@) is Some || payload(e, "Like"@) is Some
                || payload(e, "ILike"@) is Some || payload(e, "RLike"@) is Some || payload(e, "InList"@) is Some
                || payload(e, "InSubquery"@) is Some || payload(e, "Between"@) is Some || payload(
                e,
                "Exists"@,
            ) is Some,
        },
    }
}

/// Whether PostgreSQL gives an expression the type boolean where MySQL has 1 and 0.
pub fn yields_boolean_in_postgres(e: &Node) -> (r: bool)
    ensures
        r == yields_boolean(e.tree()),
{
    let null = Node::Null;
    match e.payload("BinaryOp") {
        Some(b) => {
            let op = b.part("op", &null);
            return op.is_unit("Eq") || op.is_unit("NotEq") || op.is_unit("Lt") || op.is_unit("LtEq")
                || op.is_unit("Gt") || op.is_unit("GtEq") || op.is_unit("And") || op.is_unit("Or");
        },
        None => {},
    }
    match e.payload("UnaryOp") {
        Some(u) => return u.part("op", &null).is_unit("Not"),
        None => {},
    }
    e.payload("IsNull").is_some() || e.payload("IsNotNull").is_some() || e.payload("Like").is_some() || e.payload(
        "ILike",
    ).is_some() || e.payload("RLike").is_some() || e.payload("InList").is_some() || e.payload(
        "InSubquery",
    ).is_some() || e.payload("Between").is_some() || e.payload("Exists").is_some()
}

/// The keys of qualified names: the identifiers in a list under one of them are the
/// parts of a name, not expressions.
pub open spec fn is_name_key(k: Seq<char>) -> bool {
    ||| k == "name"@
    ||| k == "names"@
    ||| k == "new_name"@
    ||| k == "old_name"@
    ||| k == "table"@
    ||| k == "tables"@
    ||| k == "table_name"@
    ||| k == "foreign_table"@
    ||| k == "obj_name"@
    ||| k == "parent_name"@
    ||| k == "operator_class"@
    ||| k == "collation"@
    ||| k == "charset"@
    ||| k == "lateral_view_name"@
    ||| k == "index_name"@
    ||| k == "into"@
    ||| k == "of"@
    ||| k == "to"@
    ||| k == "key"@
    ||| k == "function"@
    ||| k == "variable"@
    ||| k == "variables"@
    ||| k == "columns"@
    ||| k == "row_alias"@
    ||| k == "Custom"@
    ||| k == "ObjectName"@
    ||| k == "QualifiedWildcard"@
    ||| k == "TableName"@
    ||| k == "ColumnName"@
    ||| k == "CharacterSet"@
    ||| k == "Collation"@
    ||| k == "Using"@
}

fn names_key(k: &str) -> (r: bool)
    ensures
        r == is_name_key(k@),
{
    same(k, "name") || same(k, "names") || same(k, "new_name") || same(k, "old_name") || same(k, "table") || same(
        k,
        "tables",
    ) || same(k, "table_name") || same(k, "foreign_table") || same(k, "obj_name") || same(k, "parent_name")
        || same(k, "operator_class") || same(k, "collation") || same(k, "charset") || same(
        k,
        "lateral_view_name",
    ) || same(k, "index_name") || same(k, "into") || same(k, "of") || same(k, "to") || same(k, "key") || same(
        k,
        "function",
    ) || same(k, "variable") || same(k, "variables") || same(k, "columns") || same(k, "row_alias") || same(
        k,
        "Custom",
    ) || same(k, "ObjectName") || same(k, "QualifiedWildcard") || same(k, "TableName") || same(k, "ColumnName")
        || same(k, "CharacterSet") || same(k, "Collation") || same(k, "Using")
}

/// Whether what stands under a key is no expression itself: the parts of a name, or the
/// arguments of a function as a whole.
pub open spec fn no_expr_under(k: Seq<char>, v: Tree) -> bool {
    (is_name_key(k) && v is List) || (k == "args"@ && v is Record)
}

pub fn holds_no_expr(k: &str, v: &Node) -> (r: bool)
    ensures
        r == no_expr_under(k@, v.tree()),
{
    match v {
        Node::List(_) => names_key(k),
        Node::Record(_) => same(k, "args"),
        _ => false,
    }
}

/// A pass over all expressions of a tree.
pub enum Pass {
    /// Identifiers that name one of the aliases take its exact spelling.
    Canonical(Vec<String>),
    /// Casts, IF and CASE take the form that PostgreSQL accepts.
    Normalize,
}

/// The mathematical counterpart of [`Pass`].
pub enum PassKind {
    Canonical(Seq<Seq<char>>),
    Normalize,
}

impl View for Pass {
    type V = PassKind;

    open spec fn view(&self) -> PassKind {
        match self {
            Pass::Canonical(aliases) => PassKind::Canonical(texts(aliases@)),
            Pass::Normalize => PassKind::Normalize,
        }
    }
}

/// The first alias from `i` on that is a name, up to case.
pub open spec fn alias_named(aliases: Seq<Seq<char>>, name: Seq<char>, i: int) -> Option<Seq<char>>
    decreases aliases.len() - i,
{
    if i < 0 || i >= aliases.len() {
        None
    } else if same_ignoring_case(aliases[i], name) {
        Some(aliases[i])
    } else {
        alias_named(aliases, name, i + 1)
    }
}

fn find_alias(aliases: &Vec<String>, name: &str) -> (r: Option<String>)
    ensures
        opt_text(r) == alias_named(texts(aliases@), name@, 0),
{
    let mut i: usize = 0;
    while i < aliases.len()
        invariant
            i <= aliases@.len(),
            alias_named(texts(aliases@), name@, i as int) == alias_named(texts(aliases@), name@, 0),
        decreases aliases.len() - i,
    {
        if eq_ignore_case(aliases[i].as_str(), name) {
            return Some(aliases[i].clone());
        }
        i = i + 1;
    }
    None
}

/// An identifier that names an alias, in the alias's exact spelling and quoted. One
/// that is already double-quoted stated its casing itself.
pub open spec fn canonical(t: Tree, aliases: Seq<Seq<char>>) -> Tree {
    match payload(t, "Identifier"@) {
        Some(ident) => {
            let quote = part(ident, "quote_style"@);
            match alias_named(aliases, ident_value(ident), 0) {
                Some(alias) => if !present(quote) || is_unit(quote, "`"@) {
                    tagged("Identifier"@, ident_tree(alias, Tree::Text("\""@)))
                } else {
                    t
                },
                None => t,
            }
        },
        None => t,
    }
}

fn canonicalize(n: Node, aliases: &Vec<String>) -> (r: Node)
    ensures
        r.tree() == canonical(n.tree(), texts(aliases@)),
{
    let null = Node::Null;
    let rewritten = match n.payload("Identifier") {
        Some(ident) => {
            let quote = ident.part("quote_style", &null);
            match find_alias(aliases, value_of_ident(ident).as_str()) {
                Some(alias) => if quote.is_null() || quote.is_unit("`") {
                    Some(tag("Identifier", ident_node(alias.as_str(), true)))
                } else {
                    None
                },
                None => None,
            }
        },
        None => None,
    };
    match rewritten {
        Some(out) => out,
        None => n,
    }
}

/// A cast with a target that PostgreSQL has: MySQL's integer targets become BIGINT, and
/// CHAR, which in PostgreSQL is a single character, becomes TEXT.
pub open spec fn cast_fixed(t: Tree) -> Tree {
    match payload(t, "Cast"@) {
        Some(c) => {
            let v = variant(part(c, "data_type"@));
            if v == "Signed"@ || v == "SignedInteger"@ || v == "Unsigned"@ || v == "UnsignedInteger"@ {
                tagged("Cast"@, with_field(c, "data_type"@, tagged("BigInt"@, Tree::Null)))
            } else if v == "Char"@ {
                tagged("Cast"@, with_field(c, "data_type"@, Tree::Text("Text"@)))
            } else {
                t
            }
        },
        None => t,
    }
}

fn fix_cast(n: Node) -> (r: Node)
    ensures
        r.tree() == cast_fixed(n.tree()),
{
    let null = Node::Null;
    let rewritten = match n.payload("Cast") {
        Some(c) => {
            let name = c.part("data_type", &null).variant();
            let v = name.as_str();
            if same(v, "Signed") || same(v, "SignedInteger") || same(v, "Unsigned") || same(v, "UnsignedInteger") {
                Some(tag("Cast", c.with_field("data_type", &tag("BigInt", Node::Null))))
            } else if same(v, "Char") {
                Some(tag("Cast", c.with_field("data_type", &text_node("Text"))))
            } else {
                None
            }
        },
        None => None,
    };
    match rewritten {
        Some(out) => out,
        None => n,
    }
}

/// IF(condition, then, else) as a CASE expression.
pub open spec fn if_as_case(t: Tree) -> Tree {
    match called_function(t) {
        Some(f) => match argument_list(f) {
            Some(args) => if function_name(f) == Some("if"@) && !present(part(f, "over"@)) && args.len() == 3
                && plain_argument(args[0]) is Some && plain_argument(args[1]) is Some && plain_argument(
                args[2],
            ) is Some {
                case_tree(
                    plain_argument(args[0])->Some_0,
                    plain_argument(args[1])->Some_0,
                    plain_argument(args[2])->Some_0,
                )
            } else {
                t
            },
            None => t,
        },
        None => t,
    }
}

/// Rewrites MySQL's IF to a standard CASE expression.
pub fn convert_mysql_if_to_case(n: Node) -> (r: Node)
    ensures
        r.tree() == if_as_case(n.tree()),
{
    let rewritten = match function_of(&n) {
        Some(f) => {
            let is_if = match name_of_function(f) {
                Some(name) => same(name.as_str(), "if"),
                None => false,
            };
            if is_if && !f.has_part("over") {
                match arguments_of(f) {
                    Some(args) => if args.count() == 3 {
                        match (
                            argument_expr(args.item(0)),
                            argument_expr(args.item(1)),
                            argument_expr(args.item(2)),
                        ) {
                            (Some(a), Some(b), Some(c)) => Some(case_node(a.copy(), b.copy(), c.copy())),
                            _ => None,
                        }
                    } else {
                        None
                    },
                    None => None,
                }
            } else {
                None
            }
        },
        None => None,
    };
    match rewritten {
        Some(out) => out,
        None => n,
    }
}

/// A number as text; anything else unchanged.
pub open spec fn number_as_text(e: Tree) -> Tree {
    if is_number(e) {
        cast_to_text(e)
    } else {
        e
    }
}

fn text_number(e: &Node) -> (r: Node)
    ensures
        r.tree() == number_as_text(e.tree()),
{
    if is_numeric_literal(e) {
        cast_node(e.copy(), text_node("Text"))
    } else {
        e.copy()
    }
}

/// An arm of a CASE with its number as text.
pub open spec fn arm_as_text(w: Tree) -> Tree {
    with_field(w, "result"@, number_as_text(part(w, "result"@)))
}

/// Whether one of the results of a CASE is text.
pub open spec fn any_text_result(arms: Seq<Tree>, otherwise: Tree) -> bool {
    is_text(otherwise) || exists|i: int| 0 <= i < arms.len() && is_text(part(#[trigger] arms[i], "result"@))
}

/// Whether one of the results of a CASE is a number.
pub open spec fn any_number_result(arms: Seq<Tree>, otherwise: Tree) -> bool {
    is_number(otherwise) || exists|i: int|
        0 <= i < arms.len() && is_number(part(#[trigger] arms[i], "result"@))
}

/// A CASE of which some results are text and some numbers, its numbers as text.
pub open spec fn branches_unified(t: Tree) -> Tree {
    match payload(t, "Case"@) {
        Some(c) => {
            let arms = part(c, "conditions"@);
            let otherwise = part(c, "else_result"@);
            if any_text_result(items(arms), otherwise) && any_number_result(items(arms), otherwise) {
                tagged(
                    "Case"@,
                    with_field(
                        with_field(c, "conditions"@, mapped_list(arms, |w: Tree| arm_as_text(w))),
                        "else_result"@,
                        number_as_text(otherwise),
                    ),
                )
            } else {
                t
            }
        },
        None => t,
    }
}

fn some_text_result(arms: &Node, otherwise: &Node) -> (r: bool)
    ensures
        r == any_text_result(items(arms.tree()), otherwise.tree()),
{
    let null = Node::Null;
    if is_text_typed_expression(otherwise) {
        return true;
    }
    let mut i: usize = 0;
    let count: usize = arms.count();
    while i < count
        invariant
            null.tree() is Null,
            count == items(arms.tree()).len(),
            i <= count,
            forall|j: int| 0 <= j < i ==> !is_text(part(#[trigger] items(arms.tree())[j], "result"@)),
        decreases count - i,
    {
        if is_text_typed_expression(arms.item(i).part("result", &null)) {
            assert(is_text(part(items(arms.tree())[i as int], "result"@)));
            return true;
        }
        i = i + 1;
    }
    false
}

fn some_number_result(arms: &Node, otherwise: &Node) -> (r: bool)
    ensures
        r == any_number_result(items(arms.tree()), otherwise.tree()),
{
    let null = Node::Null;
    if is_numeric_literal(otherwise) {
        return true;
    }
    let mut i: usize = 0;
    let count: usize = arms.count();
    while i < count
        invariant
            null.tree() is Null,
            count == items(arms.tree()).len(),
            i <= count,
            forall|j: int| 0 <= j < i ==> !is_number(part(#[trigger] items(arms.tree())[j], "result"@)),
        decreases count - i,
    {
        if is_numeric_literal(arms.item(i).part("result", &null)) {
            assert(is_number(part(items(arms.tree())[i as int], "result"@)));
            return true;
        }
        i = i + 1;
    }
    false
}

fn text_arms(arms: &Node) -> (r: Node)
    ensures
        r.tree() == mapped_list(arms.tree(), |w: Tree| arm_as_text(w)),
{
    broadcast use group_trees;
    let null = Node::Null;
    match arms {
        Node::List(v) => {
            let mut out: Vec<Node> = Vec::new();
            let mut i: usize = 0;
            let ghost want = mapped_items(trees(v@), |w: Tree| arm_as_text(w));
            while i < v.len()
                invariant
                    null.tree() is Null,
                    i <= v@.len(),
                    want == mapped_items(trees(v@), |w: Tree| arm_as_text(w)),
                    trees(out@) =~= want.take(i as int),
                decreases v.len() - i,
            {
                let result = text_number(v[i].part("result", &null));
                push_node(&mut out, v[i].with_field("result", &result));
                i = i + 1;
                assert(trees(out@) =~= want.take(i as int));
            }
            assert(trees(out@) =~= want);
            Node::List(out)
        },
        _ => arms.copy(),
    }
}

/// Makes the branches of a CASE agree on a type the way MySQL would: where a branch is
/// recognisably text, the numeric branches are cast to text.
pub fn unify_mysql_case_branch_types(n: Node) -> (r: Node)
    ensures
        r.tree() == branches_unified(n.tree()),
{
    let null = Node::Null;
    let rewritten = match n.payload("Case") {
        Some(c) => {
            let arms = c.part("conditions", &null);
            let otherwise = c.part("else_result", &null);
            if some_text_result(arms, otherwise) && some_number_result(arms, otherwise) {
                let texted = text_arms(arms);
                let with_arms = c.with_field("conditions", &texted);
                Some(tag("Case", with_arms.with_field("else_result", &text_number(otherwise))))
            } else {
                None
            }
        },
        None => None,
    };
    match rewritten {
        Some(out) => out,
        None => n,
    }
}

/// What a pass does to one expression, its parts being done.
pub open spec fn passed_at(pass: PassKind, t: Tree) -> Tree {
    match pass {
        PassKind::Canonical(aliases) => canonical(t, aliases),
        PassKind::Normalize => branches_unified(if_as_case(cast_fixed(t))),
    }
}

fn pass_at(pass: &Pass, n: Node) -> (r: Node)
    ensures
        r.tree() == passed_at(pass@, n.tree()),
{
    match pass {
        Pass::Canonical(aliases) => canonicalize(n, aliases),
        Pass::Normalize => unify_mysql_case_branch_types(convert_mysql_if_to_case(fix_cast(n))),
    }
}

/// A tree with a pass done to every expression in it. `bare` says that the tree itself
/// is no expression.
pub open spec fn passed_over(pass: PassKind, t: Tree, bare: bool) -> Tree
    decreases t,
{
    match t {
        Tree::List(v) => Tree::List(
            Seq::new(
                v.len(),
                |i: int|
                    if 0 <= i < v.len() {
                        passed_over(pass, v[i], bare)
                    } else {
                        Tree::Null
                    },
            ),
        ),
        Tree::Record(fields) => {
            let inside = Tree::Record(
                Seq::new(
                    fields.len(),
                    |i: int|
                        if 0 <= i < fields.len() {
                            (
                                fields[i].0,
                                passed_over(pass, fields[i].1, no_expr_under(fields[i].0, fields[i].1)),
                            )
                        } else {
                            (Seq::empty(), Tree::Null)
                        },
                ),
            );
            if bare {
                inside
            } else {
                passed_at(pass, inside)
            }
        },
        _ => t,
    }
}

/// Does a pass over every expression of a tree.
#[verifier::loop_isolation(false)]
pub fn pass_over(pass: &Pass, n: &Node, bare: bool) -> (r: Node)
    ensures
        r.tree() == passed_over(pass@, n.tree(), bare),
    decreases n,
{
    broadcast use group_trees;
    match n {
        Node::List(v) => {
            let mut out: Vec<Node> = Vec::new();
            let mut i: usize = 0;
            let ghost want = passed_over(pass@, n.tree(), bare)->List_0;
            while i < v.len()
                invariant
                    *n == Node::List(*v),
                    i <= v@.len(),
                    want.len() == v@.len(),
                    forall|j: int|
                        0 <= j < v@.len() ==> #[trigger] want[j] == passed_over(pass@, v@[j].tree(), bare),
                    trees(out@) =~= want.take(i as int),
                decreases v.len() - i,
            {
                assert(decreases_to!(*v => v[i as int]));
                push_node(&mut out, pass_over(pass, &v[i], bare));
                i = i + 1;
                assert(trees(out@) =~= want.take(i as int));
            }
            assert(trees(out@) =~= want);
            Node::List(out)
        },
        Node::Record(fields) => {
            let mut out: Vec<Field> = Vec::new();
            let mut i: usize = 0;
            let ghost want = Seq::new(
                fields@.len(),
                |j: int|
                    (
                        fields@[j].key@,
                        passed_over(
                            pass@,
                            fields@[j].value.tree(),
                            no_expr_under(fields@[j].key@, fields@[j].value.tree()),
                        ),
                    ),
            );
            while i < fields.len()
                invariant
                    *n == Node::Record(*fields),
                    i <= fields@.len(),
                    want.len() == fields@.len(),
                    forall|j: int|
                        0 <= j < fields@.len() ==> #[trigger] want[j] == (
                            fields@[j].key@,
                            passed_over(
                                pass@,
                                fields@[j].value.tree(),
                                no_expr_under(fields@[j].key@, fields@[j].value.tree()),
                            ),
                        ),
                    pairs(out@) =~= want.take(i as int),
                decreases fields.len() - i,
            {
                assert(decreases_to!(*fields => fields[i as int]));
                let hidden = holds_no_expr(fields[i].key.as_str(), &fields[i].value);
                put(&mut out, fields[i].key.as_str(), pass_over(pass, &fields[i].value, hidden));
                i = i + 1;
                assert(pairs(out@) =~= want.take(i as int));
            }
            assert(pairs(out@) =~= want);
            let inside = Node::Record(out);
            assert(passed_over(pass@, n.tree(), true)->Record_0 =~= want);
            if bare {
                inside
            } else {
                pass_at(pass, inside)
            }
        },
        _ => n.copy(),
    }
}

/// The aggregate functions.
pub open spec fn is_aggregate_name(n: Seq<char>) -> bool {
    ||| n == "count"@
    ||| n == "sum"@
    ||| n == "avg"@
    ||| n == "min"@
    ||| n == "max"@
    ||| n == "group_concat"@
    ||| n == "string_agg"@
    ||| n == "array_agg"@
    ||| n == "bit_and"@
    ||| n == "bit_or"@
    ||| n == "bit_xor"@
    ||| n == "std"@
    ||| n == "stddev"@
    ||| n == "stddev_pop"@
    ||| n == "stddev_samp"@
    ||| n == "variance"@
    ||| n == "var_pop"@
    ||| n == "var_samp"@
    ||| n == "json_arrayagg"@
    ||| n == "json_objectagg"@
    ||| n == "bool_and"@
    ||| n == "bool_or"@
    ||| n == "every"@
}

fn names_aggregate(n: &str) -> (r: bool)
    ensures
        r == is_aggregate_name(n@),
{
    same(n, "count") || same(n, "sum") || same(n, "avg") || same(n, "min") || same(n, "max") || same(
        n,
        "group_concat",
    ) || same(n, "string_agg") || same(n, "array_agg") || same(n, "bit_and") || same(n, "bit_or") || same(
        n,
        "bit_xor",
    ) || same(n, "std") || same(n, "stddev") || same(n, "stddev_pop") || same(n, "stddev_samp") || same(
        n,
        "variance",
    ) || same(n, "var_pop") || same(n, "var_samp") || same(n, "json_arrayagg") || same(n, "json_objectagg")
        || same(n, "bool_and") || same(n, "bool_or") || same(n, "every")
}

/// Whether an expression is itself an aggregate, a window function or a subquery.
pub open spec fn is_aggregate(e: Tree) -> bool {
    ||| payload(e, "Subquery"@) is Some
    ||| payload(e, "Exists"@) is Some
    ||| payload(e, "InSubquery"@) is Some
    ||| (called_function(e) matches Some(f) && (present(part(f, "over"@)) || (function_name(f) matches Some(n)
        && is_aggregate_name(n))))
}

fn marks_aggregate(e: &Node) -> (r: bool)
    ensures
        r == is_aggregate(e.tree()),
{
    if e.payload("Subquery").is_some() || e.payload("Exists").is_some() || e.payload("InSubquery").is_some() {
        return true;
    }
    match function_of(e) {
        Some(f) => f.has_part("over") || match name_of_function(f) {
            Some(n) => names_aggregate(n.as_str()),
            None => false,
        },
        None => false,
    }
}

/// Whether a tree holds an aggregate, a window function or a subquery.
pub open spec fn holds_aggregate(t: Tree, bare: bool) -> bool
    decreases t, 0nat,
{
    match t {
        Tree::List(v) => items_hold_aggregate(v, bare, v.len()),
        Tree::Record(fields) => (!bare && is_aggregate(t)) || fields_hold_aggregate(fields, fields.len()),
        _ => false,
    }
}

/// Whether one of the first `n` trees holds an aggregate.
pub open spec fn items_hold_aggregate(v: Seq<Tree>, bare: bool, n: nat) -> bool
    decreases v, n,
{
    0 < n <= v.len() && (holds_aggregate(v[n - 1], bare) || items_hold_aggregate(v, bare, (n - 1) as nat))
}

/// Whether one of the first `n` fields holds an aggregate.
pub open spec fn fields_hold_aggregate(fields: Seq<(Seq<char>, Tree)>, n: nat) -> bool
    decreases fields, n,
{
    0 < n <= fields.len() && (holds_aggregate(
        fields[n - 1].1,
        no_expr_under(fields[n - 1].0, fields[n - 1].1),
    ) || fields_hold_aggregate(fields, (n - 1) as nat))
}

/// Whether an expression is a column.
pub open spec fn is_column(e: Tree) -> bool {
    payload(e, "Identifier"@) is Some || payload(e, "CompoundIdentifier"@) is Some
}

pub fn is_plain_column(e: &Node) -> (r: bool)
    ensures
        r == is_column(e.tree()),
{
    e.payload("Identifier").is_some() || e.payload("CompoundIdentifier").is_some()
}

/// Whether a tree holds a column that is not among the grouped expressions.
pub open spec fn holds_ungrouped(t: Tree, grouped: Seq<Tree>, bare: bool) -> bool
    decreases t, 0nat,
{
    match t {
        Tree::List(v) => items_hold_ungrouped(v, grouped, bare, v.len()),
        Tree::Record(fields) => (!bare && is_column(t) && !grouped.contains(t)) || fields_hold_ungrouped(
            fields,
            grouped,
            fields.len(),
        ),
        _ => false,
    }
}

/// Whether one of the first `n` trees holds an ungrouped column.
pub open spec fn items_hold_ungrouped(v: Seq<Tree>, grouped: Seq<Tree>, bare: bool, n: nat) -> bool
    decreases v, n,
{
    0 < n <= v.len() && (holds_ungrouped(v[n - 1], grouped, bare) || items_hold_ungrouped(
        v,
        grouped,
        bare,
        (n - 1) as nat,
    ))
}

/// Whether one of the first `n` fields holds an ungrouped column.
pub open spec fn fields_hold_ungrouped(fields: Seq<(Seq<char>, Tree)>, grouped: Seq<Tree>, n: nat) -> bool
    decreases fields, n,
{
    0 < n <= fields.len() && (holds_ungrouped(
        fields[n - 1].1,
        grouped,
        no_expr_under(fields[n - 1].0, fields[n - 1].1),
    ) || fields_hold_ungrouped(fields, grouped, (n - 1) as nat))
}

/// Whether a list of nodes holds one with that tree.
pub fn holds_tree(list: &Vec<Node>, n: &Node) -> (r: bool)
    ensures
        r == trees(list@).contains(n.tree()),
{
    let mut i: usize = 0;
    while i < list.len()
        invariant
            i <= list@.len(),
            forall|j: int| 0 <= j < i ==> #[trigger] trees(list@)[j] != n.tree(),
        decreases list.len() - i,
    {
        if same_tree(&list[i], n) {
            assert(trees(list@)[i as int] == n.tree());
            return true;
        }
        i = i + 1;
    }
    false
}

#[verifier::loop_isolation(false)]
fn finds_aggregate(n: &Node, bare: bool) -> (r: bool)
    ensures
        r == holds_aggregate(n.tree(), bare),
    decreases n,
{
    broadcast use group_trees;
    match n {
        Node::List(v) => {
            let mut found = false;
            let mut i: usize = 0;
            while i < v.len()
                invariant
                    *n == Node::List(*v),
                    i <= v@.len(),
                    found == items_hold_aggregate(trees(v@), bare, i as nat),
                decreases v.len() - i,
            {
                assert(decreases_to!(*v => v[i as int]));
                found = finds_aggregate(&v[i], bare) || found;
                i = i + 1;
            }
            found
        },
        Node::Record(fields) => {
            let mut found = false;
            let mut i: usize = 0;
            while i < fields.len()
                invariant
                    *n == Node::Record(*fields),
                    i <= fields@.len(),
                    found == fields_hold_aggregate(pairs(fields@), i as nat),
                decreases fields.len() - i,
            {
                assert(decreases_to!(*fields => fields[i as int]));
                let hidden = holds_no_expr(fields[i].key.as_str(), &fields[i].value);
                found = finds_aggregate(&fields[i].value, hidden) || found;
                i = i + 1;
            }
            found || (!bare && marks_aggregate(n))
        },
        _ => false,
    }
}

#[verifier::loop_isolation(false)]
fn finds_ungrouped(n: &Node, grouped: &Vec<Node>, bare: bool) -> (r: bool)
    ensures
        r == holds_ungrouped(n.tree(), trees(grouped@), bare),
    decreases n,
{
    broadcast use group_trees;
    match n {
        Node::List(v) => {
            let mut found = false;
            let mut i: usize = 0;
            while i < v.len()
                invariant
                    *n == Node::List(*v),
                    i <= v@.len(),
                    found == items_hold_ungrouped(trees(v@), trees(grouped@), bare, i as nat),
                decreases v.len() - i,
            {
                assert(decreases_to!(*v => v[i as int]));
                found = finds_ungrouped(&v[i], grouped, bare) || found;
                i = i + 1;
            }
            found
        },
        Node::Record(fields) => {
            let mut found = false;
            let mut i: usize = 0;
            while i < fields.len()
                invariant
                    *n == Node::Record(*fields),
                    i <= fields@.len(),
                    found == fields_hold_ungrouped(pairs(fields@), trees(grouped@), i as nat),
                decreases fields.len() - i,
            {
                assert(decreases_to!(*fields => fields[i as int]));
                let hidden = holds_no_expr(fields[i].key.as_str(), &fields[i].value);
                found = finds_ungrouped(&fields[i].value, grouped, hidden) || found;
                i = i + 1;
            }
            found || (!bare && is_plain_column(n) && !holds_tree(grouped, n))
        },
        _ => false,
    }
}

/// Whether an expression refers to a column that is neither grouped nor aggregated,
/// which MySQL allows and PostgreSQL does not.
pub open spec fn needs_relaxation(e: Tree, grouped: Seq<Tree>) -> bool {
    holds_ungrouped(e, grouped, false) && !holds_aggregate(e, false)
}

/// Whether an expression refers to a column that is neither grouped nor aggregated.
pub fn needs_group_by_relaxation(e: &Node, grouped: &Vec<Node>) -> (r: bool)
    ensures
        r == needs_relaxation(e.tree(), trees(grouped@)),
{
    finds_ungrouped(e, grouped, false) && !finds_aggregate(e, false)
}

} // verus!
