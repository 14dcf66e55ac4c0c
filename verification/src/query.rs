//! Queries: alias casing, MySQL's permissive GROUP BY, and boolean projections.
use vstd::prelude::*;

use crate::exprs::{
    argument_expr, argument_list, arguments_of, called_function, cast_node, cast_to_int,
    drop_positions, function_name, function_of, holds_tree, is_column, is_plain_column,
    mapped_items, mapped_list, min_tree, name_of_function, needs_group_by_relaxation,
    needs_relaxation, pass_over, passed_over, plain_argument, without_positions, wrap_in_min,
    yields_boolean, yields_boolean_in_postgres, Pass, PassKind,
};
use crate::names::{ident_value, value_of_ident};
use crate::text::{
    contains_ignore_case, eq_ignore_case, listed_ignoring_case, push_text, push_texts, same,
    same_ignoring_case, texts,
};
use crate::tree::{
    field, group_trees, item_at, items, opt_tree, pairs, part, payload, push_node, put, tag, tagged,
    text_node, trees, with_field, Field, Node, Tree,
};

verus! {

/// Whether a tree is a query.
pub open spec fn is_query(t: Tree) -> bool {
    field(t, "body"@) is Some && field(t, "limit_clause"@) is Some && field(t, "with"@) is Some
}

pub fn is_query_node(n: &Node) -> (r: bool)
    ensures
        r == is_query(n.tree()),
{
    n.field("body").is_some() && n.field("limit_clause").is_some() && n.field("with").is_some()
}

/// The SELECT that a query is, where it is one.
pub open spec fn select_of(q: Tree) -> Option<Tree> {
    payload(part(q, "body"@), "Select"@)
}

pub fn select_in(q: &Node) -> (r: Option<&Node>)
    ensures
        opt_tree(r) == select_of(q.tree()),
{
    match q.field("body") {
        Some(body) => body.payload("Select"),
        None => None,
    }
}

/// A query with another SELECT.
pub open spec fn with_select(q: Tree, s: Tree) -> Tree {
    with_field(q, "body"@, tagged("Select"@, s))
}

/// The alias of an item of a SELECT list.
pub open spec fn item_alias(item: Tree) -> Option<Tree> {
    match payload(item, "ExprWithAlias"@) {
        Some(x) => Some(part(x, "alias"@)),
        None => None,
    }
}

/// The expression of an item of a SELECT list.
pub open spec fn item_expr(item: Tree) -> Option<Tree> {
    match payload(item, "ExprWithAlias"@) {
        Some(x) => Some(part(x, "expr"@)),
        None => payload(item, "UnnamedExpr"@),
    }
}

/// An item of a SELECT list with another expression.
pub open spec fn with_item_expr(item: Tree, e: Tree) -> Tree {
    match payload(item, "ExprWithAlias"@) {
        Some(x) => tagged("ExprWithAlias"@, with_field(x, "expr"@, e)),
        None => match payload(item, "UnnamedExpr"@) {
            Some(_) => tagged("UnnamedExpr"@, e),
            None => item,
        },
    }
}

fn expr_of_item<'a>(item: &'a Node, null: &'a Node) -> (r: Option<&'a Node>)
    requires
        null.tree() is Null,
    ensures
        opt_tree(r) == item_expr(item.tree()),
{
    match item.payload("ExprWithAlias") {
        Some(x) => Some(x.part("expr", null)),
        None => item.payload("UnnamedExpr"),
    }
}

fn set_item_expr(item: &Node, e: Node) -> (r: Node)
    ensures
        r.tree() == with_item_expr(item.tree(), e.tree()),
{
    match item.payload("ExprWithAlias") {
        Some(x) => tag("ExprWithAlias", x.with_field("expr", &e)),
        None => match item.payload("UnnamedExpr") {
            Some(_) => tag("UnnamedExpr", e),
            None => item.copy(),
        },
    }
}

/// The aliases of the first `n` items of a SELECT list.
pub open spec fn aliases_of(projection: Seq<Tree>, n: int) -> Seq<Seq<char>>
    decreases n,
{
    if n <= 0 {
        Seq::empty()
    } else {
        let before = aliases_of(projection, n - 1);
        match item_alias(projection[n - 1]) {
            Some(alias) => before.push(ident_value(alias)),
            None => before,
        }
    }
}

/// The aliases that a SELECT defines.
pub open spec fn own_aliases(select: Tree) -> Seq<Seq<char>> {
    let projection = items(part(select, "projection"@));
    aliases_of(projection, projection.len() as int)
}

fn collect_own_aliases(select: &Node) -> (r: Vec<String>)
    ensures
        texts(r@) == own_aliases(select.tree()),
{
    let null = Node::Null;
    let projection = select.part("projection", &null);
    let mut out: Vec<String> = Vec::new();
    let mut i: usize = 0;
    let count: usize = projection.count();
    let ghost list = items(projection.tree());
    assert(texts(out@) =~= Seq::<Seq<char>>::empty());
    while i < count
        invariant
            null.tree() is Null,
            list == items(projection.tree()),
            count == list.len(),
            i <= count,
            texts(out@) == aliases_of(list, i as int),
        decreases count - i,
    {
        match projection.item(i).payload("ExprWithAlias") {
            Some(x) => {
                push_text(&mut out, value_of_ident(x.part("alias", &null)));
            },
            None => {},
        }
        i = i + 1;
    }
    out
}

/// The aliases that a subquery in FROM exposes.
pub open spec fn factor_aliases(factor: Tree) -> Seq<Seq<char>> {
    match payload(factor, "Derived"@) {
        Some(d) => match select_of(part(d, "subquery"@)) {
            Some(s) => own_aliases(s),
            None => Seq::empty(),
        },
        None => Seq::empty(),
    }
}

fn collect_derived_aliases(factor: &Node) -> (r: Vec<String>)
    ensures
        texts(r@) == factor_aliases(factor.tree()),
{
    let null = Node::Null;
    let none: Vec<String> = Vec::new();
    assert(texts(none@) =~= Seq::<Seq<char>>::empty());
    match factor.payload("Derived") {
        Some(d) => match select_in(d.part("subquery", &null)) {
            Some(s) => collect_own_aliases(s),
            None => none,
        },
        None => none,
    }
}

/// The aliases that the first `n` joins expose.
pub open spec fn join_aliases(joins: Seq<Tree>, n: int) -> Seq<Seq<char>>
    decreases n,
{
    if n <= 0 {
        Seq::empty()
    } else {
        join_aliases(joins, n - 1) + factor_aliases(part(joins[n - 1], "relation"@))
    }
}

/// The aliases that the first `n` tables of FROM expose.
pub open spec fn table_aliases(from: Seq<Tree>, n: int) -> Seq<Seq<char>>
    decreases n,
{
    if n <= 0 {
        Seq::empty()
    } else {
        let joins = items(part(from[n - 1], "joins"@));
        table_aliases(from, n - 1) + factor_aliases(part(from[n - 1], "relation"@)) + join_aliases(
            joins,
            joins.len() as int,
        )
    }
}

/// The aliases that the subqueries in a SELECT's FROM clause expose.
pub open spec fn derived_aliases(select: Tree) -> Seq<Seq<char>> {
    let from = items(part(select, "from"@));
    table_aliases(from, from.len() as int)
}

fn collect_join_aliases(joins: &Node) -> (r: Vec<String>)
    ensures
        texts(r@) == join_aliases(items(joins.tree()), items(joins.tree()).len() as int),
{
    let null = Node::Null;
    let mut out: Vec<String> = Vec::new();
    let mut i: usize = 0;
    let count: usize = joins.count();
    let ghost list = items(joins.tree());
    assert(texts(out@) =~= Seq::<Seq<char>>::empty());
    while i < count
        invariant
            null.tree() is Null,
            list == items(joins.tree()),
            count == list.len(),
            i <= count,
            texts(out@) == join_aliases(list, i as int),
        decreases count - i,
    {
        push_texts(&mut out, &collect_derived_aliases(joins.item(i).part("relation", &null)));
        i = i + 1;
    }
    out
}

/// Collects the aliases that the subqueries in a SELECT's FROM clause expose.
pub fn derived_table_output_aliases(select: &Node) -> (r: Vec<String>)
    ensures
        texts(r@) == derived_aliases(select.tree()),
{
    let null = Node::Null;
    let from = select.part("from", &null);
    let mut out: Vec<String> = Vec::new();
    let mut i: usize = 0;
    let count: usize = from.count();
    let ghost list = items(from.tree());
    assert(texts(out@) =~= Seq::<Seq<char>>::empty());
    while i < count
        invariant
            null.tree() is Null,
            list == items(from.tree()),
            count == list.len(),
            i <= count,
            texts(out@) == table_aliases(list, i as int),
        decreases count - i,
    {
        let table = from.item(i);
        push_texts(&mut out, &collect_derived_aliases(table.part("relation", &null)));
        push_texts(&mut out, &collect_join_aliases(table.part("joins", &null)));
        i = i + 1;
    }
    out
}

/// A tree with the identifiers in it that name one of the aliases in the alias's exact
/// spelling.
pub open spec fn canonicalized(t: Tree, aliases: Seq<Seq<char>>) -> Tree {
    if aliases.len() == 0 {
        t
    } else {
        passed_over(PassKind::Canonical(aliases), t, false)
    }
}

fn copy_texts(v: &Vec<String>) -> (r: Vec<String>)
    ensures
        texts(r@) == texts(v@),
{
    let mut out: Vec<String> = Vec::new();
    push_texts(&mut out, v);
    assert(texts(out@) =~= texts(v@));
    out
}

/// Rewrites identifiers that name one of `aliases` to that alias's exact spelling,
/// quoted. The definitions are quoted to survive PostgreSQL's case folding, so the
/// references have to be quoted alike.
pub fn canonicalize_identifiers(n: &Node, aliases: &Vec<String>) -> (r: Node)
    ensures
        r.tree() == canonicalized(n.tree(), texts(aliases@)),
{
    if aliases.len() == 0 {
        return n.copy();
    }
    pass_over(&Pass::Canonical(copy_texts(aliases)), n, false)
}

/// An item of a SELECT list with its alias quoted and its expression canonical.
pub open spec fn aligned_item(item: Tree, derived: Seq<Seq<char>>) -> Tree {
    match payload(item, "ExprWithAlias"@) {
        Some(x) => tagged(
            "ExprWithAlias"@,
            with_field(
                with_field(
                    x,
                    "alias"@,
                    with_field(part(x, "alias"@), "quote_style"@, Tree::Text("\""@)),
                ),
                "expr"@,
                canonicalized(part(x, "expr"@), derived),
            ),
        ),
        None => match payload(item, "UnnamedExpr"@) {
            Some(e) => tagged("UnnamedExpr"@, canonicalized(e, derived)),
            None => item,
        },
    }
}

fn align_item(item: &Node, derived: &Vec<String>) -> (r: Node)
    ensures
        r.tree() == aligned_item(item.tree(), texts(derived@)),
{
    let null = Node::Null;
    match item.payload("ExprWithAlias") {
        Some(x) => {
            let alias = x.part("alias", &null).with_field("quote_style", &text_node("\""));
            let quoted = x.with_field("alias", &alias);
            let expr = canonicalize_identifiers(x.part("expr", &null), derived);
            tag("ExprWithAlias", quoted.with_field("expr", &expr))
        },
        None => match item.payload("UnnamedExpr") {
            Some(e) => tag("UnnamedExpr", canonicalize_identifiers(e, derived)),
            None => item.copy(),
        },
    }
}

fn align_items(list: &Node, derived: &Vec<String>) -> (r: Node)
    ensures
        r.tree() == mapped_list(list.tree(), |t: Tree| aligned_item(t, texts(derived@))),
{
    broadcast use group_trees;
    match list {
        Node::List(v) => {
            let mut out: Vec<Node> = Vec::new();
            let mut i: usize = 0;
            let ghost want = mapped_items(trees(v@), |t: Tree| aligned_item(t, texts(derived@)));
            while i < v.len()
                invariant
                    i <= v@.len(),
                    want == mapped_items(trees(v@), |t: Tree| aligned_item(t, texts(derived@))),
                    trees(out@) =~= want.take(i as int),
                decreases v.len() - i,
            {
                push_node(&mut out, align_item(&v[i], derived));
                i = i + 1;
                assert(trees(out@) =~= want.take(i as int));
            }
            assert(trees(out@) =~= want);
            Node::List(out)
        },
        _ => list.copy(),
    }
}

/// The grouped expressions of a GROUP BY clause, canonical.
pub open spec fn aligned_group_by(group_by: Tree, aliases: Seq<Seq<char>>) -> Tree {
    match payload(group_by, "Expressions"@) {
        Some(v) => if items(v).len() > 0 {
            tagged("Expressions"@, Tree::List(items(v).update(0, canonicalized(items(v)[0], aliases))))
        } else {
            group_by
        },
        None => group_by,
    }
}

fn replace_first(list: &Node, first: Node) -> (r: Node)
    requires
        items(list.tree()).len() > 0,
    ensures
        r.tree() == Tree::List(items(list.tree()).update(0, first.tree())),
{
    broadcast use group_trees;
    let ghost want = items(list.tree()).update(0, first.tree());
    let mut out: Vec<Node> = Vec::new();
    push_node(&mut out, first);
    let mut i: usize = 1;
    let count: usize = list.count();
    assert(trees(out@) =~= want.take(1));
    while i < count
        invariant
            count == items(list.tree()).len(),
            want.len() == count,
            forall|j: int| 1 <= j < count ==> #[trigger] want[j] == items(list.tree())[j],
            1 <= i <= count,
            trees(out@) =~= want.take(i as int),
        decreases count - i,
    {
        push_node(&mut out, list.item(i).copy());
        i = i + 1;
        assert(trees(out@) =~= want.take(i as int));
    }
    assert(trees(out@) =~= want);
    Node::List(out)
}

fn align_group_by(group_by: &Node, aliases: &Vec<String>) -> (r: Node)
    ensures
        r.tree() == aligned_group_by(group_by.tree(), texts(aliases@)),
{
    match group_by.payload("Expressions") {
        Some(v) => if v.count() > 0 {
            let first = canonicalize_identifiers(v.item(0), aliases);
            tag("Expressions", replace_first(v, first))
        } else {
            group_by.copy()
        },
        None => group_by.copy(),
    }
}

/// A sort term with its expression canonical.
pub open spec fn aligned_term(o: Tree, aliases: Seq<Seq<char>>) -> Tree {
    with_field(o, "expr"@, canonicalized(part(o, "expr"@), aliases))
}

/// The sort terms of a query.
pub open spec fn order_terms(q: Tree) -> Option<Tree> {
    payload(part(part(q, "order_by"@), "kind"@), "Expressions"@)
}

/// A query with other sort terms.
pub open spec fn with_order_terms(q: Tree, terms: Tree) -> Tree {
    with_field(
        q,
        "order_by"@,
        with_field(part(q, "order_by"@), "kind"@, tagged("Expressions"@, terms)),
    )
}

fn order_terms_in(q: &Node) -> (r: Option<&Node>)
    ensures
        opt_tree(r) == order_terms(q.tree()),
{
    match q.field("order_by") {
        Some(o) => match o.field("kind") {
            Some(kind) => kind.payload("Expressions"),
            None => None,
        },
        None => None,
    }
}

fn set_order_terms(q: &Node, terms: Node) -> (r: Node)
    ensures
        r.tree() == with_order_terms(q.tree(), terms.tree()),
{
    let null = Node::Null;
    let order_by = q.part("order_by", &null).with_field("kind", &tag("Expressions", terms));
    q.with_field("order_by", &order_by)
}

fn align_terms(list: &Node, aliases: &Vec<String>) -> (r: Node)
    ensures
        r.tree() == mapped_list(list.tree(), |t: Tree| aligned_term(t, texts(aliases@))),
{
    broadcast use group_trees;
    let null = Node::Null;
    match list {
        Node::List(v) => {
            let mut out: Vec<Node> = Vec::new();
            let mut i: usize = 0;
            let ghost want = mapped_items(trees(v@), |t: Tree| aligned_term(t, texts(aliases@)));
            while i < v.len()
                invariant
                    null.tree() is Null,
                    i <= v@.len(),
                    want == mapped_items(trees(v@), |t: Tree| aligned_term(t, texts(aliases@))),
                    trees(out@) =~= want.take(i as int),
                decreases v.len() - i,
            {
                let expr = canonicalize_identifiers(v[i].part("expr", &null), aliases);
                push_node(&mut out, v[i].with_field("expr", &expr));
                i = i + 1;
                assert(trees(out@) =~= want.take(i as int));
            }
            assert(trees(out@) =~= want);
            Node::List(out)
        },
        _ => list.copy(),
    }
}

/// A SELECT with its aliases quoted. Columns of subqueries in FROM can be referred to
/// everywhere; the SELECT's own aliases only from the grouping clauses, for in the
/// projection such an identifier names a source column.
pub open spec fn aligned_select(s: Tree) -> Tree {
    let derived = derived_aliases(s);
    let grouping = derived + own_aliases(s);
    let a = with_field(
        s,
        "projection"@,
        mapped_list(part(s, "projection"@), |t: Tree| aligned_item(t, derived)),
    );
    let b = with_field(a, "selection"@, canonicalized(part(s, "selection"@), derived));
    let c = with_field(b, "group_by"@, aligned_group_by(part(s, "group_by"@), grouping));
    with_field(c, "having"@, canonicalized(part(s, "having"@), grouping))
}

/// A query with the casing of its aliases aligned, its subqueries left alone.
pub open spec fn aligned_query(q: Tree) -> Tree {
    match select_of(q) {
        Some(s) => {
            let grouping = derived_aliases(s) + own_aliases(s);
            let a = with_select(q, aligned_select(s));
            match order_terms(q) {
                Some(terms) => with_order_terms(
                    a,
                    mapped_list(terms, |t: Tree| aligned_term(t, grouping)),
                ),
                None => a,
            }
        },
        None => q,
    }
}

fn align_query(q: &Node) -> (r: Node)
    ensures
        r.tree() == aligned_query(q.tree()),
{
    let null = Node::Null;
    match select_in(q) {
        Some(s) => {
            let derived = derived_table_output_aliases(s);
            let own = collect_own_aliases(s);
            let mut grouping = copy_texts(&derived);
            push_texts(&mut grouping, &own);
            let a = s.with_field("projection", &align_items(s.part("projection", &null), &derived));
            let b = a.with_field(
                "selection",
                &canonicalize_identifiers(s.part("selection", &null), &derived),
            );
            let c = b.with_field("group_by", &align_group_by(s.part("group_by", &null), &grouping));
            let d = c.with_field("having", &canonicalize_identifiers(s.part("having", &null), &grouping));
            let e = q.with_field("body", &tag("Select", d));
            match order_terms_in(q) {
                Some(terms) => set_order_terms(&e, align_terms(terms, &grouping)),
                None => e,
            }
        },
        None => q.copy(),
    }
}

/// Deeper than any tree goes.
pub const MAX_DEPTH: usize = usize::MAX;

/// A tree with every query in it aligned, the outer ones first.
pub open spec fn aligned(t: Tree, depth: nat) -> Tree
    decreases depth,
{
    if depth == 0 {
        t
    } else {
        let u = if is_query(t) {
            aligned_query(t)
        } else {
            t
        };
        match u {
            Tree::List(v) => Tree::List(Seq::new(v.len(), |i: int| aligned(v[i], (depth - 1) as nat))),
            Tree::Record(fields) => Tree::Record(
                Seq::new(fields.len(), |i: int| (fields[i].0, aligned(fields[i].1, (depth - 1) as nat))),
            ),
            _ => u,
        }
    }
}

/// Aligns every query in a tree, the outer ones first.
#[verifier::loop_isolation(false)]
fn align_tree(n: &Node, depth: usize) -> (r: Node)
    ensures
        r.tree() == aligned(n.tree(), depth as nat),
    decreases depth,
{
    broadcast use group_trees;
    if depth == 0 {
        return n.copy();
    }
    let u = if is_query_node(n) {
        align_query(n)
    } else {
        n.copy()
    };
    match &u {
        Node::List(v) => {
            let mut out: Vec<Node> = Vec::new();
            let mut i: usize = 0;
            let ghost want = Seq::new(v@.len(), |j: int| aligned(trees(v@)[j], (depth - 1) as nat));
            while i < v.len()
                invariant
                    depth > 0,
                    i <= v@.len(),
                    want == Seq::new(v@.len(), |j: int| aligned(trees(v@)[j], (depth - 1) as nat)),
                    trees(out@) =~= want.take(i as int),
                decreases v.len() - i,
            {
                push_node(&mut out, align_tree(&v[i], depth - 1));
                i = i + 1;
                assert(trees(out@) =~= want.take(i as int));
            }
            assert(trees(out@) =~= want);
            assert(aligned(n.tree(), depth as nat)->List_0 =~= want);
            Node::List(out)
        },
        Node::Record(fields) => {
            let mut out: Vec<Field> = Vec::new();
            let mut i: usize = 0;
            let ghost f = pairs(fields@);
            let ghost want = Seq::new(f.len(), |j: int| (f[j].0, aligned(f[j].1, (depth - 1) as nat)));
            while i < fields.len()
                invariant
                    depth > 0,
                    i <= fields@.len(),
                    f == pairs(fields@),
                    want == Seq::new(f.len(), |j: int| (f[j].0, aligned(f[j].1, (depth - 1) as nat))),
                    pairs(out@) =~= want.take(i as int),
                decreases fields.len() - i,
            {
                put(&mut out, fields[i].key.as_str(), align_tree(&fields[i].value, depth - 1));
                i = i + 1;
                assert(pairs(out@) =~= want.take(i as int));
            }
            assert(pairs(out@) =~= want);
            assert(aligned(n.tree(), depth as nat)->Record_0 =~= want);
            Node::Record(out)
        },
        _ => u.copy(),
    }
}

/// Preserves alias casing across the identifier folding of PostgreSQL: quoting every
/// alias makes a result column keep its spelling, and the references are rewritten to
/// agree with it.
pub fn align_alias_casing(query: &Node) -> (r: Node)
    ensures
        r.tree() == aligned(query.tree(), MAX_DEPTH as nat),
{
    align_tree(query, MAX_DEPTH)
}

/// Whether a function groups its arguments: ROLLUP, CUBE and GROUPING SETS.
pub open spec fn is_grouping(f: Tree) -> bool {
    function_name(f) == Some("rollup"@) || function_name(f) == Some("cube"@) || function_name(f) == Some(
        "grouping sets"@,
    ) || function_name(f) == Some("grouping"@)
}

fn is_grouping_construct(f: &Node) -> (r: bool)
    ensures
        r == is_grouping(f.tree()),
{
    match name_of_function(f) {
        Some(n) => same(n.as_str(), "rollup") || same(n.as_str(), "cube") || same(n.as_str(), "grouping sets")
            || same(n.as_str(), "grouping"),
        None => false,
    }
}

/// The expressions of the first `n` plain arguments.
pub open spec fn plain_arguments(args: Seq<Tree>, n: int) -> Seq<Tree>
    decreases n,
{
    if n <= 0 {
        Seq::empty()
    } else {
        let before = plain_arguments(args, n - 1);
        match plain_argument(args[n - 1]) {
            Some(e) => before.push(e),
            None => before,
        }
    }
}

/// What one expression of GROUP BY groups on.
pub open spec fn groups_on(e: Tree) -> Seq<Tree> {
    match called_function(e) {
        Some(f) => if is_grouping(f) {
            match argument_list(f) {
                Some(args) => plain_arguments(args, args.len() as int),
                None => Seq::empty(),
            }
        } else {
            seq![e]
        },
        None => seq![e],
    }
}

/// What the first `n` expressions of GROUP BY group on.
pub open spec fn all_group_on(exprs: Seq<Tree>, n: int) -> Seq<Tree>
    decreases n,
{
    if n <= 0 {
        Seq::empty()
    } else {
        all_group_on(exprs, n - 1) + groups_on(exprs[n - 1])
    }
}

/// The expressions that a SELECT groups on.
pub open spec fn grouped(select: Tree) -> Seq<Tree> {
    match payload(part(select, "group_by"@), "Expressions"@) {
        Some(v) => all_group_on(items(item_at(v, 0)), items(item_at(v, 0)).len() as int),
        None => Seq::empty(),
    }
}

fn push_groups_on(out: &mut Vec<Node>, e: &Node)
    ensures
        trees(final(out)@) == trees(old(out)@) + groups_on(e.tree()),
{
    let ghost start = trees(out@);
    match function_of(e) {
        Some(f) => if is_grouping_construct(f) {
            match arguments_of(f) {
                Some(args) => {
                    let mut i: usize = 0;
                    let count: usize = args.count();
                    let ghost list = items(args.tree());
                    assert(start + plain_arguments(list, 0) =~= start);
                    while i < count
                        invariant
                            list == items(args.tree()),
                            count == list.len(),
                            i <= count,
                            trees(out@) == start + plain_arguments(list, i as int),
                        decreases count - i,
                    {
                        match argument_expr(args.item(i)) {
                            Some(x) => {
                                push_node(out, x.copy());
                                assert(trees(out@) =~= start + plain_arguments(list, i + 1));
                            },
                            None => {},
                        }
                        i = i + 1;
                    }
                },
                None => {
                    assert(groups_on(e.tree()) =~= Seq::<Tree>::empty());
                    assert(trees(out@) =~= start + groups_on(e.tree()));
                },
            }
        } else {
            push_node(out, e.copy());
            assert(trees(out@) =~= start + seq![e.tree()]);
        },
        None => {
            push_node(out, e.copy());
            assert(trees(out@) =~= start + seq![e.tree()]);
        },
    }
}

/// The expressions that a SELECT groups on, the arguments of ROLLUP, CUBE and GROUPING
/// SETS among them.
pub fn grouped_expressions(select: &Node) -> (r: Vec<Node>)
    ensures
        trees(r@) == grouped(select.tree()),
{
    let null = Node::Null;
    let mut out: Vec<Node> = Vec::new();
    assert(trees(out@) =~= Seq::<Tree>::empty());
    match select.part("group_by", &null).payload("Expressions") {
        Some(v) => {
            let exprs = v.item_at(0, &null);
            let mut i: usize = 0;
            let count: usize = exprs.count();
            let ghost list = items(exprs.tree());
            while i < count
                invariant
                    list == items(exprs.tree()),
                    count == list.len(),
                    i <= count,
                    trees(out@) == all_group_on(list, i as int),
                decreases count - i,
            {
                push_groups_on(&mut out, exprs.item(i));
                i = i + 1;
            }
        },
        None => {},
    }
    out
}

/// Whether GROUP BY refers to an alias.
pub open spec fn alias_grouped(alias: Seq<char>, grouped: Seq<Tree>) -> bool {
    exists|i: int|
        0 <= i < grouped.len() && (payload(#[trigger] grouped[i], "Identifier"@) matches Some(ident)
            && same_ignoring_case(ident_value(ident), alias))
}

fn alias_is_grouped(alias: &str, grouped: &Vec<Node>) -> (r: bool)
    ensures
        r == alias_grouped(alias@, trees(grouped@)),
{
    let mut i: usize = 0;
    while i < grouped.len()
        invariant
            i <= grouped@.len(),
            forall|j: int|
                0 <= j < i ==> !(payload(#[trigger] trees(grouped@)[j], "Identifier"@) matches Some(ident)
                    && same_ignoring_case(ident_value(ident), alias@)),
        decreases grouped.len() - i,
    {
        match grouped[i].payload("Identifier") {
            Some(ident) => {
                if eq_ignore_case(value_of_ident(ident).as_str(), alias) {
                    assert(payload(trees(grouped@)[i as int], "Identifier"@) is Some);
                    return true;
                }
            },
            None => {},
        }
        i = i + 1;
    }
    false
}

/// The identifier under which a plain column is known in the result.
pub open spec fn implicit_alias(e: Tree) -> Tree {
    match payload(e, "Identifier"@) {
        Some(ident) => ident,
        None => match payload(e, "CompoundIdentifier"@) {
            Some(parts) => if items(parts).len() > 0 {
                items(parts).last()
            } else {
                Tree::Null
            },
            None => Tree::Null,
        },
    }
}

pub fn implicit_column_alias(e: &Node) -> (r: Node)
    ensures
        r.tree() == implicit_alias(e.tree()),
{
    match e.payload("Identifier") {
        Some(ident) => ident.copy(),
        None => match e.payload("CompoundIdentifier") {
            Some(parts) => {
                let count: usize = parts.count();
                if count > 0 {
                    parts.item(count - 1).copy()
                } else {
                    Node::Null
                }
            },
            None => Node::Null,
        },
    }
}

/// An expression under an alias.
pub open spec fn aliased(e: Tree, alias: Tree) -> Tree {
    tagged("ExprWithAlias"@, Tree::Record(seq![("alias"@, alias), ("expr"@, e)]))
}

fn aliased_node(e: Node, alias: Node) -> (r: Node)
    ensures
        r.tree() == aliased(e.tree(), alias.tree()),
{
    broadcast use group_trees;
    let ghost a = alias.tree();
    let ghost x = e.tree();
    let mut f: Vec<Field> = Vec::new();
    put(&mut f, "alias", alias);
    put(&mut f, "expr", e);
    assert(pairs(f@) =~= seq![("alias"@, a), ("expr"@, x)]);
    tag("ExprWithAlias", Node::Record(f))
}

/// Whether an item of a grouped SELECT list is one that PostgreSQL rejects.
pub open spec fn item_needs_relaxation(item: Tree, grouped: Seq<Tree>) -> bool {
    match item_expr(item) {
        Some(e) => !grouped.contains(e) && needs_relaxation(e, grouped) && match item_alias(item) {
            Some(alias) => !alias_grouped(ident_value(alias), grouped),
            None => true,
        },
        None => false,
    }
}

/// Such an item as the minimum over the group. A plain column keeps its name.
pub open spec fn relaxed_item(item: Tree, grouped: Seq<Tree>) -> Tree {
    if item_needs_relaxation(item, grouped) {
        let e = item_expr(item)->Some_0;
        if item_alias(item) is None && is_column(e) {
            aliased(min_tree(e), implicit_alias(e))
        } else {
            with_item_expr(item, min_tree(e))
        }
    } else {
        item
    }
}

fn needs_item_relaxation(item: &Node, grouped: &Vec<Node>) -> (r: bool)
    ensures
        r == item_needs_relaxation(item.tree(), trees(grouped@)),
{
    let null = Node::Null;
    match expr_of_item(item, &null) {
        Some(e) => {
            if holds_tree(grouped, e) || !needs_group_by_relaxation(e, grouped) {
                return false;
            }
            match item.payload("ExprWithAlias") {
                Some(x) => !alias_is_grouped(value_of_ident(x.part("alias", &null)).as_str(), grouped),
                None => true,
            }
        },
        None => false,
    }
}

fn relax_item(item: &Node, grouped: &Vec<Node>) -> (r: (Node, bool))
    ensures
        r.0.tree() == relaxed_item(item.tree(), trees(grouped@)),
        r.1 == item_needs_relaxation(item.tree(), trees(grouped@)),
{
    let null = Node::Null;
    if !needs_item_relaxation(item, grouped) {
        return (item.copy(), false);
    }
    match expr_of_item(item, &null) {
        Some(e) => {
            if item.payload("ExprWithAlias").is_none() && is_plain_column(e) {
                (aliased_node(wrap_in_min(e.copy()), implicit_column_alias(e)), true)
            } else {
                (set_item_expr(item, wrap_in_min(e.copy())), true)
            }
        },
        None => (item.copy(), false),
    }
}

/// An item whose expression is boolean in PostgreSQL, cast to an integer.
pub open spec fn integerized_item(item: Tree) -> Tree {
    match item_expr(item) {
        Some(e) => if yields_boolean(e) {
            with_item_expr(item, cast_to_int(e))
        } else {
            item
        },
        None => item,
    }
}

fn integerize_item(item: &Node) -> (r: Node)
    ensures
        r.tree() == integerized_item(item.tree()),
{
    let null = Node::Null;
    match expr_of_item(item, &null) {
        Some(e) => if yields_boolean_in_postgres(e) {
            set_item_expr(item, cast_node(e.copy(), tag("Int", Node::Null)))
        } else {
            item.copy()
        },
        None => item.copy(),
    }
}

/// An item relaxed, where the SELECT is grouped, and integerized.
pub open spec fn fixed_item(item: Tree, grouped: Seq<Tree>) -> Tree {
    integerized_item(
        if grouped.len() == 0 {
            item
        } else {
            relaxed_item(item, grouped)
        },
    )
}

/// Whether one of the first `n` items was relaxed.
pub open spec fn any_relaxed(list: Seq<Tree>, grouped: Seq<Tree>, n: int) -> bool
    decreases n,
{
    n > 0 && grouped.len() > 0 && (item_needs_relaxation(list[n - 1], grouped) || any_relaxed(
        list,
        grouped,
        n - 1,
    ))
}

/// MySQL lets a SELECT list refer to a column that is neither grouped nor aggregated
/// and returns any of its values; the minimum is a deterministic stand-in. A boolean
/// item becomes an integer, which is what MySQL returns.
pub fn relax_mysql_group_by_projection(list: &Node, grouped: &Vec<Node>) -> (r: (Node, bool))
    ensures
        r.0.tree() == mapped_list(list.tree(), |t: Tree| fixed_item(t, trees(grouped@))),
        r.1 == any_relaxed(items(list.tree()), trees(grouped@), items(list.tree()).len() as int),
{
    broadcast use group_trees;
    match list {
        Node::List(v) => {
            let mut out: Vec<Node> = Vec::new();
            let mut changed = false;
            let mut i: usize = 0;
            let ghost want = mapped_items(trees(v@), |t: Tree| fixed_item(t, trees(grouped@)));
            while i < v.len()
                invariant
                    i <= v@.len(),
                    want == mapped_items(trees(v@), |t: Tree| fixed_item(t, trees(grouped@))),
                    trees(out@) =~= want.take(i as int),
                    changed == any_relaxed(trees(v@), trees(grouped@), i as int),
                decreases v.len() - i,
            {
                if grouped.len() == 0 {
                    push_node(&mut out, integerize_item(&v[i]));
                } else {
                    let (item, relaxed) = relax_item(&v[i], grouped);
                    push_node(&mut out, integerize_item(&item));
                    changed = changed || relaxed;
                }
                i = i + 1;
                assert(trees(out@) =~= want.take(i as int));
            }
            assert(trees(out@) =~= want);
            (Node::List(out), changed)
        },
        _ => (list.copy(), false),
    }
}

/// The names that the first `n` items expose to ORDER BY.
pub open spec fn output_names(list: Seq<Tree>, n: int) -> Seq<Seq<char>>
    decreases n,
{
    if n <= 0 {
        Seq::empty()
    } else {
        let before = output_names(list, n - 1);
        match item_alias(list[n - 1]) {
            Some(alias) => before.push(ident_value(alias)),
            None => match payload(list[n - 1], "UnnamedExpr"@) {
                Some(e) => if is_column(e) {
                    before.push(ident_value(implicit_alias(e)))
                } else {
                    before
                },
                None => before,
            },
        }
    }
}

/// The names a SELECT exposes to ORDER BY: its aliases, and the names of its plain
/// columns.
pub fn select_output_names(list: &Node) -> (r: Vec<String>)
    ensures
        texts(r@) == output_names(items(list.tree()), items(list.tree()).len() as int),
{
    let null = Node::Null;
    let mut out: Vec<String> = Vec::new();
    let mut i: usize = 0;
    let count: usize = list.count();
    let ghost all = items(list.tree());
    assert(texts(out@) =~= Seq::<Seq<char>>::empty());
    while i < count
        invariant
            null.tree() is Null,
            all == items(list.tree()),
            count == all.len(),
            i <= count,
            texts(out@) == output_names(all, i as int),
        decreases count - i,
    {
        let item = list.item(i);
        match item.payload("ExprWithAlias") {
            Some(x) => {
                push_text(&mut out, value_of_ident(x.part("alias", &null)));
            },
            None => match item.payload("UnnamedExpr") {
                Some(e) => {
                    if is_plain_column(e) {
                        push_text(&mut out, value_of_ident(&implicit_column_alias(e)));
                    }
                },
                None => {},
            },
        }
        i = i + 1;
    }
    out
}

/// Whether an expression is a name that the SELECT exposes.
pub open spec fn names_output(e: Tree, names: Seq<Seq<char>>) -> bool {
    match payload(e, "Identifier"@) {
        Some(ident) => listed_ignoring_case(names, ident_value(ident)),
        None => false,
    }
}

fn references_output_name(e: &Node, names: &Vec<String>) -> (r: bool)
    ensures
        r == names_output(e.tree(), texts(names@)),
{
    match e.payload("Identifier") {
        Some(ident) => contains_ignore_case(names, value_of_ident(ident).as_str()),
        None => false,
    }
}

/// Whether a sort term of a grouped query is one that PostgreSQL rejects.
pub open spec fn term_needs_relaxation(o: Tree, grouped: Seq<Tree>, names: Seq<Seq<char>>) -> bool {
    let e = part(o, "expr"@);
    !names_output(e, names) && !grouped.contains(e) && needs_relaxation(e, grouped)
}

pub open spec fn relaxed_term(o: Tree, grouped: Seq<Tree>, names: Seq<Seq<char>>) -> Tree {
    if term_needs_relaxation(o, grouped, names) {
        with_field(o, "expr"@, min_tree(part(o, "expr"@)))
    } else {
        o
    }
}

/// Whether one of the first `n` sort terms was relaxed.
pub open spec fn any_term_relaxed(list: Seq<Tree>, grouped: Seq<Tree>, names: Seq<Seq<char>>, n: int) -> bool
    decreases n,
{
    n > 0 && (term_needs_relaxation(list[n - 1], grouped, names) || any_term_relaxed(
        list,
        grouped,
        names,
        n - 1,
    ))
}

fn relax_terms(list: &Node, grouped: &Vec<Node>, names: &Vec<String>) -> (r: (Node, bool))
    ensures
        r.0.tree() == mapped_list(
            list.tree(),
            |t: Tree| relaxed_term(t, trees(grouped@), texts(names@)),
        ),
        r.1 == any_term_relaxed(
            items(list.tree()),
            trees(grouped@),
            texts(names@),
            items(list.tree()).len() as int,
        ),
{
    broadcast use group_trees;
    let null = Node::Null;
    match list {
        Node::List(v) => {
            let mut out: Vec<Node> = Vec::new();
            let mut changed = false;
            let mut i: usize = 0;
            let ghost want = mapped_items(
                trees(v@),
                |t: Tree| relaxed_term(t, trees(grouped@), texts(names@)),
            );
            while i < v.len()
                invariant
                    null.tree() is Null,
                    i <= v@.len(),
                    want == mapped_items(
                        trees(v@),
                        |t: Tree| relaxed_term(t, trees(grouped@), texts(names@)),
                    ),
                    trees(out@) =~= want.take(i as int),
                    changed == any_term_relaxed(trees(v@), trees(grouped@), texts(names@), i as int),
                decreases v.len() - i,
            {
                let e = v[i].part("expr", &null);
                if references_output_name(e, names) || holds_tree(grouped, e) || !needs_group_by_relaxation(
                    e,
                    grouped,
                ) {
                    push_node(&mut out, v[i].copy());
                } else {
                    push_node(&mut out, v[i].with_field("expr", &wrap_in_min(e.copy())));
                    changed = true;
                }
                i = i + 1;
                assert(trees(out@) =~= want.take(i as int));
            }
            assert(trees(out@) =~= want);
            (Node::List(out), changed)
        },
        _ => (list.copy(), false),
    }
}

/// A query with its SELECT list relaxed and integerized.
pub open spec fn projection_fixed(q: Tree) -> Tree {
    match select_of(q) {
        Some(s) => with_select(
            q,
            with_field(
                s,
                "projection"@,
                mapped_list(part(s, "projection"@), |t: Tree| fixed_item(t, grouped(s))),
            ),
        ),
        None => q,
    }
}

/// The expressions that a query groups on.
pub open spec fn query_grouped(q: Tree) -> Seq<Tree> {
    match select_of(q) {
        Some(s) => grouped(s),
        None => Seq::empty(),
    }
}

/// Whether the SELECT list of a query was relaxed.
pub open spec fn projection_changed(q: Tree) -> bool {
    match select_of(q) {
        Some(s) => any_relaxed(
            items(part(s, "projection"@)),
            grouped(s),
            items(part(s, "projection"@)).len() as int,
        ),
        None => false,
    }
}

/// The names that a query exposes to its ORDER BY.
pub open spec fn query_names(q: Tree) -> Seq<Seq<char>> {
    match select_of(q) {
        Some(s) => output_names(
            items(part(s, "projection"@)),
            items(part(s, "projection"@)).len() as int,
        ),
        None => Seq::empty(),
    }
}

/// A query with its sort terms relaxed, given what it groups on.
pub open spec fn order_fixed(q: Tree, grouped: Seq<Tree>) -> (Tree, bool) {
    match order_terms(q) {
        Some(terms) => if grouped.len() > 0 {
            (
                with_order_terms(
                    q,
                    mapped_list(terms, |t: Tree| relaxed_term(t, grouped, query_names(q))),
                ),
                any_term_relaxed(items(terms), grouped, query_names(q), items(terms).len() as int),
            )
        } else {
            (q, false)
        },
        None => (q, false),
    }
}

/// A query as PostgreSQL accepts it, its subqueries left alone but for their casts, and
/// whether a column was wrapped in MIN.
pub open spec fn fixed_query(q: Tree) -> (Tree, bool) {
    let normalized = passed_over(PassKind::Normalize, projection_fixed(q), false);
    let ordered = order_fixed(normalized, query_grouped(q));
    (ordered.0, projection_changed(q) || ordered.1)
}

fn fix_order(q: Node, grouped: &Vec<Node>) -> (r: (Node, bool))
    ensures
        (r.0.tree(), r.1) == order_fixed(q.tree(), trees(grouped@)),
{
    let null = Node::Null;
    if grouped.len() == 0 {
        return (q, false);
    }
    let names = match select_in(&q) {
        Some(s) => select_output_names(s.part("projection", &null)),
        None => {
            let none: Vec<String> = Vec::new();
            assert(texts(none@) =~= Seq::<Seq<char>>::empty());
            none
        },
    };
    let rewritten = match order_terms_in(&q) {
        Some(terms) => {
            let (list, changed) = relax_terms(terms, grouped, &names);
            Some((set_order_terms(&q, list), changed))
        },
        None => None,
    };
    match rewritten {
        Some(out) => out,
        None => (q, false),
    }
}

fn fix_query(q: &Node) -> (r: (Node, bool))
    ensures
        (r.0.tree(), r.1) == fixed_query(q.tree()),
{
    let null = Node::Null;
    let mut groups: Vec<Node> = Vec::new();
    let mut changed = false;
    let fixed = match select_in(q) {
        Some(s) => {
            groups = grouped_expressions(s);
            let (list, relaxed) = relax_mysql_group_by_projection(s.part("projection", &null), &groups);
            changed = relaxed;
            q.with_field("body", &tag("Select", s.with_field("projection", &list)))
        },
        None => {
            assert(trees(groups@) =~= Seq::<Tree>::empty());
            q.copy()
        },
    };
    let normalized = pass_over(&Pass::Normalize, &fixed, false);
    let (ordered, sorted) = fix_order(normalized, &groups);
    (ordered, changed || sorted)
}

/// What a tree is before its parts are fixed.
pub open spec fn fixed_top(t: Tree) -> Tree {
    if is_query(t) {
        fixed_query(t).0
    } else {
        t
    }
}

/// A tree with every query in it fixed, the outer ones first.
pub open spec fn fixed(t: Tree, depth: nat) -> Tree
    decreases depth,
{
    if depth == 0 {
        t
    } else {
        match fixed_top(t) {
            Tree::List(v) => Tree::List(Seq::new(v.len(), |i: int| fixed(v[i], (depth - 1) as nat))),
            Tree::Record(fields) => Tree::Record(
                Seq::new(fields.len(), |i: int| (fields[i].0, fixed(fields[i].1, (depth - 1) as nat))),
            ),
            u => u,
        }
    }
}

/// Whether fixing the queries in a tree wrapped a column in MIN.
pub open spec fn any_fixed(t: Tree, depth: nat) -> bool
    decreases depth, 1int, 0nat,
{
    depth > 0 && ((is_query(t) && fixed_query(t).1) || match fixed_top(t) {
        Tree::List(v) => any_item_fixed(v, depth, v.len()),
        Tree::Record(fields) => any_field_fixed(fields, depth, fields.len()),
        _ => false,
    })
}

pub open spec fn any_item_fixed(v: Seq<Tree>, depth: nat, n: nat) -> bool
    decreases depth, 0int, n,
{
    depth > 0 && 0 < n <= v.len() && (any_fixed(v[n - 1], (depth - 1) as nat) || any_item_fixed(
        v,
        depth,
        (n - 1) as nat,
    ))
}

pub open spec fn any_field_fixed(fields: Seq<(Seq<char>, Tree)>, depth: nat, n: nat) -> bool
    decreases depth, 0int, n,
{
    depth > 0 && 0 < n <= fields.len() && (any_fixed(fields[n - 1].1, (depth - 1) as nat) || any_field_fixed(
        fields,
        depth,
        (n - 1) as nat,
    ))
}

/// Fixes every query in a tree, the outer ones first.
#[verifier::loop_isolation(false)]
fn fix_tree(n: &Node, depth: usize) -> (r: (Node, bool))
    ensures
        r.0.tree() == fixed(n.tree(), depth as nat),
        r.1 == any_fixed(n.tree(), depth as nat),
    decreases depth,
{
    broadcast use group_trees;
    if depth == 0 {
        return (n.copy(), false);
    }
    let (u, top) = if is_query_node(n) {
        fix_query(n)
    } else {
        (n.copy(), false)
    };
    assert(u.tree() == fixed_top(n.tree()));
    match &u {
        Node::List(v) => {
            let mut out: Vec<Node> = Vec::new();
            let mut changed = false;
            let mut i: usize = 0;
            let ghost want = Seq::new(v@.len(), |j: int| fixed(trees(v@)[j], (depth - 1) as nat));
            while i < v.len()
                invariant
                    depth > 0,
                    i <= v@.len(),
                    want == Seq::new(v@.len(), |j: int| fixed(trees(v@)[j], (depth - 1) as nat)),
                    trees(out@) =~= want.take(i as int),
                    changed == any_item_fixed(trees(v@), depth as nat, i as nat),
                decreases v.len() - i,
            {
                let (item, any) = fix_tree(&v[i], depth - 1);
                push_node(&mut out, item);
                changed = any || changed;
                i = i + 1;
                assert(trees(out@) =~= want.take(i as int));
            }
            assert(trees(out@) =~= want);
            assert(fixed(n.tree(), depth as nat)->List_0 =~= want);
            (Node::List(out), top || changed)
        },
        Node::Record(fields) => {
            let mut out: Vec<Field> = Vec::new();
            let mut changed = false;
            let mut i: usize = 0;
            let ghost f = pairs(fields@);
            let ghost want = Seq::new(f.len(), |j: int| (f[j].0, fixed(f[j].1, (depth - 1) as nat)));
            while i < fields.len()
                invariant
                    depth > 0,
                    i <= fields@.len(),
                    f == pairs(fields@),
                    want == Seq::new(f.len(), |j: int| (f[j].0, fixed(f[j].1, (depth - 1) as nat))),
                    pairs(out@) =~= want.take(i as int),
                    changed == any_field_fixed(f, depth as nat, i as nat),
                decreases fields.len() - i,
            {
                let (value, any) = fix_tree(&fields[i].value, depth - 1);
                put(&mut out, fields[i].key.as_str(), value);
                changed = any || changed;
                i = i + 1;
                assert(pairs(out@) =~= want.take(i as int));
            }
            assert(pairs(out@) =~= want);
            assert(fixed(n.tree(), depth as nat)->Record_0 =~= want);
            (Node::Record(out), top || changed)
        },
        _ => (u.copy(), top),
    }
}

/// The warning about columns that were wrapped in MIN.
pub const MIN_WARNING: &'static str =
    "wrapped ungrouped, non-aggregated SELECT columns in MIN(...) to satisfy PostgreSQL's stricter GROUP BY rules (MySQL allows this by default)";

/// A query without positions and with its aliases aligned.
pub open spec fn prepared_query(query: Tree) -> Tree {
    aligned(without_positions(query), MAX_DEPTH as nat)
}

/// A query as PostgreSQL accepts it.
pub open spec fn compatible_query(query: Tree) -> Tree {
    fixed(prepared_query(query), MAX_DEPTH as nat)
}

/// The warnings about a query.
pub open spec fn query_warnings(query: Tree) -> Seq<Seq<char>> {
    if any_fixed(prepared_query(query), MAX_DEPTH as nat) {
        seq![MIN_WARNING@]
    } else {
        Seq::empty()
    }
}

/// Rewrites a query to the form that PostgreSQL accepts.
pub fn make_compatible(query: &Node) -> (r: (Node, Vec<String>))
    ensures
        r.0.tree() == compatible_query(query.tree()),
        texts(r.1@) == query_warnings(query.tree()),
{
    let bare = drop_positions(query);
    let prepared = align_alias_casing(&bare);
    let (out, changed) = fix_tree(&prepared, MAX_DEPTH);
    let mut warnings: Vec<String> = Vec::new();
    if changed {
        push_text(&mut warnings, MIN_WARNING.to_string());
        assert(texts(warnings@) =~= seq![MIN_WARNING@]);
    } else {
        assert(texts(warnings@) =~= Seq::<Seq<char>>::empty());
    }
    (out, warnings)
}

/// An ungrouped query keeps every item of its SELECT list but for the booleans.
pub proof fn ungrouped_queries_are_not_relaxed(item: Tree)
    ensures
        fixed_item(item, Seq::empty()) == integerized_item(item),
{
}

/// A grouped expression is never wrapped.
pub proof fn grouped_expressions_are_kept(item: Tree, grouped: Seq<Tree>)
    requires
        item_expr(item) matches Some(e) && grouped.contains(e),
    ensures
        relaxed_item(item, grouped) == item,
{
}

} // verus!
