//! What is kept from the parser, and what is kept from being written.
use vstd::prelude::*;

use crate::parser::{
    answers_mysql, odd_channel, odd_division, unscoped_authorization, writable, Mark,
};
use crate::tree::{tagged, Tree};

verus! {

/// A text in which an operand of DIV, a channel or a scope is missing never reaches the parser, which
/// takes them for granted.
pub proof fn incomplete_texts_are_not_parsed(m: Seq<Mark>, i: int)
    requires
        0 <= i < m.len(),
    ensures
        m[i] == Mark::Div && i + 1 == m.len() ==> !answers_mysql(m),
        m[i] == Mark::Div && i + 1 < m.len() && (m[i + 1] == Mark::Comma || m[i + 1] == Mark::Close || m[i + 1]
            == Mark::Semicolon || m[i + 1] == Mark::Clause || m[i + 1] == Mark::Operator || m[i + 1] == Mark::Div)
            ==> !answers_mysql(m),
        m[i] == Mark::Relay && i + 4 == m.len() && m[i + 1] == Mark::Logs && m[i + 2] == Mark::For && m[i + 3]
            == Mark::Channel ==> !answers_mysql(m),
        m[i] == Mark::SetWord && i + 2 < m.len() && m[i + 1] == Mark::Authorization && m[i + 2] == Mark::Name
            ==> !answers_mysql(m),
{
    if m[i] == Mark::Div {
        if i + 1 == m.len() {
            assert(!crate::parser::plain_operand(m, i + 1));
        }
        assert(odd_division(m, i) ==> !answers_mysql(m));
        if i + 1 < m.len() && (m[i + 1] == Mark::Comma || m[i + 1] == Mark::Close || m[i + 1] == Mark::Semicolon || m[i + 1]
            == Mark::Clause || m[i + 1] == Mark::Operator || m[i + 1] == Mark::Div) {
            assert(!crate::parser::plain_operand(m, i + 1));
            assert(odd_division(m, i));
        }
        if i + 1 == m.len() {
            assert(odd_division(m, i));
        }
    }
    assert(odd_channel(m, i) ==> !answers_mysql(m));
    assert(unscoped_authorization(m, i + 1) ==> !answers_mysql(m));
}

/// A text without DIV, channels and authorizations is parsed.
pub proof fn other_texts_are_parsed(m: Seq<Mark>)
    requires
        forall|i: int|
            0 <= i < m.len() ==> (#[trigger] m[i]) != Mark::Div && m[i] != Mark::Channel && m[i] != Mark::Authorization,
    ensures
        answers_mysql(m),
{
    assert forall|i: int| !#[trigger] odd_channel(m, i) by {
        if odd_channel(m, i) {
            assert(m[i + 3] == Mark::Channel);
        }
    }
}

/// A division by one name or number is parsed.
pub proof fn plain_divisions_are_parsed(a: Mark, b: Mark)
    requires
        a == Mark::Name || a == Mark::Number,
        b == Mark::Name || b == Mark::Number,
    ensures
        answers_mysql(seq![Mark::Word, a, Mark::Div, b]),
{
    let m = seq![Mark::Word, a, Mark::Div, b];
    reveal_with_fuel(crate::parser::expression_from, 3);
    reveal_with_fuel(crate::parser::depth, 6);
    assert(crate::parser::plain_operand(m, 3));
    assert(crate::parser::depth(m, m.len()) <= crate::parser::MAX_DEPTH);
    assert forall|i: int| !#[trigger] odd_division(m, i) by {
        if 0 <= i < m.len() && m[i] == Mark::Div {
            assert(i == 2);
        }
    }
    assert forall|i: int| !#[trigger] odd_channel(m, i) by {}
    assert forall|i: int| !#[trigger] unscoped_authorization(m, i) by {}
}

/// A query of a table without a name, and a limit without a number, are never written.
pub proof fn unfinished_trees_are_not_written(other: Tree)
    ensures
        !writable(
            Tree::Record(
                seq![("body"@, tagged("Table"@, Tree::Record(seq![("schema_name"@, Tree::Null), ("table_name"@, Tree::Null)])))],
            ),
        ),
        !writable(
            tagged(
                "LimitOffset"@,
                Tree::Record(
                    seq![("limit"@, Tree::Null), ("limit_by"@, Tree::List(seq![other])), ("offset"@, Tree::Null)],
                ),
            ),
        ),
        !writable(Tree::Record(seq![("quote_style"@, Tree::Text("x"@)), ("value"@, Tree::Text("a"@))])),
        writable(Tree::Null),
        writable(Tree::Text("a"@)),
{
    lemma_unfinished(other);
}

proof fn lemma_unfinished(other: Tree)
    ensures
        !writable(
            Tree::Record(
                seq![("body"@, tagged("Table"@, Tree::Record(seq![("schema_name"@, Tree::Null), ("table_name"@, Tree::Null)])))],
            ),
        ),
        !writable(
            tagged(
                "LimitOffset"@,
                Tree::Record(
                    seq![("limit"@, Tree::Null), ("limit_by"@, Tree::List(seq![other])), ("offset"@, Tree::Null)],
                ),
            ),
        ),
        !writable(Tree::Record(seq![("quote_style"@, Tree::Text("x"@)), ("value"@, Tree::Text("a"@))])),
{
    reveal_strlit("body");
    reveal_strlit("left");
    reveal_strlit("right");
    reveal_strlit("Table");
    reveal_strlit("schema_name");
    reveal_strlit("table_name");
    reveal_strlit("LimitOffset");
    reveal_strlit("limit");
    reveal_strlit("limit_by");
    reveal_strlit("offset");
    reveal_strlit("quote_style");
    reveal_strlit("value");
    reveal_strlit("keyword");
    reveal_strlit("x");
    reveal_strlit("Word");
    reveal_strlit("last_field");
    assert("body"@.len() == 4);
    assert("left"@.len() == 4);
    assert("right"@.len() == 5);
    assert("Table"@.len() == 5);
    assert("schema_name"@.len() == 11);
    assert("table_name"@.len() == 10);
    assert("LimitOffset"@.len() == 11);
    assert("limit"@.len() == 5);
    assert("limit_by"@.len() == 8);
    assert("offset"@.len() == 6);
    assert("quote_style"@.len() == 11);
    assert("value"@.len() == 5);
    assert("keyword"@.len() == 7);
    assert("x"@.len() == 1);
    assert("Word"@.len() == 4);
    assert("last_field"@.len() == 10);
    assert("body"@[0] != "left"@[0]);
    assert("body"@[0] != "Word"@[0]);
    assert("left"@[0] != "Word"@[0]);
    assert("right"@[0] != "Table"@[0]);
    assert("right"@[0] != "limit"@[0]);
    assert("right"@[0] != "value"@[0]);
    assert("Table"@[0] != "limit"@[0]);
    assert("Table"@[0] != "value"@[0]);
    assert("schema_name"@[0] != "LimitOffset"@[0]);
    assert("schema_name"@[0] != "quote_style"@[0]);
    assert("table_name"@[0] != "last_field"@[0]);
    assert("LimitOffset"@[0] != "quote_style"@[0]);
    assert("limit"@[0] != "value"@[0]);
    reveal_with_fuel(crate::parser::fields_writable, 4);
    reveal_with_fuel(crate::parser::part_writable, 4);
    let names = seq![("schema_name"@, Tree::Null), ("table_name"@, Tree::Null)];
    assert(names[1].0 == "table_name"@ && names[1].1 is Null);
    let table = seq![("Table"@, Tree::Record(names))];
    assert(!crate::parser::is_given(names, "table_name"@));
    assert(!crate::parser::table_fits(Tree::Record(names)));
    assert(table[0].0 == "Table"@ && table[0].1 == Tree::Record(names));
    assert(!crate::parser::field_fits(table, 0, true));
    assert(!crate::parser::fields_writable(table, 1, true));
    let body = seq![("body"@, Tree::Record(table))];
    assert(body[0].1 == Tree::Record(table));
    assert(!crate::parser::part_writable(Tree::Record(table), true));
    assert(!crate::parser::fields_writable(body, 1, false));
    let by = Tree::List(seq![other]);
    let limits = seq![("limit"@, Tree::Null), ("limit_by"@, by), ("offset"@, Tree::Null)];
    assert(limits[0].0 == "limit"@ && limits[0].1 is Null);
    assert(limits[1].0 == "limit_by"@ && limits[1].1 == by);
    assert(!crate::parser::is_given(limits, "limit"@));
    assert(crate::parser::has_filled(limits, "limit_by"@));
    let clause = seq![("LimitOffset"@, Tree::Record(limits))];
    assert(clause[0].1 == Tree::Record(limits));
    assert(!crate::parser::limit_fits(Tree::Record(limits)));
    assert(!crate::parser::field_fits(clause, 0, false));
    assert(!crate::parser::fields_writable(clause, 1, false));
    let ident = seq![("quote_style"@, Tree::Text("x"@)), ("value"@, Tree::Text("a"@))];
    assert(ident[0].0 == "quote_style"@ && ident[0].1 == Tree::Text("x"@));
    reveal_strlit("\"");
    reveal_strlit("`");
    reveal_strlit("[");
    reveal_strlit("'");
    assert("x"@[0] == 'x' && "\""@[0] == '"' && "`"@[0] == '`' && "["@[0] == '[' && "'"@[0] == '\'');
    assert(!crate::parser::has_key(ident, "keyword"@));
    assert(!crate::parser::field_fits(ident, 0, false));
    assert(!crate::parser::fields_writable(ident, 1, false));
    assert(!crate::parser::fields_writable(ident, 2, false));
}

} // verus!
