//! Names in syntax trees: identifiers, qualified names and the names of indexes.
use vstd::prelude::*;

use crate::error::{translation_error, Failure, MiddlewareError};
use crate::parser::{object_name_sql, render_object_name, show, shown};
use crate::quoting::{quote_ident, quoted_ident};
use crate::text::{
    begins, cat2, cat3, char_lower, chars_of, is_identifier_char, is_word, join, joined, lower,
    opt_text, push_text, starts_with, texts, trim_matches, unpadded,
};
use crate::tree::{items, part, payload, single, text_of, Node, Tree};

verus! {

/// The text of an identifier, without its quotes.
pub open spec fn ident_value(t: Tree) -> Seq<char> {
    text_of(part(t, "value"@))
}

pub fn value_of_ident(n: &Node) -> (r: String)
    ensures
        r@ == ident_value(n.tree()),
{
    n.text_part("value")
}

/// The values of a list of identifiers.
pub open spec fn ident_values(list: Seq<Tree>) -> Seq<Seq<char>> {
    Seq::new(list.len(), |i: int| ident_value(list[i]))
}

pub fn values_of_idents(n: &Node) -> (r: Vec<String>)
    ensures
        texts(r@) == ident_values(items(n.tree())),
{
    let mut out: Vec<String> = Vec::new();
    let mut i: usize = 0;
    let count: usize = n.count();
    while i < count
        invariant
            count == items(n.tree()).len(),
            i <= count,
            texts(out@) =~= ident_values(items(n.tree())).take(i as int),
        decreases count - i,
    {
        push_text(&mut out, value_of_ident(n.item(i)));
        i = i + 1;
        assert(texts(out@) =~= ident_values(items(n.tree())).take(i as int));
    }
    assert(texts(out@) =~= ident_values(items(n.tree())));
    out
}

/// The identifier that a part of a qualified name is, if it is one.
pub open spec fn part_ident(t: Tree) -> Option<Seq<char>> {
    match payload(t, "Identifier"@) {
        Some(ident) => Some(ident_value(ident)),
        None => None,
    }
}

pub fn ident_of_part(n: &Node) -> (r: Option<String>)
    ensures
        opt_text(r) == part_ident(n.tree()),
{
    match n.payload("Identifier") {
        Some(ident) => Some(value_of_ident(ident)),
        None => None,
    }
}

/// A part of a qualified name as the parser writes it.
pub open spec fn part_text(t: Tree) -> Seq<char> {
    shown(object_name_sql(Tree::List(seq![t])))
}

fn render_part(n: &Node) -> (r: String)
    ensures
        r@ == part_text(n.tree()),
{
    let name = single(n.copy());
    show(render_object_name(&name))
}

/// A part of a qualified name, quoted where it is an identifier.
pub open spec fn quoted_part(t: Tree) -> Seq<char> {
    match part_ident(t) {
        Some(name) => quoted_ident(name),
        None => part_text(t),
    }
}

pub open spec fn quoted_parts(list: Seq<Tree>) -> Seq<Seq<char>> {
    Seq::new(list.len(), |i: int| quoted_part(list[i]))
}

/// A qualified name with each identifier quoted.
pub open spec fn quoted_name(t: Tree) -> Seq<char> {
    joined(quoted_parts(items(t)), "."@)
}

/// Quotes each identifier of a qualified name.
pub fn quote_object_name(n: &Node) -> (r: String)
    ensures
        r@ == quoted_name(n.tree()),
{
    let mut out: Vec<String> = Vec::new();
    let mut i: usize = 0;
    let count: usize = n.count();
    while i < count
        invariant
            count == items(n.tree()).len(),
            i <= count,
            texts(out@) =~= quoted_parts(items(n.tree())).take(i as int),
        decreases count - i,
    {
        let p = n.item(i);
        let text = match ident_of_part(p) {
            Some(name) => quote_ident(name.as_str()),
            None => render_part(p),
        };
        push_text(&mut out, text);
        i = i + 1;
        assert(texts(out@) =~= quoted_parts(items(n.tree())).take(i as int));
    }
    assert(texts(out@) =~= quoted_parts(items(n.tree())));
    join(&out, ".")
}

/// The last part of a qualified name as the parser writes it.
pub open spec fn name_tail(t: Tree) -> Seq<char> {
    if items(t).len() > 0 {
        part_text(items(t).last())
    } else {
        shown(object_name_sql(t))
    }
}

pub fn object_name_tail(n: &Node) -> (r: String)
    ensures
        r@ == name_tail(n.tree()),
{
    let count: usize = n.count();
    if count > 0 {
        render_part(n.item(count - 1))
    } else {
        show(render_object_name(n))
    }
}

/// The identifier of the last part of a qualified name, without its quotes.
pub open spec fn bare_tail(t: Tree) -> Seq<char> {
    if items(t).len() > 0 && part_ident(items(t).last()) is Some {
        part_ident(items(t).last())->Some_0
    } else {
        name_tail(t)
    }
}

pub fn bare_object_name_tail(n: &Node) -> (r: String)
    ensures
        r@ == bare_tail(n.tree()),
{
    let count: usize = n.count();
    if count > 0 {
        match ident_of_part(n.item(count - 1)) {
            Some(name) => return name,
            None => {},
        }
    }
    object_name_tail(n)
}

/// What a character becomes in the name of an index.
pub open spec fn index_char(c: char) -> char {
    if is_word(c) {
        lower(c)
    } else {
        '_'
    }
}

/// A name made of lower-case word characters only, without underscores at its ends.
pub open spec fn sanitized(name: Seq<char>) -> Seq<char> {
    unpadded(Seq::new(name.len(), |i: int| index_char(name[i])), '_')
}

pub fn sanitize_identifier_for_index_name(name: &str) -> (r: String)
    ensures
        r@ == sanitized(name@),
{
    let c = chars_of(name);
    let mut out = String::new();
    let mut i: usize = 0;
    let ghost want = Seq::new(name@.len(), |i: int| index_char(name@[i]));
    while i < c.len()
        invariant
            c@ == name@,
            i <= c@.len(),
            want == Seq::new(name@.len(), |i: int| index_char(name@[i])),
            out@ =~= want.take(i as int),
        decreases c.len() - i,
    {
        if is_identifier_char(c[i]) {
            out.push(char_lower(c[i]));
        } else {
            out.push('_');
        }
        i = i + 1;
        assert(out@ =~= want.take(i as int));
    }
    assert(out@ =~= want);
    trim_matches(out.as_str(), '_')
}

/// The name of an index: PostgreSQL's index names are unique per schema, so the table's
/// name goes in front unless it is there.
pub open spec fn index_name(table: Tree, name: Option<Seq<char>>, suffix: Seq<char>) -> Seq<char> {
    let prefix = sanitized(name_tail(table));
    match name {
        Some(n) => if begins(sanitized(n), prefix + "_"@) {
            sanitized(n)
        } else {
            prefix + "_"@ + sanitized(n)
        },
        None => prefix + "_"@ + suffix,
    }
}

/// Names an index after its table.
pub fn prefixed_index_name(table: &Node, name: &Option<String>, fallback_suffix: &str) -> (r: String)
    ensures
        r@ == index_name(table.tree(), opt_text(*name), fallback_suffix@),
{
    let tail = object_name_tail(table);
    let prefix = sanitize_identifier_for_index_name(tail.as_str());
    match name {
        Some(n) => {
            let clean = sanitize_identifier_for_index_name(n.as_str());
            let head = cat2(prefix.as_str(), "_");
            if starts_with(clean.as_str(), head.as_str()) {
                clean
            } else {
                cat3(prefix.as_str(), "_", clean.as_str())
            }
        },
        None => cat3(prefix.as_str(), "_", fallback_suffix),
    }
}

/// The schema, where one is named, and the relation of a qualified name.
pub open spec fn name_parts(t: Tree) -> Result<(Option<Seq<char>>, Seq<char>), Failure> {
    if exists|i: int| 0 <= i < items(t).len() && part_ident(#[trigger] items(t)[i]) is None {
        Err(Failure::Translation("function-style object names are not supported here"@))
    } else if items(t).len() == 1 {
        Ok((None, part_ident(items(t)[0])->Some_0))
    } else if items(t).len() == 2 {
        Ok((part_ident(items(t)[0]), part_ident(items(t)[1])->Some_0))
    } else {
        Err(Failure::Translation("unsupported object name `"@ + shown(object_name_sql(t)) + "`"@))
    }
}

pub open spec fn name_parts_view(r: Result<(Option<String>, String), MiddlewareError>) -> Result<
    (Option<Seq<char>>, Seq<char>),
    Failure,
> {
    match r {
        Ok((schema, name)) => Ok((opt_text(schema), name@)),
        Err(e) => Err(e@),
    }
}

/// Splits a qualified name into its schema and its relation.
pub fn split_object_name(n: &Node) -> (r: Result<(Option<String>, String), MiddlewareError>)
    ensures
        name_parts_view(r) == name_parts(n.tree()),
{
    let mut parts: Vec<String> = Vec::new();
    let mut i: usize = 0;
    let count: usize = n.count();
    while i < count
        invariant
            count == items(n.tree()).len(),
            i <= count,
            parts@.len() == i,
            forall|j: int|
                0 <= j < i ==> part_ident(#[trigger] items(n.tree())[j]) == Some(texts(parts@)[j]),
        decreases count - i,
    {
        match ident_of_part(n.item(i)) {
            Some(name) => {
                let ghost before = texts(parts@);
                push_text(&mut parts, name);
                assert(forall|j: int| 0 <= j < i ==> texts(parts@)[j] == before[j]);
            },
            None => {
                assert(part_ident(items(n.tree())[i as int]) is None);
                return Err(translation_error("function-style object names are not supported here"));
            },
        }
        i = i + 1;
    }
    if parts.len() == 1 {
        assert(part_ident(items(n.tree())[0]) == Some(texts(parts@)[0]));
        return Ok((None, parts[0].clone()));
    }
    if parts.len() == 2 {
        assert(part_ident(items(n.tree())[0]) == Some(texts(parts@)[0]));
        assert(part_ident(items(n.tree())[1]) == Some(texts(parts@)[1]));
        return Ok((Some(parts[0].clone()), parts[1].clone()));
    }
    let text = show(render_object_name(n));
    Err(MiddlewareError::Translation(cat3("unsupported object name `", text.as_str(), "`")))
}

} // verus!
