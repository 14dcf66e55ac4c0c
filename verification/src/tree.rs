//! Syntax trees as plain data.
//!
//! A parsed SQL statement is held as a tree of records, lists and scalars: a record
//! with one field stands for an enum variant with a payload (the field's key is the
//! variant's name), a text for a variant without one.
use vstd::prelude::*;

use crate::text::same;

verus! {

/// A node of a syntax tree.
#[derive(Debug)]
pub enum Node {
    Null,
    Bool(bool),
    Number(String),
    Text(String),
    List(Vec<Node>),
    Record(Vec<Field>),
}

/// A named part of a record.
#[derive(Debug)]
pub struct Field {
    pub key: String,
    pub value: Node,
}

/// The mathematical counterpart of [`Node`].
pub enum Tree {
    Null,
    Bool(bool),
    Number(Seq<char>),
    Text(Seq<char>),
    List(Seq<Tree>),
    Record(Seq<(Seq<char>, Tree)>),
}

impl Node {
    /// The tree that a node stands for.
    pub open spec fn tree(self) -> Tree
        decreases self,
    {
        match self {
            Node::Null => Tree::Null,
            Node::Bool(b) => Tree::Bool(b),
            Node::Number(n) => Tree::Number(n@),
            Node::Text(s) => Tree::Text(s@),
            Node::List(items) => Tree::List(
                Seq::new(
                    items@.len(),
                    |i: int|
                        if 0 <= i < items@.len() {
                            items[i].tree()
                        } else {
                            Tree::Null
                        },
                ),
            ),
            Node::Record(fields) => Tree::Record(
                Seq::new(
                    fields@.len(),
                    |i: int|
                        if 0 <= i < fields@.len() {
                            (fields[i].key@, fields[i].value.tree())
                        } else {
                            (Seq::empty(), Tree::Null)
                        },
                ),
            ),
        }
    }
}

/// The trees of a list of nodes.
pub open spec fn trees(v: Seq<Node>) -> Seq<Tree> {
    Seq::new(v.len(), |i: int| v[i].tree())
}

/// The named trees of a list of fields.
pub open spec fn pairs(v: Seq<Field>) -> Seq<(Seq<char>, Tree)> {
    Seq::new(v.len(), |i: int| (v[i].key@, v[i].value.tree()))
}

pub broadcast proof fn lemma_list_tree(v: Vec<Node>)
    ensures
        (#[trigger] Node::List(v).tree()) == Tree::List(trees(v@)),
{
    assert(Node::List(v).tree()->List_0 =~= trees(v@));
}

pub broadcast proof fn lemma_record_tree(v: Vec<Field>)
    ensures
        (#[trigger] Node::Record(v).tree()) == Tree::Record(pairs(v@)),
{
    assert(Node::Record(v).tree()->Record_0 =~= pairs(v@));
}

pub broadcast group group_trees {
    lemma_list_tree,
    lemma_record_tree,
}

/// The tree of an optional node.
pub open spec fn opt_tree(o: Option<&Node>) -> Option<Tree> {
    match o {
        Some(n) => Some(n.tree()),
        None => None,
    }
}

/// The first field of that name, from position `from` on.
pub open spec fn first_field(fields: Seq<(Seq<char>, Tree)>, key: Seq<char>, from: int) -> Option<Tree>
    decreases fields.len() - from,
{
    if from < 0 || from >= fields.len() {
        None
    } else if fields[from].0 == key {
        Some(fields[from].1)
    } else {
        first_field(fields, key, from + 1)
    }
}

/// The part of a record under a name.
pub open spec fn field(t: Tree, key: Seq<char>) -> Option<Tree> {
    match t {
        Tree::Record(fields) => first_field(fields, key, 0),
        _ => None,
    }
}

/// The payload of the enum variant `name`.
pub open spec fn payload(t: Tree, name: Seq<char>) -> Option<Tree> {
    match t {
        Tree::Record(fields) => if fields.len() == 1 && fields[0].0 == name {
            Some(fields[0].1)
        } else {
            None
        },
        _ => None,
    }
}

/// The part of a record under a name, or nothing where the record does not have it.
pub open spec fn part(t: Tree, key: Seq<char>) -> Tree {
    match field(t, key) {
        Some(v) => v,
        None => Tree::Null,
    }
}

/// Whether a tree is the enum variant `name` without a payload.
pub open spec fn is_unit(t: Tree, name: Seq<char>) -> bool {
    t matches Tree::Text(s) && s == name
}

/// The name of the enum variant a tree stands for.
pub open spec fn variant(t: Tree) -> Seq<char> {
    match t {
        Tree::Text(s) => s,
        Tree::Record(fields) => if fields.len() == 1 {
            fields[0].0
        } else {
            Seq::empty()
        },
        _ => Seq::empty(),
    }
}

/// The items of a list; none for anything else.
pub open spec fn items(t: Tree) -> Seq<Tree> {
    match t {
        Tree::List(v) => v,
        _ => Seq::empty(),
    }
}

/// An item of a list, or nothing where the list does not have it.
pub open spec fn item_at(t: Tree, i: int) -> Tree {
    if 0 <= i < items(t).len() {
        items(t)[i]
    } else {
        Tree::Null
    }
}

/// The payload of an enum variant, whatever its name, or nothing.
pub open spec fn inner(t: Tree) -> Tree {
    match t {
        Tree::Record(fields) => if fields.len() == 1 {
            fields[0].1
        } else {
            Tree::Null
        },
        _ => Tree::Null,
    }
}

/// The text of a scalar; empty for anything else.
pub open spec fn text_of(t: Tree) -> Seq<char> {
    match t {
        Tree::Text(s) => s,
        Tree::Number(s) => s,
        _ => Seq::empty(),
    }
}

pub open spec fn is_true(t: Tree) -> bool {
    t == Tree::Bool(true)
}

/// Whether a tree stands for a value that is there.
pub open spec fn present(t: Tree) -> bool {
    !(t is Null)
}

/// The record with the first field of that name given a new value.
pub open spec fn with_field(t: Tree, key: Seq<char>, value: Tree) -> Tree {
    match t {
        Tree::Record(fields) => Tree::Record(
            Seq::new(
                fields.len(),
                |i: int|
                    if fields[i].0 == key && (forall|j: int| 0 <= j < i ==> (#[trigger] fields[j]).0 != key) {
                        (key, value)
                    } else {
                        fields[i]
                    },
            ),
        ),
        _ => t,
    }
}

impl Node {
    /// The part of a record under a name.
    #[verifier::loop_isolation(false)]
    pub fn field(&self, key: &str) -> (r: Option<&Node>)
        ensures
            opt_tree(r) == field(self.tree(), key@),
    {
        broadcast use group_trees;
        match self {
            Node::Record(fields) => {
                let mut i: usize = 0;
                while i < fields.len()
                    invariant
                        i <= fields@.len(),
                        first_field(pairs(fields@), key@, i as int) == first_field(
                            pairs(fields@),
                            key@,
                            0,
                        ),
                    decreases fields.len() - i,
                {
                    if same(fields[i].key.as_str(), key) {
                        return Some(&fields[i].value);
                    }
                    i = i + 1;
                }
                None
            },
            _ => None,
        }
    }

    /// The payload of the enum variant `name`.
    pub fn payload(&self, name: &str) -> (r: Option<&Node>)
        ensures
            opt_tree(r) == payload(self.tree(), name@),
    {
        broadcast use group_trees;
        match self {
            Node::Record(fields) => {
                if fields.len() == 1 && same(fields[0].key.as_str(), name) {
                    Some(&fields[0].value)
                } else {
                    None
                }
            },
            _ => None,
        }
    }

    /// Whether this is the enum variant `name` without a payload.
    pub fn is_unit(&self, name: &str) -> (r: bool)
        ensures
            r == is_unit(self.tree(), name@),
    {
        match self {
            Node::Text(s) => same(s.as_str(), name),
            _ => false,
        }
    }

    /// The name of the enum variant this stands for.
    pub fn variant(&self) -> (r: String)
        ensures
            r@ == variant(self.tree()),
    {
        broadcast use group_trees;
        match self {
            Node::Text(s) => s.clone(),
            Node::Record(fields) => {
                if fields.len() == 1 {
                    fields[0].key.clone()
                } else {
                    String::new()
                }
            },
            _ => String::new(),
        }
    }

    /// Whether the part under a name is there and not null.
    pub fn has_part(&self, key: &str) -> (r: bool)
        ensures
            r == present(part(self.tree(), key@)),
    {
        match self.field(key) {
            Some(n) => match n {
                Node::Null => false,
                _ => true,
            },
            None => false,
        }
    }

    /// Whether the part under a name is the boolean `true`.
    pub fn flag(&self, key: &str) -> (r: bool)
        ensures
            r == is_true(part(self.tree(), key@)),
    {
        match self.field(key) {
            Some(n) => match n {
                Node::Bool(b) => *b,
                _ => false,
            },
            None => false,
        }
    }

    /// The part under a name, where it is there and not null.
    pub fn some_part(&self, key: &str) -> (r: Option<&Node>)
        ensures
            match r {
                Some(n) => n.tree() == part(self.tree(), key@) && present(n.tree()),
                None => part(self.tree(), key@) is Null,
            },
    {
        match self.field(key) {
            Some(n) => match n {
                Node::Null => None,
                _ => Some(n),
            },
            None => None,
        }
    }

    /// The part under a name, or `null` where the record does not have it.
    pub fn part<'a>(&'a self, key: &str, null: &'a Node) -> (r: &'a Node)
        requires
            null.tree() is Null,
        ensures
            r.tree() == part(self.tree(), key@),
    {
        match self.field(key) {
            Some(n) => n,
            None => null,
        }
    }

    /// An item of a list, or `null` where the list does not have it.
    pub fn item_at<'a>(&'a self, i: usize, null: &'a Node) -> (r: &'a Node)
        requires
            null.tree() is Null,
        ensures
            r.tree() == item_at(self.tree(), i as int),
    {
        if i < self.count() {
            self.item(i)
        } else {
            null
        }
    }

    /// The payload of an enum variant, whatever its name, or `null`.
    pub fn inner<'a>(&'a self, null: &'a Node) -> (r: &'a Node)
        requires
            null.tree() is Null,
        ensures
            r.tree() == inner(self.tree()),
    {
        broadcast use group_trees;
        match self {
            Node::Record(fields) => {
                if fields.len() == 1 {
                    &fields[0].value
                } else {
                    null
                }
            },
            _ => null,
        }
    }

    /// Whether this is null.
    pub fn is_null(&self) -> (r: bool)
        ensures
            r == !present(self.tree()),
    {
        match self {
            Node::Null => true,
            _ => false,
        }
    }

    /// The text of a scalar; empty for anything else.
    pub fn text(&self) -> (r: String)
        ensures
            r@ == text_of(self.tree()),
    {
        match self {
            Node::Text(s) => s.clone(),
            Node::Number(s) => s.clone(),
            _ => String::new(),
        }
    }

    /// The text of the part under a name.
    pub fn text_part(&self, key: &str) -> (r: String)
        ensures
            r@ == text_of(part(self.tree(), key@)),
    {
        match self.field(key) {
            Some(n) => n.text(),
            None => String::new(),
        }
    }

    /// The number of items of a list; zero for anything else.
    pub fn count(&self) -> (r: usize)
        ensures
            r == items(self.tree()).len(),
    {
        broadcast use group_trees;
        match self {
            Node::List(v) => v.len(),
            _ => 0,
        }
    }

    /// An item of a list.
    pub fn item(&self, i: usize) -> (r: &Node)
        requires
            i < items(self.tree()).len(),
        ensures
            r.tree() == items(self.tree())[i as int],
            decreases_to!(*self => *r),
    {
        broadcast use group_trees;
        match self {
            Node::List(v) => &v[i],
            _ => self,
        }
    }

    /// A node with the same tree.
    #[verifier::loop_isolation(false)]
    pub fn copy(&self) -> (r: Node)
        ensures
            r.tree() == self.tree(),
        decreases self,
    {
        broadcast use group_trees;
        match self {
            Node::Null => Node::Null,
            Node::Bool(b) => Node::Bool(*b),
            Node::Number(s) => Node::Number(s.clone()),
            Node::Text(s) => Node::Text(s.clone()),
            Node::List(v) => {
                let mut out: Vec<Node> = Vec::new();
                let mut i: usize = 0;
                while i < v.len()
                    invariant
                        *self == Node::List(*v),
                        i <= v@.len(),
                        out@.len() == i,
                        forall|j: int| 0 <= j < i ==> (#[trigger] out@[j]).tree() == v@[j].tree(),
                    decreases v.len() - i,
                {
                    assert(decreases_to!(*v => v[i as int]));
                    out.push(v[i].copy());
                    i = i + 1;
                }
                assert(trees(out@) =~= trees(v@));
                Node::List(out)
            },
            Node::Record(fields) => {
                let mut out: Vec<Field> = Vec::new();
                let mut i: usize = 0;
                while i < fields.len()
                    invariant
                        *self == Node::Record(*fields),
                        i <= fields@.len(),
                        out@.len() == i,
                        forall|j: int|
                            0 <= j < i ==> (#[trigger] out@[j]).key@ == fields@[j].key@
                                && out@[j].value.tree() == fields@[j].value.tree(),
                    decreases fields.len() - i,
                {
                    assert(decreases_to!(*fields => fields[i as int]));
                    let f = Field { key: fields[i].key.clone(), value: fields[i].value.copy() };
                    out.push(f);
                    i = i + 1;
                }
                assert(pairs(out@) =~= pairs(fields@));
                Node::Record(out)
            },
        }
    }

    /// The record with the first field of that name given a new value.
    #[verifier::loop_isolation(false)]
    pub fn with_field(&self, key: &str, value: &Node) -> (r: Node)
        ensures
            r.tree() == with_field(self.tree(), key@, value.tree()),
    {
        broadcast use group_trees;
        match self {
            Node::Record(fields) => {
                let mut out: Vec<Field> = Vec::new();
                let mut i: usize = 0;
                let mut seen = false;
                let ghost old_pairs = pairs(fields@);
                let ghost want = with_field(self.tree(), key@, value.tree());
                while i < fields.len()
                    invariant
                        self.tree() == Tree::Record(old_pairs),
                        want == with_field(self.tree(), key@, value.tree()),
                        old_pairs == pairs(fields@),
                        i <= fields@.len(),
                        pairs(out@) =~= want->Record_0.take(i as int),
                        seen <==> exists|j: int| 0 <= j < i && (#[trigger] old_pairs[j]).0 == key@,
                    decreases fields.len() - i,
                {
                    assert(old_pairs[i as int].0 == fields@[i as int].key@);
                    if !seen && same(fields[i].key.as_str(), key) {
                        out.push(Field { key: fields[i].key.clone(), value: value.copy() });
                        seen = true;
                    } else {
                        out.push(Field { key: fields[i].key.clone(), value: fields[i].value.copy() });
                    }
                    i = i + 1;
                    assert(pairs(out@) =~= want->Record_0.take(i as int));
                }
                assert(pairs(out@) =~= want->Record_0);
                Node::Record(out)
            },
            _ => self.copy(),
        }
    }
}

/// A record with one field: an enum variant with its payload.
pub open spec fn tagged(name: Seq<char>, value: Tree) -> Tree {
    Tree::Record(seq![(name, value)])
}

pub fn tag(name: &str, value: Node) -> (r: Node)
    ensures
        r.tree() == tagged(name@, value.tree()),
{
    broadcast use group_trees;
    let mut v: Vec<Field> = Vec::new();
    v.push(Field { key: name.to_string(), value });
    assert(pairs(v@) =~= seq![(name@, value.tree())]);
    Node::Record(v)
}

/// A list with one item.
pub fn single(value: Node) -> (r: Node)
    ensures
        r.tree() == Tree::List(seq![value.tree()]),
{
    broadcast use group_trees;
    let mut v: Vec<Node> = Vec::new();
    v.push(value);
    assert(trees(v@) =~= seq![value.tree()]);
    Node::List(v)
}

pub fn text_node(s: &str) -> (r: Node)
    ensures
        r.tree() == Tree::Text(s@),
{
    Node::Text(s.to_string())
}

/// Adds a field to a record under construction.
pub fn put(fields: &mut Vec<Field>, key: &str, value: Node)
    ensures
        pairs(final(fields)@) == pairs(old(fields)@).push((key@, value.tree())),
{
    fields.push(Field { key: key.to_string(), value });
    assert(pairs(fields@) =~= pairs(old(fields)@).push((key@, value.tree())));
}

/// Adds a node to a list under construction.
pub fn push_node(list: &mut Vec<Node>, value: Node)
    ensures
        trees(final(list)@) == trees(old(list)@).push(value.tree()),
        final(list)@.len() == old(list)@.len() + 1,
{
    list.push(value);
    assert(trees(list@) =~= trees(old(list)@).push(value.tree()));
}

/// Whether two nodes have the same tree.
#[verifier::loop_isolation(false)]
pub fn same_tree(a: &Node, b: &Node) -> (r: bool)
    ensures
        r == (a.tree() == b.tree()),
    decreases a,
{
    broadcast use group_trees;
    match (a, b) {
        (Node::Null, Node::Null) => true,
        (Node::Bool(x), Node::Bool(y)) => *x == *y,
        (Node::Number(x), Node::Number(y)) => same(x.as_str(), y.as_str()),
        (Node::Text(x), Node::Text(y)) => same(x.as_str(), y.as_str()),
        (Node::List(x), Node::List(y)) => {
            if x.len() != y.len() {
                assert(trees(x@).len() != trees(y@).len());
                return false;
            }
            let mut i: usize = 0;
            while i < x.len()
                invariant
                    *a == Node::List(*x),
                    x@.len() == y@.len(),
                    i <= x@.len(),
                    forall|j: int| 0 <= j < i ==> (#[trigger] x@[j]).tree() == y@[j].tree(),
                decreases x.len() - i,
            {
                assert(decreases_to!(*x => x[i as int]));
                if !same_tree(&x[i], &y[i]) {
                    assert(trees(x@)[i as int] != trees(y@)[i as int]);
                    return false;
                }
                i = i + 1;
            }
            assert(trees(x@) =~= trees(y@));
            true
        },
        (Node::Record(x), Node::Record(y)) => {
            if x.len() != y.len() {
                assert(pairs(x@).len() != pairs(y@).len());
                return false;
            }
            let mut i: usize = 0;
            while i < x.len()
                invariant
                    *a == Node::Record(*x),
                    x@.len() == y@.len(),
                    i <= x@.len(),
                    forall|j: int|
                        0 <= j < i ==> (#[trigger] x@[j]).key@ == y@[j].key@ && x@[j].value.tree()
                            == y@[j].value.tree(),
                decreases x.len() - i,
            {
                assert(decreases_to!(*x => x[i as int]));
                if !same(x[i].key.as_str(), y[i].key.as_str()) || !same_tree(&x[i].value, &y[i].value) {
                    assert(pairs(x@)[i as int] != pairs(y@)[i as int]);
                    return false;
                }
                i = i + 1;
            }
            assert(pairs(x@) =~= pairs(y@));
            true
        },
        _ => {
            false
        },
    }
}

} // verus!
