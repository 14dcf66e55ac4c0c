//! SQL text to syntax trees and back, by way of the `sqlparser` crate.
use vstd::prelude::*;

use crate::error::{Failure, MiddlewareError};
use crate::text::{opt_text, same};
use crate::tree::{group_trees, is_unit, items, pairs, part, payload, trees, Field, Node, Tree};

verus! {

/// A JSON value of `serde_json`, the form in which a syntax tree leaves and enters
/// `sqlparser`.
#[verifier::external_type_specification]
#[verifier::external_body]
pub struct ExJsonValue(serde_json::Value);

/// The tree of a JSON value, variant by variant.
#[verifier::external_body]
fn node_of(value: serde_json::Value) -> (r: Node)
{
    match value {
        serde_json::Value::Null => Node::Null,
        serde_json::Value::Bool(b) => Node::Bool(b),
        serde_json::Value::Number(n) => Node::Number(n.to_string()),
        serde_json::Value::String(s) => Node::Text(s),
        serde_json::Value::Array(v) => Node::List(v.into_iter().map(node_of).collect()),
        serde_json::Value::Object(m) => Node::Record(
            m.into_iter().map(|(key, v)| Field { key, value: node_of(v) }).collect(),
        ),
    }
}

/// The JSON value of a tree, variant by variant.
#[verifier::external_body]
fn value_of(node: &Node) -> (r: serde_json::Value)
{
    match node {
        Node::Null => serde_json::Value::Null,
        Node::Bool(b) => serde_json::Value::Bool(*b),
        Node::Number(n) => serde_json::from_str(n).map_or(serde_json::Value::Null, serde_json::Value::Number),
        Node::Text(s) => serde_json::Value::String(s.clone()),
        Node::List(v) => serde_json::Value::Array(v.iter().map(value_of).collect()),
        Node::Record(fields) => serde_json::Value::Object(
            fields.iter().map(|f| (f.key.clone(), value_of(&f.value))).collect(),
        ),
    }
}

/// The view of a parse result.
pub open spec fn parse_view(r: Result<Node, String>) -> Result<Tree, Seq<char>> {
    match r {
        Ok(n) => Ok(n.tree()),
        Err(e) => Err(e@),
    }
}

/// What a token is to the parts of the parser that do not take every text.
#[derive(Debug, Clone, Copy, PartialEq, Eq, Structural)]
pub enum Mark {
    Space,
    Div,
    SetWord,
    Authorization,
    Hivevar,
    Relay,
    Logs,
    For,
    Channel,
    /// AND and OR.
    AndOr,
    /// A keyword that starts a clause behind an expression.
    Clause,
    /// Any other keyword.
    Word,
    /// A word that is no keyword, or a keyword that is read like one in an expression.
    Name,
    Number,
    /// A string in quotes.
    Quoted,
    Placeholder,
    Comma,
    Period,
    Open,
    Close,
    Semicolon,
    Colon,
    /// A plus or a minus.
    Sign,
    Star,
    /// Any other operator of arithmetic or comparison.
    Operator,
    Other,
}

/// What a keyword is.
pub open spec fn keyword_mark(keyword: Tree) -> Mark {
    if is_unit(keyword, "DIV"@) {
        Mark::Div
    } else if is_unit(keyword, "SET"@) {
        Mark::SetWord
    } else if is_unit(keyword, "AUTHORIZATION"@) {
        Mark::Authorization
    } else if is_unit(keyword, "HIVEVAR"@) {
        Mark::Hivevar
    } else if is_unit(keyword, "RELAY"@) {
        Mark::Relay
    } else if is_unit(keyword, "LOGS"@) {
        Mark::Logs
    } else if is_unit(keyword, "FOR"@) {
        Mark::For
    } else if is_unit(keyword, "CHANNEL"@) {
        Mark::Channel
    } else if is_unit(keyword, "NoKeyword"@) || is_unit(keyword, "ABS"@) || is_unit(keyword, "AVG"@)
        || is_unit(keyword, "COALESCE"@) || is_unit(keyword, "COUNT"@) || is_unit(keyword, "ID"@)
        || is_unit(keyword, "LEAST"@) || is_unit(keyword, "MAX"@) || is_unit(keyword, "MIN"@)
        || is_unit(keyword, "NAME"@) || is_unit(keyword, "NULLIF"@) || is_unit(keyword, "SIZE"@)
        || is_unit(keyword, "SUM"@)
    {
        Mark::Name
    } else if is_unit(keyword, "AND"@) || is_unit(keyword, "OR"@) {
        Mark::AndOr
    } else if is_unit(keyword, "FROM"@) || is_unit(keyword, "WHERE"@) || is_unit(keyword, "GROUP"@)
        || is_unit(keyword, "HAVING"@) || is_unit(keyword, "ORDER"@) || is_unit(keyword, "LIMIT"@)
        || is_unit(keyword, "AS"@) || is_unit(keyword, "UNION"@)
    {
        Mark::Clause
    } else {
        Mark::Word
    }
}

/// What a token is.
pub open spec fn token_mark(token: Tree) -> Mark {
    match payload(token, "Word"@) {
        Some(word) => keyword_mark(part(word, "keyword"@)),
        None => plain_mark(token),
    }
}

/// What a token that is no word is.
pub open spec fn plain_mark(token: Tree) -> Mark {
    if payload(token, "Whitespace"@) is Some {
        Mark::Space
    } else if payload(token, "Number"@) is Some {
        Mark::Number
    } else if payload(token, "SingleQuotedString"@) is Some || payload(token, "DoubleQuotedString"@) is Some {
        Mark::Quoted
    } else if payload(token, "Placeholder"@) is Some {
        Mark::Placeholder
    } else if is_unit(token, "Comma"@) {
        Mark::Comma
    } else if is_unit(token, "Period"@) {
        Mark::Period
    } else if is_unit(token, "LParen"@) {
        Mark::Open
    } else if is_unit(token, "RParen"@) {
        Mark::Close
    } else if is_unit(token, "SemiColon"@) {
        Mark::Semicolon
    } else if is_unit(token, "Colon"@) {
        Mark::Colon
    } else if is_unit(token, "Plus"@) || is_unit(token, "Minus"@) {
        Mark::Sign
    } else if is_unit(token, "Mul"@) {
        Mark::Star
    } else if is_unit(token, "Div"@) || is_unit(token, "Mod"@)
        || is_unit(token, "Eq"@) || is_unit(token, "Neq"@) || is_unit(token, "Lt"@) || is_unit(token, "Gt"@)
        || is_unit(token, "LtEq"@) || is_unit(token, "GtEq"@)
    {
        Mark::Operator
    } else {
        Mark::Other
    }
}

fn mark_of_keyword(keyword: &Node) -> (r: Mark)
    ensures
        r == keyword_mark(keyword.tree()),
{
    if keyword.is_unit("DIV") {
        Mark::Div
    } else if keyword.is_unit("SET") {
        Mark::SetWord
    } else if keyword.is_unit("AUTHORIZATION") {
        Mark::Authorization
    } else if keyword.is_unit("HIVEVAR") {
        Mark::Hivevar
    } else if keyword.is_unit("RELAY") {
        Mark::Relay
    } else if keyword.is_unit("LOGS") {
        Mark::Logs
    } else if keyword.is_unit("FOR") {
        Mark::For
    } else if keyword.is_unit("CHANNEL") {
        Mark::Channel
    } else if keyword.is_unit("NoKeyword") || keyword.is_unit("ABS") || keyword.is_unit("AVG")
        || keyword.is_unit("COALESCE") || keyword.is_unit("COUNT") || keyword.is_unit("ID")
        || keyword.is_unit("LEAST") || keyword.is_unit("MAX") || keyword.is_unit("MIN")
        || keyword.is_unit("NAME") || keyword.is_unit("NULLIF") || keyword.is_unit("SIZE")
        || keyword.is_unit("SUM")
    {
        Mark::Name
    } else if keyword.is_unit("AND") || keyword.is_unit("OR") {
        Mark::AndOr
    } else if keyword.is_unit("FROM") || keyword.is_unit("WHERE") || keyword.is_unit("GROUP")
        || keyword.is_unit("HAVING") || keyword.is_unit("ORDER") || keyword.is_unit("LIMIT")
        || keyword.is_unit("AS") || keyword.is_unit("UNION")
    {
        Mark::Clause
    } else {
        Mark::Word
    }
}

fn mark_of_plain(token: &Node) -> (r: Mark)
    ensures
        r == plain_mark(token.tree()),
{
    if token.payload("Whitespace").is_some() {
        Mark::Space
    } else if token.payload("Number").is_some() {
        Mark::Number
    } else if token.payload("SingleQuotedString").is_some() || token.payload("DoubleQuotedString").is_some() {
        Mark::Quoted
    } else if token.payload("Placeholder").is_some() {
        Mark::Placeholder
    } else if token.is_unit("Comma") {
        Mark::Comma
    } else if token.is_unit("Period") {
        Mark::Period
    } else if token.is_unit("LParen") {
        Mark::Open
    } else if token.is_unit("RParen") {
        Mark::Close
    } else if token.is_unit("SemiColon") {
        Mark::Semicolon
    } else if token.is_unit("Colon") {
        Mark::Colon
    } else if token.is_unit("Plus") || token.is_unit("Minus") {
        Mark::Sign
    } else if token.is_unit("Mul") {
        Mark::Star
    } else if token.is_unit("Div") || token.is_unit("Mod") || token.is_unit("Eq")
        || token.is_unit("Neq") || token.is_unit("Lt") || token.is_unit("Gt") || token.is_unit("LtEq")
        || token.is_unit("GtEq")
    {
        Mark::Operator
    } else {
        Mark::Other
    }
}

fn mark_of(token: &Node) -> (r: Mark)
    ensures
        r == token_mark(token.tree()),
{
    match token.payload("Word") {
        Some(word) => {
            let null = Node::Null;
            mark_of_keyword(word.part("keyword", &null))
        },
        None => mark_of_plain(token),
    }
}

/// The marks of the first `n` tokens, white space and comments left out.
pub open spec fn marks(tokens: Seq<Tree>, n: nat) -> Seq<Mark>
    decreases n,
{
    if n == 0 || n > tokens.len() {
        Seq::empty()
    } else {
        let before = marks(tokens, (n - 1) as nat);
        let mark = token_mark(tokens[n - 1]);
        if mark == Mark::Space {
            before
        } else {
            before.push(mark)
        }
    }
}

/// Whether a token can be read as an identifier: a word or a string.
pub open spec fn is_name(m: Mark) -> bool {
    m == Mark::Div || m == Mark::SetWord || m == Mark::Authorization || m == Mark::Hivevar || m == Mark::Relay || m
        == Mark::Logs || m == Mark::For || m == Mark::Channel || m == Mark::AndOr || m == Mark::Clause || m
        == Mark::Word || m == Mark::Name || m == Mark::Quoted
}

/// Whether AUTHORIZATION stands at a position where it is set without a scope.
pub open spec fn unscoped_authorization(m: Seq<Mark>, i: int) -> bool {
    0 < i < m.len() - 1 && m[i] == Mark::Authorization && (m[i - 1] == Mark::SetWord || (i > 1 && m[i - 1]
        == Mark::Colon && m[i - 2] == Mark::Hivevar)) && is_name(m[i + 1])
}

/// Whether RELAY LOGS FOR CHANNEL stands at a position, with anything but one name behind
/// it.
pub open spec fn odd_channel(m: Seq<Mark>, i: int) -> bool {
    0 <= i < m.len() - 3 && m[i] == Mark::Relay && m[i + 1] == Mark::Logs && m[i + 2] == Mark::For && m[i + 3]
        == Mark::Channel && !(i + 4 < m.len() && m[i + 4] == Mark::Name && (i + 5 == m.len() || (i + 5 < m.len() && m[i
        + 5] == Mark::Semicolon)))
}

/// Whether a token is an operand by itself.
pub open spec fn is_operand(m: Mark) -> bool {
    m == Mark::Name || m == Mark::Number || m == Mark::Quoted || m == Mark::Placeholder
}

/// Whether a token joins two operands.
pub open spec fn is_joint(m: Mark) -> bool {
    m == Mark::Sign || m == Mark::Star || m == Mark::Operator || m == Mark::AndOr || m == Mark::Div
}

/// Whether a token ends an expression.
pub open spec fn is_end(m: Mark) -> bool {
    m == Mark::Comma || m == Mark::Close || m == Mark::Semicolon || m == Mark::Clause
}

/// Whether a plain expression goes on from a position, with so many parentheses open, up to a
/// token that ends it or to the end of the text. It is made of operands with operators
/// between them, names with periods in them, calls, lists in parentheses and signs. `wants`
/// says that an operand comes next.
pub open spec fn expression_from(m: Seq<Mark>, i: int, open: nat, wants: bool) -> bool
    decreases m.len() - i,
{
    if i <= 0 || i >= m.len() {
        i >= m.len() && !wants && open == 0
    } else if m[i - 1] == Mark::Period {
        m[i] == Mark::Name && expression_from(m, i + 1, open, false)
    } else if wants {
        if is_operand(m[i]) {
            expression_from(m, i + 1, open, false)
        } else if m[i] == Mark::Sign {
            expression_from(m, i + 1, open, true)
        } else if m[i] == Mark::Open {
            expression_from(m, i + 1, open + 1, true)
        } else if !(i > 1 && m[i - 1] == Mark::Open && m[i - 2] == Mark::Name && open > 0) {
            false
        } else if m[i] == Mark::Star {
            i + 1 < m.len() && m[i + 1] == Mark::Close && expression_from(m, i + 1, open, false)
        } else {
            m[i] == Mark::Close && expression_from(m, i + 1, (open - 1) as nat, false)
        }
    } else if is_joint(m[i]) {
        expression_from(m, i + 1, open, true)
    } else if m[i] == Mark::Period && m[i - 1] == Mark::Name {
        expression_from(m, i + 1, open, true)
    } else if m[i] == Mark::Open && m[i - 1] == Mark::Name {
        expression_from(m, i + 1, open + 1, true)
    } else if m[i] == Mark::Close && open > 0 {
        expression_from(m, i + 1, (open - 1) as nat, false)
    } else if m[i] == Mark::Comma && open > 0 {
        expression_from(m, i + 1, open, true)
    } else {
        is_end(m[i]) && open == 0
    }
}

/// Whether a plain expression stands at a position.
pub open spec fn plain_operand(m: Seq<Mark>, i: int) -> bool {
    expression_from(m, i, 0, true)
}

/// How many levels deeper the parser can go behind a token: none behind what stands in a
/// list or ends something, one behind an operator, for its operand, and behind each period
/// of a name but the first, and four behind any other token, for a statement, its query, an
/// expression and the first period of a name.
pub open spec fn levels(m: Seq<Mark>, i: int) -> nat {
    if m[i] == Mark::Period {
        if i > 1 && m[i - 2] == Mark::Period {
            1
        } else {
            0
        }
    } else if is_operand(m[i]) || m[i] == Mark::Comma || m[i] == Mark::Close || m[i] == Mark::Semicolon {
        0
    } else if is_joint(m[i]) {
        1
    } else {
        4
    }
}

/// How many levels deep the parser can go behind the first `n` tokens of a text.
pub open spec fn depth(m: Seq<Mark>, n: nat) -> nat
    decreases n,
{
    if n == 0 || n > m.len() {
        0
    } else {
        depth(m, (n - 1) as nat) + levels(m, n - 1)
    }
}

/// The depth up to which the parser surely stays within its own limit.
pub const MAX_DEPTH: usize = 40;

/// Whether every scope is given where an authorization is set.
pub open spec fn sets_with_scope(m: Seq<Mark>) -> bool {
    forall|i: int| !#[trigger] unscoped_authorization(m, i)
}

/// Whether the operator DIV stands at a position with an operand that may not parse.
pub open spec fn odd_division(m: Seq<Mark>, i: int) -> bool {
    0 <= i < m.len() && m[i] == Mark::Div && !(plain_operand(m, i + 1) && depth(m, m.len()) <= MAX_DEPTH)
}

/// Whether the parser gives an answer on tokens in the MySQL dialect, be it an error. The
/// operand of DIV and the channel of FLUSH RELAY LOGS it takes for granted, and the scope of
/// SET AUTHORIZATION.
pub open spec fn answers_mysql(m: Seq<Mark>) -> bool {
    &&& sets_with_scope(m)
    &&& forall|i: int| !#[trigger] odd_division(m, i)
    &&& forall|i: int| !#[trigger] odd_channel(m, i)
}

/// The marks of a list of tokens; none where there is no list.
pub open spec fn all_marks(tokens: Option<Tree>) -> Seq<Mark> {
    match tokens {
        Some(t) => marks(items(t), items(t).len()),
        None => Seq::empty(),
    }
}

fn read_marks(tokens: &Option<Node>) -> (r: Vec<Mark>)
    ensures
        r@ == all_marks(opt_node(*tokens)),
{
    let mut out: Vec<Mark> = Vec::new();
    match tokens {
        Some(list) => {
            let n: usize = list.count();
            let mut i: usize = 0;
            while i < n
                invariant
                    n == items(list.tree()).len(),
                    i <= n,
                    out@ == marks(items(list.tree()), i as nat),
                decreases n - i,
            {
                let mark = mark_of(list.item(i));
                if mark != Mark::Space {
                    out.push(mark);
                }
                i = i + 1;
            }
        },
        None => {},
    }
    out
}

fn name_like(m: Mark) -> (r: bool)
    ensures
        r == is_name(m),
{
    m == Mark::Div || m == Mark::SetWord || m == Mark::Authorization || m == Mark::Hivevar || m == Mark::Relay || m
        == Mark::Logs || m == Mark::For || m == Mark::Channel || m == Mark::AndOr || m == Mark::Clause || m
        == Mark::Word || m == Mark::Name || m == Mark::Quoted
}

fn operand_like(m: Mark) -> (r: bool)
    ensures
        r == is_operand(m),
{
    m == Mark::Name || m == Mark::Number || m == Mark::Quoted || m == Mark::Placeholder
}

fn all_scoped(m: &Vec<Mark>) -> (r: bool)
    ensures
        r == sets_with_scope(m@),
{
    let n: usize = m.len();
    let mut i: usize = 1;
    while i < n && n - i > 1
        invariant
            n == m@.len(),
            1 <= i,
            forall|j: int| j < i ==> !#[trigger] unscoped_authorization(m@, j),
        decreases n - i,
    {
        let bare = m[i - 1] == Mark::SetWord || (i > 1 && m[i - 1] == Mark::Colon && m[i - 2] == Mark::Hivevar);
        if m[i] == Mark::Authorization && bare && name_like(m[i + 1]) {
            assert(unscoped_authorization(m@, i as int));
            return false;
        }
        i = i + 1;
    }
    true
}

fn joint_like(m: Mark) -> (r: bool)
    ensures
        r == is_joint(m),
{
    m == Mark::Sign || m == Mark::Star || m == Mark::Operator || m == Mark::AndOr || m == Mark::Div
}

fn end_like(m: Mark) -> (r: bool)
    ensures
        r == is_end(m),
{
    m == Mark::Comma || m == Mark::Close || m == Mark::Semicolon || m == Mark::Clause
}

fn has_plain_operand(m: &Vec<Mark>, from: usize) -> (r: bool)
    requires
        0 < from <= m@.len(),
    ensures
        r == plain_operand(m@, from as int),
{
    let n: usize = m.len();
    let mut i: usize = from;
    let mut open: usize = 0;
    let mut wants = true;
    while i < n
        invariant
            n == m@.len(),
            0 < from <= i <= n,
            open <= i,
            expression_from(m@, i as int, open as nat, wants) == plain_operand(m@, from as int),
        decreases n - i,
    {
        let mark = m[i];
        let last = m[i - 1];
        if last == Mark::Period {
            if mark != Mark::Name {
                return false;
            }
            wants = false;
        } else if wants {
            if operand_like(mark) {
                wants = false;
            } else if mark == Mark::Open {
                open = open + 1;
            } else if mark != Mark::Sign {
                if !(open > 0 && i > 1 && last == Mark::Open && m[i - 2] == Mark::Name) {
                    return false;
                }
                if mark == Mark::Star {
                    if !(n - i > 1 && m[i + 1] == Mark::Close) {
                        return false;
                    }
                } else if mark == Mark::Close {
                    open = open - 1;
                } else {
                    return false;
                }
                wants = false;
            }
        } else if joint_like(mark) {
            wants = true;
        } else if mark == Mark::Period && last == Mark::Name {
            wants = true;
        } else if mark == Mark::Open && last == Mark::Name {
            open = open + 1;
            wants = true;
        } else if mark == Mark::Close && open > 0 {
            open = open - 1;
        } else if mark == Mark::Comma && open > 0 {
            wants = true;
        } else {
            return end_like(mark) && open == 0;
        }
        i = i + 1;
    }
    !wants && open == 0
}

fn levels_behind(m: &Vec<Mark>, i: usize) -> (r: usize)
    requires
        i < m@.len(),
    ensures
        r == levels(m@, i as int),
{
    let mark = m[i];
    if mark == Mark::Period {
        if i > 1 && m[i - 2] == Mark::Period {
            1
        } else {
            0
        }
    } else if operand_like(mark) || mark == Mark::Comma || mark == Mark::Close || mark == Mark::Semicolon {
        0
    } else if joint_like(mark) {
        1
    } else {
        4
    }
}

proof fn lemma_depth_grows(m: Seq<Mark>, i: nat)
    requires
        i <= m.len(),
    ensures
        depth(m, i) <= depth(m, m.len()),
    decreases m.len() - i,
{
    if i < m.len() {
        lemma_depth_grows(m, i + 1);
    }
}

fn is_shallow(m: &Vec<Mark>) -> (r: bool)
    ensures
        r == (depth(m@, m@.len()) <= MAX_DEPTH),
{
    let n: usize = m.len();
    let mut count: usize = 0;
    let mut i: usize = 0;
    while i < n
        invariant
            n == m@.len(),
            i <= n,
            count <= MAX_DEPTH,
            count == depth(m@, i as nat),
        decreases n - i,
    {
        count = count + levels_behind(m, i);
        i = i + 1;
        if count > MAX_DEPTH {
            proof {
                lemma_depth_grows(m@, i as nat);
            }
            return false;
        }
    }
    true
}

fn all_readable(m: &Vec<Mark>) -> (r: bool)
    ensures
        r == answers_mysql(m@),
{
    if !all_scoped(m) {
        return false;
    }
    let n: usize = m.len();
    let shallow = is_shallow(m);
    let mut i: usize = 0;
    while i < n
        invariant
            n == m@.len(),
            i <= n,
            shallow == (depth(m@, m@.len()) <= MAX_DEPTH),
            sets_with_scope(m@),
            forall|j: int| j < i ==> !#[trigger] odd_division(m@, j),
            forall|j: int| j < i ==> !#[trigger] odd_channel(m@, j),
        decreases n - i,
    {
        if m[i] == Mark::Div && !(has_plain_operand(m, i + 1) && shallow) {
            assert(odd_division(m@, i as int));
            return false;
        }
        if n - i > 3 && m[i] == Mark::Relay && m[i + 1] == Mark::Logs && m[i + 2] == Mark::For && m[i + 3]
            == Mark::Channel {
            let named = n - i > 4 && m[i + 4] == Mark::Name && (n - i == 5 || m[i + 5] == Mark::Semicolon);
            if !named {
                assert(odd_channel(m@, i as int));
                return false;
            }
        }
        i = i + 1;
    }
    true
}

/// The tree of an optional node.
pub open spec fn opt_node(o: Option<Node>) -> Option<Tree> {
    match o {
        Some(n) => Some(n.tree()),
        None => None,
    }
}

/// The tokens that `sqlparser::tokenizer::Tokenizer::tokenize` finds in a text of the MySQL
/// dialect; nothing where it refuses the text.
pub uninterp spec fn mysql_tokens(sql: Seq<char>) -> Option<Tree>;

/// `sqlparser::tokenizer::Tokenizer::tokenize` with `MySqlDialect`: the list of the tokens,
/// white space and comments among them.
#[verifier::external_body]
fn tokenize_mysql(sql: &str) -> (r: Option<Node>)
    ensures
        opt_node(r) == mysql_tokens(sql@),
{
    let dialect = sqlparser::dialect::MySqlDialect {};
    let tokens = sqlparser::tokenizer::Tokenizer::new(&dialect, sql).tokenize().ok()?;
    let value = serde_json::to_value(tokens).ok()?;
    Some(node_of(value))
}

/// The tokens that `sqlparser::tokenizer::Tokenizer::tokenize` finds in a text of the
/// PostgreSQL dialect; nothing where it refuses the text.
pub uninterp spec fn postgres_tokens(sql: Seq<char>) -> Option<Tree>;

/// `sqlparser::tokenizer::Tokenizer::tokenize` with `PostgreSqlDialect`.
#[verifier::external_body]
fn tokenize_postgres(sql: &str) -> (r: Option<Node>)
    ensures
        opt_node(r) == postgres_tokens(sql@),
{
    let dialect = sqlparser::dialect::PostgreSqlDialect {};
    let tokens = sqlparser::tokenizer::Tokenizer::new(&dialect, sql).tokenize().ok()?;
    let value = serde_json::to_value(tokens).ok()?;
    Some(node_of(value))
}

/// Whether the parser takes tokens of the MySQL dialect: whether it answers, if only with
/// an error, rather than stop.
pub fn takes_mysql_tokens(tokens: &Option<Node>) -> (r: bool)
    ensures
        r == answers_mysql(all_marks(opt_node(*tokens))),
{
    all_readable(&read_marks(tokens))
}

/// Whether the parser takes tokens of the PostgreSQL dialect.
pub fn takes_postgres_tokens(tokens: &Option<Node>) -> (r: bool)
    ensures
        r == sets_with_scope(all_marks(opt_node(*tokens))),
{
    all_scoped(&read_marks(tokens))
}

/// Whether the parser takes a text in the MySQL dialect.
pub open spec fn mysql_takes(sql: Seq<char>) -> bool {
    answers_mysql(all_marks(mysql_tokens(sql)))
}

/// Whether the parser takes a text in the PostgreSQL dialect.
pub open spec fn postgres_takes(sql: Seq<char>) -> bool {
    sets_with_scope(all_marks(postgres_tokens(sql)))
}

/// What `sqlparser::parser::Parser::parse_sql` makes of a text in the MySQL dialect: the
/// list of its statements, or the parser's message.
pub uninterp spec fn mysql_statements(sql: Seq<char>) -> Result<Tree, Seq<char>>;

/// `sqlparser::parser::Parser::parse_sql` with `MySqlDialect`. The statements are the
/// items of the list that comes back; an error carries the parser's own message. Texts on
/// which the parser panics are left out.
#[verifier::external_body]
fn parse_mysql(sql: &str) -> (r: Result<Node, String>)
    requires
        mysql_takes(sql@),
    ensures
        parse_view(r) == mysql_statements(sql@),
{
    let dialect = sqlparser::dialect::MySqlDialect {};
    let statements = sqlparser::parser::Parser::parse_sql(&dialect, sql).map_err(|e| e.to_string())?;
    let value = serde_json::to_value(statements).map_err(|e| e.to_string())?;
    Ok(node_of(value))
}

/// What `sqlparser::parser::Parser::parse_sql` makes of a text in the PostgreSQL dialect.
pub uninterp spec fn postgres_statements(sql: Seq<char>) -> Result<Tree, Seq<char>>;

/// `sqlparser::parser::Parser::parse_sql` with `PostgreSqlDialect`. Texts on which the
/// parser panics are left out.
#[verifier::external_body]
fn parse_postgres(sql: &str) -> (r: Result<Node, String>)
    requires
        postgres_takes(sql@),
    ensures
        parse_view(r) == postgres_statements(sql@),
{
    let dialect = sqlparser::dialect::PostgreSqlDialect {};
    let statements = sqlparser::parser::Parser::parse_sql(&dialect, sql).map_err(|e| e.to_string())?;
    let value = serde_json::to_value(statements).map_err(|e| e.to_string())?;
    Ok(node_of(value))
}

/// A result of a parse with the library's error.
pub open spec fn statements_view(r: Result<Node, MiddlewareError>) -> Result<Tree, Failure> {
    match r {
        Ok(n) => Ok(n.tree()),
        Err(e) => Err(e@),
    }
}

/// A parser's message as the library's error.
pub open spec fn parse_outcome(r: Result<Tree, Seq<char>>) -> Result<Tree, Failure> {
    match r {
        Ok(t) => Ok(t),
        Err(m) => Err(Failure::Parse(m)),
    }
}

/// Turns a parser's message into the library's error.
pub fn parsed(r: Result<Node, String>) -> (out: Result<Node, MiddlewareError>)
    ensures
        statements_view(out) == parse_outcome(parse_view(r)),
{
    match r {
        Ok(n) => Ok(n),
        Err(m) => Err(MiddlewareError::Parse(m)),
    }
}

pub const NOT_TAKEN: &'static str = "the SQL parser does not support this statement";

/// The statements of a MySQL text, or why there are none.
pub open spec fn mysql_parse(sql: Seq<char>) -> Result<Tree, Failure> {
    if mysql_takes(sql) {
        parse_outcome(mysql_statements(sql))
    } else {
        Err(Failure::Parse(NOT_TAKEN@))
    }
}

/// The statements of a PostgreSQL text, or why there are none.
pub open spec fn postgres_parse(sql: Seq<char>) -> Result<Tree, Failure> {
    if postgres_takes(sql) {
        parse_outcome(postgres_statements(sql))
    } else {
        Err(Failure::Parse(NOT_TAKEN@))
    }
}

/// Parses MySQL statements; the tree is the list of them.
pub fn parse_mysql_sql(sql: &str) -> (r: Result<Node, MiddlewareError>)
    ensures
        statements_view(r) == mysql_parse(sql@),
{
    if !takes_mysql_tokens(&tokenize_mysql(sql)) {
        return Err(MiddlewareError::Parse(NOT_TAKEN.to_string()));
    }
    parsed(parse_mysql(sql))
}

/// Parses PostgreSQL statements; the tree is the list of them.
pub fn parse_postgres_sql(sql: &str) -> (r: Result<Node, MiddlewareError>)
    ensures
        statements_view(r) == postgres_parse(sql@),
{
    if !takes_postgres_tokens(&tokenize_postgres(sql)) {
        return Err(MiddlewareError::Parse(NOT_TAKEN.to_string()));
    }
    parsed(parse_postgres(sql))
}

/// Whether a tree is a quote that an identifier can stand in, or none; a token's word
/// cannot stand in single quotes.
pub open spec fn quote_fits(t: Tree, token: bool) -> bool {
    match t {
        Tree::Null => true,
        Tree::Text(q) => q == "\""@ || q == "`"@ || q == "["@ || (!token && q == "'"@),
        _ => false,
    }
}

/// Whether one of the fields of a record has a key.
pub open spec fn has_key(fields: Seq<(Seq<char>, Tree)>, key: Seq<char>) -> bool {
    exists|i: int| 0 <= i < fields.len() && (#[trigger] fields[i]).0 == key
}

/// Whether a tree is the unit SECOND of an interval, in one form or another.
pub open spec fn is_second(t: Tree) -> bool {
    match t {
        Tree::Text(s) => s == "Second"@,
        Tree::Record(fields) => has_key(fields, "Second"@),
        _ => false,
    }
}

/// Whether the leading unit of an interval is SECOND.
pub open spec fn leads_with_second(fields: Seq<(Seq<char>, Tree)>) -> bool {
    exists|i: int| 0 <= i < fields.len() && (#[trigger] fields[i]).0 == "leading_field"@ && is_second(fields[i].1)
}

/// Whether a list can be read as the parts of an identifier in a quote that none can stand
/// in, or of an interval from SECOND to another unit.
pub open spec fn misread(v: Seq<Tree>) -> bool {
    ||| v.len() == 3 && v[1] is Text && v[1]->Text_0.len() == 1 && !quote_fits(v[1], false) && (v[2] is List || v[2]
        is Record)
    ||| v.len() == 5 && is_second(v[1]) && !(v[3] is Null)
}

/// Whether the fields of a record under a key are there, and none of them is nothing.
pub open spec fn is_given(fields: Seq<(Seq<char>, Tree)>, key: Seq<char>) -> bool {
    has_key(fields, key) && forall|i: int| 0 <= i < fields.len() && (#[trigger] fields[i]).0 == key ==> !(fields[i].1
        is Null)
}

/// Whether a tree is a list with something in it.
pub open spec fn is_filled(t: Tree) -> bool {
    t is List && t->List_0.len() > 0
}

/// Whether one of the fields of a record under a key is a list with something in it.
pub open spec fn has_filled(fields: Seq<(Seq<char>, Tree)>, key: Seq<char>) -> bool {
    exists|i: int| 0 <= i < fields.len() && (#[trigger] fields[i]).0 == key && is_filled(fields[i].1)
}

/// Whether the table of a TABLE command has a name.
pub open spec fn table_fits(t: Tree) -> bool {
    match t {
        Tree::Record(fields) => is_given(fields, "table_name"@),
        Tree::List(v) => v.len() == 0 || !(v[0] is Null),
        _ => true,
    }
}

/// Whether a LIMIT that goes by expressions has a limit.
pub open spec fn limit_fits(t: Tree) -> bool {
    match t {
        Tree::Record(fields) => !has_filled(fields, "limit_by"@) || is_given(fields, "limit"@),
        Tree::List(v) => v.len() != 3 || !is_filled(v[2]) || !(v[0] is Null),
        _ => true,
    }
}

/// Whether what stands under a key can be the body of a query.
pub open spec fn holds_body(key: Seq<char>) -> bool {
    key == "body"@ || key == "left"@ || key == "right"@
}

/// Whether a field of a record can be written: a quote is one that an identifier or a word
/// can stand in, a word is a record, no interval goes on from SECOND, the table of a TABLE
/// command has a name, and a LIMIT that goes by expressions a limit.
pub open spec fn field_fits(fields: Seq<(Seq<char>, Tree)>, i: int, body: bool) -> bool {
    &&& fields[i].0 == "quote_style"@ ==> quote_fits(fields[i].1, has_key(fields, "keyword"@))
    &&& fields[i].0 == "Word"@ ==> !(fields[i].1 is List)
    &&& fields[i].0 == "last_field"@ ==> fields[i].1 is Null || !leads_with_second(fields)
    &&& fields[i].0 == "Table"@ && body ==> table_fits(fields[i].1)
    &&& fields[i].0 == "LimitOffset"@ ==> limit_fits(fields[i].1)
}

/// Whether `sqlparser` writes every part of a tree that it can read: its `Display`s panic on
/// a quote that they do not know, on an interval from SECOND to another unit, on a TABLE
/// command without a name, and on LIMIT BY without a limit.
pub open spec fn writable(t: Tree) -> bool {
    part_writable(t, false)
}

/// Whether a part of a tree can be written, given whether it can be the body of a query.
pub open spec fn part_writable(t: Tree, body: bool) -> bool
    decreases t, 0nat,
{
    match t {
        Tree::List(v) => !misread(v) && items_writable(v, v.len()),
        Tree::Record(fields) => fields_writable(fields, fields.len(), body),
        _ => true,
    }
}

pub open spec fn items_writable(v: Seq<Tree>, n: nat) -> bool
    decreases v, n,
{
    n == 0 || n > v.len() || (items_writable(v, (n - 1) as nat) && part_writable(v[n - 1], true))
}

pub open spec fn fields_writable(fields: Seq<(Seq<char>, Tree)>, n: nat, body: bool) -> bool
    decreases fields, n,
{
    n == 0 || n > fields.len() || (fields_writable(fields, (n - 1) as nat, body) && field_fits(fields, n - 1, body)
        && part_writable(fields[n - 1].1, holds_body(fields[n - 1].0)))
}

fn has_quote(n: &Node, token: bool) -> (r: bool)
    ensures
        r == quote_fits(n.tree(), token),
{
    match n {
        Node::Null => true,
        Node::Text(q) => same(q.as_str(), "\"") || same(q.as_str(), "`") || same(q.as_str(), "[") || (!token && same(
            q.as_str(),
            "'",
        )),
        _ => false,
    }
}

fn finds_key(fields: &Vec<Field>, key: &str) -> (r: bool)
    ensures
        r == has_key(pairs(fields@), key@),
{
    let mut i: usize = 0;
    while i < fields.len()
        invariant
            i <= fields@.len(),
            forall|j: int| 0 <= j < i ==> (#[trigger] pairs(fields@)[j]).0 != key@,
        decreases fields.len() - i,
    {
        if same(fields[i].key.as_str(), key) {
            assert(pairs(fields@)[i as int].0 == key@);
            return true;
        }
        i = i + 1;
    }
    false
}

fn means_second(n: &Node) -> (r: bool)
    ensures
        r == is_second(n.tree()),
{
    broadcast use group_trees;
    match n {
        Node::Text(s) => same(s.as_str(), "Second"),
        Node::Record(fields) => finds_key(fields, "Second"),
        _ => false,
    }
}

fn finds_second(fields: &Vec<Field>) -> (r: bool)
    ensures
        r == leads_with_second(pairs(fields@)),
{
    let mut i: usize = 0;
    while i < fields.len()
        invariant
            i <= fields@.len(),
            forall|j: int|
                0 <= j < i ==> !((#[trigger] pairs(fields@)[j]).0 == "leading_field"@ && is_second(
                    pairs(fields@)[j].1,
                )),
        decreases fields.len() - i,
    {
        if same(fields[i].key.as_str(), "leading_field") && means_second(&fields[i].value) {
            assert(pairs(fields@)[i as int].0 == "leading_field"@);
            return true;
        }
        i = i + 1;
    }
    false
}

fn is_null(n: &Node) -> (r: bool)
    ensures
        r == (n.tree() is Null),
{
    match n {
        Node::Null => true,
        _ => false,
    }
}

fn is_compound(n: &Node) -> (r: bool)
    ensures
        r == (n.tree() is List || n.tree() is Record),
{
    match n {
        Node::List(_) => true,
        Node::Record(_) => true,
        _ => false,
    }
}

fn is_odd_quote(n: &Node) -> (r: bool)
    ensures
        r == (n.tree() is Text && n.tree()->Text_0.len() == 1 && !quote_fits(n.tree(), false)),
{
    match n {
        Node::Text(s) => s.as_str().unicode_len() == 1 && !has_quote(n, false),
        _ => false,
    }
}

fn reads_wrong(v: &Vec<Node>) -> (r: bool)
    ensures
        r == misread(trees(v@)),
{
    (v.len() == 3 && is_odd_quote(&v[1]) && is_compound(&v[2])) || (v.len() == 5 && means_second(&v[1]) && !is_null(
        &v[3],
    ))
}

fn gives(fields: &Vec<Field>, key: &str) -> (r: bool)
    ensures
        r == is_given(pairs(fields@), key@),
{
    let mut i: usize = 0;
    while i < fields.len()
        invariant
            i <= fields@.len(),
            forall|j: int|
                0 <= j < i && (#[trigger] pairs(fields@)[j]).0 == key@ ==> !(pairs(fields@)[j].1 is Null),
        decreases fields.len() - i,
    {
        if same(fields[i].key.as_str(), key) && is_null(&fields[i].value) {
            assert(pairs(fields@)[i as int].1 is Null);
            return false;
        }
        i = i + 1;
    }
    finds_key(fields, key)
}

fn filled(n: &Node) -> (r: bool)
    ensures
        r == is_filled(n.tree()),
{
    broadcast use group_trees;
    match n {
        Node::List(v) => v.len() > 0,
        _ => false,
    }
}

fn finds_filled(fields: &Vec<Field>, key: &str) -> (r: bool)
    ensures
        r == has_filled(pairs(fields@), key@),
{
    let mut i: usize = 0;
    while i < fields.len()
        invariant
            i <= fields@.len(),
            forall|j: int|
                0 <= j < i ==> !((#[trigger] pairs(fields@)[j]).0 == key@ && is_filled(pairs(fields@)[j].1)),
        decreases fields.len() - i,
    {
        if same(fields[i].key.as_str(), key) && filled(&fields[i].value) {
            assert(pairs(fields@)[i as int].0 == key@);
            return true;
        }
        i = i + 1;
    }
    false
}

fn names_table(n: &Node) -> (r: bool)
    ensures
        r == table_fits(n.tree()),
{
    broadcast use group_trees;
    match n {
        Node::Record(fields) => gives(fields, "table_name"),
        Node::List(v) => v.len() == 0 || !is_null(&v[0]),
        _ => true,
    }
}

fn has_limit(n: &Node) -> (r: bool)
    ensures
        r == limit_fits(n.tree()),
{
    broadcast use group_trees;
    match n {
        Node::Record(fields) => !finds_filled(fields, "limit_by") || gives(fields, "limit"),
        Node::List(v) => v.len() != 3 || !filled(&v[2]) || !is_null(&v[0]),
        _ => true,
    }
}

fn is_body_key(key: &str) -> (r: bool)
    ensures
        r == holds_body(key@),
{
    same(key, "body") || same(key, "left") || same(key, "right")
}

fn fits_in(fields: &Vec<Field>, i: usize, body: bool) -> (r: bool)
    requires
        i < fields@.len(),
    ensures
        r == field_fits(pairs(fields@), i as int, body),
{
    let key = fields[i].key.as_str();
    let value = &fields[i].value;
    assert(pairs(fields@)[i as int] == (key@, value.tree()));
    if same(key, "quote_style") && !has_quote(value, finds_key(fields, "keyword")) {
        return false;
    }
    if same(key, "Word") {
        match value {
            Node::List(_) => return false,
            _ => {},
        }
    }
    if same(key, "last_field") && !is_null(value) && finds_second(fields) {
        return false;
    }
    if body && same(key, "Table") && !names_table(value) {
        return false;
    }
    !same(key, "LimitOffset") || has_limit(value)
}

#[verifier::loop_isolation(false)]
fn is_part_writable(n: &Node, body: bool) -> (r: bool)
    ensures
        r == part_writable(n.tree(), body),
    decreases n,
{
    broadcast use group_trees;
    match n {
        Node::List(v) => {
            let mut fine = !reads_wrong(v);
            let mut i: usize = 0;
            while i < v.len()
                invariant
                    *n == Node::List(*v),
                    i <= v@.len(),
                    fine == (!misread(trees(v@)) && items_writable(trees(v@), i as nat)),
                decreases v.len() - i,
            {
                assert(decreases_to!(*v => v[i as int]));
                fine = is_part_writable(&v[i], true) && fine;
                i = i + 1;
            }
            fine
        },
        Node::Record(fields) => {
            let mut fine = true;
            let mut i: usize = 0;
            while i < fields.len()
                invariant
                    *n == Node::Record(*fields),
                    i <= fields@.len(),
                    fine == fields_writable(pairs(fields@), i as nat, body),
                decreases fields.len() - i,
            {
                assert(decreases_to!(*fields => fields[i as int]));
                let below = is_body_key(fields[i].key.as_str());
                fine = is_part_writable(&fields[i].value, below) && fits_in(fields, i, body) && fine;
                i = i + 1;
            }
            fine
        },
        _ => true,
    }
}

/// Whether every part of a tree can be written.
pub fn is_writable(n: &Node) -> (r: bool)
    ensures
        r == writable(n.tree()),
{
    is_part_writable(n, false)
}

/// How `sqlparser` writes a statement; nothing where the tree is not that of one.
pub uninterp spec fn statement_display(t: Tree) -> Option<Seq<char>>;

/// `Display` of `sqlparser::ast::Statement`: the text of a statement. Trees on which it
/// panics are left out.
#[verifier::external_body]
fn display_statement(node: &Node) -> (r: Option<String>)
    requires
        writable(node.tree()),
    ensures
        opt_text(r) == statement_display(node.tree()),
{
    let ast: sqlparser::ast::Statement = serde_json::from_value(value_of(node)).ok()?;
    Some(ast.to_string())
}

/// The text of a statement; nothing for any other tree.
pub open spec fn statement_sql(t: Tree) -> Option<Seq<char>> {
    if writable(t) {
        statement_display(t)
    } else {
        None
    }
}

/// Writes a statement.
pub(crate) fn render_statement(node: &Node) -> (r: Option<String>)
    ensures
        opt_text(r) == statement_sql(node.tree()),
{
    if is_writable(node) {
        display_statement(node)
    } else {
        None
    }
}

/// How `sqlparser` writes an expression; nothing where the tree is not that of one.
pub uninterp spec fn expr_display(t: Tree) -> Option<Seq<char>>;

/// `Display` of `sqlparser::ast::Expr`: the text of an expression. Trees on which it
/// panics are left out.
#[verifier::external_body]
fn display_expr(node: &Node) -> (r: Option<String>)
    requires
        writable(node.tree()),
    ensures
        opt_text(r) == expr_display(node.tree()),
{
    let ast: sqlparser::ast::Expr = serde_json::from_value(value_of(node)).ok()?;
    Some(ast.to_string())
}

/// The text of an expression; nothing for any other tree.
pub open spec fn expr_sql(t: Tree) -> Option<Seq<char>> {
    if writable(t) {
        expr_display(t)
    } else {
        None
    }
}

/// Writes an expression.
pub(crate) fn render_expr(node: &Node) -> (r: Option<String>)
    ensures
        opt_text(r) == expr_sql(node.tree()),
{
    if is_writable(node) {
        display_expr(node)
    } else {
        None
    }
}

/// How `sqlparser` writes a qualified name; nothing where the tree is not that of one.
pub uninterp spec fn object_name_display(t: Tree) -> Option<Seq<char>>;

/// `Display` of `sqlparser::ast::ObjectName`: the text of a qualified name. Trees on which it
/// panics are left out.
#[verifier::external_body]
fn display_object_name(node: &Node) -> (r: Option<String>)
    requires
        writable(node.tree()),
    ensures
        opt_text(r) == object_name_display(node.tree()),
{
    let ast: sqlparser::ast::ObjectName = serde_json::from_value(value_of(node)).ok()?;
    Some(ast.to_string())
}

/// The text of a qualified name; nothing for any other tree.
pub open spec fn object_name_sql(t: Tree) -> Option<Seq<char>> {
    if writable(t) {
        object_name_display(t)
    } else {
        None
    }
}

/// Writes a qualified name.
pub(crate) fn render_object_name(node: &Node) -> (r: Option<String>)
    ensures
        opt_text(r) == object_name_sql(node.tree()),
{
    if is_writable(node) {
        display_object_name(node)
    } else {
        None
    }
}

/// How `sqlparser` writes an identifier; nothing where the tree is not that of one.
pub uninterp spec fn ident_display(t: Tree) -> Option<Seq<char>>;

/// `Display` of `sqlparser::ast::Ident`: the text of an identifier. Trees on which it
/// panics are left out.
#[verifier::external_body]
fn display_ident(node: &Node) -> (r: Option<String>)
    requires
        writable(node.tree()),
    ensures
        opt_text(r) == ident_display(node.tree()),
{
    let ast: sqlparser::ast::Ident = serde_json::from_value(value_of(node)).ok()?;
    Some(ast.to_string())
}

/// The text of an identifier; nothing for any other tree.
pub open spec fn ident_sql(t: Tree) -> Option<Seq<char>> {
    if writable(t) {
        ident_display(t)
    } else {
        None
    }
}

/// Writes an identifier.
pub(crate) fn render_ident(node: &Node) -> (r: Option<String>)
    ensures
        opt_text(r) == ident_sql(node.tree()),
{
    if is_writable(node) {
        display_ident(node)
    } else {
        None
    }
}

/// How `sqlparser` writes a data type; nothing where the tree is not that of one.
pub uninterp spec fn data_type_display(t: Tree) -> Option<Seq<char>>;

/// `Display` of `sqlparser::ast::DataType`: the text of a data type. Trees on which it
/// panics are left out.
#[verifier::external_body]
fn display_data_type(node: &Node) -> (r: Option<String>)
    requires
        writable(node.tree()),
    ensures
        opt_text(r) == data_type_display(node.tree()),
{
    let ast: sqlparser::ast::DataType = serde_json::from_value(value_of(node)).ok()?;
    Some(ast.to_string())
}

/// The text of a data type; nothing for any other tree.
pub open spec fn data_type_sql(t: Tree) -> Option<Seq<char>> {
    if writable(t) {
        data_type_display(t)
    } else {
        None
    }
}

/// Writes a data type.
pub(crate) fn render_data_type(node: &Node) -> (r: Option<String>)
    ensures
        opt_text(r) == data_type_sql(node.tree()),
{
    if is_writable(node) {
        display_data_type(node)
    } else {
        None
    }
}

/// How `sqlparser` writes a column option; nothing where the tree is not that of one.
pub uninterp spec fn column_option_display(t: Tree) -> Option<Seq<char>>;

/// `Display` of `sqlparser::ast::ColumnOption`: the text of a column option. Trees on which it
/// panics are left out.
#[verifier::external_body]
fn display_column_option(node: &Node) -> (r: Option<String>)
    requires
        writable(node.tree()),
    ensures
        opt_text(r) == column_option_display(node.tree()),
{
    let ast: sqlparser::ast::ColumnOption = serde_json::from_value(value_of(node)).ok()?;
    Some(ast.to_string())
}

/// The text of a column option; nothing for any other tree.
pub open spec fn column_option_sql(t: Tree) -> Option<Seq<char>> {
    if writable(t) {
        column_option_display(t)
    } else {
        None
    }
}

/// Writes a column option.
pub(crate) fn render_column_option(node: &Node) -> (r: Option<String>)
    ensures
        opt_text(r) == column_option_sql(node.tree()),
{
    if is_writable(node) {
        display_column_option(node)
    } else {
        None
    }
}

/// How `sqlparser` writes an operation of ALTER TABLE; nothing where the tree is not that of one.
pub uninterp spec fn alter_operation_display(t: Tree) -> Option<Seq<char>>;

/// `Display` of `sqlparser::ast::AlterTableOperation`: the text of an operation of ALTER TABLE. Trees on which it
/// panics are left out.
#[verifier::external_body]
fn display_alter_operation(node: &Node) -> (r: Option<String>)
    requires
        writable(node.tree()),
    ensures
        opt_text(r) == alter_operation_display(node.tree()),
{
    let ast: sqlparser::ast::AlterTableOperation = serde_json::from_value(value_of(node)).ok()?;
    Some(ast.to_string())
}

/// The text of an operation of ALTER TABLE; nothing for any other tree.
pub open spec fn alter_operation_sql(t: Tree) -> Option<Seq<char>> {
    if writable(t) {
        alter_operation_display(t)
    } else {
        None
    }
}

/// Writes an operation of ALTER TABLE.
pub(crate) fn render_alter_operation(node: &Node) -> (r: Option<String>)
    ensures
        opt_text(r) == alter_operation_sql(node.tree()),
{
    if is_writable(node) {
        display_alter_operation(node)
    } else {
        None
    }
}

/// How `sqlparser` writes an index type; nothing where the tree is not that of one.
pub uninterp spec fn index_type_display(t: Tree) -> Option<Seq<char>>;

/// `Display` of `sqlparser::ast::IndexType`: the text of an index type. Trees on which it
/// panics are left out.
#[verifier::external_body]
fn display_index_type(node: &Node) -> (r: Option<String>)
    requires
        writable(node.tree()),
    ensures
        opt_text(r) == index_type_display(node.tree()),
{
    let ast: sqlparser::ast::IndexType = serde_json::from_value(value_of(node)).ok()?;
    Some(ast.to_string())
}

/// The text of an index type; nothing for any other tree.
pub open spec fn index_type_sql(t: Tree) -> Option<Seq<char>> {
    if writable(t) {
        index_type_display(t)
    } else {
        None
    }
}

/// Writes an index type.
pub(crate) fn render_index_type(node: &Node) -> (r: Option<String>)
    ensures
        opt_text(r) == index_type_sql(node.tree()),
{
    if is_writable(node) {
        display_index_type(node)
    } else {
        None
    }
}

/// How `sqlparser` writes a function call; nothing where the tree is not that of one.
pub uninterp spec fn function_display(t: Tree) -> Option<Seq<char>>;

/// `Display` of `sqlparser::ast::Function`: the text of a function call. Trees on which it
/// panics are left out.
#[verifier::external_body]
fn display_function(node: &Node) -> (r: Option<String>)
    requires
        writable(node.tree()),
    ensures
        opt_text(r) == function_display(node.tree()),
{
    let ast: sqlparser::ast::Function = serde_json::from_value(value_of(node)).ok()?;
    Some(ast.to_string())
}

/// The text of a function call; nothing for any other tree.
pub open spec fn function_sql(t: Tree) -> Option<Seq<char>> {
    if writable(t) {
        function_display(t)
    } else {
        None
    }
}

/// Writes a function call.
pub(crate) fn render_function(node: &Node) -> (r: Option<String>)
    ensures
        opt_text(r) == function_sql(node.tree()),
{
    if is_writable(node) {
        display_function(node)
    } else {
        None
    }
}

/// How `sqlparser` writes a token; nothing where the tree is not that of one.
pub uninterp spec fn token_display(t: Tree) -> Option<Seq<char>>;

/// `Display` of `sqlparser::tokenizer::Token`: the text of a token. Trees on which it
/// panics are left out.
#[verifier::external_body]
fn display_token(node: &Node) -> (r: Option<String>)
    requires
        writable(node.tree()),
    ensures
        opt_text(r) == token_display(node.tree()),
{
    let ast: sqlparser::tokenizer::Token = serde_json::from_value(value_of(node)).ok()?;
    Some(ast.to_string())
}

/// The text of a token; nothing for any other tree.
pub open spec fn token_sql(t: Tree) -> Option<Seq<char>> {
    if writable(t) {
        token_display(t)
    } else {
        None
    }
}

/// Writes a token.
pub(crate) fn render_token(node: &Node) -> (r: Option<String>)
    ensures
        opt_text(r) == token_sql(node.tree()),
{
    if is_writable(node) {
        display_token(node)
    } else {
        None
    }
}

/// How `sqlparser` writes the characteristics of a constraint; nothing where the tree is
/// not that of one.
pub uninterp spec fn characteristics_sql(t: Tree) -> Option<Seq<char>>;

/// `Display` of `sqlparser::ast::ConstraintCharacteristics`: the text of the
/// characteristics of a constraint.
#[verifier::external_body]
pub(crate) fn render_characteristics(node: &Node) -> (r: Option<String>)
    ensures
        opt_text(r) == characteristics_sql(node.tree()),
{
    let ast: sqlparser::ast::ConstraintCharacteristics = serde_json::from_value(value_of(node)).ok()?;
    Some(ast.to_string())
}

/// How a referential action is written; nothing where the tree is not that of one.
pub open spec fn referential_action_sql(t: Tree) -> Option<Seq<char>> {
    if is_unit(t, "Restrict"@) {
        Some("RESTRICT"@)
    } else if is_unit(t, "Cascade"@) {
        Some("CASCADE"@)
    } else if is_unit(t, "SetNull"@) {
        Some("SET NULL"@)
    } else if is_unit(t, "NoAction"@) {
        Some("NO ACTION"@)
    } else if is_unit(t, "SetDefault"@) {
        Some("SET DEFAULT"@)
    } else {
        None
    }
}

/// Writes a referential action.
pub(crate) fn render_referential_action(node: &Node) -> (r: Option<String>)
    ensures
        opt_text(r) == referential_action_sql(node.tree()),
{
    if node.is_unit("Restrict") {
        Some("RESTRICT".to_string())
    } else if node.is_unit("Cascade") {
        Some("CASCADE".to_string())
    } else if node.is_unit("SetNull") {
        Some("SET NULL".to_string())
    } else if node.is_unit("NoAction") {
        Some("NO ACTION".to_string())
    } else if node.is_unit("SetDefault") {
        Some("SET DEFAULT".to_string())
    } else {
        None
    }
}

/// How the match kind of a foreign key is written; nothing where the tree is not that of one.
pub open spec fn match_kind_sql(t: Tree) -> Option<Seq<char>> {
    if is_unit(t, "Full"@) {
        Some("MATCH FULL"@)
    } else if is_unit(t, "Partial"@) {
        Some("MATCH PARTIAL"@)
    } else if is_unit(t, "Simple"@) {
        Some("MATCH SIMPLE"@)
    } else {
        None
    }
}

/// Writes the match kind of a foreign key.
pub(crate) fn render_match_kind(node: &Node) -> (r: Option<String>)
    ensures
        opt_text(r) == match_kind_sql(node.tree()),
{
    if node.is_unit("Full") {
        Some("MATCH FULL".to_string())
    } else if node.is_unit("Partial") {
        Some("MATCH PARTIAL".to_string())
    } else if node.is_unit("Simple") {
        Some("MATCH SIMPLE".to_string())
    } else {
        None
    }
}

/// How the NULLS [NOT] DISTINCT option is written; nothing where the tree is not that of one.
pub open spec fn nulls_distinct_sql(t: Tree) -> Option<Seq<char>> {
    if is_unit(t, "None"@) {
        Some(""@)
    } else if is_unit(t, "Distinct"@) {
        Some(" NULLS DISTINCT"@)
    } else if is_unit(t, "NotDistinct"@) {
        Some(" NULLS NOT DISTINCT"@)
    } else {
        None
    }
}

/// Writes the NULLS [NOT] DISTINCT option.
pub(crate) fn render_nulls_distinct(node: &Node) -> (r: Option<String>)
    ensures
        opt_text(r) == nulls_distinct_sql(node.tree()),
{
    if node.is_unit("None") {
        Some("".to_string())
    } else if node.is_unit("Distinct") {
        Some(" NULLS DISTINCT".to_string())
    } else if node.is_unit("NotDistinct") {
        Some(" NULLS NOT DISTINCT".to_string())
    } else {
        None
    }
}

/// How the kind of object a SHOW statement looks into is written; nothing where the tree is not that of one.
pub open spec fn show_parent_sql(t: Tree) -> Option<Seq<char>> {
    if is_unit(t, "Account"@) {
        Some("ACCOUNT"@)
    } else if is_unit(t, "Database"@) {
        Some("DATABASE"@)
    } else if is_unit(t, "Schema"@) {
        Some("SCHEMA"@)
    } else if is_unit(t, "Table"@) {
        Some("TABLE"@)
    } else if is_unit(t, "View"@) {
        Some("VIEW"@)
    } else {
        None
    }
}

/// Writes the kind of object a SHOW statement looks into.
pub(crate) fn render_show_parent(node: &Node) -> (r: Option<String>)
    ensures
        opt_text(r) == show_parent_sql(node.tree()),
{
    if node.is_unit("Account") {
        Some("ACCOUNT".to_string())
    } else if node.is_unit("Database") {
        Some("DATABASE".to_string())
    } else if node.is_unit("Schema") {
        Some("SCHEMA".to_string())
    } else if node.is_unit("Table") {
        Some("TABLE".to_string())
    } else if node.is_unit("View") {
        Some("VIEW".to_string())
    } else {
        None
    }
}

/// How the kind of object of SHOW CREATE is written; nothing where the tree is not that of one.
pub open spec fn show_create_object_sql(t: Tree) -> Option<Seq<char>> {
    if is_unit(t, "Event"@) {
        Some("EVENT"@)
    } else if is_unit(t, "Function"@) {
        Some("FUNCTION"@)
    } else if is_unit(t, "Procedure"@) {
        Some("PROCEDURE"@)
    } else if is_unit(t, "Table"@) {
        Some("TABLE"@)
    } else if is_unit(t, "Trigger"@) {
        Some("TRIGGER"@)
    } else if is_unit(t, "View"@) {
        Some("VIEW"@)
    } else {
        None
    }
}

/// Writes the kind of object of SHOW CREATE.
pub(crate) fn render_show_create_object(node: &Node) -> (r: Option<String>)
    ensures
        opt_text(r) == show_create_object_sql(node.tree()),
{
    if node.is_unit("Event") {
        Some("EVENT".to_string())
    } else if node.is_unit("Function") {
        Some("FUNCTION".to_string())
    } else if node.is_unit("Procedure") {
        Some("PROCEDURE".to_string())
    } else if node.is_unit("Table") {
        Some("TABLE".to_string())
    } else if node.is_unit("Trigger") {
        Some("TRIGGER".to_string())
    } else if node.is_unit("View") {
        Some("VIEW".to_string())
    } else {
        None
    }
}

/// A rendered text, empty where there was nothing to render.
pub open spec fn shown(r: Option<Seq<char>>) -> Seq<char> {
    match r {
        Some(s) => s,
        None => Seq::empty(),
    }
}

pub fn show(r: Option<String>) -> (out: String)
    ensures
        out@ == shown(opt_text(r)),
{
    match r {
        Some(s) => s,
        None => String::new(),
    }
}

} // verus!
