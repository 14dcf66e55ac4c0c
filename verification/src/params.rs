//! Parameters of prepared statements: their placeholders in the text, and their values.
use vstd::prelude::*;
use vstd::utf8::{decode_utf8, valid_utf8};

use crate::cache::TranslationCache;
use crate::config::TranslatorConfig;
use crate::direct::text_or;
use crate::error::{translation_error, Failure, MiddlewareError};
use crate::executor::{utf8_text, PgParam};
use crate::scan::lemma_assoc;
use crate::text::{
    cat2, cat3, cat4, cat5, cat7, chars_of, contains, count_occurrences, decimal, digit, find_from,
    from_chars, lemma_decimal_digits, lemma_decimal_injective, lemma_find, lemma_find_first,
    lemma_occurrences_add, number, occurrences, occurs, occurs_at, pad, padded, replace_text,
    replaced_text, signed_decimal, signed_number,
};
use crate::translator::{translation, translation_view, Translation, TranslationResult};

verus! {

/// The length of a quoted stretch, given the text after its opening quote: up to and with
/// the next quote, a backslash hiding the character after it.
pub open spec fn quoted_len(t: Seq<char>, q: char, escapes: bool) -> nat
    decreases t.len(),
{
    if t.len() == 0 {
        0
    } else if escapes && t[0] == '\\' {
        if t.len() == 1 {
            1
        } else {
            2 + quoted_len(t.skip(2), q, escapes)
        }
    } else if t[0] == q {
        1
    } else {
        1 + quoted_len(t.skip(1), q, escapes)
    }
}

/// The length of a comment that runs to the end of the line.
pub open spec fn line_len(t: Seq<char>) -> nat
    decreases t.len(),
{
    if t.len() == 0 {
        0
    } else if t[0] == '\n' {
        1
    } else {
        1 + line_len(t.skip(1))
    }
}

/// The length of a block comment, given the text after its opening.
pub open spec fn block_len(t: Seq<char>) -> nat
    decreases t.len(),
{
    if t.len() == 0 {
        0
    } else if t[0] == '*' && t.len() > 1 && t[1] == '/' {
        2
    } else {
        1 + block_len(t.skip(1))
    }
}

/// The length of the literal, quoted identifier or comment at the start of a text; zero
/// where there is none.
pub open spec fn opaque_len(t: Seq<char>) -> nat {
    if t.len() == 0 {
        0
    } else if t[0] == '\'' || t[0] == '"' {
        1 + quoted_len(t.skip(1), t[0], true)
    } else if t[0] == '`' {
        1 + quoted_len(t.skip(1), '`', false)
    } else if t[0] == '#' {
        1 + line_len(t.skip(1))
    } else if t[0] == '-' && t.len() > 1 && t[1] == '-' {
        2 + line_len(t.skip(2))
    } else if t[0] == '/' && t.len() > 1 && t[1] == '*' {
        2 + block_len(t.skip(2))
    } else {
        0
    }
}

proof fn lemma_quoted_len(t: Seq<char>, q: char, escapes: bool)
    ensures
        quoted_len(t, q, escapes) <= t.len(),
    decreases t.len(),
{
    if t.len() > 0 {
        if escapes && t[0] == '\\' {
            if t.len() > 1 {
                lemma_quoted_len(t.skip(2), q, escapes);
            }
        } else if t[0] != q {
            lemma_quoted_len(t.skip(1), q, escapes);
        }
    }
}

proof fn lemma_line_len(t: Seq<char>)
    ensures
        line_len(t) <= t.len(),
    decreases t.len(),
{
    if t.len() > 0 && t[0] != '\n' {
        lemma_line_len(t.skip(1));
    }
}

proof fn lemma_block_len(t: Seq<char>)
    ensures
        block_len(t) <= t.len(),
    decreases t.len(),
{
    if t.len() > 0 {
        lemma_block_len(t.skip(1));
    }
}

/// An opaque stretch lies inside the text.
pub proof fn lemma_opaque_len(t: Seq<char>)
    ensures
        opaque_len(t) <= t.len(),
{
    if t.len() > 0 {
        lemma_quoted_len(t.skip(1), t[0], true);
        lemma_quoted_len(t.skip(1), '`', false);
        lemma_line_len(t.skip(1));
        if t.len() > 1 {
            lemma_line_len(t.skip(2));
            lemma_block_len(t.skip(2));
        }
    }
}

/// The number of placeholders in a text, those in literals, quoted identifiers and
/// comments not counted.
pub open spec fn placeholders(t: Seq<char>) -> nat
    decreases t.len(),
{
    if t.len() == 0 {
        0
    } else if opaque_len(t) > 0 {
        proof {
            lemma_opaque_len(t);
        }
        placeholders(t.skip(opaque_len(t) as int))
    } else if t[0] == '?' {
        1 + placeholders(t.skip(1))
    } else {
        placeholders(t.skip(1))
    }
}

/// A numbered placeholder of PostgreSQL.
pub open spec fn dollar(n: nat) -> Seq<char> {
    "$"@ + decimal(n)
}

/// A text with its placeholders numbered, from `n + 1` on, and nothing else changed.
pub open spec fn numbered(t: Seq<char>, n: nat) -> Seq<char>
    decreases t.len(),
{
    if t.len() == 0 {
        Seq::empty()
    } else if opaque_len(t) > 0 {
        proof {
            lemma_opaque_len(t);
        }
        t.take(opaque_len(t) as int) + numbered(t.skip(opaque_len(t) as int), n)
    } else if t[0] == '?' {
        dollar(n + 1) + numbered(t.skip(1), n + 1)
    } else {
        seq![t[0]] + numbered(t.skip(1), n)
    }
}

fn skip_quoted_stretch(c: &Vec<char>, from: usize, q: char, escapes: bool) -> (r: usize)
    requires
        from <= c@.len(),
    ensures
        r == from + quoted_len(c@.skip(from as int), q, escapes),
        r <= c@.len(),
{
    let n: usize = c.len();
    let mut i: usize = from;
    proof {
        lemma_quoted_len(c@.skip(from as int), q, escapes);
    }
    while i < n
        invariant
            n == c@.len(),
            from <= i <= n,
            i + quoted_len(c@.skip(i as int), q, escapes) == from + quoted_len(
                c@.skip(from as int),
                q,
                escapes,
            ),
            from + quoted_len(c@.skip(from as int), q, escapes) <= n,
        decreases n - i,
    {
        let ghost t = c@.skip(i as int);
        assert(t[0] == c@[i as int]);
        assert(t.skip(1) =~= c@.skip(i + 1));
        if escapes && c[i] == '\\' {
            if n - i == 1 {
                return n;
            }
            assert(t.skip(2) =~= c@.skip(i + 2));
            i = i + 2;
        } else if c[i] == q {
            return i + 1;
        } else {
            i = i + 1;
        }
    }
    i
}

fn skip_line(c: &Vec<char>, from: usize) -> (r: usize)
    requires
        from <= c@.len(),
    ensures
        r == from + line_len(c@.skip(from as int)),
        r <= c@.len(),
{
    let n: usize = c.len();
    let mut i: usize = from;
    while i < n
        invariant
            n == c@.len(),
            from <= i <= n,
            i + line_len(c@.skip(i as int)) == from + line_len(c@.skip(from as int)),
        decreases n - i,
    {
        assert(c@.skip(i as int)[0] == c@[i as int]);
        assert(c@.skip(i as int).skip(1) =~= c@.skip(i + 1));
        if c[i] == '\n' {
            return i + 1;
        }
        i = i + 1;
    }
    i
}

fn skip_block(c: &Vec<char>, from: usize) -> (r: usize)
    requires
        from <= c@.len(),
    ensures
        r == from + block_len(c@.skip(from as int)),
        r <= c@.len(),
{
    let n: usize = c.len();
    let mut i: usize = from;
    while i < n
        invariant
            n == c@.len(),
            from <= i <= n,
            i + block_len(c@.skip(i as int)) == from + block_len(c@.skip(from as int)),
        decreases n - i,
    {
        let ghost t = c@.skip(i as int);
        assert(t[0] == c@[i as int]);
        assert(t.skip(1) =~= c@.skip(i + 1));
        if c[i] == '*' && n - i > 1 && c[i + 1] == '/' {
            assert(t[1] == c@[i + 1]);
            return i + 2;
        }
        assert(t.len() > 1 ==> t[1] == c@[i + 1]);
        i = i + 1;
    }
    i
}

/// The position after the literal, quoted identifier or comment at `i`; `i` where there
/// is none.
fn skip_opaque(c: &Vec<char>, i: usize) -> (r: usize)
    requires
        i < c@.len(),
    ensures
        r == i + opaque_len(c@.skip(i as int)),
        i <= r <= c@.len(),
{
    let n: usize = c.len();
    let ghost t = c@.skip(i as int);
    let ch = c[i];
    assert(t[0] == ch);
    assert(t.skip(1) =~= c@.skip(i + 1));
    assert(t.len() > 1 ==> t[1] == c@[i + 1]);
    if ch == '\'' || ch == '"' {
        skip_quoted_stretch(c, i + 1, ch, true)
    } else if ch == '`' {
        skip_quoted_stretch(c, i + 1, '`', false)
    } else if ch == '#' {
        skip_line(c, i + 1)
    } else if ch == '-' && n - i > 1 && c[i + 1] == '-' {
        assert(t.skip(2) =~= c@.skip(i + 2));
        skip_line(c, i + 2)
    } else if ch == '/' && n - i > 1 && c[i + 1] == '*' {
        assert(t.skip(2) =~= c@.skip(i + 2));
        skip_block(c, i + 2)
    } else {
        i
    }
}

/// Numbers the placeholders of a text: the numbered text and how many there were.
pub fn scan_prepare_placeholders(sql: &str) -> (r: (String, usize))
    ensures
        r.0@ == numbered(sql@, 0),
        r.1 == placeholders(sql@),
        r.1 <= sql@.len(),
{
    let c = chars_of(sql);
    let n: usize = c.len();
    let mut out = String::new();
    let mut count: usize = 0;
    let mut i: usize = 0;
    assert(c@.skip(0) =~= c@);
    assert(out@ + numbered(c@, 0) =~= numbered(c@, 0));
    while i < n
        invariant
            n == c@.len(),
            c@ == sql@,
            i <= n,
            count <= i,
            out@ + numbered(c@.skip(i as int), count as nat) == numbered(c@, 0),
            count + placeholders(c@.skip(i as int)) == placeholders(c@),
        decreases n - i,
    {
        let ghost t = c@.skip(i as int);
        let ghost before = out@;
        assert(t[0] == c@[i as int]);
        assert(t.skip(1) =~= c@.skip(i + 1));
        let e = skip_opaque(&c, i);
        if e > i {
            assert(t.skip(opaque_len(t) as int) =~= c@.skip(e as int));
            assert(t.take(opaque_len(t) as int) =~= c@.subrange(i as int, e as int));
            out.append(from_chars(&c, i, e).as_str());
            proof {
                lemma_assoc(
                    before,
                    t.take(opaque_len(t) as int),
                    numbered(c@.skip(e as int), count as nat),
                );
            }
            i = e;
        } else if c[i] == '?' {
            count = count + 1;
            let text = cat2("$", number(count as u64).as_str());
            out.append(text.as_str());
            proof {
                lemma_assoc(before, dollar(count as nat), numbered(c@.skip(i + 1), count as nat));
            }
            i = i + 1;
        } else {
            out.push(c[i]);
            assert(out@ =~= before + seq![t[0]]);
            proof {
                lemma_assoc(before, seq![t[0]], numbered(c@.skip(i + 1), count as nat));
            }
            i = i + 1;
        }
    }
    assert(c@.skip(i as int) =~= Seq::<char>::empty());
    assert(out@ =~= numbered(c@, 0));
    (out, count)
}

/// Counts the placeholders of a text.
pub fn count_prepare_placeholders(sql: &str) -> (r: usize)
    ensures
        r == placeholders(sql@),
{
    let (_, count) = scan_prepare_placeholders(sql);
    count
}

/// A statement with PostgreSQL's placeholders.
pub open spec fn postgres_placeholders(sql: Seq<char>) -> Result<Seq<char>, Failure> {
    if placeholders(sql) == 0 || occurs(numbered(sql, 0), "$1"@) {
        Ok(numbered(sql, 0))
    } else {
        Err(Failure::Translation("failed to rewrite prepared statement placeholders"@))
    }
}

/// Writes a statement with PostgreSQL's placeholders.
pub fn rewrite_prepare_placeholders_for_postgres(sql: &str) -> (r: Result<String, MiddlewareError>)
    ensures
        text_or(r) == postgres_placeholders(sql@),
{
    let (rewritten, expected) = scan_prepare_placeholders(sql);
    if expected == 0 {
        return Ok(rewritten);
    }
    if !contains(rewritten.as_str(), "$1") {
        return Err(translation_error("failed to rewrite prepared statement placeholders"));
    }
    Ok(rewritten)
}

proof fn lemma_first_is_numbered(t: Seq<char>)
    requires
        placeholders(t) > 0,
    ensures
        exists|i: int| occurs_at(numbered(t, 0), dollar(1), i),
    decreases t.len(),
{
    lemma_opaque_len(t);
    let k = if opaque_len(t) > 0 {
        opaque_len(t) as int
    } else {
        1int
    };
    if opaque_len(t) == 0 && t[0] == '?' {
        let s = numbered(t, 0);
        assert(s.subrange(0, dollar(1).len() as int) =~= dollar(1));
        assert(occurs_at(s, dollar(1), 0));
    } else {
        lemma_first_is_numbered(t.skip(k));
        let rest = numbered(t.skip(k), 0);
        let i = choose|i: int| occurs_at(rest, dollar(1), i);
        let s = numbered(t, 0);
        let head = t.take(k);
        assert(s =~= head + rest) by {
            if opaque_len(t) == 0 {
                assert(head =~= seq![t[0]]);
            }
        }
        assert(s.subrange(i + k, i + k + dollar(1).len()) =~= rest.subrange(i, i + dollar(1).len()));
        assert(occurs_at(s, dollar(1), i + k));
    }
}

/// Numbering the placeholders of a statement never fails.
pub proof fn numbering_never_fails(sql: Seq<char>)
    ensures
        postgres_placeholders(sql) == Ok::<Seq<char>, Failure>(numbered(sql, 0)),
{
    if placeholders(sql) > 0 {
        lemma_first_is_numbered(sql);
        reveal_strlit("$");
        reveal_strlit("$1");
        assert(decimal(1) =~= seq!['1']);
        assert(dollar(1) =~= "$1"@);
        let i = choose|i: int| occurs_at(numbered(sql, 0), dollar(1), i);
        assert(occurs_at(numbered(sql, 0), "$1"@, i));
    }
}

/// A statement without placeholders keeps its text.
pub proof fn statements_without_placeholders_are_kept(t: Seq<char>, n: nat)
    requires
        placeholders(t) == 0,
    ensures
        numbered(t, n) == t,
    decreases t.len(),
{
    lemma_opaque_len(t);
    if t.len() > 0 {
        if opaque_len(t) > 0 {
            let k = opaque_len(t) as int;
            statements_without_placeholders_are_kept(t.skip(k), n);
            assert(t.take(k) + t.skip(k) =~= t);
        } else {
            statements_without_placeholders_are_kept(t.skip(1), n);
            assert(seq![t[0]] + t.skip(1) =~= t);
        }
    } else {
        assert(numbered(t, n) =~= t);
    }
}

proof fn lemma_quoted_len_keeps(t: Seq<char>, x: Seq<char>, q: char, escapes: bool)
    requires
        quoted_len(t, q, escapes) < t.len(),
    ensures
        quoted_len(t.take(quoted_len(t, q, escapes) as int) + x, q, escapes) == quoted_len(t, q, escapes),
    decreases t.len(),
{
    let k = quoted_len(t, q, escapes) as int;
    let u = t.take(k) + x;
    if escapes && t[0] == '\\' {
        lemma_quoted_len(t.skip(2), q, escapes);
        lemma_quoted_len_keeps(t.skip(2), x, q, escapes);
        assert(u[0] == t[0]);
        assert(u.skip(2) =~= t.skip(2).take(k - 2) + x);
    } else if t[0] == q {
        assert(u[0] == t[0]);
    } else {
        lemma_quoted_len_keeps(t.skip(1), x, q, escapes);
        assert(u[0] == t[0]);
        assert(u.skip(1) =~= t.skip(1).take(k - 1) + x);
    }
}

proof fn lemma_line_len_keeps(t: Seq<char>, x: Seq<char>)
    requires
        line_len(t) < t.len(),
    ensures
        line_len(t.take(line_len(t) as int) + x) == line_len(t),
    decreases t.len(),
{
    let k = line_len(t) as int;
    let u = t.take(k) + x;
    assert(u[0] == t[0]);
    if t[0] != '\n' {
        lemma_line_len_keeps(t.skip(1), x);
        assert(u.skip(1) =~= t.skip(1).take(k - 1) + x);
    }
}

proof fn lemma_block_len_keeps(t: Seq<char>, x: Seq<char>)
    requires
        block_len(t) < t.len(),
    ensures
        block_len(t.take(block_len(t) as int) + x) == block_len(t),
    decreases t.len(),
{
    let k = block_len(t) as int;
    let u = t.take(k) + x;
    if t[0] == '*' && t.len() > 1 && t[1] == '/' {
        assert(u[0] == t[0] && u[1] == t[1]);
    } else {
        lemma_block_len_keeps(t.skip(1), x);
        lemma_block_len(t.skip(1));
        assert(u[0] == t[0]);
        assert(k >= 2) by {
            if k == 1 {
                assert(block_len(t.skip(1)) == 0);
                assert(t.skip(1).len() > 0);
            }
        }
        assert(u[1] == t[1]);
        assert(u.skip(1) =~= t.skip(1).take(k - 1) + x);
    }
}

/// A closed opaque stretch stays as long whatever follows it.
proof fn lemma_opaque_len_keeps(t: Seq<char>, x: Seq<char>)
    requires
        0 < opaque_len(t) < t.len(),
    ensures
        opaque_len(t.take(opaque_len(t) as int) + x) == opaque_len(t),
{
    let k = opaque_len(t) as int;
    let u = t.take(k) + x;
    assert(u[0] == t[0]);
    assert(u.skip(1) =~= t.skip(1).take(k - 1) + x);
    if t[0] == '\'' || t[0] == '"' {
        lemma_quoted_len_keeps(t.skip(1), x, t[0], true);
    } else if t[0] == '`' {
        lemma_quoted_len_keeps(t.skip(1), x, '`', false);
    } else if t[0] == '#' {
        lemma_line_len_keeps(t.skip(1), x);
    } else {
        assert(u[1] == t[1]);
        assert(u.skip(2) =~= t.skip(2).take(k - 2) + x);
        if t[0] == '-' {
            lemma_line_len_keeps(t.skip(2), x);
        } else {
            lemma_block_len_keeps(t.skip(2), x);
        }
    }
}

proof fn lemma_decimal_is_plain(n: nat, x: Seq<char>)
    ensures
        placeholders(decimal(n) + x) == placeholders(x),
    decreases n,
{
    if n < 10 {
        let u = decimal(n) + x;
        assert(u[0] == digit(n));
        assert(u.skip(1) =~= x);
        assert(opaque_len(u) == 0);
    } else {
        let d = digit(n % 10);
        lemma_decimal_is_plain(n / 10, seq![d] + x);
        assert(decimal(n) + x =~= decimal(n / 10) + (seq![d] + x));
        let u = seq![d] + x;
        assert(u[0] == d);
        assert(u.skip(1) =~= x);
        assert(opaque_len(u) == 0);
    }
}

proof fn lemma_numbered_start(t: Seq<char>, n: nat)
    requires
        t.len() > 0,
    ensures
        numbered(t, n).len() > 0,
        numbered(t, n)[0] == t[0] || (t[0] == '?' && numbered(t, n)[0] == '$'),
{
    lemma_opaque_len(t);
    reveal_strlit("$");
    if opaque_len(t) > 0 {
        assert(numbered(t, n)[0] == t.take(opaque_len(t) as int)[0]);
    } else if t[0] == '?' {
        assert(dollar(n + 1)[0] == '$');
    }
}

/// Once its placeholders are numbered, a statement has none left.
pub proof fn numbering_leaves_no_placeholder(t: Seq<char>, n: nat)
    ensures
        placeholders(numbered(t, n)) == 0,
    decreases t.len(),
{
    lemma_opaque_len(t);
    if t.len() > 0 {
        let k = opaque_len(t) as int;
        if k > 0 {
            let rest = numbered(t.skip(k), n);
            numbering_leaves_no_placeholder(t.skip(k), n);
            let u = t.take(k) + rest;
            if k < t.len() {
                lemma_opaque_len_keeps(t, rest);
            } else {
                assert(t.take(k) =~= t);
                assert(rest =~= Seq::<char>::empty());
                assert(u =~= t);
            }
            assert(u.skip(k) =~= rest);
        } else if t[0] == '?' {
            let rest = numbered(t.skip(1), n + 1);
            numbering_leaves_no_placeholder(t.skip(1), n + 1);
            reveal_strlit("$");
            let u = dollar(n + 1) + rest;
            assert(u[0] == '$');
            assert(u.skip(1) =~= decimal(n + 1) + rest);
            lemma_decimal_is_plain(n + 1, rest);
            assert(opaque_len(u) == 0);
        } else {
            let rest = numbered(t.skip(1), n);
            numbering_leaves_no_placeholder(t.skip(1), n);
            let u = seq![t[0]] + rest;
            assert(u[0] == t[0]);
            assert(u.skip(1) =~= rest);
            if t.len() > 1 {
                lemma_numbered_start(t.skip(1), n);
                assert(u[1] == rest[0]);
                assert(t.skip(1)[0] == t[1]);
            }
            assert(opaque_len(u) == 0);
        }
    }
}

/// The text that stands for the parameter of that number while a statement is parsed.
pub open spec fn marker(n: nat) -> Seq<char> {
    "__mw_prepare_param_"@ + decimal(n) + "__"@
}

pub fn prepare_param_marker(index: usize) -> (r: String)
    ensures
        r@ == marker(index as nat),
{
    cat3("__mw_prepare_param_", number(index as u64).as_str(), "__")
}

/// The number of question marks in a text.
pub open spec fn question_marks(s: Seq<char>) -> nat
    decreases s.len(),
{
    if s.len() == 0 {
        0
    } else {
        question_marks(s.drop_last()) + if s.last() == '?' {
            1nat
        } else {
            0nat
        }
    }
}

/// A text with a quoted marker in place of each question mark.
pub open spec fn marked(s: Seq<char>) -> Seq<char>
    decreases s.len(),
{
    if s.len() == 0 {
        s
    } else if s.last() == '?' {
        marked(s.drop_last()) + "'"@ + marker(question_marks(s)) + "'"@
    } else {
        marked(s.drop_last()).push(s.last())
    }
}

/// Writes a quoted marker in place of each question mark, for statements that do not
/// parse with a placeholder.
pub fn replace_prepare_params_with_string_literals(sql: &str) -> (r: String)
    ensures
        r@ == marked(sql@),
{
    let c = chars_of(sql);
    let n: usize = c.len();
    let mut out = String::new();
    let mut count: usize = 0;
    let mut i: usize = 0;
    assert(out@ =~= c@.take(0));
    while i < n
        invariant
            n == c@.len(),
            c@ == sql@,
            i <= n,
            count <= i,
            count == question_marks(c@.take(i as int)),
            out@ == marked(c@.take(i as int)),
        decreases n - i,
    {
        assert(c@.take(i + 1).drop_last() =~= c@.take(i as int));
        assert(c@.take(i + 1).last() == c@[i as int]);
        if c[i] == '?' {
            count = count + 1;
            out.append("'");
            out.append(prepare_param_marker(count).as_str());
            out.append("'");
        } else {
            out.push(c[i]);
        }
        i = i + 1;
    }
    assert(c@.take(i as int) =~= c@);
    out
}

/// A text with the markers of the first `n` numbers, quoted or bare, turned back into
/// question marks.
pub open spec fn unmarked_up_to(s: Seq<char>, n: nat) -> Seq<char>
    decreases n,
{
    if n == 0 {
        s
    } else {
        let before = unmarked_up_to(s, (n - 1) as nat);
        replaced_text(
            replaced_text(before, "'"@ + marker(n) + "'"@, "?"@),
            marker(n),
            "?"@,
        )
    }
}

/// A text with its markers turned back into question marks.
pub open spec fn unmarked(s: Seq<char>) -> Seq<char> {
    let count = occurrences(s, "__mw_prepare_param_"@);
    unmarked_up_to(
        s,
        if count == 0 {
            1
        } else {
            count
        },
    )
}

/// Turns markers back into question marks.
pub fn restore_prepare_param_markers(sql: &str) -> (r: String)
    ensures
        r@ == unmarked(sql@),
{
    proof {
        reveal_strlit("__mw_prepare_param_");
    }
    let mut count: usize = count_occurrences(sql, "__mw_prepare_param_");
    if count == 0 {
        count = 1;
    }
    let ghost total = count as nat;
    let mut restored = sql.to_string();
    let mut i: usize = 0;
    while i < count
        invariant
            i <= count,
            "__mw_prepare_param_"@.len() > 0,
            restored@ == unmarked_up_to(sql@, i as nat),
        decreases count - i,
    {
        i = i + 1;
        let bare = prepare_param_marker(i);
        let quoted = cat3("'", bare.as_str(), "'");
        restored = replace_text(restored.as_str(), quoted.as_str(), "?");
        restored = replace_text(restored.as_str(), bare.as_str(), "?");
    }
    restored
}

/// What every marker starts with.
pub open spec fn marker_start() -> Seq<char> {
    "__mw_prepare_param_"@
}

/// A marker in quotes.
pub open spec fn quoted_marker(n: nat) -> Seq<char> {
    "'"@ + marker(n) + "'"@
}

/// A text in which the first `n` question marks are as they are and the others marked.
pub open spec fn marked_after(s: Seq<char>, n: nat) -> Seq<char>
    decreases s.len(),
{
    if s.len() == 0 {
        s
    } else if s.last() == '?' && question_marks(s) > n {
        marked_after(s.drop_last(), n) + quoted_marker(question_marks(s))
    } else {
        marked_after(s.drop_last(), n).push(s.last())
    }
}

proof fn lemma_marked_after_none(s: Seq<char>)
    ensures
        marked_after(s, 0) == marked(s),
    decreases s.len(),
{
    if s.len() > 0 {
        lemma_marked_after_none(s.drop_last());
        if s.last() == '?' {
            assert(marked(s) =~= marked(s.drop_last()) + quoted_marker(question_marks(s)));
        }
    }
}

proof fn lemma_marked_after_all(s: Seq<char>, n: nat)
    requires
        question_marks(s) <= n,
    ensures
        marked_after(s, n) == s,
    decreases s.len(),
{
    if s.len() > 0 {
        lemma_marked_after_all(s.drop_last(), n);
        assert(s.drop_last().push(s.last()) =~= s);
    }
}

/// The shape of a marker.
proof fn lemma_marker_shape(n: nat)
    ensures
        marker_start().len() == 19,
        marker_start()[0] == '_',
        marker_start()[1] == '_',
        marker_start()[2] == 'm',
        forall|i: int| 0 <= i < 19 ==> #[trigger] marker_start()[i] != '\'',
        marker_start()[15] == 'r',
        forall|i: int| 0 <= i < 19 && #[trigger] marker_start()[i] == 'm' ==> i == 2 || i == 17,
        marker(n).len() == 21 + decimal(n).len(),
        marker(n).take(19) == marker_start(),
        forall|i: int| 19 <= i < marker(n).len() ==> #[trigger] marker(n)[i] != 'm' && marker(n)[i] != '\'',
        quoted_marker(n).len() == marker(n).len() + 2,
        quoted_marker(n)[0] == '\'',
        quoted_marker(n).last() == '\'',
        quoted_marker(n).subrange(1, 1 + marker(n).len() as int) == marker(n),
{
    reveal_strlit("__mw_prepare_param_");
    reveal_strlit("__");
    reveal_strlit("'");
    lemma_decimal_digits(n);
    let m = marker(n);
    assert(m.take(19) =~= marker_start());
    assert forall|i: int| 19 <= i < m.len() implies #[trigger] m[i] != 'm' && m[i] != '\'' by {
        if i < 19 + decimal(n).len() {
            assert(m[i] == decimal(n)[i - 19]);
        } else {
            assert(m[i] == "__"@[i - 19 - decimal(n).len()]);
        }
    }
    assert(quoted_marker(n).subrange(1, 1 + m.len() as int) =~= m);
}

/// The end of a partly marked text that holds no quote is the end of the text itself.
proof fn lemma_plain_end(s: Seq<char>, n: nat, m: int)
    requires
        0 <= m <= marked_after(s, n).len(),
        forall|i: int|
            marked_after(s, n).len() - m <= i < marked_after(s, n).len() ==> #[trigger] marked_after(s, n)[i] != '\'',
    ensures
        m <= s.len(),
        marked_after(s, n).skip(marked_after(s, n).len() - m) == s.skip(s.len() - m),
    decreases m,
{
    let u = marked_after(s, n);
    if m > 0 {
        lemma_marker_shape(question_marks(s));
        let t = marked_after(s.drop_last(), n);
        assert(u[u.len() - 1] != '\'');
        if s.last() == '?' && question_marks(s) > n {
            assert(u.last() == quoted_marker(question_marks(s)).last());
        }
        assert(u =~= t.push(s.last()));
        assert forall|i: int| t.len() - (m - 1) <= i < t.len() implies #[trigger] t[i] != '\'' by {
            assert(u[i] == t[i]);
        }
        lemma_plain_end(s.drop_last(), n, m - 1);
        assert(u.skip(u.len() - m) =~= t.skip(t.len() - (m - 1)).push(s.last()));
        assert(s.skip(s.len() - m) =~= s.drop_last().skip(s.drop_last().len() - (m - 1)).push(s.last()));
    } else {
        assert(u.skip(u.len() as int) =~= s.skip(s.len() as int));
    }
}

/// Where the start of a marker stands in a partly marked text, a marker stands there: the
/// one of a question mark that is not left as it is.
proof fn lemma_marker_place(s: Seq<char>, n: nat, j: int) -> (p: int)
    requires
        !occurs(s, marker_start()),
        occurs_at(marked_after(s, n), marker_start(), j),
    ensures
        0 <= p < s.len(),
        s[p] == '?',
        question_marks(s.take(p)) >= n,
        j == marked_after(s.take(p), n).len() + 1,
        occurs_at(marked_after(s, n), quoted_marker(question_marks(s.take(p)) + 1), j - 1),
    decreases s.len(),
{
    let u = marked_after(s, n);
    lemma_marker_shape(0);
    assert(s.len() > 0);
    let d = s.drop_last();
    let t = marked_after(d, n);
    assert forall|i: int| !#[trigger] occurs_at(d, marker_start(), i) by {
        if occurs_at(d, marker_start(), i) {
            assert(s.subrange(i, i + 19) =~= d.subrange(i, i + 19));
            assert(occurs_at(s, marker_start(), i));
        }
    }
    assert(u.take(t.len() as int) =~= t);
    if j + 19 <= t.len() {
        assert(t.subrange(j, j + 19) =~= u.subrange(j, j + 19));
        let p = lemma_marker_place(d, n, j);
        assert(d.take(p) =~= s.take(p));
        let q = quoted_marker(question_marks(s.take(p)) + 1);
        assert(u.subrange(j - 1, j - 1 + q.len()) =~= t.subrange(j - 1, j - 1 + q.len()));
        p
    } else if s.last() == '?' && question_marks(s) > n {
        let k = question_marks(s);
        let q = quoted_marker(k);
        lemma_marker_shape(k);
        let w = marker_start();
        let x = u.subrange(j, j + 19);
        if j <= t.len() {
            assert(u[t.len() as int] == q[0]);
            assert(x[t.len() - j] == u[t.len() as int]);
            assert(w[t.len() - j] != '\'');
            assert(false);
        }
        let o = j - t.len() - 1;
        if j + 19 == u.len() {
            assert(x[18] == u.last());
            assert(u.last() == q.last());
            assert(w[18] != '\'');
            assert(false);
        }
        assert(x[2] == u[j + 2]);
        assert(u[j + 2] == q[o + 3]);
        assert(q.subrange(1, 1 + marker(k).len() as int)[o + 2] == q[o + 3]);
        if o > 0 {
            if o + 2 < 19 {
                assert(marker(k).take(19)[o + 2] == marker(k)[o + 2]);
                assert(o == 15);
                assert(x[0] == u[j]);
                assert(u[j] == q[o + 1]);
                assert(q.subrange(1, 1 + marker(k).len() as int)[o] == q[o + 1]);
                assert(marker(k).take(19)[15] == marker(k)[15]);
            }
            assert(false);
        }
        let p = s.len() - 1;
        assert(s.take(p) =~= d);
        assert(u.subrange(j - 1, j - 1 + q.len()) =~= q);
        p
    } else {
        assert(j + 19 == u.len());
        let x = u.subrange(j, j + 19);
        assert forall|i: int| u.len() - 19 <= i < u.len() implies #[trigger] u[i] != '\'' by {
            assert(u[i] == x[i - j]);
        }
        lemma_plain_end(s, n, 19);
        assert(u.skip(u.len() - 19) =~= x);
        assert(s.subrange(s.len() - 19, s.len() as int) =~= s.skip(s.len() - 19));
        assert(occurs_at(s, marker_start(), s.len() - 19));
        0
    }
}

/// Markers in the same place have the same number.
proof fn lemma_same_marker(u: Seq<char>, a: nat, b: nat, i: int)
    requires
        occurs_at(u, marker(a), i),
        occurs_at(u, marker(b), i),
    ensures
        a == b,
{
    reveal_strlit("__mw_prepare_param_");
    reveal_strlit("__");
    lemma_decimal_digits(a);
    lemma_decimal_digits(b);
    let x = decimal(a);
    let y = decimal(b);
    assert forall|o: int| 0 <= o < marker(a).len() && o < marker(b).len() implies #[trigger] marker(a)[o]
        == marker(b)[o] by {
        assert(u.subrange(i, i + marker(a).len())[o] == u[i + o]);
        assert(u.subrange(i, i + marker(b).len())[o] == u[i + o]);
    }
    if x.len() < y.len() {
        assert(marker(a)[19 + x.len() as int] == '_');
        assert(marker(b)[19 + x.len() as int] == y[x.len() as int]);
        assert(false);
    }
    if y.len() < x.len() {
        assert(marker(b)[19 + y.len() as int] == '_');
        assert(marker(a)[19 + y.len() as int] == x[y.len() as int]);
        assert(false);
    }
    assert forall|o: int| 0 <= o < x.len() implies x[o] == y[o] by {
        assert(marker(a)[19 + o] == x[o]);
        assert(marker(b)[19 + o] == y[o]);
    }
    assert(x =~= y);
    lemma_decimal_injective(a, b);
}

/// Two question marks with as many before them are one.
proof fn lemma_question_mark_place(s: Seq<char>, p: int, q: int)
    requires
        0 <= p < q < s.len(),
        s[p] == '?',
    ensures
        question_marks(s.take(p)) < question_marks(s.take(q)),
    decreases q - p,
{
    assert(s.take(q).drop_last() =~= s.take(q - 1));
    assert(s.take(q).last() == s[q - 1]);
    if p < q - 1 {
        lemma_question_mark_place(s, p, q - 1);
    }
}

/// A bare marker, or a quoted one, stands where [`lemma_marker_place`] says.
proof fn lemma_numbered_place(s: Seq<char>, n: nat, k: nat, i: int) -> (p: int)
    requires
        !occurs(s, marker_start()),
        occurs_at(marked_after(s, n), marker(k), i),
    ensures
        0 <= p < s.len(),
        s[p] == '?',
        question_marks(s.take(p)) + 1 == k,
        k > n,
        i == marked_after(s.take(p), n).len() + 1,
{
    let u = marked_after(s, n);
    lemma_marker_shape(k);
    assert(u.subrange(i, i + 19) =~= u.subrange(i, i + marker(k).len()).take(19));
    let p = lemma_marker_place(s, n, i);
    let m = question_marks(s.take(p)) + 1;
    lemma_marker_shape(m);
    assert(u.subrange(i, i + marker(m).len()) =~= u.subrange(i - 1, i - 1 + quoted_marker(m).len()).subrange(
        1,
        1 + marker(m).len() as int,
    ));
    lemma_same_marker(u, k, m, i);
    p
}

/// A partly marked text around the question mark that is marked first.
proof fn lemma_first_mark(s: Seq<char>, p: int) -> (rest: Seq<char>)
    requires
        0 <= p < s.len(),
        s[p] == '?',
    ensures
        marked_after(s, question_marks(s.take(p))) == s.take(p) + quoted_marker(
            question_marks(s.take(p)) + 1,
        ) + rest,
        marked_after(s, question_marks(s.take(p)) + 1) == s.take(p) + "?"@ + rest,
        question_marks(s.take(p)) < question_marks(s),
    decreases s.len(),
{
    let n = question_marks(s.take(p));
    let d = s.drop_last();
    reveal_strlit("?");
    if p == s.len() - 1 {
        assert(s.take(p) =~= d);
        lemma_marked_after_all(d, n);
        lemma_marked_after_all(s, n + 1);
        let rest = Seq::<char>::empty();
        assert(marked_after(s, n) =~= s.take(p) + quoted_marker(n + 1) + rest);
        assert(s =~= s.take(p) + "?"@ + rest);
        rest
    } else {
        assert(d.take(p) =~= s.take(p));
        let before = lemma_first_mark(d, p);
        let tail = if s.last() == '?' {
            quoted_marker(question_marks(s))
        } else {
            seq![s.last()]
        };
        let rest = before + tail;
        assert(marked_after(s, n) =~= marked_after(d, n) + tail);
        assert(marked_after(s, n + 1) =~= marked_after(d, n + 1) + tail);
        assert(marked_after(s, n) =~= s.take(p) + quoted_marker(n + 1) + rest);
        assert(marked_after(s, n + 1) =~= s.take(p) + "?"@ + rest);
        rest
    }
}

proof fn lemma_nth_question_mark(s: Seq<char>, n: nat) -> (p: int)
    requires
        n < question_marks(s),
    ensures
        0 <= p < s.len(),
        s[p] == '?',
        question_marks(s.take(p)) == n,
    decreases s.len(),
{
    let d = s.drop_last();
    if n < question_marks(d) {
        let p = lemma_nth_question_mark(d, n);
        assert(d.take(p) =~= s.take(p));
        p
    } else {
        assert(s.take(s.len() - 1) =~= d);
        s.len() - 1
    }
}

/// Turning back one marker leaves one more question mark as it is.
proof fn lemma_one_unmarked(s: Seq<char>, n: nat)
    requires
        !occurs(s, marker_start()),
    ensures
        replaced_text(marked_after(s, n), quoted_marker(n + 1), "?"@) == marked_after(s, n + 1),
{
    let u = marked_after(s, n);
    let q = quoted_marker(n + 1);
    lemma_marker_shape(n + 1);
    lemma_find(u, q, 0);
    let f = find_from(u, q, 0);
    assert forall|i: int| occurs_at(u, q, i) implies #[trigger] occurs_at(u, marker(n + 1), i + 1) by {
        assert(u.subrange(i + 1, i + 1 + marker(n + 1).len()) =~= u.subrange(i, i + q.len()).subrange(
            1,
            1 + marker(n + 1).len() as int,
        ));
    }
    if n >= question_marks(s) {
        lemma_marked_after_all(s, n);
        lemma_marked_after_all(s, n + 1);
        if f >= 0 {
            assert(occurs_at(u, marker(n + 1), f + 1));
            let p = lemma_numbered_place(s, n, n + 1, f + 1);
            let rest = lemma_first_mark(s, p);
        }
    } else {
        let p = lemma_nth_question_mark(s, n);
        let rest = lemma_first_mark(s, p);
        let a = s.take(p);
        assert(u.subrange(p, p + q.len()) =~= q);
        assert(occurs_at(u, q, p));
        lemma_find_first(u, q, 0, p);
        assert forall|i: int| #[trigger] occurs_at(u, q, i) implies i == p by {
            assert(occurs_at(u, marker(n + 1), i + 1));
            let p2 = lemma_numbered_place(s, n, n + 1, i + 1);
            if p2 < p {
                lemma_question_mark_place(s, p2, p);
            }
            if p < p2 {
                lemma_question_mark_place(s, p, p2);
            }
            lemma_marked_after_all(a, n);
        }
        assert(f == p);
        let after = u.skip(p + q.len());
        assert(after =~= rest);
        lemma_find(after, q, 0);
        if find_from(after, q, 0) >= 0 {
            let g = find_from(after, q, 0);
            assert(u.subrange(p + q.len() + g, p + q.len() + g + q.len()) =~= after.subrange(g, g + q.len()));
            assert(occurs_at(u, q, p + q.len() + g));
        }
        assert(u.take(p) =~= a);
        assert(replaced_text(after, q, "?"@) == after);
    }
}

proof fn lemma_unmarked_up_to(s: Seq<char>, n: nat)
    requires
        !occurs(s, marker_start()),
    ensures
        unmarked_up_to(marked(s), n) == marked_after(s, n),
    decreases n,
{
    if n == 0 {
        lemma_marked_after_none(s);
    } else {
        let k = (n - 1) as nat;
        lemma_unmarked_up_to(s, k);
        lemma_one_unmarked(s, k);
        let u = marked_after(s, n);
        lemma_find(u, marker(n), 0);
        if find_from(u, marker(n), 0) >= 0 {
            let p = lemma_numbered_place(s, n, n, find_from(u, marker(n), 0));
        }
    }
}

proof fn lemma_marks_are_counted(s: Seq<char>)
    ensures
        question_marks(s) <= occurrences(marked(s), marker_start()),
    decreases s.len(),
{
    if s.len() > 0 {
        let d = s.drop_last();
        lemma_marks_are_counted(d);
        lemma_marker_shape(question_marks(s));
        let tail = if s.last() == '?' {
            quoted_marker(question_marks(s))
        } else {
            seq![s.last()]
        };
        lemma_occurrences_add(marked(d), tail, marker_start());
        assert(marked(s) =~= marked(d) + tail);
        if s.last() == '?' {
            let m = marker(question_marks(s));
            assert(tail.subrange(1, 20) =~= tail.subrange(1, 1 + m.len() as int).take(19));
            lemma_find_first(tail, marker_start(), 0, 1);
        }
    }
}

/// Turning the markers of a statement back undoes marking it, where the statement itself
/// holds nothing that a marker starts with.
pub proof fn markers_are_turned_back(sql: Seq<char>)
    requires
        !occurs(sql, marker_start()),
    ensures
        unmarked(marked(sql)) == sql,
{
    let count = occurrences(marked(sql), marker_start());
    lemma_marks_are_counted(sql);
    let n: nat = if count == 0 {
        1
    } else {
        count
    };
    lemma_unmarked_up_to(sql, n);
    lemma_marked_after_all(sql, n);
}

/// The translation of a statement with placeholders. Where it does not translate as it
/// is, string literals stand in for the placeholders.
pub open spec fn preparable_translation(sql: Seq<char>, cfg: TranslatorConfig) -> Result<Translation, Failure> {
    match translation(sql, cfg) {
        Ok(t) => Ok(t),
        Err(e) => if occurs(sql, "?"@) {
            match translation(marked(sql), cfg) {
                Ok(t) => Ok(
                    Translation {
                        original_sql: sql,
                        canonical_mysql_sql: unmarked(t.canonical_mysql_sql),
                        translated_sql: unmarked(t.translated_sql),
                        warnings: t.warnings,
                    },
                ),
                Err(_) => Err(e),
            }
        } else {
            Err(e)
        },
    }
}

/// Translates a statement with placeholders.
pub fn translate_preparable_sql(query: &str, cfg: &TranslatorConfig) -> (r: Result<
    TranslationResult,
    MiddlewareError,
>)
    ensures
        translation_view(r) == preparable_translation(query@, *cfg),
{
    let mut cache = TranslationCache::new();
    translate_preparable_cached(query, cfg, &mut cache)
}

/// Translates a statement with placeholders, from a cache where it is there.
pub fn translate_preparable_cached(query: &str, cfg: &TranslatorConfig, cache: &mut TranslationCache) -> (r: Result<
    TranslationResult,
    MiddlewareError,
>)
    requires
        old(cache).faithful(),
    ensures
        translation_view(r) == preparable_translation(query@, *cfg),
        final(cache).faithful(),
{
    match cache.translate_sql(query, cfg) {
        Ok(t) => Ok(t),
        Err(e) => {
            if !contains(query, "?") {
                return Err(e);
            }
            let rewritten = replace_prepare_params_with_string_literals(query);
            match cache.translate_sql(rewritten.as_str(), cfg) {
                Ok(t) => Ok(
                    TranslationResult {
                        original_sql: query.to_string(),
                        canonical_mysql_sql: restore_prepare_param_markers(t.canonical_mysql_sql.as_str()),
                        translated_sql: restore_prepare_param_markers(t.translated_sql.as_str()),
                        warnings: t.warnings,
                    },
                ),
                Err(_) => Err(e),
            }
        },
    }
}

/// A parameter as it comes over the MySQL protocol.
#[derive(Debug)]
pub enum RawParam {
    Null,
    Bytes(Vec<u8>),
    Int(i64),
    UInt(u64),
    /// A floating-point number, already written as text.
    Number(String),
    Date(Vec<u8>),
    Datetime(Vec<u8>),
    Time(Vec<u8>),
}

/// Two bytes, the lower first, as a number.
pub open spec fn le16(b: Seq<u8>, i: int) -> nat {
    (b[i] as nat) + 256 * (b[i + 1] as nat)
}

/// Four bytes, the lowest first, as a number.
pub open spec fn le32(b: Seq<u8>, i: int) -> nat {
    (b[i] as nat) + 256 * (b[i + 1] as nat) + 65536 * (b[i + 2] as nat) + 16777216 * (b[i + 3] as nat)
}

fn read_le16(b: &Vec<u8>, i: usize) -> (r: u64)
    requires
        i + 2 <= b@.len(),
    ensures
        r == le16(b@, i as int),
{
    let n: usize = b.len();
    assert(i + 2 <= n);
    (b[i] as u64) + 256 * (b[i + 1] as u64)
}

fn read_le32(b: &Vec<u8>, i: usize) -> (r: u64)
    requires
        i + 4 <= b@.len(),
    ensures
        r == le32(b@, i as int),
        r < 4294967296,
{
    let n: usize = b.len();
    assert(i + 4 <= n);
    (b[i] as u64) + 256 * (b[i + 1] as u64) + 65536 * (b[i + 2] as u64) + 16777216 * (b[i + 3] as u64)
}

/// The date in the first four bytes: year, month, day.
pub open spec fn date_of(b: Seq<u8>) -> Seq<char> {
    padded(le16(b, 0), 4) + "-"@ + padded(b[2] as nat, 2) + "-"@ + padded(b[3] as nat, 2)
}

/// The time in three bytes: hour, minute, second.
pub open spec fn clock_of(b: Seq<u8>, i: int) -> Seq<char> {
    padded(b[i] as nat, 2) + ":"@ + padded(b[i + 1] as nat, 2) + ":"@ + padded(b[i + 2] as nat, 2)
}

fn read_date(b: &Vec<u8>) -> (r: String)
    requires
        b@.len() >= 4,
    ensures
        r@ == date_of(b@),
{
    cat5(
        pad(read_le16(b, 0), 4).as_str(),
        "-",
        pad(b[2] as u64, 2).as_str(),
        "-",
        pad(b[3] as u64, 2).as_str(),
    )
}

fn read_clock(b: &Vec<u8>, i: usize) -> (r: String)
    requires
        i + 3 <= b@.len(),
    ensures
        r@ == clock_of(b@, i as int),
{
    let n: usize = b.len();
    assert(i + 3 <= n);
    cat5(
        pad(b[i] as u64, 2).as_str(),
        ":",
        pad(b[i + 1] as u64, 2).as_str(),
        ":",
        pad(b[i + 2] as u64, 2).as_str(),
    )
}

/// The error for a payload of a length that no value has.
pub open spec fn bad_length(kind: Seq<char>, len: nat) -> Failure {
    Failure::Execution("unsupported MySQL "@ + kind + " parameter payload length "@ + decimal(len))
}

fn length_error(kind: &str, len: usize) -> (r: MiddlewareError)
    ensures
        r@ == bad_length(kind@, len as nat),
{
    MiddlewareError::Execution(
        cat4("unsupported MySQL ", kind, " parameter payload length ", number(len as u64).as_str()),
    )
}

/// A date parameter as text.
pub open spec fn date_literal(b: Seq<u8>) -> Result<Seq<char>, Failure> {
    if b.len() == 4 {
        Ok(date_of(b))
    } else {
        Err(bad_length("date"@, b.len()))
    }
}

pub fn decode_mysql_date_literal(bytes: &Vec<u8>) -> (r: Result<String, MiddlewareError>)
    ensures
        text_or(r) == date_literal(bytes@),
{
    if bytes.len() != 4 {
        return Err(length_error("date", bytes.len()));
    }
    Ok(read_date(bytes))
}

/// A date and time parameter as text.
pub open spec fn datetime_literal(b: Seq<u8>) -> Result<Seq<char>, Failure> {
    if b.len() == 0 {
        Ok("0000-00-00 00:00:00"@)
    } else if b.len() == 4 {
        Ok(date_of(b) + " 00:00:00"@)
    } else if b.len() == 7 {
        Ok(date_of(b) + " "@ + clock_of(b, 4))
    } else if b.len() == 11 {
        Ok(date_of(b) + " "@ + clock_of(b, 4) + "."@ + padded(le32(b, 7), 6))
    } else {
        Err(bad_length("datetime"@, b.len()))
    }
}

pub fn decode_mysql_datetime_literal(bytes: &Vec<u8>) -> (r: Result<String, MiddlewareError>)
    ensures
        text_or(r) == datetime_literal(bytes@),
{
    let n: usize = bytes.len();
    if n == 0 {
        Ok("0000-00-00 00:00:00".to_string())
    } else if n == 4 {
        Ok(cat2(read_date(bytes).as_str(), " 00:00:00"))
    } else if n == 7 {
        Ok(cat3(read_date(bytes).as_str(), " ", read_clock(bytes, 4).as_str()))
    } else if n == 11 {
        Ok(
            cat5(
                read_date(bytes).as_str(),
                " ",
                read_clock(bytes, 4).as_str(),
                ".",
                pad(read_le32(bytes, 7), 6).as_str(),
            ),
        )
    } else {
        Err(length_error("datetime", n))
    }
}

/// A time parameter as text: its days counted as hours.
pub open spec fn time_literal(b: Seq<u8>) -> Result<Seq<char>, Failure> {
    if b.len() != 8 && b.len() != 12 {
        Err(bad_length("time"@, b.len()))
    } else {
        let micros = if b.len() == 12 {
            le32(b, 8)
        } else {
            0
        };
        Ok(
            (if b[0] != 0 {
                "-"@
            } else {
                ""@
            }) + padded(le32(b, 1) * 24 + b[5] as nat, 2) + ":"@ + padded(b[6] as nat, 2) + ":"@ + padded(
                b[7] as nat,
                2,
            ) + (if micros > 0 {
                "."@ + padded(micros, 6)
            } else {
                ""@
            }),
        )
    }
}

pub fn decode_mysql_time_literal(bytes: &Vec<u8>) -> (r: Result<String, MiddlewareError>)
    ensures
        text_or(r) == time_literal(bytes@),
{
    let n: usize = bytes.len();
    if n != 8 && n != 12 {
        return Err(length_error("time", n));
    }
    let hours: u64 = read_le32(bytes, 1) * 24 + (bytes[5] as u64);
    let micros: u64 = if n == 12 {
        read_le32(bytes, 8)
    } else {
        0
    };
    let sign = if bytes[0] != 0 {
        "-"
    } else {
        ""
    };
    let fraction = if micros > 0 {
        cat2(".", pad(micros, 6).as_str())
    } else {
        "".to_string()
    };
    Ok(
        cat7(
            sign,
            pad(hours, 2).as_str(),
            ":",
            pad(bytes[6] as u64, 2).as_str(),
            ":",
            pad(bytes[7] as u64, 2).as_str(),
            fraction.as_str(),
        ),
    )
}

/// The text that a parameter is bound as; no text for NULL.
pub open spec fn param_text(p: RawParam) -> Result<Option<Seq<char>>, Failure> {
    match p {
        RawParam::Null => Ok(None),
        RawParam::Bytes(b) => if valid_utf8(b@) {
            Ok(Some(decode_utf8(b@)))
        } else {
            Err(Failure::Execution("binary prepared statement parameters are not supported yet"@))
        },
        RawParam::Int(n) => Ok(Some(signed_decimal(n as int))),
        RawParam::UInt(n) => Ok(Some(decimal(n as nat))),
        RawParam::Number(s) => Ok(Some(s@)),
        RawParam::Date(b) => some_text(date_literal(b@)),
        RawParam::Datetime(b) => some_text(datetime_literal(b@)),
        RawParam::Time(b) => some_text(time_literal(b@)),
    }
}

pub open spec fn some_text(r: Result<Seq<char>, Failure>) -> Result<Option<Seq<char>>, Failure> {
    match r {
        Ok(s) => Ok(Some(s)),
        Err(e) => Err(e),
    }
}

/// A bound parameter is NULL or that text.
pub open spec fn is_bound(p: PgParam, text: Option<Seq<char>>) -> bool {
    match (p, text) {
        (PgParam::Null, None) => true,
        (PgParam::Text(s), Some(t)) => s@ == t,
        _ => false,
    }
}

pub open spec fn bound_outcome(r: Result<PgParam, MiddlewareError>, want: Result<Option<Seq<char>>, Failure>) -> bool {
    match (r, want) {
        (Ok(p), Ok(text)) => is_bound(p, text),
        (Err(e), Err(f)) => e@ == f,
        _ => false,
    }
}

fn bind_text(r: Result<String, MiddlewareError>) -> (out: Result<PgParam, MiddlewareError>)
    ensures
        bound_outcome(out, some_text(text_or(r))),
{
    match r {
        Ok(s) => Ok(PgParam::Text(s)),
        Err(e) => Err(e),
    }
}

/// Decodes one parameter.
pub fn decode_mysql_param(param: &RawParam) -> (r: Result<PgParam, MiddlewareError>)
    ensures
        bound_outcome(r, param_text(*param)),
{
    match param {
        RawParam::Null => Ok(PgParam::Null),
        RawParam::Bytes(b) => match utf8_text(b.as_slice()) {
            Some(s) => Ok(PgParam::Text(s)),
            None => Err(
                MiddlewareError::Execution(
                    "binary prepared statement parameters are not supported yet".to_string(),
                ),
            ),
        },
        RawParam::Int(n) => Ok(PgParam::Text(signed_number(*n))),
        RawParam::UInt(n) => Ok(PgParam::Text(number(*n))),
        RawParam::Number(s) => Ok(PgParam::Text(s.clone())),
        RawParam::Date(b) => bind_text(decode_mysql_date_literal(b)),
        RawParam::Datetime(b) => bind_text(decode_mysql_datetime_literal(b)),
        RawParam::Time(b) => bind_text(decode_mysql_time_literal(b)),
    }
}

/// Whether every one of the first `n` parameters can be bound.
pub open spec fn all_bind(params: Seq<RawParam>, n: int) -> bool {
    forall|i: int| 0 <= i < n ==> param_text(#[trigger] params[i]) is Ok
}

/// What the parameters are bound as, or the error of the first that cannot be bound.
pub open spec fn bound_params(r: Result<Vec<PgParam>, MiddlewareError>, params: Seq<RawParam>) -> bool {
    match r {
        Ok(v) => v@.len() == params.len() && forall|i: int|
            0 <= i < params.len() ==> param_text(#[trigger] params[i]) is Ok && is_bound(
                v@[i],
                param_text(params[i])->Ok_0,
            ),
        Err(e) => exists|k: int|
            0 <= k < params.len() && all_bind(params, k) && param_text(#[trigger] params[k]) == Err::<
                Option<Seq<char>>,
                Failure,
            >(e@),
    }
}

/// Decodes the parameters of a statement.
pub fn decode_mysql_params(params: &Vec<RawParam>) -> (r: Result<Vec<PgParam>, MiddlewareError>)
    ensures
        bound_params(r, params@),
{
    let mut out: Vec<PgParam> = Vec::new();
    let mut i: usize = 0;
    while i < params.len()
        invariant
            i <= params@.len(),
            out@.len() == i,
            forall|j: int|
                0 <= j < i ==> param_text(#[trigger] params@[j]) is Ok && is_bound(
                    out@[j],
                    param_text(params@[j])->Ok_0,
                ),
        decreases params.len() - i,
    {
        match decode_mysql_param(&params[i]) {
            Ok(p) => {
                out.push(p);
            },
            Err(e) => {
                assert(all_bind(params@, i as int));
                assert(param_text(params@[i as int]) == Err::<Option<Seq<char>>, Failure>(e@));
                return Err(e);
            },
        }
        i = i + 1;
    }
    Ok(out)
}

} // verus!
