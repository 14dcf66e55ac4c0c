//! Identifiers and string literals: how they are quoted, and how MySQL's own quoting
//! is read.
use vstd::prelude::*;

use crate::scan::{
    after_plain_quote, after_quote, lemma_after_plain_quote, lemma_assoc, quoted_value, read_quoted,
    skip_plain_quoted, skip_quoted,
};
use crate::text::{
    cat3, chars_of, from_chars, join, joined, lacks, lemma_lacks_add, lemma_lacks_part, lower,
    lowered, push_text, replace_char, replaced_char, split, split_on, texts, trim, trim_matches,
    trimmed, unpadded,
};

verus! {

/// An identifier in double quotes, the double quotes inside it doubled.
pub open spec fn quoted_ident(name: Seq<char>) -> Seq<char> {
    "\""@ + replaced_char(name, '"', "\"\""@) + "\""@
}

/// Quotes an identifier for PostgreSQL.
pub fn quote_ident(name: &str) -> (r: String)
    ensures
        r@ == quoted_ident(name@),
{
    let inner = replace_char(name, '"', "\"\"");
    cat3("\"", inner.as_str(), "\"")
}

/// A string literal in single quotes, the single quotes inside it doubled.
pub open spec fn string_literal(value: Seq<char>) -> Seq<char> {
    "'"@ + replaced_char(value, '\'', "''"@) + "'"@
}

/// Writes a string literal for PostgreSQL.
pub fn sql_string_literal(value: &str) -> (r: String)
    ensures
        r@ == string_literal(value@),
{
    let inner = replace_char(value, '\'', "''");
    cat3("'", inner.as_str(), "'")
}

/// A text with its backslashes and single quotes doubled.
pub open spec fn escaped_twice(value: Seq<char>) -> Seq<char> {
    replaced_char(replaced_char(value, '\\', "\\\\"@), '\'', "''"@)
}

fn escape_twice(value: &str) -> (r: String)
    ensures
        r@ == escaped_twice(value@),
{
    let a = replace_char(value, '\\', "\\\\");
    replace_char(a.as_str(), '\'', "''")
}

/// Writes a string literal with its backslashes doubled too.
pub fn quote_string_literal(value: &str) -> (r: String)
    ensures
        r@ == "'"@ + escaped_twice(value@) + "'"@,
{
    let inner = escape_twice(value);
    cat3("'", inner.as_str(), "'")
}

/// Writes an escape string literal, as `COPY` takes its delimiter.
pub fn quote_copy_literal(value: &str) -> (r: String)
    ensures
        r@ == "E'"@ + escaped_twice(value@) + "'"@,
{
    let inner = escape_twice(value);
    cat3("E'", inner.as_str(), "'")
}

/// What an escape sequence of `LOAD DATA` stands for.
pub open spec fn copy_escape_value(c: char) -> Seq<char> {
    if c == 't' {
        seq!['\t']
    } else if c == 'n' {
        seq!['\n']
    } else if c == 'r' {
        seq!['\r']
    } else if c == '0' {
        seq!['\0']
    } else if c == '\\' {
        seq!['\\']
    } else {
        seq!['\\', c]
    }
}

pub open spec fn copy_decoded_from(s: Seq<char>, i: int) -> Seq<char>
    decreases s.len() - i,
{
    if i < 0 || i >= s.len() {
        Seq::empty()
    } else if s[i] != '\\' {
        seq![s[i]] + copy_decoded_from(s, i + 1)
    } else if i + 1 < s.len() {
        copy_escape_value(s[i + 1]) + copy_decoded_from(s, i + 2)
    } else {
        seq!['\\']
    }
}

/// A separator of `LOAD DATA` with its escape sequences resolved.
pub open spec fn copy_decoded(s: Seq<char>) -> Seq<char> {
    copy_decoded_from(s, 0)
}

/// Resolves the escape sequences of a separator of `LOAD DATA`.
pub fn decode_mysql_copy_escape(value: &str) -> (r: String)
    ensures
        r@ == copy_decoded(value@),
{
    let c = chars_of(value);
    let n: usize = c.len();
    let mut out = String::new();
    let mut i: usize = 0;
    assert(out@ + copy_decoded_from(c@, 0) =~= copy_decoded(c@));
    while i < n
        invariant
            n == c@.len(),
            c@ == value@,
            i <= n,
            out@ + copy_decoded_from(c@, i as int) == copy_decoded(c@),
        decreases n - i,
    {
        let ghost before = out@;
        let ghost at = i as int;
        if c[i] != '\\' {
            out.push(c[i]);
            i = i + 1;
            assert(out@ =~= before + seq![c@[at]]);
            proof {
                lemma_assoc(before, seq![c@[at]], copy_decoded_from(c@, at + 1));
            }
        } else if n - i > 1 {
            let e = c[i + 1];
            if e == 't' {
                out.push('\t');
            } else if e == 'n' {
                out.push('\n');
            } else if e == 'r' {
                out.push('\r');
            } else if e == '0' {
                out.push('\0');
            } else if e == '\\' {
                out.push('\\');
            } else {
                out.push('\\');
                out.push(e);
            }
            assert(out@ =~= before + copy_escape_value(e));
            proof {
                lemma_assoc(before, copy_escape_value(e), copy_decoded_from(c@, at + 2));
            }
            i = i + 2;
        } else {
            out.push('\\');
            assert(out@ =~= before + seq!['\\']);
            return out;
        }
    }
    assert(out@ =~= copy_decoded(c@));
    out
}

/// One part of a name as it was written: without white space, backticks and double
/// quotes around it.
pub open spec fn bare_name(s: Seq<char>) -> Seq<char> {
    unpadded(unpadded(trimmed(s), '`'), '"')
}

pub fn strip_name_quotes(s: &str) -> (r: String)
    ensures
        r@ == bare_name(s@),
{
    let a = trim(s);
    let b = trim_matches(a.as_str(), '`');
    trim_matches(b.as_str(), '"')
}

/// The names of a list, each stripped of its quotes and quoted anew.
pub open spec fn requoted(parts: Seq<Seq<char>>) -> Seq<Seq<char>> {
    Seq::new(parts.len(), |i: int| quoted_ident(bare_name(parts[i])))
}

/// Strips each name of a list of its quotes and quotes it anew.
pub fn requote_names(parts: &Vec<String>) -> (r: Vec<String>)
    ensures
        texts(r@) == requoted(texts(parts@)),
{
    let mut out: Vec<String> = Vec::new();
    let mut i: usize = 0;
    while i < parts.len()
        invariant
            i <= parts@.len(),
            texts(out@) =~= requoted(texts(parts@)).take(i as int),
        decreases parts.len() - i,
    {
        let bare = strip_name_quotes(parts[i].as_str());
        push_text(&mut out, quote_ident(bare.as_str()));
        i = i + 1;
        assert(texts(out@) =~= requoted(texts(parts@)).take(i as int));
    }
    assert(texts(out@) =~= requoted(texts(parts@)));
    out
}

/// A dotted name, each part quoted.
pub open spec fn quoted_dotted_name(s: Seq<char>) -> Seq<char> {
    joined(requoted(split(s, '.')), "."@)
}

/// Quotes each part of a dotted name.
pub fn quote_object_name_from_text(value: &str) -> (r: String)
    ensures
        r@ == quoted_dotted_name(value@),
{
    let parts = split_on(value, '.');
    let quoted = requote_names(&parts);
    join(&quoted, ".")
}

/// A text with double quotes in place of its backticks.
pub open spec fn without_backticks(s: Seq<char>) -> Seq<char> {
    replaced_char(s, '`', "\""@)
}

/// Writes double quotes in place of backticks.
pub fn replace_backticks(sql: &str) -> (r: String)
    ensures
        r@ == without_backticks(sql@),
{
    replace_char(sql, '`', "\"")
}

/// The value of a quoted fragment in which only a doubled quote is special, given a
/// position inside it.
pub open spec fn doubled_value(s: Seq<char>, i: int, q: char) -> Seq<char>
    decreases s.len() - i,
{
    if i < 0 || i >= s.len() {
        Seq::empty()
    } else if s[i] == q {
        if i + 1 < s.len() && s[i + 1] == q {
            seq![q] + doubled_value(s, i + 2, q)
        } else {
            Seq::empty()
        }
    } else {
        seq![s[i]] + doubled_value(s, i + 1, q)
    }
}

/// An identifier in backticks, the backticks inside it doubled.
pub open spec fn backticked(name: Seq<char>) -> Seq<char> {
    "`"@ + replaced_char(name, '`', "``"@) + "`"@
}

fn read_doubled(c: &Vec<char>, from: usize, q: char) -> (r: String)
    requires
        from <= c@.len(),
    ensures
        r@ == doubled_value(c@, from as int, q),
{
    let n: usize = c.len();
    let mut i: usize = from;
    let mut out = String::new();
    let ghost whole = doubled_value(c@, from as int, q);
    assert(out@ + whole =~= whole);
    while i < n
        invariant
            n == c@.len(),
            from <= i <= n,
            whole == doubled_value(c@, from as int, q),
            out@ + doubled_value(c@, i as int, q) == whole,
        decreases n - i,
    {
        let ghost before = out@;
        if c[i] == q {
            if n - i > 1 && c[i + 1] == q {
                out.push(q);
                assert(out@ =~= before + seq![q]);
                proof {
                    lemma_assoc(before, seq![q], doubled_value(c@, i + 2, q));
                }
                i = i + 2;
            } else {
                assert(out@ =~= whole);
                return out;
            }
        } else {
            out.push(c[i]);
            assert(out@ =~= before + seq![c@[i as int]]);
            proof {
                lemma_assoc(before, seq![c@[i as int]], doubled_value(c@, i + 1, q));
            }
            i = i + 1;
        }
    }
    assert(out@ =~= whole);
    out
}

pub open spec fn double_quotes_from(s: Seq<char>, i: int, ansi: bool) -> Seq<char>
    decreases s.len() - i,
{
    if i < 0 || i >= s.len() {
        Seq::empty()
    } else if s[i] == '\'' || s[i] == '`' {
        let e = after_quote(s, i + 1, s[i]);
        if e <= i || e > s.len() {
            Seq::empty()
        } else {
            s.subrange(i, e) + double_quotes_from(s, e, ansi)
        }
    } else if s[i] == '"' && ansi {
        let e = after_plain_quote(s, i + 1, '"');
        if e <= i || e > s.len() {
            Seq::empty()
        } else {
            backticked(doubled_value(s, i + 1, '"')) + double_quotes_from(s, e, ansi)
        }
    } else if s[i] == '"' {
        let e = after_quote(s, i + 1, '"');
        if e <= i || e > s.len() {
            Seq::empty()
        } else {
            string_literal(quoted_value(s, i + 1, '"')) + double_quotes_from(s, e, ansi)
        }
    } else {
        seq![s[i]] + double_quotes_from(s, i + 1, ansi)
    }
}

/// A text whose double-quoted fragments are single-quoted string literals, or under
/// `ANSI_QUOTES` backticked identifiers. Fragments in single quotes and backticks stay
/// as they are.
pub open spec fn without_double_quotes(s: Seq<char>, ansi: bool) -> Seq<char> {
    double_quotes_from(s, 0, ansi)
}

/// Gives the double-quoted fragments of a MySQL text the reading that the session's
/// mode asks for.
pub fn normalize_mysql_double_quoted_string_literals(sql: &str, ansi: bool) -> (r: String)
    ensures
        r@ == without_double_quotes(sql@, ansi),
{
    let c = chars_of(sql);
    let n: usize = c.len();
    let mut out = String::new();
    let mut i: usize = 0;
    assert(out@ + double_quotes_from(c@, 0, ansi) =~= without_double_quotes(c@, ansi));
    while i < n
        invariant
            n == c@.len(),
            c@ == sql@,
            i <= n,
            out@ + double_quotes_from(c@, i as int, ansi) == without_double_quotes(c@, ansi),
        decreases n - i,
    {
        let ghost before = out@;
        let ghost at = i as int;
        let ch = c[i];
        if ch == '\'' || ch == '`' {
            let e = skip_quoted(&c, i + 1, ch);
            out.append(from_chars(&c, i, e).as_str());
            proof {
                lemma_assoc(before, c@.subrange(at, e as int), double_quotes_from(c@, e as int, ansi));
            }
            i = e;
        } else if ch == '"' && ansi {
            let e = skip_plain_quoted(&c, i + 1, '"');
            let name = read_doubled(&c, i + 1, '"');
            let inner = replace_char(name.as_str(), '`', "``");
            out.append(cat3("`", inner.as_str(), "`").as_str());
            proof {
                lemma_assoc(
                    before,
                    backticked(doubled_value(c@, at + 1, '"')),
                    double_quotes_from(c@, e as int, ansi),
                );
            }
            i = e;
        } else if ch == '"' {
            let (value, e) = read_quoted(&c, i + 1, '"');
            out.append(sql_string_literal(value.as_str()).as_str());
            proof {
                lemma_assoc(before, string_literal(value@), double_quotes_from(c@, e as int, ansi));
            }
            i = e;
        } else {
            out.push(ch);
            assert(out@ =~= before + seq![ch]);
            proof {
                lemma_assoc(before, seq![ch], double_quotes_from(c@, at + 1, ansi));
            }
            i = i + 1;
        }
    }
    assert(out@ =~= without_double_quotes(c@, ansi));
    out
}

pub open spec fn backticked_from(s: Seq<char>, i: int) -> Seq<char>
    decreases s.len() - i,
{
    if i < 0 || i >= s.len() {
        Seq::empty()
    } else if s[i] == '\'' || s[i] == '"' {
        let e = after_plain_quote(s, i + 1, s[i]);
        if e <= i || e > s.len() {
            Seq::empty()
        } else {
            s.subrange(i, e) + backticked_from(s, e)
        }
    } else if s[i] == '`' {
        let e = after_plain_quote(s, i + 1, '`');
        if e <= i || e > s.len() {
            Seq::empty()
        } else {
            quoted_ident(doubled_value(s, i + 1, '`')) + backticked_from(s, e)
        }
    } else {
        seq![s[i]] + backticked_from(s, i + 1)
    }
}

/// A text whose backticked identifiers stand in double quotes, with the same names.
/// Fragments in single and double quotes stay as they are.
pub open spec fn backticked_requoted(s: Seq<char>) -> Seq<char> {
    backticked_from(s, 0)
}

/// Puts backticked identifiers in double quotes, whatever their names hold.
pub fn requote_backticked_names(sql: &str) -> (r: String)
    ensures
        r@ == backticked_requoted(sql@),
{
    let c = chars_of(sql);
    let n: usize = c.len();
    let mut out = String::new();
    let mut i: usize = 0;
    assert(out@ + backticked_from(c@, 0) =~= backticked_requoted(c@));
    while i < n
        invariant
            n == c@.len(),
            c@ == sql@,
            i <= n,
            out@ + backticked_from(c@, i as int) == backticked_requoted(c@),
        decreases n - i,
    {
        let ghost before = out@;
        let ghost at = i as int;
        let ch = c[i];
        if ch == '\'' || ch == '"' {
            let e = skip_plain_quoted(&c, i + 1, ch);
            out.append(from_chars(&c, i, e).as_str());
            proof {
                lemma_assoc(before, c@.subrange(at, e as int), backticked_from(c@, e as int));
            }
            i = e;
        } else if ch == '`' {
            let e = skip_plain_quoted(&c, i + 1, '`');
            let name = read_doubled(&c, i + 1, '`');
            out.append(quote_ident(name.as_str()).as_str());
            proof {
                lemma_assoc(before, quoted_ident(name@), backticked_from(c@, e as int));
            }
            i = e;
        } else {
            out.push(ch);
            assert(out@ =~= before + seq![ch]);
            proof {
                lemma_assoc(before, seq![ch], backticked_from(c@, at + 1));
            }
            i = i + 1;
        }
    }
    assert(out@ =~= backticked_requoted(c@));
    out
}

pub open spec fn literals_from(s: Seq<char>, i: int) -> Seq<char>
    decreases s.len() - i,
{
    if i < 0 || i >= s.len() {
        Seq::empty()
    } else if s[i] == '\'' || s[i] == '"' {
        let e = after_quote(s, i + 1, s[i]);
        if e <= i || e > s.len() {
            Seq::empty()
        } else {
            string_literal(quoted_value(s, i + 1, s[i])) + literals_from(s, e)
        }
    } else {
        seq![s[i]] + literals_from(s, i + 1)
    }
}

/// A text whose MySQL string literals are written as PostgreSQL reads them.
pub open spec fn with_postgres_literals(s: Seq<char>) -> Seq<char> {
    literals_from(s, 0)
}

/// Writes the MySQL string literals of a text as PostgreSQL reads them.
pub fn normalize_mysql_string_literals(sql: &str) -> (r: String)
    ensures
        r@ == with_postgres_literals(sql@),
{
    let c = chars_of(sql);
    let n: usize = c.len();
    let mut out = String::new();
    let mut i: usize = 0;
    assert(out@ + literals_from(c@, 0) =~= with_postgres_literals(c@));
    while i < n
        invariant
            n == c@.len(),
            c@ == sql@,
            i <= n,
            out@ + literals_from(c@, i as int) == with_postgres_literals(c@),
        decreases n - i,
    {
        let ghost before = out@;
        let ghost at = i as int;
        let ch = c[i];
        if ch == '\'' || ch == '"' {
            let (value, e) = read_quoted(&c, i + 1, ch);
            out.append(sql_string_literal(value.as_str()).as_str());
            proof {
                lemma_assoc(before, string_literal(value@), literals_from(c@, e as int));
            }
            i = e;
        } else {
            out.push(ch);
            assert(out@ =~= before + seq![ch]);
            proof {
                lemma_assoc(before, seq![ch], literals_from(c@, at + 1));
            }
            i = i + 1;
        }
    }
    assert(out@ =~= with_postgres_literals(c@));
    out
}

proof fn lemma_doubling(name: Seq<char>, q: char, k: int, tail: Seq<char>)
    requires
        0 <= k <= name.len(),
        tail.len() > 0,
        tail[0] == q,
        tail.len() == 1 || tail[1] != q,
    ensures
        ({
            let inner = replaced_char(name, q, seq![q, q]);
            let before = replaced_char(name.take(k), q, seq![q, q]);
            let s = inner + tail;
            &&& before.len() <= inner.len()
            &&& doubled_value(s, before.len() as int, q) == name.skip(k)
            &&& after_plain_quote(s, before.len() as int, q) == inner.len() + 1
        }),
    decreases name.len() - k,
{
    let inner = replaced_char(name, q, seq![q, q]);
    let before = replaced_char(name.take(k), q, seq![q, q]);
    let s = inner + tail;
    if k == name.len() {
        assert(name.take(k) =~= name);
        assert(s[before.len() as int] == q);
        assert(name.skip(k) =~= Seq::<char>::empty());
        if tail.len() > 1 {
            assert(s[(before.len() + 1) as int] == tail[1]);
        }
    } else {
        lemma_doubling(name, q, k + 1, tail);
        let c = name[k];
        assert(name.take(k + 1).drop_last() =~= name.take(k));
        assert(name.take(k + 1).last() == c);
        let piece = if c == q {
            seq![q, q]
        } else {
            seq![c]
        };
        let next = replaced_char(name.take(k + 1), q, seq![q, q]);
        assert(next == before + piece);
        lemma_replaced_prefix(name, q, k + 1);
        assert(forall|j: int| 0 <= j < next.len() ==> inner[j] == next[j]);
        assert(s[before.len() as int] == piece[0]);
        assert(name.skip(k) =~= seq![c] + name.skip(k + 1));
        if c == q {
            assert(s[(before.len() + 1) as int] == q);
        }
    }
}

proof fn lemma_replaced_prefix(name: Seq<char>, q: char, k: int)
    requires
        0 <= k <= name.len(),
    ensures
        ({
            let inner = replaced_char(name, q, seq![q, q]);
            let before = replaced_char(name.take(k), q, seq![q, q]);
            &&& before.len() <= inner.len()
            &&& forall|j: int| 0 <= j < before.len() ==> inner[j] == before[j]
        }),
    decreases name.len() - k,
{
    if k == name.len() {
        assert(name.take(k) =~= name);
    } else {
        lemma_replaced_prefix(name, q, k + 1);
        assert(name.take(k + 1).drop_last() =~= name.take(k));
        assert(name.take(k + 1).last() == name[k]);
    }
}

/// A quoted identifier is one quoted fragment, and reading it gives back the name,
/// whatever the name holds.
pub proof fn quoted_identifiers_read_back(name: Seq<char>)
    ensures
        quoted_ident(name)[0] == '"',
        after_plain_quote(quoted_ident(name), 1, '"') == quoted_ident(name).len(),
        doubled_value(quoted_ident(name), 1, '"') == name,
{
    reveal_strlit("\"");
    reveal_strlit("\"\"");
    lemma_quoted_reads_back(name, '"', "\""@, "\"\""@);
}

/// An identifier keeps its name on its way from double quotes through backticks to double
/// quotes, whatever the name holds.
pub proof fn ansi_names_are_kept(name: Seq<char>)
    ensures
        without_double_quotes(quoted_ident(name), true) == backticked(name),
        backticked_requoted(backticked(name)) == quoted_ident(name),
{
    reveal_strlit("`");
    reveal_strlit("``");
    quoted_identifiers_read_back(name);
    lemma_quoted_reads_back(name, '`', "`"@, "``"@);
    reveal_strlit("\"");
    let quoted = quoted_ident(name);
    let ticked = backticked(name);
    assert(quoted.len() >= 2);
    assert(without_double_quotes(quoted, true) == backticked(name) + double_quotes_from(
        quoted,
        quoted.len() as int,
        true,
    ));
    assert(double_quotes_from(quoted, quoted.len() as int, true) =~= Seq::<char>::empty());
    assert(without_double_quotes(quoted, true) =~= ticked);
    assert(backticked_from(ticked, ticked.len() as int) =~= Seq::<char>::empty());
    assert(backticked_requoted(ticked) =~= quoted);
}

/// A string literal is one quoted fragment, and reading it gives back the value,
/// whatever the value holds.
pub proof fn string_literals_read_back(value: Seq<char>)
    ensures
        string_literal(value)[0] == '\'',
        after_plain_quote(string_literal(value), 1, '\'') == string_literal(value).len(),
        doubled_value(string_literal(value), 1, '\'') == value,
{
    reveal_strlit("'");
    reveal_strlit("''");
    lemma_quoted_reads_back(value, '\'', "'"@, "''"@);
}

proof fn lemma_quoted_reads_back(name: Seq<char>, q: char, one: Seq<char>, two: Seq<char>)
    requires
        one =~= seq![q],
        two =~= seq![q, q],
    ensures
        ({
            let s = one + replaced_char(name, q, two) + one;
            &&& s[0] == q
            &&& after_plain_quote(s, 1, q) == s.len()
            &&& doubled_value(s, 1, q) == name
        }),
{
    let inner = replaced_char(name, q, seq![q, q]);
    let s = seq![q] + inner + seq![q];
    lemma_doubling(name, q, 0, seq![q]);
    assert(name.take(0) =~= Seq::<char>::empty());
    assert(name.skip(0) =~= name);
    lemma_shift(inner + seq![q], s, 0, q);
    assert(one + replaced_char(name, q, two) + one =~= s);
}

proof fn lemma_shift(t: Seq<char>, s: Seq<char>, i: int, q: char)
    requires
        s =~= seq![q] + t,
        0 <= i <= t.len(),
    ensures
        after_plain_quote(s, i + 1, q) == after_plain_quote(t, i, q) + 1,
        doubled_value(s, i + 1, q) == doubled_value(t, i, q),
    decreases t.len() - i,
{
    if i < t.len() {
        assert(s[i + 1] == t[i]);
        if t[i] == q {
            if i + 1 < t.len() && t[i + 1] == q {
                assert(s[i + 2] == t[i + 1]);
                lemma_shift(t, s, i + 2, q);
            } else if i + 1 < t.len() {
                assert(s[i + 2] == t[i + 1]);
            }
        } else {
            lemma_shift(t, s, i + 1, q);
        }
    }
}

proof fn lemma_replaced_single(s: Seq<char>, c: char, d: char)
    ensures
        replaced_char(s, c, seq![d]) =~= Seq::new(
            s.len(),
            |i: int|
                if s[i] == c {
                    d
                } else {
                    s[i]
                },
        ),
    decreases s.len(),
{
    if s.len() > 0 {
        lemma_replaced_single(s.drop_last(), c, d);
    }
}

/// Replacing backticks keeps every position, changes nothing but backticks, and leaves
/// none.
pub proof fn backticks_become_double_quotes(s: Seq<char>)
    ensures
        without_backticks(s).len() == s.len(),
        forall|i: int|
            0 <= i < s.len() ==> #[trigger] without_backticks(s)[i] == (if s[i] == '`' {
                '"'
            } else {
                s[i]
            }),
{
    reveal_strlit("\"");
    assert("\""@ =~= seq!['"']);
    lemma_replaced_single(s, '`', '"');
}

proof fn lemma_replaced_lacks(s: Seq<char>, c: char, with: Seq<char>, absent: char)
    requires
        lacks(s, absent),
        lacks(with, absent),
    ensures
        lacks(replaced_char(s, c, with), absent),
    decreases s.len(),
{
    if s.len() > 0 {
        lemma_lacks_part(s, 0, s.len() - 1, absent);
        assert(s.drop_last() =~= s.subrange(0, s.len() - 1));
        lemma_replaced_lacks(s.drop_last(), c, with, absent);
        assert(s[s.len() - 1] != absent);
        let last = seq![s.last()];
        lemma_lacks_add(replaced_char(s.drop_last(), c, with), with, absent);
        lemma_lacks_add(replaced_char(s.drop_last(), c, with), last, absent);
        assert(replaced_char(s.drop_last(), c, with).push(s.last()) =~= replaced_char(s.drop_last(), c, with) + last);
    }
}

/// A quoted identifier holds a backtick only where its name does.
pub proof fn lemma_quoted_ident_lacks(name: Seq<char>)
    requires
        lacks(name, '`'),
    ensures
        lacks(quoted_ident(name), '`'),
{
    reveal_strlit("\"");
    reveal_strlit("\"\"");
    let inner = replaced_char(name, '"', "\"\""@);
    lemma_replaced_lacks(name, '"', "\"\""@, '`');
    lemma_lacks_add("\""@, inner, '`');
    lemma_lacks_add("\""@ + inner, "\""@, '`');
}

/// No backtick is left where double quotes stand in their place.
pub proof fn lemma_without_backticks_lacks(s: Seq<char>)
    ensures
        lacks(without_backticks(s), '`'),
{
    backticks_become_double_quotes(s);
}

/// The quote that is open behind a character, given the one that is open before it. A doubled
/// quote closes a fragment and opens it again.
pub open spec fn quote_behind(open: Option<char>, c: char) -> Option<char> {
    match open {
        None => if c == '\'' || c == '"' {
            Some(c)
        } else {
            None
        },
        Some(q) => if c == q {
            None
        } else {
            open
        },
    }
}

/// The quote that is open at the end of a text, given the one that is open before it.
pub open spec fn open_quote(open: Option<char>, s: Seq<char>) -> Option<char>
    decreases s.len(),
{
    if s.len() == 0 {
        open
    } else {
        quote_behind(open_quote(open, s.drop_last()), s.last())
    }
}

/// Whether every backtick of a text stands inside a quoted fragment, given the quote that is
/// open before it.
pub open spec fn quotes_ticks(open: Option<char>, s: Seq<char>) -> bool {
    forall|i: int| 0 <= i < s.len() && #[trigger] s[i] == '`' ==> open_quote(open, s.take(i)) is Some
}

/// Whether every backtick of a text stands inside a fragment in single or double quotes.
pub open spec fn ticks_are_quoted(s: Seq<char>) -> bool {
    quotes_ticks(None, s)
}

proof fn lemma_open_quote_add(open: Option<char>, a: Seq<char>, b: Seq<char>)
    ensures
        open_quote(open, a + b) == open_quote(open_quote(open, a), b),
    decreases b.len(),
{
    if b.len() == 0 {
        assert(a + b =~= a);
    } else {
        assert((a + b).drop_last() =~= a + b.drop_last());
        lemma_open_quote_add(open, a, b.drop_last());
    }
}

proof fn lemma_quotes_ticks_add(open: Option<char>, a: Seq<char>, b: Seq<char>)
    requires
        quotes_ticks(open, a),
        quotes_ticks(open_quote(open, a), b),
    ensures
        quotes_ticks(open, a + b),
{
    let s = a + b;
    assert forall|i: int| 0 <= i < s.len() && #[trigger] s[i] == '`' implies open_quote(open, s.take(i)) is Some by {
        if i < a.len() {
            assert(s.take(i) =~= a.take(i));
            assert(a[i] == '`');
        } else {
            let k = i - a.len();
            assert(s.take(i) =~= a + b.take(k));
            lemma_open_quote_add(open, a, b.take(k));
            assert(b[k] == '`');
        }
    }
}

proof fn lemma_one_quoted(open: Option<char>, c: char)
    requires
        open is Some || c != '`',
    ensures
        open_quote(open, seq![c]) == quote_behind(open, c),
        quotes_ticks(open, seq![c]),
{
    let s = seq![c];
    assert(s.drop_last() =~= Seq::<char>::empty());
    assert(open_quote(open, s.drop_last()) == open);
    assert(s.take(0) =~= Seq::<char>::empty());
    assert(open_quote(open, s.take(0)) == open);
}

proof fn lemma_fragment_quotes(s: Seq<char>, j: int, q: char)
    requires
        0 <= j <= s.len(),
        q == '\'' || q == '"',
    ensures
        ({
            let e = after_plain_quote(s, j, q);
            &&& j <= e <= s.len()
            &&& quotes_ticks(Some(q), s.subrange(j, e))
            &&& open_quote(Some(q), s.subrange(j, e)) is None || e == s.len()
        }),
    decreases s.len() - j,
{
    let e = after_plain_quote(s, j, q);
    if j >= s.len() {
        assert(s.subrange(j, e) =~= Seq::<char>::empty());
    } else if s[j] == q {
        lemma_one_quoted(Some(q), q);
        if j + 1 < s.len() && s[j + 1] == q {
            lemma_one_quoted(None, q);
            lemma_fragment_quotes(s, j + 2, q);
            let pair = seq![q] + seq![q];
            let rest = s.subrange(j + 2, e);
            lemma_open_quote_add(Some(q), seq![q], seq![q]);
            lemma_quotes_ticks_add(Some(q), seq![q], seq![q]);
            lemma_open_quote_add(Some(q), pair, rest);
            lemma_quotes_ticks_add(Some(q), pair, rest);
            assert(s.subrange(j, e) =~= pair + rest);
        } else {
            assert(s.subrange(j, e) =~= seq![q]);
        }
    } else {
        lemma_one_quoted(Some(q), s[j]);
        lemma_fragment_quotes(s, j + 1, q);
        let rest = s.subrange(j + 1, e);
        lemma_open_quote_add(Some(q), seq![s[j]], rest);
        lemma_quotes_ticks_add(Some(q), seq![s[j]], rest);
        assert(s.subrange(j, e) =~= seq![s[j]] + rest);
    }
}

proof fn lemma_doubled_quotes(name: Seq<char>)
    ensures
        open_quote(Some('"'), replaced_char(name, '"', "\"\""@)) == Some('"'),
        quotes_ticks(Some('"'), replaced_char(name, '"', "\"\""@)),
    decreases name.len(),
{
    reveal_strlit("\"\"");
    let open = Some('"');
    if name.len() > 0 {
        let before = replaced_char(name.drop_last(), '"', "\"\""@);
        lemma_doubled_quotes(name.drop_last());
        let last = if name.last() == '"' {
            "\"\""@
        } else {
            seq![name.last()]
        };
        if name.last() == '"' {
            lemma_one_quoted(open, '"');
            lemma_one_quoted(None, '"');
            lemma_open_quote_add(open, seq!['"'], seq!['"']);
            lemma_quotes_ticks_add(open, seq!['"'], seq!['"']);
            assert("\"\""@ =~= seq!['"'] + seq!['"']);
        } else {
            lemma_one_quoted(open, name.last());
        }
        lemma_open_quote_add(open, before, last);
        lemma_quotes_ticks_add(open, before, last);
    }
}

proof fn lemma_quoted_ident_quotes(name: Seq<char>)
    ensures
        open_quote(None, quoted_ident(name)) is None,
        quotes_ticks(None, quoted_ident(name)),
{
    reveal_strlit("\"");
    let one = "\""@;
    assert(one =~= seq!['"']);
    let inner = replaced_char(name, '"', "\"\""@);
    lemma_one_quoted(None, '"');
    lemma_one_quoted(Some('"'), '"');
    lemma_doubled_quotes(name);
    lemma_open_quote_add(None, one, inner);
    lemma_quotes_ticks_add(None, one, inner);
    lemma_open_quote_add(None, one + inner, one);
    lemma_quotes_ticks_add(None, one + inner, one);
}

proof fn lemma_requoted_from(s: Seq<char>, i: int)
    requires
        0 <= i <= s.len(),
    ensures
        quotes_ticks(None, backticked_from(s, i)),
    decreases s.len() - i,
{
    if i < s.len() {
        let q = s[i];
        if q == '\'' || q == '"' {
            let e = after_plain_quote(s, i + 1, q);
            let rest = s.subrange(i + 1, e);
            lemma_one_quoted(None, q);
            lemma_fragment_quotes(s, i + 1, q);
            lemma_open_quote_add(None, seq![q], rest);
            lemma_quotes_ticks_add(None, seq![q], rest);
            assert(s.subrange(i, e) =~= seq![q] + rest);
            lemma_requoted_from(s, e);
            lemma_quotes_ticks_add(None, s.subrange(i, e), backticked_from(s, e));
        } else if q == '`' {
            let e = after_plain_quote(s, i + 1, '`');
            lemma_after_plain_quote(s, i + 1, '`');
            lemma_quoted_ident_quotes(doubled_value(s, i + 1, '`'));
            lemma_requoted_from(s, e);
            lemma_quotes_ticks_add(None, quoted_ident(doubled_value(s, i + 1, '`')), backticked_from(s, e));
        } else {
            lemma_one_quoted(None, q);
            lemma_requoted_from(s, i + 1);
            lemma_quotes_ticks_add(None, seq![q], backticked_from(s, i + 1));
        }
    }
}

/// Where backticked names are put in double quotes, every backtick that is left stands inside
/// a quoted fragment, whatever the text holds.
pub proof fn requoted_backticks_stand_in_quotes(s: Seq<char>)
    ensures
        ticks_are_quoted(backticked_requoted(s)),
{
    lemma_requoted_from(s, 0);
}

proof fn lemma_quotes_have_no_case(a: Seq<char>, b: Seq<char>, n: int)
    requires
        lowered(a) == lowered(b),
        0 <= n <= a.len(),
    ensures
        a.len() == b.len(),
        open_quote(None, a.take(n)) == open_quote(None, b.take(n)),
        open_quote(None, a.take(n)) matches Some(q) ==> (q == '\'' || q == '"'),
    decreases n,
{
    assert(lowered(a).len() == a.len() && lowered(b).len() == b.len());
    if n > 0 {
        lemma_quotes_have_no_case(a, b, n - 1);
        assert(a.take(n).drop_last() =~= a.take(n - 1));
        assert(b.take(n).drop_last() =~= b.take(n - 1));
        assert(lowered(a)[n - 1] == lower(a[n - 1]));
        assert(lowered(b)[n - 1] == lower(b[n - 1]));
    }
}

/// The case of letters has no part in where a backtick stands.
pub proof fn lemma_ticks_have_no_case(a: Seq<char>, b: Seq<char>)
    requires
        lowered(a) == lowered(b),
        ticks_are_quoted(a),
    ensures
        ticks_are_quoted(b),
{
    assert(lowered(a).len() == a.len() && lowered(b).len() == b.len());
    assert forall|i: int| 0 <= i < b.len() && #[trigger] b[i] == '`' implies open_quote(None, b.take(i)) is Some by {
        assert(lowered(a)[i] == lower(a[i]));
        assert(lowered(b)[i] == lower(b[i]));
        assert(a[i] == '`');
        lemma_quotes_have_no_case(a, b, i);
    }
}

} // verus!
