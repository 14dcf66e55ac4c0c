//! Scanning of SQL text: quoted fragments, parentheses, comma lists and words.
use vstd::prelude::*;

use crate::error::{translation_error, Failure, MiddlewareError};
use crate::text::{
    all_lack, chars_of, eq_ignore_case, from_chars, is_identifier_char, is_space, is_word, joined,
    lacks, lemma_joined_front, lemma_lacks_part, lemma_lacks_trimmed, lemma_skip_space,
    lemma_trimmed, lemma_trimmed_end, lowered, push_text, same_ignoring_case, skip_space, texts,
    trim, trimmed,
};

verus! {

pub proof fn lemma_assoc(a: Seq<char>, b: Seq<char>, c: Seq<char>)
    ensures
        (a + b) + c == a + (b + c),
{
    assert((a + b) + c =~= a + (b + c));
}

/// The position after a quoted fragment, given a position inside it. A backslash hides
/// the character after it, a doubled quote stands for itself, and a fragment that is
/// never closed runs to the end.
pub open spec fn after_quote(s: Seq<char>, i: int, q: char) -> int
    decreases s.len() - i,
{
    if i < 0 || i >= s.len() {
        s.len() as int
    } else if s[i] == '\\' {
        if i + 1 < s.len() {
            after_quote(s, i + 2, q)
        } else {
            s.len() as int
        }
    } else if s[i] == q {
        if i + 1 < s.len() && s[i + 1] == q {
            after_quote(s, i + 2, q)
        } else {
            i + 1
        }
    } else {
        after_quote(s, i + 1, q)
    }
}

pub proof fn lemma_after_quote(s: Seq<char>, i: int, q: char)
    requires
        0 <= i <= s.len(),
    ensures
        i <= after_quote(s, i, q) <= s.len(),
    decreases s.len() - i,
{
    if i < s.len() {
        if s[i] == '\\' {
            if i + 1 < s.len() {
                lemma_after_quote(s, i + 2, q);
            }
        } else if s[i] == q {
            if i + 1 < s.len() && s[i + 1] == q {
                lemma_after_quote(s, i + 2, q);
            }
        } else {
            lemma_after_quote(s, i + 1, q);
        }
    }
}

/// The position after a quoted fragment, given a position inside it.
pub fn skip_quoted(c: &Vec<char>, from: usize, q: char) -> (r: usize)
    requires
        from <= c@.len(),
    ensures
        r == after_quote(c@, from as int, q),
        from <= r <= c@.len(),
{
    let n: usize = c.len();
    let mut i: usize = from;
    while i < n
        invariant
            n == c@.len(),
            from <= i <= n,
            after_quote(c@, i as int, q) == after_quote(c@, from as int, q),
        decreases n - i,
    {
        if c[i] == '\\' {
            if n - i > 1 {
                i = i + 2;
            } else {
                return n;
            }
        } else if c[i] == q {
            if n - i > 1 && c[i + 1] == q {
                i = i + 2;
            } else {
                return i + 1;
            }
        } else {
            i = i + 1;
        }
    }
    i
}

/// The position after a quoted fragment in which a backslash is an ordinary character.
pub open spec fn after_plain_quote(s: Seq<char>, i: int, q: char) -> int
    decreases s.len() - i,
{
    if i < 0 || i >= s.len() {
        s.len() as int
    } else if s[i] == q {
        if i + 1 < s.len() && s[i + 1] == q {
            after_plain_quote(s, i + 2, q)
        } else {
            i + 1
        }
    } else {
        after_plain_quote(s, i + 1, q)
    }
}

pub proof fn lemma_after_plain_quote(s: Seq<char>, i: int, q: char)
    requires
        0 <= i <= s.len(),
    ensures
        i <= after_plain_quote(s, i, q) <= s.len(),
    decreases s.len() - i,
{
    if i < s.len() {
        if s[i] == q {
            if i + 1 < s.len() && s[i + 1] == q {
                lemma_after_plain_quote(s, i + 2, q);
            }
        } else {
            lemma_after_plain_quote(s, i + 1, q);
        }
    }
}

/// The position after a quoted fragment in which a backslash is an ordinary character.
pub fn skip_plain_quoted(c: &Vec<char>, from: usize, q: char) -> (r: usize)
    requires
        from <= c@.len(),
    ensures
        r == after_plain_quote(c@, from as int, q),
        from <= r <= c@.len(),
{
    let n: usize = c.len();
    let mut i: usize = from;
    while i < n
        invariant
            n == c@.len(),
            from <= i <= n,
            after_plain_quote(c@, i as int, q) == after_plain_quote(c@, from as int, q),
        decreases n - i,
    {
        if c[i] == q {
            if n - i > 1 && c[i + 1] == q {
                i = i + 2;
            } else {
                return i + 1;
            }
        } else {
            i = i + 1;
        }
    }
    i
}

/// What an escape sequence of a MySQL string literal stands for.
pub open spec fn escape_value(c: char) -> Seq<char> {
    if c == '0' {
        seq!['\0']
    } else if c == 'b' {
        seq!['\u{8}']
    } else if c == 'n' {
        seq!['\n']
    } else if c == 'r' {
        seq!['\r']
    } else if c == 't' {
        seq!['\t']
    } else if c == 'Z' {
        seq!['\u{1a}']
    } else if c == '\'' || c == '"' || c == '\\' {
        seq![c]
    } else {
        seq!['\\', c]
    }
}

/// The value of a quoted string, given a position inside it.
pub open spec fn quoted_value(s: Seq<char>, i: int, q: char) -> Seq<char>
    decreases s.len() - i,
{
    if i < 0 || i >= s.len() {
        Seq::empty()
    } else if s[i] == '\\' {
        if i + 1 < s.len() {
            escape_value(s[i + 1]) + quoted_value(s, i + 2, q)
        } else {
            seq!['\\']
        }
    } else if s[i] == q {
        if i + 1 < s.len() && s[i + 1] == q {
            seq![q] + quoted_value(s, i + 2, q)
        } else {
            Seq::empty()
        }
    } else {
        seq![s[i]] + quoted_value(s, i + 1, q)
    }
}

fn push_escape(out: &mut String, c: char)
    ensures
        final(out)@ == old(out)@ + escape_value(c),
{
    let ghost before = out@;
    if c == '0' {
        out.push('\0');
    } else if c == 'b' {
        out.push('\u{8}');
    } else if c == 'n' {
        out.push('\n');
    } else if c == 'r' {
        out.push('\r');
    } else if c == 't' {
        out.push('\t');
    } else if c == 'Z' {
        out.push('\u{1a}');
    } else if c == '\'' || c == '"' || c == '\\' {
        out.push(c);
    } else {
        out.push('\\');
        out.push(c);
    }
    assert(out@ =~= before + escape_value(c));
}

/// The value of a quoted string and the position after it.
pub fn read_quoted(c: &Vec<char>, from: usize, q: char) -> (r: (String, usize))
    requires
        from <= c@.len(),
    ensures
        r.0@ == quoted_value(c@, from as int, q),
        r.1 == after_quote(c@, from as int, q),
        from <= r.1 <= c@.len(),
{
    let n: usize = c.len();
    let mut i: usize = from;
    let mut out = String::new();
    let ghost whole = quoted_value(c@, from as int, q);
    assert(out@ + whole =~= whole);
    while i < n
        invariant
            n == c@.len(),
            from <= i <= n,
            after_quote(c@, i as int, q) == after_quote(c@, from as int, q),
            whole == quoted_value(c@, from as int, q),
            out@ + quoted_value(c@, i as int, q) == whole,
        decreases n - i,
    {
        let ghost before = out@;
        if c[i] == '\\' {
            if n - i > 1 {
                push_escape(&mut out, c[i + 1]);
                proof {
                    lemma_assoc(before, escape_value(c@[i + 1]), quoted_value(c@, i + 2, q));
                }
                i = i + 2;
            } else {
                out.push('\\');
                assert(out@ =~= before + seq!['\\']);
                return (out, n);
            }
        } else if c[i] == q {
            if n - i > 1 && c[i + 1] == q {
                out.push(q);
                assert(out@ =~= before + seq![q]);
                proof {
                    lemma_assoc(before, seq![q], quoted_value(c@, i + 2, q));
                }
                i = i + 2;
            } else {
                assert(out@ =~= whole);
                return (out, i + 1);
            }
        } else {
            out.push(c[i]);
            assert(out@ =~= before + seq![c@[i as int]]);
            proof {
                lemma_assoc(before, seq![c@[i as int]], quoted_value(c@, i + 1, q));
            }
            i = i + 1;
        }
    }
    assert(out@ =~= whole);
    (out, i)
}

/// `n` blanks.
pub open spec fn blanks(n: int) -> Seq<char> {
    Seq::new(n as nat, |i: int| ' ')
}

pub open spec fn masked_from(s: Seq<char>, i: int) -> Seq<char>
    decreases s.len() - i,
{
    if i < 0 || i >= s.len() {
        Seq::empty()
    } else if s[i] == '\'' || s[i] == '"' {
        let e = after_quote(s, i + 1, s[i]);
        if e <= i || e > s.len() {
            Seq::empty()
        } else {
            blanks(e - i) + masked_from(s, e)
        }
    } else {
        seq![s[i]] + masked_from(s, i + 1)
    }
}

/// A text with blanks in place of its single- and double-quoted fragments.
pub open spec fn masked(s: Seq<char>) -> Seq<char> {
    masked_from(s, 0)
}

/// Blanks out the single- and double-quoted fragments of a text.
pub fn mask_quoted_sql_fragments(sql: &str) -> (r: String)
    ensures
        r@ == masked(sql@),
{
    let c = chars_of(sql);
    let n: usize = c.len();
    let mut out = String::new();
    let mut i: usize = 0;
    assert(out@ + masked_from(c@, 0) =~= masked(c@));
    while i < n
        invariant
            n == c@.len(),
            c@ == sql@,
            i <= n,
            out@ + masked_from(c@, i as int) == masked(c@),
        decreases n - i,
    {
        let ghost before = out@;
        if c[i] == '\'' || c[i] == '"' {
            let e = skip_quoted(&c, i + 1, c[i]);
            let ghost start = i as int;
            let ghost rest = masked_from(c@, e as int);
            while i < e
                invariant
                    start <= i <= e,
                    out@ == before + blanks(i - start),
                decreases e - i,
            {
                out.push(' ');
                i = i + 1;
                assert(out@ =~= before + blanks(i - start));
            }
            proof {
                lemma_assoc(before, blanks(e - start), rest);
            }
        } else {
            out.push(c[i]);
            assert(out@ =~= before + seq![c@[i as int]]);
            proof {
                lemma_assoc(before, seq![c@[i as int]], masked_from(c@, i + 1));
            }
            i = i + 1;
        }
    }
    assert(out@ =~= masked(c@));
    out
}

/// Masking keeps every position: the masked text is as long as the text.
pub proof fn masking_keeps_positions(s: Seq<char>)
    ensures
        masked(s).len() == s.len(),
{
    lemma_masked_from_len(s, 0);
}

proof fn lemma_masked_from_len(s: Seq<char>, i: int)
    requires
        0 <= i <= s.len(),
    ensures
        masked_from(s, i).len() == s.len() - i,
    decreases s.len() - i,
{
    if i < s.len() {
        if s[i] == '\'' || s[i] == '"' {
            lemma_after_quote(s, i + 1, s[i]);
            lemma_masked_from_len(s, after_quote(s, i + 1, s[i]));
        } else {
            lemma_masked_from_len(s, i + 1);
        }
    }
}

/// The position after the word that starts at `i`.
pub open spec fn word_end(s: Seq<char>, i: int) -> int
    decreases s.len() - i,
{
    if 0 <= i < s.len() && is_word(s[i]) {
        word_end(s, i + 1)
    } else {
        i
    }
}

/// The position after the word that starts at `from`.
pub fn skip_word(c: &Vec<char>, from: usize) -> (r: usize)
    requires
        from <= c@.len(),
    ensures
        r == word_end(c@, from as int),
        from <= r <= c@.len(),
        from < c@.len() && is_word(c@[from as int]) ==> from < r,
{
    let mut i: usize = from;
    while i < c.len() && is_identifier_char(c[i])
        invariant
            from <= i <= c@.len(),
            word_end(c@, i as int) == word_end(c@, from as int),
        decreases c.len() - i,
    {
        i = i + 1;
    }
    i
}

/// The position of the `)` that closes `depth` open parentheses, parentheses in quoted
/// fragments not counted, or -1.
pub open spec fn closing_paren(s: Seq<char>, i: int, depth: nat) -> int
    decreases s.len() - i,
{
    if i < 0 || i >= s.len() {
        -1
    } else if s[i] == '\'' || s[i] == '"' || s[i] == '`' {
        let e = after_quote(s, i + 1, s[i]);
        if e <= i || e > s.len() {
            -1
        } else {
            closing_paren(s, e, depth)
        }
    } else if s[i] == '(' {
        closing_paren(s, i + 1, depth + 1)
    } else if s[i] == ')' {
        if depth <= 1 {
            i
        } else {
            closing_paren(s, i + 1, (depth - 1) as nat)
        }
    } else {
        closing_paren(s, i + 1, depth)
    }
}

/// The position of the `)` that closes the parenthesis at `open_idx`.
pub fn find_matching_paren(chars: &Vec<char>, open_idx: usize) -> (r: Option<usize>)
    ensures
        match r {
            Some(k) => k == closing_paren(chars@, open_idx + 1, 1) && open_idx < k < chars@.len()
                && chars@[k as int] == ')',
            None => closing_paren(chars@, open_idx + 1, 1) == -1,
        },
{
    let n: usize = chars.len();
    if open_idx >= n {
        return None;
    }
    let mut i: usize = open_idx + 1;
    let mut depth: usize = 1;
    while i < n
        invariant
            n == chars@.len(),
            open_idx < i <= n,
            1 <= depth <= i,
            closing_paren(chars@, i as int, depth as nat) == closing_paren(chars@, open_idx + 1, 1),
        decreases n - i,
    {
        let ch = chars[i];
        if ch == '\'' || ch == '"' || ch == '`' {
            i = skip_quoted(chars, i + 1, ch);
        } else if ch == '(' {
            depth = depth + 1;
            i = i + 1;
        } else if ch == ')' {
            if depth == 1 {
                return Some(i);
            }
            depth = depth - 1;
            i = i + 1;
        } else {
            i = i + 1;
        }
    }
    None
}

/// The characters that open and close a quoted stretch.
pub open spec fn is_quote(c: char, backticks: bool) -> bool {
    c == '\'' || c == '"' || (backticks && c == '`')
}

/// The position of the `)` that closes `depth` open parentheses, where a quote opens
/// and closes a stretch in which nothing else counts, or -1.
pub open spec fn closing_paren_toggling(
    s: Seq<char>,
    i: int,
    q: Option<char>,
    depth: nat,
    backticks: bool,
) -> int
    decreases s.len() - i,
{
    if i < 0 || i >= s.len() {
        -1
    } else if q is Some {
        closing_paren_toggling(
            s,
            i + 1,
            if s[i] == q->Some_0 {
                None
            } else {
                q
            },
            depth,
            backticks,
        )
    } else if is_quote(s[i], backticks) {
        closing_paren_toggling(s, i + 1, Some(s[i]), depth, backticks)
    } else if s[i] == '(' {
        closing_paren_toggling(s, i + 1, None, depth + 1, backticks)
    } else if s[i] == ')' {
        if depth <= 1 {
            i
        } else {
            closing_paren_toggling(s, i + 1, None, (depth - 1) as nat, backticks)
        }
    } else {
        closing_paren_toggling(s, i + 1, None, depth, backticks)
    }
}

/// The position of the parenthesis that closes the one at `open`, or -1 where there is
/// none there or it is never closed.
pub open spec fn partner(s: Seq<char>, open: int, backticks: bool) -> int {
    if 0 <= open < s.len() && s[open] == '(' {
        closing_paren_toggling(s, open + 1, None, 1, backticks)
    } else {
        -1
    }
}

/// The position of the `)` matching the `(` at `open`, ignoring parentheses inside
/// quotes, backticks among them or not.
pub fn matching_paren_in(chars: &Vec<char>, open: usize, backticks: bool) -> (r: Option<usize>)
    ensures
        match r {
            Some(k) => k == partner(chars@, open as int, backticks) && open < k < chars@.len(),
            None => partner(chars@, open as int, backticks) == -1,
        },
{
    let n: usize = chars.len();
    if open >= n || chars[open] != '(' {
        return None;
    }
    let mut i: usize = open + 1;
    let mut depth: usize = 1;
    let mut q: Option<char> = None;
    while i < n
        invariant
            n == chars@.len(),
            open < i <= n,
            open < n,
            1 <= depth <= i,
            chars@[open as int] == '(',
            closing_paren_toggling(chars@, i as int, q, depth as nat, backticks) == partner(
                chars@,
                open as int,
                backticks,
            ),
        decreases n - i,
    {
        let ch = chars[i];
        match q {
            Some(active) => {
                if ch == active {
                    q = None;
                }
            },
            None => {
                if ch == '\'' || ch == '"' || (backticks && ch == '`') {
                    q = Some(ch);
                } else if ch == '(' {
                    depth = depth + 1;
                } else if ch == ')' {
                    if depth == 1 {
                        return Some(i);
                    }
                    depth = depth - 1;
                }
            },
        }
        i = i + 1;
    }
    None
}

/// The position of the first comma from `i` on that separates items: one outside quotes
/// and parentheses. The length where there is none.
pub open spec fn next_comma(s: Seq<char>, i: int, q: Option<char>, depth: nat) -> int
    decreases s.len() - i,
{
    if i < 0 || i >= s.len() {
        s.len() as int
    } else if s[i] == '\\' && (q == Some('\'') || q == Some('"')) {
        if i + 1 < s.len() {
            next_comma(s, i + 2, q, depth)
        } else {
            s.len() as int
        }
    } else if s[i] == '\'' && q == Some('\'') && i + 1 < s.len() && s[i + 1] == '\'' {
        next_comma(s, i + 2, q, depth)
    } else if q is Some {
        next_comma(
            s,
            i + 1,
            if s[i] == q->Some_0 {
                None
            } else {
                q
            },
            depth,
        )
    } else if s[i] == '\'' || s[i] == '"' || s[i] == '`' {
        next_comma(s, i + 1, Some(s[i]), depth)
    } else if s[i] == '(' {
        next_comma(s, i + 1, q, depth + 1)
    } else if s[i] == ')' {
        next_comma(
            s,
            i + 1,
            q,
            if depth == 0 {
                0
            } else {
                (depth - 1) as nat
            },
        )
    } else if s[i] == ',' && depth == 0 {
        i
    } else {
        next_comma(s, i + 1, q, depth)
    }
}

pub proof fn lemma_next_comma(s: Seq<char>, i: int, q: Option<char>, depth: nat)
    requires
        0 <= i <= s.len(),
    ensures
        i <= next_comma(s, i, q, depth) <= s.len(),
    decreases s.len() - i,
{
    if i < s.len() {
        if s[i] == '\\' && (q == Some('\'') || q == Some('"')) {
            if i + 2 <= s.len() {
                lemma_next_comma(s, i + 2, q, depth);
            }
        } else if s[i] == '\'' && q == Some('\'') && i + 1 < s.len() && s[i + 1] == '\'' {
            lemma_next_comma(s, i + 2, q, depth);
        } else if q is Some {
            lemma_next_comma(s, i + 1, if s[i] == q->Some_0 { None } else { q }, depth);
        } else if s[i] == '\'' || s[i] == '"' || s[i] == '`' {
            lemma_next_comma(s, i + 1, Some(s[i]), depth);
        } else if s[i] == '(' {
            lemma_next_comma(s, i + 1, q, depth + 1);
        } else if s[i] == ')' {
            lemma_next_comma(s, i + 1, q, if depth == 0 { 0 } else { (depth - 1) as nat });
        } else if !(s[i] == ',' && depth == 0) {
            lemma_next_comma(s, i + 1, q, depth);
        }
    }
}

fn find_comma(c: &Vec<char>, from: usize) -> (r: usize)
    requires
        from <= c@.len(),
    ensures
        r == next_comma(c@, from as int, None, 0),
        from <= r <= c@.len(),
{
    let n: usize = c.len();
    let mut i: usize = from;
    let mut depth: usize = 0;
    let mut q: Option<char> = None;
    while i < n
        invariant
            n == c@.len(),
            from <= i <= n,
            depth <= i,
            next_comma(c@, i as int, q, depth as nat) == next_comma(c@, from as int, None, 0),
        decreases n - i,
    {
        let ch = c[i];
        match q {
            Some(active) => {
                if ch == '\\' && (active == '\'' || active == '"') {
                    if n - i > 1 {
                        i = i + 2;
                    } else {
                        return n;
                    }
                } else if ch == '\'' && active == '\'' && n - i > 1 && c[i + 1] == '\'' {
                    i = i + 2;
                } else {
                    if ch == active {
                        q = None;
                    }
                    i = i + 1;
                }
            },
            None => {
                if ch == '\'' || ch == '"' || ch == '`' {
                    q = Some(ch);
                } else if ch == '(' {
                    depth = depth + 1;
                } else if ch == ')' {
                    if depth > 0 {
                        depth = depth - 1;
                    }
                } else if ch == ',' && depth == 0 {
                    return i;
                }
                i = i + 1;
            },
        }
    }
    i
}

/// The view of a list of texts or an error.
pub open spec fn texts_or(r: Result<Vec<String>, MiddlewareError>) -> Result<Seq<Seq<char>>, Failure> {
    match r {
        Ok(v) => Ok(texts(v@)),
        Err(e) => Err(e@),
    }
}

/// A list in front of the items of another result.
pub open spec fn in_front(head: Seq<Seq<char>>, r: Result<Seq<Seq<char>>, Failure>) -> Result<
    Seq<Seq<char>>,
    Failure,
> {
    match r {
        Ok(v) => Ok(head + v),
        Err(e) => Err(e),
    }
}

/// The trimmed items of a comma list from position `from` on. An item that holds
/// nothing but white space is an error.
pub open spec fn csv_from(s: Seq<char>, from: int) -> Result<Seq<Seq<char>>, Failure>
    decreases s.len() - from,
{
    let k = next_comma(s, from, None, 0);
    if from < 0 || k < from || k >= s.len() {
        let part = trimmed(s.skip(from));
        if part.len() == 0 {
            Err(Failure::Translation("unexpected empty trailing CSV segment while translating SQL"@))
        } else {
            Ok(seq![part])
        }
    } else {
        let part = trimmed(s.subrange(from, k));
        if part.len() == 0 {
            Err(Failure::Translation("unexpected empty CSV segment while translating SQL"@))
        } else {
            in_front(seq![part], csv_from(s, k + 1))
        }
    }
}

/// The items of a comma list, commas inside quotes and parentheses not counted.
pub open spec fn csv(s: Seq<char>) -> Result<Seq<Seq<char>>, Failure> {
    csv_from(s, 0)
}

/// Splits a comma list into its trimmed items.
pub fn split_sql_csv(input: &str) -> (r: Result<Vec<String>, MiddlewareError>)
    ensures
        texts_or(r) == csv(input@),
{
    let c = chars_of(input);
    let n: usize = c.len();
    let mut parts: Vec<String> = Vec::new();
    let mut from: usize = 0;
    assert(in_front(texts(parts@), csv_from(c@, 0)) == csv(c@)) by {
        match csv(c@) {
            Ok(v) => {
                assert(texts(parts@) + v =~= v);
            },
            Err(_) => {},
        }
    }
    loop
        invariant
            n == c@.len(),
            c@ == input@,
            from <= n,
            in_front(texts(parts@), csv_from(c@, from as int)) == csv(c@),
        decreases n - from,
    {
        let k = find_comma(&c, from);
        let ghost before = texts(parts@);
        if k >= n {
            let raw = from_chars(&c, from, n);
            assert(c@.subrange(from as int, n as int) =~= c@.skip(from as int));
            let part = trim(raw.as_str());
            if part.as_str().is_empty() {
                return Err(
                    translation_error("unexpected empty trailing CSV segment while translating SQL"),
                );
            }
            push_text(&mut parts, part);
            assert(texts(parts@) =~= before + seq![part@]);
            return Ok(parts);
        }
        let raw = from_chars(&c, from, k);
        let part = trim(raw.as_str());
        if part.as_str().is_empty() {
            return Err(translation_error("unexpected empty CSV segment while translating SQL"));
        }
        push_text(&mut parts, part);
        proof {
            match csv_from(c@, k + 1) {
                Ok(v) => {
                    assert(before + (seq![part@] + v) =~= before.push(part@) + v);
                },
                Err(_) => {},
            }
        }
        from = k + 1;
    }
}

/// What a word of SQL text becomes when boolean literals are put in upper case.
pub open spec fn boolean_word(w: Seq<char>) -> Seq<char> {
    if same_ignoring_case(w, "true"@) {
        "TRUE"@
    } else if same_ignoring_case(w, "false"@) {
        "FALSE"@
    } else {
        w
    }
}

pub open spec fn booleans_from(s: Seq<char>, i: int) -> Seq<char>
    decreases s.len() - i,
{
    if i < 0 || i >= s.len() {
        Seq::empty()
    } else if s[i] == '\'' || s[i] == '"' || s[i] == '`' {
        let e = after_plain_quote(s, i + 1, s[i]);
        if e <= i || e > s.len() {
            Seq::empty()
        } else {
            s.subrange(i, e) + booleans_from(s, e)
        }
    } else if is_word(s[i]) {
        let e = word_end(s, i);
        if e <= i || e > s.len() {
            Seq::empty()
        } else {
            boolean_word(s.subrange(i, e)) + booleans_from(s, e)
        }
    } else {
        seq![s[i]] + booleans_from(s, i + 1)
    }
}

/// A text with the words `true` and `false` outside quotes in upper case.
pub open spec fn with_boolean_literals(s: Seq<char>) -> Seq<char> {
    booleans_from(s, 0)
}

/// Puts the boolean literals of a text in upper case.
pub fn rewrite_boolean_literals(sql: &str) -> (r: String)
    ensures
        r@ == with_boolean_literals(sql@),
        lacks(sql@, '`') ==> lacks(r@, '`'),
{
    proof {
        if lacks(sql@, '`') {
            lemma_booleans_lack(sql@);
        }
    }
    let c = chars_of(sql);
    let n: usize = c.len();
    let mut out = String::new();
    let mut i: usize = 0;
    assert(out@ + booleans_from(c@, 0) =~= with_boolean_literals(c@));
    while i < n
        invariant
            n == c@.len(),
            c@ == sql@,
            i <= n,
            out@ + booleans_from(c@, i as int) == with_boolean_literals(c@),
        decreases n - i,
    {
        let ghost before = out@;
        let ch = c[i];
        if ch == '\'' || ch == '"' || ch == '`' {
            let e = skip_plain_quoted(&c, i + 1, ch);
            out.append(from_chars(&c, i, e).as_str());
            proof {
                lemma_assoc(before, c@.subrange(i as int, e as int), booleans_from(c@, e as int));
            }
            i = e;
        } else if is_identifier_char(ch) {
            let e = skip_word(&c, i);
            let token = from_chars(&c, i, e);
            if eq_ignore_case(token.as_str(), "true") {
                out.append("TRUE");
            } else if eq_ignore_case(token.as_str(), "false") {
                out.append("FALSE");
            } else {
                out.append(token.as_str());
            }
            proof {
                lemma_assoc(before, boolean_word(token@), booleans_from(c@, e as int));
            }
            i = e;
        } else {
            out.push(ch);
            assert(out@ =~= before + seq![ch]);
            proof {
                lemma_assoc(before, seq![ch], booleans_from(c@, i + 1));
            }
            i = i + 1;
        }
    }
    assert(out@ =~= with_boolean_literals(c@));
    out
}

proof fn lemma_items_are_trimmed(s: Seq<char>, from: int)
    requires
        0 <= from <= s.len(),
    ensures
        match csv_from(s, from) {
            Ok(items) => items.len() > 0 && forall|i: int|
                0 <= i < items.len() ==> (#[trigger] items[i]).len() > 0 && !is_space(items[i][0]) && !is_space(
                    items[i].last(),
                ),
            Err(_) => true,
        },
    decreases s.len() - from,
{
    let k = next_comma(s, from, None, 0);
    lemma_next_comma(s, from, None, 0);
    if k >= s.len() {
        lemma_trimmed(s.skip(from));
    } else {
        lemma_trimmed(s.subrange(from, k));
        lemma_items_are_trimmed(s, k + 1);
    }
}

/// The items of a comma list are never empty, and no white space stands at their ends.
pub proof fn list_items_are_trimmed(s: Seq<char>)
    ensures
        match csv(s) {
            Ok(items) => items.len() > 0 && forall|i: int|
                0 <= i < items.len() ==> (#[trigger] items[i]).len() > 0 && !is_space(items[i][0]) && !is_space(
                    items[i].last(),
                ),
            Err(_) => true,
        },
{
    lemma_items_are_trimmed(s, 0);
}

/// Whether the search for a comma stops at a position.
spec fn stops(s: Seq<char>, i: int, q: Option<char>, depth: nat) -> bool {
    q is None && s[i] == ',' && depth == 0
}

/// Where the search for a comma goes on, and in which quotes and parentheses.
spec fn stepped(s: Seq<char>, i: int, q: Option<char>, depth: nat) -> (int, Option<char>, nat) {
    if s[i] == '\\' && (q == Some('\'') || q == Some('"')) {
        if i + 1 < s.len() {
            (i + 2, q, depth)
        } else {
            (s.len() as int, q, depth)
        }
    } else if s[i] == '\'' && q == Some('\'') && i + 1 < s.len() && s[i + 1] == '\'' {
        (i + 2, q, depth)
    } else if q is Some {
        (
            i + 1,
            if s[i] == q->Some_0 {
                None
            } else {
                q
            },
            depth,
        )
    } else if s[i] == '\'' || s[i] == '"' || s[i] == '`' {
        (i + 1, Some(s[i]), depth)
    } else if s[i] == '(' {
        (i + 1, q, depth + 1)
    } else if s[i] == ')' {
        (
            i + 1,
            q,
            if depth == 0 {
                0
            } else {
                (depth - 1) as nat
            },
        )
    } else {
        (i + 1, q, depth)
    }
}

proof fn lemma_step(s: Seq<char>, i: int, q: Option<char>, depth: nat)
    requires
        0 <= i < s.len(),
    ensures
        ({
            let t = stepped(s, i, q, depth);
            &&& i < t.0 <= s.len()
            &&& stops(s, i, q, depth) ==> next_comma(s, i, q, depth) == i
            &&& !stops(s, i, q, depth) ==> next_comma(s, i, q, depth) == next_comma(s, t.0, t.1, t.2)
            &&& t.0 <= next_comma(s, t.0, t.1, t.2) <= s.len()
        }),
{
    let t = stepped(s, i, q, depth);
    lemma_next_comma(s, t.0, t.1, t.2);
}

/// White space in front of a comma that ends an item stands in no quotes or parentheses.
proof fn lemma_blank(s: Seq<char>, i: int, q: Option<char>, depth: nat, k: int)
    requires
        0 <= i <= k < s.len(),
        next_comma(s, i, q, depth) == k,
        forall|j: int| i <= j < k ==> is_space(#[trigger] s[j]),
        q is Some ==> (q == Some('\'') || q == Some('"') || q == Some('`')),
    ensures
        q is None,
        depth == 0,
    decreases k - i,
{
    lemma_step(s, i, q, depth);
    if i < k {
        assert(is_space(s[i]));
        lemma_blank(s, i + 1, q, depth, k);
    }
}

proof fn lemma_cut(s: Seq<char>, i: int, q: Option<char>, depth: nat, m: int, r: Seq<char>)
    requires
        0 <= i <= m <= next_comma(s, i, q, depth) < s.len(),
        forall|j: int| m <= j < next_comma(s, i, q, depth) ==> is_space(#[trigger] s[j]),
        r.len() > 0,
        r[0] == ',',
        q is Some ==> (q == Some('\'') || q == Some('"') || q == Some('`')),
    ensures
        next_comma(s.take(m) + r, i, q, depth) == m,
    decreases m - i,
{
    let k = next_comma(s, i, q, depth);
    let t = s.take(m) + r;
    lemma_step(t, i, q, depth);
    if i == m {
        lemma_blank(s, i, q, depth, k);
        assert(t[m] == ',');
    } else {
        lemma_step(s, i, q, depth);
        assert(t[i] == s[i]);
        let st = stepped(s, i, q, depth);
        lemma_step_stays(s, k, i, q, depth);
        if i + 1 < m {
            assert(t[i + 1] == s[i + 1]);
            lemma_cut(s, st.0, st.1, st.2, m, r);
        } else {
            assert(t[m] == ',');
            if st.0 > m {
                if m < k {
                    assert(is_space(s[m]));
                    lemma_blank(s, st.0, st.1, st.2, k);
                }
                assert(false);
            }
            assert(s[m] != '\'') by {
                if m < k {
                    assert(is_space(s[m]));
                } else {
                    lemma_stop_is_comma(s, i, q, depth);
                }
            }
            lemma_cut(s, st.0, st.1, st.2, m, r);
        }
    }
}

/// Where the search ends inside the text, a comma stands.
proof fn lemma_stop_is_comma(s: Seq<char>, i: int, q: Option<char>, depth: nat)
    requires
        0 <= i <= s.len(),
        next_comma(s, i, q, depth) < s.len(),
    ensures
        s[next_comma(s, i, q, depth)] == ',',
    decreases s.len() - i,
{
    lemma_next_comma(s, i, q, depth);
    lemma_step(s, i, q, depth);
    if !stops(s, i, q, depth) {
        let t = stepped(s, i, q, depth);
        lemma_stop_is_comma(s, t.0, t.1, t.2);
    }
}

/// A step before the end of the search leads no further than that end.
proof fn lemma_step_stays(s: Seq<char>, k: int, i: int, q: Option<char>, depth: nat)
    requires
        0 <= i < k < s.len(),
        next_comma(s, i, q, depth) == k,
    ensures
        !stops(s, i, q, depth),
        stepped(s, i, q, depth).0 <= k,
{
    lemma_step(s, i, q, depth);
}

/// Where no comma ends an item, none does in what stands before.
proof fn lemma_rest(s: Seq<char>, i: int, q: Option<char>, depth: nat, m: int)
    requires
        0 <= i <= m <= s.len(),
        next_comma(s, i, q, depth) == s.len(),
    ensures
        next_comma(s.take(m), i, q, depth) == m,
    decreases m - i,
{
    let t = s.take(m);
    if i < m {
        lemma_step(s, i, q, depth);
        lemma_step(t, i, q, depth);
        assert(t[i] == s[i]);
        let st = stepped(s, i, q, depth);
        if i + 1 < m {
            assert(t[i + 1] == s[i + 1]);
            lemma_rest(s, st.0, st.1, st.2, m);
        }
    }
}

proof fn lemma_comma_shift(a: Seq<char>, s: Seq<char>, i: int, q: Option<char>, depth: nat)
    requires
        0 <= i <= s.len(),
    ensures
        next_comma(a + s, a.len() + i, q, depth) == a.len() + next_comma(s, i, q, depth),
    decreases s.len() - i,
{
    let t = a + s;
    let at = a.len() + i;
    if i < s.len() {
        lemma_step(s, i, q, depth);
        lemma_step(t, at, q, depth);
        assert(t[at] == s[i]);
        if i + 1 < s.len() {
            assert(t[at + 1] == s[i + 1]);
        }
        if !stops(s, i, q, depth) {
            let st = stepped(s, i, q, depth);
            lemma_comma_shift(a, s, st.0, st.1, st.2);
        }
    }
}

proof fn lemma_list_shift(a: Seq<char>, s: Seq<char>, i: int)
    requires
        0 <= i <= s.len(),
    ensures
        csv_from(a + s, a.len() + i) == csv_from(s, i),
    decreases s.len() - i,
{
    let t = a + s;
    let at = a.len() + i;
    lemma_comma_shift(a, s, i, None, 0);
    lemma_next_comma(s, i, None, 0);
    let k = next_comma(s, i, None, 0);
    if k >= s.len() {
        assert(t.skip(at) =~= s.skip(i));
    } else {
        assert(t.subrange(at, a.len() + k) =~= s.subrange(i, k));
        lemma_list_shift(a, s, k + 1);
    }
}

/// White space in front of a list does not count.
proof fn lemma_blank_in_front(s: Seq<char>)
    ensures
        csv_from(seq![' '] + s, 0) == csv_from(s, 0),
{
    let a = seq![' '];
    let t = a + s;
    lemma_step(t, 0, None, 0);
    lemma_comma_shift(a, s, 0, None, 0);
    lemma_next_comma(s, 0, None, 0);
    let k = next_comma(s, 0, None, 0);
    assert(t[0] == ' ');
    assert(next_comma(t, 0, None, 0) == 1 + k);
    if k >= s.len() {
        assert(t.skip(0).skip(1) =~= s.skip(0));
    } else {
        assert(t.subrange(0, 1 + k).skip(1) =~= s.subrange(0, k));
        lemma_list_shift(a, s, k + 1);
    }
}

proof fn lemma_spaces_skipped(s: Seq<char>, j: int)
    requires
        0 <= j <= s.len(),
        forall|i: int| 0 <= i < j ==> is_space(#[trigger] s[i]),
    ensures
        next_comma(s, 0, None, 0) == j + next_comma(s.skip(j), 0, None, 0),
    decreases j,
{
    if j > 0 {
        assert(is_space(s[0]));
        lemma_step(s, 0, None, 0);
        assert(seq![s[0]] + s.skip(1) =~= s);
        lemma_comma_shift(seq![s[0]], s.skip(1), 0, None, 0);
        assert forall|i: int| 0 <= i < j - 1 implies is_space(#[trigger] s.skip(1)[i]) by {
            assert(is_space(s[i + 1]));
        }
        lemma_spaces_skipped(s.skip(1), j - 1);
        assert(s.skip(1).skip(j - 1) =~= s.skip(j));
    } else {
        assert(s.skip(0) =~= s);
    }
}

proof fn lemma_rejoined(s: Seq<char>)
    ensures
        match csv_from(s, 0) {
            Ok(v) => v.len() > 0 && csv_from(joined(v, ", "@), 0) == Ok::<Seq<Seq<char>>, Failure>(v),
            Err(_) => true,
        },
    decreases s.len(),
{
    reveal_strlit(", ");
    let k = next_comma(s, 0, None, 0);
    lemma_next_comma(s, 0, None, 0);
    let body = if k >= s.len() {
        s.skip(0)
    } else {
        s.subrange(0, k)
    };
    assert(body =~= s.take(k));
    let p = trimmed(body);
    if csv_from(s, 0) is Ok {
        lemma_trimmed(body);
        let j = skip_space(body, 0);
        lemma_skip_space(body, 0);
        assert(body.skip(0) =~= body);
        let w = s.skip(j);
        lemma_trimmed_end(body.skip(j));
        let m = p.len() as int;
        assert(j <= k);
        assert forall|i: int| 0 <= i < j implies is_space(#[trigger] s[i]) by {
            assert(is_space(body[i]));
        }
        lemma_spaces_skipped(s, j);
        assert(p =~= w.take(m));
        assert(trimmed(p) == p);
        if k >= s.len() {
            lemma_rest(w, 0, None, 0, m);
            assert(csv_from(s, 0) == Ok::<Seq<Seq<char>>, Failure>(seq![p]));
            assert(joined(seq![p], ", "@) == p);
            assert(p.skip(0) =~= p);
        } else {
            let rest = csv_from(s, k + 1);
            assert(s.take(k + 1) + s.skip(k + 1) =~= s);
            lemma_list_shift(s.take(k + 1), s.skip(k + 1), 0);
            lemma_rejoined(s.skip(k + 1));
            let v = rest->Ok_0;
            let tail = joined(v, ", "@);
            let r = ", "@ + tail;
            assert forall|i: int| m <= i < k - j implies is_space(#[trigger] w[i]) by {
                assert(is_space(body.skip(j)[i]));
            }
            lemma_cut(w, 0, None, 0, m, r);
            let all = p + r;
            assert(all =~= w.take(m) + r);
            lemma_joined_front(p, v, ", "@);
            assert(joined(seq![p] + v, ", "@) =~= all);
            assert(all.subrange(0, m) =~= p);
            let head = p + seq![','];
            let back = seq![' '] + tail;
            assert(all =~= head + back);
            lemma_list_shift(head, back, 0);
            lemma_blank_in_front(tail);
            assert(csv_from(all, m + 1) == Ok::<Seq<Seq<char>>, Failure>(v));
        }
    }
}

/// The items of a comma list, joined again with a comma and a blank, are the items of what
/// comes out.
pub proof fn joined_items_split_again(s: Seq<char>)
    ensures
        match csv(s) {
            Ok(items) => csv(joined(items, ", "@)) == Ok::<Seq<Seq<char>>, Failure>(items),
            Err(_) => true,
        },
{
    lemma_rejoined(s);
}

proof fn lemma_word_end(s: Seq<char>, i: int)
    requires
        0 <= i <= s.len(),
    ensures
        i <= word_end(s, i) <= s.len(),
        i < s.len() && is_word(s[i]) ==> i < word_end(s, i),
    decreases s.len() - i,
{
    if i < s.len() && is_word(s[i]) {
        lemma_word_end(s, i + 1);
    }
}

proof fn lemma_booleans_from(s: Seq<char>, i: int)
    requires
        0 <= i <= s.len(),
    ensures
        lowered(booleans_from(s, i)) == lowered(s.skip(i)),
    decreases s.len() - i,
{
    if i < s.len() {
        let e = if s[i] == '\'' || s[i] == '"' || s[i] == '`' {
            lemma_after_plain_quote(s, i + 1, s[i]);
            after_plain_quote(s, i + 1, s[i])
        } else if is_word(s[i]) {
            lemma_word_end(s, i);
            word_end(s, i)
        } else {
            i + 1
        };
        lemma_booleans_from(s, e);
        let piece = booleans_from(s, i).take(booleans_from(s, i).len() - booleans_from(s, e).len());
        reveal_strlit("true");
        reveal_strlit("TRUE");
        reveal_strlit("false");
        reveal_strlit("FALSE");
        assert(lowered("TRUE"@) =~= lowered("true"@));
        assert(lowered("FALSE"@) =~= lowered("false"@));
        assert(booleans_from(s, i) =~= piece + booleans_from(s, e));
        assert(lowered(piece) =~= lowered(s.subrange(i, e))) by {
            if !(s[i] == '\'' || s[i] == '"' || s[i] == '`') && is_word(s[i]) {
                assert(piece =~= boolean_word(s.subrange(i, e)));
            } else {
                assert(piece =~= s.subrange(i, e));
            }
        }
        assert(lowered(piece + booleans_from(s, e)) =~= lowered(piece) + lowered(booleans_from(s, e)));
        assert(lowered(s.skip(i)) =~= lowered(s.subrange(i, e)) + lowered(s.skip(e)));
    } else {
        assert(lowered(booleans_from(s, i)) =~= lowered(s.skip(i)));
    }
}

/// Writing boolean literals in capitals changes nothing but the case of letters.
pub proof fn boolean_literals_change_case_alone(s: Seq<char>)
    ensures
        lowered(with_boolean_literals(s)) == lowered(s),
        with_boolean_literals(s).len() == s.len(),
{
    lemma_booleans_from(s, 0);
    assert(s.skip(0) =~= s);
    assert(lowered(with_boolean_literals(s)).len() == with_boolean_literals(s).len());
    assert(lowered(s).len() == s.len());
}

proof fn lemma_items_lack(s: Seq<char>, from: int, c: char)
    requires
        lacks(s, c),
        0 <= from <= s.len(),
    ensures
        csv_from(s, from) matches Ok(items) ==> all_lack(items, c),
    decreases s.len() - from,
{
    let k = next_comma(s, from, None, 0);
    lemma_next_comma(s, from, None, 0);
    if k >= s.len() {
        lemma_lacks_part(s, from, s.len() as int, c);
        assert(s.skip(from) =~= s.subrange(from, s.len() as int));
        lemma_lacks_trimmed(s.skip(from), c);
    } else {
        lemma_lacks_part(s, from, k, c);
        lemma_lacks_trimmed(s.subrange(from, k), c);
        lemma_items_lack(s, k + 1, c);
    }
}

/// The items of a list hold only what the list holds.
pub proof fn lemma_list_lacks(s: Seq<char>, c: char)
    requires
        lacks(s, c),
    ensures
        csv(s) matches Ok(items) ==> all_lack(items, c),
{
    lemma_items_lack(s, 0, c);
}

/// Writing boolean literals in capitals brings in no backtick.
pub proof fn lemma_booleans_lack(s: Seq<char>)
    requires
        lacks(s, '`'),
    ensures
        lacks(with_boolean_literals(s), '`'),
{
    boolean_literals_change_case_alone(s);
    let t = with_boolean_literals(s);
    assert forall|i: int| 0 <= i < t.len() implies #[trigger] t[i] != '`' by {
        assert(lowered(t)[i] == lowered(s)[i]);
        assert(s[i] != '`');
    }
}

/// The position of the semicolon that ends a statement from `i` on, semicolons in quotes not
/// counted, or the length.
pub open spec fn statement_end(s: Seq<char>, i: int) -> int
    decreases s.len() - i,
{
    if i < 0 || i >= s.len() {
        s.len() as int
    } else if s[i] == '\'' || s[i] == '"' {
        let e = after_plain_quote(s, i + 1, s[i]);
        if e <= i || e > s.len() {
            s.len() as int
        } else {
            statement_end(s, e)
        }
    } else if s[i] == ';' {
        i
    } else {
        statement_end(s, i + 1)
    }
}

proof fn lemma_statement_end(s: Seq<char>, i: int)
    requires
        0 <= i <= s.len(),
    ensures
        i <= statement_end(s, i) <= s.len(),
    decreases s.len() - i,
{
    if i < s.len() {
        if s[i] == '\'' || s[i] == '"' {
            lemma_after_plain_quote(s, i + 1, s[i]);
            lemma_statement_end(s, after_plain_quote(s, i + 1, s[i]));
        } else if s[i] != ';' {
            lemma_statement_end(s, i + 1);
        }
    }
}

pub open spec fn statements_from(s: Seq<char>, i: int) -> Seq<Seq<char>>
    decreases s.len() - i,
{
    let e = statement_end(s, i);
    if i < 0 || e < i || e >= s.len() {
        seq![s.skip(i)]
    } else {
        seq![s.subrange(i, e)] + statements_from(s, e + 1)
    }
}

/// The statements of a PostgreSQL text, as they stand between its semicolons.
pub open spec fn statements_in(s: Seq<char>) -> Seq<Seq<char>> {
    statements_from(s, 0)
}

fn find_statement_end(c: &Vec<char>, from: usize) -> (r: usize)
    requires
        from <= c@.len(),
    ensures
        r == statement_end(c@, from as int),
        from <= r <= c@.len(),
{
    let n: usize = c.len();
    let mut i: usize = from;
    while i < n
        invariant
            n == c@.len(),
            from <= i <= n,
            statement_end(c@, i as int) == statement_end(c@, from as int),
        decreases n - i,
    {
        if c[i] == '\'' || c[i] == '"' {
            i = skip_plain_quoted(c, i + 1, c[i]);
        } else if c[i] == ';' {
            return i;
        } else {
            i = i + 1;
        }
    }
    i
}

/// Splits a PostgreSQL text into its statements.
pub fn split_sql_statements(sql: &str) -> (r: Vec<String>)
    ensures
        texts(r@) == statements_in(sql@),
{
    let c = chars_of(sql);
    let n: usize = c.len();
    let mut out: Vec<String> = Vec::new();
    let mut from: usize = 0;
    assert(texts(out@) + statements_from(c@, 0) =~= statements_in(c@));
    loop
        invariant
            n == c@.len(),
            c@ == sql@,
            from <= n,
            texts(out@) + statements_from(c@, from as int) == statements_in(c@),
        decreases n - from,
    {
        let e = find_statement_end(&c, from);
        let ghost before = texts(out@);
        if e >= n {
            let last = from_chars(&c, from, n);
            assert(last@ =~= c@.skip(from as int));
            push_text(&mut out, last);
            assert(texts(out@) =~= before + seq![c@.skip(from as int)]);
            return out;
        }
        let one = from_chars(&c, from, e);
        push_text(&mut out, one);
        assert(texts(out@) =~= before + seq![c@.subrange(from as int, e as int)]);
        assert(texts(out@) + statements_from(c@, e + 1) =~= before + (seq![c@.subrange(from as int, e as int)]
            + statements_from(c@, e + 1)));
        from = e + 1;
    }
}

/// Whether a quoted fragment is closed, given a position inside it.
pub open spec fn quote_closes(s: Seq<char>, i: int, q: char) -> bool
    decreases s.len() - i,
{
    if i < 0 || i >= s.len() {
        false
    } else if s[i] == q {
        if i + 1 < s.len() && s[i + 1] == q {
            quote_closes(s, i + 2, q)
        } else {
            true
        }
    } else {
        quote_closes(s, i + 1, q)
    }
}

pub open spec fn closes_from(s: Seq<char>, i: int) -> bool
    decreases s.len() - i,
{
    if i < 0 || i >= s.len() {
        true
    } else if s[i] == '\'' || s[i] == '"' {
        let e = after_plain_quote(s, i + 1, s[i]);
        quote_closes(s, i + 1, s[i]) && i < e <= s.len() && closes_from(s, e)
    } else {
        closes_from(s, i + 1)
    }
}

/// Whether a text is complete: whether it closes every quote that it opens.
pub open spec fn is_complete(s: Seq<char>) -> bool {
    closes_from(s, 0)
}

proof fn lemma_quote_stays(s: Seq<char>, r: Seq<char>, i: int, q: char)
    requires
        0 <= i,
        quote_closes(s, i, q),
        r.len() > 0,
        r[0] == ';',
        q != ';',
    ensures
        after_plain_quote(s + r, i, q) == after_plain_quote(s, i, q),
    decreases s.len() - i,
{
    let t = s + r;
    assert(t[i] == s[i]);
    if i + 1 < s.len() {
        assert(t[i + 1] == s[i + 1]);
    } else {
        assert(t[i + 1] == ';');
    }
    if s[i] == q {
        if i + 1 < s.len() && s[i + 1] == q {
            lemma_quote_stays(s, r, i + 2, q);
        }
    } else {
        lemma_quote_stays(s, r, i + 1, q);
    }
}

proof fn lemma_end_stays(s: Seq<char>, r: Seq<char>, i: int)
    requires
        0 <= i <= s.len(),
        closes_from(s, i),
        r.len() > 0,
        r[0] == ';',
    ensures
        statement_end(s + r, i) == statement_end(s, i),
        statement_end(s, i) < s.len() ==> closes_from(s, statement_end(s, i) + 1),
    decreases s.len() - i,
{
    let t = s + r;
    if i < s.len() {
        assert(t[i] == s[i]);
        if s[i] == '\'' || s[i] == '"' {
            let e = after_plain_quote(s, i + 1, s[i]);
            lemma_quote_stays(s, r, i + 1, s[i]);
            lemma_after_plain_quote(s, i + 1, s[i]);
            lemma_end_stays(s, r, e);
        } else if s[i] != ';' {
            lemma_end_stays(s, r, i + 1);
        }
    } else {
        assert(t[i] == ';');
    }
}

proof fn lemma_quote_shift(a: Seq<char>, s: Seq<char>, i: int, q: char)
    requires
        0 <= i <= s.len(),
    ensures
        after_plain_quote(a + s, a.len() + i, q) == a.len() + after_plain_quote(s, i, q),
    decreases s.len() - i,
{
    let t = a + s;
    if i < s.len() {
        assert(t[a.len() + i] == s[i]);
        if i + 1 < s.len() {
            assert(t[a.len() + i + 1] == s[i + 1]);
        }
        if s[i] == q {
            if i + 1 < s.len() && s[i + 1] == q {
                lemma_quote_shift(a, s, i + 2, q);
            }
        } else {
            lemma_quote_shift(a, s, i + 1, q);
        }
    }
}

proof fn lemma_end_shift(a: Seq<char>, s: Seq<char>, i: int)
    requires
        0 <= i <= s.len(),
    ensures
        statement_end(a + s, a.len() + i) == a.len() + statement_end(s, i),
    decreases s.len() - i,
{
    let t = a + s;
    if i < s.len() {
        assert(t[a.len() + i] == s[i]);
        if s[i] == '\'' || s[i] == '"' {
            lemma_quote_shift(a, s, i + 1, s[i]);
            lemma_after_plain_quote(s, i + 1, s[i]);
            lemma_end_shift(a, s, after_plain_quote(s, i + 1, s[i]));
        } else if s[i] != ';' {
            lemma_end_shift(a, s, i + 1);
        }
    }
}

proof fn lemma_statements_shift(a: Seq<char>, s: Seq<char>, i: int)
    requires
        0 <= i <= s.len(),
    ensures
        statements_from(a + s, a.len() + i) == statements_from(s, i),
    decreases s.len() - i,
{
    let t = a + s;
    let e = statement_end(s, i);
    lemma_end_shift(a, s, i);
    lemma_statement_end(s, i);
    if e >= s.len() {
        assert(t.skip(a.len() + i) =~= s.skip(i));
    } else {
        assert(t.subrange(a.len() + i, a.len() + e) =~= s.subrange(i, e));
        lemma_statements_shift(a, s, e + 1);
    }
}

proof fn lemma_statements_add(a: Seq<char>, b: Seq<char>, i: int)
    requires
        0 <= i <= a.len(),
        closes_from(a, i),
    ensures
        statements_from(a + (seq![';'] + b), i) == statements_from(a, i) + statements_from(b, 0),
    decreases a.len() - i,
{
    let r = seq![';'] + b;
    let t = a + r;
    let e = statement_end(a, i);
    lemma_end_stays(a, r, i);
    lemma_statement_end(a, i);
    if e >= a.len() {
        assert(t.subrange(i, e) =~= a.skip(i));
        let head = a + seq![';'];
        assert(t =~= head + b);
        lemma_statements_shift(head, b, 0);
    } else {
        assert(t.subrange(i, e) =~= a.subrange(i, e));
        lemma_statements_add(a, b, e + 1);
        assert(statements_from(t, i) =~= statements_from(a, i) + statements_from(b, 0));
    }
}

/// The statements of two texts with a semicolon between them are those of the one and those
/// of the other, where the first closes its quotes.
pub proof fn statements_of_a_row(a: Seq<char>, b: Seq<char>)
    requires
        is_complete(a),
    ensures
        statements_in(a + ";"@ + b) == statements_in(a) + statements_in(b),
{
    reveal_strlit(";");
    assert(a + ";"@ + b =~= a + (seq![';'] + b));
    lemma_statements_add(a, b, 0);
}

/// A blank in front of a text stands in front of its first statement.
pub proof fn lemma_blank_before_statements(s: Seq<char>)
    ensures
        statements_in(seq![' '] + s) == seq![seq![' '] + statements_in(s)[0]] + statements_in(s).skip(1),
        statements_in(s).len() > 0,
{
    let a = seq![' '];
    let t = a + s;
    let e = statement_end(s, 0);
    lemma_end_shift(a, s, 0);
    lemma_statement_end(s, 0);
    assert(t[0] == ' ');
    assert(statement_end(t, 0) == 1 + e);
    if e >= s.len() {
        assert(t.skip(0) =~= a + s.skip(0));
        assert(statements_in(s).skip(1) =~= Seq::<Seq<char>>::empty());
        assert(statements_in(t) =~= seq![a + s.skip(0)]);
    } else {
        assert(t.subrange(0, 1 + e) =~= a + s.subrange(0, e));
        lemma_statements_shift(a, s, e + 1);
        assert(statements_in(s).skip(1) =~= statements_from(s, e + 1));
    }
}

} // verus!
