//! Text as sequences of characters: the executable string helpers the rest of the
//! library is written with, and the mathematical functions their contracts speak of.
use vstd::prelude::*;

verus! {

/// `String::push` appends one character to the end of the string.
pub assume_specification[ String::push ](s: &mut String, c: char)
    ensures
        final(s)@ == old(s)@.push(c),
;

/// The contents of a list of strings.
pub open spec fn texts(v: Seq<String>) -> Seq<Seq<char>> {
    Seq::new(v.len(), |i: int| v[i]@)
}

/// The content of an optional string.
pub open spec fn opt_text(o: Option<String>) -> Option<Seq<char>> {
    match o {
        Some(s) => Some(s@),
        None => None,
    }
}

/// Appends a string to a list.
pub fn push_text(v: &mut Vec<String>, s: String)
    ensures
        texts(final(v)@) == texts(old(v)@).push(s@),
        final(v)@.len() == old(v)@.len() + 1,
{
    v.push(s);
    assert(texts(v@) =~= texts(old(v)@).push(s@));
}

/// Appends the strings of one list to another.
pub fn push_texts(v: &mut Vec<String>, more: &Vec<String>)
    ensures
        texts(final(v)@) == texts(old(v)@) + texts(more@),
{
    let ghost start = texts(v@);
    let mut i: usize = 0;
    assert(start + texts(more@).take(0) =~= start);
    while i < more.len()
        invariant
            i <= more.len(),
            texts(v@) == start + texts(more@).take(i as int),
        decreases more.len() - i,
    {
        push_text(v, more[i].clone());
        assert(texts(more@).take(i + 1) =~= texts(more@).take(i as int).push(more@[i as int]@));
        assert(start + texts(more@).take(i + 1) =~= (start + texts(more@).take(i as int)).push(
            more@[i as int]@,
        ));
        i = i + 1;
    }
    assert(texts(more@).take(i as int) =~= texts(more@));
}

/// The characters of a string.
pub fn chars_of(s: &str) -> (r: Vec<char>)
    ensures
        r@ == s@,
{
    let mut out: Vec<char> = Vec::new();
    for c in it: s.chars()
        invariant
            out@ == it.seq().take(it.index() as int),
            it.seq() == s@,
    {
        out.push(c);
        assert(out@ =~= it.seq().take(it.index() + 1));
    }
    assert(out@ =~= s@);
    out
}

/// The string made of the characters from `from` up to `to`.
pub fn from_chars(v: &Vec<char>, from: usize, to: usize) -> (r: String)
    requires
        from <= to <= v@.len(),
    ensures
        r@ == v@.subrange(from as int, to as int),
{
    let mut out = String::new();
    let mut i: usize = from;
    assert(v@.subrange(from as int, from as int) =~= Seq::<char>::empty());
    while i < to
        invariant
            from <= i <= to <= v@.len(),
            out@ == v@.subrange(from as int, i as int),
        decreases to - i,
    {
        out.push(v[i]);
        assert(v@.subrange(from as int, i + 1) =~= v@.subrange(from as int, i as int).push(v@[i as int]));
        i = i + 1;
    }
    out
}

/// The part of a string between two character positions.
pub fn slice(s: &str, from: usize, to: usize) -> (r: String)
    requires
        from <= to <= s@.len(),
    ensures
        r@ == s@.subrange(from as int, to as int),
{
    s.substring_char(from, to).to_string()
}

/// The 2 texts one after another.
pub fn cat2(a: &str, b: &str) -> (r: String)
    ensures
        r@ == a@ + b@,
{
    let mut out = a.to_string();
    out.append(b);
    out
}

/// The 3 texts one after another.
pub fn cat3(a: &str, b: &str, c: &str) -> (r: String)
    ensures
        r@ == a@ + b@ + c@,
{
    let mut out = a.to_string();
    out.append(b);
    out.append(c);
    out
}

/// The 4 texts one after another.
pub fn cat4(a: &str, b: &str, c: &str, d: &str) -> (r: String)
    ensures
        r@ == a@ + b@ + c@ + d@,
{
    let mut out = a.to_string();
    out.append(b);
    out.append(c);
    out.append(d);
    out
}

/// The 5 texts one after another.
pub fn cat5(a: &str, b: &str, c: &str, d: &str, e: &str) -> (r: String)
    ensures
        r@ == a@ + b@ + c@ + d@ + e@,
{
    let mut out = a.to_string();
    out.append(b);
    out.append(c);
    out.append(d);
    out.append(e);
    out
}

/// The 6 texts one after another.
pub fn cat6(a: &str, b: &str, c: &str, d: &str, e: &str, f: &str) -> (r: String)
    ensures
        r@ == a@ + b@ + c@ + d@ + e@ + f@,
{
    let mut out = a.to_string();
    out.append(b);
    out.append(c);
    out.append(d);
    out.append(e);
    out.append(f);
    out
}

/// The 7 texts one after another.
pub fn cat7(a: &str, b: &str, c: &str, d: &str, e: &str, f: &str, g: &str) -> (r: String)
    ensures
        r@ == a@ + b@ + c@ + d@ + e@ + f@ + g@,
{
    let mut out = a.to_string();
    out.append(b);
    out.append(c);
    out.append(d);
    out.append(e);
    out.append(f);
    out.append(g);
    out
}

/// The 8 texts one after another.
pub fn cat8(a: &str, b: &str, c: &str, d: &str, e: &str, f: &str, g: &str, h: &str) -> (r: String)
    ensures
        r@ == a@ + b@ + c@ + d@ + e@ + f@ + g@ + h@,
{
    let mut out = a.to_string();
    out.append(b);
    out.append(c);
    out.append(d);
    out.append(e);
    out.append(f);
    out.append(g);
    out.append(h);
    out
}

/// The 9 texts one after another.
pub fn cat9(a: &str, b: &str, c: &str, d: &str, e: &str, f: &str, g: &str, h: &str, i: &str) -> (r: String)
    ensures
        r@ == a@ + b@ + c@ + d@ + e@ + f@ + g@ + h@ + i@,
{
    let mut out = a.to_string();
    out.append(b);
    out.append(c);
    out.append(d);
    out.append(e);
    out.append(f);
    out.append(g);
    out.append(h);
    out.append(i);
    out
}

/// Unicode white space, the characters that trimming removes.
pub open spec fn is_space(c: char) -> bool {
    ||| '\u{9}' <= c <= '\u{d}'
    ||| c == ' '
    ||| c == '\u{85}'
    ||| c == '\u{a0}'
    ||| c == '\u{1680}'
    ||| '\u{2000}' <= c <= '\u{200a}'
    ||| c == '\u{2028}'
    ||| c == '\u{2029}'
    ||| c == '\u{202f}'
    ||| c == '\u{205f}'
    ||| c == '\u{3000}'
}

/// Whether a character is white space.
pub fn char_is_space(c: char) -> (r: bool)
    ensures
        r == is_space(c),
{
    ('\u{9}' <= c && c <= '\u{d}') || c == ' ' || c == '\u{85}' || c == '\u{a0}' || c == '\u{1680}' || (
    '\u{2000}' <= c && c <= '\u{200a}') || c == '\u{2028}' || c == '\u{2029}' || c == '\u{202f}' || c
        == '\u{205f}' || c == '\u{3000}'
}

/// Whether a character is one of ASCII's.
pub open spec fn is_ascii(c: char) -> bool {
    c as u32 <= 127
}

pub open spec fn is_digit(c: char) -> bool {
    '0' <= c <= '9'
}

pub open spec fn is_upper(c: char) -> bool {
    'A' <= c <= 'Z'
}

pub open spec fn is_lower(c: char) -> bool {
    'a' <= c <= 'z'
}

/// The characters of an unquoted word: ASCII letters, digits and the underscore.
pub open spec fn is_word(c: char) -> bool {
    is_digit(c) || is_upper(c) || is_lower(c) || c == '_'
}

/// Whether a character may stand in an unquoted word.
pub fn is_identifier_char(ch: char) -> (r: bool)
    ensures
        r == is_word(ch),
{
    ('0' <= ch && ch <= '9') || ('A' <= ch && ch <= 'Z') || ('a' <= ch && ch <= 'z') || ch == '_'
}

/// The lower-case form of an ASCII letter; every other character unchanged.
pub open spec fn lower(c: char) -> char {
    if is_upper(c) {
        ((c as u8) + 32) as u8 as char
    } else {
        c
    }
}

/// The upper-case form of an ASCII letter; every other character unchanged.
pub open spec fn upper(c: char) -> char {
    if is_lower(c) {
        ((c as u8) - 32) as u8 as char
    } else {
        c
    }
}

pub fn char_lower(c: char) -> (r: char)
    ensures
        r == lower(c),
{
    if 'A' <= c && c <= 'Z' {
        ((c as u8) + 32) as char
    } else {
        c
    }
}

pub fn char_upper(c: char) -> (r: char)
    ensures
        r == upper(c),
{
    if 'a' <= c && c <= 'z' {
        ((c as u8) - 32) as char
    } else {
        c
    }
}

/// A text with its ASCII letters in lower case.
pub open spec fn lowered(s: Seq<char>) -> Seq<char> {
    Seq::new(s.len(), |i: int| lower(s[i]))
}

/// A text with its ASCII letters in upper case.
pub open spec fn uppered(s: Seq<char>) -> Seq<char> {
    Seq::new(s.len(), |i: int| upper(s[i]))
}

pub fn to_lower(s: &str) -> (r: String)
    ensures
        r@ == lowered(s@),
{
    let c = chars_of(s);
    let mut out = String::new();
    let mut i: usize = 0;
    while i < c.len()
        invariant
            c@ == s@,
            i <= c@.len(),
            out@ == lowered(c@.take(i as int)),
        decreases c.len() - i,
    {
        out.push(char_lower(c[i]));
        i = i + 1;
        assert(out@ =~= lowered(c@.take(i as int)));
    }
    assert(c@.take(i as int) =~= c@);
    out
}

pub fn to_upper(s: &str) -> (r: String)
    ensures
        r@ == uppered(s@),
{
    let c = chars_of(s);
    let mut out = String::new();
    let mut i: usize = 0;
    while i < c.len()
        invariant
            c@ == s@,
            i <= c@.len(),
            out@ == uppered(c@.take(i as int)),
        decreases c.len() - i,
    {
        out.push(char_upper(c[i]));
        i = i + 1;
        assert(out@ =~= uppered(c@.take(i as int)));
    }
    assert(c@.take(i as int) =~= c@);
    out
}

/// Whether two strings hold the same text.
pub fn same(a: &str, b: &str) -> (r: bool)
    ensures
        r == (a@ == b@),
{
    a.to_string() == b.to_string()
}

/// Equality that takes the two cases of an ASCII letter for the same.
pub open spec fn same_ignoring_case(a: Seq<char>, b: Seq<char>) -> bool {
    lowered(a) == lowered(b)
}

pub fn eq_ignore_case(a: &str, b: &str) -> (r: bool)
    ensures
        r == same_ignoring_case(a@, b@),
{
    same(&to_lower(a), &to_lower(b))
}

/// Whether a list holds a text, up to the case of ASCII letters.
pub open spec fn listed_ignoring_case(list: Seq<Seq<char>>, s: Seq<char>) -> bool {
    exists|i: int| 0 <= i < list.len() && #[trigger] same_ignoring_case(list[i], s)
}

pub fn contains_ignore_case(list: &Vec<String>, s: &str) -> (r: bool)
    ensures
        r == listed_ignoring_case(texts(list@), s@),
{
    let mut i: usize = 0;
    while i < list.len()
        invariant
            i <= list.len(),
            forall|j: int| 0 <= j < i ==> !(#[trigger] same_ignoring_case(texts(list@)[j], s@)),
        decreases list.len() - i,
    {
        if eq_ignore_case(list[i].as_str(), s) {
            assert(same_ignoring_case(texts(list@)[i as int], s@));
            return true;
        }
        i = i + 1;
    }
    false
}

/// A text without the white space at its start.
pub open spec fn trimmed_start(s: Seq<char>) -> Seq<char>
    decreases s.len(),
{
    if s.len() > 0 && is_space(s[0]) {
        trimmed_start(s.skip(1))
    } else {
        s
    }
}

/// A text without the white space at its end.
pub open spec fn trimmed_end(s: Seq<char>) -> Seq<char>
    decreases s.len(),
{
    if s.len() > 0 && is_space(s.last()) {
        trimmed_end(s.drop_last())
    } else {
        s
    }
}

/// A text without the white space at its two ends.
pub open spec fn trimmed(s: Seq<char>) -> Seq<char> {
    trimmed_end(trimmed_start(s))
}

pub proof fn lemma_trimmed_end(s: Seq<char>)
    ensures
        trimmed_end(s).len() <= s.len(),
        trimmed_end(s) == s.take(trimmed_end(s).len() as int),
        forall|i: int| trimmed_end(s).len() <= i < s.len() ==> is_space(#[trigger] s[i]),
        trimmed_end(s).len() > 0 ==> !is_space(trimmed_end(s).last()),
    decreases s.len(),
{
    if s.len() > 0 && is_space(s.last()) {
        lemma_trimmed_end(s.drop_last());
        assert(s.drop_last().take(trimmed_end(s).len() as int) =~= s.take(trimmed_end(s).len() as int));
        assert forall|i: int| trimmed_end(s).len() <= i < s.len() implies is_space(#[trigger] s[i]) by {
            if i < s.len() - 1 {
                assert(is_space(s.drop_last()[i]));
            }
        }
    } else {
        assert(s.take(s.len() as int) =~= s);
    }
}

proof fn lemma_trimmed_start(s: Seq<char>)
    ensures
        trimmed_start(s).len() > 0 ==> !is_space(trimmed_start(s)[0]),
    decreases s.len(),
{
    if s.len() > 0 && is_space(s[0]) {
        lemma_trimmed_start(s.skip(1));
    }
}

/// No white space is left at the ends of a trimmed text.
pub proof fn lemma_trimmed(s: Seq<char>)
    ensures
        trimmed(s).len() > 0 ==> !is_space(trimmed(s)[0]) && !is_space(trimmed(s).last()),
{
    lemma_trimmed_start(s);
    lemma_trimmed_end(trimmed_start(s));
}

/// The first position from `from` on that holds no white space, or the length.
pub open spec fn skip_space(s: Seq<char>, from: int) -> int
    decreases s.len() - from,
{
    if 0 <= from < s.len() && is_space(s[from]) {
        skip_space(s, from + 1)
    } else {
        from
    }
}

pub proof fn lemma_skip_space(s: Seq<char>, from: int)
    requires
        0 <= from <= s.len(),
    ensures
        from <= skip_space(s, from) <= s.len(),
        trimmed_start(s.skip(from)) == s.skip(skip_space(s, from)),
        forall|i: int| from <= i < skip_space(s, from) ==> is_space(#[trigger] s[i]),
        skip_space(s, from) < s.len() ==> !is_space(s[skip_space(s, from)]),
    decreases s.len() - from,
{
    if from < s.len() && is_space(s[from]) {
        lemma_skip_space(s, from + 1);
        assert(s.skip(from).skip(1) =~= s.skip(from + 1));
    }
}

/// The first position from `from` on that holds no white space.
pub fn after_space(c: &Vec<char>, from: usize) -> (r: usize)
    requires
        from <= c@.len(),
    ensures
        r == skip_space(c@, from as int),
        from <= r <= c@.len(),
{
    let mut i: usize = from;
    while i < c.len() && char_is_space(c[i])
        invariant
            from <= i <= c@.len(),
            skip_space(c@, i as int) == skip_space(c@, from as int),
        decreases c.len() - i,
    {
        i = i + 1;
    }
    i
}

pub fn trim_start(s: &str) -> (r: String)
    ensures
        r@ == trimmed_start(s@),
{
    let c = chars_of(s);
    let i = after_space(&c, 0);
    proof {
        lemma_skip_space(c@, 0);
        assert(c@.skip(0) =~= c@);
        assert(c@.skip(i as int) =~= c@.subrange(i as int, c@.len() as int));
    }
    from_chars(&c, i, c.len())
}

pub fn trim_end(s: &str) -> (r: String)
    ensures
        r@ == trimmed_end(s@),
{
    let c = chars_of(s);
    let mut n: usize = c.len();
    assert(c@.take(n as int) =~= c@);
    while n > 0 && char_is_space(c[n - 1])
        invariant
            n <= c@.len(),
            trimmed_end(c@.take(n as int)) == trimmed_end(c@),
        decreases n,
    {
        assert(c@.take(n as int).drop_last() =~= c@.take(n - 1));
        assert(c@.take(n as int).last() == c@[n - 1]);
        n = n - 1;
    }
    assert(trimmed_end(c@.take(n as int)) == c@.take(n as int)) by {
        if n > 0 {
            assert(c@.take(n as int).last() == c@[n - 1]);
        }
    }
    assert(c@.take(n as int) =~= c@.subrange(0, n as int));
    from_chars(&c, 0, n)
}

pub fn trim(s: &str) -> (r: String)
    ensures
        r@ == trimmed(s@),
{
    let t = trim_start(s);
    trim_end(&t)
}

/// A text without the leading occurrences of `c`.
pub open spec fn unpadded_start(s: Seq<char>, c: char) -> Seq<char>
    decreases s.len(),
{
    if s.len() > 0 && s[0] == c {
        unpadded_start(s.skip(1), c)
    } else {
        s
    }
}

/// A text without the trailing occurrences of `c`.
pub open spec fn unpadded_end(s: Seq<char>, c: char) -> Seq<char>
    decreases s.len(),
{
    if s.len() > 0 && s.last() == c {
        unpadded_end(s.drop_last(), c)
    } else {
        s
    }
}

/// A text without the occurrences of `c` at its two ends.
pub open spec fn unpadded(s: Seq<char>, c: char) -> Seq<char> {
    unpadded_end(unpadded_start(s, c), c)
}

pub fn trim_matches(s: &str, c: char) -> (r: String)
    ensures
        r@ == unpadded(s@, c),
{
    let v = chars_of(s);
    let mut a: usize = 0;
    assert(v@.skip(0) =~= v@);
    while a < v.len() && v[a] == c
        invariant
            a <= v@.len(),
            unpadded_start(v@.skip(a as int), c) == unpadded_start(v@, c),
        decreases v.len() - a,
    {
        assert(v@.skip(a as int).skip(1) =~= v@.skip(a + 1));
        assert(v@.skip(a as int)[0] == v@[a as int]);
        a = a + 1;
    }
    assert(unpadded_start(v@, c) == v@.skip(a as int)) by {
        if a < v@.len() {
            assert(v@.skip(a as int)[0] == v@[a as int]);
        }
    }
    let ghost rest = v@.skip(a as int);
    let mut n: usize = v.len();
    assert(v@.subrange(a as int, n as int) =~= rest);
    while n > a && v[n - 1] == c
        invariant
            a <= n <= v@.len(),
            unpadded_end(v@.subrange(a as int, n as int), c) == unpadded_end(rest, c),
        decreases n,
    {
        assert(v@.subrange(a as int, n as int).drop_last() =~= v@.subrange(a as int, n - 1));
        assert(v@.subrange(a as int, n as int).last() == v@[n - 1]);
        n = n - 1;
    }
    assert(unpadded_end(rest, c) == v@.subrange(a as int, n as int)) by {
        if n > a {
            assert(v@.subrange(a as int, n as int).last() == v@[n - 1]);
        }
    }
    from_chars(&v, a, n)
}

/// Whether `p` stands in `s` at position `i`.
pub open spec fn occurs_at(s: Seq<char>, p: Seq<char>, i: int) -> bool {
    0 <= i && i + p.len() <= s.len() && s.subrange(i, i + p.len()) == p
}

/// The first position from `from` on at which `p` stands in `s`, or -1.
pub open spec fn find_from(s: Seq<char>, p: Seq<char>, from: int) -> int
    decreases s.len() + 1 - from,
{
    if from < 0 || from + p.len() > s.len() {
        -1
    } else if occurs_at(s, p, from) {
        from
    } else {
        find_from(s, p, from + 1)
    }
}

/// Whether `p` stands anywhere in `s`.
pub open spec fn occurs(s: Seq<char>, p: Seq<char>) -> bool {
    exists|i: int| #[trigger] occurs_at(s, p, i)
}

pub open spec fn begins(s: Seq<char>, p: Seq<char>) -> bool {
    occurs_at(s, p, 0)
}

pub proof fn lemma_find(s: Seq<char>, p: Seq<char>, from: int)
    requires
        0 <= from,
    ensures
        find_from(s, p, from) == -1 ==> forall|i: int| from <= i ==> !#[trigger] occurs_at(s, p, i),
        find_from(s, p, from) != -1 ==> from <= find_from(s, p, from) && occurs_at(
            s,
            p,
            find_from(s, p, from),
        ),
    decreases s.len() + 1 - from,
{
    if from + p.len() <= s.len() && !occurs_at(s, p, from) {
        lemma_find(s, p, from + 1);
    }
}

/// Whether the characters `p` stand in `c` at position `i`.
pub fn matches_at(c: &Vec<char>, p: &Vec<char>, i: usize) -> (r: bool)
    requires
        i <= c@.len(),
    ensures
        r == occurs_at(c@, p@, i as int),
{
    if p.len() > c.len() - i {
        return false;
    }
    let mut k: usize = 0;
    let n: usize = c.len();
    while k < p.len()
        invariant
            i + p@.len() <= c@.len(),
            n == c@.len(),
            k <= p@.len(),
            forall|j: int| 0 <= j < k ==> c@[i + j] == #[trigger] p@[j],
        decreases p.len() - k,
    {
        if c[i + k] != p[k] {
            assert(c@.subrange(i as int, i + p@.len())[k as int] == c@[i + k]);
            return false;
        }
        k = k + 1;
    }
    assert(c@.subrange(i as int, i + p@.len()) =~= p@);
    true
}

/// The first position from `from` on at which `p` stands in `c`.
pub fn find_chars(c: &Vec<char>, p: &Vec<char>, from: usize) -> (r: Option<usize>)
    requires
        from <= c@.len(),
    ensures
        match r {
            Some(i) => i == find_from(c@, p@, from as int) && from <= i && i + p@.len() <= c@.len(),
            None => find_from(c@, p@, from as int) == -1,
        },
{
    let mut i: usize = from;
    while i <= c.len() && p.len() <= c.len() - i
        invariant
            from <= i <= c@.len() + 1,
            i <= c@.len() || p@.len() == 0,
            find_from(c@, p@, i as int) == find_from(c@, p@, from as int),
        decreases c.len() + 1 - i,
    {
        if matches_at(c, p, i) {
            return Some(i);
        }
        if i == c.len() {
            assert(find_from(c@, p@, i + 1) == -1);
            return None;
        }
        i = i + 1;
    }
    None
}

pub fn contains(s: &str, p: &str) -> (r: bool)
    ensures
        r == occurs(s@, p@),
{
    let c = chars_of(s);
    let q = chars_of(p);
    proof {
        lemma_find(s@, p@, 0);
    }
    match find_chars(&c, &q, 0) {
        Some(_) => true,
        None => {
            assert(!occurs(s@, p@)) by {
                assert forall|i: int| !#[trigger] occurs_at(s@, p@, i) by {
                    if i < 0 {
                    }
                }
            }
            false
        },
    }
}

pub fn starts_with(s: &str, p: &str) -> (r: bool)
    ensures
        r == begins(s@, p@),
{
    let c = chars_of(s);
    let q = chars_of(p);
    matches_at(&c, &q, 0)
}

/// A text with every `c` replaced by `with`.
pub open spec fn replaced_char(s: Seq<char>, c: char, with: Seq<char>) -> Seq<char>
    decreases s.len(),
{
    if s.len() == 0 {
        s
    } else {
        replaced_char(s.drop_last(), c, with) + if s.last() == c {
            with
        } else {
            seq![s.last()]
        }
    }
}

pub fn replace_char(s: &str, c: char, with: &str) -> (r: String)
    ensures
        r@ == replaced_char(s@, c, with@),
{
    let v = chars_of(s);
    let mut out = String::new();
    let mut i: usize = 0;
    assert(out@ =~= v@.take(0));
    while i < v.len()
        invariant
            v@ == s@,
            i <= v@.len(),
            out@ == replaced_char(v@.take(i as int), c, with@),
        decreases v.len() - i,
    {
        assert(v@.take(i + 1).drop_last() =~= v@.take(i as int));
        assert(v@.take(i + 1).last() == v@[i as int]);
        if v[i] == c {
            out.append(with);
        } else {
            let ghost before = out@;
            out.push(v[i]);
            assert(out@ =~= before + seq![v@[i as int]]);
        }
        i = i + 1;
    }
    assert(v@.take(i as int) =~= v@);
    out
}

/// The texts one after another, with a separator between neighbours.
pub open spec fn joined(parts: Seq<Seq<char>>, sep: Seq<char>) -> Seq<char>
    decreases parts.len(),
{
    if parts.len() == 0 {
        Seq::empty()
    } else if parts.len() == 1 {
        parts[0]
    } else {
        joined(parts.drop_last(), sep) + sep + parts.last()
    }
}

/// A joined list from its front.
pub proof fn lemma_joined_front(first: Seq<char>, rest: Seq<Seq<char>>, sep: Seq<char>)
    requires
        rest.len() > 0,
    ensures
        joined(seq![first] + rest, sep) == first + sep + joined(rest, sep),
    decreases rest.len(),
{
    let all = seq![first] + rest;
    assert(all.drop_last() =~= seq![first] + rest.drop_last());
    assert(all.last() == rest.last());
    if rest.len() == 1 {
        assert(all.drop_last() =~= seq![first]);
        assert(joined(seq![first], sep) == first);
        assert(joined(rest, sep) == rest[0]);
    } else {
        lemma_joined_front(first, rest.drop_last(), sep);
        assert(joined(all, sep) =~= first + sep + joined(rest, sep));
    }
}

pub fn join(parts: &Vec<String>, sep: &str) -> (r: String)
    ensures
        r@ == joined(texts(parts@), sep@),
{
    if parts.len() == 0 {
        return String::new();
    }
    let mut out = parts[0].clone();
    let mut i: usize = 1;
    let ghost all = texts(parts@);
    assert(all.take(1)[0] == parts@[0]@);
    while i < parts.len()
        invariant
            1 <= i <= parts@.len(),
            all == texts(parts@),
            out@ == joined(all.take(i as int), sep@),
        decreases parts.len() - i,
    {
        assert(all.take(i + 1).drop_last() =~= all.take(i as int));
        assert(all.take(i + 1).last() == parts@[i as int]@);
        out.append(sep);
        out.append(parts[i].as_str());
        i = i + 1;
    }
    assert(all.take(i as int) =~= all);
    out
}

/// The pieces of a text between the occurrences of `c`.
pub open spec fn split(s: Seq<char>, c: char) -> Seq<Seq<char>>
    decreases s.len(),
{
    if s.len() == 0 {
        seq![s]
    } else {
        let before = split(s.drop_last(), c);
        if s.last() == c {
            before.push(Seq::empty())
        } else {
            before.drop_last().push(before.last().push(s.last()))
        }
    }
}

pub proof fn lemma_split_nonempty(s: Seq<char>, c: char)
    ensures
        split(s, c).len() >= 1,
    decreases s.len(),
{
    if s.len() > 0 {
        lemma_split_nonempty(s.drop_last(), c);
    }
}

/// A text without the separator is one part.
pub proof fn lemma_split_whole(s: Seq<char>, c: char)
    requires
        forall|i: int| 0 <= i < s.len() ==> #[trigger] s[i] != c,
    ensures
        split(s, c) == seq![s],
    decreases s.len(),
{
    if s.len() > 0 {
        assert forall|i: int| 0 <= i < s.drop_last().len() implies #[trigger] s.drop_last()[i] != c by {
            assert(s[i] != c);
        }
        lemma_split_whole(s.drop_last(), c);
        assert(s.drop_last().push(s.last()) =~= s);
        assert(split(s, c) =~= seq![s]);
    }
}

pub fn split_on(s: &str, c: char) -> (r: Vec<String>)
    ensures
        texts(r@) == split(s@, c),
        r@.len() >= 1,
{
    let v = chars_of(s);
    let mut parts: Vec<String> = Vec::new();
    let mut current = String::new();
    let mut i: usize = 0;
    proof {
        assert(v@.take(0) =~= Seq::<char>::empty());
        assert(texts(parts@).push(current@) =~= split(v@.take(0), c));
    }
    while i < v.len()
        invariant
            v@ == s@,
            i <= v@.len(),
            texts(parts@).push(current@) == split(v@.take(i as int), c),
        decreases v.len() - i,
    {
        let ghost before = split(v@.take(i as int), c);
        assert(v@.take(i + 1).drop_last() =~= v@.take(i as int));
        assert(v@.take(i + 1).last() == v@[i as int]);
        assert(before.last() == current@);
        assert(before.drop_last() =~= texts(parts@));
        if v[i] == c {
            push_text(&mut parts, current);
            current = String::new();
        } else {
            current.push(v[i]);
        }
        i = i + 1;
    }
    assert(v@.take(i as int) =~= v@);
    push_text(&mut parts, current);
    parts
}

/// The digit that stands for a number below ten.
pub open spec fn digit(n: nat) -> char {
    if n == 0 { '0' } else if n == 1 { '1' } else if n == 2 { '2' } else if n == 3 { '3' }
    else if n == 4 { '4' } else if n == 5 { '5' } else if n == 6 { '6' } else if n == 7 { '7' }
    else if n == 8 { '8' } else { '9' }
}

/// A number in decimal, without leading zeros.
pub open spec fn decimal(n: nat) -> Seq<char>
    decreases n,
{
    if n < 10 {
        seq![digit(n)]
    } else {
        decimal(n / 10).push(digit(n % 10))
    }
}

/// A number in decimal is made of digits.
pub proof fn lemma_decimal_digits(n: nat)
    ensures
        decimal(n).len() > 0,
        forall|i: int| 0 <= i < decimal(n).len() ==> is_digit(#[trigger] decimal(n)[i]),
    decreases n,
{
    if n >= 10 {
        lemma_decimal_digits(n / 10);
    }
}

/// Different numbers are written differently.
pub proof fn lemma_decimal_injective(a: nat, b: nat)
    requires
        decimal(a) == decimal(b),
    ensures
        a == b,
    decreases a,
{
    lemma_decimal_digits(a / 10);
    lemma_decimal_digits(b / 10);
    assert(decimal(a).last() == digit(a % 10));
    assert(decimal(b).last() == digit(b % 10));
    if a >= 10 && b >= 10 {
        assert(decimal(a).drop_last() =~= decimal(a / 10));
        assert(decimal(b).drop_last() =~= decimal(b / 10));
        lemma_decimal_injective(a / 10, b / 10);
    } else if a >= 10 {
        assert(decimal(b).len() == 1);
    } else if b >= 10 {
        assert(decimal(a).len() == 1);
    }
}

fn digit_char(n: u64) -> (r: char)
    requires
        n < 10,
    ensures
        r == digit(n as nat),
{
    if n == 0 { '0' } else if n == 1 { '1' } else if n == 2 { '2' } else if n == 3 { '3' }
    else if n == 4 { '4' } else if n == 5 { '5' } else if n == 6 { '6' } else if n == 7 { '7' }
    else if n == 8 { '8' } else { '9' }
}

/// A number written in decimal.
pub fn number(n: u64) -> (r: String)
    ensures
        r@ == decimal(n as nat),
    decreases n,
{
    if n < 10 {
        let mut out = String::new();
        out.push(digit_char(n));
        assert(out@ =~= seq![digit(n as nat)]);
        out
    } else {
        let mut out = number(n / 10);
        out.push(digit_char(n % 10));
        out
    }
}

/// An integer in decimal, with a minus sign where it is negative.
pub open spec fn signed_decimal(n: int) -> Seq<char> {
    if n < 0 {
        "-"@ + decimal((-n) as nat)
    } else {
        decimal(n as nat)
    }
}

/// An integer written in decimal.
pub fn signed_number(n: i64) -> (r: String)
    ensures
        r@ == signed_decimal(n as int),
{
    if n < 0 {
        let m: u64 = if n == i64::MIN {
            9223372036854775808u64
        } else {
            (-n) as u64
        };
        cat2("-", number(m).as_str())
    } else {
        number(n as u64)
    }
}

/// A number in decimal with zeros in front up to a width.
pub open spec fn padded(n: nat, width: nat) -> Seq<char> {
    let digits = decimal(n);
    if digits.len() >= width {
        digits
    } else {
        Seq::new((width - digits.len()) as nat, |i: int| '0') + digits
    }
}

/// A number written in decimal with zeros in front up to a width.
pub fn pad(n: u64, width: usize) -> (r: String)
    ensures
        r@ == padded(n as nat, width as nat),
{
    let digits = number(n);
    let len: usize = digits.as_str().unicode_len();
    if len >= width {
        return digits;
    }
    let mut out = String::new();
    let mut i: usize = len;
    while i < width
        invariant
            len <= i <= width,
            out@ =~= Seq::new((i - len) as nat, |j: int| '0'),
        decreases width - i,
    {
        out.push('0');
        i = i + 1;
    }
    out.append(digits.as_str());
    out
}

/// A text with every occurrence of `from`, found from left to right, replaced.
pub open spec fn replaced_text(s: Seq<char>, from: Seq<char>, with: Seq<char>) -> Seq<char>
    decreases s.len(),
{
    let i = find_from(s, from, 0);
    if from.len() == 0 || i < 0 || i + from.len() > s.len() {
        s
    } else {
        s.take(i) + with + replaced_text(s.skip(i + from.len()), from, with)
    }
}

/// Replaces every occurrence of a text that is not empty.
pub fn replace_text(s: &str, from: &str, with: &str) -> (r: String)
    requires
        from@.len() > 0,
    ensures
        r@ == replaced_text(s@, from@, with@),
    decreases s@.len(),
{
    let c = chars_of(s);
    let p = chars_of(from);
    proof {
        lemma_find(c@, p@, 0);
    }
    match find_chars(&c, &p, 0) {
        None => s.to_string(),
        Some(i) => {
            let n: usize = c.len();
            let head = from_chars(&c, 0, i);
            let rest = from_chars(&c, i + p.len(), n);
            assert(head@ =~= s@.take(i as int));
            assert(rest@ =~= s@.skip(i + from@.len()));
            let tail = replace_text(rest.as_str(), from, with);
            cat3(head.as_str(), with, tail.as_str())
        },
    }
}

/// How often a text occurs, counted from left to right without overlap.
pub open spec fn occurrences(s: Seq<char>, p: Seq<char>) -> nat
    decreases s.len(),
{
    let i = find_from(s, p, 0);
    if p.len() == 0 || i < 0 || i + p.len() > s.len() {
        0
    } else {
        1 + occurrences(s.skip(i + p.len()), p)
    }
}

/// A shorter rest of a text holds no more occurrences.
pub proof fn lemma_occurrences_shrink(s: Seq<char>, p: Seq<char>, d: int)
    requires
        0 <= d <= s.len(),
        p.len() > 0,
    ensures
        occurrences(s.skip(d), p) <= occurrences(s, p),
    decreases s.len(),
{
    let t = s.skip(d);
    let f = find_from(s, p, 0);
    let g = find_from(t, p, 0);
    lemma_find(s, p, 0);
    lemma_find(t, p, 0);
    if g >= 0 {
        assert(t.subrange(g, g + p.len()) =~= s.subrange(d + g, d + g + p.len()));
        assert(occurs_at(s, p, d + g));
        lemma_find_first(s, p, 0, d + g);
        let rest = s.skip(f + p.len());
        lemma_occurrences_shrink(rest, p, d + g - f);
        assert(rest.skip(d + g - f) =~= t.skip(g + p.len()));
    }
}

/// The first position is no later than any other.
pub proof fn lemma_find_first(s: Seq<char>, p: Seq<char>, from: int, i: int)
    requires
        0 <= from <= i,
        occurs_at(s, p, i),
    ensures
        from <= find_from(s, p, from) <= i,
        occurs_at(s, p, find_from(s, p, from)),
    decreases i - from,
{
    if !occurs_at(s, p, from) {
        lemma_find_first(s, p, from + 1, i);
    }
}

/// Two texts in a row hold at least the occurrences of both.
pub proof fn lemma_occurrences_add(s: Seq<char>, t: Seq<char>, p: Seq<char>)
    requires
        p.len() > 0,
    ensures
        occurrences(s, p) + occurrences(t, p) <= occurrences(s + t, p),
    decreases s.len(),
{
    let f = find_from(s, p, 0);
    lemma_find(s, p, 0);
    if f < 0 {
        lemma_occurrences_shrink(s + t, p, s.len() as int);
        assert((s + t).skip(s.len() as int) =~= t);
    } else {
        assert((s + t).subrange(f, f + p.len()) =~= s.subrange(f, f + p.len()));
        lemma_find_first(s + t, p, 0, f);
        let g = find_from(s + t, p, 0);
        assert(s.subrange(g, g + p.len()) =~= (s + t).subrange(g, g + p.len()));
        assert(occurs_at(s, p, g));
        lemma_find_first(s, p, 0, g);
        let rest = s.skip(f + p.len());
        lemma_occurrences_add(rest, t, p);
        assert((s + t).skip(f + p.len()) =~= rest + t);
    }
}

/// Counts the occurrences of a text that is not empty.
pub fn count_occurrences(s: &str, p: &str) -> (r: usize)
    requires
        p@.len() > 0,
    ensures
        r == occurrences(s@, p@),
        r <= s@.len(),
    decreases s@.len(),
{
    let c = chars_of(s);
    let q = chars_of(p);
    proof {
        lemma_find(c@, q@, 0);
    }
    match find_chars(&c, &q, 0) {
        None => 0,
        Some(i) => {
            let n: usize = c.len();
            let rest = from_chars(&c, i + q.len(), n);
            assert(rest@ =~= s@.skip(i + p@.len()));
            count_occurrences(rest.as_str(), p) + 1
        },
    }
}

pub fn trim_end_matches(s: &str, c: char) -> (r: String)
    ensures
        r@ == unpadded_end(s@, c),
{
    let v = chars_of(s);
    let mut n: usize = v.len();
    assert(v@.take(n as int) =~= v@);
    while n > 0 && v[n - 1] == c
        invariant
            n <= v@.len(),
            unpadded_end(v@.take(n as int), c) == unpadded_end(v@, c),
        decreases n,
    {
        assert(v@.take(n as int).drop_last() =~= v@.take(n - 1));
        assert(v@.take(n as int).last() == v@[n - 1]);
        n = n - 1;
    }
    assert(unpadded_end(v@, c) == v@.take(n as int)) by {
        if n > 0 {
            assert(v@.take(n as int).last() == v@[n - 1]);
        }
    }
    assert(v@.take(n as int) =~= v@.subrange(0, n as int));
    from_chars(&v, 0, n)
}

/// A text without a prefix, where it begins with it.
pub open spec fn without_prefix(s: Seq<char>, p: Seq<char>) -> Option<Seq<char>> {
    if begins(s, p) {
        Some(s.skip(p.len() as int))
    } else {
        None
    }
}

pub fn strip_prefix(s: &str, p: &str) -> (r: Option<String>)
    ensures
        opt_text(r) == without_prefix(s@, p@),
{
    if starts_with(s, p) {
        let n: usize = s.unicode_len();
        let k: usize = p.unicode_len();
        assert(s@.subrange(k as int, n as int) =~= s@.skip(k as int));
        Some(slice(s, k, n))
    } else {
        None
    }
}

/// The number that a text of digits stands for.
pub open spec fn digits_value(s: Seq<char>) -> nat
    decreases s.len(),
{
    if s.len() == 0 {
        0
    } else {
        digits_value(s.drop_last()) * 10 + (s.last() as u32 - 48) as nat
    }
}

/// Whether a text is made of digits, at least one.
pub open spec fn is_number_text(s: Seq<char>) -> bool {
    s.len() > 0 && forall|i: int| 0 <= i < s.len() ==> is_digit(#[trigger] s[i])
}

/// The number that a text stands for, a plus sign in front allowed, where it fits.
pub open spec fn parsed_u32(s: Seq<char>) -> Option<u32> {
    let digits = if s.len() > 0 && s[0] == '+' {
        s.skip(1)
    } else {
        s
    };
    if is_number_text(digits) && digits_value(digits) <= u32::MAX {
        Some(digits_value(digits) as u32)
    } else {
        None
    }
}

proof fn lemma_digits_value_grows(s: Seq<char>, n: int)
    requires
        0 <= n <= s.len(),
        is_number_text(s),
    ensures
        digits_value(s.take(n)) <= digits_value(s),
    decreases s.len() - n,
{
    if n < s.len() {
        lemma_digits_value_grows(s, n + 1);
        assert(s.take(n + 1).drop_last() =~= s.take(n));
        assert(is_digit(s[n]));
        assert(s.take(n + 1).last() == s[n]);
    } else {
        assert(s.take(n) =~= s);
    }
}

/// Reads a number.
pub fn parse_u32(s: &str) -> (r: Option<u32>)
    ensures
        r == parsed_u32(s@),
{
    let c = chars_of(s);
    let n: usize = c.len();
    let start: usize = if n > 0 && c[0] == '+' {
        1
    } else {
        0
    };
    let ghost digits = c@.skip(start as int);
    assert(start == 0 ==> digits =~= s@);
    if start == n {
        return None;
    }
    let mut value: u64 = 0;
    let mut i: usize = start;
    assert(digits.take(0) =~= Seq::<char>::empty());
    while i < n
        invariant
            n == c@.len(),
            start <= i <= n,
            start < n,
            start <= 1,
            digits == c@.skip(start as int),
            forall|j: int| 0 <= j < i - start ==> is_digit(#[trigger] digits[j]),
            value == digits_value(digits.take(i - start)),
            value <= u32::MAX,
            parsed_u32(s@) == (if is_number_text(digits) && digits_value(digits) <= u32::MAX {
                Some(digits_value(digits) as u32)
            } else {
                None
            }),
        decreases n - i,
    {
        let d = c[i];
        assert(digits[i - start] == d);
        if !('0' <= d && d <= '9') {
            return None;
        }
        assert(digits.take(i - start + 1).drop_last() =~= digits.take(i - start));
        assert(digits.take(i - start + 1).last() == d);
        value = value * 10 + ((d as u32) - 48) as u64;
        i = i + 1;
        if value > 4294967295 {
            proof {
                if is_number_text(digits) {
                    lemma_digits_value_grows(digits, i - start);
                }
            }
            return None;
        }
    }
    assert(digits.take(n - start) =~= digits);
    Some(value as u32)
}

/// Whether a text does not hold a character.
pub open spec fn lacks(s: Seq<char>, c: char) -> bool {
    forall|i: int| 0 <= i < s.len() ==> #[trigger] s[i] != c
}

pub proof fn lemma_lacks_add(a: Seq<char>, b: Seq<char>, c: char)
    requires
        lacks(a, c),
        lacks(b, c),
    ensures
        lacks(a + b, c),
{
    assert forall|i: int| 0 <= i < (a + b).len() implies #[trigger] (a + b)[i] != c by {
        if i < a.len() {
            assert((a + b)[i] == a[i]);
        } else {
            assert((a + b)[i] == b[i - a.len()]);
        }
    }
}

pub proof fn lemma_lacks_part(s: Seq<char>, from: int, to: int, c: char)
    requires
        lacks(s, c),
        0 <= from <= to <= s.len(),
    ensures
        lacks(s.subrange(from, to), c),
{
    assert forall|i: int| 0 <= i < to - from implies #[trigger] s.subrange(from, to)[i] != c by {
        assert(s.subrange(from, to)[i] == s[from + i]);
    }
}

proof fn lemma_lacks_trimmed_start(s: Seq<char>, c: char)
    requires
        lacks(s, c),
    ensures
        lacks(trimmed_start(s), c),
    decreases s.len(),
{
    if s.len() > 0 && is_space(s[0]) {
        lemma_lacks_part(s, 1, s.len() as int, c);
        assert(s.skip(1) =~= s.subrange(1, s.len() as int));
        lemma_lacks_trimmed_start(s.skip(1), c);
    }
}

pub proof fn lemma_lacks_trimmed(s: Seq<char>, c: char)
    requires
        lacks(s, c),
    ensures
        lacks(trimmed(s), c),
{
    lemma_lacks_trimmed_start(s, c);
    let t = trimmed_start(s);
    lemma_trimmed_end(t);
    lemma_lacks_part(t, 0, trimmed_end(t).len() as int, c);
    assert(t.take(trimmed_end(t).len() as int) =~= t.subrange(0, trimmed_end(t).len() as int));
}

/// Whether no text of a list holds a character.
pub open spec fn all_lack(list: Seq<Seq<char>>, c: char) -> bool {
    forall|i: int| 0 <= i < list.len() ==> lacks(#[trigger] list[i], c)
}

pub proof fn lemma_lacks_joined(list: Seq<Seq<char>>, sep: Seq<char>, c: char)
    requires
        all_lack(list, c),
        lacks(sep, c),
    ensures
        lacks(joined(list, sep), c),
    decreases list.len(),
{
    if list.len() > 1 {
        assert forall|i: int| 0 <= i < list.drop_last().len() implies lacks(#[trigger] list.drop_last()[i], c) by {
            assert(lacks(list[i], c));
        }
        lemma_lacks_joined(list.drop_last(), sep, c);
        assert(lacks(list.last(), c));
        lemma_lacks_add(joined(list.drop_last(), sep), sep, c);
        lemma_lacks_add(joined(list.drop_last(), sep) + sep, list.last(), c);
    } else if list.len() == 1 {
        assert(lacks(list[0], c));
    }
}

pub proof fn lemma_lacks_split(s: Seq<char>, sep: char, c: char)
    requires
        lacks(s, c),
    ensures
        all_lack(split(s, sep), c),
    decreases s.len(),
{
    if s.len() > 0 {
        lemma_lacks_part(s, 0, s.len() - 1, c);
        assert(s.drop_last() =~= s.subrange(0, s.len() - 1));
        lemma_lacks_split(s.drop_last(), sep, c);
        lemma_split_nonempty(s.drop_last(), sep);
        let before = split(s.drop_last(), sep);
        assert(s[s.len() - 1] != c);
        assert(lacks(before.last(), c));
        assert(lacks(seq![s.last()], c));
        lemma_lacks_add(before.last(), seq![s.last()], c);
        assert(before.last().push(s.last()) =~= before.last() + seq![s.last()]);
        assert forall|i: int| 0 <= i < split(s, sep).len() implies lacks(#[trigger] split(s, sep)[i], c) by {
            if i < before.len() - 1 {
                assert(lacks(before[i], c));
            } else if s.last() == sep && i == before.len() - 1 {
                assert(lacks(before[i], c));
            }
        }
    } else {
        assert(split(s, sep)[0] == s);
    }
}

} // verus!
