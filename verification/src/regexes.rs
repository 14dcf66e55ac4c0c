//! Pattern search, and the replacement of what a pattern found.
use vstd::prelude::*;

use crate::text::{
    all_lack, cat3, lacks, lemma_lacks_add, lemma_lacks_part, opt_text, push_text, slice, texts,
};

verus! {

/// A stretch of a text, by character positions.
#[derive(Debug)]
pub struct Span {
    pub start: usize,
    pub end: usize,
}

/// One match of a pattern: the whole match first, then its groups in order.
#[derive(Debug)]
pub struct Capture {
    pub groups: Vec<Option<Span>>,
}

impl View for Capture {
    type V = Seq<Option<(int, int)>>;

    open spec fn view(&self) -> Seq<Option<(int, int)>> {
        Seq::new(
            self.groups@.len(),
            |i: int|
                match self.groups@[i] {
                    Some(s) => Some((s.start as int, s.end as int)),
                    None => None,
                },
        )
    }
}

/// The matches of a list.
pub open spec fn founds(v: Seq<Capture>) -> Seq<Seq<Option<(int, int)>>> {
    Seq::new(v.len(), |i: int| v[i]@)
}

/// A group that, where it took part in the match, lies inside the whole match, which
/// lies inside a text of that length.
pub open spec fn group_inside(m: Seq<Option<(int, int)>>, k: int, len: int) -> bool {
    m[k] matches Some(g) ==> m[0] matches Some(whole) && 0 <= whole.0 <= g.0 <= g.1 <= whole.1 <= len
}

/// A match whose whole is there and holds every group that took part.
pub open spec fn match_inside(m: Seq<Option<(int, int)>>, len: int) -> bool {
    &&& m.len() > 0
    &&& m[0] is Some
    &&& forall|k: int| 0 <= k < m.len() ==> #[trigger] group_inside(m, k, len)
}

/// Matches that lie inside a text of that length, in order and without overlap.
pub open spec fn matches_inside(found: Seq<Seq<Option<(int, int)>>>, len: int) -> bool {
    &&& forall|i: int| 0 <= i < found.len() ==> #[trigger] match_inside(found[i], len)
    &&& forall|i: int|
        0 < i < found.len() ==> (#[trigger] found[i])[0]->Some_0.0 >= found[i - 1][0]->Some_0.1
}

/// The matches that `regex::Regex::captures_iter` finds of a pattern in a text, with
/// the positions of their groups; none where the pattern is not one.
pub uninterp spec fn regex_captures(pattern: Seq<char>, text: Seq<char>) -> Seq<
    Seq<Option<(int, int)>>,
>;

/// `regex::Regex::captures_iter`: the successive non-overlapping matches of the pattern,
/// from left to right, each with its groups. Positions count characters. The matches lie
/// inside the text, in order, and every group lies inside its match. A pattern that
/// `regex::Regex::new` refuses has no matches.
#[verifier::external_body]
pub(crate) fn captures(pattern: &str, text: &str) -> (r: Vec<Capture>)
    ensures
        founds(r@) == regex_captures(pattern@, text@),
        matches_inside(founds(r@), text@.len() as int),
{
    let re = match regex::Regex::new(pattern) {
        Ok(re) => re,
        Err(_) => return Vec::new(),
    };
    let at = |byte: usize| text[..byte].chars().count();
    re.captures_iter(text).map(|caps| Capture {
        groups: caps.iter().map(|g| g.map(|m| Span { start: at(m.start()), end: at(m.end()) })).collect(),
    }).collect()
}

/// Whether a character has a meaning in a pattern.
pub open spec fn is_meta(c: char) -> bool {
    c == '\\' || c == '.' || c == '+' || c == '*' || c == '?' || c == '(' || c == ')' || c == '|' || c == '[' || c == ']'
        || c == '{' || c == '}' || c == '^' || c == '$' || c == '#' || c == '&' || c == '-' || c == '~'
}

/// A text with a backslash before each character that has a meaning in a pattern.
pub open spec fn escaped(text: Seq<char>) -> Seq<char>
    decreases text.len(),
{
    if text.len() == 0 {
        text
    } else if is_meta(text.last()) {
        escaped(text.drop_last()).push('\\').push(text.last())
    } else {
        escaped(text.drop_last()).push(text.last())
    }
}

/// `regex::escape`: the text with a backslash before each of the 18 characters that have a
/// meaning in a pattern, which makes it the pattern of exactly that text.
#[verifier::external_body]
pub(crate) fn escape(text: &str) -> (r: String)
    ensures
        r@ == escaped(text@),
{
    regex::escape(text)
}

/// Whether a pattern matches anywhere in a text.
pub open spec fn pattern_matches(pattern: Seq<char>, text: Seq<char>) -> bool {
    regex_captures(pattern, text).len() > 0
}

pub fn is_match(pattern: &str, text: &str) -> (r: bool)
    ensures
        r == pattern_matches(pattern@, text@),
{
    captures(pattern, text).len() > 0
}

/// The text of a group of a match, where the group took part in it.
pub open spec fn group(text: Seq<char>, m: Seq<Option<(int, int)>>, k: int) -> Option<Seq<char>> {
    if 0 <= k < m.len() {
        match m[k] {
            Some(g) => Some(text.subrange(g.0, g.1)),
            None => None,
        }
    } else {
        None
    }
}

/// The text of a group, empty where the group took no part in the match.
pub open spec fn group_or_empty(text: Seq<char>, m: Seq<Option<(int, int)>>, k: int) -> Seq<char> {
    match group(text, m, k) {
        Some(s) => s,
        None => Seq::empty(),
    }
}

/// The text of the first of two groups that took part in a match.
pub open spec fn either_group(text: Seq<char>, m: Seq<Option<(int, int)>>, k: int, l: int) -> Option<
    Seq<char>,
> {
    match group(text, m, k) {
        Some(s) => Some(s),
        None => group(text, m, l),
    }
}

impl Capture {
    pub fn group(&self, text: &str, k: usize) -> (r: Option<String>)
        requires
            match_inside(self@, text@.len() as int),
        ensures
            opt_text(r) == group(text@, self@, k as int),
    {
        if k >= self.groups.len() {
            return None;
        }
        assert(group_inside(self@, k as int, text@.len() as int));
        match &self.groups[k] {
            Some(s) => Some(slice(text, s.start, s.end)),
            None => None,
        }
    }

    pub fn group_or_empty(&self, text: &str, k: usize) -> (r: String)
        requires
            match_inside(self@, text@.len() as int),
        ensures
            r@ == group_or_empty(text@, self@, k as int),
    {
        match self.group(text, k) {
            Some(s) => s,
            None => String::new(),
        }
    }

    pub fn either_group(&self, text: &str, k: usize, l: usize) -> (r: Option<String>)
        requires
            match_inside(self@, text@.len() as int),
        ensures
            opt_text(r) == either_group(text@, self@, k as int, l as int),
    {
        match self.group(text, k) {
            Some(s) => Some(s),
            None => self.group(text, l),
        }
    }

    /// The place of a group, where the group took part in the match.
    pub fn span(&self, text: &str, k: usize) -> (r: Option<Span>)
        requires
            match_inside(self@, text@.len() as int),
        ensures
            match r {
                Some(s) => k < self@.len() && self@[k as int] == Some((s.start as int, s.end as int)),
                None => k >= self@.len() || self@[k as int] is None,
            },
    {
        if k >= self.groups.len() {
            return None;
        }
        match &self.groups[k] {
            Some(s) => Some(Span { start: s.start, end: s.end }),
            None => None,
        }
    }

    /// The position at which the whole match starts.
    pub fn start(&self, text: &str) -> (r: usize)
        requires
            match_inside(self@, text@.len() as int),
        ensures
            r == self@[0]->Some_0.0,
            r <= text@.len(),
    {
        assert(group_inside(self@, 0, text@.len() as int));
        match &self.groups[0] {
            Some(s) => s.start,
            None => 0,
        }
    }

    /// The position at which the whole match ends.
    pub fn end(&self, text: &str) -> (r: usize)
        requires
            match_inside(self@, text@.len() as int),
        ensures
            r == self@[0]->Some_0.1,
            self@[0]->Some_0.0 <= r <= text@.len(),
    {
        assert(group_inside(self@, 0, text@.len() as int));
        match &self.groups[0] {
            Some(s) => s.end,
            None => 0,
        }
    }
}

/// The end of the last of the first `n` matches.
pub open spec fn end_of(found: Seq<Seq<Option<(int, int)>>>, n: int) -> int {
    if n <= 0 {
        0
    } else {
        found[n - 1][0]->Some_0.1
    }
}

/// A text up to the end of the `n`th match, the first `n` matches replaced.
pub open spec fn spliced_up_to(
    text: Seq<char>,
    found: Seq<Seq<Option<(int, int)>>>,
    with: Seq<Seq<char>>,
    n: int,
) -> Seq<char>
    decreases n,
{
    if n <= 0 {
        Seq::empty()
    } else {
        spliced_up_to(text, found, with, n - 1) + text.subrange(
            end_of(found, n - 1),
            found[n - 1][0]->Some_0.0,
        ) + with[n - 1]
    }
}

/// A text with each match replaced by its own replacement, and nothing else changed.
pub open spec fn spliced(
    text: Seq<char>,
    found: Seq<Seq<Option<(int, int)>>>,
    with: Seq<Seq<char>>,
) -> Seq<char> {
    spliced_up_to(text, found, with, found.len() as int) + text.skip(
        end_of(found, found.len() as int),
    )
}

/// Replaces each match by its own replacement.
pub fn splice(text: &str, found: &Vec<Capture>, with: &Vec<String>) -> (r: String)
    requires
        matches_inside(founds(found@), text@.len() as int),
        with@.len() == found@.len(),
    ensures
        r@ == spliced(text@, founds(found@), texts(with@)),
{
    let ghost f = founds(found@);
    let mut out = String::new();
    let mut at: usize = 0;
    let mut i: usize = 0;
    while i < found.len()
        invariant
            i <= found@.len(),
            with@.len() == found@.len(),
            f == founds(found@),
            matches_inside(f, text@.len() as int),
            at == end_of(f, i as int),
            at <= text@.len(),
            out@ == spliced_up_to(text@, f, texts(with@), i as int),
        decreases found.len() - i,
    {
        assert(match_inside(f[i as int], text@.len() as int));
        assert(group_inside(f[i as int], 0, text@.len() as int));
        let s = found[i].start(text);
        assert(at <= s) by {
            if i > 0 {
                assert(f[i as int][0]->Some_0.0 >= f[i - 1][0]->Some_0.1);
            }
        }
        out.append(slice(text, at, s).as_str());
        out.append(with[i].as_str());
        at = found[i].end(text);
        i = i + 1;
    }
    let n: usize = text.unicode_len();
    out.append(slice(text, at, n).as_str());
    assert(text@.subrange(at as int, n as int) =~= text@.skip(at as int));
    out
}

/// A text with its first match replaced.
pub open spec fn spliced_first(
    text: Seq<char>,
    found: Seq<Seq<Option<(int, int)>>>,
    with: Seq<char>,
) -> Seq<char> {
    if found.len() == 0 {
        text
    } else {
        text.take(found[0][0]->Some_0.0) + with + text.skip(found[0][0]->Some_0.1)
    }
}

/// Replaces the first match.
pub fn splice_first(text: &str, found: &Vec<Capture>, with: &str) -> (r: String)
    requires
        matches_inside(founds(found@), text@.len() as int),
    ensures
        r@ == spliced_first(text@, founds(found@), with@),
{
    if found.len() == 0 {
        return text.to_string();
    }
    assert(match_inside(founds(found@)[0], text@.len() as int));
    let start = found[0].start(text);
    let end = found[0].end(text);
    let n: usize = text.unicode_len();
    let head = slice(text, 0, start);
    let tail = slice(text, end, n);
    assert(head@ =~= text@.take(start as int));
    assert(tail@ =~= text@.skip(end as int));
    cat3(head.as_str(), with, tail.as_str())
}

/// `n` times the same replacement.
pub open spec fn constant(n: nat, s: Seq<char>) -> Seq<Seq<char>> {
    Seq::new(n, |i: int| s)
}

/// A text with every match of a list replaced by the same text.
pub open spec fn spliced_same(
    text: Seq<char>,
    found: Seq<Seq<Option<(int, int)>>>,
    with: Seq<char>,
) -> Seq<char> {
    spliced(text, found, constant(found.len(), with))
}

/// Replaces each match by the same text.
pub fn splice_same(text: &str, found: &Vec<Capture>, with: &str) -> (r: String)
    requires
        matches_inside(founds(found@), text@.len() as int),
    ensures
        r@ == spliced_same(text@, founds(found@), with@),
        forall|c: char| lacks(text@, c) && lacks(with@, c) ==> #[trigger] lacks(r@, c),
{
    proof {
        let f = founds(found@);
        let reps = constant(f.len(), with@);
        assert forall|c: char| lacks(text@, c) && lacks(with@, c) implies #[trigger] lacks(
            spliced(text@, f, reps),
            c,
        ) by {
            lemma_spliced_lacks(text@, f, reps, c);
        }
    }
    let mut reps: Vec<String> = Vec::new();
    let mut i: usize = 0;
    while i < found.len()
        invariant
            i <= found@.len(),
            reps@.len() == i,
            texts(reps@) =~= constant(i as nat, with@),
        decreases found.len() - i,
    {
        push_text(&mut reps, with.to_string());
        i = i + 1;
    }
    splice(text, found, &reps)
}

pub proof fn lemma_group_lacks(text: Seq<char>, m: Seq<Option<(int, int)>>, k: int, c: char)
    requires
        match_inside(m, text.len() as int),
        lacks(text, c),
    ensures
        lacks(group_or_empty(text, m, k), c),
        group(text, m, k) matches Some(g) ==> lacks(g, c),
{
    if 0 <= k < m.len() && m[k] is Some {
        assert(group_inside(m, k, text.len() as int));
        lemma_lacks_part(text, m[k]->Some_0.0, m[k]->Some_0.1, c);
    }
}

proof fn lemma_spliced_up_to_lacks(
    text: Seq<char>,
    found: Seq<Seq<Option<(int, int)>>>,
    with: Seq<Seq<char>>,
    n: int,
    c: char,
)
    requires
        matches_inside(found, text.len() as int),
        lacks(text, c),
        with.len() == found.len(),
        all_lack(with, c),
        0 <= n <= found.len(),
    ensures
        lacks(spliced_up_to(text, found, with, n), c),
        0 <= end_of(found, n) <= text.len(),
    decreases n,
{
    if n > 0 {
        lemma_spliced_up_to_lacks(text, found, with, n - 1, c);
        assert(match_inside(found[n - 1], text.len() as int));
        assert(group_inside(found[n - 1], 0, text.len() as int));
        let from = end_of(found, n - 1);
        let to = found[n - 1][0]->Some_0.0;
        assert(from <= to) by {
            if n > 1 {
                assert(found[n - 1][0]->Some_0.0 >= found[n - 2][0]->Some_0.1);
            }
        }
        lemma_lacks_part(text, from, to, c);
        assert(lacks(with[n - 1], c));
        let before = spliced_up_to(text, found, with, n - 1);
        lemma_lacks_add(before, text.subrange(from, to), c);
        lemma_lacks_add(before + text.subrange(from, to), with[n - 1], c);
    }
}

/// What is put together from a text and its replacements holds only what they hold.
pub proof fn lemma_spliced_lacks(
    text: Seq<char>,
    found: Seq<Seq<Option<(int, int)>>>,
    with: Seq<Seq<char>>,
    c: char,
)
    requires
        matches_inside(found, text.len() as int),
        lacks(text, c),
        with.len() == found.len(),
        all_lack(with, c),
    ensures
        lacks(spliced(text, found, with), c),
{
    let n = found.len() as int;
    lemma_spliced_up_to_lacks(text, found, with, n, c);
    lemma_lacks_part(text, end_of(found, n), text.len() as int, c);
    assert(text.skip(end_of(found, n)) =~= text.subrange(end_of(found, n), text.len() as int));
    lemma_lacks_add(spliced_up_to(text, found, with, n), text.skip(end_of(found, n)), c);
}

} // verus!
