//! Texts: letters, blanks, lists and quotes.
use vstd::prelude::*;

use crate::quoting::{quoted_ident, string_literal};
use crate::scan::{after_quote, masked, masked_from};
use crate::text::{
    is_lower, is_upper, joined, lacks, lower, lowered, replaced_char, split, upper, uppered,
};

verus! {

/// Small and capital letters are each other's, and every other character is left alone.
pub proof fn letters_have_two_cases(c: char)
    ensures
        is_upper(c) ==> is_lower(lower(c)) && upper(lower(c)) == c,
        is_lower(c) ==> is_upper(upper(c)) && lower(upper(c)) == c,
        !is_upper(c) ==> lower(c) == c,
        !is_lower(c) ==> upper(c) == c,
        lower('A') == 'a' && lower('Z') == 'z' && upper('a') == 'A' && upper('z') == 'Z',
{
}

/// Putting a text in one case changes no length and can be done over again.
pub proof fn cases_keep_the_length(s: Seq<char>)
    ensures
        lowered(s).len() == s.len(),
        uppered(s).len() == s.len(),
        lowered(lowered(s)) == lowered(s),
        uppered(uppered(s)) == uppered(s),
        lowered(uppered(s)) == lowered(s),
{
    assert(lowered(lowered(s)) =~= lowered(s));
    assert(uppered(uppered(s)) =~= uppered(s));
    assert(lowered(uppered(s)) =~= lowered(s));
}

/// Texts that are joined and taken apart again are the same texts.
pub proof fn joined_texts_are_taken_apart_again(a: Seq<char>, b: Seq<char>, c: char)
    requires
        lacks(a, c),
        lacks(b, c),
    ensures
        split(joined(seq![a, b], seq![c]), c) == seq![a, b],
        joined(split(a + seq![c] + b, c), seq![c]) == a + seq![c] + b,
{
    crate::laws::functions::lemma_split_two(a, b, c);
    assert(seq![a, b].drop_last() =~= seq![a]);
    assert(joined(seq![a], seq![c]) == a);
}

proof fn lemma_masked_plain(s: Seq<char>, i: int)
    requires
        0 <= i <= s.len(),
        lacks(s, '\''),
        lacks(s, '"'),
    ensures
        masked_from(s, i) == s.skip(i),
    decreases s.len() - i,
{
    if i < s.len() {
        lemma_masked_plain(s, i + 1);
        assert(seq![s[i]] + s.skip(i + 1) =~= s.skip(i));
    } else {
        assert(s.skip(i) =~= Seq::<char>::empty());
    }
}

proof fn lemma_fragment(s: Seq<char>, v: Seq<char>, q: char, i: int)
    requires
        s == seq![q] + v + seq![q],
        1 <= i <= v.len() + 1,
        lacks(v, q),
        lacks(v, '\\'),
        q != '\\',
    ensures
        after_quote(s, i, q) == s.len(),
    decreases s.len() - i,
{
    if i <= v.len() {
        assert(s[i] == v[i - 1]);
        lemma_fragment(s, v, q, i + 1);
    } else {
        assert(s[i] == q);
    }
}

/// What stands in quotes is blanked out, and nothing else is.
pub proof fn quoted_texts_are_blanked_out(s: Seq<char>, v: Seq<char>, q: char)
    requires
        q == '\'' || q == '"',
        lacks(v, q),
        lacks(v, '\\'),
    ensures
        lacks(s, '\'') && lacks(s, '"') ==> masked(s) == s,
        masked(seq![q] + v + seq![q]) == Seq::new((v.len() + 2) as nat, |i: int| ' '),
{
    if lacks(s, '\'') && lacks(s, '"') {
        lemma_masked_plain(s, 0);
        assert(s.skip(0) =~= s);
    }
    let t = seq![q] + v + seq![q];
    assert(t[0] == q);
    lemma_fragment(t, v, q, 1);
    assert(masked_from(t, t.len() as int) =~= Seq::<char>::empty());
    assert(masked(t) =~= Seq::new((v.len() + 2) as nat, |i: int| ' '));
}

proof fn lemma_nothing_replaced(s: Seq<char>, c: char, with: Seq<char>)
    requires
        lacks(s, c),
    ensures
        replaced_char(s, c, with) == s,
    decreases s.len(),
{
    if s.len() > 0 {
        assert(s.last() == s[s.len() - 1]);
        assert(lacks(s.drop_last(), c)) by {
            assert forall|i: int| 0 <= i < s.drop_last().len() implies #[trigger] s.drop_last()[i] != c by {
                assert(s.drop_last()[i] == s[i]);
            }
        }
        lemma_nothing_replaced(s.drop_last(), c, with);
        assert(s.drop_last() + seq![s.last()] =~= s);
    }
}

/// A name without double quotes, and a text without single ones, are quoted as they are.
pub proof fn plain_texts_are_quoted_as_they_are(s: Seq<char>)
    ensures
        lacks(s, '"') ==> quoted_ident(s) == seq!['"'] + s + seq!['"'],
        lacks(s, '\'') ==> string_literal(s) == seq!['\''] + s + seq!['\''],
{
    reveal_strlit("\"");
    reveal_strlit("'");
    if lacks(s, '"') {
        lemma_nothing_replaced(s, '"', "\"\""@);
        assert(quoted_ident(s) =~= seq!['"'] + s + seq!['"']);
    }
    if lacks(s, '\'') {
        lemma_nothing_replaced(s, '\'', "''"@);
        assert(string_literal(s) =~= seq!['\''] + s + seq!['\'']);
    }
}

} // verus!
