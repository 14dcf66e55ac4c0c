//! Calls of MySQL's functions, and what else is rewritten in the text of a statement.
use vstd::prelude::*;

use crate::functions::{
    argument_calls_rewritten, call_at, calls_from, calls_renamed, calls_rewritten,
    functions_rewritten, nested_calls_rewritten, plain_call_text, string_agg_call,
    time_and_lock_calls_rewritten, Call,
};
use crate::passes::{
    derived_table, rewrite_of, rewritten, system_variable_value, unsupported_feature, Rewrite,
};
use crate::quoting::quoted_ident;
use crate::regexes::{group, pattern_matches, regex_captures, spliced, spliced_same, spliced_up_to};
use crate::scan::{closing_paren, csv, csv_from, in_front, next_comma, word_end};
use crate::text::{
    is_space, is_word, joined, lacks, lowered, same_ignoring_case, skip_space, trimmed, trimmed_end,
    trimmed_start,
};

verus! {

/// Whether a character has no part in how the arguments of a call are told apart.
pub open spec fn is_inner(c: char) -> bool {
    c != '\'' && c != '"' && c != '`' && c != '(' && c != ')' && c != ',' && c != '\\'
}

/// Whether a text is an argument of a call without quotes, parentheses and commas, and without
/// blanks around it.
pub open spec fn is_argument(a: Seq<char>) -> bool {
    a.len() > 0 && !is_space(a[0]) && !is_space(a.last()) && forall|i: int| 0 <= i < a.len() ==> is_inner(#[trigger] a[i])
}

proof fn lemma_word_ends(s: Seq<char>, i: int, e: int)
    requires
        0 <= i <= e <= s.len(),
        forall|j: int| i <= j < e ==> is_word(#[trigger] s[j]),
        e < s.len() ==> !is_word(s[e]),
    ensures
        word_end(s, i) == e,
    decreases e - i,
{
    if i < e {
        lemma_word_ends(s, i + 1, e);
    }
}

proof fn lemma_closes(s: Seq<char>, i: int, e: int)
    requires
        0 <= i <= e < s.len(),
        forall|j: int| i <= j < e ==> is_inner(#[trigger] s[j]) || s[j] == ',',
        s[e] == ')',
    ensures
        closing_paren(s, i, 1) == e,
    decreases e - i,
{
    if i < e {
        assert(is_inner(s[i]) || s[i] == ',');
        lemma_closes(s, i + 1, e);
    }
}

proof fn lemma_comma(s: Seq<char>, i: int, e: int)
    requires
        0 <= i <= e <= s.len(),
        forall|j: int| i <= j < e ==> is_inner(#[trigger] s[j]),
        e < s.len() ==> s[e] == ',',
    ensures
        next_comma(s, i, None, 0) == e,
    decreases e - i,
{
    if i < e {
        assert(is_inner(s[i]));
        lemma_comma(s, i + 1, e);
    }
}

proof fn lemma_trimmed(a: Seq<char>)
    requires
        is_argument(a),
    ensures
        trimmed(a) == a,
        trimmed(seq![' '] + a) == a,
{
    assert(trimmed_start(a) == a);
    assert(trimmed_end(a) == a);
    let s = seq![' '] + a;
    assert(s[0] == ' ');
    assert(s.skip(1) =~= a);
    assert(trimmed_start(s) == trimmed_start(s.skip(1)));
}

proof fn lemma_csv_last(s: Seq<char>, from: int, a: Seq<char>)
    requires
        is_argument(a),
        0 <= from <= s.len(),
        s.skip(from) == a || s.skip(from) == seq![' '] + a,
    ensures
        csv_from(s, from) == Ok::<Seq<Seq<char>>, crate::error::Failure>(seq![a]),
{
    let t = s.skip(from);
    assert forall|j: int| from <= j < s.len() implies is_inner(#[trigger] s[j]) by {
        assert(s[j] == t[j - from]);
        if t.len() == a.len() {
            assert(t[j - from] == a[j - from]);
        } else if j > from {
            assert(t[j - from] == a[j - from - 1]);
        } else {
            assert(t[0] == ' ');
        }
    }
    lemma_comma(s, from, s.len() as int);
    lemma_trimmed(a);
}

proof fn lemma_csv_step(s: Seq<char>, from: int, k: int, a: Seq<char>)
    requires
        is_argument(a),
        0 <= from <= k < s.len(),
        s[k] == ',',
        s.subrange(from, k) == a || s.subrange(from, k) == seq![' '] + a,
    ensures
        csv_from(s, from) == in_front(seq![a], csv_from(s, k + 1)),
{
    let t = s.subrange(from, k);
    assert forall|j: int| from <= j < k implies is_inner(#[trigger] s[j]) by {
        assert(s[j] == t[j - from]);
        if t.len() == a.len() {
            assert(t[j - from] == a[j - from]);
        } else if j > from {
            assert(t[j - from] == a[j - from - 1]);
        } else {
            assert(t[0] == ' ');
        }
    }
    lemma_comma(s, from, k);
    lemma_trimmed(a);
}

/// A list of two or three arguments is read as those arguments, in order.
pub proof fn arguments_are_read_in_order(a: Seq<char>, b: Seq<char>, c: Seq<char>)
    requires
        is_argument(a),
        is_argument(b),
        is_argument(c),
    ensures
        csv(a) == Ok::<Seq<Seq<char>>, crate::error::Failure>(seq![a]),
        csv(a + ", "@ + b) == Ok::<Seq<Seq<char>>, crate::error::Failure>(seq![a, b]),
        csv(a + ", "@ + b + ", "@ + c) == Ok::<Seq<Seq<char>>, crate::error::Failure>(seq![a, b, c]),
{
    reveal_strlit(", ");
    assert(a.skip(0) =~= a);
    lemma_csv_last(a, 0, a);
    let n = a.len() as int;
    let two = a + ", "@ + b;
    assert(two.subrange(0, n) =~= a);
    assert(two[n] == ',');
    lemma_csv_step(two, 0, n, a);
    assert(two.skip(n + 1) =~= seq![' '] + b);
    lemma_csv_last(two, n + 1, b);
    assert(seq![a] + seq![b] =~= seq![a, b]);
    let three = two + ", "@ + c;
    let m = two.len() as int;
    assert(three.subrange(0, n) =~= a);
    assert(three[n] == ',');
    lemma_csv_step(three, 0, n, a);
    assert(three.subrange(n + 1, m) =~= seq![' '] + b);
    assert(three[m] == ',');
    lemma_csv_step(three, n + 1, m, b);
    assert(three.skip(m + 1) =~= seq![' '] + c);
    lemma_csv_last(three, m + 1, c);
    assert(seq![b] + seq![c] =~= seq![b, c]);
    assert(seq![a] + seq![b, c] =~= seq![a, b, c]);
}

/// A call, with its name and its arguments.
pub open spec fn written_call(name: Seq<char>, args: Seq<char>) -> Seq<char> {
    name + "("@ + args + ")"@
}

proof fn lemma_call(name: Seq<char>, args: Seq<char>, call: Call)
    requires
        name.len() > 0,
        forall|i: int| 0 <= i < name.len() ==> is_word(#[trigger] name[i]),
        same_ignoring_case(name, crate::functions::call_name(call)),
        forall|i: int| 0 <= i < args.len() ==> is_inner(#[trigger] args[i]) || args[i] == ',',
        !(call is GroupConcat),
        csv(args) is Ok,
        plain_call_text(call, csv(args)->Ok_0) is Some,
    ensures
        calls_rewritten(written_call(name, args), call) == (plain_call_text(call, csv(args)->Ok_0)->Some_0, true),
{
    reveal_strlit("(");
    reveal_strlit(")");
    let s = written_call(name, args);
    let n = name.len() as int;
    let e = s.len() - 1;
    assert forall|j: int| 0 <= j < n implies is_word(#[trigger] s[j]) by {
        assert(s[j] == name[j]);
    }
    assert(s[n] == '(');
    lemma_word_ends(s, 0, n);
    assert(s.subrange(0, n) =~= name);
    assert(skip_space(s, n) == n);
    assert forall|j: int| n + 1 <= j < e implies is_inner(#[trigger] s[j]) || s[j] == ',' by {
        assert(s[j] == args[j - n - 1]);
    }
    assert(s[e] == ')');
    lemma_closes(s, n + 1, e);
    assert(s.subrange(n + 1, e) =~= args);
    let text = plain_call_text(call, csv(args)->Ok_0)->Some_0;
    assert(call_at(s, 0, call) == Some((text, e + 1)));
    assert(is_word(s[0]));
    assert(calls_from(s, e + 1, call) == (Seq::<char>::empty(), false));
    assert(text + Seq::<char>::empty() =~= text);
}

proof fn lemma_list_is_inner(a: Seq<char>, b: Seq<char>, c: Seq<char>)
    requires
        is_argument(a),
        is_argument(b),
        is_argument(c),
    ensures
        forall|i: int|
            0 <= i < (a + ", "@ + b).len() ==> is_inner(#[trigger] (a + ", "@ + b)[i]) || (a + ", "@ + b)[i] == ',',
        forall|i: int|
            0 <= i < (a + ", "@ + b + ", "@ + c).len() ==> is_inner(#[trigger] (a + ", "@ + b + ", "@ + c)[i]) || (a + ", "@
                + b + ", "@ + c)[i] == ',',
{
    reveal_strlit(", ");
    let two = a + ", "@ + b;
    let n = a.len() as int;
    assert forall|i: int| 0 <= i < two.len() implies is_inner(#[trigger] two[i]) || two[i] == ',' by {
        if i < n {
            assert(two[i] == a[i]);
        } else if i < n + 2 {
            assert(two[i] == ", "@[i - n]);
        } else {
            assert(two[i] == b[i - n - 2]);
        }
    }
    let three = two + ", "@ + c;
    let m = two.len() as int;
    assert forall|i: int| 0 <= i < three.len() implies is_inner(#[trigger] three[i]) || three[i] == ',' by {
        if i < m {
            assert(three[i] == two[i]);
        } else if i < m + 2 {
            assert(three[i] == ", "@[i - m]);
        } else {
            assert(three[i] == c[i - m - 2]);
        }
    }
}

/// INSTR(text, part), however it is spelled, looks for its second argument in its first.
pub proof fn positions_are_looked_for_in_the_first_argument(name: Seq<char>, a: Seq<char>, b: Seq<char>)
    requires
        lowered(name) == lowered("INSTR"@),
        is_argument(a),
        is_argument(b),
    ensures
        calls_rewritten(written_call(name, a + ", "@ + b), Call::Instr) == (
            "POSITION(CAST("@ + b + " AS text) IN CAST("@ + a + " AS text))"@,
            true,
        ),
{
    lemma_spelled(name, "INSTR"@);
    lemma_list_is_inner(a, b, a);
    arguments_are_read_in_order(a, b, a);
    lemma_trimmed(a);
    lemma_trimmed(b);
    lemma_call(name, a + ", "@ + b, Call::Instr);
}

proof fn lemma_spelled(name: Seq<char>, as_written: Seq<char>)
    requires
        lowered(name) == lowered(as_written),
        as_written == "INSTR"@ || as_written == "SUBSTRING_INDEX"@ || as_written == "IF"@,
    ensures
        name.len() == as_written.len(),
        name.len() > 0,
        forall|i: int| 0 <= i < name.len() ==> is_word(#[trigger] name[i]),
{
    reveal_strlit("INSTR");
    reveal_strlit("SUBSTRING_INDEX");
    reveal_strlit("IF");
    assert(lowered(name).len() == name.len() && lowered(as_written).len() == as_written.len());
    assert forall|i: int| 0 <= i < name.len() implies is_word(#[trigger] name[i]) by {
        assert(lowered(name)[i] == crate::text::lower(name[i]));
        assert(lowered(as_written)[i] == crate::text::lower(as_written[i]));
        assert(is_word(as_written[i]));
    }
}

/// IF(condition, one, other) chooses the one where the condition holds, and else the other.
pub proof fn choices_stay_on_their_side(name: Seq<char>, a: Seq<char>, b: Seq<char>, c: Seq<char>)
    requires
        lowered(name) == lowered("IF"@),
        is_argument(a),
        is_argument(b),
        is_argument(c),
    ensures
        calls_rewritten(written_call(name, a + ", "@ + b + ", "@ + c), Call::If) == (
            "(CASE WHEN "@ + a + " THEN "@ + b + " ELSE "@ + c + " END)"@,
            true,
        ),
{
    lemma_spelled(name, "IF"@);
    lemma_list_is_inner(a, b, c);
    arguments_are_read_in_order(a, b, c);
    lemma_trimmed(a);
    lemma_trimmed(b);
    lemma_trimmed(c);
    lemma_call(name, a + ", "@ + b + ", "@ + c, Call::If);
}

/// SUBSTRING_INDEX(text, delimiter, count) takes a part of the text, counted from the right where
/// the count is negative.
pub proof fn parts_are_counted_from_their_side(name: Seq<char>, a: Seq<char>, b: Seq<char>, c: Seq<char>)
    requires
        lowered(name) == lowered("SUBSTRING_INDEX"@),
        is_argument(a),
        is_argument(b),
        is_argument(c),
        c[0] != '-',
    ensures
        calls_rewritten(written_call(name, a + ", "@ + b + ", "@ + c), Call::SubstringIndex) == (
            "split_part(CAST("@ + a + " AS text), CAST("@ + b + " AS text), "@ + c + ")"@,
            true,
        ),
        calls_rewritten(written_call(name, a + ", "@ + b + ", "@ + (seq!['-'] + c)), Call::SubstringIndex) == (
            "reverse(split_part(reverse(CAST("@ + a + " AS text)), reverse(CAST("@ + b + " AS text)), "@ + c + "))"@,
            true,
        ),
{
    lemma_spelled(name, "SUBSTRING_INDEX"@);
    let d = seq!['-'] + c;
    assert(is_argument(d)) by {
        assert(d[0] == '-');
        assert(d.last() == c.last());
        assert forall|i: int| 0 <= i < d.len() implies is_inner(#[trigger] d[i]) by {
            if i > 0 {
                assert(d[i] == c[i - 1]);
            }
        }
    }
    assert(d.skip(1) =~= c);
    lemma_list_is_inner(a, b, c);
    arguments_are_read_in_order(a, b, c);
    lemma_list_is_inner(a, b, d);
    arguments_are_read_in_order(a, b, d);
    lemma_trimmed(a);
    lemma_trimmed(b);
    lemma_trimmed(c);
    lemma_trimmed(d);
    lemma_call(name, a + ", "@ + b + ", "@ + c, Call::SubstringIndex);
    lemma_call(name, a + ", "@ + b + ", "@ + d, Call::SubstringIndex);
}

proof fn lemma_nothing_to_call(s: Seq<char>, i: int, call: Call)
    requires
        0 <= i <= s.len(),
        lacks(s, '('),
        lacks(s, '\''),
        lacks(s, '"'),
        lacks(s, '`'),
    ensures
        calls_from(s, i, call) == (s.skip(i), false),
    decreases s.len() - i,
{
    if i < s.len() {
        if is_word(s[i]) {
            let e = word_end(s, i);
            lemma_word_end(s, i);
            let open = skip_space(s, e);
            assert(call_at(s, i, call) is None) by {
                if 0 <= open < s.len() {
                    assert(s[open] != '(');
                }
                lemma_skip(s, e);
            }
            lemma_nothing_to_call(s, e, call);
            assert(s.subrange(i, e) + s.skip(e) =~= s.skip(i));
        } else {
            lemma_nothing_to_call(s, i + 1, call);
            assert(seq![s[i]] + s.skip(i + 1) =~= s.skip(i));
        }
    } else {
        assert(s.skip(i) =~= Seq::<char>::empty());
    }
}

proof fn lemma_skip(s: Seq<char>, i: int)
    requires
        0 <= i,
    ensures
        skip_space(s, i) >= i,
    decreases s.len() - i,
{
    if i < s.len() && is_space(s[i]) {
        lemma_skip(s, i + 1);
    }
}

proof fn lemma_word_end(s: Seq<char>, i: int)
    requires
        0 <= i < s.len(),
        is_word(s[i]),
    ensures
        i < word_end(s, i) <= s.len(),
    decreases s.len() - i,
{
    if i + 1 < s.len() && is_word(s[i + 1]) {
        lemma_word_end(s, i + 1);
    } else {
        assert(word_end(s, i + 1) == i + 1);
    }
}

/// A text that calls nothing and quotes nothing is left alone.
pub proof fn texts_without_calls_are_kept(s: Seq<char>, call: Call)
    requires
        lacks(s, '('),
        lacks(s, '\''),
        lacks(s, '"'),
        lacks(s, '`'),
    ensures
        calls_rewritten(s, call) == (s, false),
{
    lemma_nothing_to_call(s, 0, call);
    assert(s.skip(0) =~= s);
}

/// GROUP_CONCAT keeps DISTINCT, its order and its separator, which is a comma where none is given,
/// and aggregates what it was given, as text.
pub proof fn concatenations_keep_their_parts(raw: Seq<char>, m: Seq<Option<(int, int)>>, x: Seq<char>, y: Seq<char>)
    requires
        m.len() == 5,
        m[2] is Some,
    ensures
        ({
            let distinct = match m[1] {
                Some(g) => raw.subrange(g.0, g.1),
                None => Seq::empty(),
            };
            let order = match m[3] {
                Some(g) => " ORDER BY "@ + raw.subrange(g.0, g.1),
                None => ""@,
            };
            let separator = match m[4] {
                Some(g) => raw.subrange(g.0, g.1),
                None => "','"@,
            };
            let what = raw.subrange(m[2]->Some_0.0, m[2]->Some_0.1);
            &&& csv(what) == Ok::<Seq<Seq<char>>, crate::error::Failure>(seq![x]) ==> string_agg_call(raw, seq![m]) == Some(
                "string_agg("@ + distinct + ("CAST("@ + x + " AS text)"@) + ", "@ + separator + order + ")"@,
            )
            &&& csv(what) == Ok::<Seq<Seq<char>>, crate::error::Failure>(seq![x, y]) ==> string_agg_call(raw, seq![m])
                == Some(
                "string_agg("@ + distinct + ("CONCAT("@ + (x + ", "@ + y) + ")"@) + ", "@ + separator + order + ")"@,
            )
        }),
{
    assert(seq![x, y].drop_last() =~= seq![x]);
    assert(joined(seq![x], ", "@) == x);
    assert(joined(seq![x, y], ", "@) == x + ", "@ + y);
}

/// A single match is replaced by what is put in its place, and everything around it stays.
pub proof fn one_match_is_replaced(text: Seq<char>, m: Seq<Option<(int, int)>>, with: Seq<char>)
    requires
        m.len() > 0,
        m[0] is Some,
        0 <= m[0]->Some_0.0 <= m[0]->Some_0.1 <= text.len(),
    ensures
        spliced(text, seq![m], seq![with]) == text.take(m[0]->Some_0.0) + with + text.skip(m[0]->Some_0.1),
        spliced_same(text, seq![m], with) == text.take(m[0]->Some_0.0) + with + text.skip(m[0]->Some_0.1),
        spliced(text, Seq::empty(), Seq::empty()) == text,
{
    reveal_with_fuel(spliced_up_to, 2);
    let a = m[0]->Some_0.0;
    assert(text.subrange(0, a) =~= text.take(a));
    assert(Seq::<char>::empty() + text.take(a) =~= text.take(a));
    let same = Seq::new(1, |i: int| with);
    assert(same =~= seq![with]);
    assert(text.skip(0) =~= text);
    assert(Seq::<char>::empty() + text =~= text);
    assert(spliced(text, seq![m], seq![with]) =~= text.take(a) + with + text.skip(m[0]->Some_0.1));
    assert(spliced_same(text, seq![m], with) =~= text.take(a) + with + text.skip(m[0]->Some_0.1));
}

/// Functions that PostgreSQL has under another name are called by it, with the same arguments:
/// the first such call that a text holds, where it holds calls of one of them only.
pub proof fn functions_are_called_by_their_names(d: (Seq<char>, Seq<Seq<char>>))
    ensures
        ({
            let ifnull = regex_captures(r"(?i)\bIFNULL\s*\("@, d.0);
            let now = regex_captures(r"(?i)\bNOW\s*\("@, d.0);
            let rand = regex_captures(r"(?i)\bRAND\s*\("@, d.0);
            let database = regex_captures(r"(?i)\bDATABASE\s*\("@, d.0);
            let schema = regex_captures(r"(?i)\bSCHEMA\s*\("@, d.0);
            &&& ifnull.len() == 0 && now.len() == 0 && rand.len() == 0 && database.len() == 0 && schema.len() == 0
                ==> calls_renamed(d) == d
            &&& ifnull.len() == 0 && now.len() == 0 && rand.len() == 0 && database.len() == 0 && schema.len() > 0
                ==> calls_renamed(d).0 == spliced_same(d.0, schema, "current_schema("@)
            &&& ifnull.len() == 0 && now.len() == 0 && rand.len() == 0 && database.len() > 0 && regex_captures(
                r"(?i)\bSCHEMA\s*\("@,
                spliced_same(d.0, database, "CURRENT_DATABASE("@),
            ).len() == 0 ==> calls_renamed(d).0 == spliced_same(d.0, database, "CURRENT_DATABASE("@)
            &&& ifnull.len() == 0 && now.len() == 0 && rand.len() > 0 && regex_captures(
                r"(?i)\bDATABASE\s*\("@,
                spliced_same(d.0, rand, "RANDOM("@),
            ).len() == 0 && regex_captures(r"(?i)\bSCHEMA\s*\("@, spliced_same(d.0, rand, "RANDOM("@)).len() == 0
                ==> calls_renamed(d).0 == spliced_same(d.0, rand, "RANDOM("@)
            &&& ifnull.len() == 0 && now.len() > 0 && regex_captures(
                r"(?i)\bRAND\s*\("@,
                spliced_same(d.0, now, "now("@),
            ).len() == 0 && regex_captures(r"(?i)\bDATABASE\s*\("@, spliced_same(d.0, now, "now("@)).len() == 0
                && regex_captures(r"(?i)\bSCHEMA\s*\("@, spliced_same(d.0, now, "now("@)).len() == 0
                ==> calls_renamed(d).0 == spliced_same(d.0, now, "now("@)
            &&& ifnull.len() > 0 && regex_captures(
                r"(?i)\bNOW\s*\("@,
                spliced_same(d.0, ifnull, "COALESCE("@),
            ).len() == 0 && regex_captures(r"(?i)\bRAND\s*\("@, spliced_same(d.0, ifnull, "COALESCE("@)).len() == 0
                && regex_captures(r"(?i)\bDATABASE\s*\("@, spliced_same(d.0, ifnull, "COALESCE("@)).len() == 0
                && regex_captures(r"(?i)\bSCHEMA\s*\("@, spliced_same(d.0, ifnull, "COALESCE("@)).len() == 0
                ==> calls_renamed(d).0 == spliced_same(d.0, ifnull, "COALESCE("@)
        }),
{
}

/// The text of a group of a match that took part in it.
pub open spec fn taken(text: Seq<char>, m: Seq<Option<(int, int)>>, k: int) -> Seq<char> {
    text.subrange(m[k]->Some_0.0, m[k]->Some_0.1)
}

/// What was matched is rewritten with its own parts in their right places: `LIMIT offset, count`,
/// hexadecimal literals, times, locks and paths into a document.
pub proof fn matches_keep_their_parts(text: Seq<char>, m: Seq<Option<(int, int)>>)
    requires
        m.len() == 3,
        m[0] is Some,
        m[1] is Some,
        m[2] is Some,
    ensures
        rewrite_of(Rewrite::LimitOperands, text, m) == "LIMIT "@ + taken(text, m, 2) + " OFFSET "@ + taken(text, m, 1),
        rewrite_of(Rewrite::HexLiteral, text, m) == "decode('"@ + taken(text, m, 1) + "', 'hex')"@,
        trimmed(taken(text, m, 1)).len() > 0 ==> rewrite_of(Rewrite::UnixTimestamp, text, m) == "EXTRACT(EPOCH FROM "@
            + trimmed(taken(text, m, 1)) + ")"@,
        trimmed(taken(text, m, 1)).len() == 0 ==> rewrite_of(Rewrite::UnixTimestamp, text, m)
            == "EXTRACT(EPOCH FROM CURRENT_TIMESTAMP)"@,
        rewrite_of(Rewrite::FromUnixtime, text, m) == "TO_TIMESTAMP("@ + trimmed(taken(text, m, 1)) + ")"@,
        rewrite_of(Rewrite::GetLock, text, m) == "CASE WHEN pg_try_advisory_lock(hashtextextended(CAST("@ + trimmed(
            taken(text, m, 1),
        ) + " AS text), 0)) THEN 1 ELSE 0 END"@,
        rewrite_of(Rewrite::ReleaseLock, text, m) == "CASE WHEN pg_advisory_unlock(hashtextextended(CAST("@ + trimmed(
            taken(text, m, 1),
        ) + " AS text), 0)) THEN 1 ELSE 0 END"@,
        rewrite_of(Rewrite::SelectModifier, text, m) == "SELECT "@ + taken(text, m, 1),
        lacks(taken(text, m, 2), '.') ==> rewrite_of(Rewrite::JsonExtract, text, m) == taken(text, m, 1) + " #>> '{"@
            + taken(text, m, 2) + "}'"@,
        same_ignoring_case(taken(text, m, 2), "user"@) ==> rewrite_of(Rewrite::ReservedRelation, text, m) == taken(
            text,
            m,
            1,
        ) + " "@ + quoted_ident(taken(text, m, 2)),
        !same_ignoring_case(taken(text, m, 2), "user"@) ==> rewrite_of(Rewrite::ReservedRelation, text, m) == taken(
            text,
            m,
            0,
        ),
{
    let path = taken(text, m, 2);
    if lacks(path, '.') {
        lemma_unsplit(path, '.');
        assert(joined(seq![path], ","@) == path);
    }
}

proof fn lemma_unsplit(s: Seq<char>, c: char)
    requires
        lacks(s, c),
    ensures
        crate::text::split(s, c) == seq![s],
    decreases s.len(),
{
    if s.len() > 0 {
        assert(s.last() == s[s.len() - 1]);
        let before = s.drop_last();
        assert forall|i: int| 0 <= i < before.len() implies #[trigger] before[i] != c by {
            assert(before[i] == s[i]);
        }
        lemma_unsplit(before, c);
        assert(before.push(s.last()) =~= s);
        assert(seq![before].drop_last() =~= Seq::<Seq<char>>::empty());
        assert(Seq::<Seq<char>>::empty().push(s) =~= seq![s]);
    }
}

/// A path of two steps into a document keeps both, in order.
pub proof fn paths_keep_their_steps(a: Seq<char>, b: Seq<char>)
    requires
        lacks(a, '.'),
        lacks(b, '.'),
    ensures
        joined(crate::text::split(a + seq!['.'] + b, '.'), ","@) == a + ","@ + b,
    decreases b.len(),
{
    lemma_split_two(a, b, '.');
    assert(seq![a, b].drop_last() =~= seq![a]);
    assert(joined(seq![a], ","@) == a);
}

pub proof fn lemma_split_two(a: Seq<char>, b: Seq<char>, c: char)
    requires
        lacks(a, c),
        lacks(b, c),
    ensures
        crate::text::split(a + seq![c] + b, c) == seq![a, b],
    decreases b.len(),
{
    let s = a + seq![c] + b;
    if b.len() == 0 {
        assert(s.last() == c);
        assert(s.drop_last() =~= a);
        lemma_unsplit(a, c);
        assert(b =~= Seq::<char>::empty());
        assert(seq![a].push(b) =~= seq![a, b]);
    } else {
        assert(s.last() == b.last());
        assert(b.last() == b[b.len() - 1]);
        let before = b.drop_last();
        assert forall|i: int| 0 <= i < before.len() implies #[trigger] before[i] != c by {
            assert(before[i] == b[i]);
        }
        assert(s.drop_last() =~= a + seq![c] + before);
        lemma_split_two(a, before, c);
        assert(before.push(b.last()) =~= b);
        assert(seq![a, before].drop_last() =~= seq![a]);
        assert(seq![a].push(b) =~= seq![a, b]);
    }
}

/// A system variable is read as the value that the server reports for it, however it is spelled.
pub proof fn system_variables_have_their_values(name: Seq<char>, otherwise: Seq<char>)
    ensures
        lowered(name) == "sql_mode"@ ==> system_variable_value(name, otherwise) == "'NO_AUTO_VALUE_ON_ZERO'"@,
        lowered(name) == "version"@ ==> system_variable_value(name, otherwise) == "'11.8.7-MariaDB-ubu2404'"@,
        lowered(name) == "version_comment"@ ==> system_variable_value(name, otherwise) == "'MariaDB Server'"@,
        lowered(name) == "collation_connection"@ ==> system_variable_value(name, otherwise) == "'utf8mb4_general_ci'"@,
        lowered(name) == "transaction_isolation"@ || lowered(name) == "tx_isolation"@ ==> system_variable_value(
            name,
            otherwise,
        ) == "'REPEATABLE-READ'"@,
        lowered(name) == "secure_file_priv"@ ==> system_variable_value(name, otherwise) == "NULL::text"@,
        lowered(name) == "autocommit"@ ==> system_variable_value(name, otherwise) == otherwise,
{
    reveal_strlit("sql_mode");
    reveal_strlit("version");
    reveal_strlit("version_comment");
    reveal_strlit("collation_connection");
    reveal_strlit("transaction_isolation");
    reveal_strlit("tx_isolation");
    reveal_strlit("secure_file_priv");
    reveal_strlit("autocommit");
    assert("sql_mode"@.len() == 8);
    assert("version"@.len() == 7);
    assert("version_comment"@.len() == 15);
    assert("collation_connection"@.len() == 20);
    assert("transaction_isolation"@.len() == 21);
    assert("tx_isolation"@.len() == 12);
    assert("secure_file_priv"@.len() == 16);
    assert("autocommit"@.len() == 10);
}

/// A catalog table is known by the alias that it is given, or else by its own name, and the word
/// behind it is no alias where it starts the next clause.
pub proof fn catalog_tables_keep_their_alias(view: Seq<char>, name: Seq<char>, alias: Seq<char>, after: Seq<char>)
    ensures
        derived_table(view, name, None, after) == view + name + after,
        lowered(alias) == "c"@ || lowered(alias) == "col"@ ==> derived_table(view, name, Some(alias), after) == view + alias,
        lowered(alias) == "where"@ || lowered(alias) == "join"@ || lowered(alias) == "order"@ || lowered(alias) == "limit"@
            || lowered(alias) == "group"@ || lowered(alias) == "left"@ || lowered(alias) == "inner"@ || lowered(alias)
            == "on"@ || lowered(alias) == "union"@ || lowered(alias) == "having"@ ==> derived_table(
            view,
            name,
            Some(alias),
            after,
        ) == view + name + after,
{
    reveal_strlit("c");
    reveal_strlit("col");
    assert("c"@.len() == 1);
    assert("col"@.len() == 3);
    reveal_strlit("where");
    reveal_strlit("on");
    reveal_strlit("join");
    reveal_strlit("inner");
    reveal_strlit("left");
    reveal_strlit("right");
    reveal_strlit("cross");
    reveal_strlit("full");
    reveal_strlit("natural");
    reveal_strlit("order");
    reveal_strlit("group");
    reveal_strlit("having");
    reveal_strlit("limit");
    reveal_strlit("offset");
    reveal_strlit("union");
    reveal_strlit("except");
    reveal_strlit("intersect");
    reveal_strlit("using");
    reveal_strlit("fetch");
    reveal_strlit("for");
    reveal_strlit("window");
    assert("for"@.len() == 3 && "for"@[0] == 'f' && "col"@[0] == 'c');
    assert("where"@.len() == 5 && "on"@.len() == 2 && "join"@.len() == 4 && "inner"@.len() == 5 && "left"@.len() == 4);
    assert("right"@.len() == 5 && "cross"@.len() == 5 && "full"@.len() == 4 && "natural"@.len() == 7);
    assert("order"@.len() == 5 && "group"@.len() == 5 && "having"@.len() == 6 && "limit"@.len() == 5);
    assert("offset"@.len() == 6 && "union"@.len() == 5 && "except"@.len() == 6 && "intersect"@.len() == 9);
    assert("using"@.len() == 5 && "fetch"@.len() == 5 && "window"@.len() == 6);
}

/// Features that PostgreSQL lacks are refused, and a text without any of them is not.
pub proof fn missing_features_are_refused(s: Seq<char>)
    ensures
        pattern_matches(r"(?i)\bREPLACE\s+INTO\b"@, s) || pattern_matches(r"(?i)\bON\s+DUPLICATE\s+KEY\s+UPDATE\b"@, s)
            || pattern_matches(r"(?i)\bSQL_CALC_FOUND_ROWS\b"@, s) || pattern_matches(r"(?i)\bSTRAIGHT_JOIN\b"@, s)
            || pattern_matches(r"(?i)\bLOCK\s+IN\s+SHARE\s+MODE\b"@, s) || pattern_matches(
            r"(?i)\bAUTO_INCREMENT\b"@,
            s,
        ) || pattern_matches(r"(?i)\bUNSIGNED\b"@, s) <==> unsupported_feature(s) is Some,
{
}

/// Each of the calls that are rewritten is rewritten in a statement, whichever it is, and a statement
/// that has none of them stays.
pub proof fn calls_are_rewritten_in_a_statement(d: (Seq<char>, Seq<Seq<char>>), x: Seq<char>)
    requires
        forall|c: Call| !(#[trigger] calls_rewritten(x, c)).1,
    ensures
        calls_rewritten(d.0, Call::Instr) == (x, true) ==> argument_calls_rewritten(d).0 == x,
        !calls_rewritten(d.0, Call::Instr).1 && calls_rewritten(d.0, Call::SubstringIndex) == (x, true)
            ==> argument_calls_rewritten(d).0 == x,
        !calls_rewritten(d.0, Call::Instr).1 && !calls_rewritten(d.0, Call::SubstringIndex).1 && calls_rewritten(
            d.0,
            Call::GroupConcat,
        ) == (x, true) ==> argument_calls_rewritten(d).0 == x,
        !calls_rewritten(d.0, Call::Instr).1 && !calls_rewritten(d.0, Call::SubstringIndex).1 && !calls_rewritten(
            d.0,
            Call::GroupConcat,
        ).1 && calls_rewritten(d.0, Call::If) == (x, true) ==> argument_calls_rewritten(d).0 == x,
        d.0 == x ==> argument_calls_rewritten(d) == d,
{
    reveal_with_fuel(nested_calls_rewritten, 3);
    assert(!calls_rewritten(x, Call::Instr).1);
    assert(!calls_rewritten(x, Call::SubstringIndex).1);
    assert(!calls_rewritten(x, Call::GroupConcat).1);
    assert(!calls_rewritten(x, Call::If).1);
}

/// Calls about time and locks are looked for by their own names, one after the other.
pub proof fn time_and_lock_calls_are_found_by_name(d: (Seq<char>, Seq<Seq<char>>))
    ensures
        ({
            let unix = regex_captures(r"(?i)\bUNIX_TIMESTAMP\s*\(([^\)]*)\)"@, d.0);
            let from = regex_captures(r"(?i)\bFROM_UNIXTIME\s*\(([^\)]*)\)"@, d.0);
            let get = regex_captures(r"(?i)\bGET_LOCK\s*\(\s*([^,]+?)\s*,\s*([^)]+?)\s*\)"@, d.0);
            let release = regex_captures(r"(?i)\bRELEASE_LOCK\s*\(\s*([^)]+?)\s*\)"@, d.0);
            &&& unix.len() == 0 && from.len() == 0 && get.len() == 0 && release.len() == 0 ==> time_and_lock_calls_rewritten(d)
                == d
            &&& unix.len() == 0 && from.len() == 0 && get.len() == 0 && release.len() > 0 ==> time_and_lock_calls_rewritten(
                d,
            ).0 == rewritten(Rewrite::ReleaseLock, d.0, release)
            &&& unix.len() == 0 && from.len() == 0 && get.len() > 0 && regex_captures(
                r"(?i)\bRELEASE_LOCK\s*\(\s*([^)]+?)\s*\)"@,
                rewritten(Rewrite::GetLock, d.0, get),
            ).len() == 0 ==> time_and_lock_calls_rewritten(d).0 == rewritten(Rewrite::GetLock, d.0, get)
        }),
        functions_rewritten(d) == time_and_lock_calls_rewritten(argument_calls_rewritten(calls_renamed(d))),
{
}

/// JSON_EXTRACT, system variables and reserved names are looked for by their own patterns.
pub proof fn other_rewrites_are_found_by_pattern(d: (Seq<char>, Seq<Seq<char>>))
    ensures
        ({
            let json = regex_captures(
                r#"(?i)JSON_EXTRACT\s*\(\s*([A-Za-z0-9_\.\"]+)\s*,\s*'\$\.([^']+)'\s*\)"#@,
                d.0,
            );
            &&& json.len() == 0 ==> crate::passes::json_rewritten(d) == d
            &&& json.len() > 0 ==> crate::passes::json_rewritten(d).0 == rewritten(Rewrite::JsonExtract, d.0, json)
        }),
{
}

/// TRUE and FALSE are put in capitals, and other words are left alone.
pub proof fn truth_values_are_put_in_capitals(w: Seq<char>)
    requires
        w.len() > 0,
        forall|i: int| 0 <= i < w.len() ==> is_word(#[trigger] w[i]),
    ensures
        lowered(w) == lowered("true"@) ==> crate::scan::with_boolean_literals(w) == "TRUE"@,
        lowered(w) == lowered("false"@) ==> crate::scan::with_boolean_literals(w) == "FALSE"@,
        lowered(w) != lowered("true"@) && lowered(w) != lowered("false"@) ==> crate::scan::with_boolean_literals(w) == w,
        forall|q: char|
            (q == '\'' || q == '"' || q == '`') ==> #[trigger] crate::scan::with_boolean_literals(seq![q] + w + seq![q]) == seq![q]
                + w + seq![q],
{
    let n = w.len() as int;
    lemma_word_ends(w, 0, n);
    assert(w.subrange(0, n) =~= w);
    assert(is_word(w[0]));
    assert(crate::scan::booleans_from(w, n) =~= Seq::<char>::empty());
    reveal_strlit("true");
    reveal_strlit("false");
    assert(lowered("true"@).len() == 4 && lowered("false"@).len() == 5);
    assert("TRUE"@ + Seq::<char>::empty() =~= "TRUE"@);
    assert("FALSE"@ + Seq::<char>::empty() =~= "FALSE"@);
    assert(w + Seq::<char>::empty() =~= w);
    assert forall|q: char| (q == '\'' || q == '"' || q == '`') implies #[trigger] crate::scan::with_boolean_literals(
        seq![q] + w + seq![q],
    ) == seq![q] + w + seq![q] by {
        let s = seq![q] + w + seq![q];
        lemma_plain_fragment(s, w, q, 1);
        assert(s[0] == q);
        let e = s.len() as int;
        assert(s.subrange(0, e) =~= s);
        assert(crate::scan::booleans_from(s, e) =~= Seq::<char>::empty());
        assert(s + Seq::<char>::empty() =~= s);
    }
}

proof fn lemma_plain_fragment(s: Seq<char>, w: Seq<char>, q: char, i: int)
    requires
        s == seq![q] + w + seq![q],
        !is_word(q),
        forall|j: int| 0 <= j < w.len() ==> is_word(#[trigger] w[j]),
        1 <= i <= w.len() + 1,
    ensures
        crate::scan::after_plain_quote(s, i, q) == s.len(),
    decreases s.len() - i,
{
    if i <= w.len() {
        assert(s[i] == w[i - 1]);
        assert(is_word(w[i - 1]));
        lemma_plain_fragment(s, w, q, i + 1);
    } else {
        assert(s[i] == q);
    }
}

/// Calls inside calls are rewritten too: a statement is gone over again until nothing is left.
pub proof fn inner_calls_are_rewritten_too(d: (Seq<char>, Seq<Seq<char>>), x: Seq<char>, y: Seq<char>, z: Seq<char>)
    requires
        calls_rewritten(d.0, Call::If) == (x, true),
    ensures
        !calls_rewritten(x, Call::If).1 ==> crate::functions::if_pass(d).0 == x,
        calls_rewritten(x, Call::If) == (y, true) && !calls_rewritten(y, Call::If).1 ==> crate::functions::if_pass(d).0 == y,
        calls_rewritten(x, Call::If) == (y, true) && calls_rewritten(y, Call::If) == (z, true) && !calls_rewritten(
            z,
            Call::If,
        ).1 ==> crate::functions::if_pass(d).0 == z,
{
    reveal_with_fuel(nested_calls_rewritten, 5);
}

/// Of two matches each is replaced by what is put in its own place, and the text before, between and
/// behind them stays.
pub proof fn two_matches_are_replaced(
    text: Seq<char>,
    m: Seq<Option<(int, int)>>,
    n: Seq<Option<(int, int)>>,
    a: Seq<char>,
    b: Seq<char>,
)
    requires
        m.len() > 0,
        m[0] is Some,
        n.len() > 0,
        n[0] is Some,
        0 <= m[0]->Some_0.0 <= m[0]->Some_0.1 <= n[0]->Some_0.0 <= n[0]->Some_0.1 <= text.len(),
    ensures
        spliced(text, seq![m, n], seq![a, b]) == text.take(m[0]->Some_0.0) + a + text.subrange(
            m[0]->Some_0.1,
            n[0]->Some_0.0,
        ) + b + text.skip(n[0]->Some_0.1),
{
    reveal_with_fuel(spliced_up_to, 3);
    let k = m[0]->Some_0.0;
    assert(text.subrange(0, k) =~= text.take(k));
    assert(Seq::<char>::empty() + text.take(k) =~= text.take(k));
    assert(spliced(text, seq![m, n], seq![a, b]) =~= text.take(k) + a + text.subrange(m[0]->Some_0.1, n[0]->Some_0.0) + b
        + text.skip(n[0]->Some_0.1));
}

/// A group is the text between its ends; of two groups the first that took part counts.
pub proof fn groups_are_the_text_between_their_ends(text: Seq<char>, m: Seq<Option<(int, int)>>)
    requires
        m.len() == 3,
    ensures
        m[1] is Some ==> group(text, m, 1) == Some(text.subrange(m[1]->Some_0.0, m[1]->Some_0.1)),
        m[1] is None ==> group(text, m, 1) is None,
        m[1] is Some ==> crate::regexes::either_group(text, m, 1, 2) == group(text, m, 1),
        m[1] is None ==> crate::regexes::either_group(text, m, 1, 2) == group(text, m, 2),
        group(text, m, 3) is None,
{
}

} // verus!
