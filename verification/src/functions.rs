//! MySQL function calls as PostgreSQL writes them.
use vstd::prelude::*;

use crate::passes::{pass, passed, replace_pass, replaced_pass, Draft, Rewrite};
use crate::passes::{FROM_UNIXTIME_CALL, GET_LOCK_CALL, RELEASE_LOCK_CALL, UNIX_TIMESTAMP_CALL};
use crate::regexes::{
    captures, founds, group, group_or_empty, lemma_group_lacks, match_inside, matches_inside,
    regex_captures, Capture,
};
use crate::scan::{
    after_quote, closing_paren, csv, find_matching_paren, lemma_assoc, lemma_list_lacks,
    skip_quoted, skip_word, split_sql_csv, word_end,
};
use crate::text::{
    after_space, all_lack, cat2, cat3, cat5, cat7, chars_of, eq_ignore_case, from_chars,
    is_identifier_char, is_word, join, joined, lacks, lemma_lacks_add, lemma_lacks_joined,
    lemma_lacks_part, lemma_lacks_trimmed, opt_text, push_text, same_ignoring_case, skip_space,
    slice, texts, trim, trimmed,
};

verus! {

/// The functions whose calls are rewritten with their arguments.
#[derive(Clone, Copy)]
pub enum Call {
    Instr,
    SubstringIndex,
    If,
    GroupConcat,
}

/// The name under which a function is called.
pub open spec fn call_name(call: Call) -> Seq<char> {
    match call {
        Call::Instr => "INSTR"@,
        Call::SubstringIndex => "SUBSTRING_INDEX"@,
        Call::If => "IF"@,
        Call::GroupConcat => "GROUP_CONCAT"@,
    }
}

fn name_of_call(call: Call) -> (r: &'static str)
    ensures
        r@ == call_name(call),
{
    match call {
        Call::Instr => "INSTR",
        Call::SubstringIndex => "SUBSTRING_INDEX",
        Call::If => "IF",
        Call::GroupConcat => "GROUP_CONCAT",
    }
}

/// The parts of the argument of GROUP_CONCAT: DISTINCT, the expressions, the order and
/// the separator.
pub const GROUP_CONCAT_PARTS: &'static str =
    r"(?is)^\s*(DISTINCT\s+)?(.*?)(?:\s+ORDER\s+BY\s+(.*?))?(?:\s+SEPARATOR\s+('(?:[^']|'')*'))?\s*$";

proof fn lemma_words_lack()
    ensures
        lacks("CAST("@, '`'),
        lacks(" AS text)"@, '`'),
        lacks("CONCAT("@, '`'),
        lacks(", "@, '`'),
        lacks(")"@, '`'),
        lacks("','"@, '`'),
        lacks(" ORDER BY "@, '`'),
        lacks(""@, '`'),
        lacks("string_agg("@, '`'),
        lacks("POSITION(CAST("@, '`'),
        lacks(" AS text) IN CAST("@, '`'),
        lacks(" AS text))"@, '`'),
        lacks("reverse(split_part(reverse(CAST("@, '`'),
        lacks(" AS text)), reverse(CAST("@, '`'),
        lacks(" AS text)), "@, '`'),
        lacks("))"@, '`'),
        lacks("split_part(CAST("@, '`'),
        lacks(" AS text), CAST("@, '`'),
        lacks(" AS text), "@, '`'),
        lacks("(CASE WHEN "@, '`'),
        lacks(" THEN "@, '`'),
        lacks(" ELSE "@, '`'),
        lacks(" END)"@, '`'),
        lacks("COALESCE("@, '`'),
        lacks("now("@, '`'),
        lacks("RANDOM("@, '`'),
        lacks("CURRENT_DATABASE("@, '`'),
        lacks("current_schema("@, '`'),
{
    reveal_strlit("CAST(");
    reveal_strlit(" AS text)");
    reveal_strlit("CONCAT(");
    reveal_strlit(", ");
    reveal_strlit(")");
    reveal_strlit("','");
    reveal_strlit(" ORDER BY ");
    reveal_strlit("");
    reveal_strlit("string_agg(");
    reveal_strlit("POSITION(CAST(");
    reveal_strlit(" AS text) IN CAST(");
    reveal_strlit(" AS text))");
    reveal_strlit("reverse(split_part(reverse(CAST(");
    reveal_strlit(" AS text)), reverse(CAST(");
    reveal_strlit(" AS text)), ");
    reveal_strlit("))");
    reveal_strlit("split_part(CAST(");
    reveal_strlit(" AS text), CAST(");
    reveal_strlit(" AS text), ");
    reveal_strlit("(CASE WHEN ");
    reveal_strlit(" THEN ");
    reveal_strlit(" ELSE ");
    reveal_strlit(" END)");
    reveal_strlit("COALESCE(");
    reveal_strlit("now(");
    reveal_strlit("RANDOM(");
    reveal_strlit("CURRENT_DATABASE(");
    reveal_strlit("current_schema(");
}

proof fn lemma_three(a: Seq<char>, b: Seq<char>, c: Seq<char>)
    requires
        lacks(a, '`'),
        lacks(b, '`'),
        lacks(c, '`'),
    ensures
        lacks(a + b + c, '`'),
{
    lemma_lacks_add(a, b, '`');
    lemma_lacks_add(a + b, c, '`');
}

proof fn lemma_seven(
    a: Seq<char>,
    b: Seq<char>,
    c: Seq<char>,
    d: Seq<char>,
    e: Seq<char>,
    f: Seq<char>,
    g: Seq<char>,
)
    requires
        lacks(a, '`'),
        lacks(b, '`'),
        lacks(c, '`'),
        lacks(d, '`'),
        lacks(e, '`'),
        lacks(f, '`'),
        lacks(g, '`'),
    ensures
        lacks(a + b + c + d + e, '`'),
        lacks(a + b + c + d + e + f + g, '`'),
{
    lemma_three(a, b, c);
    lemma_three(a + b + c, d, e);
    lemma_three(a + b + c + d + e, f, g);
}

/// The value that string_agg aggregates.
pub open spec fn aggregated_text(exprs: Seq<Seq<char>>) -> Seq<char> {
    if exprs.len() == 1 {
        "CAST("@ + exprs[0] + " AS text)"@
    } else {
        "CONCAT("@ + joined(exprs, ", "@) + ")"@
    }
}

/// GROUP_CONCAT as string_agg; `found` are the matches of [`GROUP_CONCAT_PARTS`].
pub open spec fn string_agg_call(raw: Seq<char>, found: Seq<Seq<Option<(int, int)>>>) -> Option<Seq<char>> {
    if found.len() == 0 {
        None
    } else {
        let m = found[0];
        match csv(group_or_empty(raw, m, 2)) {
            Err(_) => None,
            Ok(exprs) => {
                let separator = match group(raw, m, 4) {
                    Some(s) => s,
                    None => "','"@,
                };
                let order = match group(raw, m, 3) {
                    Some(o) => " ORDER BY "@ + o,
                    None => ""@,
                };
                Some(
                    "string_agg("@ + group_or_empty(raw, m, 1) + aggregated_text(exprs) + ", "@ + separator
                        + order + ")"@,
                )
            },
        }
    }
}

/// Writes GROUP_CONCAT as string_agg.
pub fn render_string_agg(raw: &str, found: &Vec<Capture>) -> (r: Option<String>)
    requires
        matches_inside(founds(found@), raw@.len() as int),
    ensures
        opt_text(r) == string_agg_call(raw@, founds(found@)),
        lacks(raw@, '`') ==> (r matches Some(t) ==> lacks(t@, '`')),
{
    if found.len() == 0 {
        return None;
    }
    assert(match_inside(founds(found@)[0], raw@.len() as int));
    let m = &found[0];
    let distinct = m.group_or_empty(raw, 1);
    let body = m.group_or_empty(raw, 2);
    let exprs = match split_sql_csv(body.as_str()) {
        Ok(exprs) => exprs,
        Err(_) => return None,
    };
    assert(texts(exprs@).len() == exprs@.len());
    proof {
        if lacks(raw@, '`') {
            lemma_words_lack();
            lemma_group_lacks(raw@, m@, 1, '`');
            lemma_group_lacks(raw@, m@, 2, '`');
            lemma_group_lacks(raw@, m@, 3, '`');
            lemma_group_lacks(raw@, m@, 4, '`');
            lemma_list_lacks(body@, '`');
            let list = texts(exprs@);
            if list.len() == 1 {
                assert(lacks(list[0], '`'));
                lemma_three("CAST("@, list[0], " AS text)"@);
            }
            lemma_lacks_joined(list, ", "@, '`');
            lemma_three("CONCAT("@, joined(list, ", "@), ")"@);
        }
    }
    let value = if exprs.len() == 1 {
        cat3("CAST(", exprs[0].as_str(), " AS text)")
    } else {
        let listed = join(&exprs, ", ");
        cat3("CONCAT(", listed.as_str(), ")")
    };
    let separator = match m.group(raw, 4) {
        Some(s) => s,
        None => "','".to_string(),
    };
    let order = match m.group(raw, 3) {
        Some(o) => {
            proof {
                if lacks(raw@, '`') {
                    lemma_lacks_add(" ORDER BY "@, o@, '`');
                }
            }
            cat2(" ORDER BY ", o.as_str())
        },
        None => "".to_string(),
    };
    proof {
        if lacks(raw@, '`') {
            lemma_seven("string_agg("@, distinct@, value@, ", "@, separator@, order@, ")"@);
        }
    }
    Some(
        cat7(
            "string_agg(",
            distinct.as_str(),
            value.as_str(),
            ", ",
            separator.as_str(),
            order.as_str(),
            ")",
        ),
    )
}

/// What is written in place of a call with those arguments; nothing where the call is
/// left alone.
pub open spec fn call_text(call: Call, raw: Seq<char>) -> Option<Seq<char>> {
    match call {
        Call::GroupConcat => string_agg_call(raw, regex_captures(GROUP_CONCAT_PARTS@, raw)),
        _ => match csv(raw) {
            Err(_) => None,
            Ok(args) => plain_call_text(call, args),
        },
    }
}

/// What is written in place of a call, given its arguments one by one.
pub open spec fn plain_call_text(call: Call, args: Seq<Seq<char>>) -> Option<Seq<char>> {
    match call {
        Call::Instr => if args.len() == 2 {
            Some(
                "POSITION(CAST("@ + trimmed(args[1]) + " AS text) IN CAST("@ + trimmed(args[0])
                    + " AS text))"@,
            )
        } else {
            None
        },
        Call::SubstringIndex => if args.len() == 3 {
            let source = trimmed(args[0]);
            let delimiter = trimmed(args[1]);
            let count = trimmed(args[2]);
            if count.len() > 0 && count[0] == '-' {
                Some(
                    "reverse(split_part(reverse(CAST("@ + source + " AS text)), reverse(CAST("@ + delimiter
                        + " AS text)), "@ + count.skip(1) + "))"@,
                )
            } else {
                Some(
                    "split_part(CAST("@ + source + " AS text), CAST("@ + delimiter + " AS text), "@ + count
                        + ")"@,
                )
            }
        } else {
            None
        },
        Call::If => if args.len() == 3 {
            Some(
                "(CASE WHEN "@ + trimmed(args[0]) + " THEN "@ + trimmed(args[1]) + " ELSE "@ + trimmed(
                    args[2],
                ) + " END)"@,
            )
        } else {
            None
        },
        Call::GroupConcat => None,
    }
}

/// Writes what stands in place of a call, given its arguments one by one.
pub fn render_plain_call(call: Call, args: &Vec<String>) -> (r: Option<String>)
    ensures
        opt_text(r) == plain_call_text(call, texts(args@)),
        all_lack(texts(args@), '`') ==> (r matches Some(t) ==> lacks(t@, '`')),
{
    proof {
        lemma_words_lack();
        assert forall|i: int| 0 <= i < args@.len() && all_lack(texts(args@), '`') implies lacks(
            trimmed(#[trigger] args@[i]@),
            '`',
        ) by {
            assert(texts(args@)[i] == args@[i]@);
            assert(lacks(texts(args@)[i], '`'));
            lemma_lacks_trimmed(args@[i]@, '`');
        }
    }
    match call {
        Call::Instr => {
            if args.len() != 2 {
                return None;
            }
            let a = trim(args[0].as_str());
            let b = trim(args[1].as_str());
            proof {
                if all_lack(texts(args@), '`') {
                    lemma_seven("POSITION(CAST("@, b@, " AS text) IN CAST("@, a@, " AS text))"@, ")"@, ")"@);
                }
            }
            Some(cat5("POSITION(CAST(", b.as_str(), " AS text) IN CAST(", a.as_str(), " AS text))"))
        },
        Call::SubstringIndex => {
            if args.len() != 3 {
                return None;
            }
            let source = trim(args[0].as_str());
            let delimiter = trim(args[1].as_str());
            let count = trim(args[2].as_str());
            let n: usize = count.as_str().unicode_len();
            if n > 0 && count.as_str().get_char(0) == '-' {
                let rest = slice(count.as_str(), 1, n);
                assert(rest@ =~= count@.skip(1));
                proof {
                    if all_lack(texts(args@), '`') {
                        lemma_lacks_part(count@, 1, n as int, '`');
                        lemma_seven(
                            "reverse(split_part(reverse(CAST("@,
                            source@,
                            " AS text)), reverse(CAST("@,
                            delimiter@,
                            " AS text)), "@,
                            rest@,
                            "))"@,
                        );
                    }
                }
                return Some(
                    cat7(
                        "reverse(split_part(reverse(CAST(",
                        source.as_str(),
                        " AS text)), reverse(CAST(",
                        delimiter.as_str(),
                        " AS text)), ",
                        rest.as_str(),
                        "))",
                    ),
                );
            }
            proof {
                if all_lack(texts(args@), '`') {
                    lemma_seven(
                        "split_part(CAST("@,
                        source@,
                        " AS text), CAST("@,
                        delimiter@,
                        " AS text), "@,
                        count@,
                        ")"@,
                    );
                }
            }
            Some(
                cat7(
                    "split_part(CAST(",
                    source.as_str(),
                    " AS text), CAST(",
                    delimiter.as_str(),
                    " AS text), ",
                    count.as_str(),
                    ")",
                ),
            )
        },
        Call::If => {
            if args.len() != 3 {
                return None;
            }
            let a = trim(args[0].as_str());
            let b = trim(args[1].as_str());
            let c = trim(args[2].as_str());
            proof {
                if all_lack(texts(args@), '`') {
                    lemma_seven("(CASE WHEN "@, a@, " THEN "@, b@, " ELSE "@, c@, " END)"@);
                }
            }
            Some(
                cat7("(CASE WHEN ", a.as_str(), " THEN ", b.as_str(), " ELSE ", c.as_str(), " END)"),
            )
        },
        Call::GroupConcat => None,
    }
}

fn render_call(call: Call, raw: &str) -> (r: Option<String>)
    ensures
        opt_text(r) == call_text(call, raw@),
        lacks(raw@, '`') ==> (r matches Some(t) ==> lacks(t@, '`')),
{
    proof {
        if lacks(raw@, '`') {
            lemma_list_lacks(raw@, '`');
        }
    }
    match call {
        Call::GroupConcat => {
            let found = captures(GROUP_CONCAT_PARTS, raw);
            render_string_agg(raw, &found)
        },
        _ => match split_sql_csv(raw) {
            Err(_) => None,
            Ok(args) => render_plain_call(call, &args),
        },
    }
}

/// The call that starts with the word at `i`: what is written in its place and the
/// position after its closing parenthesis. Nothing where no such call starts there.
pub open spec fn call_at(s: Seq<char>, i: int, call: Call) -> Option<(Seq<char>, int)> {
    let e = word_end(s, i);
    let open = skip_space(s, e);
    let close = closing_paren(s, open + 1, 1);
    if same_ignoring_case(s.subrange(i, e), call_name(call)) && open < s.len() && s[open] == '(' && open < close
        < s.len() {
        match call_text(call, s.subrange(open + 1, close)) {
            Some(text) => Some((text, close + 1)),
            None => None,
        }
    } else {
        None
    }
}

pub open spec fn calls_from(s: Seq<char>, i: int, call: Call) -> (Seq<char>, bool)
    decreases s.len() - i,
{
    if i < 0 || i >= s.len() {
        (Seq::empty(), false)
    } else if s[i] == '\'' || s[i] == '"' || s[i] == '`' {
        let e = after_quote(s, i + 1, s[i]);
        if e <= i || e > s.len() {
            (Seq::empty(), false)
        } else {
            let rest = calls_from(s, e, call);
            (s.subrange(i, e) + rest.0, rest.1)
        }
    } else if is_word(s[i]) {
        match call_at(s, i, call) {
            Some((text, next)) => if next <= i || next > s.len() {
                (Seq::empty(), false)
            } else {
                (text + calls_from(s, next, call).0, true)
            },
            None => {
                let e = word_end(s, i);
                if e <= i || e > s.len() {
                    (Seq::empty(), false)
                } else {
                    let rest = calls_from(s, e, call);
                    (s.subrange(i, e) + rest.0, rest.1)
                }
            },
        }
    } else {
        let rest = calls_from(s, i + 1, call);
        (seq![s[i]] + rest.0, rest.1)
    }
}

/// A text with the outermost calls of a function outside quotes rewritten, and whether
/// there were any.
pub open spec fn calls_rewritten(s: Seq<char>, call: Call) -> (Seq<char>, bool) {
    calls_from(s, 0, call)
}

fn try_call(c: &Vec<char>, i: usize, e: usize, call: Call) -> (r: Option<(String, usize)>)
    requires
        i < e <= c@.len(),
        e == word_end(c@, i as int),
    ensures
        match r {
            Some((text, next)) => call_at(c@, i as int, call) == Some((text@, next as int)) && i < next
                <= c@.len(),
            None => call_at(c@, i as int, call) is None,
        },
        lacks(c@, '`') ==> (r matches Some((t, _)) ==> lacks(t@, '`')),
{
    let n: usize = c.len();
    let token = from_chars(c, i, e);
    let open = after_space(c, e);
    if eq_ignore_case(token.as_str(), name_of_call(call)) && open < n && c[open] == '(' {
        match find_matching_paren(c, open) {
            Some(close) => {
                let raw = from_chars(c, open + 1, close);
                proof {
                    if lacks(c@, '`') {
                        lemma_lacks_part(c@, open + 1, close as int, '`');
                    }
                }
                match render_call(call, raw.as_str()) {
                    Some(text) => Some((text, close + 1)),
                    None => None,
                }
            },
            None => None,
        }
    } else {
        None
    }
}

/// Rewrites the outermost calls of a function, leaving quoted text alone.
pub fn rewrite_function_calls(sql: &str, call: Call) -> (r: (String, bool))
    ensures
        (r.0@, r.1) == calls_rewritten(sql@, call),
        lacks(sql@, '`') ==> lacks(r.0@, '`'),
{
    let c = chars_of(sql);
    let n: usize = c.len();
    let mut out = String::new();
    let mut i: usize = 0;
    let mut changed = false;
    let ghost whole = calls_rewritten(c@, call);
    assert(out@ + whole.0 =~= whole.0);
    while i < n
        invariant
            n == c@.len(),
            c@ == sql@,
            i <= n,
            whole == calls_rewritten(c@, call),
            out@ + calls_from(c@, i as int, call).0 == whole.0,
            (changed || calls_from(c@, i as int, call).1) == whole.1,
            lacks(sql@, '`') ==> lacks(out@, '`'),
        decreases n - i,
    {
        let ghost before = out@;
        let ghost at = i as int;
        let ch = c[i];
        if ch == '\'' || ch == '"' || ch == '`' {
            let e = skip_quoted(&c, i + 1, ch);
            out.append(from_chars(&c, i, e).as_str());
            proof {
                lemma_assoc(before, c@.subrange(at, e as int), calls_from(c@, e as int, call).0);
                if lacks(sql@, '`') {
                    lemma_lacks_part(c@, at, e as int, '`');
                    lemma_lacks_add(before, c@.subrange(at, e as int), '`');
                }
            }
            i = e;
        } else if is_identifier_char(ch) {
            let e = skip_word(&c, i);
            match try_call(&c, i, e, call) {
                Some((text, next)) => {
                    out.append(text.as_str());
                    proof {
                        lemma_assoc(before, text@, calls_from(c@, next as int, call).0);
                        if lacks(sql@, '`') {
                            lemma_lacks_add(before, text@, '`');
                        }
                    }
                    changed = true;
                    i = next;
                },
                None => {
                    out.append(from_chars(&c, i, e).as_str());
                    proof {
                        lemma_assoc(before, c@.subrange(at, e as int), calls_from(c@, e as int, call).0);
                        if lacks(sql@, '`') {
                            lemma_lacks_part(c@, at, e as int, '`');
                            lemma_lacks_add(before, c@.subrange(at, e as int), '`');
                        }
                    }
                    i = e;
                },
            }
        } else {
            out.push(ch);
            assert(out@ =~= before + seq![ch]);
            proof {
                lemma_assoc(before, seq![ch], calls_from(c@, at + 1, call).0);
            }
            i = i + 1;
        }
    }
    assert(out@ =~= whole.0);
    (out, changed)
}

/// Calls nested deeper than this are left in place.
pub const MAX_NESTED_FUNCTION_REWRITE_PASSES: usize = 8;

/// A text with the calls of a function rewritten up to `passes` times, from the
/// outermost inwards.
pub open spec fn nested_calls_rewritten(s: Seq<char>, call: Call, passes: nat) -> (Seq<char>, bool)
    decreases passes,
{
    let once = calls_rewritten(s, call);
    if passes == 0 || !once.1 {
        (s, false)
    } else {
        (nested_calls_rewritten(once.0, call, (passes - 1) as nat).0, true)
    }
}

fn rewrite_nested_calls(sql: &str, call: Call) -> (r: (String, bool))
    ensures
        (r.0@, r.1) == nested_calls_rewritten(sql@, call, MAX_NESTED_FUNCTION_REWRITE_PASSES as nat),
        lacks(sql@, '`') ==> lacks(r.0@, '`'),
{
    let mut out = sql.to_string();
    let mut changed = false;
    let mut left: usize = MAX_NESTED_FUNCTION_REWRITE_PASSES;
    while left > 0
        invariant
            ({
                let rest = nested_calls_rewritten(out@, call, left as nat);
                let all = nested_calls_rewritten(sql@, call, MAX_NESTED_FUNCTION_REWRITE_PASSES as nat);
                rest.0 == all.0 && (changed || rest.1) == all.1
            }),
            lacks(sql@, '`') ==> lacks(out@, '`'),
        decreases left,
    {
        let (next, any) = rewrite_function_calls(out.as_str(), call);
        if !any {
            return (out, changed);
        }
        out = next;
        changed = true;
        left = left - 1;
    }
    (out, changed)
}

/// A draft with the calls of a function rewritten once, with a warning.
pub open spec fn calls_pass(d: Draft, call: Call, warning: Seq<char>) -> Draft {
    let r = calls_rewritten(d.0, call);
    if r.1 {
        (r.0, d.1.push(warning))
    } else {
        d
    }
}

fn call_pass(sql: &str, call: Call, warning: &str, warnings: &mut Vec<String>) -> (r: String)
    ensures
        (r@, texts(final(warnings)@)) == calls_pass((sql@, texts(old(warnings)@)), call, warning@),
        lacks(sql@, '`') ==> lacks(r@, '`'),
{
    let (out, changed) = rewrite_function_calls(sql, call);
    if changed {
        push_text(warnings, warning.to_string());
        out
    } else {
        sql.to_string()
    }
}

/// A draft with the nested calls of IF rewritten, with a warning.
pub open spec fn if_pass(d: Draft) -> Draft {
    let r = nested_calls_rewritten(d.0, Call::If, MAX_NESTED_FUNCTION_REWRITE_PASSES as nat);
    if r.1 {
        (r.0, d.1.push("rewrote MySQL IF(condition, then, else) to PostgreSQL CASE expression"@))
    } else {
        (r.0, d.1)
    }
}

pub const IFNULL_CALL: &'static str = r"(?i)\bIFNULL\s*\(";

pub const NOW_CALL: &'static str = r"(?i)\bNOW\s*\(";

pub const RAND_CALL: &'static str = r"(?i)\bRAND\s*\(";

pub const DATABASE_CALL: &'static str = r"(?i)\bDATABASE\s*\(";

pub const SCHEMA_CALL: &'static str = r"(?i)\bSCHEMA\s*\(";

/// A draft with a function called under its PostgreSQL name.
pub open spec fn renamed_call(d: Draft, pattern: Seq<char>, with: Seq<char>) -> Draft {
    replaced_pass(d, pattern, with, "rewrote MySQL function pattern `"@ + pattern + "`"@)
}

fn rename_call(sql: &str, pattern: &str, with: &str, warnings: &mut Vec<String>) -> (r: String)
    ensures
        (r@, texts(final(warnings)@)) == renamed_call((sql@, texts(old(warnings)@)), pattern@, with@),
        lacks(sql@, '`') && lacks(with@, '`') ==> lacks(r@, '`'),
{
    let warning = cat3("rewrote MySQL function pattern `", pattern, "`");
    replace_pass(sql, pattern, with, warning.as_str(), warnings)
}

/// The calls that only change their name.
pub open spec fn calls_renamed(d: Draft) -> Draft {
    let a = renamed_call(d, IFNULL_CALL@, "COALESCE("@);
    let b = renamed_call(a, NOW_CALL@, "now("@);
    let c = renamed_call(b, RAND_CALL@, "RANDOM("@);
    let e = renamed_call(c, DATABASE_CALL@, "CURRENT_DATABASE("@);
    renamed_call(e, SCHEMA_CALL@, "current_schema("@)
}

/// The calls that are rewritten with their arguments.
pub open spec fn argument_calls_rewritten(d: Draft) -> Draft {
    let a = calls_pass(
        d,
        Call::Instr,
        "rewrote MySQL INSTR(str, substr) to PostgreSQL POSITION(substr IN str)"@,
    );
    let b = calls_pass(
        a,
        Call::SubstringIndex,
        "rewrote MySQL SUBSTRING_INDEX(str, delim, count) to PostgreSQL text operations"@,
    );
    let c = calls_pass(b, Call::GroupConcat, "rewrote MySQL GROUP_CONCAT to PostgreSQL string_agg"@);
    if_pass(c)
}

/// The calls that deal with time and locks.
pub open spec fn time_and_lock_calls_rewritten(d: Draft) -> Draft {
    let a = passed(
        d,
        Rewrite::UnixTimestamp,
        UNIX_TIMESTAMP_CALL@,
        "rewrote UNIX_TIMESTAMP(expr) to EXTRACT(EPOCH FROM expr)"@,
    );
    let b = passed(
        a,
        Rewrite::FromUnixtime,
        FROM_UNIXTIME_CALL@,
        "rewrote FROM_UNIXTIME(expr) to TO_TIMESTAMP(expr)"@,
    );
    let c = passed(
        b,
        Rewrite::GetLock,
        GET_LOCK_CALL@,
        "rewrote MySQL GET_LOCK(name, timeout) to PostgreSQL advisory locking"@,
    );
    passed(
        c,
        Rewrite::ReleaseLock,
        RELEASE_LOCK_CALL@,
        "rewrote MySQL RELEASE_LOCK(name) to PostgreSQL advisory unlock"@,
    )
}

/// A draft with MySQL's functions called as PostgreSQL has them.
pub open spec fn functions_rewritten(d: Draft) -> Draft {
    time_and_lock_calls_rewritten(argument_calls_rewritten(calls_renamed(d)))
}

/// Rewrites MySQL's functions to those of PostgreSQL.
pub fn rewrite_mysql_functions(sql: &str, warnings: &mut Vec<String>) -> (r: String)
    ensures
        (r@, texts(final(warnings)@)) == functions_rewritten((sql@, texts(old(warnings)@))),
        lacks(sql@, '`') ==> lacks(r@, '`'),
{
    proof {
        lemma_words_lack();
    }
    let out = rename_call(sql, IFNULL_CALL, "COALESCE(", warnings);
    let out = rename_call(out.as_str(), NOW_CALL, "now(", warnings);
    let out = rename_call(out.as_str(), RAND_CALL, "RANDOM(", warnings);
    let out = rename_call(out.as_str(), DATABASE_CALL, "CURRENT_DATABASE(", warnings);
    let out = rename_call(out.as_str(), SCHEMA_CALL, "current_schema(", warnings);
    let out = call_pass(
        out.as_str(),
        Call::Instr,
        "rewrote MySQL INSTR(str, substr) to PostgreSQL POSITION(substr IN str)",
        warnings,
    );
    let out = call_pass(
        out.as_str(),
        Call::SubstringIndex,
        "rewrote MySQL SUBSTRING_INDEX(str, delim, count) to PostgreSQL text operations",
        warnings,
    );
    let out = call_pass(
        out.as_str(),
        Call::GroupConcat,
        "rewrote MySQL GROUP_CONCAT to PostgreSQL string_agg",
        warnings,
    );
    let (out, changed_if) = rewrite_nested_calls(out.as_str(), Call::If);
    if changed_if {
        push_text(
            warnings,
            "rewrote MySQL IF(condition, then, else) to PostgreSQL CASE expression".to_string(),
        );
    }
    let out = pass(
        out.as_str(),
        Rewrite::UnixTimestamp,
        UNIX_TIMESTAMP_CALL,
        "rewrote UNIX_TIMESTAMP(expr) to EXTRACT(EPOCH FROM expr)",
        warnings,
    );
    let out = pass(
        out.as_str(),
        Rewrite::FromUnixtime,
        FROM_UNIXTIME_CALL,
        "rewrote FROM_UNIXTIME(expr) to TO_TIMESTAMP(expr)",
        warnings,
    );
    let out = pass(
        out.as_str(),
        Rewrite::GetLock,
        GET_LOCK_CALL,
        "rewrote MySQL GET_LOCK(name, timeout) to PostgreSQL advisory locking",
        warnings,
    );
    pass(
        out.as_str(),
        Rewrite::ReleaseLock,
        RELEASE_LOCK_CALL,
        "rewrote MySQL RELEASE_LOCK(name) to PostgreSQL advisory unlock",
        warnings,
    )
}

} // verus!
