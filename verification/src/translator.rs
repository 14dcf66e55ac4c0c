//! The translation of a MySQL text to PostgreSQL, from one end to the other.
use vstd::prelude::*;

use crate::config::TranslatorConfig;
use crate::direct::{translate_unparsed_sql, unparsed_translation};
use crate::error::{translation_error, Failure, MiddlewareError};
use crate::functions::{
    argument_calls_rewritten, calls_pass, calls_renamed, functions_rewritten, renamed_call,
    rewrite_mysql_functions, time_and_lock_calls_rewritten, Call, DATABASE_CALL, IFNULL_CALL,
    NOW_CALL, RAND_CALL,
};
use crate::parser::{mysql_parse, parse_mysql_sql};
use crate::passes::{
    catalog_view_served, catalog_views_served, hex_rewritten, json_rewritten, limits_rewritten,
    passed, quote_reserved_relation_references, reject_unsupported, rejection,
    reserved_relations_quoted, rewrite_json_extract, rewrite_limit_offset_count,
    rewrite_mysql_hex_literals, rewrite_mysql_system_variables, select_modifiers_stripped,
    serve_catalog_views, strip_mysql_select_modifiers, strip_mysql_table_options,
    system_variables_rewritten, table_options_stripped, Draft, Rewrite, CATALOG_COLUMNS,
    FROM_UNIXTIME_CALL, GET_LOCK_CALL, UNIX_TIMESTAMP_CALL,
};
use crate::prepass::{
    inline_session_variable_expressions, rewrite_with_rollup, session_variables_inlined,
    strip_drop_temporary_keyword, strip_mariadb_max_statement_time_hint, with_rollup_rewritten,
    without_drop_temporary, without_timeout_hint,
};
use crate::quoting::{
    backticked_requoted, lemma_ticks_have_no_case, lemma_without_backticks_lacks,
    normalize_mysql_double_quoted_string_literals, replace_backticks, requote_backticked_names,
    requoted_backticks_stand_in_quotes, ticks_are_quoted, without_backticks, without_double_quotes,
};
use crate::ranking::{ranking_query_rewritten, rewrite_mysql_ranking_query};
use crate::scan::{rewrite_boolean_literals, with_boolean_literals};
use crate::statement::{all_checked, canonical_texts, translate_statements, translations};
use crate::text::{join, joined, lacks, lowered, push_text, push_texts, texts, trim, trimmed};
use crate::tree::{items, Node, Tree};

verus! {

/// A translated text: what came in, what the parser made of it, what goes out, and what
/// is to be said about it.
#[derive(Debug)]
pub struct TranslationResult {
    pub original_sql: String,
    pub canonical_mysql_sql: String,
    pub translated_sql: String,
    pub warnings: Vec<String>,
}

/// The mathematical counterpart of [`TranslationResult`].
pub struct Translation {
    pub original_sql: Seq<char>,
    pub canonical_mysql_sql: Seq<char>,
    pub translated_sql: Seq<char>,
    pub warnings: Seq<Seq<char>>,
}

impl View for TranslationResult {
    type V = Translation;

    open spec fn view(&self) -> Translation {
        Translation {
            original_sql: self.original_sql@,
            canonical_mysql_sql: self.canonical_mysql_sql@,
            translated_sql: self.translated_sql@,
            warnings: texts(self.warnings@),
        }
    }
}

impl TranslationResult {
    /// A result with the same contents.
    pub fn duplicate(&self) -> (r: TranslationResult)
        ensures
            r@ == self@,
    {
        let mut warnings: Vec<String> = Vec::new();
        push_texts(&mut warnings, &self.warnings);
        assert(texts(warnings@) =~= texts(self.warnings@));
        TranslationResult {
            original_sql: self.original_sql.clone(),
            canonical_mysql_sql: self.canonical_mysql_sql.clone(),
            translated_sql: self.translated_sql.clone(),
            warnings,
        }
    }
}

pub const TIMEOUT_HINT_WARNING: &'static str =
    "dropped MariaDB's `SET STATEMENT max_statement_time=... FOR` per-statement timeout hint; PostgreSQL has no equivalent single-statement timeout syntax";

pub const DROP_TEMPORARY_WARNING: &'static str =
    "rewrote MySQL's `DROP TEMPORARY TABLE` to `DROP TABLE`; PostgreSQL drops temporary tables with the same statement as permanent ones";

pub const ROLLUP_WARNING: &'static str =
    "rewrote MySQL's `GROUP BY ... WITH ROLLUP` to standard `GROUP BY ROLLUP(...)`";

pub const SESSION_VARIABLE_WARNING: &'static str =
    "inlined MySQL session-variable assignments (`@var := expr`) used within a single expression";

pub const RANKING_WARNING: &'static str =
    "rewrote MySQL ranking-query session counters (`@counter := @counter + 1`) to PostgreSQL ROW_NUMBER() window functions";

/// What was done to a text before it was parsed.
#[derive(Clone, Copy)]
pub struct Prepared {
    pub timeout_hint: bool,
    pub drop_temporary: bool,
    pub rollup: bool,
    pub ranking: bool,
    pub session_variables: bool,
}

/// A text as it is parsed, and what was done to it.
pub open spec fn prepared(sql: Seq<char>, ansi: bool) -> (Seq<char>, Prepared) {
    let a = without_timeout_hint(sql);
    let b = without_drop_temporary(a.0);
    let c = with_rollup_rewritten(b.0);
    let d = ranking_query_rewritten(c.0);
    let e = session_variables_inlined(d.0);
    (
        without_double_quotes(e.0, ansi),
        Prepared {
            timeout_hint: a.1,
            drop_temporary: b.1,
            rollup: c.1,
            ranking: d.1,
            session_variables: e.1,
        },
    )
}

fn prepare(sql: &str, ansi: bool) -> (r: (String, Prepared))
    ensures
        (r.0@, r.1) == prepared(sql@, ansi),
{
    let (a, timeout_hint) = strip_mariadb_max_statement_time_hint(sql);
    let (b, drop_temporary) = strip_drop_temporary_keyword(a.as_str());
    let (c, rollup) = rewrite_with_rollup(b.as_str());
    let (d, ranking) = rewrite_mysql_ranking_query(c.as_str());
    let (e, session_variables) = inline_session_variable_expressions(d.as_str());
    let mysql = normalize_mysql_double_quoted_string_literals(e.as_str(), ansi);
    (mysql, Prepared { timeout_hint, drop_temporary, rollup, ranking, session_variables })
}

/// A text with double quotes in place of its backticks, where the configuration says so.
/// Where double quotes hold identifiers in the source, a name can hold either quote and
/// keeps it.
pub open spec fn unticked(s: Seq<char>, cfg: TranslatorConfig) -> Seq<char> {
    if !cfg.normalize_mysql_backticks {
        s
    } else if cfg.ansi_quotes {
        backticked_requoted(s)
    } else {
        without_backticks(s)
    }
}

/// Whether a configuration leaves no backtick in a translation.
pub open spec fn unticks(cfg: TranslatorConfig) -> bool {
    cfg.normalize_mysql_backticks && !cfg.ansi_quotes
}

/// The text passes over a translated statement, each of them as the configuration says.
pub open spec fn polished(d: Draft, cfg: TranslatorConfig) -> Draft {
    let v = catalog_views_served(d);
    let a = (unticked(v.0, cfg), v.1);
    let b = system_variables_rewritten(a);
    let c = (hex_rewritten(b.0), b.1);
    let e = if cfg.rewrite_limit_comma {
        limits_rewritten(c)
    } else {
        c
    };
    let f = if cfg.normalize_boolean_literals {
        (with_boolean_literals(e.0), e.1)
    } else {
        e
    };
    let g = if cfg.rewrite_mysql_functions {
        functions_rewritten(f)
    } else {
        f
    };
    let h = select_modifiers_stripped(g);
    let i = if cfg.rewrite_json_operators {
        json_rewritten(h)
    } else {
        h
    };
    let j = if cfg.strip_mysql_table_options {
        table_options_stripped(i)
    } else {
        i
    };
    reserved_relations_quoted(j)
}

fn polish(sql: String, cfg: &TranslatorConfig, warnings: &mut Vec<String>) -> (r: String)
    ensures
        (r@, texts(final(warnings)@)) == polished((sql@, texts(old(warnings)@)), *cfg),
        unticks(*cfg) ==> lacks(r@, '`'),
{
    let mut out = serve_catalog_views(sql.as_str(), warnings);
    if cfg.normalize_mysql_backticks {
        if cfg.ansi_quotes {
            out = requote_backticked_names(out.as_str());
        } else {
            proof {
                lemma_without_backticks_lacks(out@);
            }
            out = replace_backticks(out.as_str());
        }
    }
    out = rewrite_mysql_system_variables(out.as_str(), warnings);
    out = rewrite_mysql_hex_literals(out.as_str());
    if cfg.rewrite_limit_comma {
        out = rewrite_limit_offset_count(out.as_str(), warnings);
    }
    if cfg.normalize_boolean_literals {
        out = rewrite_boolean_literals(out.as_str());
    }
    if cfg.rewrite_mysql_functions {
        out = rewrite_mysql_functions(out.as_str(), warnings);
    }
    out = strip_mysql_select_modifiers(out.as_str(), warnings);
    if cfg.rewrite_json_operators {
        out = rewrite_json_extract(out.as_str(), warnings);
    }
    if cfg.strip_mysql_table_options {
        out = strip_mysql_table_options(out.as_str(), warnings);
    }
    quote_reserved_relation_references(out.as_str(), warnings)
}

/// The warnings with those about what was done before the parse.
pub open spec fn noted(w: Seq<Seq<char>>, p: Prepared) -> Seq<Seq<char>> {
    let a = if p.timeout_hint {
        w.push(TIMEOUT_HINT_WARNING@)
    } else {
        w
    };
    let b = if p.ranking {
        a.push(RANKING_WARNING@)
    } else {
        a
    };
    let c = if p.session_variables {
        b.push(SESSION_VARIABLE_WARNING@)
    } else {
        b
    };
    let d = if p.rollup {
        c.push(ROLLUP_WARNING@)
    } else {
        c
    };
    if p.drop_temporary {
        d.push(DROP_TEMPORARY_WARNING@)
    } else {
        d
    }
}

fn note(warnings: &mut Vec<String>, p: &Prepared)
    ensures
        texts(final(warnings)@) == noted(texts(old(warnings)@), *p),
{
    if p.timeout_hint {
        push_text(warnings, TIMEOUT_HINT_WARNING.to_string());
    }
    if p.ranking {
        push_text(warnings, RANKING_WARNING.to_string());
    }
    if p.session_variables {
        push_text(warnings, SESSION_VARIABLE_WARNING.to_string());
    }
    if p.rollup {
        push_text(warnings, ROLLUP_WARNING.to_string());
    }
    if p.drop_temporary {
        push_text(warnings, DROP_TEMPORARY_WARNING.to_string());
    }
}

/// A translation that is put together from a draft.
pub open spec fn assembled(
    sql: Seq<char>,
    canonical: Seq<char>,
    draft: Draft,
    p: Prepared,
    cfg: TranslatorConfig,
) -> Translation {
    let out = polished(draft, cfg);
    Translation {
        original_sql: sql,
        canonical_mysql_sql: canonical,
        translated_sql: out.0,
        warnings: noted(out.1, p),
    }
}

fn assemble(
    sql: &str,
    canonical: String,
    draft: String,
    warnings: Vec<String>,
    p: &Prepared,
    cfg: &TranslatorConfig,
) -> (r: TranslationResult)
    ensures
        r@ == assembled(sql@, canonical@, (draft@, texts(warnings@)), *p, *cfg),
        unticks(*cfg) ==> lacks(r.translated_sql@, '`'),
{
    let mut gathered = warnings;
    let translated = polish(draft, cfg, &mut gathered);
    note(&mut gathered, p);
    TranslationResult {
        original_sql: sql.to_string(),
        canonical_mysql_sql: canonical,
        translated_sql: translated,
        warnings: gathered,
    }
}

/// The translation of a text that was parsed into statements.
pub open spec fn parsed_translation(
    sql: Seq<char>,
    statements: Tree,
    p: Prepared,
    cfg: TranslatorConfig,
) -> Result<Translation, Failure> {
    let list = items(statements);
    let n = list.len() as int;
    if n == 0 {
        Err(Failure::Translation("no statements were parsed"@))
    } else {
        match translations(list, n) {
            Err(e) => Err(e),
            Ok(t) => {
                let out = assembled(
                    sql,
                    joined(canonical_texts(list, n), "; "@),
                    (joined(t.0, "; "@), t.1),
                    p,
                    cfg,
                );
                if all_checked(list, n) {
                    match rejection(out.translated_sql) {
                        Err(e) => Err(e),
                        Ok(_) => Ok(out),
                    }
                } else {
                    Ok(out)
                }
            },
        }
    }
}

pub open spec fn translation_view(r: Result<TranslationResult, MiddlewareError>) -> Result<
    Translation,
    Failure,
> {
    match r {
        Ok(t) => Ok(t@),
        Err(e) => Err(e@),
    }
}

/// Translates a text that was parsed into statements.
pub fn translate_parsed(sql: &str, statements: &Node, p: &Prepared, cfg: &TranslatorConfig) -> (r: Result<
    TranslationResult,
    MiddlewareError,
>)
    ensures
        translation_view(r) == parsed_translation(sql@, statements.tree(), *p, *cfg),
        unticks(*cfg) ==> (r matches Ok(t) ==> lacks(t.translated_sql@, '`')),
{
    if statements.count() == 0 {
        return Err(translation_error("no statements were parsed"));
    }
    match translate_statements(statements) {
        Err(e) => Err(e),
        Ok(s) => {
            let canonical = join(&s.canonical, "; ");
            let draft = join(&s.translated, "; ");
            let out = assemble(sql, canonical, draft, s.warnings, p, cfg);
            if s.checked {
                match reject_unsupported(out.translated_sql.as_str()) {
                    Err(e) => return Err(e),
                    Ok(_) => {},
                }
            }
            Ok(out)
        },
    }
}

/// The translation of a MySQL text.
#[verifier::opaque]
pub open spec fn translation(sql: Seq<char>, cfg: TranslatorConfig) -> Result<Translation, Failure> {
    let ready = prepared(sql, cfg.ansi_quotes);
    match unparsed_translation(ready.0) {
        Err(e) => Err(e),
        Ok(Some(draft)) => Ok(assembled(sql, trimmed(ready.0), draft, ready.1, cfg)),
        Ok(None) => match mysql_parse(ready.0) {
            Err(e) => Err(e),
            Ok(statements) => parsed_translation(sql, statements, ready.1, cfg),
        },
    }
}

/// Translates MySQL statements to PostgreSQL. Where backticks are normalised and double
/// quotes hold strings, the translation holds no backtick.
pub fn translate_sql(sql: &str, cfg: &TranslatorConfig) -> (r: Result<TranslationResult, MiddlewareError>)
    ensures
        translation_view(r) == translation(sql@, *cfg),
        unticks(*cfg) ==> (r matches Ok(t) ==> lacks(t.translated_sql@, '`')),
{
    reveal(translation);
    let (mysql, done) = prepare(sql, cfg.ansi_quotes);
    match translate_unparsed_sql(mysql.as_str()) {
        Err(e) => Err(e),
        Ok(Some((draft, warnings))) => {
            let canonical = trim(mysql.as_str());
            Ok(assemble(sql, canonical, draft, warnings, &done, cfg))
        },
        Ok(None) => match parse_mysql_sql(mysql.as_str()) {
            Err(e) => Err(e),
            Ok(statements) => translate_parsed(sql, &statements, &done, cfg),
        },
    }
}

/// A translation carries the text that came in, unchanged.
pub proof fn translations_keep_the_original(sql: Seq<char>, cfg: TranslatorConfig)
    ensures
        translation(sql, cfg) matches Ok(t) ==> t.original_sql == sql,
{
    reveal(translation);
}

/// Where every statement of a text is one that is checked, the translation holds no
/// feature that PostgreSQL has no translation of.
pub proof fn checked_statements_hold_nothing_unsupported(
    sql: Seq<char>,
    statements: Tree,
    p: Prepared,
    cfg: TranslatorConfig,
)
    requires
        all_checked(items(statements), items(statements).len() as int),
    ensures
        parsed_translation(sql, statements, p, cfg) matches Ok(t) ==> rejection(t.translated_sql) is Ok,
{
}

/// Whether a list of warnings goes on with another.
pub open spec fn goes_on(w: Seq<Seq<char>>, more: Seq<Seq<char>>) -> bool {
    w.len() <= more.len() && more.take(w.len() as int) == w
}

proof fn lemma_goes_on(a: Seq<Seq<char>>, b: Seq<Seq<char>>, c: Seq<Seq<char>>)
    requires
        goes_on(a, b),
        goes_on(b, c),
    ensures
        goes_on(a, c),
{
    assert(c.take(a.len() as int) =~= c.take(b.len() as int).take(a.len() as int));
}

proof fn lemma_one_more(w: Seq<Seq<char>>, text: Seq<char>)
    ensures
        goes_on(w, w),
        goes_on(w, w.push(text)),
{
    assert(w.take(w.len() as int) =~= w);
    assert(w.push(text).take(w.len() as int) =~= w);
}

/// Whether lists of warnings that go on with one another do so in a row.
proof fn lemma_chain()
    ensures
        forall|w: Seq<Seq<char>>, text: Seq<char>| #[trigger] goes_on(w, w.push(text)),
        forall|w: Seq<Seq<char>>| #[trigger] goes_on(w, w),
        forall|a: Seq<Seq<char>>, b: Seq<Seq<char>>, c: Seq<Seq<char>>| #[trigger]
            goes_on(a, b) && #[trigger] goes_on(b, c) ==> goes_on(a, c),
{
    assert forall|w: Seq<Seq<char>>, text: Seq<char>| #[trigger] goes_on(w, w.push(text)) by {
        lemma_one_more(w, text);
    }
    assert forall|w: Seq<Seq<char>>| #[trigger] goes_on(w, w) by {
        lemma_one_more(w, Seq::empty());
    }
    assert forall|a: Seq<Seq<char>>, b: Seq<Seq<char>>, c: Seq<Seq<char>>| #[trigger]
        goes_on(a, b) && #[trigger] goes_on(b, c) implies goes_on(a, c) by {
        lemma_goes_on(a, b, c);
    }
}

proof fn lemma_functions_go_on(d: Draft)
    ensures
        goes_on(d.1, functions_rewritten(d).1),
{
    lemma_chain();
    let a = renamed_call(d, IFNULL_CALL@, "COALESCE("@);
    assert(goes_on(d.1, a.1));
    let b = renamed_call(a, NOW_CALL@, "now("@);
    assert(goes_on(a.1, b.1));
    let c = renamed_call(b, RAND_CALL@, "RANDOM("@);
    assert(goes_on(b.1, c.1));
    let e = renamed_call(c, DATABASE_CALL@, "CURRENT_DATABASE("@);
    assert(goes_on(c.1, e.1));
    let f = calls_renamed(d);
    assert(goes_on(e.1, f.1));
    let g = calls_pass(
        f,
        Call::Instr,
        "rewrote MySQL INSTR(str, substr) to PostgreSQL POSITION(substr IN str)"@,
    );
    assert(goes_on(f.1, g.1));
    let h = calls_pass(
        g,
        Call::SubstringIndex,
        "rewrote MySQL SUBSTRING_INDEX(str, delim, count) to PostgreSQL text operations"@,
    );
    assert(goes_on(g.1, h.1));
    let i = calls_pass(h, Call::GroupConcat, "rewrote MySQL GROUP_CONCAT to PostgreSQL string_agg"@);
    assert(goes_on(h.1, i.1));
    let j = argument_calls_rewritten(f);
    assert(goes_on(i.1, j.1));
    let k = passed(
        j,
        Rewrite::UnixTimestamp,
        UNIX_TIMESTAMP_CALL@,
        "rewrote UNIX_TIMESTAMP(expr) to EXTRACT(EPOCH FROM expr)"@,
    );
    assert(goes_on(j.1, k.1));
    let l = passed(
        k,
        Rewrite::FromUnixtime,
        FROM_UNIXTIME_CALL@,
        "rewrote FROM_UNIXTIME(expr) to TO_TIMESTAMP(expr)"@,
    );
    assert(goes_on(k.1, l.1));
    let m = passed(
        l,
        Rewrite::GetLock,
        GET_LOCK_CALL@,
        "rewrote MySQL GET_LOCK(name, timeout) to PostgreSQL advisory locking"@,
    );
    assert(goes_on(l.1, m.1));
    assert(goes_on(m.1, time_and_lock_calls_rewritten(j).1));
}

/// No pass over a translated statement takes back what was said about it before.
pub proof fn warnings_are_never_taken_back(d: Draft, cfg: TranslatorConfig)
    ensures
        goes_on(d.1, polished(d, cfg).1),
{
    lemma_chain();
    let u = catalog_view_served(
        d,
        Rewrite::CatalogColumns,
        CATALOG_COLUMNS@,
        "served information_schema.columns with MySQL's additional columns"@,
    );
    assert(goes_on(d.1, u.1));
    let v = catalog_views_served(d);
    assert(goes_on(u.1, v.1));
    let a: Draft = (unticked(v.0, cfg), v.1);
    let b = system_variables_rewritten(a);
    assert(goes_on(a.1, b.1));
    let c: Draft = (hex_rewritten(b.0), b.1);
    let e = if cfg.rewrite_limit_comma {
        limits_rewritten(c)
    } else {
        c
    };
    assert(goes_on(c.1, e.1));
    let f: Draft = if cfg.normalize_boolean_literals {
        (with_boolean_literals(e.0), e.1)
    } else {
        e
    };
    let g = if cfg.rewrite_mysql_functions {
        functions_rewritten(f)
    } else {
        f
    };
    assert(goes_on(f.1, g.1)) by {
        if cfg.rewrite_mysql_functions {
            lemma_functions_go_on(f);
        }
    }
    let h = select_modifiers_stripped(g);
    assert(goes_on(g.1, h.1));
    let i = if cfg.rewrite_json_operators {
        json_rewritten(h)
    } else {
        h
    };
    assert(goes_on(h.1, i.1));
    let j = if cfg.strip_mysql_table_options {
        table_options_stripped(i)
    } else {
        i
    };
    assert(goes_on(i.1, j.1));
    let k = reserved_relations_quoted(j);
    assert(goes_on(j.1, k.1));
}

/// Where double quotes hold identifiers in the source and backticks are replaced, every
/// backtick left in a translation stands inside a quoted fragment. The passes that come after
/// the replacement also rewrite what they find inside quotes, and can part a fragment there:
/// so this is said of the statements in which they change nothing but the case of letters.
pub proof fn backticks_left_stand_in_quotes(d: Draft, cfg: TranslatorConfig)
    requires
        cfg.normalize_mysql_backticks,
        cfg.ansi_quotes,
        lowered(polished(d, cfg).0) == lowered(unticked(catalog_views_served(d).0, cfg)),
    ensures
        ticks_are_quoted(polished(d, cfg).0),
{
    let s = catalog_views_served(d).0;
    requoted_backticks_stand_in_quotes(s);
    lemma_ticks_have_no_case(backticked_requoted(s), polished(d, cfg).0);
}

} // verus!
