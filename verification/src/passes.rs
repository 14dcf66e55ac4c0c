//! The text passes over a translated statement: each finds what a pattern matches and
//! writes it the way PostgreSQL reads it.
use vstd::prelude::*;

use crate::error::{Failure, MiddlewareError};
use crate::quoting::{lemma_quoted_ident_lacks, quote_ident, quoted_ident};
use crate::regexes::{
    captures, founds, group, group_or_empty, is_match, lemma_group_lacks, lemma_spliced_lacks,
    match_inside, matches_inside, pattern_matches, regex_captures, splice, splice_same, spliced,
    spliced_same, Capture,
};
use crate::scan::{mask_quoted_sql_fragments, masked, masking_keeps_positions};
use crate::text::{
    cat2, cat3, cat4, eq_ignore_case, join, joined, lacks, lemma_lacks_add, lemma_lacks_joined,
    lemma_lacks_split, lemma_lacks_trimmed, lowered, opt_text, push_text, same, same_ignoring_case,
    split, split_on, texts, to_lower, trim, trimmed,
};

verus! {

/// A statement on its way and the warnings it has gathered.
pub type Draft = (Seq<char>, Seq<Seq<char>>);

pub const LIMIT_COMMA: &'static str = r"(?i)\bLIMIT\s+(\d+)\s*,\s*(\d+)\b";

pub const HEX_LITERAL: &'static str = r"(?i)\bX'([0-9a-f]*)'";

pub const SYSTEM_VARIABLE: &'static str =
    r"(?i)@@(?:(?:SESSION|GLOBAL)\.)?(sql_mode|version_comment|version|collation_connection|transaction_isolation|tx_isolation|secure_file_priv)\b";

pub const VERSION_CALL: &'static str = r"(?i)\bVERSION\s*\(\s*\)";

pub const UNIX_TIMESTAMP_CALL: &'static str = r"(?i)\bUNIX_TIMESTAMP\s*\(([^\)]*)\)";

pub const FROM_UNIXTIME_CALL: &'static str = r"(?i)\bFROM_UNIXTIME\s*\(([^\)]*)\)";

pub const GET_LOCK_CALL: &'static str = r"(?i)\bGET_LOCK\s*\(\s*([^,]+?)\s*,\s*([^)]+?)\s*\)";

pub const RELEASE_LOCK_CALL: &'static str = r"(?i)\bRELEASE_LOCK\s*\(\s*([^)]+?)\s*\)";

pub const SELECT_MODIFIER: &'static str = r"(?i)\bSELECT\s+(DISTINCT\s+)?SQL_NO_CACHE\s+";

pub const JSON_EXTRACT_CALL: &'static str =
    r#"(?i)JSON_EXTRACT\s*\(\s*([A-Za-z0-9_\.\"]+)\s*,\s*'\$\.([^']+)'\s*\)"#;

pub const TABLE_OPTIONS: &'static str =
    r"(?i)\)\s*ENGINE\s*=\s*\w+(?:\s+DEFAULT)?(?:\s+CHARSET\s*=\s*\w+)?";

pub const RELATION_REFERENCE: &'static str =
    r"(?i)\b(FROM|JOIN|UPDATE|INTO|TABLE|DELETE\s+FROM|USING|TRUNCATE\s+TABLE|TRUNCATE|LOCK\s+TABLE)\s+([A-Za-z_][A-Za-z0-9_]*)\b";

pub const INSERT_RELATION: &'static str = r"(?i)\b(INSERT\s+INTO)\s+([A-Za-z_][A-Za-z0-9_]*)\b";

pub const CATALOG_COLUMNS: &'static str =
    r"(?i)\binformation_schema\.columns\b(\s+(?:AS\s+)?([A-Za-z_][A-Za-z0-9_]*))?";

pub const CATALOG_STATISTICS: &'static str =
    r"(?i)\binformation_schema\.statistics\b(\s+(?:AS\s+)?([A-Za-z_][A-Za-z0-9_]*))?";

pub const SERVER_VERSION_LITERAL: &'static str = "'11.8.7-MariaDB-ubu2404'";

/// MySQL's view of a table's columns, with the columns that PostgreSQL's lacks.
pub const COLUMNS_VIEW: &'static str =
    "(SELECT c.*, CASE c.data_type WHEN 'integer' THEN 'int(11)' WHEN 'smallint' THEN 'smallint(6)' WHEN 'bigint' THEN 'bigint(20)' WHEN 'character varying' THEN 'varchar(' || c.character_maximum_length || ')' WHEN 'character' THEN 'char(' || c.character_maximum_length || ')' WHEN 'numeric' THEN COALESCE('decimal(' || c.numeric_precision || ',' || c.numeric_scale || ')', 'decimal') WHEN 'timestamp without time zone' THEN 'datetime' WHEN 'timestamp with time zone' THEN 'timestamp' WHEN 'text' THEN 'mediumtext' WHEN 'bytea' THEN 'longblob' WHEN 'real' THEN 'float' WHEN 'double precision' THEN 'double' WHEN 'jsonb' THEN 'json' ELSE c.data_type END AS column_type, CASE WHEN c.is_identity = 'YES' OR c.column_default LIKE 'nextval(%' THEN 'auto_increment' ELSE '' END AS extra, ''::text AS column_comment FROM information_schema.columns c) AS ";

/// MySQL's view of a table's indexes, which PostgreSQL has only in its own catalog.
pub const STATISTICS_VIEW: &'static str =
    "(SELECT ns.nspname AS table_schema, cls.relname AS table_name, CASE WHEN idx.indisunique THEN 0 ELSE 1 END AS non_unique, ns.nspname AS index_schema, CASE WHEN idx.indisprimary THEN 'PRIMARY' ELSE ci.relname END AS index_name, key_columns.ordinality AS seq_in_index, att.attname AS column_name, 'A' AS collation, NULL::bigint AS cardinality, NULL::bigint AS sub_part, CASE WHEN att.attnotnull THEN '' ELSE 'YES' END AS nullable, 'BTREE' AS index_type FROM pg_class cls JOIN pg_namespace ns ON ns.oid = cls.relnamespace JOIN pg_index idx ON idx.indrelid = cls.oid JOIN pg_class ci ON ci.oid = idx.indexrelid JOIN LATERAL unnest(idx.indkey) WITH ORDINALITY AS key_columns(attnum, ordinality) ON TRUE JOIN pg_attribute att ON att.attrelid = cls.oid AND att.attnum = key_columns.attnum) AS ";

/// What is written in place of a match.
#[derive(Clone, Copy)]
pub enum Rewrite {
    LimitOperands,
    HexLiteral,
    SystemVariable,
    UnixTimestamp,
    FromUnixtime,
    GetLock,
    ReleaseLock,
    SelectModifier,
    JsonExtract,
    ReservedRelation,
    CatalogColumns,
    CatalogStatistics,
}

/// The value a system variable is reported with.
pub open spec fn system_variable_value(name: Seq<char>, otherwise: Seq<char>) -> Seq<char> {
    let n = lowered(name);
    if n == "sql_mode"@ {
        "'NO_AUTO_VALUE_ON_ZERO'"@
    } else if n == "version"@ {
        SERVER_VERSION_LITERAL@
    } else if n == "version_comment"@ {
        "'MariaDB Server'"@
    } else if n == "collation_connection"@ {
        "'utf8mb4_general_ci'"@
    } else if n == "transaction_isolation"@ || n == "tx_isolation"@ {
        "'REPEATABLE-READ'"@
    } else if n == "secure_file_priv"@ {
        "NULL::text"@
    } else {
        otherwise
    }
}

fn system_variable(name: &str, otherwise: &str) -> (r: String)
    ensures
        r@ == system_variable_value(name@, otherwise@),
{
    let n = to_lower(name);
    if same(n.as_str(), "sql_mode") {
        "'NO_AUTO_VALUE_ON_ZERO'".to_string()
    } else if same(n.as_str(), "version") {
        SERVER_VERSION_LITERAL.to_string()
    } else if same(n.as_str(), "version_comment") {
        "'MariaDB Server'".to_string()
    } else if same(n.as_str(), "collation_connection") {
        "'utf8mb4_general_ci'".to_string()
    } else if same(n.as_str(), "transaction_isolation") || same(n.as_str(), "tx_isolation") {
        "'REPEATABLE-READ'".to_string()
    } else if same(n.as_str(), "secure_file_priv") {
        "NULL::text".to_string()
    } else {
        otherwise.to_string()
    }
}

/// The keywords that can follow a table reference, so that they are not its alias.
pub open spec fn follows_table(word: Seq<char>) -> bool {
    let w = lowered(word);
    ||| w == "where"@
    ||| w == "on"@
    ||| w == "join"@
    ||| w == "inner"@
    ||| w == "left"@
    ||| w == "right"@
    ||| w == "cross"@
    ||| w == "full"@
    ||| w == "natural"@
    ||| w == "order"@
    ||| w == "group"@
    ||| w == "having"@
    ||| w == "limit"@
    ||| w == "offset"@
    ||| w == "union"@
    ||| w == "except"@
    ||| w == "intersect"@
    ||| w == "using"@
    ||| w == "fetch"@
    ||| w == "for"@
    ||| w == "window"@
}

fn is_table_follower(word: &str) -> (r: bool)
    ensures
        r == follows_table(word@),
{
    let l = to_lower(word);
    let w = l.as_str();
    same(w, "where") || same(w, "on") || same(w, "join") || same(w, "inner") || same(w, "left") || same(
        w,
        "right",
    ) || same(w, "cross") || same(w, "full") || same(w, "natural") || same(w, "order") || same(w, "group")
        || same(w, "having") || same(w, "limit") || same(w, "offset") || same(w, "union") || same(w, "except")
        || same(w, "intersect") || same(w, "using") || same(w, "fetch") || same(w, "for") || same(w, "window")
}

/// A derived table under the alias the reference had, or under the view's own name.
pub open spec fn derived_table(
    view: Seq<char>,
    name: Seq<char>,
    alias: Option<Seq<char>>,
    after: Seq<char>,
) -> Seq<char> {
    match alias {
        Some(a) => if follows_table(a) {
            view + name + after
        } else {
            view + a
        },
        None => view + name + after,
    }
}

fn derive_table(view: &str, name: &str, alias: &Option<String>, after: &str) -> (r: String)
    ensures
        r@ == derived_table(view@, name@, opt_text(*alias), after@),
{
    match alias {
        Some(a) => if is_table_follower(a.as_str()) {
            cat3(view, name, after)
        } else {
            cat2(view, a.as_str())
        },
        None => cat3(view, name, after),
    }
}

/// What is written in place of one match.
pub open spec fn rewrite_of(kind: Rewrite, text: Seq<char>, m: Seq<Option<(int, int)>>) -> Seq<char> {
    let whole = group_or_empty(text, m, 0);
    let one = group_or_empty(text, m, 1);
    let two = group_or_empty(text, m, 2);
    match kind {
        Rewrite::LimitOperands => "LIMIT "@ + two + " OFFSET "@ + one,
        Rewrite::HexLiteral => "decode('"@ + one + "', 'hex')"@,
        Rewrite::SystemVariable => system_variable_value(one, whole),
        Rewrite::UnixTimestamp => if trimmed(one).len() == 0 {
            "EXTRACT(EPOCH FROM CURRENT_TIMESTAMP)"@
        } else {
            "EXTRACT(EPOCH FROM "@ + trimmed(one) + ")"@
        },
        Rewrite::FromUnixtime => "TO_TIMESTAMP("@ + trimmed(one) + ")"@,
        Rewrite::GetLock => "CASE WHEN pg_try_advisory_lock(hashtextextended(CAST("@ + trimmed(one)
            + " AS text), 0)) THEN 1 ELSE 0 END"@,
        Rewrite::ReleaseLock => "CASE WHEN pg_advisory_unlock(hashtextextended(CAST("@ + trimmed(one)
            + " AS text), 0)) THEN 1 ELSE 0 END"@,
        Rewrite::SelectModifier => "SELECT "@ + one,
        Rewrite::JsonExtract => one + " #>> '{"@ + joined(split(two, '.'), ","@) + "}'"@,
        Rewrite::ReservedRelation => if same_ignoring_case(two, "user"@) {
            one + " "@ + quoted_ident(two)
        } else {
            whole
        },
        Rewrite::CatalogColumns => derived_table(COLUMNS_VIEW@, "columns"@, group(text, m, 2), one),
        Rewrite::CatalogStatistics => derived_table(STATISTICS_VIEW@, "statistics"@, group(text, m, 2), one),
    }
}

/// Writes what stands in place of one match.
pub fn rewrite_match(kind: Rewrite, text: &str, m: &Capture) -> (r: String)
    requires
        match_inside(m@, text@.len() as int),
    ensures
        r@ == rewrite_of(kind, text@, m@),
{
    let whole = m.group_or_empty(text, 0);
    let one = m.group_or_empty(text, 1);
    let two = m.group_or_empty(text, 2);
    let inner = trim(one.as_str());
    match kind {
        Rewrite::LimitOperands => cat4("LIMIT ", two.as_str(), " OFFSET ", one.as_str()),
        Rewrite::HexLiteral => cat3("decode('", one.as_str(), "', 'hex')"),
        Rewrite::SystemVariable => system_variable(one.as_str(), whole.as_str()),
        Rewrite::UnixTimestamp => if inner.as_str().is_empty() {
            "EXTRACT(EPOCH FROM CURRENT_TIMESTAMP)".to_string()
        } else {
            cat3("EXTRACT(EPOCH FROM ", inner.as_str(), ")")
        },
        Rewrite::FromUnixtime => cat3("TO_TIMESTAMP(", inner.as_str(), ")"),
        Rewrite::GetLock => cat3(
            "CASE WHEN pg_try_advisory_lock(hashtextextended(CAST(",
            inner.as_str(),
            " AS text), 0)) THEN 1 ELSE 0 END",
        ),
        Rewrite::ReleaseLock => cat3(
            "CASE WHEN pg_advisory_unlock(hashtextextended(CAST(",
            inner.as_str(),
            " AS text), 0)) THEN 1 ELSE 0 END",
        ),
        Rewrite::SelectModifier => cat2("SELECT ", one.as_str()),
        Rewrite::JsonExtract => {
            let path = join(&split_on(two.as_str(), '.'), ",");
            cat4(one.as_str(), " #>> '{", path.as_str(), "}'")
        },
        Rewrite::ReservedRelation => if eq_ignore_case(two.as_str(), "user") {
            cat3(one.as_str(), " ", quote_ident(two.as_str()).as_str())
        } else {
            whole
        },
        Rewrite::CatalogColumns => {
            let alias = m.group(text, 2);
            derive_table(COLUMNS_VIEW, "columns", &alias, one.as_str())
        },
        Rewrite::CatalogStatistics => {
            let alias = m.group(text, 2);
            derive_table(STATISTICS_VIEW, "statistics", &alias, one.as_str())
        },
    }
}

/// What is written in place of each match.
pub open spec fn rewrites(kind: Rewrite, text: Seq<char>, found: Seq<Seq<Option<(int, int)>>>) -> Seq<
    Seq<char>,
> {
    Seq::new(found.len(), |i: int| rewrite_of(kind, text, found[i]))
}

/// A text with each match rewritten.
pub open spec fn rewritten(kind: Rewrite, text: Seq<char>, found: Seq<Seq<Option<(int, int)>>>) -> Seq<
    char,
> {
    spliced(text, found, rewrites(kind, text, found))
}

/// Rewrites each match.
pub fn rewrite_matches(kind: Rewrite, text: &str, found: &Vec<Capture>) -> (r: String)
    requires
        matches_inside(founds(found@), text@.len() as int),
    ensures
        r@ == rewritten(kind, text@, founds(found@)),
        is_brief(kind) && lacks(text@, '`') ==> lacks(r@, '`'),
{
    let ghost f = founds(found@);
    proof {
        if is_brief(kind) && lacks(text@, '`') {
            lemma_rewritten_lacks(kind, text@, f);
        }
    }
    let mut reps: Vec<String> = Vec::new();
    let mut i: usize = 0;
    while i < found.len()
        invariant
            i <= found@.len(),
            f == founds(found@),
            matches_inside(f, text@.len() as int),
            reps@.len() == i,
            texts(reps@) =~= rewrites(kind, text@, f).take(i as int),
        decreases found.len() - i,
    {
        assert(match_inside(f[i as int], text@.len() as int));
        push_text(&mut reps, rewrite_match(kind, text, &found[i]));
        i = i + 1;
        assert(texts(reps@) =~= rewrites(kind, text@, f).take(i as int));
    }
    assert(texts(reps@) =~= rewrites(kind, text@, f));
    splice(text, found, &reps)
}

/// A draft with each match rewritten and, where there was one, a warning.
pub open spec fn pass_over(
    d: Draft,
    kind: Rewrite,
    found: Seq<Seq<Option<(int, int)>>>,
    warning: Seq<char>,
) -> Draft {
    if found.len() == 0 {
        d
    } else {
        (rewritten(kind, d.0, found), d.1.push(warning))
    }
}

/// Rewrites each match of a list and warns where there was one.
pub fn apply_matches(
    sql: &str,
    kind: Rewrite,
    found: &Vec<Capture>,
    warning: &str,
    warnings: &mut Vec<String>,
) -> (r: String)
    requires
        matches_inside(founds(found@), sql@.len() as int),
    ensures
        (r@, texts(final(warnings)@)) == pass_over(
            (sql@, texts(old(warnings)@)),
            kind,
            founds(found@),
            warning@,
        ),
        is_brief(kind) && lacks(sql@, '`') ==> lacks(r@, '`'),
{
    if found.len() == 0 {
        return sql.to_string();
    }
    push_text(warnings, warning.to_string());
    rewrite_matches(kind, sql, found)
}

/// One pass: what the pattern finds, rewritten, with a warning.
pub open spec fn passed(d: Draft, kind: Rewrite, pattern: Seq<char>, warning: Seq<char>) -> Draft {
    pass_over(d, kind, regex_captures(pattern, d.0), warning)
}

/// Runs one pass.
pub fn pass(sql: &str, kind: Rewrite, pattern: &str, warning: &str, warnings: &mut Vec<String>) -> (r: String)
    ensures
        (r@, texts(final(warnings)@)) == passed(
            (sql@, texts(old(warnings)@)),
            kind,
            pattern@,
            warning@,
        ),
        is_brief(kind) && lacks(sql@, '`') ==> lacks(r@, '`'),
{
    let found = captures(pattern, sql);
    apply_matches(sql, kind, &found, warning, warnings)
}

/// A draft with what the pattern finds replaced by one text, with a warning.
pub open spec fn replaced_pass(d: Draft, pattern: Seq<char>, with: Seq<char>, warning: Seq<char>) -> Draft {
    let found = regex_captures(pattern, d.0);
    if found.len() == 0 {
        d
    } else {
        (spliced_same(d.0, found, with), d.1.push(warning))
    }
}

/// Replaces what the pattern finds by one text.
pub fn replace_pass(sql: &str, pattern: &str, with: &str, warning: &str, warnings: &mut Vec<String>) -> (r:
    String)
    ensures
        (r@, texts(final(warnings)@)) == replaced_pass(
            (sql@, texts(old(warnings)@)),
            pattern@,
            with@,
            warning@,
        ),
        lacks(sql@, '`') && lacks(with@, '`') ==> lacks(r@, '`'),
{
    let found = captures(pattern, sql);
    if found.len() == 0 {
        return sql.to_string();
    }
    push_text(warnings, warning.to_string());
    splice_same(sql, &found, with)
}

/// `LIMIT offset, count` as `LIMIT count OFFSET offset`.
pub open spec fn limits_rewritten(d: Draft) -> Draft {
    passed(
        d,
        Rewrite::LimitOperands,
        LIMIT_COMMA@,
        "rewrote MySQL LIMIT offset,count to PostgreSQL LIMIT count OFFSET offset"@,
    )
}

pub fn rewrite_limit_offset_count(sql: &str, warnings: &mut Vec<String>) -> (r: String)
    ensures
        (r@, texts(final(warnings)@)) == limits_rewritten((sql@, texts(old(warnings)@))),
        lacks(sql@, '`') ==> lacks(r@, '`'),
{
    pass(
        sql,
        Rewrite::LimitOperands,
        LIMIT_COMMA,
        "rewrote MySQL LIMIT offset,count to PostgreSQL LIMIT count OFFSET offset",
        warnings,
    )
}

/// `X'..'` as a call of `decode`.
pub open spec fn hex_rewritten(sql: Seq<char>) -> Seq<char> {
    rewritten(Rewrite::HexLiteral, sql, regex_captures(HEX_LITERAL@, sql))
}

pub fn rewrite_mysql_hex_literals(sql: &str) -> (r: String)
    ensures
        r@ == hex_rewritten(sql@),
        lacks(sql@, '`') ==> lacks(r@, '`'),
{
    let found = captures(HEX_LITERAL, sql);
    rewrite_matches(Rewrite::HexLiteral, sql, &found)
}

/// System variables and `VERSION()` as the values they are reported with.
pub open spec fn system_variables_rewritten(d: Draft) -> Draft {
    if !pattern_matches(SYSTEM_VARIABLE@, d.0) && !pattern_matches(VERSION_CALL@, d.0) {
        d
    } else {
        let out = rewritten(Rewrite::SystemVariable, d.0, regex_captures(SYSTEM_VARIABLE@, d.0));
        (
            spliced_same(out, regex_captures(VERSION_CALL@, out), SERVER_VERSION_LITERAL@),
            d.1.push("rewrote MySQL system variables to compatibility literals"@),
        )
    }
}

pub fn rewrite_mysql_system_variables(sql: &str, warnings: &mut Vec<String>) -> (r: String)
    ensures
        (r@, texts(final(warnings)@)) == system_variables_rewritten((sql@, texts(old(warnings)@))),
        lacks(sql@, '`') ==> lacks(r@, '`'),
{
    proof {
        lemma_words_lack();
    }
    let found = captures(SYSTEM_VARIABLE, sql);
    if found.len() == 0 && !is_match(VERSION_CALL, sql) {
        return sql.to_string();
    }
    push_text(warnings, "rewrote MySQL system variables to compatibility literals".to_string());
    let out = rewrite_matches(Rewrite::SystemVariable, sql, &found);
    let calls = captures(VERSION_CALL, out.as_str());
    splice_same(out.as_str(), &calls, SERVER_VERSION_LITERAL)
}

/// A statement without `SQL_NO_CACHE`.
pub open spec fn select_modifiers_stripped(d: Draft) -> Draft {
    passed(d, Rewrite::SelectModifier, SELECT_MODIFIER@, "stripped MySQL SELECT modifier SQL_NO_CACHE"@)
}

pub fn strip_mysql_select_modifiers(sql: &str, warnings: &mut Vec<String>) -> (r: String)
    ensures
        (r@, texts(final(warnings)@)) == select_modifiers_stripped((sql@, texts(old(warnings)@))),
        lacks(sql@, '`') ==> lacks(r@, '`'),
{
    pass(
        sql,
        Rewrite::SelectModifier,
        SELECT_MODIFIER,
        "stripped MySQL SELECT modifier SQL_NO_CACHE",
        warnings,
    )
}

/// `JSON_EXTRACT(col, '$.a.b')` as `col #>> '{a,b}'`.
pub open spec fn json_rewritten(d: Draft) -> Draft {
    passed(
        d,
        Rewrite::JsonExtract,
        JSON_EXTRACT_CALL@,
        "rewrote JSON_EXTRACT(col, '$.path') to PostgreSQL jsonb #>> '{path}' form where possible"@,
    )
}

pub fn rewrite_json_extract(sql: &str, warnings: &mut Vec<String>) -> (r: String)
    ensures
        (r@, texts(final(warnings)@)) == json_rewritten((sql@, texts(old(warnings)@))),
        lacks(sql@, '`') ==> lacks(r@, '`'),
{
    pass(
        sql,
        Rewrite::JsonExtract,
        JSON_EXTRACT_CALL,
        "rewrote JSON_EXTRACT(col, '$.path') to PostgreSQL jsonb #>> '{path}' form where possible",
        warnings,
    )
}

/// A statement without MySQL's table options.
pub open spec fn table_options_stripped(d: Draft) -> Draft {
    replaced_pass(d, TABLE_OPTIONS@, ")"@, "stripped MySQL table ENGINE/CHARSET options"@)
}

pub fn strip_mysql_table_options(sql: &str, warnings: &mut Vec<String>) -> (r: String)
    ensures
        (r@, texts(final(warnings)@)) == table_options_stripped((sql@, texts(old(warnings)@))),
        lacks(sql@, '`') ==> lacks(r@, '`'),
{
    proof {
        lemma_words_lack();
    }
    replace_pass(sql, TABLE_OPTIONS, ")", "stripped MySQL table ENGINE/CHARSET options", warnings)
}

/// Whether one of the matches names a reserved relation.
pub open spec fn names_reserved(sql: Seq<char>, found: Seq<Seq<Option<(int, int)>>>) -> bool {
    exists|i: int|
        0 <= i < found.len() && same_ignoring_case(#[trigger] group_or_empty(sql, found[i], 2), "user"@)
}

pub fn any_reserved(sql: &str, found: &Vec<Capture>) -> (r: bool)
    requires
        matches_inside(founds(found@), sql@.len() as int),
    ensures
        r == names_reserved(sql@, founds(found@)),
{
    let ghost f = founds(found@);
    let mut i: usize = 0;
    while i < found.len()
        invariant
            i <= found@.len(),
            f == founds(found@),
            matches_inside(f, sql@.len() as int),
            forall|j: int|
                0 <= j < i ==> !same_ignoring_case(#[trigger] group_or_empty(sql@, f[j], 2), "user"@),
        decreases found.len() - i,
    {
        assert(match_inside(f[i as int], sql@.len() as int));
        if eq_ignore_case(found[i].group_or_empty(sql, 2).as_str(), "user") {
            assert(same_ignoring_case(group_or_empty(sql@, f[i as int], 2), "user"@));
            return true;
        }
        i = i + 1;
    }
    false
}

/// A statement with the relations whose name PostgreSQL reserves quoted.
pub open spec fn reserved_relations_quoted(d: Draft) -> Draft {
    let first = regex_captures(RELATION_REFERENCE@, d.0);
    let out = rewritten(Rewrite::ReservedRelation, d.0, first);
    let second = regex_captures(INSERT_RELATION@, out);
    (
        rewritten(Rewrite::ReservedRelation, out, second),
        if names_reserved(d.0, first) || names_reserved(out, second) {
            d.1.push("quoted reserved relation names in translated SQL to preserve PostgreSQL semantics"@)
        } else {
            d.1
        },
    )
}

pub fn quote_reserved_relation_references(sql: &str, warnings: &mut Vec<String>) -> (r: String)
    ensures
        (r@, texts(final(warnings)@)) == reserved_relations_quoted((sql@, texts(old(warnings)@))),
        lacks(sql@, '`') ==> lacks(r@, '`'),
{
    let first = captures(RELATION_REFERENCE, sql);
    let first_changed = any_reserved(sql, &first);
    let out = rewrite_matches(Rewrite::ReservedRelation, sql, &first);
    let second = captures(INSERT_RELATION, out.as_str());
    let second_changed = any_reserved(out.as_str(), &second);
    if first_changed || second_changed {
        push_text(
            warnings,
            "quoted reserved relation names in translated SQL to preserve PostgreSQL semantics".to_string(),
        );
    }
    rewrite_matches(Rewrite::ReservedRelation, out.as_str(), &second)
}

/// A draft with the references to a view of MySQL's catalog, outside quoted text,
/// served by a derived table.
pub open spec fn catalog_view_served(d: Draft, kind: Rewrite, pattern: Seq<char>, warning: Seq<char>) -> Draft {
    pass_over(d, kind, regex_captures(pattern, masked(d.0)), warning)
}

fn serve_catalog_view(sql: &str, kind: Rewrite, pattern: &str, warning: &str, warnings: &mut Vec<String>) -> (r:
    String)
    ensures
        (r@, texts(final(warnings)@)) == catalog_view_served(
            (sql@, texts(old(warnings)@)),
            kind,
            pattern@,
            warning@,
        ),
{
    let hidden = mask_quoted_sql_fragments(sql);
    let found = captures(pattern, hidden.as_str());
    proof {
        masking_keeps_positions(sql@);
    }
    apply_matches(sql, kind, &found, warning, warnings)
}

/// The views of MySQL's catalog that PostgreSQL lacks or has with fewer columns, served
/// by derived tables.
pub open spec fn catalog_views_served(d: Draft) -> Draft {
    catalog_view_served(
        catalog_view_served(
            d,
            Rewrite::CatalogColumns,
            CATALOG_COLUMNS@,
            "served information_schema.columns with MySQL's additional columns"@,
        ),
        Rewrite::CatalogStatistics,
        CATALOG_STATISTICS@,
        "served information_schema.statistics from the PostgreSQL catalog"@,
    )
}

/// Serves `information_schema.columns` and `information_schema.statistics` the way MySQL
/// has them. A derived table takes exactly one alias, so an alias that is there is kept.
pub fn serve_catalog_views(sql: &str, warnings: &mut Vec<String>) -> (r: String)
    ensures
        (r@, texts(final(warnings)@)) == catalog_views_served((sql@, texts(old(warnings)@))),
{
    let out = serve_catalog_view(
        sql,
        Rewrite::CatalogColumns,
        CATALOG_COLUMNS,
        "served information_schema.columns with MySQL's additional columns",
        warnings,
    );
    serve_catalog_view(
        out.as_str(),
        Rewrite::CatalogStatistics,
        CATALOG_STATISTICS,
        "served information_schema.statistics from the PostgreSQL catalog",
        warnings,
    )
}

pub const REPLACE_INTO: &'static str = r"(?i)\bREPLACE\s+INTO\b";

pub const ON_DUPLICATE_KEY: &'static str = r"(?i)\bON\s+DUPLICATE\s+KEY\s+UPDATE\b";

pub const CALC_FOUND_ROWS: &'static str = r"(?i)\bSQL_CALC_FOUND_ROWS\b";

pub const STRAIGHT_JOIN: &'static str = r"(?i)\bSTRAIGHT_JOIN\b";

pub const LOCK_IN_SHARE_MODE: &'static str = r"(?i)\bLOCK\s+IN\s+SHARE\s+MODE\b";

pub const AUTO_INCREMENT: &'static str = r"(?i)\bAUTO_INCREMENT\b";

pub const UNSIGNED: &'static str = r"(?i)\bUNSIGNED\b";

/// The first feature that PostgreSQL has no translation of, given the text without its
/// quoted values.
pub open spec fn unsupported_feature(bare: Seq<char>) -> Option<Seq<char>> {
    if pattern_matches(REPLACE_INTO@, bare) {
        Some("REPLACE INTO is MySQL-specific; use INSERT ... ON CONFLICT in PostgreSQL"@)
    } else if pattern_matches(ON_DUPLICATE_KEY@, bare) {
        Some("ON DUPLICATE KEY UPDATE needs table/key-specific ON CONFLICT translation"@)
    } else if pattern_matches(CALC_FOUND_ROWS@, bare) {
        Some("SQL_CALC_FOUND_ROWS is not supported in PostgreSQL"@)
    } else if pattern_matches(STRAIGHT_JOIN@, bare) {
        Some("STRAIGHT_JOIN is MySQL-specific"@)
    } else if pattern_matches(LOCK_IN_SHARE_MODE@, bare) {
        Some("LOCK IN SHARE MODE is MySQL-specific; use FOR SHARE in PostgreSQL when applicable"@)
    } else if pattern_matches(AUTO_INCREMENT@, bare) {
        Some("AUTO_INCREMENT in DDL requires SERIAL/IDENTITY-aware transformation not yet implemented"@)
    } else if pattern_matches(UNSIGNED@, bare) {
        Some("UNSIGNED numeric types need schema-aware conversion in PostgreSQL"@)
    } else {
        None
    }
}

/// Whether a statement is accepted, or the error it is refused with.
pub open spec fn rejection(sql: Seq<char>) -> Result<(), Failure> {
    match unsupported_feature(masked(sql)) {
        Some(message) => Err(Failure::Translation(message)),
        None => Ok(()),
    }
}

pub open spec fn unit_view(r: Result<(), MiddlewareError>) -> Result<(), Failure> {
    match r {
        Ok(_) => Ok(()),
        Err(e) => Err(e@),
    }
}

/// Refuses a statement that holds, outside quoted values, a feature that PostgreSQL has
/// no translation of.
pub fn reject_unsupported(sql: &str) -> (r: Result<(), MiddlewareError>)
    ensures
        unit_view(r) == rejection(sql@),
{
    let hidden = mask_quoted_sql_fragments(sql);
    let bare = hidden.as_str();
    let message = if is_match(REPLACE_INTO, bare) {
        "REPLACE INTO is MySQL-specific; use INSERT ... ON CONFLICT in PostgreSQL"
    } else if is_match(ON_DUPLICATE_KEY, bare) {
        "ON DUPLICATE KEY UPDATE needs table/key-specific ON CONFLICT translation"
    } else if is_match(CALC_FOUND_ROWS, bare) {
        "SQL_CALC_FOUND_ROWS is not supported in PostgreSQL"
    } else if is_match(STRAIGHT_JOIN, bare) {
        "STRAIGHT_JOIN is MySQL-specific"
    } else if is_match(LOCK_IN_SHARE_MODE, bare) {
        "LOCK IN SHARE MODE is MySQL-specific; use FOR SHARE in PostgreSQL when applicable"
    } else if is_match(AUTO_INCREMENT, bare) {
        "AUTO_INCREMENT in DDL requires SERIAL/IDENTITY-aware transformation not yet implemented"
    } else if is_match(UNSIGNED, bare) {
        "UNSIGNED numeric types need schema-aware conversion in PostgreSQL"
    } else {
        return Ok(());
    };
    Err(MiddlewareError::Translation(message.to_string()))
}

/// What stands inside quoted values has no say in whether a statement is accepted.
pub proof fn quoted_values_are_never_rejected(a: Seq<char>, b: Seq<char>)
    requires
        masked(a) == masked(b),
    ensures
        rejection(a) == rejection(b),
{
}

/// A pass whose pattern finds nothing leaves the text alone and has nothing to say.
pub proof fn passes_without_matches_change_nothing(
    d: Draft,
    kind: Rewrite,
    pattern: Seq<char>,
    with: Seq<char>,
    warning: Seq<char>,
)
    ensures
        !pattern_matches(pattern, d.0) ==> passed(d, kind, pattern, warning) == d && replaced_pass(
            d,
            pattern,
            with,
            warning,
        ) == d,
{
}

/// Whether what a rewrite writes is put together from the match and a few words.
pub open spec fn is_brief(kind: Rewrite) -> bool {
    !(kind is CatalogColumns) && !(kind is CatalogStatistics)
}

proof fn lemma_words_lack()
    ensures
        lacks("LIMIT "@, '`'),
        lacks(" OFFSET "@, '`'),
        lacks("decode('"@, '`'),
        lacks("', 'hex')"@, '`'),
        lacks("'NO_AUTO_VALUE_ON_ZERO'"@, '`'),
        lacks("'11.8.7-MariaDB-ubu2404'"@, '`'),
        lacks("'MariaDB Server'"@, '`'),
        lacks("'utf8mb4_general_ci'"@, '`'),
        lacks("'REPEATABLE-READ'"@, '`'),
        lacks("NULL::text"@, '`'),
        lacks("EXTRACT(EPOCH FROM CURRENT_TIMESTAMP)"@, '`'),
        lacks("EXTRACT(EPOCH FROM "@, '`'),
        lacks(")"@, '`'),
        lacks("TO_TIMESTAMP("@, '`'),
        lacks("CASE WHEN pg_try_advisory_lock(hashtextextended(CAST("@, '`'),
        lacks(" AS text), 0)) THEN 1 ELSE 0 END"@, '`'),
        lacks("CASE WHEN pg_advisory_unlock(hashtextextended(CAST("@, '`'),
        lacks("SELECT "@, '`'),
        lacks(" #>> '{"@, '`'),
        lacks(","@, '`'),
        lacks("}'"@, '`'),
        lacks(" "@, '`'),
{
    reveal_strlit("LIMIT ");
    reveal_strlit(" OFFSET ");
    reveal_strlit("decode('");
    reveal_strlit("', 'hex')");
    reveal_strlit("'NO_AUTO_VALUE_ON_ZERO'");
    reveal_strlit("'11.8.7-MariaDB-ubu2404'");
    reveal_strlit("'MariaDB Server'");
    reveal_strlit("'utf8mb4_general_ci'");
    reveal_strlit("'REPEATABLE-READ'");
    reveal_strlit("NULL::text");
    reveal_strlit("EXTRACT(EPOCH FROM CURRENT_TIMESTAMP)");
    reveal_strlit("EXTRACT(EPOCH FROM ");
    reveal_strlit(")");
    reveal_strlit("TO_TIMESTAMP(");
    reveal_strlit("CASE WHEN pg_try_advisory_lock(hashtextextended(CAST(");
    reveal_strlit(" AS text), 0)) THEN 1 ELSE 0 END");
    reveal_strlit("CASE WHEN pg_advisory_unlock(hashtextextended(CAST(");
    reveal_strlit("SELECT ");
    reveal_strlit(" #>> '{");
    reveal_strlit(",");
    reveal_strlit("}'");
    reveal_strlit(" ");
}

proof fn lemma_three(a: Seq<char>, b: Seq<char>, c: Seq<char>)
    requires
        lacks(a, '`'),
        lacks(b, '`'),
        lacks(c, '`'),
    ensures
        lacks(a + b + c, '`'),
{
    lemma_lacks_add(a, b, '`');
    lemma_lacks_add(a + b, c, '`');
}

/// What stands in place of a match brings in no backtick.
proof fn lemma_rewrite_lacks(kind: Rewrite, text: Seq<char>, m: Seq<Option<(int, int)>>)
    requires
        is_brief(kind),
        match_inside(m, text.len() as int),
        lacks(text, '`'),
    ensures
        lacks(rewrite_of(kind, text, m), '`'),
{
    lemma_words_lack();
    lemma_group_lacks(text, m, 0, '`');
    lemma_group_lacks(text, m, 1, '`');
    lemma_group_lacks(text, m, 2, '`');
    let one = group_or_empty(text, m, 1);
    let two = group_or_empty(text, m, 2);
    lemma_lacks_trimmed(one, '`');
    match kind {
        Rewrite::LimitOperands => {
            lemma_three("LIMIT "@, two, " OFFSET "@);
            lemma_lacks_add("LIMIT "@ + two + " OFFSET "@, one, '`');
        },
        Rewrite::HexLiteral => {
            lemma_three("decode('"@, one, "', 'hex')"@);
        },
        Rewrite::SystemVariable => {},
        Rewrite::UnixTimestamp => {
            lemma_three("EXTRACT(EPOCH FROM "@, trimmed(one), ")"@);
        },
        Rewrite::FromUnixtime => {
            lemma_three("TO_TIMESTAMP("@, trimmed(one), ")"@);
        },
        Rewrite::GetLock => {
            lemma_three(
                "CASE WHEN pg_try_advisory_lock(hashtextextended(CAST("@,
                trimmed(one),
                " AS text), 0)) THEN 1 ELSE 0 END"@,
            );
        },
        Rewrite::ReleaseLock => {
            lemma_three(
                "CASE WHEN pg_advisory_unlock(hashtextextended(CAST("@,
                trimmed(one),
                " AS text), 0)) THEN 1 ELSE 0 END"@,
            );
        },
        Rewrite::SelectModifier => {
            lemma_lacks_add("SELECT "@, one, '`');
        },
        Rewrite::JsonExtract => {
            lemma_lacks_split(two, '.', '`');
            lemma_lacks_joined(split(two, '.'), ","@, '`');
            lemma_three(one, " #>> '{"@, joined(split(two, '.'), ","@));
            lemma_lacks_add(one + " #>> '{"@ + joined(split(two, '.'), ","@), "}'"@, '`');
        },
        Rewrite::ReservedRelation => {
            lemma_quoted_ident_lacks(two);
            lemma_three(one, " "@, quoted_ident(two));
        },
        _ => {},
    }
}

proof fn lemma_rewritten_lacks(kind: Rewrite, text: Seq<char>, found: Seq<Seq<Option<(int, int)>>>)
    requires
        is_brief(kind),
        matches_inside(found, text.len() as int),
        lacks(text, '`'),
    ensures
        lacks(rewritten(kind, text, found), '`'),
{
    let reps = rewrites(kind, text, found);
    assert forall|i: int| 0 <= i < reps.len() implies lacks(#[trigger] reps[i], '`') by {
        assert(match_inside(found[i], text.len() as int));
        lemma_rewrite_lacks(kind, text, found[i]);
    }
    lemma_spliced_lacks(text, found, reps, '`');
}

} // verus!
