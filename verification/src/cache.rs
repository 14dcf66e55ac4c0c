//! A cache of translations. Applications issue the same statements over and over, and a
//! translation depends on nothing but the statement and the configuration.
use vstd::prelude::*;
use std::collections::hash_map::RandomState;

use crate::config::TranslatorConfig;
use crate::error::{Failure, MiddlewareError};
use crate::text::{cat2, lacks};
use crate::translator::{
    translate_sql, translation, translation_view, unticks, Translation, TranslationResult,
};

verus! {

/// The cache of the `lru` crate: a map of bounded size from which the entry that was used
/// least recently leaves first.
#[verifier::external_type_specification]
#[verifier::external_body]
#[verifier::reject_recursive_types(K)]
#[verifier::reject_recursive_types(V)]
#[verifier::reject_recursive_types(S)]
pub struct ExLruCache<K, V, S>(lru::LruCache<K, V, S>);

/// The entries of a cache, each a key and its value, the one that was used last first.
pub uninterp spec fn cache_entries(c: lru::LruCache<String, TranslationResult, RandomState>) -> Seq<(Seq<char>, Translation)>;

/// How many entries a cache holds at most.
pub uninterp spec fn cache_limit(c: lru::LruCache<String, TranslationResult, RandomState>) -> nat;

/// No entries at all.
pub open spec fn no_entries() -> Seq<(Seq<char>, Translation)> {
    Seq::empty()
}

/// The position of the first entry with a key, or -1.
pub open spec fn place_of(entries: Seq<(Seq<char>, Translation)>, key: Seq<char>) -> int
    decreases entries.len(),
{
    if entries.len() == 0 {
        -1
    } else if entries[0].0 == key {
        0
    } else {
        let p = place_of(entries.skip(1), key);
        if p < 0 {
            -1
        } else {
            p + 1
        }
    }
}

/// The entries after the one with a key was used: it stands in front now.
pub open spec fn entries_used(entries: Seq<(Seq<char>, Translation)>, key: Seq<char>) -> Seq<(Seq<char>, Translation)> {
    let p = place_of(entries, key);
    if p < 0 {
        entries
    } else {
        seq![entries[p]] + entries.remove(p)
    }
}

/// The entries after a value was put under a key: it stands in front, in place of the
/// value that stood under the key, or else, where there is no room for one more, of the
/// entry that was not used for the longest time.
pub open spec fn entries_put(
    entries: Seq<(Seq<char>, Translation)>,
    key: Seq<char>,
    value: Translation,
    limit: nat,
) -> Seq<(Seq<char>, Translation)> {
    let p = place_of(entries, key);
    if p >= 0 {
        seq![(key, value)] + entries.remove(p)
    } else if entries.len() >= limit {
        seq![(key, value)] + entries.drop_last()
    } else {
        seq![(key, value)] + entries
    }
}

/// `lru::LruCache::with_hasher`: an empty cache that holds at most so many entries.
#[verifier::external_body]
fn new_lru(limit: usize) -> (r: lru::LruCache<String, TranslationResult, RandomState>)
    requires
        limit > 0,
    ensures
        cache_entries(r) == no_entries(),
        cache_limit(r) == limit,
{
    let cap = std::num::NonZeroUsize::new(limit).expect("the limit is not zero");
    lru::LruCache::with_hasher(cap, RandomState::new())
}

/// `lru::LruCache::get`: the value under a key, which counts as used by that.
#[verifier::external_body]
fn lru_get<'a>(c: &'a mut lru::LruCache<String, TranslationResult, RandomState>, key: &str) -> (r: Option<
    &'a TranslationResult,
>)
    ensures
        cache_entries(*final(c)) == entries_used(cache_entries(*old(c)), key@),
        cache_limit(*final(c)) == cache_limit(*old(c)),
        match r {
            Some(v) => place_of(cache_entries(*old(c)), key@) >= 0 && v@ == cache_entries(*old(c))[place_of(
                cache_entries(*old(c)),
                key@,
            )].1,
            None => place_of(cache_entries(*old(c)), key@) < 0,
        },
{
    c.get(key)
}

/// `lru::LruCache::put`: the value stands under the key, in front. Where the key is new
/// and the cache is full, the entry that was used least recently leaves.
#[verifier::external_body]
fn lru_put(c: &mut lru::LruCache<String, TranslationResult, RandomState>, key: String, value: TranslationResult)
    requires
        cache_limit(*old(c)) > 0,
    ensures
        cache_limit(*final(c)) == cache_limit(*old(c)),
        cache_entries(*final(c)) == entries_put(cache_entries(*old(c)), key@, value@, cache_limit(*old(c))),
{
    c.put(key, value);
}

/// How many translations are kept.
pub const TRANSLATION_CACHE_CAPACITY: usize = 1024;

pub open spec fn flag_char(b: bool) -> char {
    if b {
        '1'
    } else {
        '0'
    }
}

/// The flags of a configuration, one character each.
pub open spec fn config_key(c: TranslatorConfig) -> Seq<char> {
    seq![
        flag_char(c.rewrite_limit_comma),
        flag_char(c.normalize_mysql_backticks),
        flag_char(c.normalize_boolean_literals),
        flag_char(c.rewrite_mysql_functions),
        flag_char(c.rewrite_json_operators),
        flag_char(c.strip_mysql_table_options),
        flag_char(c.ansi_quotes),
    ]
}

/// The key of a statement under a configuration.
pub open spec fn cache_key(c: TranslatorConfig, sql: Seq<char>) -> Seq<char> {
    config_key(c) + sql
}

/// Different statements, and one statement under different configurations, have
/// different keys.
pub proof fn keys_tell_statements_apart(c: TranslatorConfig, sql: Seq<char>, d: TranslatorConfig, other: Seq<char>)
    requires
        cache_key(c, sql) == cache_key(d, other),
    ensures
        c == d,
        sql == other,
{
    let a = cache_key(c, sql);
    let b = cache_key(d, other);
    assert(a[0] == b[0] && a[1] == b[1] && a[2] == b[2] && a[3] == b[3] && a[4] == b[4] && a[5] == b[5] && a[6]
        == b[6]);
    assert(config_key(c) =~= a.take(7));
    assert(config_key(d) =~= b.take(7));
    assert(config_key(c)[0] == config_key(d)[0]);
    assert(config_key(c)[1] == config_key(d)[1]);
    assert(config_key(c)[2] == config_key(d)[2]);
    assert(config_key(c)[3] == config_key(d)[3]);
    assert(config_key(c)[4] == config_key(d)[4]);
    assert(config_key(c)[5] == config_key(d)[5]);
    assert(config_key(c)[6] == config_key(d)[6]);
    assert(sql =~= a.skip(7));
    assert(other =~= b.skip(7));
}

fn flag(b: bool) -> (r: char)
    ensures
        r == flag_char(b),
{
    if b {
        '1'
    } else {
        '0'
    }
}

fn make_key(cfg: &TranslatorConfig, sql: &str) -> (r: String)
    ensures
        r@ == cache_key(*cfg, sql@),
{
    let mut key = String::new();
    key.push(flag(cfg.rewrite_limit_comma));
    key.push(flag(cfg.normalize_mysql_backticks));
    key.push(flag(cfg.normalize_boolean_literals));
    key.push(flag(cfg.rewrite_mysql_functions));
    key.push(flag(cfg.rewrite_json_operators));
    key.push(flag(cfg.strip_mysql_table_options));
    key.push(flag(cfg.ansi_quotes));
    assert(key@ =~= config_key(*cfg));
    cat2(key.as_str(), sql)
}

/// Translations that were made, ready to be given out again.
pub struct TranslationCache {
    entries: lru::LruCache<String, TranslationResult, RandomState>,
}

proof fn lemma_place(entries: Seq<(Seq<char>, Translation)>, key: Seq<char>)
    ensures
        place_of(entries, key) < entries.len(),
        place_of(entries, key) >= 0 ==> entries[place_of(entries, key)].0 == key,
    decreases entries.len(),
{
    if entries.len() > 0 && entries[0].0 != key {
        lemma_place(entries.skip(1), key);
    }
}

/// Whether a translation is that of a statement, without a backtick where none is left.
pub open spec fn is_translation(t: Translation, sql: Seq<char>, cfg: TranslatorConfig) -> bool {
    translation(sql, cfg) == Ok::<Translation, Failure>(t) && (unticks(cfg) ==> lacks(t.translated_sql, '`'))
}

/// Whether every entry is the translation of the statement that its key stands for.
pub open spec fn all_true(entries: Seq<(Seq<char>, Translation)>) -> bool {
    forall|i: int, cfg: TranslatorConfig, sql: Seq<char>|
        0 <= i < entries.len() && #[trigger] entries[i].0 == #[trigger] cache_key(cfg, sql) ==> is_translation(
            entries[i].1,
            sql,
            cfg,
        )
}

impl TranslationCache {
    /// The translations that are kept, the one that was used last first.
    pub closed spec fn entries(self) -> Seq<(Seq<char>, Translation)> {
        cache_entries(self.entries)
    }

    /// How many translations are kept at most.
    pub closed spec fn limit(self) -> nat {
        cache_limit(self.entries)
    }

    /// Whether every entry is the translation of the statement that its key stands for,
    /// and no more are kept than may be.
    pub open spec fn faithful(self) -> bool {
        self.limit() == TRANSLATION_CACHE_CAPACITY && self.entries().len() <= self.limit() && all_true(
            self.entries(),
        )
    }

    /// An empty cache.
    pub fn new() -> (r: Self)
        ensures
            r.faithful(),
            r.entries() == no_entries(),
    {
        TranslationCache { entries: new_lru(TRANSLATION_CACHE_CAPACITY) }
    }

    /// Translates a statement, from the cache where it is there. What comes out is the
    /// translation of the statement either way.
    pub fn translate_sql(&mut self, sql: &str, cfg: &TranslatorConfig) -> (r: Result<
        TranslationResult,
        MiddlewareError,
    >)
        requires
            old(self).faithful(),
        ensures
            translation_view(r) == translation(sql@, *cfg),
            unticks(*cfg) ==> (r matches Ok(t) ==> lacks(t.translated_sql@, '`')),
            final(self).faithful(),
            match r {
                Err(_) => final(self).entries() == old(self).entries(),
                Ok(t) => final(self).entries() == (if place_of(old(self).entries(), cache_key(*cfg, sql@)) >= 0 {
                    entries_used(old(self).entries(), cache_key(*cfg, sql@))
                } else {
                    entries_put(old(self).entries(), cache_key(*cfg, sql@), t@, old(self).limit())
                }),
            },
    {
        let ghost start = self.entries();
        let key = make_key(cfg, sql);
        let ghost k = key@;
        proof {
            lemma_place(start, k);
        }
        match lru_get(&mut self.entries, key.as_str()) {
            Some(hit) => {
                let copy = hit.duplicate();
                proof {
                    let p = place_of(start, k);
                    assert(start[p].0 == cache_key(*cfg, sql@));
                    let now = self.entries();
                    assert forall|i: int, c: TranslatorConfig, s: Seq<char>|
                        0 <= i < now.len() && #[trigger] now[i].0 == #[trigger] cache_key(c, s) implies is_translation(
                        now[i].1,
                        s,
                        c,
                    ) by {
                        let j = if i == 0 {
                            p
                        } else if i <= p {
                            i - 1
                        } else {
                            i
                        };
                        assert(now[i] == start[j]);
                    }
                }
                return Ok(copy);
            },
            None => {},
        }
        match translate_sql(sql, cfg) {
            Err(e) => Err(e),
            Ok(result) => {
                lru_put(&mut self.entries, key, result.duplicate());
                proof {
                    let now = self.entries();
                    assert forall|i: int, c: TranslatorConfig, s: Seq<char>|
                        0 <= i < now.len() && #[trigger] now[i].0 == #[trigger] cache_key(c, s) implies is_translation(
                        now[i].1,
                        s,
                        c,
                    ) by {
                        if i == 0 {
                            keys_tell_statements_apart(c, s, *cfg, sql@);
                        } else {
                            assert(now[i] == start[i - 1]);
                        }
                    }
                }
                Ok(result)
            },
        }
    }
}

/// The translation that was used last outlives the next new one, wherever more than one
/// is kept.
pub proof fn the_last_translation_is_kept(
    entries: Seq<(Seq<char>, Translation)>,
    key: Seq<char>,
    value: Translation,
    limit: nat,
)
    requires
        limit > 1,
        0 < entries.len() <= limit,
        place_of(entries, key) < 0,
    ensures
        entries_put(entries, key, value, limit).len() <= limit,
        entries_put(entries, key, value, limit)[0] == (key, value),
        entries_put(entries, key, value, limit)[1] == entries[0],
{
}

} // verus!
