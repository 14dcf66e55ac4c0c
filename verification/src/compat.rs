//! PostgreSQL functions that stand in for MySQL builtins.
use vstd::prelude::*;

use crate::text::{cat3, contains, occurs, same};

verus! {

pub const CRC32_FUNCTION: &'static str = r#"
    CREATE OR REPLACE FUNCTION crc32(data bytea) RETURNS bigint AS $$
    DECLARE
        crc bigint := 4294967295;
        byte int;
        i int;
        j int;
    BEGIN
        IF data IS NULL THEN
            RETURN NULL;
        END IF;
        FOR i IN 0 .. length(data) - 1 LOOP
            byte := get_byte(data, i);
            crc := crc # byte;
            FOR j IN 1..8 LOOP
                IF (crc & 1) = 1 THEN
                    crc := (crc >> 1) # 3988292384;
                ELSE
                    crc := crc >> 1;
                END IF;
            END LOOP;
        END LOOP;
        RETURN crc # 4294967295;
    END;
    $$ LANGUAGE plpgsql IMMUTABLE STRICT;

    CREATE OR REPLACE FUNCTION crc32(data text) RETURNS bigint AS $$
        SELECT crc32(convert_to(data, 'UTF8'));
    $$ LANGUAGE sql IMMUTABLE STRICT;
    "#;

pub const SHA2_FUNCTION: &'static str = r#"
    -- PostgreSQL has no SHA2(); it ships native sha224/256/384/512 (PG14+) that
    -- MySQL's SHA2(str, hash_length) dispatches to by its second argument.
    CREATE OR REPLACE FUNCTION sha2(data text, hash_length integer) RETURNS text AS $$
        SELECT CASE hash_length
            WHEN 0 THEN encode(sha256(convert_to(data, 'UTF8')), 'hex')
            WHEN 256 THEN encode(sha256(convert_to(data, 'UTF8')), 'hex')
            WHEN 224 THEN encode(sha224(convert_to(data, 'UTF8')), 'hex')
            WHEN 384 THEN encode(sha384(convert_to(data, 'UTF8')), 'hex')
            WHEN 512 THEN encode(sha512(convert_to(data, 'UTF8')), 'hex')
            ELSE NULL
        END;
    $$ LANGUAGE sql IMMUTABLE STRICT;
    "#;

pub const WEEKDAY_FUNCTION: &'static str = r#"
    -- MySQL WEEKDAY(): 0=Monday .. 6=Sunday. PostgreSQL's closest native equivalent,
    -- EXTRACT(ISODOW FROM ...), is 1=Monday..7=Sunday, so this just shifts it by one.
    CREATE OR REPLACE FUNCTION weekday(d date) RETURNS integer AS $$
        SELECT EXTRACT(ISODOW FROM d)::integer - 1;
    $$ LANGUAGE sql IMMUTABLE STRICT;

    CREATE OR REPLACE FUNCTION weekday(d timestamp) RETURNS integer AS $$
        SELECT EXTRACT(ISODOW FROM d)::integer - 1;
    $$ LANGUAGE sql IMMUTABLE STRICT;
    "#;

pub const DAYNAME_FUNCTION: &'static str = r#"
    CREATE OR REPLACE FUNCTION dayname(d date) RETURNS text AS $$
        SELECT trim(to_char(d, 'FMDay'));
    $$ LANGUAGE sql IMMUTABLE STRICT;

    CREATE OR REPLACE FUNCTION dayname(d timestamp) RETURNS text AS $$
        SELECT trim(to_char(d, 'FMDay'));
    $$ LANGUAGE sql IMMUTABLE STRICT;
    "#;

pub const MONTHNAME_FUNCTION: &'static str = r#"
    CREATE OR REPLACE FUNCTION monthname(d date) RETURNS text AS $$
        SELECT trim(to_char(d, 'FMMonth'));
    $$ LANGUAGE sql IMMUTABLE STRICT;

    CREATE OR REPLACE FUNCTION monthname(d timestamp) RETURNS text AS $$
        SELECT trim(to_char(d, 'FMMonth'));
    $$ LANGUAGE sql IMMUTABLE STRICT;
    "#;

pub const LOCATE_FUNCTION: &'static str = r#"
    -- MySQL LOCATE(substr, str[, pos]) is POSITION(substr IN str) with the argument
    -- order swapped, plus an optional 1-based start position PostgreSQL has no
    -- built-in equivalent for.
    CREATE OR REPLACE FUNCTION locate(needle text, haystack text) RETURNS integer AS $$
        SELECT position(needle IN haystack);
    $$ LANGUAGE sql IMMUTABLE STRICT;

    CREATE OR REPLACE FUNCTION locate(needle text, haystack text, start_pos integer) RETURNS integer AS $$
        SELECT CASE
            WHEN start_pos < 1 THEN 0
            ELSE (
                SELECT CASE WHEN pos = 0 THEN 0 ELSE pos + start_pos - 1 END
                FROM (SELECT position(needle IN substring(haystack FROM start_pos)) AS pos) sub
            )
        END;
    $$ LANGUAGE sql IMMUTABLE STRICT;
    "#;

pub const ROUND_FUNCTION: &'static str = r#"
    -- MySQL rounds floats to a given number of decimals; PostgreSQL only defines the
    -- two-argument round() for `numeric`, so ROUND(<float>, n) fails to resolve.
    -- Routing through numeric keeps MySQL's behaviour. A `real` argument reaches
    -- this via PostgreSQL's implicit widening to double precision.
    CREATE OR REPLACE FUNCTION round(value double precision, places integer) RETURNS double precision AS $$
        SELECT round(value::numeric, places)::double precision;
    $$ LANGUAGE sql IMMUTABLE STRICT;
    "#;

pub const HOUR_FUNCTION: &'static str = r#"
    -- MySQL exposes date parts as functions (HOUR(t), MONTH(d), ...); PostgreSQL
    -- only has EXTRACT. Matomo's VisitTime reports call HOUR() directly.
    CREATE OR REPLACE FUNCTION hour(value time) RETURNS integer AS $$
        SELECT EXTRACT(HOUR FROM value)::integer;
    $$ LANGUAGE sql IMMUTABLE STRICT;

    CREATE OR REPLACE FUNCTION hour(value timestamp) RETURNS integer AS $$
        SELECT EXTRACT(HOUR FROM value)::integer;
    $$ LANGUAGE sql IMMUTABLE STRICT;

    CREATE OR REPLACE FUNCTION minute(value time) RETURNS integer AS $$
        SELECT EXTRACT(MINUTE FROM value)::integer;
    $$ LANGUAGE sql IMMUTABLE STRICT;

    CREATE OR REPLACE FUNCTION minute(value timestamp) RETURNS integer AS $$
        SELECT EXTRACT(MINUTE FROM value)::integer;
    $$ LANGUAGE sql IMMUTABLE STRICT;

    CREATE OR REPLACE FUNCTION second(value time) RETURNS integer AS $$
        SELECT EXTRACT(SECOND FROM value)::integer;
    $$ LANGUAGE sql IMMUTABLE STRICT;

    CREATE OR REPLACE FUNCTION second(value timestamp) RETURNS integer AS $$
        SELECT EXTRACT(SECOND FROM value)::integer;
    $$ LANGUAGE sql IMMUTABLE STRICT;
    "#;

pub const DAYOFMONTH_FUNCTION: &'static str = r#"
    CREATE OR REPLACE FUNCTION dayofmonth(value date) RETURNS integer AS $$
        SELECT EXTRACT(DAY FROM value)::integer;
    $$ LANGUAGE sql IMMUTABLE STRICT;

    CREATE OR REPLACE FUNCTION dayofmonth(value timestamp) RETURNS integer AS $$
        SELECT EXTRACT(DAY FROM value)::integer;
    $$ LANGUAGE sql IMMUTABLE STRICT;

    -- MySQL DAYOFWEEK() is 1=Sunday..7=Saturday; PostgreSQL's DOW is 0=Sunday..6.
    CREATE OR REPLACE FUNCTION dayofweek(value date) RETURNS integer AS $$
        SELECT EXTRACT(DOW FROM value)::integer + 1;
    $$ LANGUAGE sql IMMUTABLE STRICT;

    CREATE OR REPLACE FUNCTION dayofweek(value timestamp) RETURNS integer AS $$
        SELECT EXTRACT(DOW FROM value)::integer + 1;
    $$ LANGUAGE sql IMMUTABLE STRICT;

    CREATE OR REPLACE FUNCTION dayofyear(value date) RETURNS integer AS $$
        SELECT EXTRACT(DOY FROM value)::integer;
    $$ LANGUAGE sql IMMUTABLE STRICT;

    CREATE OR REPLACE FUNCTION dayofyear(value timestamp) RETURNS integer AS $$
        SELECT EXTRACT(DOY FROM value)::integer;
    $$ LANGUAGE sql IMMUTABLE STRICT;
    "#;

pub const HEX_FUNCTION: &'static str = r#"
    -- MySQL HEX()/UNHEX() map onto PostgreSQL's encode()/decode(). MySQL returns
    -- uppercase hex, which matters when the result is compared as a string.
    CREATE OR REPLACE FUNCTION hex(value bytea) RETURNS text AS $$
        SELECT upper(encode(value, 'hex'));
    $$ LANGUAGE sql IMMUTABLE STRICT;

    CREATE OR REPLACE FUNCTION hex(value text) RETURNS text AS $$
        SELECT upper(encode(convert_to(value, 'UTF8'), 'hex'));
    $$ LANGUAGE sql IMMUTABLE STRICT;

    CREATE OR REPLACE FUNCTION hex(value bigint) RETURNS text AS $$
        SELECT upper(to_hex(value));
    $$ LANGUAGE sql IMMUTABLE STRICT;

    CREATE OR REPLACE FUNCTION unhex(value text) RETURNS bytea AS $$
        SELECT decode(value, 'hex');
    $$ LANGUAGE sql IMMUTABLE STRICT;
    "#;

/// The names of the functions, in the order in which they are installed.
pub open spec fn compat_names() -> Seq<Seq<char>> {
    seq!["crc32"@, "sha2"@, "weekday"@, "dayname"@, "monthname"@, "locate"@, "round"@, "hour"@, "dayofmonth"@, "hex"@]
}

/// The statements that create a function; nothing for a name that is not known.
pub open spec fn compat_sql(name: Seq<char>) -> Option<Seq<char>> {
    if name == "crc32"@ {
        Some(CRC32_FUNCTION@)
    } else if name == "sha2"@ {
        Some(SHA2_FUNCTION@)
    } else if name == "weekday"@ {
        Some(WEEKDAY_FUNCTION@)
    } else if name == "dayname"@ {
        Some(DAYNAME_FUNCTION@)
    } else if name == "monthname"@ {
        Some(MONTHNAME_FUNCTION@)
    } else if name == "locate"@ {
        Some(LOCATE_FUNCTION@)
    } else if name == "round"@ {
        Some(ROUND_FUNCTION@)
    } else if name == "hour"@ {
        Some(HOUR_FUNCTION@)
    } else if name == "dayofmonth"@ {
        Some(DAYOFMONTH_FUNCTION@)
    } else if name == "hex"@ {
        Some(HEX_FUNCTION@)
    } else {
        None
    }
}

/// The statements that create a function.
pub fn compat_function_sql(name: &str) -> (r: Option<&'static str>)
    ensures
        match r {
            Some(s) => compat_sql(name@) == Some(s@),
            None => compat_sql(name@) is None,
        },
{
    if same(name, "crc32") {
        Some(CRC32_FUNCTION)
    } else if same(name, "sha2") {
        Some(SHA2_FUNCTION)
    } else if same(name, "weekday") {
        Some(WEEKDAY_FUNCTION)
    } else if same(name, "dayname") {
        Some(DAYNAME_FUNCTION)
    } else if same(name, "monthname") {
        Some(MONTHNAME_FUNCTION)
    } else if same(name, "locate") {
        Some(LOCATE_FUNCTION)
    } else if same(name, "round") {
        Some(ROUND_FUNCTION)
    } else if same(name, "hour") {
        Some(HOUR_FUNCTION)
    } else if same(name, "dayofmonth") {
        Some(DAYOFMONTH_FUNCTION)
    } else if same(name, "hex") {
        Some(HEX_FUNCTION)
    } else {
        None
    }
}

/// The names of the functions, in the order in which they are installed.
pub fn compat_function_names() -> (r: Vec<&'static str>)
    ensures
        r@.len() == compat_names().len(),
        forall|i: int| 0 <= i < r@.len() ==> (#[trigger] r@[i])@ == compat_names()[i],
{
    vec!["crc32", "sha2", "weekday", "dayname", "monthname", "locate", "round", "hour", "dayofmonth", "hex"]
}

/// The first function from `i` on that a message says is missing.
pub open spec fn named_missing(message: Seq<char>, i: int) -> Option<Seq<char>>
    decreases compat_names().len() - i,
{
    if i < 0 || i >= compat_names().len() {
        None
    } else if occurs(message, "function "@ + compat_names()[i] + "("@) {
        Some(compat_names()[i])
    } else {
        named_missing(message, i + 1)
    }
}

/// The known function that a message, in lower case, says is missing.
pub fn find_missing(message: &str) -> (r: Option<&'static str>)
    ensures
        match r {
            Some(name) => named_missing(message@, 0) == Some(name@),
            None => named_missing(message@, 0) is None,
        },
{
    let names = compat_function_names();
    let mut i: usize = 0;
    while i < names.len()
        invariant
            names@.len() == compat_names().len(),
            forall|j: int| 0 <= j < names@.len() ==> (#[trigger] names@[j])@ == compat_names()[j],
            i <= names@.len(),
            named_missing(message@, i as int) == named_missing(message@, 0),
        decreases names.len() - i,
    {
        if contains(message, cat3("function ", names[i], "(").as_str()) {
            return Some(names[i]);
        }
        i = i + 1;
    }
    None
}

proof fn lemma_missing_is_known(message: Seq<char>, i: int)
    requires
        0 <= i,
    ensures
        named_missing(message, i) matches Some(name) ==> compat_sql(name) is Some,
    decreases compat_names().len() - i,
{
    if i < compat_names().len() {
        lemma_missing_is_known(message, i + 1);
        assert(compat_sql(compat_names()[i]) is Some);
    }
}

/// A function that is found missing can be created.
pub proof fn missing_functions_can_be_created(message: Seq<char>)
    ensures
        named_missing(message, 0) matches Some(name) ==> compat_sql(name) is Some,
{
    lemma_missing_is_known(message, 0);
}

} // verus!
