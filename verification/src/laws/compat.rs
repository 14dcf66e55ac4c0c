//! The functions that PostgreSQL is given for MySQL's.
use vstd::prelude::*;

use crate::compat::{
    compat_sql, CRC32_FUNCTION, DAYNAME_FUNCTION, DAYOFMONTH_FUNCTION, HEX_FUNCTION, HOUR_FUNCTION,
    LOCATE_FUNCTION, MONTHNAME_FUNCTION, ROUND_FUNCTION, SHA2_FUNCTION, WEEKDAY_FUNCTION,
};
use crate::text::{occurs, occurs_at};

verus! {

#[verifier::spinoff_prover]
#[verifier::rlimit(50)]
proof fn lemma_crc32()
    ensures
        occurs(CRC32_FUNCTION@, "FUNCTION crc32(data bytea) RETURNS bigint"@),
        occurs(CRC32_FUNCTION@, "crc bigint := 4294967295;"@),
        occurs(CRC32_FUNCTION@, "crc := crc # byte;"@),
        occurs(CRC32_FUNCTION@, "FOR j IN 1..8 LOOP"@),
        occurs(CRC32_FUNCTION@, "IF (crc & 1) = 1 THEN"@),
        occurs(CRC32_FUNCTION@, "crc := (crc >> 1) # 3988292384;"@),
        occurs(CRC32_FUNCTION@, "RETURN crc # 4294967295;"@),
        occurs(CRC32_FUNCTION@, "CREATE OR REPLACE FUNCTION crc32(data text) RETURNS bigint AS $$\n        SELECT crc32(convert_to(data, 'UTF8'));\n    $$ LANGUAGE"@),
{
    reveal_strlit("\n    CREATE OR REPLACE FUNCTION crc32(data bytea) RETURNS bigint AS $$\n    DECLARE\n        crc bigint := 4294967295;\n        byte int;\n        i int;\n        j int;\n    BEGIN\n        IF data IS NULL THEN\n            RETURN NULL;\n        END IF;\n        FOR i IN 0 .. length(data) - 1 LOOP\n            byte := get_byte(data, i);\n            crc := crc # byte;\n            FOR j IN 1..8 LOOP\n                IF (crc & 1) = 1 THEN\n                    crc := (crc >> 1) # 3988292384;\n                ELSE\n                    crc := crc >> 1;\n                END IF;\n            END LOOP;\n        END LOOP;\n        RETURN crc # 4294967295;\n    END;\n    $$ LANGUAGE plpgsql IMMUTABLE STRICT;\n\n    CREATE OR REPLACE FUNCTION crc32(data text) RETURNS bigint AS $$\n        SELECT crc32(convert_to(data, 'UTF8'));\n    $$ LANGUAGE sql IMMUTABLE STRICT;\n    ");
    reveal_strlit("FUNCTION crc32(data bytea) RETURNS bigint");
    assert(CRC32_FUNCTION@.subrange(23, 64) =~= "FUNCTION crc32(data bytea) RETURNS bigint"@);
    assert(occurs_at(CRC32_FUNCTION@, "FUNCTION crc32(data bytea) RETURNS bigint"@, 23));
    reveal_strlit("crc bigint := 4294967295;");
    assert(CRC32_FUNCTION@.subrange(91, 116) =~= "crc bigint := 4294967295;"@);
    assert(occurs_at(CRC32_FUNCTION@, "crc bigint := 4294967295;"@, 91));
    reveal_strlit("crc := crc # byte;");
    assert(CRC32_FUNCTION@.subrange(340, 358) =~= "crc := crc # byte;"@);
    assert(occurs_at(CRC32_FUNCTION@, "crc := crc # byte;"@, 340));
    reveal_strlit("FOR j IN 1..8 LOOP");
    assert(CRC32_FUNCTION@.subrange(371, 389) =~= "FOR j IN 1..8 LOOP"@);
    assert(occurs_at(CRC32_FUNCTION@, "FOR j IN 1..8 LOOP"@, 371));
    reveal_strlit("IF (crc & 1) = 1 THEN");
    assert(CRC32_FUNCTION@.subrange(406, 427) =~= "IF (crc & 1) = 1 THEN"@);
    assert(occurs_at(CRC32_FUNCTION@, "IF (crc & 1) = 1 THEN"@, 406));
    reveal_strlit("crc := (crc >> 1) # 3988292384;");
    assert(CRC32_FUNCTION@.subrange(448, 479) =~= "crc := (crc >> 1) # 3988292384;"@);
    assert(occurs_at(CRC32_FUNCTION@, "crc := (crc >> 1) # 3988292384;"@, 448));
    reveal_strlit("RETURN crc # 4294967295;");
    assert(CRC32_FUNCTION@.subrange(610, 634) =~= "RETURN crc # 4294967295;"@);
    assert(occurs_at(CRC32_FUNCTION@, "RETURN crc # 4294967295;"@, 610));
    reveal_strlit("CREATE OR REPLACE FUNCTION crc32(data text) RETURNS bigint AS $$\n        SELECT crc32(convert_to(data, 'UTF8'));\n    $$ LANGUAGE");
    assert(CRC32_FUNCTION@.subrange(691, 819) =~= "CREATE OR REPLACE FUNCTION crc32(data text) RETURNS bigint AS $$\n        SELECT crc32(convert_to(data, 'UTF8'));\n    $$ LANGUAGE"@);
    assert(occurs_at(CRC32_FUNCTION@, "CREATE OR REPLACE FUNCTION crc32(data text) RETURNS bigint AS $$\n        SELECT crc32(convert_to(data, 'UTF8'));\n    $$ LANGUAGE"@, 691));
}

#[verifier::spinoff_prover]
#[verifier::rlimit(50)]
proof fn lemma_sha2()
    ensures
        occurs(SHA2_FUNCTION@, "CREATE OR REPLACE FUNCTION sha2(data text, hash_length integer) RETURNS text AS $$\n        SELECT CASE hash_length\n            WHEN 0 THEN encode(sha256(convert_to(data, 'UTF8')), 'hex')\n            WHEN 256 THEN encode(sha256(convert_to(data, 'UTF8')), 'hex')\n            WHEN 224 THEN encode(sha224(convert_to(data, 'UTF8')), 'hex')\n            WHEN 384 THEN encode(sha384(convert_to(data, 'UTF8')), 'hex')\n            WHEN 512 THEN encode(sha512(convert_to(data, 'UTF8')), 'hex')\n            ELSE NULL\n        END;\n    $$ LANGUAGE"@),
{
    reveal_strlit("\n    -- PostgreSQL has no SHA2(); it ships native sha224/256/384/512 (PG14+) that\n    -- MySQL's SHA2(str, hash_length) dispatches to by its second argument.\n    CREATE OR REPLACE FUNCTION sha2(data text, hash_length integer) RETURNS text AS $$\n        SELECT CASE hash_length\n            WHEN 0 THEN encode(sha256(convert_to(data, 'UTF8')), 'hex')\n            WHEN 256 THEN encode(sha256(convert_to(data, 'UTF8')), 'hex')\n            WHEN 224 THEN encode(sha224(convert_to(data, 'UTF8')), 'hex')\n            WHEN 384 THEN encode(sha384(convert_to(data, 'UTF8')), 'hex')\n            WHEN 512 THEN encode(sha512(convert_to(data, 'UTF8')), 'hex')\n            ELSE NULL\n        END;\n    $$ LANGUAGE sql IMMUTABLE STRICT;\n    ");
    reveal_strlit("CREATE OR REPLACE FUNCTION sha2(data text, hash_length integer) RETURNS text AS $$\n        SELECT CASE hash_length\n            WHEN 0 THEN encode(sha256(convert_to(data, 'UTF8')), 'hex')\n            WHEN 256 THEN encode(sha256(convert_to(data, 'UTF8')), 'hex')\n            WHEN 224 THEN encode(sha224(convert_to(data, 'UTF8')), 'hex')\n            WHEN 384 THEN encode(sha384(convert_to(data, 'UTF8')), 'hex')\n            WHEN 512 THEN encode(sha512(convert_to(data, 'UTF8')), 'hex')\n            ELSE NULL\n        END;\n    $$ LANGUAGE");
    assert(SHA2_FUNCTION@.subrange(162, 695) =~= "CREATE OR REPLACE FUNCTION sha2(data text, hash_length integer) RETURNS text AS $$\n        SELECT CASE hash_length\n            WHEN 0 THEN encode(sha256(convert_to(data, 'UTF8')), 'hex')\n            WHEN 256 THEN encode(sha256(convert_to(data, 'UTF8')), 'hex')\n            WHEN 224 THEN encode(sha224(convert_to(data, 'UTF8')), 'hex')\n            WHEN 384 THEN encode(sha384(convert_to(data, 'UTF8')), 'hex')\n            WHEN 512 THEN encode(sha512(convert_to(data, 'UTF8')), 'hex')\n            ELSE NULL\n        END;\n    $$ LANGUAGE"@);
    assert(occurs_at(SHA2_FUNCTION@, "CREATE OR REPLACE FUNCTION sha2(data text, hash_length integer) RETURNS text AS $$\n        SELECT CASE hash_length\n            WHEN 0 THEN encode(sha256(convert_to(data, 'UTF8')), 'hex')\n            WHEN 256 THEN encode(sha256(convert_to(data, 'UTF8')), 'hex')\n            WHEN 224 THEN encode(sha224(convert_to(data, 'UTF8')), 'hex')\n            WHEN 384 THEN encode(sha384(convert_to(data, 'UTF8')), 'hex')\n            WHEN 512 THEN encode(sha512(convert_to(data, 'UTF8')), 'hex')\n            ELSE NULL\n        END;\n    $$ LANGUAGE"@, 162));
}

#[verifier::spinoff_prover]
#[verifier::rlimit(50)]
proof fn lemma_weekday()
    ensures
        occurs(WEEKDAY_FUNCTION@, "CREATE OR REPLACE FUNCTION weekday(d date) RETURNS integer AS $$\n        SELECT EXTRACT(ISODOW FROM d)::integer - 1;\n    $$ LANGUAGE"@),
        occurs(WEEKDAY_FUNCTION@, "CREATE OR REPLACE FUNCTION weekday(d timestamp) RETURNS integer AS $$\n        SELECT EXTRACT(ISODOW FROM d)::integer - 1;\n    $$ LANGUAGE"@),
{
    reveal_strlit("\n    -- MySQL WEEKDAY(): 0=Monday .. 6=Sunday. PostgreSQL's closest native equivalent,\n    -- EXTRACT(ISODOW FROM ...), is 1=Monday..7=Sunday, so this just shifts it by one.\n    CREATE OR REPLACE FUNCTION weekday(d date) RETURNS integer AS $$\n        SELECT EXTRACT(ISODOW FROM d)::integer - 1;\n    $$ LANGUAGE sql IMMUTABLE STRICT;\n\n    CREATE OR REPLACE FUNCTION weekday(d timestamp) RETURNS integer AS $$\n        SELECT EXTRACT(ISODOW FROM d)::integer - 1;\n    $$ LANGUAGE sql IMMUTABLE STRICT;\n    ");
    reveal_strlit("CREATE OR REPLACE FUNCTION weekday(d date) RETURNS integer AS $$\n        SELECT EXTRACT(ISODOW FROM d)::integer - 1;\n    $$ LANGUAGE");
    assert(WEEKDAY_FUNCTION@.subrange(178, 310) =~= "CREATE OR REPLACE FUNCTION weekday(d date) RETURNS integer AS $$\n        SELECT EXTRACT(ISODOW FROM d)::integer - 1;\n    $$ LANGUAGE"@);
    assert(occurs_at(WEEKDAY_FUNCTION@, "CREATE OR REPLACE FUNCTION weekday(d date) RETURNS integer AS $$\n        SELECT EXTRACT(ISODOW FROM d)::integer - 1;\n    $$ LANGUAGE"@, 178));
    reveal_strlit("CREATE OR REPLACE FUNCTION weekday(d timestamp) RETURNS integer AS $$\n        SELECT EXTRACT(ISODOW FROM d)::integer - 1;\n    $$ LANGUAGE");
    assert(WEEKDAY_FUNCTION@.subrange(338, 475) =~= "CREATE OR REPLACE FUNCTION weekday(d timestamp) RETURNS integer AS $$\n        SELECT EXTRACT(ISODOW FROM d)::integer - 1;\n    $$ LANGUAGE"@);
    assert(occurs_at(WEEKDAY_FUNCTION@, "CREATE OR REPLACE FUNCTION weekday(d timestamp) RETURNS integer AS $$\n        SELECT EXTRACT(ISODOW FROM d)::integer - 1;\n    $$ LANGUAGE"@, 338));
}

#[verifier::spinoff_prover]
#[verifier::rlimit(50)]
proof fn lemma_dayname()
    ensures
        occurs(DAYNAME_FUNCTION@, "CREATE OR REPLACE FUNCTION dayname(d date) RETURNS text AS $$\n        SELECT trim(to_char(d, 'FMDay'));\n    $$ LANGUAGE"@),
        occurs(DAYNAME_FUNCTION@, "CREATE OR REPLACE FUNCTION dayname(d timestamp) RETURNS text AS $$\n        SELECT trim(to_char(d, 'FMDay'));\n    $$ LANGUAGE"@),
{
    reveal_strlit("\n    CREATE OR REPLACE FUNCTION dayname(d date) RETURNS text AS $$\n        SELECT trim(to_char(d, 'FMDay'));\n    $$ LANGUAGE sql IMMUTABLE STRICT;\n\n    CREATE OR REPLACE FUNCTION dayname(d timestamp) RETURNS text AS $$\n        SELECT trim(to_char(d, 'FMDay'));\n    $$ LANGUAGE sql IMMUTABLE STRICT;\n    ");
    reveal_strlit("CREATE OR REPLACE FUNCTION dayname(d date) RETURNS text AS $$\n        SELECT trim(to_char(d, 'FMDay'));\n    $$ LANGUAGE");
    assert(DAYNAME_FUNCTION@.subrange(5, 124) =~= "CREATE OR REPLACE FUNCTION dayname(d date) RETURNS text AS $$\n        SELECT trim(to_char(d, 'FMDay'));\n    $$ LANGUAGE"@);
    assert(occurs_at(DAYNAME_FUNCTION@, "CREATE OR REPLACE FUNCTION dayname(d date) RETURNS text AS $$\n        SELECT trim(to_char(d, 'FMDay'));\n    $$ LANGUAGE"@, 5));
    reveal_strlit("CREATE OR REPLACE FUNCTION dayname(d timestamp) RETURNS text AS $$\n        SELECT trim(to_char(d, 'FMDay'));\n    $$ LANGUAGE");
    assert(DAYNAME_FUNCTION@.subrange(152, 276) =~= "CREATE OR REPLACE FUNCTION dayname(d timestamp) RETURNS text AS $$\n        SELECT trim(to_char(d, 'FMDay'));\n    $$ LANGUAGE"@);
    assert(occurs_at(DAYNAME_FUNCTION@, "CREATE OR REPLACE FUNCTION dayname(d timestamp) RETURNS text AS $$\n        SELECT trim(to_char(d, 'FMDay'));\n    $$ LANGUAGE"@, 152));
}

#[verifier::spinoff_prover]
#[verifier::rlimit(50)]
proof fn lemma_monthname()
    ensures
        occurs(MONTHNAME_FUNCTION@, "CREATE OR REPLACE FUNCTION monthname(d date) RETURNS text AS $$\n        SELECT trim(to_char(d, 'FMMonth'));\n    $$ LANGUAGE"@),
        occurs(MONTHNAME_FUNCTION@, "CREATE OR REPLACE FUNCTION monthname(d timestamp) RETURNS text AS $$\n        SELECT trim(to_char(d, 'FMMonth'));\n    $$ LANGUAGE"@),
{
    reveal_strlit("\n    CREATE OR REPLACE FUNCTION monthname(d date) RETURNS text AS $$\n        SELECT trim(to_char(d, 'FMMonth'));\n    $$ LANGUAGE sql IMMUTABLE STRICT;\n\n    CREATE OR REPLACE FUNCTION monthname(d timestamp) RETURNS text AS $$\n        SELECT trim(to_char(d, 'FMMonth'));\n    $$ LANGUAGE sql IMMUTABLE STRICT;\n    ");
    reveal_strlit("CREATE OR REPLACE FUNCTION monthname(d date) RETURNS text AS $$\n        SELECT trim(to_char(d, 'FMMonth'));\n    $$ LANGUAGE");
    assert(MONTHNAME_FUNCTION@.subrange(5, 128) =~= "CREATE OR REPLACE FUNCTION monthname(d date) RETURNS text AS $$\n        SELECT trim(to_char(d, 'FMMonth'));\n    $$ LANGUAGE"@);
    assert(occurs_at(MONTHNAME_FUNCTION@, "CREATE OR REPLACE FUNCTION monthname(d date) RETURNS text AS $$\n        SELECT trim(to_char(d, 'FMMonth'));\n    $$ LANGUAGE"@, 5));
    reveal_strlit("CREATE OR REPLACE FUNCTION monthname(d timestamp) RETURNS text AS $$\n        SELECT trim(to_char(d, 'FMMonth'));\n    $$ LANGUAGE");
    assert(MONTHNAME_FUNCTION@.subrange(156, 284) =~= "CREATE OR REPLACE FUNCTION monthname(d timestamp) RETURNS text AS $$\n        SELECT trim(to_char(d, 'FMMonth'));\n    $$ LANGUAGE"@);
    assert(occurs_at(MONTHNAME_FUNCTION@, "CREATE OR REPLACE FUNCTION monthname(d timestamp) RETURNS text AS $$\n        SELECT trim(to_char(d, 'FMMonth'));\n    $$ LANGUAGE"@, 156));
}

#[verifier::spinoff_prover]
#[verifier::rlimit(50)]
proof fn lemma_locate()
    ensures
        occurs(LOCATE_FUNCTION@, "CREATE OR REPLACE FUNCTION locate(needle text, haystack text) RETURNS integer AS $$\n        SELECT position(needle IN haystack);\n    $$ LANGUAGE"@),
        occurs(LOCATE_FUNCTION@, "CREATE OR REPLACE FUNCTION locate(needle text, haystack text, start_pos integer) RETURNS integer AS $$\n        SELECT CASE\n            WHEN start_pos < 1 THEN 0\n            ELSE (\n                SELECT CASE WHEN pos = 0 THEN 0 ELSE pos + start_pos - 1 END\n                FROM (SELECT position(needle IN substring(haystack FROM start_pos)) AS pos) sub\n            )\n        END;\n    $$ LANGUAGE"@),
{
    reveal_strlit("\n    -- MySQL LOCATE(substr, str[, pos]) is POSITION(substr IN str) with the argument\n    -- order swapped, plus an optional 1-based start position PostgreSQL has no\n    -- built-in equivalent for.\n    CREATE OR REPLACE FUNCTION locate(needle text, haystack text) RETURNS integer AS $$\n        SELECT position(needle IN haystack);\n    $$ LANGUAGE sql IMMUTABLE STRICT;\n\n    CREATE OR REPLACE FUNCTION locate(needle text, haystack text, start_pos integer) RETURNS integer AS $$\n        SELECT CASE\n            WHEN start_pos < 1 THEN 0\n            ELSE (\n                SELECT CASE WHEN pos = 0 THEN 0 ELSE pos + start_pos - 1 END\n                FROM (SELECT position(needle IN substring(haystack FROM start_pos)) AS pos) sub\n            )\n        END;\n    $$ LANGUAGE sql IMMUTABLE STRICT;\n    ");
    reveal_strlit("CREATE OR REPLACE FUNCTION locate(needle text, haystack text) RETURNS integer AS $$\n        SELECT position(needle IN haystack);\n    $$ LANGUAGE");
    assert(LOCATE_FUNCTION@.subrange(202, 346) =~= "CREATE OR REPLACE FUNCTION locate(needle text, haystack text) RETURNS integer AS $$\n        SELECT position(needle IN haystack);\n    $$ LANGUAGE"@);
    assert(occurs_at(LOCATE_FUNCTION@, "CREATE OR REPLACE FUNCTION locate(needle text, haystack text) RETURNS integer AS $$\n        SELECT position(needle IN haystack);\n    $$ LANGUAGE"@, 202));
    reveal_strlit("CREATE OR REPLACE FUNCTION locate(needle text, haystack text, start_pos integer) RETURNS integer AS $$\n        SELECT CASE\n            WHEN start_pos < 1 THEN 0\n            ELSE (\n                SELECT CASE WHEN pos = 0 THEN 0 ELSE pos + start_pos - 1 END\n                FROM (SELECT position(needle IN substring(haystack FROM start_pos)) AS pos) sub\n            )\n        END;\n    $$ LANGUAGE");
    assert(LOCATE_FUNCTION@.subrange(374, 769) =~= "CREATE OR REPLACE FUNCTION locate(needle text, haystack text, start_pos integer) RETURNS integer AS $$\n        SELECT CASE\n            WHEN start_pos < 1 THEN 0\n            ELSE (\n                SELECT CASE WHEN pos = 0 THEN 0 ELSE pos + start_pos - 1 END\n                FROM (SELECT position(needle IN substring(haystack FROM start_pos)) AS pos) sub\n            )\n        END;\n    $$ LANGUAGE"@);
    assert(occurs_at(LOCATE_FUNCTION@, "CREATE OR REPLACE FUNCTION locate(needle text, haystack text, start_pos integer) RETURNS integer AS $$\n        SELECT CASE\n            WHEN start_pos < 1 THEN 0\n            ELSE (\n                SELECT CASE WHEN pos = 0 THEN 0 ELSE pos + start_pos - 1 END\n                FROM (SELECT position(needle IN substring(haystack FROM start_pos)) AS pos) sub\n            )\n        END;\n    $$ LANGUAGE"@, 374));
}

#[verifier::spinoff_prover]
#[verifier::rlimit(50)]
proof fn lemma_round()
    ensures
        occurs(ROUND_FUNCTION@, "CREATE OR REPLACE FUNCTION round(value double precision, places integer) RETURNS double precision AS $$\n        SELECT round(value::numeric, places)::double precision;\n    $$ LANGUAGE"@),
{
    reveal_strlit("\n    -- MySQL rounds floats to a given number of decimals; PostgreSQL only defines the\n    -- two-argument round() for `numeric`, so ROUND(<float>, n) fails to resolve.\n    -- Routing through numeric keeps MySQL's behaviour. A `real` argument reaches\n    -- this via PostgreSQL's implicit widening to double precision.\n    CREATE OR REPLACE FUNCTION round(value double precision, places integer) RETURNS double precision AS $$\n        SELECT round(value::numeric, places)::double precision;\n    $$ LANGUAGE sql IMMUTABLE STRICT;\n    ");
    reveal_strlit("CREATE OR REPLACE FUNCTION round(value double precision, places integer) RETURNS double precision AS $$\n        SELECT round(value::numeric, places)::double precision;\n    $$ LANGUAGE");
    assert(ROUND_FUNCTION@.subrange(323, 506) =~= "CREATE OR REPLACE FUNCTION round(value double precision, places integer) RETURNS double precision AS $$\n        SELECT round(value::numeric, places)::double precision;\n    $$ LANGUAGE"@);
    assert(occurs_at(ROUND_FUNCTION@, "CREATE OR REPLACE FUNCTION round(value double precision, places integer) RETURNS double precision AS $$\n        SELECT round(value::numeric, places)::double precision;\n    $$ LANGUAGE"@, 323));
}

#[verifier::spinoff_prover]
#[verifier::rlimit(50)]
proof fn lemma_hour()
    ensures
        occurs(HOUR_FUNCTION@, "CREATE OR REPLACE FUNCTION hour(value time) RETURNS integer AS $$\n        SELECT EXTRACT(HOUR FROM value)::integer;\n    $$ LANGUAGE"@),
        occurs(HOUR_FUNCTION@, "CREATE OR REPLACE FUNCTION hour(value timestamp) RETURNS integer AS $$\n        SELECT EXTRACT(HOUR FROM value)::integer;\n    $$ LANGUAGE"@),
        occurs(HOUR_FUNCTION@, "CREATE OR REPLACE FUNCTION minute(value time) RETURNS integer AS $$\n        SELECT EXTRACT(MINUTE FROM value)::integer;\n    $$ LANGUAGE"@),
        occurs(HOUR_FUNCTION@, "CREATE OR REPLACE FUNCTION minute(value timestamp) RETURNS integer AS $$\n        SELECT EXTRACT(MINUTE FROM value)::integer;\n    $$ LANGUAGE"@),
        occurs(HOUR_FUNCTION@, "CREATE OR REPLACE FUNCTION second(value time) RETURNS integer AS $$\n        SELECT EXTRACT(SECOND FROM value)::integer;\n    $$ LANGUAGE"@),
        occurs(HOUR_FUNCTION@, "CREATE OR REPLACE FUNCTION second(value timestamp) RETURNS integer AS $$\n        SELECT EXTRACT(SECOND FROM value)::integer;\n    $$ LANGUAGE"@),
{
    reveal_strlit("\n    -- MySQL exposes date parts as functions (HOUR(t), MONTH(d), ...); PostgreSQL\n    -- only has EXTRACT. Matomo's VisitTime reports call HOUR() directly.\n    CREATE OR REPLACE FUNCTION hour(value time) RETURNS integer AS $$\n        SELECT EXTRACT(HOUR FROM value)::integer;\n    $$ LANGUAGE sql IMMUTABLE STRICT;\n\n    CREATE OR REPLACE FUNCTION hour(value timestamp) RETURNS integer AS $$\n        SELECT EXTRACT(HOUR FROM value)::integer;\n    $$ LANGUAGE sql IMMUTABLE STRICT;\n\n    CREATE OR REPLACE FUNCTION minute(value time) RETURNS integer AS $$\n        SELECT EXTRACT(MINUTE FROM value)::integer;\n    $$ LANGUAGE sql IMMUTABLE STRICT;\n\n    CREATE OR REPLACE FUNCTION minute(value timestamp) RETURNS integer AS $$\n        SELECT EXTRACT(MINUTE FROM value)::integer;\n    $$ LANGUAGE sql IMMUTABLE STRICT;\n\n    CREATE OR REPLACE FUNCTION second(value time) RETURNS integer AS $$\n        SELECT EXTRACT(SECOND FROM value)::integer;\n    $$ LANGUAGE sql IMMUTABLE STRICT;\n\n    CREATE OR REPLACE FUNCTION second(value timestamp) RETURNS integer AS $$\n        SELECT EXTRACT(SECOND FROM value)::integer;\n    $$ LANGUAGE sql IMMUTABLE STRICT;\n    ");
    reveal_strlit("CREATE OR REPLACE FUNCTION hour(value time) RETURNS integer AS $$\n        SELECT EXTRACT(HOUR FROM value)::integer;\n    $$ LANGUAGE");
    assert(HOUR_FUNCTION@.subrange(161, 292) =~= "CREATE OR REPLACE FUNCTION hour(value time) RETURNS integer AS $$\n        SELECT EXTRACT(HOUR FROM value)::integer;\n    $$ LANGUAGE"@);
    assert(occurs_at(HOUR_FUNCTION@, "CREATE OR REPLACE FUNCTION hour(value time) RETURNS integer AS $$\n        SELECT EXTRACT(HOUR FROM value)::integer;\n    $$ LANGUAGE"@, 161));
    reveal_strlit("CREATE OR REPLACE FUNCTION hour(value timestamp) RETURNS integer AS $$\n        SELECT EXTRACT(HOUR FROM value)::integer;\n    $$ LANGUAGE");
    assert(HOUR_FUNCTION@.subrange(320, 456) =~= "CREATE OR REPLACE FUNCTION hour(value timestamp) RETURNS integer AS $$\n        SELECT EXTRACT(HOUR FROM value)::integer;\n    $$ LANGUAGE"@);
    assert(occurs_at(HOUR_FUNCTION@, "CREATE OR REPLACE FUNCTION hour(value timestamp) RETURNS integer AS $$\n        SELECT EXTRACT(HOUR FROM value)::integer;\n    $$ LANGUAGE"@, 320));
    reveal_strlit("CREATE OR REPLACE FUNCTION minute(value time) RETURNS integer AS $$\n        SELECT EXTRACT(MINUTE FROM value)::integer;\n    $$ LANGUAGE");
    assert(HOUR_FUNCTION@.subrange(484, 619) =~= "CREATE OR REPLACE FUNCTION minute(value time) RETURNS integer AS $$\n        SELECT EXTRACT(MINUTE FROM value)::integer;\n    $$ LANGUAGE"@);
    assert(occurs_at(HOUR_FUNCTION@, "CREATE OR REPLACE FUNCTION minute(value time) RETURNS integer AS $$\n        SELECT EXTRACT(MINUTE FROM value)::integer;\n    $$ LANGUAGE"@, 484));
    reveal_strlit("CREATE OR REPLACE FUNCTION minute(value timestamp) RETURNS integer AS $$\n        SELECT EXTRACT(MINUTE FROM value)::integer;\n    $$ LANGUAGE");
    assert(HOUR_FUNCTION@.subrange(647, 787) =~= "CREATE OR REPLACE FUNCTION minute(value timestamp) RETURNS integer AS $$\n        SELECT EXTRACT(MINUTE FROM value)::integer;\n    $$ LANGUAGE"@);
    assert(occurs_at(HOUR_FUNCTION@, "CREATE OR REPLACE FUNCTION minute(value timestamp) RETURNS integer AS $$\n        SELECT EXTRACT(MINUTE FROM value)::integer;\n    $$ LANGUAGE"@, 647));
    reveal_strlit("CREATE OR REPLACE FUNCTION second(value time) RETURNS integer AS $$\n        SELECT EXTRACT(SECOND FROM value)::integer;\n    $$ LANGUAGE");
    assert(HOUR_FUNCTION@.subrange(815, 950) =~= "CREATE OR REPLACE FUNCTION second(value time) RETURNS integer AS $$\n        SELECT EXTRACT(SECOND FROM value)::integer;\n    $$ LANGUAGE"@);
    assert(occurs_at(HOUR_FUNCTION@, "CREATE OR REPLACE FUNCTION second(value time) RETURNS integer AS $$\n        SELECT EXTRACT(SECOND FROM value)::integer;\n    $$ LANGUAGE"@, 815));
    reveal_strlit("CREATE OR REPLACE FUNCTION second(value timestamp) RETURNS integer AS $$\n        SELECT EXTRACT(SECOND FROM value)::integer;\n    $$ LANGUAGE");
    assert(HOUR_FUNCTION@.subrange(978, 1118) =~= "CREATE OR REPLACE FUNCTION second(value timestamp) RETURNS integer AS $$\n        SELECT EXTRACT(SECOND FROM value)::integer;\n    $$ LANGUAGE"@);
    assert(occurs_at(HOUR_FUNCTION@, "CREATE OR REPLACE FUNCTION second(value timestamp) RETURNS integer AS $$\n        SELECT EXTRACT(SECOND FROM value)::integer;\n    $$ LANGUAGE"@, 978));
}

#[verifier::spinoff_prover]
#[verifier::rlimit(50)]
proof fn lemma_dayofmonth()
    ensures
        occurs(DAYOFMONTH_FUNCTION@, "CREATE OR REPLACE FUNCTION dayofmonth(value date) RETURNS integer AS $$\n        SELECT EXTRACT(DAY FROM value)::integer;\n    $$ LANGUAGE"@),
        occurs(DAYOFMONTH_FUNCTION@, "CREATE OR REPLACE FUNCTION dayofmonth(value timestamp) RETURNS integer AS $$\n        SELECT EXTRACT(DAY FROM value)::integer;\n    $$ LANGUAGE"@),
        occurs(DAYOFMONTH_FUNCTION@, "CREATE OR REPLACE FUNCTION dayofweek(value date) RETURNS integer AS $$\n        SELECT EXTRACT(DOW FROM value)::integer + 1;\n    $$ LANGUAGE"@),
        occurs(DAYOFMONTH_FUNCTION@, "CREATE OR REPLACE FUNCTION dayofweek(value timestamp) RETURNS integer AS $$\n        SELECT EXTRACT(DOW FROM value)::integer + 1;\n    $$ LANGUAGE"@),
        occurs(DAYOFMONTH_FUNCTION@, "CREATE OR REPLACE FUNCTION dayofyear(value date) RETURNS integer AS $$\n        SELECT EXTRACT(DOY FROM value)::integer;\n    $$ LANGUAGE"@),
        occurs(DAYOFMONTH_FUNCTION@, "CREATE OR REPLACE FUNCTION dayofyear(value timestamp) RETURNS integer AS $$\n        SELECT EXTRACT(DOY FROM value)::integer;\n    $$ LANGUAGE"@),
{
    reveal_strlit("\n    CREATE OR REPLACE FUNCTION dayofmonth(value date) RETURNS integer AS $$\n        SELECT EXTRACT(DAY FROM value)::integer;\n    $$ LANGUAGE sql IMMUTABLE STRICT;\n\n    CREATE OR REPLACE FUNCTION dayofmonth(value timestamp) RETURNS integer AS $$\n        SELECT EXTRACT(DAY FROM value)::integer;\n    $$ LANGUAGE sql IMMUTABLE STRICT;\n\n    -- MySQL DAYOFWEEK() is 1=Sunday..7=Saturday; PostgreSQL's DOW is 0=Sunday..6.\n    CREATE OR REPLACE FUNCTION dayofweek(value date) RETURNS integer AS $$\n        SELECT EXTRACT(DOW FROM value)::integer + 1;\n    $$ LANGUAGE sql IMMUTABLE STRICT;\n\n    CREATE OR REPLACE FUNCTION dayofweek(value timestamp) RETURNS integer AS $$\n        SELECT EXTRACT(DOW FROM value)::integer + 1;\n    $$ LANGUAGE sql IMMUTABLE STRICT;\n\n    CREATE OR REPLACE FUNCTION dayofyear(value date) RETURNS integer AS $$\n        SELECT EXTRACT(DOY FROM value)::integer;\n    $$ LANGUAGE sql IMMUTABLE STRICT;\n\n    CREATE OR REPLACE FUNCTION dayofyear(value timestamp) RETURNS integer AS $$\n        SELECT EXTRACT(DOY FROM value)::integer;\n    $$ LANGUAGE sql IMMUTABLE STRICT;\n    ");
    reveal_strlit("CREATE OR REPLACE FUNCTION dayofmonth(value date) RETURNS integer AS $$\n        SELECT EXTRACT(DAY FROM value)::integer;\n    $$ LANGUAGE");
    assert(DAYOFMONTH_FUNCTION@.subrange(5, 141) =~= "CREATE OR REPLACE FUNCTION dayofmonth(value date) RETURNS integer AS $$\n        SELECT EXTRACT(DAY FROM value)::integer;\n    $$ LANGUAGE"@);
    assert(occurs_at(DAYOFMONTH_FUNCTION@, "CREATE OR REPLACE FUNCTION dayofmonth(value date) RETURNS integer AS $$\n        SELECT EXTRACT(DAY FROM value)::integer;\n    $$ LANGUAGE"@, 5));
    reveal_strlit("CREATE OR REPLACE FUNCTION dayofmonth(value timestamp) RETURNS integer AS $$\n        SELECT EXTRACT(DAY FROM value)::integer;\n    $$ LANGUAGE");
    assert(DAYOFMONTH_FUNCTION@.subrange(169, 310) =~= "CREATE OR REPLACE FUNCTION dayofmonth(value timestamp) RETURNS integer AS $$\n        SELECT EXTRACT(DAY FROM value)::integer;\n    $$ LANGUAGE"@);
    assert(occurs_at(DAYOFMONTH_FUNCTION@, "CREATE OR REPLACE FUNCTION dayofmonth(value timestamp) RETURNS integer AS $$\n        SELECT EXTRACT(DAY FROM value)::integer;\n    $$ LANGUAGE"@, 169));
    reveal_strlit("CREATE OR REPLACE FUNCTION dayofweek(value date) RETURNS integer AS $$\n        SELECT EXTRACT(DOW FROM value)::integer + 1;\n    $$ LANGUAGE");
    assert(DAYOFMONTH_FUNCTION@.subrange(421, 560) =~= "CREATE OR REPLACE FUNCTION dayofweek(value date) RETURNS integer AS $$\n        SELECT EXTRACT(DOW FROM value)::integer + 1;\n    $$ LANGUAGE"@);
    assert(occurs_at(DAYOFMONTH_FUNCTION@, "CREATE OR REPLACE FUNCTION dayofweek(value date) RETURNS integer AS $$\n        SELECT EXTRACT(DOW FROM value)::integer + 1;\n    $$ LANGUAGE"@, 421));
    reveal_strlit("CREATE OR REPLACE FUNCTION dayofweek(value timestamp) RETURNS integer AS $$\n        SELECT EXTRACT(DOW FROM value)::integer + 1;\n    $$ LANGUAGE");
    assert(DAYOFMONTH_FUNCTION@.subrange(588, 732) =~= "CREATE OR REPLACE FUNCTION dayofweek(value timestamp) RETURNS integer AS $$\n        SELECT EXTRACT(DOW FROM value)::integer + 1;\n    $$ LANGUAGE"@);
    assert(occurs_at(DAYOFMONTH_FUNCTION@, "CREATE OR REPLACE FUNCTION dayofweek(value timestamp) RETURNS integer AS $$\n        SELECT EXTRACT(DOW FROM value)::integer + 1;\n    $$ LANGUAGE"@, 588));
    reveal_strlit("CREATE OR REPLACE FUNCTION dayofyear(value date) RETURNS integer AS $$\n        SELECT EXTRACT(DOY FROM value)::integer;\n    $$ LANGUAGE");
    assert(DAYOFMONTH_FUNCTION@.subrange(760, 895) =~= "CREATE OR REPLACE FUNCTION dayofyear(value date) RETURNS integer AS $$\n        SELECT EXTRACT(DOY FROM value)::integer;\n    $$ LANGUAGE"@);
    assert(occurs_at(DAYOFMONTH_FUNCTION@, "CREATE OR REPLACE FUNCTION dayofyear(value date) RETURNS integer AS $$\n        SELECT EXTRACT(DOY FROM value)::integer;\n    $$ LANGUAGE"@, 760));
    reveal_strlit("CREATE OR REPLACE FUNCTION dayofyear(value timestamp) RETURNS integer AS $$\n        SELECT EXTRACT(DOY FROM value)::integer;\n    $$ LANGUAGE");
    assert(DAYOFMONTH_FUNCTION@.subrange(923, 1063) =~= "CREATE OR REPLACE FUNCTION dayofyear(value timestamp) RETURNS integer AS $$\n        SELECT EXTRACT(DOY FROM value)::integer;\n    $$ LANGUAGE"@);
    assert(occurs_at(DAYOFMONTH_FUNCTION@, "CREATE OR REPLACE FUNCTION dayofyear(value timestamp) RETURNS integer AS $$\n        SELECT EXTRACT(DOY FROM value)::integer;\n    $$ LANGUAGE"@, 923));
}

#[verifier::spinoff_prover]
#[verifier::rlimit(50)]
proof fn lemma_hex()
    ensures
        occurs(HEX_FUNCTION@, "CREATE OR REPLACE FUNCTION hex(value bytea) RETURNS text AS $$\n        SELECT upper(encode(value, 'hex'));\n    $$ LANGUAGE"@),
        occurs(HEX_FUNCTION@, "CREATE OR REPLACE FUNCTION hex(value text) RETURNS text AS $$\n        SELECT upper(encode(convert_to(value, 'UTF8'), 'hex'));\n    $$ LANGUAGE"@),
        occurs(HEX_FUNCTION@, "CREATE OR REPLACE FUNCTION hex(value bigint) RETURNS text AS $$\n        SELECT upper(to_hex(value));\n    $$ LANGUAGE"@),
        occurs(HEX_FUNCTION@, "CREATE OR REPLACE FUNCTION unhex(value text) RETURNS bytea AS $$\n        SELECT decode(value, 'hex');\n    $$ LANGUAGE"@),
{
    reveal_strlit("\n    -- MySQL HEX()/UNHEX() map onto PostgreSQL's encode()/decode(). MySQL returns\n    -- uppercase hex, which matters when the result is compared as a string.\n    CREATE OR REPLACE FUNCTION hex(value bytea) RETURNS text AS $$\n        SELECT upper(encode(value, 'hex'));\n    $$ LANGUAGE sql IMMUTABLE STRICT;\n\n    CREATE OR REPLACE FUNCTION hex(value text) RETURNS text AS $$\n        SELECT upper(encode(convert_to(value, 'UTF8'), 'hex'));\n    $$ LANGUAGE sql IMMUTABLE STRICT;\n\n    CREATE OR REPLACE FUNCTION hex(value bigint) RETURNS text AS $$\n        SELECT upper(to_hex(value));\n    $$ LANGUAGE sql IMMUTABLE STRICT;\n\n    CREATE OR REPLACE FUNCTION unhex(value text) RETURNS bytea AS $$\n        SELECT decode(value, 'hex');\n    $$ LANGUAGE sql IMMUTABLE STRICT;\n    ");
    reveal_strlit("CREATE OR REPLACE FUNCTION hex(value bytea) RETURNS text AS $$\n        SELECT upper(encode(value, 'hex'));\n    $$ LANGUAGE");
    assert(HEX_FUNCTION@.subrange(164, 286) =~= "CREATE OR REPLACE FUNCTION hex(value bytea) RETURNS text AS $$\n        SELECT upper(encode(value, 'hex'));\n    $$ LANGUAGE"@);
    assert(occurs_at(HEX_FUNCTION@, "CREATE OR REPLACE FUNCTION hex(value bytea) RETURNS text AS $$\n        SELECT upper(encode(value, 'hex'));\n    $$ LANGUAGE"@, 164));
    reveal_strlit("CREATE OR REPLACE FUNCTION hex(value text) RETURNS text AS $$\n        SELECT upper(encode(convert_to(value, 'UTF8'), 'hex'));\n    $$ LANGUAGE");
    assert(HEX_FUNCTION@.subrange(314, 455) =~= "CREATE OR REPLACE FUNCTION hex(value text) RETURNS text AS $$\n        SELECT upper(encode(convert_to(value, 'UTF8'), 'hex'));\n    $$ LANGUAGE"@);
    assert(occurs_at(HEX_FUNCTION@, "CREATE OR REPLACE FUNCTION hex(value text) RETURNS text AS $$\n        SELECT upper(encode(convert_to(value, 'UTF8'), 'hex'));\n    $$ LANGUAGE"@, 314));
    reveal_strlit("CREATE OR REPLACE FUNCTION hex(value bigint) RETURNS text AS $$\n        SELECT upper(to_hex(value));\n    $$ LANGUAGE");
    assert(HEX_FUNCTION@.subrange(483, 599) =~= "CREATE OR REPLACE FUNCTION hex(value bigint) RETURNS text AS $$\n        SELECT upper(to_hex(value));\n    $$ LANGUAGE"@);
    assert(occurs_at(HEX_FUNCTION@, "CREATE OR REPLACE FUNCTION hex(value bigint) RETURNS text AS $$\n        SELECT upper(to_hex(value));\n    $$ LANGUAGE"@, 483));
    reveal_strlit("CREATE OR REPLACE FUNCTION unhex(value text) RETURNS bytea AS $$\n        SELECT decode(value, 'hex');\n    $$ LANGUAGE");
    assert(HEX_FUNCTION@.subrange(627, 744) =~= "CREATE OR REPLACE FUNCTION unhex(value text) RETURNS bytea AS $$\n        SELECT decode(value, 'hex');\n    $$ LANGUAGE"@);
    assert(occurs_at(HEX_FUNCTION@, "CREATE OR REPLACE FUNCTION unhex(value text) RETURNS bytea AS $$\n        SELECT decode(value, 'hex');\n    $$ LANGUAGE"@, 627));
}

/// The checksum, the hashes, the rounding, the search and the hexadecimal digits that a function is
/// installed for are computed as MySQL computes them, for every type of argument.
pub proof fn calculations_are_those_of_mysql(name: Seq<char>)
    ensures
        name == "crc32"@ ==> compat_sql(name) is Some,
        name == "crc32"@ ==> occurs(compat_sql(name)->Some_0, "FUNCTION crc32(data bytea) RETURNS bigint"@),
        name == "crc32"@ ==> occurs(compat_sql(name)->Some_0, "crc bigint := 4294967295;"@),
        name == "crc32"@ ==> occurs(compat_sql(name)->Some_0, "crc := crc # byte;"@),
        name == "crc32"@ ==> occurs(compat_sql(name)->Some_0, "FOR j IN 1..8 LOOP"@),
        name == "crc32"@ ==> occurs(compat_sql(name)->Some_0, "IF (crc & 1) = 1 THEN"@),
        name == "crc32"@ ==> occurs(compat_sql(name)->Some_0, "crc := (crc >> 1) # 3988292384;"@),
        name == "crc32"@ ==> occurs(compat_sql(name)->Some_0, "RETURN crc # 4294967295;"@),
        name == "crc32"@ ==> occurs(compat_sql(name)->Some_0, "CREATE OR REPLACE FUNCTION crc32(data text) RETURNS bigint AS $$\n        SELECT crc32(convert_to(data, 'UTF8'));\n    $$ LANGUAGE"@),
        name == "sha2"@ ==> compat_sql(name) is Some,
        name == "sha2"@ ==> occurs(compat_sql(name)->Some_0, "CREATE OR REPLACE FUNCTION sha2(data text, hash_length integer) RETURNS text AS $$\n        SELECT CASE hash_length\n            WHEN 0 THEN encode(sha256(convert_to(data, 'UTF8')), 'hex')\n            WHEN 256 THEN encode(sha256(convert_to(data, 'UTF8')), 'hex')\n            WHEN 224 THEN encode(sha224(convert_to(data, 'UTF8')), 'hex')\n            WHEN 384 THEN encode(sha384(convert_to(data, 'UTF8')), 'hex')\n            WHEN 512 THEN encode(sha512(convert_to(data, 'UTF8')), 'hex')\n            ELSE NULL\n        END;\n    $$ LANGUAGE"@),
        name == "locate"@ ==> compat_sql(name) is Some,
        name == "locate"@ ==> occurs(compat_sql(name)->Some_0, "CREATE OR REPLACE FUNCTION locate(needle text, haystack text) RETURNS integer AS $$\n        SELECT position(needle IN haystack);\n    $$ LANGUAGE"@),
        name == "locate"@ ==> occurs(compat_sql(name)->Some_0, "CREATE OR REPLACE FUNCTION locate(needle text, haystack text, start_pos integer) RETURNS integer AS $$\n        SELECT CASE\n            WHEN start_pos < 1 THEN 0\n            ELSE (\n                SELECT CASE WHEN pos = 0 THEN 0 ELSE pos + start_pos - 1 END\n                FROM (SELECT position(needle IN substring(haystack FROM start_pos)) AS pos) sub\n            )\n        END;\n    $$ LANGUAGE"@),
        name == "round"@ ==> compat_sql(name) is Some,
        name == "round"@ ==> occurs(compat_sql(name)->Some_0, "CREATE OR REPLACE FUNCTION round(value double precision, places integer) RETURNS double precision AS $$\n        SELECT round(value::numeric, places)::double precision;\n    $$ LANGUAGE"@),
        name == "hex"@ ==> compat_sql(name) is Some,
        name == "hex"@ ==> occurs(compat_sql(name)->Some_0, "CREATE OR REPLACE FUNCTION hex(value bytea) RETURNS text AS $$\n        SELECT upper(encode(value, 'hex'));\n    $$ LANGUAGE"@),
        name == "hex"@ ==> occurs(compat_sql(name)->Some_0, "CREATE OR REPLACE FUNCTION hex(value text) RETURNS text AS $$\n        SELECT upper(encode(convert_to(value, 'UTF8'), 'hex'));\n    $$ LANGUAGE"@),
        name == "hex"@ ==> occurs(compat_sql(name)->Some_0, "CREATE OR REPLACE FUNCTION hex(value bigint) RETURNS text AS $$\n        SELECT upper(to_hex(value));\n    $$ LANGUAGE"@),
        name == "hex"@ ==> occurs(compat_sql(name)->Some_0, "CREATE OR REPLACE FUNCTION unhex(value text) RETURNS bytea AS $$\n        SELECT decode(value, 'hex');\n    $$ LANGUAGE"@),
{
    reveal_strlit("crc32");
    reveal_strlit("sha2");
    reveal_strlit("weekday");
    reveal_strlit("dayname");
    reveal_strlit("monthname");
    reveal_strlit("locate");
    reveal_strlit("round");
    reveal_strlit("hour");
    reveal_strlit("dayofmonth");
    reveal_strlit("hex");
    assert("crc32"@.len() == 5);
    assert("sha2"@.len() == 4);
    assert("weekday"@.len() == 7);
    assert("dayname"@.len() == 7);
    assert("monthname"@.len() == 9);
    assert("locate"@.len() == 6);
    assert("round"@.len() == 5);
    assert("hour"@.len() == 4);
    assert("dayofmonth"@.len() == 10);
    assert("hex"@.len() == 3);
    assert("crc32"@[0] != "round"@[0]);
    assert("sha2"@[0] != "hour"@[0]);
    assert("weekday"@[0] != "dayname"@[0]);
    lemma_crc32();
    lemma_sha2();
    lemma_locate();
    lemma_round();
    lemma_hex();
}

/// The parts and names of a date that a function is installed for are those that MySQL gives, for
/// dates and for times.
pub proof fn dates_are_taken_apart_as_mysql_does(name: Seq<char>)
    ensures
        name == "weekday"@ ==> compat_sql(name) is Some,
        name == "weekday"@ ==> occurs(compat_sql(name)->Some_0, "CREATE OR REPLACE FUNCTION weekday(d date) RETURNS integer AS $$\n        SELECT EXTRACT(ISODOW FROM d)::integer - 1;\n    $$ LANGUAGE"@),
        name == "weekday"@ ==> occurs(compat_sql(name)->Some_0, "CREATE OR REPLACE FUNCTION weekday(d timestamp) RETURNS integer AS $$\n        SELECT EXTRACT(ISODOW FROM d)::integer - 1;\n    $$ LANGUAGE"@),
        name == "dayname"@ ==> compat_sql(name) is Some,
        name == "dayname"@ ==> occurs(compat_sql(name)->Some_0, "CREATE OR REPLACE FUNCTION dayname(d date) RETURNS text AS $$\n        SELECT trim(to_char(d, 'FMDay'));\n    $$ LANGUAGE"@),
        name == "dayname"@ ==> occurs(compat_sql(name)->Some_0, "CREATE OR REPLACE FUNCTION dayname(d timestamp) RETURNS text AS $$\n        SELECT trim(to_char(d, 'FMDay'));\n    $$ LANGUAGE"@),
        name == "monthname"@ ==> compat_sql(name) is Some,
        name == "monthname"@ ==> occurs(compat_sql(name)->Some_0, "CREATE OR REPLACE FUNCTION monthname(d date) RETURNS text AS $$\n        SELECT trim(to_char(d, 'FMMonth'));\n    $$ LANGUAGE"@),
        name == "monthname"@ ==> occurs(compat_sql(name)->Some_0, "CREATE OR REPLACE FUNCTION monthname(d timestamp) RETURNS text AS $$\n        SELECT trim(to_char(d, 'FMMonth'));\n    $$ LANGUAGE"@),
        name == "hour"@ ==> compat_sql(name) is Some,
        name == "hour"@ ==> occurs(compat_sql(name)->Some_0, "CREATE OR REPLACE FUNCTION hour(value time) RETURNS integer AS $$\n        SELECT EXTRACT(HOUR FROM value)::integer;\n    $$ LANGUAGE"@),
        name == "hour"@ ==> occurs(compat_sql(name)->Some_0, "CREATE OR REPLACE FUNCTION hour(value timestamp) RETURNS integer AS $$\n        SELECT EXTRACT(HOUR FROM value)::integer;\n    $$ LANGUAGE"@),
        name == "hour"@ ==> occurs(compat_sql(name)->Some_0, "CREATE OR REPLACE FUNCTION minute(value time) RETURNS integer AS $$\n        SELECT EXTRACT(MINUTE FROM value)::integer;\n    $$ LANGUAGE"@),
        name == "hour"@ ==> occurs(compat_sql(name)->Some_0, "CREATE OR REPLACE FUNCTION minute(value timestamp) RETURNS integer AS $$\n        SELECT EXTRACT(MINUTE FROM value)::integer;\n    $$ LANGUAGE"@),
        name == "hour"@ ==> occurs(compat_sql(name)->Some_0, "CREATE OR REPLACE FUNCTION second(value time) RETURNS integer AS $$\n        SELECT EXTRACT(SECOND FROM value)::integer;\n    $$ LANGUAGE"@),
        name == "hour"@ ==> occurs(compat_sql(name)->Some_0, "CREATE OR REPLACE FUNCTION second(value timestamp) RETURNS integer AS $$\n        SELECT EXTRACT(SECOND FROM value)::integer;\n    $$ LANGUAGE"@),
        name == "dayofmonth"@ ==> compat_sql(name) is Some,
        name == "dayofmonth"@ ==> occurs(compat_sql(name)->Some_0, "CREATE OR REPLACE FUNCTION dayofmonth(value date) RETURNS integer AS $$\n        SELECT EXTRACT(DAY FROM value)::integer;\n    $$ LANGUAGE"@),
        name == "dayofmonth"@ ==> occurs(compat_sql(name)->Some_0, "CREATE OR REPLACE FUNCTION dayofmonth(value timestamp) RETURNS integer AS $$\n        SELECT EXTRACT(DAY FROM value)::integer;\n    $$ LANGUAGE"@),
        name == "dayofmonth"@ ==> occurs(compat_sql(name)->Some_0, "CREATE OR REPLACE FUNCTION dayofweek(value date) RETURNS integer AS $$\n        SELECT EXTRACT(DOW FROM value)::integer + 1;\n    $$ LANGUAGE"@),
        name == "dayofmonth"@ ==> occurs(compat_sql(name)->Some_0, "CREATE OR REPLACE FUNCTION dayofweek(value timestamp) RETURNS integer AS $$\n        SELECT EXTRACT(DOW FROM value)::integer + 1;\n    $$ LANGUAGE"@),
        name == "dayofmonth"@ ==> occurs(compat_sql(name)->Some_0, "CREATE OR REPLACE FUNCTION dayofyear(value date) RETURNS integer AS $$\n        SELECT EXTRACT(DOY FROM value)::integer;\n    $$ LANGUAGE"@),
        name == "dayofmonth"@ ==> occurs(compat_sql(name)->Some_0, "CREATE OR REPLACE FUNCTION dayofyear(value timestamp) RETURNS integer AS $$\n        SELECT EXTRACT(DOY FROM value)::integer;\n    $$ LANGUAGE"@),
{
    reveal_strlit("crc32");
    reveal_strlit("sha2");
    reveal_strlit("weekday");
    reveal_strlit("dayname");
    reveal_strlit("monthname");
    reveal_strlit("locate");
    reveal_strlit("round");
    reveal_strlit("hour");
    reveal_strlit("dayofmonth");
    reveal_strlit("hex");
    assert("crc32"@.len() == 5);
    assert("sha2"@.len() == 4);
    assert("weekday"@.len() == 7);
    assert("dayname"@.len() == 7);
    assert("monthname"@.len() == 9);
    assert("locate"@.len() == 6);
    assert("round"@.len() == 5);
    assert("hour"@.len() == 4);
    assert("dayofmonth"@.len() == 10);
    assert("hex"@.len() == 3);
    assert("crc32"@[0] != "round"@[0]);
    assert("sha2"@[0] != "hour"@[0]);
    assert("weekday"@[0] != "dayname"@[0]);
    lemma_weekday();
    lemma_dayname();
    lemma_monthname();
    lemma_hour();
    lemma_dayofmonth();
}

} // verus!
