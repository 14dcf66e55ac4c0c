//! MySQL's column types as PostgreSQL has them.
use vstd::prelude::*;

use crate::parser::{data_type_sql, render_data_type, show, shown};
use crate::quoting::{sql_string_literal, string_literal};
use crate::text::{
    begins, cat2, cat3, cat4, cat5, cat7, decimal, join, joined, push_text, same, starts_with,
    texts,
};
use crate::tree::{inner, is_unit, item_at, items, payload, present, text_of, variant, Node, Tree};

verus! {

/// A column type in PostgreSQL, with the constraints that keep MySQL's value range and
/// the warnings about what changed.
pub struct MappedType {
    pub sql: String,
    pub checks: Vec<String>,
    pub warnings: Vec<String>,
}

/// The mathematical counterpart of [`MappedType`].
pub struct Mapping {
    pub sql: Seq<char>,
    pub checks: Seq<Seq<char>>,
    pub warnings: Seq<Seq<char>>,
}

impl View for MappedType {
    type V = Mapping;

    open spec fn view(&self) -> Mapping {
        Mapping { sql: self.sql@, checks: texts(self.checks@), warnings: texts(self.warnings@) }
    }
}

/// The kinds of column types that are mapped in the same way.
#[derive(Clone, Copy, PartialEq, Eq, Structural)]
pub enum TypeKind {
    SmallInt,
    Integer,
    BigInt,
    BigIntUnsigned,
    IntUnsigned,
    SmallIntUnsigned,
    TinyIntUnsigned,
    MediumIntUnsigned,
    DecimalUnsigned,
    Decimal,
    FloatUnsigned,
    DoubleUnsigned,
    RealUnsigned,
    Real,
    Double,
    Boolean,
    Enumeration,
    ValueSet,
    Json,
    Text,
    Bytes,
    Datetime,
    Timestamp,
    Other,
}

/// The kind of a column type, by the name of its variant.
pub open spec fn type_kind(v: Seq<char>) -> TypeKind {
    if v == "TinyInt"@ || v == "Int2"@ || v == "SmallInt"@ {
        TypeKind::SmallInt
    } else if v == "MediumInt"@ || v == "Int"@ || v == "Int4"@ || v == "Integer"@ {
        TypeKind::Integer
    } else if v == "BigInt"@ || v == "Int8"@ {
        TypeKind::BigInt
    } else if v == "BigIntUnsigned"@ || v == "Int8Unsigned"@ {
        TypeKind::BigIntUnsigned
    } else if v == "IntegerUnsigned"@ || v == "IntUnsigned"@ || v == "Int4Unsigned"@ {
        TypeKind::IntUnsigned
    } else if v == "SmallIntUnsigned"@ || v == "Int2Unsigned"@ {
        TypeKind::SmallIntUnsigned
    } else if v == "TinyIntUnsigned"@ {
        TypeKind::TinyIntUnsigned
    } else if v == "MediumIntUnsigned"@ {
        TypeKind::MediumIntUnsigned
    } else if v == "DecimalUnsigned"@ || v == "DecUnsigned"@ {
        TypeKind::DecimalUnsigned
    } else if v == "Decimal"@ || v == "Dec"@ || v == "Numeric"@ {
        TypeKind::Decimal
    } else if v == "FloatUnsigned"@ {
        TypeKind::FloatUnsigned
    } else if v == "DoubleUnsigned"@ {
        TypeKind::DoubleUnsigned
    } else if v == "DoublePrecisionUnsigned"@ || v == "RealUnsigned"@ {
        TypeKind::RealUnsigned
    } else if v == "Float"@ || v == "Real"@ || v == "Float4"@ || v == "Float32"@ {
        TypeKind::Real
    } else if v == "Double"@ || v == "DoublePrecision"@ || v == "Float8"@ || v == "Float64"@ {
        TypeKind::Double
    } else if v == "Bool"@ {
        TypeKind::Boolean
    } else if v == "Enum"@ {
        TypeKind::Enumeration
    } else if v == "Set"@ {
        TypeKind::ValueSet
    } else if v == "JSON"@ {
        TypeKind::Json
    } else if v == "TinyText"@ || v == "MediumText"@ || v == "LongText"@ || v == "Text"@ || v == "String"@ {
        TypeKind::Text
    } else if v == "Binary"@ || v == "Varbinary"@ || v == "Blob"@ || v == "TinyBlob"@ || v == "MediumBlob"@ || v
        == "LongBlob"@ || v == "Bytes"@ {
        TypeKind::Bytes
    } else if v == "Datetime"@ {
        TypeKind::Datetime
    } else if v == "Timestamp"@ {
        TypeKind::Timestamp
    } else {
        TypeKind::Other
    }
}

/// Tells the kind of a column type.
pub fn kind_of_type(v: &str) -> (r: TypeKind)
    ensures
        r == type_kind(v@),
{
    if same(v, "TinyInt") || same(v, "Int2") || same(v, "SmallInt") {
        TypeKind::SmallInt
    } else if same(v, "MediumInt") || same(v, "Int") || same(v, "Int4") || same(v, "Integer") {
        TypeKind::Integer
    } else if same(v, "BigInt") || same(v, "Int8") {
        TypeKind::BigInt
    } else if same(v, "BigIntUnsigned") || same(v, "Int8Unsigned") {
        TypeKind::BigIntUnsigned
    } else if same(v, "IntegerUnsigned") || same(v, "IntUnsigned") || same(v, "Int4Unsigned") {
        TypeKind::IntUnsigned
    } else if same(v, "SmallIntUnsigned") || same(v, "Int2Unsigned") {
        TypeKind::SmallIntUnsigned
    } else if same(v, "TinyIntUnsigned") {
        TypeKind::TinyIntUnsigned
    } else if same(v, "MediumIntUnsigned") {
        TypeKind::MediumIntUnsigned
    } else if same(v, "DecimalUnsigned") || same(v, "DecUnsigned") {
        TypeKind::DecimalUnsigned
    } else if same(v, "Decimal") || same(v, "Dec") || same(v, "Numeric") {
        TypeKind::Decimal
    } else if same(v, "FloatUnsigned") {
        TypeKind::FloatUnsigned
    } else if same(v, "DoubleUnsigned") {
        TypeKind::DoubleUnsigned
    } else if same(v, "DoublePrecisionUnsigned") || same(v, "RealUnsigned") {
        TypeKind::RealUnsigned
    } else if same(v, "Float") || same(v, "Real") || same(v, "Float4") || same(v, "Float32") {
        TypeKind::Real
    } else if same(v, "Double") || same(v, "DoublePrecision") || same(v, "Float8") || same(v, "Float64") {
        TypeKind::Double
    } else if same(v, "Bool") {
        TypeKind::Boolean
    } else if same(v, "Enum") {
        TypeKind::Enumeration
    } else if same(v, "Set") {
        TypeKind::ValueSet
    } else if same(v, "JSON") {
        TypeKind::Json
    } else if same(v, "TinyText") || same(v, "MediumText") || same(v, "LongText") || same(v, "Text") || same(
        v,
        "String",
    ) {
        TypeKind::Text
    } else if same(v, "Binary") || same(v, "Varbinary") || same(v, "Blob") || same(v, "TinyBlob") || same(
        v,
        "MediumBlob",
    ) || same(v, "LongBlob") || same(v, "Bytes") {
        TypeKind::Bytes
    } else if same(v, "Datetime") {
        TypeKind::Datetime
    } else if same(v, "Timestamp") {
        TypeKind::Timestamp
    } else {
        TypeKind::Other
    }
}

/// The precision and scale of a decimal type, as they are written.
pub open spec fn exact_number_info(t: Tree) -> Seq<char> {
    match payload(t, "Precision"@) {
        Some(p) => "("@ + text_of(p) + ")"@,
        None => match payload(t, "PrecisionAndScale"@) {
            Some(v) => "("@ + text_of(item_at(v, 0)) + ","@ + text_of(item_at(v, 1)) + ")"@,
            None => ""@,
        },
    }
}

pub fn render_exact_number_info(n: &Node) -> (r: String)
    ensures
        r@ == exact_number_info(n.tree()),
{
    let null = Node::Null;
    match n.payload("Precision") {
        Some(p) => cat3("(", p.text().as_str(), ")"),
        None => match n.payload("PrecisionAndScale") {
            Some(v) => {
                let p = v.item_at(0, &null).text();
                let s = v.item_at(1, &null).text();
                cat5("(", p.as_str(), ",", s.as_str(), ")")
            },
            None => "".to_string(),
        },
    }
}

/// A timestamp type with its precision, where it has one.
pub open spec fn timestamp_type(precision: Tree, with_time_zone: bool) -> Seq<char> {
    let base = if with_time_zone {
        "TIMESTAMP WITH TIME ZONE"@
    } else {
        "TIMESTAMP"@
    };
    if present(precision) {
        base + "("@ + text_of(precision) + ")"@
    } else {
        base
    }
}

pub fn render_timestamp_type(precision: &Node, with_time_zone: bool) -> (r: String)
    ensures
        r@ == timestamp_type(precision.tree(), with_time_zone),
{
    let base = if with_time_zone {
        "TIMESTAMP WITH TIME ZONE"
    } else {
        "TIMESTAMP"
    };
    if precision.is_null() {
        base.to_string()
    } else {
        cat4(base, "(", precision.text().as_str(), ")")
    }
}

/// A constraint that a column is not negative.
pub open spec fn non_negative_check(column: Seq<char>) -> Seq<char> {
    "CHECK ("@ + column + " >= 0)"@
}

/// A constraint that a column lies in the range of an unsigned type.
pub open spec fn unsigned_check(column: Seq<char>, max: Seq<char>) -> Seq<char> {
    "CHECK ("@ + column + " >= 0 AND "@ + column + " <= "@ + max + ")"@
}

/// The name of a member of an ENUM type.
pub open spec fn enum_member(t: Tree) -> Seq<char> {
    match payload(t, "Name"@) {
        Some(n) => text_of(n),
        None => text_of(item_at(inner(t), 0)),
    }
}

pub open spec fn enum_literals(members: Seq<Tree>) -> Seq<Seq<char>> {
    Seq::new(members.len(), |i: int| string_literal(enum_member(members[i])))
}

/// A constraint that a column holds one of the members of an ENUM type.
pub open spec fn enum_check(column: Seq<char>, members: Seq<Tree>) -> Seq<char> {
    "CHECK ("@ + column + " IN ("@ + joined(enum_literals(members), ", "@) + "))"@
}

fn render_enum_check(column: &str, members: &Node) -> (r: String)
    ensures
        r@ == enum_check(column@, items(members.tree())),
{
    let null = Node::Null;
    let mut out: Vec<String> = Vec::new();
    let mut i: usize = 0;
    let count: usize = members.count();
    let ghost want = enum_literals(items(members.tree()));
    while i < count
        invariant
            null.tree() is Null,
            count == items(members.tree()).len(),
            i <= count,
            want == enum_literals(items(members.tree())),
            texts(out@) =~= want.take(i as int),
        decreases count - i,
    {
        let m = members.item(i);
        let name = match m.payload("Name") {
            Some(n) => n.text(),
            None => m.inner(&null).item_at(0, &null).text(),
        };
        push_text(&mut out, sql_string_literal(name.as_str()));
        i = i + 1;
        assert(texts(out@) =~= want.take(i as int));
    }
    assert(texts(out@) =~= want);
    let listed = join(&out, ", ");
    cat5("CHECK (", column, " IN (", listed.as_str(), "))")
}

pub open spec fn plain_mapping(sql: Seq<char>) -> Mapping {
    Mapping { sql, checks: Seq::empty(), warnings: Seq::empty() }
}

pub open spec fn warned_mapping(sql: Seq<char>, warning: Seq<char>) -> Mapping {
    Mapping { sql, checks: Seq::empty(), warnings: seq![warning] }
}

pub open spec fn checked_mapping(sql: Seq<char>, warning: Seq<char>, check: Seq<char>) -> Mapping {
    Mapping { sql, checks: seq![check], warnings: seq![warning] }
}

fn plain(sql: &str) -> (r: MappedType)
    ensures
        r@ == plain_mapping(sql@),
{
    let checks: Vec<String> = Vec::new();
    let warnings: Vec<String> = Vec::new();
    assert(texts(checks@) =~= Seq::<Seq<char>>::empty());
    MappedType { sql: sql.to_string(), checks, warnings }
}

fn warned(sql: &str, warning: String) -> (r: MappedType)
    ensures
        r@ == warned_mapping(sql@, warning@),
{
    let checks: Vec<String> = Vec::new();
    let mut warnings: Vec<String> = Vec::new();
    let ghost w = warning@;
    push_text(&mut warnings, warning);
    assert(texts(checks@) =~= Seq::<Seq<char>>::empty());
    assert(texts(warnings@) =~= seq![w]);
    MappedType { sql: sql.to_string(), checks, warnings }
}

fn checked(sql: &str, warning: String, check: String) -> (r: MappedType)
    ensures
        r@ == checked_mapping(sql@, warning@, check@),
{
    let ghost w = warning@;
    let ghost c = check@;
    let mut checks: Vec<String> = Vec::new();
    push_text(&mut checks, check);
    let mut warnings: Vec<String> = Vec::new();
    push_text(&mut warnings, warning);
    assert(texts(checks@) =~= seq![c]);
    assert(texts(warnings@) =~= seq![w]);
    MappedType { sql: sql.to_string(), checks, warnings }
}

fn check_non_negative(column: &str) -> (r: String)
    ensures
        r@ == non_negative_check(column@),
{
    cat3("CHECK (", column, " >= 0)")
}

fn check_unsigned(column: &str, max: &str) -> (r: String)
    ensures
        r@ == unsigned_check(column@, max@),
{
    cat7("CHECK (", column, " >= 0 AND ", column, " <= ", max, ")")
}

/// A warning about a column.
pub open spec fn mapped_warning(column: Seq<char>, rest: Seq<char>) -> Seq<char> {
    "mapped `"@ + column + rest
}

/// A column type in PostgreSQL.
pub open spec fn type_mapping(column: Seq<char>, t: Tree) -> Mapping {
    let body = inner(t);
    match type_kind(variant(t)) {
        TypeKind::SmallInt => plain_mapping("SMALLINT"@),
        TypeKind::Integer => plain_mapping("INTEGER"@),
        TypeKind::BigInt => plain_mapping("BIGINT"@),
        TypeKind::BigIntUnsigned => warned_mapping(
            "BIGINT"@,
            mapped_warning(
                column,
                "` from BIGINT UNSIGNED to BIGINT; PostgreSQL cannot represent the full unsigned 64-bit range in a native integer identity column"@,
            ),
        ),
        TypeKind::IntUnsigned => checked_mapping(
            "BIGINT"@,
            mapped_warning(column, "` from INT UNSIGNED to BIGINT to preserve the MySQL value range"@),
            unsigned_check(column, "4294967295"@),
        ),
        TypeKind::SmallIntUnsigned => checked_mapping(
            "INTEGER"@,
            mapped_warning(
                column,
                "` from SMALLINT UNSIGNED to INTEGER to preserve the MySQL value range"@,
            ),
            unsigned_check(column, "65535"@),
        ),
        TypeKind::TinyIntUnsigned => checked_mapping(
            "SMALLINT"@,
            mapped_warning(
                column,
                "` from TINYINT UNSIGNED to SMALLINT to preserve the MySQL value range"@,
            ),
            unsigned_check(column, "255"@),
        ),
        TypeKind::MediumIntUnsigned => checked_mapping(
            "INTEGER"@,
            mapped_warning(
                column,
                "` from MEDIUMINT UNSIGNED to INTEGER to preserve the MySQL value range"@,
            ),
            unsigned_check(column, "16777215"@),
        ),
        TypeKind::DecimalUnsigned => checked_mapping(
            "NUMERIC"@ + exact_number_info(body),
            mapped_warning(
                column,
                "` from unsigned DECIMAL to NUMERIC and added a non-negative CHECK constraint"@,
            ),
            non_negative_check(column),
        ),
        TypeKind::Decimal => plain_mapping("NUMERIC"@ + exact_number_info(body)),
        TypeKind::FloatUnsigned => checked_mapping(
            "REAL"@,
            mapped_warning(
                column,
                "` from unsigned FLOAT to REAL and added a non-negative CHECK constraint"@,
            ),
            non_negative_check(column),
        ),
        TypeKind::DoubleUnsigned => checked_mapping(
            "DOUBLE PRECISION"@,
            mapped_warning(
                column,
                "` from unsigned DOUBLE to DOUBLE PRECISION and added a non-negative CHECK constraint"@,
            ),
            non_negative_check(column),
        ),
        TypeKind::RealUnsigned => checked_mapping(
            "DOUBLE PRECISION"@,
            mapped_warning(
                column,
                "` from unsigned floating-point to DOUBLE PRECISION and added a non-negative CHECK constraint"@,
            ),
            non_negative_check(column),
        ),
        TypeKind::Real => plain_mapping("REAL"@),
        TypeKind::Double => plain_mapping("DOUBLE PRECISION"@),
        TypeKind::Boolean => plain_mapping("BOOLEAN"@),
        TypeKind::Enumeration => checked_mapping(
            "TEXT"@,
            "rewrote MySQL ENUM column `"@ + column + "` to TEXT with a CHECK constraint"@,
            enum_check(column, items(item_at(body, 0))),
        ),
        TypeKind::ValueSet => warned_mapping(
            "TEXT"@,
            "mapped MySQL SET column `"@ + column + "` to TEXT; membership semantics are not preserved"@,
        ),
        TypeKind::Json => plain_mapping("JSONB"@),
        TypeKind::Text => plain_mapping("TEXT"@),
        TypeKind::Bytes => plain_mapping("BYTEA"@),
        TypeKind::Datetime => plain_mapping(timestamp_type(body, false)),
        TypeKind::Timestamp => plain_mapping(
            timestamp_type(item_at(body, 0), !is_unit(item_at(body, 1), "None"@)),
        ),
        TypeKind::Other => plain_mapping(shown(data_type_sql(t))),
    }
}

fn mapped(column: &str, rest: &str) -> (r: String)
    ensures
        r@ == mapped_warning(column@, rest@),
{
    cat3("mapped `", column, rest)
}

/// Maps a column type to PostgreSQL, with the constraints that keep MySQL's value range.
pub fn translate_data_type(column_name: &str, data_type: &Node) -> (r: MappedType)
    ensures
        r@ == type_mapping(column_name@, data_type.tree()),
{
    let null = Node::Null;
    let body = data_type.inner(&null);
    let v = data_type.variant();
    match kind_of_type(v.as_str()) {
        TypeKind::SmallInt => plain("SMALLINT"),
        TypeKind::Integer => plain("INTEGER"),
        TypeKind::BigInt => plain("BIGINT"),
        TypeKind::BigIntUnsigned => warned(
            "BIGINT",
            mapped(
                column_name,
                "` from BIGINT UNSIGNED to BIGINT; PostgreSQL cannot represent the full unsigned 64-bit range in a native integer identity column",
            ),
        ),
        TypeKind::IntUnsigned => checked(
            "BIGINT",
            mapped(column_name, "` from INT UNSIGNED to BIGINT to preserve the MySQL value range"),
            check_unsigned(column_name, "4294967295"),
        ),
        TypeKind::SmallIntUnsigned => checked(
            "INTEGER",
            mapped(column_name, "` from SMALLINT UNSIGNED to INTEGER to preserve the MySQL value range"),
            check_unsigned(column_name, "65535"),
        ),
        TypeKind::TinyIntUnsigned => checked(
            "SMALLINT",
            mapped(column_name, "` from TINYINT UNSIGNED to SMALLINT to preserve the MySQL value range"),
            check_unsigned(column_name, "255"),
        ),
        TypeKind::MediumIntUnsigned => checked(
            "INTEGER",
            mapped(column_name, "` from MEDIUMINT UNSIGNED to INTEGER to preserve the MySQL value range"),
            check_unsigned(column_name, "16777215"),
        ),
        TypeKind::DecimalUnsigned => checked(
            cat2("NUMERIC", render_exact_number_info(body).as_str()).as_str(),
            mapped(
                column_name,
                "` from unsigned DECIMAL to NUMERIC and added a non-negative CHECK constraint",
            ),
            check_non_negative(column_name),
        ),
        TypeKind::Decimal => plain(cat2("NUMERIC", render_exact_number_info(body).as_str()).as_str()),
        TypeKind::FloatUnsigned => checked(
            "REAL",
            mapped(
                column_name,
                "` from unsigned FLOAT to REAL and added a non-negative CHECK constraint",
            ),
            check_non_negative(column_name),
        ),
        TypeKind::DoubleUnsigned => checked(
            "DOUBLE PRECISION",
            mapped(
                column_name,
                "` from unsigned DOUBLE to DOUBLE PRECISION and added a non-negative CHECK constraint",
            ),
            check_non_negative(column_name),
        ),
        TypeKind::RealUnsigned => checked(
            "DOUBLE PRECISION",
            mapped(
                column_name,
                "` from unsigned floating-point to DOUBLE PRECISION and added a non-negative CHECK constraint",
            ),
            check_non_negative(column_name),
        ),
        TypeKind::Real => plain("REAL"),
        TypeKind::Double => plain("DOUBLE PRECISION"),
        TypeKind::Boolean => plain("BOOLEAN"),
        TypeKind::Enumeration => checked(
            "TEXT",
            cat3("rewrote MySQL ENUM column `", column_name, "` to TEXT with a CHECK constraint"),
            render_enum_check(column_name, body.item_at(0, &null)),
        ),
        TypeKind::ValueSet => warned(
            "TEXT",
            cat3(
                "mapped MySQL SET column `",
                column_name,
                "` to TEXT; membership semantics are not preserved",
            ),
        ),
        TypeKind::Json => plain("JSONB"),
        TypeKind::Text => plain("TEXT"),
        TypeKind::Bytes => plain("BYTEA"),
        TypeKind::Datetime => plain(render_timestamp_type(body, false).as_str()),
        TypeKind::Timestamp => {
            let zoned = !body.item_at(1, &null).is_unit("None");
            plain(render_timestamp_type(body.item_at(0, &null), zoned).as_str())
        },
        TypeKind::Other => plain(show(render_data_type(data_type)).as_str()),
    }
}

/// The value with which MySQL fills a new column that may not be null: zero for numbers,
/// the empty string for text. Other types have none.
pub open spec fn implicit_default(pg_type: Seq<char>) -> Option<Seq<char>> {
    if pg_type == "SMALLINT"@ || pg_type == "INTEGER"@ || pg_type == "BIGINT"@ || pg_type == "REAL"@ || pg_type
        == "DOUBLE PRECISION"@ || begins(pg_type, "NUMERIC"@) {
        Some("0"@)
    } else if pg_type == "BOOLEAN"@ {
        Some("FALSE"@)
    } else if pg_type == "TEXT"@ || pg_type == "BYTEA"@ || begins(pg_type, "VARCHAR"@) || begins(
        pg_type,
        "CHAR"@,
    ) {
        Some("''"@)
    } else {
        None
    }
}

pub fn implicit_default_of(pg_type: &str) -> (r: Option<&'static str>)
    ensures
        match r {
            Some(s) => implicit_default(pg_type@) == Some(s@),
            None => implicit_default(pg_type@) is None,
        },
{
    if same(pg_type, "SMALLINT") || same(pg_type, "INTEGER") || same(pg_type, "BIGINT") || same(pg_type, "REAL")
        || same(pg_type, "DOUBLE PRECISION") || starts_with(pg_type, "NUMERIC") {
        Some("0")
    } else if same(pg_type, "BOOLEAN") {
        Some("FALSE")
    } else if same(pg_type, "TEXT") || same(pg_type, "BYTEA") || starts_with(pg_type, "VARCHAR") || starts_with(
        pg_type,
        "CHAR",
    ) {
        Some("''")
    } else {
        None
    }
}

/// The largest value of an unsigned integer type whose range a constraint keeps.
pub open spec fn unsigned_max(kind: TypeKind) -> Option<nat> {
    match kind {
        TypeKind::TinyIntUnsigned => Some(255),
        TypeKind::SmallIntUnsigned => Some(65535),
        TypeKind::MediumIntUnsigned => Some(16777215),
        TypeKind::IntUnsigned => Some(4294967295),
        _ => None,
    }
}

/// Whether a type is an unsigned one of numbers that are not integers.
pub open spec fn is_unsigned_fraction(kind: TypeKind) -> bool {
    kind == TypeKind::DecimalUnsigned || kind == TypeKind::FloatUnsigned || kind == TypeKind::DoubleUnsigned || kind
        == TypeKind::RealUnsigned
}

/// A column of an unsigned type keeps its range: one constraint holds an integer between
/// zero and the largest value of its type and any other number at zero or more. The one
/// exception is BIGINT UNSIGNED, which has no constraint but a warning.
pub proof fn unsigned_types_keep_their_range(column: Seq<char>, t: Tree)
    ensures
        match unsigned_max(type_kind(variant(t))) {
            Some(max) => type_mapping(column, t).checks == seq![unsigned_check(column, decimal(max))],
            None => true,
        },
        is_unsigned_fraction(type_kind(variant(t))) ==> type_mapping(column, t).checks == seq![
            non_negative_check(column),
        ],
        type_kind(variant(t)) == TypeKind::BigIntUnsigned ==> type_mapping(column, t).warnings.len() == 1,
{
    reveal_strlit("255");
    reveal_strlit("65535");
    reveal_strlit("16777215");
    reveal_strlit("4294967295");
    reveal_with_fuel(decimal, 11);
    assert(decimal(255) =~= "255"@);
    assert(decimal(65535) =~= "65535"@);
    assert(decimal(16777215) =~= "16777215"@);
    assert(decimal(4294967295) =~= "4294967295"@);
}

} // verus!
