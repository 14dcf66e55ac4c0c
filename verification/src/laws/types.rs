//! The types of columns.
use vstd::prelude::*;

use crate::quoting::string_literal;
use crate::text::joined;
use crate::tree::{inner, item_at, payload, tagged, text_of, variant, Tree};
use crate::types::{enum_literals, type_kind, type_mapping, TypeKind};

verus! {

proof fn lemma_kinds(v: Seq<char>)
    ensures
        v == "TinyInt"@ || v == "Int2"@ || v == "SmallInt"@ ==> type_kind(v) == TypeKind::SmallInt,
        v == "MediumInt"@ || v == "Int"@ || v == "Int4"@ || v == "Integer"@ ==> type_kind(v) == TypeKind::Integer,
        v == "BigInt"@ || v == "Int8"@ ==> type_kind(v) == TypeKind::BigInt,
        v == "BigIntUnsigned"@ || v == "Int8Unsigned"@ ==> type_kind(v) == TypeKind::BigIntUnsigned,
        v == "IntegerUnsigned"@ || v == "IntUnsigned"@ || v == "Int4Unsigned"@ ==> type_kind(v) == TypeKind::IntUnsigned,
        v == "SmallIntUnsigned"@ || v == "Int2Unsigned"@ ==> type_kind(v) == TypeKind::SmallIntUnsigned,
        v == "TinyIntUnsigned"@ ==> type_kind(v) == TypeKind::TinyIntUnsigned,
        v == "MediumIntUnsigned"@ ==> type_kind(v) == TypeKind::MediumIntUnsigned,
        v == "DecimalUnsigned"@ || v == "DecUnsigned"@ ==> type_kind(v) == TypeKind::DecimalUnsigned,
        v == "Decimal"@ || v == "Dec"@ || v == "Numeric"@ ==> type_kind(v) == TypeKind::Decimal,
        v == "FloatUnsigned"@ ==> type_kind(v) == TypeKind::FloatUnsigned,
        v == "DoubleUnsigned"@ ==> type_kind(v) == TypeKind::DoubleUnsigned,
        v == "DoublePrecisionUnsigned"@ || v == "RealUnsigned"@ ==> type_kind(v) == TypeKind::RealUnsigned,
        v == "Float"@ || v == "Real"@ || v == "Float4"@ || v == "Float32"@ ==> type_kind(v) == TypeKind::Real,
        v == "Double"@ || v == "DoublePrecision"@ || v == "Float8"@ || v == "Float64"@ ==> type_kind(v) == TypeKind::Double,
        v == "Bool"@ ==> type_kind(v) == TypeKind::Boolean,
        v == "Enum"@ ==> type_kind(v) == TypeKind::Enumeration,
        v == "Set"@ ==> type_kind(v) == TypeKind::ValueSet,
        v == "JSON"@ ==> type_kind(v) == TypeKind::Json,
        v == "TinyText"@ || v == "MediumText"@ || v == "LongText"@ || v == "Text"@ || v == "String"@ ==> type_kind(v) == TypeKind::Text,
        v == "Binary"@ || v == "Varbinary"@ || v == "Blob"@ || v == "TinyBlob"@ || v == "MediumBlob"@ || v == "LongBlob"@ || v == "Bytes"@ ==> type_kind(v) == TypeKind::Bytes,
        v == "Datetime"@ ==> type_kind(v) == TypeKind::Datetime,
        v == "Timestamp"@ ==> type_kind(v) == TypeKind::Timestamp,
{
    reveal_strlit("TinyInt");
    reveal_strlit("Int2");
    reveal_strlit("SmallInt");
    reveal_strlit("MediumInt");
    reveal_strlit("Int");
    reveal_strlit("Int4");
    reveal_strlit("Integer");
    reveal_strlit("BigInt");
    reveal_strlit("Int8");
    reveal_strlit("BigIntUnsigned");
    reveal_strlit("Int8Unsigned");
    reveal_strlit("IntegerUnsigned");
    reveal_strlit("IntUnsigned");
    reveal_strlit("Int4Unsigned");
    reveal_strlit("SmallIntUnsigned");
    reveal_strlit("Int2Unsigned");
    reveal_strlit("TinyIntUnsigned");
    reveal_strlit("MediumIntUnsigned");
    reveal_strlit("DecimalUnsigned");
    reveal_strlit("DecUnsigned");
    reveal_strlit("Decimal");
    reveal_strlit("Dec");
    reveal_strlit("Numeric");
    reveal_strlit("FloatUnsigned");
    reveal_strlit("DoubleUnsigned");
    reveal_strlit("DoublePrecisionUnsigned");
    reveal_strlit("RealUnsigned");
    reveal_strlit("Float");
    reveal_strlit("Real");
    reveal_strlit("Float4");
    reveal_strlit("Float32");
    reveal_strlit("Double");
    reveal_strlit("DoublePrecision");
    reveal_strlit("Float8");
    reveal_strlit("Float64");
    reveal_strlit("Bool");
    reveal_strlit("Enum");
    reveal_strlit("Set");
    reveal_strlit("JSON");
    reveal_strlit("TinyText");
    reveal_strlit("MediumText");
    reveal_strlit("LongText");
    reveal_strlit("Text");
    reveal_strlit("String");
    reveal_strlit("Binary");
    reveal_strlit("Varbinary");
    reveal_strlit("Blob");
    reveal_strlit("TinyBlob");
    reveal_strlit("MediumBlob");
    reveal_strlit("LongBlob");
    reveal_strlit("Bytes");
    reveal_strlit("Datetime");
    reveal_strlit("Timestamp");
    assert("TinyInt"@.len() == 7);
    assert("Int2"@.len() == 4);
    assert("SmallInt"@.len() == 8);
    assert("MediumInt"@.len() == 9);
    assert("Int"@.len() == 3);
    assert("Int4"@.len() == 4);
    assert("Integer"@.len() == 7);
    assert("BigInt"@.len() == 6);
    assert("Int8"@.len() == 4);
    assert("BigIntUnsigned"@.len() == 14);
    assert("Int8Unsigned"@.len() == 12);
    assert("IntegerUnsigned"@.len() == 15);
    assert("IntUnsigned"@.len() == 11);
    assert("Int4Unsigned"@.len() == 12);
    assert("SmallIntUnsigned"@.len() == 16);
    assert("Int2Unsigned"@.len() == 12);
    assert("TinyIntUnsigned"@.len() == 15);
    assert("MediumIntUnsigned"@.len() == 17);
    assert("DecimalUnsigned"@.len() == 15);
    assert("DecUnsigned"@.len() == 11);
    assert("Decimal"@.len() == 7);
    assert("Dec"@.len() == 3);
    assert("Numeric"@.len() == 7);
    assert("FloatUnsigned"@.len() == 13);
    assert("DoubleUnsigned"@.len() == 14);
    assert("DoublePrecisionUnsigned"@.len() == 23);
    assert("RealUnsigned"@.len() == 12);
    assert("Float"@.len() == 5);
    assert("Real"@.len() == 4);
    assert("Float4"@.len() == 6);
    assert("Float32"@.len() == 7);
    assert("Double"@.len() == 6);
    assert("DoublePrecision"@.len() == 15);
    assert("Float8"@.len() == 6);
    assert("Float64"@.len() == 7);
    assert("Bool"@.len() == 4);
    assert("Enum"@.len() == 4);
    assert("Set"@.len() == 3);
    assert("JSON"@.len() == 4);
    assert("TinyText"@.len() == 8);
    assert("MediumText"@.len() == 10);
    assert("LongText"@.len() == 8);
    assert("Text"@.len() == 4);
    assert("String"@.len() == 6);
    assert("Binary"@.len() == 6);
    assert("Varbinary"@.len() == 9);
    assert("Blob"@.len() == 4);
    assert("TinyBlob"@.len() == 8);
    assert("MediumBlob"@.len() == 10);
    assert("LongBlob"@.len() == 8);
    assert("Bytes"@.len() == 5);
    assert("Datetime"@.len() == 8);
    assert("Timestamp"@.len() == 9);
    assert("TinyInt"@[0] != "Integer"@[0]);
    assert("TinyInt"@[0] != "Decimal"@[0]);
    assert("TinyInt"@[0] != "Numeric"@[0]);
    assert("TinyInt"@[0] != "Float32"@[0]);
    assert("TinyInt"@[0] != "Float64"@[0]);
    assert("Int2"@[3] != "Int4"@[3]);
    assert("Int2"@[3] != "Int8"@[3]);
    assert("Int2"@[0] != "Real"@[0]);
    assert("Int2"@[0] != "Bool"@[0]);
    assert("Int2"@[0] != "Enum"@[0]);
    assert("Int2"@[0] != "JSON"@[0]);
    assert("Int2"@[0] != "Text"@[0]);
    assert("Int2"@[0] != "Blob"@[0]);
    assert("SmallInt"@[0] != "TinyText"@[0]);
    assert("SmallInt"@[0] != "LongText"@[0]);
    assert("SmallInt"@[0] != "TinyBlob"@[0]);
    assert("SmallInt"@[0] != "LongBlob"@[0]);
    assert("SmallInt"@[0] != "Datetime"@[0]);
    assert("MediumInt"@[0] != "Varbinary"@[0]);
    assert("MediumInt"@[0] != "Timestamp"@[0]);
    assert("Int"@[0] != "Dec"@[0]);
    assert("Int"@[0] != "Set"@[0]);
    assert("Int4"@[3] != "Int8"@[3]);
    assert("Int4"@[0] != "Real"@[0]);
    assert("Int4"@[0] != "Bool"@[0]);
    assert("Int4"@[0] != "Enum"@[0]);
    assert("Int4"@[0] != "JSON"@[0]);
    assert("Int4"@[0] != "Text"@[0]);
    assert("Int4"@[0] != "Blob"@[0]);
    assert("Integer"@[0] != "Decimal"@[0]);
    assert("Integer"@[0] != "Numeric"@[0]);
    assert("Integer"@[0] != "Float32"@[0]);
    assert("Integer"@[0] != "Float64"@[0]);
    assert("BigInt"@[0] != "Float4"@[0]);
    assert("BigInt"@[0] != "Double"@[0]);
    assert("BigInt"@[0] != "Float8"@[0]);
    assert("BigInt"@[0] != "String"@[0]);
    assert("BigInt"@[2] != "Binary"@[2]);
    assert("Int8"@[0] != "Real"@[0]);
    assert("Int8"@[0] != "Bool"@[0]);
    assert("Int8"@[0] != "Enum"@[0]);
    assert("Int8"@[0] != "JSON"@[0]);
    assert("Int8"@[0] != "Text"@[0]);
    assert("Int8"@[0] != "Blob"@[0]);
    assert("BigIntUnsigned"@[0] != "DoubleUnsigned"@[0]);
    assert("Int8Unsigned"@[3] != "Int4Unsigned"@[3]);
    assert("Int8Unsigned"@[3] != "Int2Unsigned"@[3]);
    assert("Int8Unsigned"@[0] != "RealUnsigned"@[0]);
    assert("IntegerUnsigned"@[0] != "TinyIntUnsigned"@[0]);
    assert("IntegerUnsigned"@[0] != "DecimalUnsigned"@[0]);
    assert("IntegerUnsigned"@[0] != "DoublePrecision"@[0]);
    assert("IntUnsigned"@[0] != "DecUnsigned"@[0]);
    assert("Int4Unsigned"@[3] != "Int2Unsigned"@[3]);
    assert("Int4Unsigned"@[0] != "RealUnsigned"@[0]);
    assert("Int2Unsigned"@[0] != "RealUnsigned"@[0]);
    assert("TinyIntUnsigned"@[0] != "DecimalUnsigned"@[0]);
    assert("TinyIntUnsigned"@[0] != "DoublePrecision"@[0]);
    assert("DecimalUnsigned"@[1] != "DoublePrecision"@[1]);
    assert("Decimal"@[0] != "Numeric"@[0]);
    assert("Decimal"@[0] != "Float32"@[0]);
    assert("Decimal"@[0] != "Float64"@[0]);
    assert("Dec"@[0] != "Set"@[0]);
    assert("Numeric"@[0] != "Float32"@[0]);
    assert("Numeric"@[0] != "Float64"@[0]);
    assert("Float"@[0] != "Bytes"@[0]);
    assert("Real"@[0] != "Bool"@[0]);
    assert("Real"@[0] != "Enum"@[0]);
    assert("Real"@[0] != "JSON"@[0]);
    assert("Real"@[0] != "Text"@[0]);
    assert("Real"@[0] != "Blob"@[0]);
    assert("Float4"@[0] != "Double"@[0]);
    assert("Float4"@[5] != "Float8"@[5]);
    assert("Float4"@[0] != "String"@[0]);
    assert("Float4"@[0] != "Binary"@[0]);
    assert("Float32"@[5] != "Float64"@[5]);
    assert("Double"@[0] != "Float8"@[0]);
    assert("Double"@[0] != "String"@[0]);
    assert("Double"@[0] != "Binary"@[0]);
    assert("Float8"@[0] != "String"@[0]);
    assert("Float8"@[0] != "Binary"@[0]);
    assert("Bool"@[0] != "Enum"@[0]);
    assert("Bool"@[0] != "JSON"@[0]);
    assert("Bool"@[0] != "Text"@[0]);
    assert("Bool"@[1] != "Blob"@[1]);
    assert("Enum"@[0] != "JSON"@[0]);
    assert("Enum"@[0] != "Text"@[0]);
    assert("Enum"@[0] != "Blob"@[0]);
    assert("JSON"@[0] != "Text"@[0]);
    assert("JSON"@[0] != "Blob"@[0]);
    assert("TinyText"@[0] != "LongText"@[0]);
    assert("TinyText"@[4] != "TinyBlob"@[4]);
    assert("TinyText"@[0] != "LongBlob"@[0]);
    assert("TinyText"@[0] != "Datetime"@[0]);
    assert("MediumText"@[6] != "MediumBlob"@[6]);
    assert("LongText"@[0] != "TinyBlob"@[0]);
    assert("LongText"@[4] != "LongBlob"@[4]);
    assert("LongText"@[0] != "Datetime"@[0]);
    assert("Text"@[0] != "Blob"@[0]);
    assert("String"@[0] != "Binary"@[0]);
    assert("Varbinary"@[0] != "Timestamp"@[0]);
    assert("TinyBlob"@[0] != "LongBlob"@[0]);
    assert("TinyBlob"@[0] != "Datetime"@[0]);
    assert("LongBlob"@[0] != "Datetime"@[0]);
}

/// The whole numbers that a type of PostgreSQL holds.
pub open spec fn postgres_range(sql: Seq<char>, n: int) -> bool {
    ||| sql == "SMALLINT"@ && -32768 <= n <= 32767
    ||| sql == "INTEGER"@ && -2147483648 <= n <= 2147483647
    ||| sql == "BIGINT"@ && -9223372036854775808 <= n <= 9223372036854775807
}

/// The whole numbers that a type of MySQL holds.
pub open spec fn mysql_range(v: Seq<char>, n: int) -> bool {
    ||| v == "TinyInt"@ && -128 <= n <= 127
    ||| v == "SmallInt"@ && -32768 <= n <= 32767
    ||| v == "MediumInt"@ && -8388608 <= n <= 8388607
    ||| (v == "Int"@ || v == "Integer"@) && -2147483648 <= n <= 2147483647
    ||| v == "BigInt"@ && -9223372036854775808 <= n <= 9223372036854775807
    ||| v == "TinyIntUnsigned"@ && 0 <= n <= 255
    ||| v == "SmallIntUnsigned"@ && 0 <= n <= 65535
    ||| v == "MediumIntUnsigned"@ && 0 <= n <= 16777215
    ||| (v == "IntUnsigned"@ || v == "IntegerUnsigned"@) && 0 <= n <= 4294967295
}

/// A whole number that fits a column in MySQL fits it in PostgreSQL too.
pub proof fn whole_numbers_fit_their_columns(column: Seq<char>, t: Tree, n: int)
    requires
        mysql_range(variant(t), n),
    ensures
        postgres_range(type_mapping(column, t).sql, n),
{
    lemma_kinds(variant(t));
    reveal_strlit("TinyInt");
    reveal_strlit("SmallInt");
    reveal_strlit("MediumInt");
    reveal_strlit("Int");
    reveal_strlit("Integer");
    reveal_strlit("BigInt");
    reveal_strlit("TinyIntUnsigned");
    reveal_strlit("SmallIntUnsigned");
    reveal_strlit("MediumIntUnsigned");
    reveal_strlit("IntUnsigned");
    reveal_strlit("IntegerUnsigned");
    assert("TinyInt"@.len() == 7);
    assert("SmallInt"@.len() == 8);
    assert("MediumInt"@.len() == 9);
    assert("Int"@.len() == 3);
    assert("Integer"@.len() == 7);
    assert("BigInt"@.len() == 6);
    assert("TinyIntUnsigned"@.len() == 15);
    assert("SmallIntUnsigned"@.len() == 16);
    assert("MediumIntUnsigned"@.len() == 17);
    assert("IntUnsigned"@.len() == 11);
    assert("IntegerUnsigned"@.len() == 15);
    assert("TinyInt"@[0] != "Integer"@[0]);
    assert("TinyIntUnsigned"@[0] != "IntegerUnsigned"@[0]);
}

/// A column of an unsigned type refuses what MySQL would refuse: negative numbers, and numbers
/// beyond the type.
pub proof fn unsigned_columns_are_checked(column: Seq<char>, t: Tree)
    ensures
        variant(t) == "TinyIntUnsigned"@ ==> type_mapping(column, t).checks == seq![
            "CHECK ("@ + column + " >= 0 AND "@ + column + " <= "@ + "255"@ + ")"@,
        ],
        variant(t) == "SmallIntUnsigned"@ || variant(t) == "Int2Unsigned"@ ==> type_mapping(column, t).checks == seq![
            "CHECK ("@ + column + " >= 0 AND "@ + column + " <= "@ + "65535"@ + ")"@,
        ],
        variant(t) == "MediumIntUnsigned"@ ==> type_mapping(column, t).checks == seq![
            "CHECK ("@ + column + " >= 0 AND "@ + column + " <= "@ + "16777215"@ + ")"@,
        ],
        variant(t) == "IntUnsigned"@ || variant(t) == "IntegerUnsigned"@ || variant(t) == "Int4Unsigned"@ ==> type_mapping(
            column,
            t,
        ).checks == seq!["CHECK ("@ + column + " >= 0 AND "@ + column + " <= "@ + "4294967295"@ + ")"@],
        variant(t) == "DecimalUnsigned"@ || variant(t) == "DecUnsigned"@ || variant(t) == "FloatUnsigned"@ || variant(t)
            == "DoubleUnsigned"@ || variant(t) == "DoublePrecisionUnsigned"@ || variant(t) == "RealUnsigned"@
            ==> type_mapping(column, t).checks == seq!["CHECK ("@ + column + " >= 0)"@],
        variant(t) == "TinyInt"@ || variant(t) == "SmallInt"@ || variant(t) == "MediumInt"@ || variant(t) == "Int"@ || variant(
            t,
        ) == "BigInt"@ || variant(t) == "Decimal"@ || variant(t) == "Float"@ || variant(t) == "Double"@ || variant(t)
            == "Text"@ ==> type_mapping(column, t).checks.len() == 0,
{
    lemma_kinds(variant(t));
}

/// Numbers with a fraction keep their precision and scale.
pub proof fn exact_numbers_keep_their_precision(column: Seq<char>, v: Seq<char>, precision: Tree, scale: Tree)
    requires
        v == "Decimal"@ || v == "Dec"@ || v == "Numeric"@ || v == "DecimalUnsigned"@ || v == "DecUnsigned"@,
    ensures
        type_mapping(column, tagged(v, tagged("PrecisionAndScale"@, Tree::List(seq![precision, scale])))).sql == "NUMERIC"@ + (
            "("@ + text_of(precision) + ","@ + text_of(scale) + ")"@),
        type_mapping(column, tagged(v, tagged("Precision"@, precision))).sql == "NUMERIC"@ + ("("@ + text_of(precision) + ")"@),
        type_mapping(column, tagged(v, Tree::Text("None"@))).sql == "NUMERIC"@,
{
    lemma_kinds(v);
    reveal_strlit("");
    reveal_strlit("Precision");
    reveal_strlit("PrecisionAndScale");
    assert("Precision"@.len() == 9);
    assert("PrecisionAndScale"@.len() == 17);
    assert("NUMERIC"@ + ""@ =~= "NUMERIC"@);
}

/// The other types become what holds the same values.
pub proof fn other_types_hold_the_same_values(column: Seq<char>, t: Tree)
    ensures
        ({
            let v = variant(t);
            let sql = type_mapping(column, t).sql;
            &&& v == "Float"@ || v == "Real"@ || v == "FloatUnsigned"@ ==> sql == "REAL"@
            &&& v == "Double"@ || v == "DoublePrecision"@ || v == "DoubleUnsigned"@ || v == "DoublePrecisionUnsigned"@
                ==> sql == "DOUBLE PRECISION"@
            &&& v == "Bool"@ ==> sql == "BOOLEAN"@
            &&& v == "JSON"@ ==> sql == "JSONB"@
            &&& v == "TinyText"@ || v == "MediumText"@ || v == "LongText"@ || v == "Text"@ || v == "Enum"@ || v == "Set"@
                ==> sql == "TEXT"@
            &&& v == "Binary"@ || v == "Varbinary"@ || v == "Blob"@ || v == "TinyBlob"@ || v == "MediumBlob"@ || v
                == "LongBlob"@ ==> sql == "BYTEA"@
            &&& v == "BigIntUnsigned"@ ==> sql == "BIGINT"@ && type_mapping(column, t).warnings.len() == 1
        }),
{
    lemma_kinds(variant(t));
}

/// A time keeps its precision, and its time zone where it has one.
pub proof fn times_keep_their_precision(column: Seq<char>, precision: Tree, zone: Seq<char>)
    requires
        !(precision is Null),
    ensures
        type_mapping(column, tagged("Datetime"@, precision)).sql == "TIMESTAMP"@ + "("@ + text_of(precision) + ")"@,
        type_mapping(column, tagged("Datetime"@, Tree::Null)).sql == "TIMESTAMP"@,
        type_mapping(column, tagged("Timestamp"@, Tree::List(seq![precision, Tree::Text("None"@)]))).sql == "TIMESTAMP"@
            + "("@ + text_of(precision) + ")"@,
        type_mapping(column, tagged("Timestamp"@, Tree::List(seq![Tree::Null, Tree::Text("None"@)]))).sql == "TIMESTAMP"@,
        zone != "None"@ ==> type_mapping(column, tagged("Timestamp"@, Tree::List(seq![Tree::Null, Tree::Text(zone)]))).sql
            == "TIMESTAMP WITH TIME ZONE"@,
        zone != "None"@ ==> type_mapping(column, tagged("Timestamp"@, Tree::List(seq![precision, Tree::Text(zone)]))).sql
            == "TIMESTAMP WITH TIME ZONE"@ + "("@ + text_of(precision) + ")"@,
{
    lemma_kinds("Datetime"@);
    lemma_kinds("Timestamp"@);
}

/// A column of an enumeration takes its members and nothing else: the check names each of them, in
/// order, as a string.
pub proof fn enumerations_take_their_members(column: Seq<char>, members: Seq<Tree>, bits: Tree)
    ensures
        exists|entries: Seq<Seq<char>>|
            entries.len() == members.len() && type_mapping(
                column,
                tagged("Enum"@, Tree::List(seq![Tree::List(members), bits])),
            ).checks == seq!["CHECK ("@ + column + " IN ("@ + #[trigger] joined(entries, ", "@) + "))"@] && forall|i: int|
                0 <= i < members.len() && payload(members[i], "Name"@) is Some ==> #[trigger] entries[i] == string_literal(
                    text_of(payload(members[i], "Name"@)->Some_0),
                ),
{
    lemma_kinds("Enum"@);
    let t = tagged("Enum"@, Tree::List(seq![Tree::List(members), bits]));
    let entries = enum_literals(members);
    assert(item_at(inner(t), 0) == Tree::List(members));
    assert(type_mapping(column, t).checks == seq!["CHECK ("@ + column + " IN ("@ + joined(entries, ", "@) + "))"@]);
}

/// A member of an enumeration that has a number counts by its name.
pub proof fn members_count_by_their_name(name: Tree, number: Tree)
    ensures
        crate::types::enum_member(tagged("NamedValue"@, Tree::List(seq![name, number]))) == text_of(name),
        crate::types::enum_member(tagged("Name"@, name)) == text_of(name),
{
    reveal_strlit("Name");
    reveal_strlit("NamedValue");
    assert("Name"@.len() == 4);
    assert("NamedValue"@.len() == 10);
}

} // verus!
