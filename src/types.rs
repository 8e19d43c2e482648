//! The two-way mapping between database column types and declared field types.
//!
//! Both directions go through [`ScalarKind`]. Two column types, `text` and
//! `varchar`, are declared as `String`; a `String` field maps back to the
//! canonical `text`.
use vstd::prelude::*;
use crate::error::SchemaError;
use crate::text::same_text;

verus! {

#[derive(Clone, Copy, Debug, PartialEq, Eq)]
pub enum ScalarKind {
    BigInt,
    Int,
    SmallInt,
    Text,
    VarChar,
    Json,
    TimestampTz,
    Date,
    Real,
    Double,
    Uuid,
    Boolean,
    Bytes,
}

/// The kind of a column type name.
pub open spec fn native_kind(s: Seq<char>) -> Option<ScalarKind> {
    if s == "int8"@ {
        Some(ScalarKind::BigInt)
    } else if s == "int4"@ {
        Some(ScalarKind::Int)
    } else if s == "int2"@ {
        Some(ScalarKind::SmallInt)
    } else if s == "text"@ {
        Some(ScalarKind::Text)
    } else if s == "varchar"@ {
        Some(ScalarKind::VarChar)
    } else if s == "jsonb"@ {
        Some(ScalarKind::Json)
    } else if s == "timestamptz"@ {
        Some(ScalarKind::TimestampTz)
    } else if s == "date"@ {
        Some(ScalarKind::Date)
    } else if s == "float4"@ {
        Some(ScalarKind::Real)
    } else if s == "float8"@ {
        Some(ScalarKind::Double)
    } else if s == "uuid"@ {
        Some(ScalarKind::Uuid)
    } else if s == "boolean"@ {
        Some(ScalarKind::Boolean)
    } else if s == "bytea"@ {
        Some(ScalarKind::Bytes)
    } else {
        None
    }
}

/// The kind of a declared type name; `String` stands for `text`.
pub open spec fn declared_kind(s: Seq<char>) -> Option<ScalarKind> {
    if s == "i64"@ {
        Some(ScalarKind::BigInt)
    } else if s == "i32"@ {
        Some(ScalarKind::Int)
    } else if s == "i16"@ {
        Some(ScalarKind::SmallInt)
    } else if s == "String"@ {
        Some(ScalarKind::Text)
    } else if s == "sqlx::Json"@ {
        Some(ScalarKind::Json)
    } else if s == "chrono::DateTime<chrono::Utc>"@ {
        Some(ScalarKind::TimestampTz)
    } else if s == "chrono::NaiveDate"@ {
        Some(ScalarKind::Date)
    } else if s == "f32"@ {
        Some(ScalarKind::Real)
    } else if s == "f64"@ {
        Some(ScalarKind::Double)
    } else if s == "uuid::Uuid"@ {
        Some(ScalarKind::Uuid)
    } else if s == "bool"@ {
        Some(ScalarKind::Boolean)
    } else if s == "Vec<u8>"@ {
        Some(ScalarKind::Bytes)
    } else {
        None
    }
}

pub open spec fn native_name(k: ScalarKind) -> Seq<char> {
    match k {
        ScalarKind::BigInt => "int8"@,
        ScalarKind::Int => "int4"@,
        ScalarKind::SmallInt => "int2"@,
        ScalarKind::Text => "text"@,
        ScalarKind::VarChar => "varchar"@,
        ScalarKind::Json => "jsonb"@,
        ScalarKind::TimestampTz => "timestamptz"@,
        ScalarKind::Date => "date"@,
        ScalarKind::Real => "float4"@,
        ScalarKind::Double => "float8"@,
        ScalarKind::Uuid => "uuid"@,
        ScalarKind::Boolean => "boolean"@,
        ScalarKind::Bytes => "bytea"@,
    }
}

pub open spec fn declared_name(k: ScalarKind) -> Seq<char> {
    match k {
        ScalarKind::BigInt => "i64"@,
        ScalarKind::Int => "i32"@,
        ScalarKind::SmallInt => "i16"@,
        ScalarKind::Text => "String"@,
        ScalarKind::VarChar => "String"@,
        ScalarKind::Json => "sqlx::Json"@,
        ScalarKind::TimestampTz => "chrono::DateTime<chrono::Utc>"@,
        ScalarKind::Date => "chrono::NaiveDate"@,
        ScalarKind::Real => "f32"@,
        ScalarKind::Double => "f64"@,
        ScalarKind::Uuid => "uuid::Uuid"@,
        ScalarKind::Boolean => "bool"@,
        ScalarKind::Bytes => "Vec<u8>"@,
    }
}

/// The declared type for a column type name, if it is supported.
pub open spec fn to_declared(s: Seq<char>) -> Option<Seq<char>> {
    match native_kind(s) {
        Some(k) => Some(declared_name(k)),
        None => None,
    }
}

/// The column type name for a declared type, if it is supported.
pub open spec fn to_native(s: Seq<char>) -> Option<Seq<char>> {
    match declared_kind(s) {
        Some(k) => Some(native_name(k)),
        None => None,
    }
}

pub fn native_kind_of(s: &str) -> (r: Option<ScalarKind>)
    ensures
        r == native_kind(s@),
{
    if same_text(s, "int8") {
        Some(ScalarKind::BigInt)
    } else if same_text(s, "int4") {
        Some(ScalarKind::Int)
    } else if same_text(s, "int2") {
        Some(ScalarKind::SmallInt)
    } else if same_text(s, "text") {
        Some(ScalarKind::Text)
    } else if same_text(s, "varchar") {
        Some(ScalarKind::VarChar)
    } else if same_text(s, "jsonb") {
        Some(ScalarKind::Json)
    } else if same_text(s, "timestamptz") {
        Some(ScalarKind::TimestampTz)
    } else if same_text(s, "date") {
        Some(ScalarKind::Date)
    } else if same_text(s, "float4") {
        Some(ScalarKind::Real)
    } else if same_text(s, "float8") {
        Some(ScalarKind::Double)
    } else if same_text(s, "uuid") {
        Some(ScalarKind::Uuid)
    } else if same_text(s, "boolean") {
        Some(ScalarKind::Boolean)
    } else if same_text(s, "bytea") {
        Some(ScalarKind::Bytes)
    } else {
        None
    }
}

pub fn declared_kind_of(s: &str) -> (r: Option<ScalarKind>)
    ensures
        r == declared_kind(s@),
{
    if same_text(s, "i64") {
        Some(ScalarKind::BigInt)
    } else if same_text(s, "i32") {
        Some(ScalarKind::Int)
    } else if same_text(s, "i16") {
        Some(ScalarKind::SmallInt)
    } else if same_text(s, "String") {
        Some(ScalarKind::Text)
    } else if same_text(s, "sqlx::Json") {
        Some(ScalarKind::Json)
    } else if same_text(s, "chrono::DateTime<chrono::Utc>") {
        Some(ScalarKind::TimestampTz)
    } else if same_text(s, "chrono::NaiveDate") {
        Some(ScalarKind::Date)
    } else if same_text(s, "f32") {
        Some(ScalarKind::Real)
    } else if same_text(s, "f64") {
        Some(ScalarKind::Double)
    } else if same_text(s, "uuid::Uuid") {
        Some(ScalarKind::Uuid)
    } else if same_text(s, "bool") {
        Some(ScalarKind::Boolean)
    } else if same_text(s, "Vec<u8>") {
        Some(ScalarKind::Bytes)
    } else {
        None
    }
}

impl ScalarKind {
    pub fn native_name(&self) -> (r: &'static str)
        ensures
            r@ == native_name(*self),
    {
        match self {
            ScalarKind::BigInt => "int8",
            ScalarKind::Int => "int4",
            ScalarKind::SmallInt => "int2",
            ScalarKind::Text => "text",
            ScalarKind::VarChar => "varchar",
            ScalarKind::Json => "jsonb",
            ScalarKind::TimestampTz => "timestamptz",
            ScalarKind::Date => "date",
            ScalarKind::Real => "float4",
            ScalarKind::Double => "float8",
            ScalarKind::Uuid => "uuid",
            ScalarKind::Boolean => "boolean",
            ScalarKind::Bytes => "bytea",
        }
    }

    pub fn declared_name(&self) -> (r: &'static str)
        ensures
            r@ == declared_name(*self),
    {
        match self {
            ScalarKind::BigInt => "i64",
            ScalarKind::Int => "i32",
            ScalarKind::SmallInt => "i16",
            ScalarKind::Text => "String",
            ScalarKind::VarChar => "String",
            ScalarKind::Json => "sqlx::Json",
            ScalarKind::TimestampTz => "chrono::DateTime<chrono::Utc>",
            ScalarKind::Date => "chrono::NaiveDate",
            ScalarKind::Real => "f32",
            ScalarKind::Double => "f64",
            ScalarKind::Uuid => "uuid::Uuid",
            ScalarKind::Boolean => "bool",
            ScalarKind::Bytes => "Vec<u8>",
        }
    }
}

/// The declared type for a column type name (`int4` gives `i32`).
pub fn convert_data_type(data_type: &str) -> (r: Result<&'static str, SchemaError>)
    ensures
        match r {
            Ok(n) => to_declared(data_type@) == Some(n@),
            Err(e) => to_declared(data_type@) is None && e.is_unsupported(data_type@),
        },
{
    match native_kind_of(data_type) {
        Some(k) => Ok(k.declared_name()),
        None => Err(SchemaError::UnsupportedType(data_type.to_owned())),
    }
}

/// The column type name for a declared type (`i32` gives `int4`, `String`
/// gives `text`).
pub fn convert_data_type_from_pg(data_type: &str) -> (r: Result<&'static str, SchemaError>)
    ensures
        match r {
            Ok(n) => to_native(data_type@) == Some(n@),
            Err(e) => to_native(data_type@) is None && e.is_unsupported(data_type@),
        },
{
    match declared_kind_of(data_type) {
        Some(k) => Ok(k.native_name()),
        None => Err(SchemaError::UnsupportedType(data_type.to_owned())),
    }
}

/// The characters of each type name.
proof fn lemma_type_name_chars()
    ensures
        "int8"@ == seq!['i', 'n', 't', '8'],
        "int4"@ == seq!['i', 'n', 't', '4'],
        "int2"@ == seq!['i', 'n', 't', '2'],
        "text"@ == seq!['t', 'e', 'x', 't'],
        "varchar"@ == seq!['v', 'a', 'r', 'c', 'h', 'a', 'r'],
        "jsonb"@ == seq!['j', 's', 'o', 'n', 'b'],
        "timestamptz"@ == seq!['t', 'i', 'm', 'e', 's', 't', 'a', 'm', 'p', 't', 'z'],
        "date"@ == seq!['d', 'a', 't', 'e'],
        "float4"@ == seq!['f', 'l', 'o', 'a', 't', '4'],
        "float8"@ == seq!['f', 'l', 'o', 'a', 't', '8'],
        "uuid"@ == seq!['u', 'u', 'i', 'd'],
        "boolean"@ == seq!['b', 'o', 'o', 'l', 'e', 'a', 'n'],
        "bytea"@ == seq!['b', 'y', 't', 'e', 'a'],
        "i64"@ == seq!['i', '6', '4'],
        "i32"@ == seq!['i', '3', '2'],
        "i16"@ == seq!['i', '1', '6'],
        "String"@ == seq!['S', 't', 'r', 'i', 'n', 'g'],
        "sqlx::Json"@ == seq!['s', 'q', 'l', 'x', ':', ':', 'J', 's', 'o', 'n'],
        "chrono::DateTime<chrono::Utc>"@ == seq!['c', 'h', 'r', 'o', 'n', 'o', ':', ':', 'D', 'a', 't', 'e', 'T', 'i', 'm', 'e', '<', 'c', 'h', 'r', 'o', 'n', 'o', ':', ':', 'U', 't', 'c', '>'],
        "chrono::NaiveDate"@ == seq!['c', 'h', 'r', 'o', 'n', 'o', ':', ':', 'N', 'a', 'i', 'v', 'e', 'D', 'a', 't', 'e'],
        "f32"@ == seq!['f', '3', '2'],
        "f64"@ == seq!['f', '6', '4'],
        "uuid::Uuid"@ == seq!['u', 'u', 'i', 'd', ':', ':', 'U', 'u', 'i', 'd'],
        "bool"@ == seq!['b', 'o', 'o', 'l'],
        "Vec<u8>"@ == seq!['V', 'e', 'c', '<', 'u', '8', '>'],
{
    reveal_strlit("int8");
    assert("int8"@ =~= seq!['i', 'n', 't', '8']);
    reveal_strlit("int4");
    assert("int4"@ =~= seq!['i', 'n', 't', '4']);
    reveal_strlit("int2");
    assert("int2"@ =~= seq!['i', 'n', 't', '2']);
    reveal_strlit("text");
    assert("text"@ =~= seq!['t', 'e', 'x', 't']);
    reveal_strlit("varchar");
    assert("varchar"@ =~= seq!['v', 'a', 'r', 'c', 'h', 'a', 'r']);
    reveal_strlit("jsonb");
    assert("jsonb"@ =~= seq!['j', 's', 'o', 'n', 'b']);
    reveal_strlit("timestamptz");
    assert("timestamptz"@ =~= seq!['t', 'i', 'm', 'e', 's', 't', 'a', 'm', 'p', 't', 'z']);
    reveal_strlit("date");
    assert("date"@ =~= seq!['d', 'a', 't', 'e']);
    reveal_strlit("float4");
    assert("float4"@ =~= seq!['f', 'l', 'o', 'a', 't', '4']);
    reveal_strlit("float8");
    assert("float8"@ =~= seq!['f', 'l', 'o', 'a', 't', '8']);
    reveal_strlit("uuid");
    assert("uuid"@ =~= seq!['u', 'u', 'i', 'd']);
    reveal_strlit("boolean");
    assert("boolean"@ =~= seq!['b', 'o', 'o', 'l', 'e', 'a', 'n']);
    reveal_strlit("bytea");
    assert("bytea"@ =~= seq!['b', 'y', 't', 'e', 'a']);
    reveal_strlit("i64");
    assert("i64"@ =~= seq!['i', '6', '4']);
    reveal_strlit("i32");
    assert("i32"@ =~= seq!['i', '3', '2']);
    reveal_strlit("i16");
    assert("i16"@ =~= seq!['i', '1', '6']);
    reveal_strlit("String");
    assert("String"@ =~= seq!['S', 't', 'r', 'i', 'n', 'g']);
    reveal_strlit("sqlx::Json");
    assert("sqlx::Json"@ =~= seq!['s', 'q', 'l', 'x', ':', ':', 'J', 's', 'o', 'n']);
    reveal_strlit("chrono::DateTime<chrono::Utc>");
    assert("chrono::DateTime<chrono::Utc>"@ =~= seq!['c', 'h', 'r', 'o', 'n', 'o', ':', ':', 'D', 'a', 't', 'e', 'T', 'i', 'm', 'e', '<', 'c', 'h', 'r', 'o', 'n', 'o', ':', ':', 'U', 't', 'c', '>']);
    reveal_strlit("chrono::NaiveDate");
    assert("chrono::NaiveDate"@ =~= seq!['c', 'h', 'r', 'o', 'n', 'o', ':', ':', 'N', 'a', 'i', 'v', 'e', 'D', 'a', 't', 'e']);
    reveal_strlit("f32");
    assert("f32"@ =~= seq!['f', '3', '2']);
    reveal_strlit("f64");
    assert("f64"@ =~= seq!['f', '6', '4']);
    reveal_strlit("uuid::Uuid");
    assert("uuid::Uuid"@ =~= seq!['u', 'u', 'i', 'd', ':', ':', 'U', 'u', 'i', 'd']);
    reveal_strlit("bool");
    assert("bool"@ =~= seq!['b', 'o', 'o', 'l']);
    reveal_strlit("Vec<u8>");
    assert("Vec<u8>"@ =~= seq!['V', 'e', 'c', '<', 'u', '8', '>']);
}

/// Each kind's column type name reads back as that kind, and so does its
/// declared name, but for `varchar`, whose declared name reads back as `text`.
pub proof fn lemma_kind_names_read_back()
    ensures
        forall|k: ScalarKind| #[trigger] native_kind(native_name(k)) == Some(k),
        forall|k: ScalarKind|
            #[trigger] declared_kind(declared_name(k)) == Some(
                if k == ScalarKind::VarChar {
                    ScalarKind::Text
                } else {
                    k
                },
            ),
{
    lemma_type_name_chars();
}

/// Each declared type name is a single non-blank word without line breaks
/// that does not start with `O`.
pub proof fn lemma_declared_name_shape(k: ScalarKind)
    ensures
        declared_name(k).len() > 0,
        !crate::text::is_space(declared_name(k)[0]),
        !crate::text::is_space(declared_name(k).last()),
        declared_name(k)[0] != 'O',
        forall|j: int| 0 <= j < declared_name(k).len() ==> declared_name(k)[j] != '\n',
{
    lemma_type_name_chars();
}

/// Mapping a supported column type to its declared type, back to a column
/// type, and forward again gives the same declared type: the forward mapping
/// is stable although the backward mapping is lossy.
pub proof fn lemma_declared_type_stable(t: Seq<char>)
    requires
        to_declared(t) is Some,
    ensures
        to_native(to_declared(t)->0) is Some,
        to_declared(to_native(to_declared(t)->0)->0) == to_declared(t),
{
    lemma_kind_names_read_back();
}

} // verus!
