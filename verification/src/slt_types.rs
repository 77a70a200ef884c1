//! The column types that sqllogictest expects of a result schema.

use vstd::prelude::*;
use sqllogictest::{ColumnType, DefaultColumnType};
use crate::batch::ColumnSchema;
use crate::scalar::DataTypeId;

verus! {

#[verifier::external_type_specification]
#[verifier::external_body]
pub struct ExDefaultColumnType(DefaultColumnType);

/// What sqllogictest's `DefaultColumnType::from_char` returns for a type
/// character.
pub uninterp spec fn column_type_from_char(c: char) -> Option<DefaultColumnType>;

/// Calls sqllogictest's `ColumnType::from_char` for `DefaultColumnType`.
/// Its contract, taken on trust: the result depends on `c` alone (it is the
/// named result above) and is always `Some`; the source maps `T`, `I` and
/// `R` to text, integer and floating point, and every other character to
/// `Any`, so that those four results differ from one another and every
/// character other than `T`, `I` and `R` gives the result of `?`. Which
/// variant each one is stays unsaid, since the outside type is opaque here.
#[verifier::external_body]
fn default_column_type_from_char(c: char) -> (r: Option<DefaultColumnType>)
    ensures
        r == column_type_from_char(c),
        r is Some,
        c != 'T' && c != 'I' && c != 'R' ==> r == column_type_from_char('?'),
        c == 'T' ==> r != column_type_from_char('I') && r != column_type_from_char('R') && r != column_type_from_char('?'),
        c == 'I' ==> r != column_type_from_char('T') && r != column_type_from_char('R') && r != column_type_from_char('?'),
        c == 'R' ==> r != column_type_from_char('T') && r != column_type_from_char('I') && r != column_type_from_char('?'),
{
    <DefaultColumnType as ColumnType>::from_char(c)
}

/// The sqllogictest type character for values of a data type: `I` for the
/// integer types, `R` for floating point, `T` for strings and booleans, and
/// `?` for everything else.
pub open spec fn slt_type_char(id: DataTypeId) -> char {
    match id {
        DataTypeId::Int8 | DataTypeId::Int16 | DataTypeId::Int32 | DataTypeId::Int64
        | DataTypeId::UInt8 | DataTypeId::UInt16 | DataTypeId::UInt32 | DataTypeId::UInt64 => 'I',
        DataTypeId::Float32 | DataTypeId::Float64 => 'R',
        DataTypeId::Utf8 | DataTypeId::Boolean => 'T',
        _ => '?',
    }
}

/// The type characters of sqllogictest by data type: every signed and
/// unsigned integer type is an integer column (`I`), both floating point
/// types are floating point columns (`R`), and strings and booleans are
/// text columns (`T`).
pub proof fn lemma_type_chars_by_data_type(id: DataTypeId)
    ensures
        id is Int8 || id is Int16 || id is Int32 || id is Int64 || id is UInt8 || id is UInt16
            || id is UInt32 || id is UInt64 ==> slt_type_char(id) == 'I',
        id is Float32 || id is Float64 ==> slt_type_char(id) == 'R',
        id is Utf8 || id is Boolean ==> slt_type_char(id) == 'T',
{
}

/// The sqllogictest type character for values of a data type; see
/// [`slt_type_char`].
pub fn slt_type_code(id: DataTypeId) -> (r: char)
    ensures
        r == slt_type_char(id),
{
    match id {
        DataTypeId::Int8 | DataTypeId::Int16 | DataTypeId::Int32 | DataTypeId::Int64
        | DataTypeId::UInt8 | DataTypeId::UInt16 | DataTypeId::UInt32 | DataTypeId::UInt64 => 'I',
        DataTypeId::Float32 | DataTypeId::Float64 => 'R',
        DataTypeId::Utf8 | DataTypeId::Boolean => 'T',
        _ => '?',
    }
}

/// The sqllogictest column type of each field of `schema`, in order.
pub fn schema_to_types(schema: &ColumnSchema) -> (r: Vec<DefaultColumnType>)
    ensures
        r@.len() == schema.fields@.len(),
        forall|i: int| 0 <= i < r@.len() ==> Some(#[trigger] r@[i]) == column_type_from_char(
            slt_type_char(schema.fields@[i].datatype.id),
        ),
        forall|i: int| 0 <= i < r@.len() ==> {
            let id = schema.fields@[i].datatype.id;
            &&& (id is Int8 || id is Int16 || id is Int32 || id is Int64 || id is UInt8 || id is UInt16
                || id is UInt32 || id is UInt64) ==> Some(#[trigger] r@[i]) == column_type_from_char('I')
            &&& (id is Float32 || id is Float64) ==> Some(r@[i]) == column_type_from_char('R')
            &&& (id is Utf8 || id is Boolean) ==> Some(r@[i]) == column_type_from_char('T')
        },
{
    let mut typs: Vec<DefaultColumnType> = Vec::new();
    let mut i: usize = 0;
    while i < schema.fields.len()
        invariant
            i <= schema.fields@.len(),
            typs@.len() == i,
            forall|k: int| 0 <= k < i ==> Some(#[trigger] typs@[k]) == column_type_from_char(
                slt_type_char(schema.fields@[k].datatype.id),
            ),
        decreases schema.fields@.len() - i,
    {
        let code = slt_type_code(schema.fields[i].datatype.id());
        let typ = default_column_type_from_char(code).unwrap();
        typs.push(typ);
        i = i + 1;
    }
    typs
}

} // verus!
