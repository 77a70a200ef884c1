//! Data types and single values.

use vstd::prelude::*;

verus! {

/// The kind of a data type.
#[derive(Clone, Copy, Debug, PartialEq, Eq, Structural)]
pub enum DataTypeId {
    Any,
    Null,
    Boolean,
    Int8,
    Int16,
    Int32,
    Int64,
    Int128,
    UInt8,
    UInt16,
    UInt32,
    UInt64,
    UInt128,
    Float16,
    Float32,
    Float64,
    Decimal64,
    Decimal128,
    Timestamp,
    Date32,
    Date64,
    Interval,
    Utf8,
    Binary,
    Struct,
    List,
    Table,
}

/// A data type, identified by its kind.
#[derive(Clone, Copy, Debug, PartialEq, Eq, Structural)]
pub struct DataType {
    pub id: DataTypeId,
}

impl DataType {
    /// The kind of this data type.
    pub fn id(&self) -> (r: DataTypeId)
        ensures
            r == self.id,
    {
        self.id
    }

    /// The data type of the given kind.
    pub fn new(id: DataTypeId) -> (r: DataType)
        ensures
            r.id == id,
    {
        DataType { id }
    }

    /// 32-bit signed integers.
    pub fn int32() -> (r: DataType)
        ensures
            r.id == DataTypeId::Int32,
    {
        DataType { id: DataTypeId::Int32 }
    }

    /// 64-bit signed integers.
    pub fn int64() -> (r: DataType)
        ensures
            r.id == DataTypeId::Int64,
    {
        DataType { id: DataTypeId::Int64 }
    }

    /// UTF-8 strings.
    pub fn utf8() -> (r: DataType)
        ensures
            r.id == DataTypeId::Utf8,
    {
        DataType { id: DataTypeId::Utf8 }
    }

    /// Booleans.
    pub fn boolean() -> (r: DataType)
        ensures
            r.id == DataTypeId::Boolean,
    {
        DataType { id: DataTypeId::Boolean }
    }
}

/// A single value.
#[derive(Debug, Clone, PartialEq, Eq)]
pub enum ScalarValue {
    Null,
    Boolean(bool),
    Int32(i32),
    Int64(i64),
    Utf8(String),
}

/// The mathematical model of a [`ScalarValue`]: strings by their characters.
pub enum SpecScalar {
    Null,
    Boolean(bool),
    Int32(i32),
    Int64(i64),
    Utf8(Seq<char>),
}

impl View for ScalarValue {
    type V = SpecScalar;

    open spec fn view(&self) -> SpecScalar {
        match self {
            ScalarValue::Null => SpecScalar::Null,
            ScalarValue::Boolean(b) => SpecScalar::Boolean(*b),
            ScalarValue::Int32(v) => SpecScalar::Int32(*v),
            ScalarValue::Int64(v) => SpecScalar::Int64(*v),
            ScalarValue::Utf8(s) => SpecScalar::Utf8(s@),
        }
    }
}

impl ScalarValue {
    /// A copy of this value.
    pub fn duplicate(&self) -> (r: ScalarValue)
        ensures
            r@ == self@,
    {
        match self {
            ScalarValue::Null => ScalarValue::Null,
            ScalarValue::Boolean(b) => ScalarValue::Boolean(*b),
            ScalarValue::Int32(v) => ScalarValue::Int32(*v),
            ScalarValue::Int64(v) => ScalarValue::Int64(*v),
            ScalarValue::Utf8(s) => ScalarValue::Utf8(s.clone()),
        }
    }

    /// A string value holding the characters of `s`.
    pub fn from_str(s: &str) -> (r: ScalarValue)
        ensures
            r@ == SpecScalar::Utf8(s@),
    {
        ScalarValue::Utf8(String::from_str(s))
    }
}

} // verus!
