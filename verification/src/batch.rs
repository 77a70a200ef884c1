//! Columns of values, batches of columns, and schemas.

use vstd::prelude::*;
use crate::scalar::{DataType, DataTypeId, ScalarValue, SpecScalar};

verus! {

/// The models of a sequence of values.
pub open spec fn scalars_view(v: Seq<ScalarValue>) -> Seq<SpecScalar> {
    v.map_values(|x: ScalarValue| x@)
}

/// A column of values of one data type.
#[derive(Debug, PartialEq)]
pub struct Array {
    pub datatype: DataType,
    pub values: Vec<ScalarValue>,
}

impl Array {
    /// The models of the values, in order.
    pub open spec fn values_view(&self) -> Seq<SpecScalar> {
        scalars_view(self.values@)
    }

    /// The number of values.
    pub fn len(&self) -> (r: usize)
        ensures
            r == self.values@.len(),
    {
        self.values.len()
    }

    /// An array of the given type and values.
    pub fn new(datatype: DataType, values: Vec<ScalarValue>) -> (r: Array)
        ensures
            r.datatype == datatype,
            r.values@ == values@,
    {
        Array { datatype, values }
    }

    /// An `Int32` array holding `values`.
    pub fn from_i32s(values: &[i32]) -> (r: Array)
        ensures
            r.datatype.id == DataTypeId::Int32,
            r.values_view() == values@.map_values(|x: i32| SpecScalar::Int32(x)),
    {
        let mut out: Vec<ScalarValue> = Vec::new();
        let mut i: usize = 0;
        while i < values.len()
            invariant
                i <= values@.len(),
                out@.len() == i,
                forall|k: int| 0 <= k < i ==> #[trigger] out@[k]@ == SpecScalar::Int32(values@[k]),
            decreases values@.len() - i,
        {
            out.push(ScalarValue::Int32(values[i]));
            i = i + 1;
        }
        assert(scalars_view(out@) =~= values@.map_values(|x: i32| SpecScalar::Int32(x)));
        Array { datatype: DataType::int32(), values: out }
    }

    /// A `Utf8` array holding `values`.
    pub fn from_strs(values: &[&str]) -> (r: Array)
        ensures
            r.datatype.id == DataTypeId::Utf8,
            r.values_view() == values@.map_values(|x: &str| SpecScalar::Utf8(x@)),
    {
        let mut out: Vec<ScalarValue> = Vec::new();
        let mut i: usize = 0;
        while i < values.len()
            invariant
                i <= values@.len(),
                out@.len() == i,
                forall|k: int| 0 <= k < i ==> #[trigger] out@[k]@ == SpecScalar::Utf8(values@[k]@),
            decreases values@.len() - i,
        {
            out.push(ScalarValue::from_str(values[i]));
            i = i + 1;
        }
        assert(scalars_view(out@) =~= values@.map_values(|x: &str| SpecScalar::Utf8(x@)));
        Array { datatype: DataType::utf8(), values: out }
    }
}

/// Why a batch could not be built.
#[derive(Clone, Copy, Debug, PartialEq, Eq, Structural)]
pub enum BatchError {
    /// The arrays do not all have the same length.
    LengthMismatch,
}

/// The model of a batch: its row count and the values of each column.
pub struct SpecBatch {
    pub num_rows: nat,
    pub datatypes: Seq<DataType>,
    pub columns: Seq<Seq<SpecScalar>>,
}

/// Arrays of equal length, read as rows.
#[derive(Debug)]
pub struct Batch {
    arrays: Vec<Array>,
    num_rows: usize,
}

impl View for Batch {
    type V = SpecBatch;

    closed spec fn view(&self) -> SpecBatch {
        SpecBatch {
            num_rows: self.num_rows as nat,
            datatypes: self.arrays@.map_values(|a: Array| a.datatype),
            columns: self.arrays@.map_values(|a: Array| a.values_view()),
        }
    }
}

impl Batch {
    #[verifier::type_invariant]
    spec fn inv(self) -> bool {
        forall|j: int| 0 <= j < self.arrays@.len() ==> #[trigger] self.arrays@[j].values@.len() == self.num_rows
    }

    /// A batch of the given arrays, which must all have the same length; the
    /// batch has that many rows (none when there are no arrays).
    pub fn from_arrays(arrays: Vec<Array>) -> (r: Result<Batch, BatchError>)
        ensures
            match r {
                Ok(b) => {
                    &&& b@.columns == arrays@.map_values(|a: Array| a.values_view())
                    &&& b@.datatypes == arrays@.map_values(|a: Array| a.datatype)
                    &&& b@.num_rows == if arrays@.len() == 0 { 0 } else { arrays@[0].values@.len() }
                    &&& forall|j: int| 0 <= j < arrays@.len() ==> #[trigger] arrays@[j].values@.len() == b@.num_rows
                },
                Err(e) => e == BatchError::LengthMismatch && exists|j: int|
                    0 <= j < arrays@.len() && #[trigger] arrays@[j].values@.len() != arrays@[0].values@.len(),
            },
    {
        let num_rows = if arrays.len() == 0 { 0 } else { arrays[0].len() };
        let mut j: usize = 0;
        while j < arrays.len()
            invariant
                j <= arrays@.len(),
                arrays@.len() > 0 ==> num_rows == arrays@[0].values@.len(),
                forall|k: int| 0 <= k < j ==> #[trigger] arrays@[k].values@.len() == num_rows,
            decreases arrays@.len() - j,
        {
            if arrays[j].len() != num_rows {
                return Err(BatchError::LengthMismatch);
            }
            j = j + 1;
        }
        Ok(Batch { arrays, num_rows })
    }

    /// The number of rows.
    pub fn num_rows(&self) -> (r: usize)
        ensures
            r == self@.num_rows,
    {
        self.num_rows
    }

    /// The arrays, one per column, each with one value per row.
    pub fn arrays(&self) -> (r: &Vec<Array>)
        ensures
            r@.len() == self@.columns.len(),
            forall|j: int| 0 <= j < r@.len() ==> #[trigger] r@[j].values_view() == self@.columns[j],
            forall|j: int| 0 <= j < r@.len() ==> #[trigger] r@[j].datatype == self@.datatypes[j],
            self@.datatypes.len() == self@.columns.len(),
            forall|j: int| 0 <= j < r@.len() ==> #[trigger] r@[j].values@.len() == self@.num_rows,
    {
        proof {
            use_type_invariant(self);
        }
        &self.arrays
    }
}

/// A named, typed column of a schema.
#[derive(Debug)]
pub struct Field {
    pub name: String,
    pub datatype: DataType,
    pub nullable: bool,
}

/// The columns of a result.
#[derive(Debug)]
pub struct ColumnSchema {
    pub fields: Vec<Field>,
}

} // verus!
