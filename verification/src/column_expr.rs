//! The physical expression that reads one column of its input.

use vstd::prelude::*;
use crate::batch::{Array, Batch, scalars_view};
use crate::format::{decimal_digits, decimal_string};
use crate::scalar::{DataType, ScalarValue, SpecScalar};

verus! {

/// Which rows of a batch to take, in order.
pub enum Selection<'a> {
    /// The rows `start`, `start + 1`, ..., `start + len - 1`.
    Linear { start: usize, len: usize },
    /// The listed rows.
    Slice(&'a [usize]),
}

impl<'a> Selection<'a> {
    /// The rows that this selection takes, in order.
    pub open spec fn indices(&self) -> Seq<int> {
        match self {
            Selection::Linear { start, len } => Seq::new(*len as nat, |i: int| *start + i),
            Selection::Slice(s) => s@.map_values(|i: usize| i as int),
        }
    }

    /// The rows `start .. start + len`.
    pub fn linear(start: usize, len: usize) -> (r: Selection<'a>)
        ensures
            r == (Selection::Linear { start, len }),
    {
        Selection::Linear { start, len }
    }

    /// The listed rows.
    pub fn slice(indices: &'a [usize]) -> (r: Selection<'a>)
        ensures
            r == Selection::Slice(indices),
    {
        Selection::Slice(indices)
    }

    /// Whether the selection is a contiguous run.
    pub fn is_linear(&self) -> (r: bool)
        ensures
            r == self is Linear,
    {
        match self {
            Selection::Linear { .. } => true,
            Selection::Slice(_) => false,
        }
    }

    /// The number of rows taken.
    pub fn len(&self) -> (r: usize)
        ensures
            r == self.indices().len(),
    {
        match self {
            Selection::Linear { len, .. } => *len,
            Selection::Slice(s) => s.len(),
        }
    }

    /// The `i`-th row taken.
    pub fn get(&self, i: usize) -> (r: usize)
        requires
            i < self.indices().len(),
            self.indices()[i as int] <= usize::MAX,
        ensures
            r == self.indices()[i as int],
    {
        match self {
            Selection::Linear { start, .. } => *start + i,
            Selection::Slice(s) => s[i],
        }
    }
}

/// Per-evaluation state of an expression; a column read needs none.
#[derive(Debug)]
pub struct ExpressionState {}

impl ExpressionState {
    /// The state of an expression that keeps nothing between evaluations.
    pub fn empty() -> (r: ExpressionState) {
        ExpressionState {}
    }
}

/// Reads the column at `idx` of the input batch.
#[derive(Debug, Clone, Copy)]
pub struct PhysicalColumnExpr {
    pub idx: usize,
    pub datatype: DataType,
}

/// Whether `sel` takes every row of a batch of `num_rows` rows without
/// reordering, so that a column read can hand the column over as it is.
pub open spec fn takes_whole_column(sel: Selection, num_rows: nat) -> bool {
    sel is Linear && sel.indices().len() == num_rows
}

/// What a column read of `col` yields under `sel`: the column itself when
/// the selection is linear and as long as the batch, else the selected rows
/// in order.
pub open spec fn selected_values(col: Seq<SpecScalar>, sel: Selection, num_rows: nat) -> Seq<SpecScalar> {
    if takes_whole_column(sel, num_rows) {
        col
    } else {
        sel.indices().map_values(|i: int| col[i])
    }
}

/// A column read takes exactly the selected rows: on a column of a batch of
/// `num_rows` rows and a selection whose rows all lie in the batch, the
/// values read are the column's values at the selected rows, in the order
/// of the selection, whichever form the selection has.
pub proof fn lemma_column_read_takes_selected_rows(col: Seq<SpecScalar>, sel: Selection, num_rows: nat)
    requires
        col.len() == num_rows,
        forall|i: int| 0 <= i < sel.indices().len() ==> 0 <= #[trigger] sel.indices()[i] < num_rows,
    ensures
        selected_values(col, sel, num_rows).len() == sel.indices().len(),
        forall|i: int| 0 <= i < sel.indices().len() ==>
            #[trigger] selected_values(col, sel, num_rows)[i] == col[sel.indices()[i]],
{
    if takes_whole_column(sel, num_rows) {
        match sel {
            Selection::Linear { start, len } => {
                if num_rows > 0 {
                    assert(sel.indices()[num_rows - 1] == start + num_rows - 1);
                }
                assert forall|i: int| 0 <= i < sel.indices().len() implies
                    #[trigger] selected_values(col, sel, num_rows)[i] == col[sel.indices()[i]] by {
                    assert(sel.indices()[i] == start + i);
                }
            },
            Selection::Slice(_) => {},
        }
    }
}

impl PhysicalColumnExpr {
    /// The expression that reads column `idx`, of type `datatype`.
    pub fn new(idx: usize, datatype: DataType) -> (r: PhysicalColumnExpr)
        ensures
            r.idx == idx,
            r.datatype == datatype,
    {
        PhysicalColumnExpr { idx, datatype }
    }

    /// The state for evaluating this expression on batches of up to
    /// `_batch_size` rows.
    pub fn create_state(&self, _batch_size: usize) -> (r: ExpressionState) {
        ExpressionState::empty()
    }

    /// The data type of the values this expression yields.
    pub fn datatype(&self) -> (r: DataType)
        ensures
            r == self.datatype,
    {
        self.datatype
    }

    /// Writes into `output` the values of column `idx` of `input` at the
    /// rows `sel` takes; see [`selected_values`].
    pub fn eval(&self, input: &Batch, _state: &mut ExpressionState, sel: Selection, output: &mut Array)
        requires
            self.idx < input@.columns.len(),
            !takes_whole_column(sel, input@.num_rows) ==> forall|i: int|
                0 <= i < sel.indices().len() ==> 0 <= #[trigger] sel.indices()[i] < input@.num_rows,
        ensures
            final(output).datatype == input@.datatypes[self.idx as int],
            final(output).values_view() == selected_values(input@.columns[self.idx as int], sel, input@.num_rows),
    {
        let arrays = input.arrays();
        let col = &arrays[self.idx];
        let whole = sel.is_linear() && sel.len() == input.num_rows();
        let mut values: Vec<ScalarValue> = Vec::new();
        if whole {
            let mut i: usize = 0;
            while i < col.values.len()
                invariant
                    i <= col.values@.len(),
                    values@.len() == i,
                    forall|k: int| 0 <= k < i ==> #[trigger] values@[k]@ == col.values@[k]@,
                decreases col.values@.len() - i,
            {
                values.push(col.values[i].duplicate());
                i = i + 1;
            }
            assert(scalars_view(values@) =~= col.values_view());
        } else {
            let n = sel.len();
            assert(col.values@.len() == col.values.len());
            let mut i: usize = 0;
            while i < n
                invariant
                    n == sel.indices().len(),
                    col.values@.len() == input@.num_rows,
                    input@.num_rows <= usize::MAX,
                    forall|k: int| 0 <= k < n ==> 0 <= #[trigger] sel.indices()[k] < input@.num_rows,
                    i <= n,
                    values@.len() == i,
                    forall|k: int| 0 <= k < i ==> #[trigger] values@[k]@ == col.values@[sel.indices()[k]]@,
                decreases n - i,
            {
                let row = sel.get(i);
                values.push(col.values[row].duplicate());
                i = i + 1;
            }
            assert(scalars_view(values@) =~= sel.indices().map_values(|i: int| col.values_view()[i]));
        }
        *output = Array { datatype: col.datatype, values };
    }

    /// The text of this expression: `@` followed by the column index.
    pub fn to_display_string(&self) -> (r: String)
        ensures
            r@ == seq!['@'] + decimal_digits(self.idx as nat),
    {
        let mut s = String::from_str("@");
        proof {
            reveal_strlit("@");
        }
        s.append(decimal_string(self.idx as u64).as_str());
        s
    }
}

impl From<(usize, DataType)> for PhysicalColumnExpr {
    fn from(v: (usize, DataType)) -> (r: PhysicalColumnExpr) {
        PhysicalColumnExpr::new(v.0, v.1)
    }
}

impl vstd::std_specs::convert::FromSpecImpl<(usize, DataType)> for PhysicalColumnExpr {
    open spec fn obeys_from_spec() -> bool {
        true
    }

    open spec fn from_spec(v: (usize, DataType)) -> PhysicalColumnExpr {
        PhysicalColumnExpr { idx: v.0, datatype: v.1 }
    }
}

} // verus!
