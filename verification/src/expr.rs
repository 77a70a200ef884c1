//! Logical expressions.

use vstd::prelude::*;
use crate::scalar::{ScalarValue, SpecScalar};

verus! {

/// Reference to a table in the bind context.
#[derive(Clone, Copy, Debug, PartialEq, Eq, Structural)]
pub struct TableRef {
    pub table_idx: usize,
}

/// A column of a table.
#[derive(Clone, Copy, Debug, PartialEq, Eq, Structural)]
pub struct ColumnReference {
    pub table_scope: TableRef,
    pub column: usize,
}

/// Binary comparison operators.
#[derive(Clone, Copy, Debug, PartialEq, Eq, Structural)]
pub enum ComparisonOperator {
    Eq,
    NotEq,
    Lt,
    LtEq,
    Gt,
    GtEq,
}

/// The scalar functions that expressions can call: LIKE and the string
/// tests that can stand in for it. Each of them yields a boolean (or NULL).
#[derive(Clone, Copy, Debug, PartialEq, Eq, Structural)]
pub enum ScalarFunctionKind {
    Like,
    StartsWith,
    EndsWith,
    Contains,
}

/// A comparison of two expressions.
#[derive(Debug, PartialEq, Eq)]
pub struct ComparisonExpr {
    pub left: Box<Expression>,
    pub right: Box<Expression>,
    pub op: ComparisonOperator,
}

/// A call of a scalar function.
#[derive(Debug, PartialEq, Eq)]
pub struct ScalarFunctionExpr {
    pub function: ScalarFunctionKind,
    pub inputs: Vec<Expression>,
}

/// An expression tree.
#[derive(Debug, PartialEq, Eq)]
pub enum Expression {
    Column(ColumnReference),
    Literal(ScalarValue),
    Comparison(ComparisonExpr),
    ScalarFunction(ScalarFunctionExpr),
}

/// The mathematical model of an [`Expression`].
pub enum SpecExpr {
    Column(ColumnReference),
    Literal(SpecScalar),
    Comparison(Box<SpecExpr>, Box<SpecExpr>, ComparisonOperator),
    Function(ScalarFunctionKind, Seq<SpecExpr>),
}

/// The model of an expression.
pub open spec fn view_expr(e: Expression) -> SpecExpr
    decreases e,
{
    match e {
        Expression::Column(c) => SpecExpr::Column(c),
        Expression::Literal(v) => SpecExpr::Literal(v@),
        Expression::Comparison(c) => SpecExpr::Comparison(
            Box::new(view_expr(*c.left)),
            Box::new(view_expr(*c.right)),
            c.op,
        ),
        Expression::ScalarFunction(f) => SpecExpr::Function(f.function, view_exprs(f.inputs@)),
    }
}

/// The models of a sequence of expressions, element by element.
pub open spec fn view_exprs(s: Seq<Expression>) -> Seq<SpecExpr>
    decreases s,
{
    if s.len() == 0 {
        Seq::empty()
    } else {
        view_exprs(s.drop_last()).push(view_expr(s.last()))
    }
}

impl View for Expression {
    type V = SpecExpr;

    open spec fn view(&self) -> SpecExpr {
        view_expr(*self)
    }
}

/// `view_exprs` maps each element by `view_expr`.
pub proof fn lemma_view_exprs(s: Seq<Expression>)
    ensures
        view_exprs(s).len() == s.len(),
        forall|i: int| 0 <= i < s.len() ==> #[trigger] view_exprs(s)[i] == view_expr(s[i]),
    decreases s.len(),
{
    if s.len() > 0 {
        lemma_view_exprs(s.drop_last());
    }
}

/// Sequences of expressions with equal element models have equal models.
pub proof fn lemma_view_exprs_ext(a: Seq<Expression>, b: Seq<SpecExpr>)
    requires
        a.len() == b.len(),
        forall|i: int| 0 <= i < a.len() ==> view_expr(#[trigger] a[i]) == b[i],
    ensures
        view_exprs(a) == b,
{
    lemma_view_exprs(a);
    assert(view_exprs(a) =~= b);
}

/// The expression reads no column, so that it folds to a constant.
pub open spec fn reads_no_column(e: SpecExpr) -> bool
    decreases e,
{
    match e {
        SpecExpr::Column(_) => false,
        SpecExpr::Literal(_) => true,
        SpecExpr::Comparison(l, r, _) => reads_no_column(*l) && reads_no_column(*r),
        SpecExpr::Function(_, args) => all_read_no_column(args),
    }
}

/// [`reads_no_column`] of every element.
pub open spec fn all_read_no_column(s: Seq<SpecExpr>) -> bool
    decreases s,
{
    if s.len() == 0 {
        true
    } else {
        all_read_no_column(s.drop_last()) && reads_no_column(s.last())
    }
}

proof fn lemma_all_read_no_column(s: Seq<SpecExpr>)
    ensures
        all_read_no_column(s) <==> forall|k: int| 0 <= k < s.len() ==> reads_no_column(#[trigger] s[k]),
    decreases s.len(),
{
    if s.len() > 0 {
        lemma_all_read_no_column(s.drop_last());
        assert forall|k: int| 0 <= k < s.len() - 1 implies s.drop_last()[k] == s[k] by {}
    }
}

impl Expression {
    /// Whether the expression reads no column, so that it can be folded to a
    /// constant; see [`reads_no_column`].
    pub fn is_const_foldable(&self) -> (r: bool)
        ensures
            r == reads_no_column(self@),
        decreases self,
    {
        match self {
            Expression::Column(_) => false,
            Expression::Literal(_) => true,
            Expression::Comparison(c) => (*c.left).is_const_foldable() && (*c.right).is_const_foldable(),
            Expression::ScalarFunction(f) => all_const_foldable(&f.inputs),
        }
    }

    /// A deep copy of this expression.
    pub fn duplicate(&self) -> (r: Expression)
        ensures
            r@ == self@,
        decreases self,
    {
        match self {
            Expression::Column(c) => Expression::Column(*c),
            Expression::Literal(v) => Expression::Literal(v.duplicate()),
            Expression::Comparison(c) => {
                let left = (*c.left).duplicate();
                let right = (*c.right).duplicate();
                Expression::Comparison(ComparisonExpr { left: Box::new(left), right: Box::new(right), op: c.op })
            },
            Expression::ScalarFunction(f) => {
                let inputs = duplicate_all(&f.inputs);
                Expression::ScalarFunction(ScalarFunctionExpr { function: f.function, inputs })
            },
        }
    }
}

/// Whether every expression reads no column.
pub fn all_const_foldable(v: &Vec<Expression>) -> (r: bool)
    ensures
        r == all_read_no_column(view_exprs(v@)),
    decreases v,
{
    proof {
        lemma_view_exprs(v@);
        lemma_all_read_no_column(view_exprs(v@));
    }
    let mut i: usize = 0;
    while i < v.len()
        invariant
            i <= v@.len(),
            view_exprs(v@).len() == v@.len(),
            forall|k: int| 0 <= k < v@.len() ==> #[trigger] view_exprs(v@)[k] == view_expr(v@[k]),
            all_read_no_column(view_exprs(v@)) <==> forall|k: int| 0 <= k < v@.len() ==> reads_no_column(#[trigger] view_exprs(v@)[k]),
            forall|k: int| 0 <= k < i ==> reads_no_column(#[trigger] view_exprs(v@)[k]),
        decreases v@.len() - i,
    {
        proof {
            assert(decreases_to!(v => v@));
            assert(decreases_to!(v@ => v@[i as int]));
        }
        if !v[i].is_const_foldable() {
            assert(!reads_no_column(view_exprs(v@)[i as int]));
            return false;
        }
        i = i + 1;
    }
    true
}

/// A deep copy of each expression.
pub fn duplicate_all(v: &Vec<Expression>) -> (r: Vec<Expression>)
    ensures
        view_exprs(r@) == view_exprs(v@),
    decreases v,
{
    let mut out: Vec<Expression> = Vec::new();
    let mut i: usize = 0;
    while i < v.len()
        invariant
            i <= v@.len(),
            out@.len() == i,
            forall|k: int| 0 <= k < i ==> view_expr(#[trigger] out@[k]) == view_expr(v@[k]),
        decreases v@.len() - i,
    {
        proof {
            assert(decreases_to!(v => v@));
            assert(decreases_to!(v@ => v@[i as int]));
        }
        out.push(v[i].duplicate());
        i = i + 1;
    }
    proof {
        lemma_view_exprs(v@);
        lemma_view_exprs_ext(out@, view_exprs(v@));
    }
    out
}

} // verus!
