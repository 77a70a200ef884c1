//! What an expression evaluates to on a row of input.

use vstd::prelude::*;
use crate::expr::{ColumnReference, ComparisonOperator, ScalarFunctionKind, SpecExpr};
use crate::like::StringTest;
use crate::like_laws::{like_matches, string_test_holds};
use crate::scalar::SpecScalar;

verus! {

/// `a` comes before `b` when their characters are compared one by one by
/// code point, a proper prefix coming first.
pub open spec fn text_lt(a: Seq<char>, b: Seq<char>) -> bool
    decreases a.len(),
{
    if a.len() == 0 {
        b.len() > 0
    } else if b.len() == 0 {
        false
    } else if a[0] != b[0] {
        (a[0] as int) < (b[0] as int)
    } else {
        text_lt(a.drop_first(), b.drop_first())
    }
}

/// Whether `a < b`, for two values of one type that are not NULL; `None` for
/// values of different types, which cannot be compared.
pub open spec fn value_lt(a: SpecScalar, b: SpecScalar) -> Option<bool> {
    match (a, b) {
        (SpecScalar::Boolean(x), SpecScalar::Boolean(y)) => Some(!x && y),
        (SpecScalar::Int32(x), SpecScalar::Int32(y)) => Some(x < y),
        (SpecScalar::Int64(x), SpecScalar::Int64(y)) => Some(x < y),
        (SpecScalar::Utf8(x), SpecScalar::Utf8(y)) => Some(text_lt(x, y)),
        _ => None,
    }
}

/// The value of comparison `op` between `a` and `b`: NULL when either side
/// is NULL, a boolean for two values of one type, `None` (a type error)
/// otherwise.
pub open spec fn compare_values(op: ComparisonOperator, a: SpecScalar, b: SpecScalar) -> Option<SpecScalar> {
    if a is Null || b is Null {
        Some(SpecScalar::Null)
    } else {
        match (value_lt(a, b), value_lt(b, a)) {
            (Some(lt), Some(gt)) => Some(
                SpecScalar::Boolean(
                    match op {
                        ComparisonOperator::Eq => a == b,
                        ComparisonOperator::NotEq => a != b,
                        ComparisonOperator::Lt => lt,
                        ComparisonOperator::LtEq => lt || a == b,
                        ComparisonOperator::Gt => gt,
                        ComparisonOperator::GtEq => gt || a == b,
                    },
                ),
            ),
            _ => None,
        }
    }
}

/// The value of scalar function `kind` on a text `a` and a pattern or
/// argument `b`: NULL when either is NULL, a boolean for two strings, `None`
/// (a type error) otherwise.
pub open spec fn apply_function(kind: ScalarFunctionKind, a: SpecScalar, b: SpecScalar) -> Option<SpecScalar> {
    if a is Null || b is Null {
        Some(SpecScalar::Null)
    } else {
        match (a, b) {
            (SpecScalar::Utf8(t), SpecScalar::Utf8(q)) => Some(
                SpecScalar::Boolean(
                    match kind {
                        ScalarFunctionKind::Like => like_matches(t, q),
                        ScalarFunctionKind::StartsWith => string_test_holds(StringTest::StartsWith, t, q),
                        ScalarFunctionKind::EndsWith => string_test_holds(StringTest::EndsWith, t, q),
                        ScalarFunctionKind::Contains => string_test_holds(StringTest::Contains, t, q),
                    },
                ),
            ),
            _ => None,
        }
    }
}

/// Every function call in `e` has the two inputs that each of the functions
/// takes.
pub open spec fn calls_are_binary(e: SpecExpr) -> bool
    decreases e,
{
    match e {
        SpecExpr::Comparison(l, r, _) => calls_are_binary(*l) && calls_are_binary(*r),
        SpecExpr::Function(_, args) => {
            &&& args.len() == 2
            &&& calls_are_binary(args[0])
            &&& calls_are_binary(args[1])
        },
        _ => true,
    }
}

/// The value of `e` on a row that gives column `c` the value `row(c)`;
/// `None` where the expression is ill-typed.
pub open spec fn eval_expr(e: SpecExpr, row: spec_fn(ColumnReference) -> SpecScalar) -> Option<SpecScalar>
    decreases e,
{
    match e {
        SpecExpr::Column(c) => Some(row(c)),
        SpecExpr::Literal(v) => Some(v),
        SpecExpr::Comparison(l, r, op) => match (eval_expr(*l, row), eval_expr(*r, row)) {
            (Some(a), Some(b)) => compare_values(op, a, b),
            _ => None,
        },
        SpecExpr::Function(kind, args) => if args.len() == 2 {
            match (eval_expr(args[0], row), eval_expr(args[1], row)) {
                (Some(a), Some(b)) => apply_function(kind, a, b),
                _ => None,
            }
        } else {
            None
        },
    }
}

} // verus!
