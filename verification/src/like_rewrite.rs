//! The optimizer rule that replaces LIKE calls by cheaper string tests.

use vstd::prelude::*;
use crate::expr::{
    ComparisonExpr, ComparisonOperator, Expression, ScalarFunctionExpr, ScalarFunctionKind,
    SpecExpr, view_expr, view_exprs, lemma_view_exprs, lemma_view_exprs_ext, reads_no_column,
};
use crate::like::{StringTest, choose_like_replacement, like_replacement};
use crate::scalar::{ScalarValue, SpecScalar};
use crate::like_laws::{like_matches, string_test_holds, lemma_like_replacement_is_equivalent};
use crate::expr::ColumnReference;
use crate::expr_eval::{apply_function, calls_are_binary, compare_values, eval_expr};

verus! {

/// Why a rewrite failed.
#[derive(Clone, Copy, Debug, PartialEq, Eq, Structural)]
pub enum RewriteError {
    /// The constant pattern of a LIKE call does not fold to a string.
    PatternNotUtf8,
}

/// Rewrite LIKE expressions into equivalent prefix/suffix/contains calls if
/// possible.
#[derive(Debug)]
pub struct LikeRewrite;

/// Every LIKE call reached by the rewrite has a text and a pattern input.
pub open spec fn like_calls_well_formed(e: SpecExpr) -> bool
    decreases e,
{
    match e {
        SpecExpr::Comparison(l, r, _) => like_calls_well_formed(*l) && like_calls_well_formed(*r),
        SpecExpr::Function(kind, args) => if kind == ScalarFunctionKind::Like {
            args.len() >= 2
        } else {
            all_like_calls_well_formed(args)
        },
        _ => true,
    }
}

/// [`like_calls_well_formed`] of every element.
pub open spec fn all_like_calls_well_formed(s: Seq<SpecExpr>) -> bool
    decreases s,
{
    if s.len() == 0 {
        true
    } else {
        all_like_calls_well_formed(s.drop_last()) && like_calls_well_formed(s.last())
    }
}

/// The expression that applies string test `kind` to `input` and the string
/// literal `arg`.
pub open spec fn replacement_expr(kind: StringTest, input: SpecExpr, arg: Seq<char>) -> SpecExpr {
    let lit = SpecExpr::Literal(SpecScalar::Utf8(arg));
    match kind {
        StringTest::Equals => SpecExpr::Comparison(Box::new(input), Box::new(lit), ComparisonOperator::Eq),
        StringTest::StartsWith => SpecExpr::Function(ScalarFunctionKind::StartsWith, seq![input, lit]),
        StringTest::EndsWith => SpecExpr::Function(ScalarFunctionKind::EndsWith, seq![input, lit]),
        StringTest::Contains => SpecExpr::Function(ScalarFunctionKind::Contains, seq![input, lit]),
    }
}

/// What becomes of a LIKE call with inputs `args`. A pattern that reads no
/// column is folded to a constant: a string literal simple enough is
/// replaced by its string test (others stay as they are), while any other
/// constant pattern folds to a boolean or NULL, never a string, and is an
/// error. A pattern that reads a column leaves the call as it is.
pub open spec fn rewrite_like_call_spec(args: Seq<SpecExpr>) -> Result<SpecExpr, RewriteError> {
    let unchanged = SpecExpr::Function(ScalarFunctionKind::Like, args);
    match args[1] {
        SpecExpr::Literal(v) => match v {
            SpecScalar::Utf8(p) => match like_replacement(p) {
                Some((kind, arg)) => Ok(replacement_expr(kind, args[0], arg)),
                None => Ok(unchanged),
            },
            _ => Err(RewriteError::PatternNotUtf8),
        },
        _ => if reads_no_column(args[1]) {
            Err(RewriteError::PatternNotUtf8)
        } else {
            Ok(unchanged)
        },
    }
}

/// The rewrite of an expression tree: LIKE calls are rewritten (and their
/// inputs left alone), every other node keeps its shape with its children
/// rewritten from left to right; the first error stops the rewrite.
pub open spec fn rewrite_spec(e: SpecExpr) -> Result<SpecExpr, RewriteError>
    decreases e,
{
    match e {
        SpecExpr::Comparison(l, r, op) => match rewrite_spec(*l) {
            Err(err) => Err(err),
            Ok(l2) => match rewrite_spec(*r) {
                Err(err) => Err(err),
                Ok(r2) => Ok(SpecExpr::Comparison(Box::new(l2), Box::new(r2), op)),
            },
        },
        SpecExpr::Function(kind, args) => if kind == ScalarFunctionKind::Like {
            rewrite_like_call_spec(args)
        } else {
            match rewrite_all_spec(args) {
                Err(err) => Err(err),
                Ok(args2) => Ok(SpecExpr::Function(kind, args2)),
            }
        },
        _ => Ok(e),
    }
}

/// The rewrite of each element, from first to last; the first error stops it.
pub open spec fn rewrite_all_spec(s: Seq<SpecExpr>) -> Result<Seq<SpecExpr>, RewriteError>
    decreases s,
{
    if s.len() == 0 {
        Ok(Seq::empty())
    } else {
        match rewrite_all_spec(s.drop_last()) {
            Err(err) => Err(err),
            Ok(prefix) => match rewrite_spec(s.last()) {
                Err(err) => Err(err),
                Ok(x) => Ok(prefix.push(x)),
            },
        }
    }
}

/// The model of a rewrite result.
pub open spec fn result_view(r: Result<Expression, RewriteError>) -> Result<SpecExpr, RewriteError> {
    match r {
        Ok(e) => Ok(e@),
        Err(err) => Err(err),
    }
}

proof fn lemma_all_wf_index(s: Seq<SpecExpr>, i: int)
    requires
        all_like_calls_well_formed(s),
        0 <= i < s.len(),
    ensures
        like_calls_well_formed(s[i]),
    decreases s.len(),
{
    if i < s.len() - 1 {
        lemma_all_wf_index(s.drop_last(), i);
    }
}

proof fn lemma_all_wf_prefix(s: Seq<SpecExpr>, k: int)
    requires
        all_like_calls_well_formed(s),
        0 <= k <= s.len(),
    ensures
        all_like_calls_well_formed(s.take(k)),
    decreases s.len(),
{
    if k < s.len() {
        assert(s.drop_last().take(k) =~= s.take(k));
        lemma_all_wf_prefix(s.drop_last(), k);
    } else {
        assert(s.take(k) =~= s);
    }
}

/// An error in a prefix is the error of the whole sequence.
proof fn lemma_rewrite_all_prefix_err(s: Seq<SpecExpr>, k: int)
    requires
        0 <= k <= s.len(),
        rewrite_all_spec(s.take(k)) is Err,
    ensures
        rewrite_all_spec(s) == rewrite_all_spec(s.take(k)),
    decreases s.len(),
{
    if k < s.len() {
        assert(s.drop_last().take(k) =~= s.take(k));
        lemma_rewrite_all_prefix_err(s.drop_last(), k);
    } else {
        assert(s.take(k) =~= s);
    }
}

/// Builds the expression that applies string test `kind` to `input` and the
/// string literal `arg`.
fn build_replacement(kind: StringTest, input: Expression, arg: String) -> (r: Expression)
    ensures
        r@ == replacement_expr(kind, input@, arg@),
{
    let lit = Expression::Literal(ScalarValue::Utf8(arg));
    let ghost lit_view = lit@;
    let r = match kind {
        StringTest::Equals => Expression::Comparison(
            ComparisonExpr { left: Box::new(input), right: Box::new(lit), op: ComparisonOperator::Eq },
        ),
        StringTest::StartsWith => Expression::ScalarFunction(
            ScalarFunctionExpr { function: ScalarFunctionKind::StartsWith, inputs: vec![input, lit] },
        ),
        StringTest::EndsWith => Expression::ScalarFunction(
            ScalarFunctionExpr { function: ScalarFunctionKind::EndsWith, inputs: vec![input, lit] },
        ),
        StringTest::Contains => Expression::ScalarFunction(
            ScalarFunctionExpr { function: ScalarFunctionKind::Contains, inputs: vec![input, lit] },
        ),
    };
    proof {
        match &r {
            Expression::ScalarFunction(f) => {
                lemma_view_exprs(f.inputs@);
                assert(view_exprs(f.inputs@) =~= seq![input@, lit_view]);
            },
            _ => {},
        }
    }
    r
}

/// Rewrites one LIKE call whose inputs are `inputs`.
fn rewrite_like_call(inputs: Vec<Expression>) -> (r: Result<Expression, RewriteError>)
    requires
        inputs.len() >= 2,
    ensures
        result_view(r) == rewrite_like_call_spec(view_exprs(inputs@)),
{
    proof {
        lemma_view_exprs(inputs@);
    }
    let decision = match &inputs[1] {
        Expression::Literal(ScalarValue::Utf8(pattern)) => choose_like_replacement(pattern.as_str()),
        Expression::Literal(_) => {
            return Err(RewriteError::PatternNotUtf8);
        },
        other => if other.is_const_foldable() {
            return Err(RewriteError::PatternNotUtf8);
        } else {
            None
        },
    };
    match decision {
        None => Ok(Expression::ScalarFunction(ScalarFunctionExpr { function: ScalarFunctionKind::Like, inputs })),
        Some((kind, arg)) => {
            let mut inputs = inputs;
            let input = inputs.swap_remove(0);
            Ok(build_replacement(kind, input, arg))
        },
    }
}

/// Rewrites an expression tree; see [`rewrite_spec`].
fn rewrite_expr(e: Expression) -> (r: Result<Expression, RewriteError>)
    requires
        like_calls_well_formed(e@),
    ensures
        result_view(r) == rewrite_spec(e@),
    decreases e,
{
    match e {
        Expression::ScalarFunction(f) => {
            proof {
                lemma_view_exprs(f.inputs@);
            }
            if f.function == ScalarFunctionKind::Like {
                rewrite_like_call(f.inputs)
            } else {
                let function = f.function;
                let inputs = rewrite_all(f.inputs)?;
                Ok(Expression::ScalarFunction(ScalarFunctionExpr { function, inputs }))
            }
        },
        Expression::Comparison(c) => {
            let op = c.op;
            let left = rewrite_expr(*c.left)?;
            let right = rewrite_expr(*c.right)?;
            Ok(Expression::Comparison(ComparisonExpr { left: Box::new(left), right: Box::new(right), op }))
        },
        other => Ok(other),
    }
}

/// Rewrites each expression, from first to last; see [`rewrite_all_spec`].
fn rewrite_all(inputs: Vec<Expression>) -> (r: Result<Vec<Expression>, RewriteError>)
    requires
        all_like_calls_well_formed(view_exprs(inputs@)),
    ensures
        match r {
            Ok(v) => rewrite_all_spec(view_exprs(inputs@)) == Ok::<Seq<SpecExpr>, RewriteError>(view_exprs(v@)),
            Err(err) => rewrite_all_spec(view_exprs(inputs@)) == Err::<Seq<SpecExpr>, RewriteError>(err),
        },
    decreases inputs,
{
    let ghost orig = inputs@;
    let ghost orig_view = view_exprs(orig);
    proof {
        lemma_view_exprs(orig);
    }
    let mut rest = inputs;
    let mut done: Vec<Expression> = Vec::new();
    proof {
        assert(orig.skip(0) =~= orig);
        assert(orig_view.take(0) =~= Seq::<SpecExpr>::empty());
    }
    while rest.len() > 0
        invariant
            done.len() + rest.len() == orig.len(),
            inputs@ == orig,
            rest@ == orig.skip(done.len() as int),
            orig_view == view_exprs(orig),
            orig_view.len() == orig.len(),
            forall|i: int| 0 <= i < orig.len() ==> #[trigger] orig_view[i] == view_expr(orig[i]),
            all_like_calls_well_formed(orig_view),
            rewrite_all_spec(orig_view.take(done.len() as int)) == Ok::<Seq<SpecExpr>, RewriteError>(view_exprs(done@)),
        decreases rest.len(),
    {
        let ghost k = done.len() as int;
        let child = rest.remove(0);
        proof {
            assert(child == orig[k]);
            assert(decreases_to!(inputs => inputs@));
            assert(decreases_to!(inputs@ => inputs@[k]));
            lemma_all_wf_index(orig_view, k);
        }
        let rewritten = rewrite_expr(child);
        proof {
            assert(orig_view.take(k + 1).drop_last() =~= orig_view.take(k));
            assert(orig_view.take(k + 1).last() == orig_view[k]);
        }
        match rewritten {
            Ok(x) => {
                let ghost done_before = done@;
                done.push(x);
                proof {
                    lemma_view_exprs(done_before);
                    lemma_view_exprs(done@);
                    assert(done@.drop_last() =~= done_before);
                    assert(rest@ =~= orig.skip(done.len() as int));
                }
            },
            Err(err) => {
                proof {
                    lemma_rewrite_all_prefix_err(orig_view, k + 1);
                }
                return Err(err);
            },
        }
    }
    proof {
        assert(orig_view.take(orig.len() as int) =~= orig_view);
    }
    Ok(done)
}

impl LikeRewrite {
    /// Rewrites every LIKE call in `expression` whose pattern is a constant
    /// string into the equivalent equality, prefix, suffix or substring test
    /// where the pattern allows it.
    pub fn rewrite(expression: Expression) -> (r: Result<Expression, RewriteError>)
        requires
            like_calls_well_formed(expression@),
        ensures
            result_view(r) == rewrite_spec(expression@),
    {
        rewrite_expr(expression)
    }
}

/// The rewrite keeps the meaning of a LIKE call on a constant pattern: when
/// the call is replaced, the replacement applies a string
/// test that holds of any text exactly when the text matches the pattern;
/// when it is not, the call stays as it is.
pub proof fn lemma_rewritten_like_call_is_equivalent(input: SpecExpr, p: Seq<char>, t: Seq<char>)
    ensures
        ({
            let call = SpecExpr::Function(
                ScalarFunctionKind::Like,
                seq![input, SpecExpr::Literal(SpecScalar::Utf8(p))],
            );
            match like_replacement(p) {
                Some((kind, arg)) => {
                    &&& rewrite_spec(call) == Ok::<SpecExpr, RewriteError>(replacement_expr(kind, input, arg))
                    &&& like_matches(t, p) == string_test_holds(kind, t, arg)
                },
                None => rewrite_spec(call) == Ok::<SpecExpr, RewriteError>(call),
            }
        }),
{
    if like_replacement(p) is Some {
        lemma_like_replacement_is_equivalent(t, p);
    }
}

/// A successful rewrite of a sequence rewrites each element in place.
proof fn lemma_rewrite_all_ok(s: Seq<SpecExpr>)
    requires
        rewrite_all_spec(s) is Ok,
    ensures
        rewrite_all_spec(s)->Ok_0.len() == s.len(),
        forall|i: int| 0 <= i < s.len() ==> rewrite_spec(#[trigger] s[i]) == Ok::<SpecExpr, RewriteError>(rewrite_all_spec(s)->Ok_0[i]),
    decreases s.len(),
{
    if s.len() > 0 {
        lemma_rewrite_all_ok(s.drop_last());
        assert forall|i: int| 0 <= i < s.len() implies rewrite_spec(#[trigger] s[i]) == Ok::<SpecExpr, RewriteError>(rewrite_all_spec(s)->Ok_0[i]) by {
            if i < s.len() - 1 {
                assert(s[i] == s.drop_last()[i]);
            }
        }
    }
}

/// The rewrite keeps the value of the expression it is given: when it
/// succeeds, the rewritten tree has, on every row, the value of the original
/// tree (NULL and type errors included).
pub proof fn lemma_rewrite_keeps_value(e: SpecExpr, row: spec_fn(ColumnReference) -> SpecScalar)
    requires
        calls_are_binary(e),
        rewrite_spec(e) is Ok,
    ensures
        eval_expr(rewrite_spec(e)->Ok_0, row) == eval_expr(e, row),
    decreases e,
{
    match e {
        SpecExpr::Comparison(l, r, op) => {
            lemma_rewrite_keeps_value(*l, row);
            lemma_rewrite_keeps_value(*r, row);
        },
        SpecExpr::Function(kind, args) => {
            if kind == ScalarFunctionKind::Like {
                match args[1] {
                    SpecExpr::Literal(SpecScalar::Utf8(p)) => {
                        match like_replacement(p) {
                            Some((k, arg)) => {
                                let lit = SpecExpr::Literal(SpecScalar::Utf8(arg));
                                let pat = SpecScalar::Utf8(p);
                                let rep = replacement_expr(k, args[0], arg);
                                assert(rewrite_spec(e)->Ok_0 == rep);
                                assert(eval_expr(args[1], row) == Some(pat));
                                assert(eval_expr(lit, row) == Some(SpecScalar::Utf8(arg)));
                                let args2 = seq![args[0], lit];
                                assert(args2[0] == args[0]);
                                assert(args2[1] == lit);
                                match eval_expr(args[0], row) {
                                    Some(a) => {
                                        if let SpecScalar::Utf8(t) = a {
                                            lemma_like_replacement_is_equivalent(t, p);
                                        }
                                        assert(eval_expr(e, row) == apply_function(ScalarFunctionKind::Like, a, pat));
                                        match k {
                                            StringTest::Equals => {
                                                assert(arg == p);
                                                assert(eval_expr(rep, row) == compare_values(ComparisonOperator::Eq, a, SpecScalar::Utf8(arg)));
                                            },
                                            _ => {
                                                let f = match k {
                                                    StringTest::StartsWith => ScalarFunctionKind::StartsWith,
                                                    StringTest::EndsWith => ScalarFunctionKind::EndsWith,
                                                    _ => ScalarFunctionKind::Contains,
                                                };
                                                assert(eval_expr(rep, row) == apply_function(f, a, SpecScalar::Utf8(arg)));
                                            },
                                        }
                                    },
                                    None => {},
                                }
                            },
                            None => {},
                        }
                    },
                    _ => {},
                }
            } else {
                lemma_rewrite_all_ok(args);
                lemma_rewrite_keeps_value(args[0], row);
                lemma_rewrite_keeps_value(args[1], row);
            }
        },
        _ => {},
    }
}

} // verus!
