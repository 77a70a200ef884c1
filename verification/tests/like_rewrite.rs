use glaredb_lite::expr::{
    ColumnReference, ComparisonExpr, ComparisonOperator, Expression, ScalarFunctionExpr,
    ScalarFunctionKind, TableRef,
};
use glaredb_lite::like_rewrite::{LikeRewrite, RewriteError};
use glaredb_lite::scalar::ScalarValue;

fn col(c: usize) -> Expression {
    Expression::Column(ColumnReference { table_scope: TableRef { table_idx: 0 }, column: c })
}

fn lit(s: &str) -> Expression {
    Expression::Literal(ScalarValue::Utf8(s.to_string()))
}

fn call(function: ScalarFunctionKind, inputs: Vec<Expression>) -> Expression {
    Expression::ScalarFunction(ScalarFunctionExpr { function, inputs })
}

fn like(input: Expression, pattern: Expression) -> Expression {
    call(ScalarFunctionKind::Like, vec![input, pattern])
}

#[test]
fn rewrite_plain_pattern_to_equality() {
    let out = LikeRewrite::rewrite(like(col(0), lit("abc"))).unwrap();
    let expected = Expression::Comparison(ComparisonExpr {
        left: Box::new(col(0)),
        right: Box::new(lit("abc")),
        op: ComparisonOperator::Eq,
    });
    assert_eq!(expected, out);
}

#[test]
fn rewrite_prefix_suffix_contains() {
    assert_eq!(
        call(ScalarFunctionKind::StartsWith, vec![col(0), lit("abc")]),
        LikeRewrite::rewrite(like(col(0), lit("abc%"))).unwrap()
    );
    assert_eq!(
        call(ScalarFunctionKind::EndsWith, vec![col(0), lit("abc")]),
        LikeRewrite::rewrite(like(col(0), lit("%abc"))).unwrap()
    );
    assert_eq!(
        call(ScalarFunctionKind::Contains, vec![col(0), lit("abc")]),
        LikeRewrite::rewrite(like(col(0), lit("%abc%"))).unwrap()
    );
}

#[test]
fn rewrite_leaves_complex_patterns() {
    let e = like(col(0), lit("a_c%"));
    assert_eq!(like(col(0), lit("a_c%")), LikeRewrite::rewrite(e).unwrap());
    let e = like(col(0), col(1));
    assert_eq!(like(col(0), col(1)), LikeRewrite::rewrite(e).unwrap());
}

#[test]
fn rewrite_non_string_pattern_is_an_error() {
    let e = like(col(0), Expression::Literal(ScalarValue::Int32(3)));
    assert_eq!(Err(RewriteError::PatternNotUtf8), LikeRewrite::rewrite(e));
    let e = like(col(0), Expression::Literal(ScalarValue::Null));
    assert_eq!(Err(RewriteError::PatternNotUtf8), LikeRewrite::rewrite(e));
}

#[test]
fn rewrite_reaches_nested_calls() {
    let e = Expression::Comparison(ComparisonExpr {
        left: Box::new(call(ScalarFunctionKind::Contains, vec![like(col(0), lit("x%")), col(2)])),
        right: Box::new(like(col(1), lit("%y"))),
        op: ComparisonOperator::NotEq,
    });
    let expected = Expression::Comparison(ComparisonExpr {
        left: Box::new(call(
            ScalarFunctionKind::Contains,
            vec![call(ScalarFunctionKind::StartsWith, vec![col(0), lit("x")]), col(2)],
        )),
        right: Box::new(call(ScalarFunctionKind::EndsWith, vec![col(1), lit("y")])),
        op: ComparisonOperator::NotEq,
    });
    assert_eq!(expected, LikeRewrite::rewrite(e).unwrap());
}

#[test]
fn rewrite_does_not_enter_like_inputs() {
    let inner = like(col(0), lit("a%"));
    let e = like(inner, lit("a_b"));
    let expected = like(like(col(0), lit("a%")), lit("a_b"));
    assert_eq!(expected, LikeRewrite::rewrite(e).unwrap());
}

#[test]
fn rewrite_first_error_wins() {
    let e = call(
        ScalarFunctionKind::EndsWith,
        vec![like(col(0), lit("ok%")), like(col(1), Expression::Literal(ScalarValue::Boolean(true)))],
    );
    assert_eq!(Err(RewriteError::PatternNotUtf8), LikeRewrite::rewrite(e));
}

/// Reference LIKE matcher used to check the rewrite's equivalence on samples.
fn like_matches(t: &[char], p: &[char]) -> bool {
    if p.is_empty() {
        return t.is_empty();
    }
    if p[0] == '%' {
        return like_matches(t, &p[1..]) || (!t.is_empty() && like_matches(&t[1..], p));
    }
    if t.is_empty() {
        return false;
    }
    if p[0] == '_' {
        return like_matches(&t[1..], &p[1..]);
    }
    t[0] == p[0] && like_matches(&t[1..], &p[1..])
}

#[test]
fn rewritten_tests_agree_with_like() {
    let patterns = ["abc", "ab%", "%bc", "%b%", "%", "%%", ""];
    let texts = ["", "a", "abc", "xabcx", "bc", "ab", "cab", "b"];
    for p in patterns {
        let pc: Vec<char> = p.chars().collect();
        let out = LikeRewrite::rewrite(like(col(0), lit(p))).unwrap();
        for t in texts {
            let tc: Vec<char> = t.chars().collect();
            let expected = like_matches(&tc, &pc);
            let got = match &out {
                Expression::Comparison(c) => match &*c.right {
                    Expression::Literal(ScalarValue::Utf8(a)) => t == a,
                    _ => panic!("unexpected"),
                },
                Expression::ScalarFunction(f) => {
                    let arg = match &f.inputs[1] {
                        Expression::Literal(ScalarValue::Utf8(a)) => a.clone(),
                        _ => panic!("unexpected"),
                    };
                    match f.function {
                        ScalarFunctionKind::StartsWith => t.starts_with(arg.as_str()),
                        ScalarFunctionKind::EndsWith => t.ends_with(arg.as_str()),
                        ScalarFunctionKind::Contains => t.contains(arg.as_str()),
                        _ => panic!("unexpected"),
                    }
                }
                _ => panic!("unexpected"),
            };
            assert_eq!(expected, got, "{:?} LIKE {:?}", t, p);
        }
    }
}

#[test]
fn rewrite_constant_non_literal_pattern_is_an_error() {
    // A pattern that reads no column folds to a constant; a comparison or a
    // string test folds to a boolean, never a string.
    let cmp = Expression::Comparison(ComparisonExpr {
        left: Box::new(lit("a")),
        right: Box::new(lit("b")),
        op: ComparisonOperator::Eq,
    });
    assert_eq!(Err(RewriteError::PatternNotUtf8), LikeRewrite::rewrite(like(col(0), cmp)));
    let test = call(ScalarFunctionKind::StartsWith, vec![lit("ab"), lit("a")]);
    assert_eq!(Err(RewriteError::PatternNotUtf8), LikeRewrite::rewrite(like(col(0), test)));
}

#[test]
fn rewrite_pattern_reading_a_column_is_left() {
    let pat = call(ScalarFunctionKind::Contains, vec![col(1), lit("a")]);
    let expected = like(col(0), call(ScalarFunctionKind::Contains, vec![col(1), lit("a")]));
    assert_eq!(expected, LikeRewrite::rewrite(like(col(0), pat)).unwrap());
}

#[test]
fn rewrite_leaves_patterns_with_escapes() {
    for p in ["a\\b", "ab\\%", "\\%ab", "%a\\b%", "%a\\%"] {
        assert_eq!(like(col(0), lit(p)), LikeRewrite::rewrite(like(col(0), lit(p))).unwrap());
    }
}
