use glaredb_lite::batch::{Array, Batch};
use glaredb_lite::column_expr::{ExpressionState, PhysicalColumnExpr, Selection};
use glaredb_lite::scalar::{DataType, DataTypeId};

#[test]
fn column_expr_eval() {
    let input = Batch::from_arrays(vec![
        Array::from_strs(&["a", "b", "c", "d"]),
        Array::from_i32s(&[1, 2, 3, 4]),
    ])
    .unwrap();

    let expr = PhysicalColumnExpr { idx: 1, datatype: DataType::int32() };
    let mut out = Array::new(DataType::int32(), Vec::new());
    let sel = Selection::linear(0, 4);

    expr.eval(&input, &mut ExpressionState::empty(), sel, &mut out);

    let expected = Array::from_i32s(&[1, 2, 3, 4]);
    assert_eq!(expected, out);
}

#[test]
fn column_expr_eval_with_selection() {
    let input = Batch::from_arrays(vec![
        Array::from_strs(&["a", "b", "c", "d"]),
        Array::from_i32s(&[1, 2, 3, 4]),
    ])
    .unwrap();

    let expr = PhysicalColumnExpr { idx: 1, datatype: DataType::int32() };
    let mut state = expr.create_state(4);
    let mut out = Array::new(DataType::int32(), Vec::new());
    let sel = Selection::slice(&[1, 3]);

    expr.eval(&input, &mut state, sel, &mut out);

    let expected = Array::from_i32s(&[2, 4]);
    assert_eq!(expected, out);
}

#[test]
fn column_expr_eval_short_linear_selection() {
    let input = Batch::from_arrays(vec![Array::from_strs(&["a", "b", "c", "d"])]).unwrap();
    let expr = PhysicalColumnExpr::new(0, DataType::utf8());
    let mut out = Array::new(DataType::utf8(), Vec::new());
    expr.eval(&input, &mut ExpressionState::empty(), Selection::linear(1, 2), &mut out);
    assert_eq!(Array::from_strs(&["b", "c"]), out);
    assert_eq!(DataTypeId::Utf8, out.datatype.id());
}

#[test]
fn column_expr_display_and_datatype() {
    let expr: PhysicalColumnExpr = (12usize, DataType::int64()).into();
    assert_eq!("@12", expr.to_display_string());
    assert_eq!(DataType::int64(), expr.datatype());
    assert_eq!(12, expr.idx);
}

#[test]
fn batch_rejects_arrays_of_different_lengths() {
    let r = Batch::from_arrays(vec![Array::from_i32s(&[1, 2]), Array::from_i32s(&[1])]);
    assert!(r.is_err());
    let empty = Batch::from_arrays(Vec::new()).unwrap();
    assert_eq!(0, empty.num_rows());
}
