use glaredb_lite::explain::{ExplainConfig, ExplainValue};
use glaredb_lite::expr::{ColumnReference, Expression, TableRef};
use glaredb_lite::logical::{GroupingFunction, LogicalAggregate, LogicalExpressionList, Node};
use glaredb_lite::scalar::{DataType, ScalarValue};

fn col(t: usize, c: usize) -> Expression {
    Expression::Column(ColumnReference { table_scope: TableRef { table_idx: t }, column: c })
}

fn aggregate(grouped: bool, grouping_fns: bool) -> Node<LogicalAggregate> {
    Node {
        node: LogicalAggregate {
            aggregates_table: TableRef { table_idx: 2 },
            aggregates: vec![col(0, 0), col(0, 1)],
            group_table: if grouped { Some(TableRef { table_idx: 1 }) } else { None },
            group_exprs: if grouped { vec![col(0, 2)] } else { Vec::new() },
            grouping_sets: None,
            grouping_functions_table: if grouping_fns { Some(TableRef { table_idx: 3 }) } else { None },
            grouping_functions: if grouping_fns {
                vec![GroupingFunction { group_exprs: vec![0] }]
            } else {
                Vec::new()
            },
        },
    }
}

#[test]
fn aggregate_output_refs_order() {
    assert_eq!(vec![TableRef { table_idx: 2 }], aggregate(false, false).get_output_table_refs());
    assert_eq!(
        vec![TableRef { table_idx: 1 }, TableRef { table_idx: 2 }, TableRef { table_idx: 3 }],
        aggregate(true, true).get_output_table_refs()
    );
    assert_eq!(
        vec![TableRef { table_idx: 2 }, TableRef { table_idx: 3 }],
        aggregate(false, true).get_output_table_refs()
    );
    assert_eq!("Aggregate", aggregate(false, false).name());
}

#[test]
fn aggregate_visits_aggregates_then_groups() {
    let node = aggregate(true, false);
    let seen = std::cell::RefCell::new(Vec::new());
    let r: Result<(), ()> = node.for_each_expr(|e| {
        seen.borrow_mut().push(match e {
            Expression::Column(c) => c.column,
            _ => 99,
        });
        Ok(())
    });
    assert_eq!(Ok(()), r);
    assert_eq!(vec![0, 1, 2], seen.into_inner());
}

#[test]
fn aggregate_visit_stops_at_first_error() {
    let node = aggregate(true, false);
    let count = std::cell::Cell::new(0);
    let r: Result<(), usize> = node.for_each_expr(|e| {
        count.set(count.get() + 1);
        match e {
            Expression::Column(c) if c.column == 1 => Err(c.column),
            _ => Ok(()),
        }
    });
    assert_eq!(Err(1), r);
    assert_eq!(2, count.get());
}

#[test]
fn aggregate_visit_mut_changes_expressions() {
    let mut node = aggregate(true, false);
    let r: Result<(), ()> = node.for_each_expr_mut(|e| {
        *e = Expression::Literal(ScalarValue::Int64(1));
        Ok(())
    });
    assert_eq!(Ok(()), r);
    assert!(node.node.aggregates.iter().all(|e| *e == Expression::Literal(ScalarValue::Int64(1))));
    assert_eq!(vec![Expression::Literal(ScalarValue::Int64(1))], node.node.group_exprs);
}

#[test]
fn aggregate_explain_entry_items() {
    let node = aggregate(true, true);
    let entry = node.node.explain_entry(ExplainConfig { verbose: false });
    assert_eq!("Aggregate", entry.name);
    let keys: Vec<&str> = entry.items.iter().map(|i| i.key.as_str()).collect();
    assert_eq!(vec!["aggregates", "grouping_set_table_ref", "group_expressions", "group_table_ref"], keys);

    let entry = aggregate(false, false).node.explain_entry(ExplainConfig { verbose: true });
    let keys: Vec<&str> = entry.items.iter().map(|i| i.key.as_str()).collect();
    assert_eq!(vec!["aggregates", "table_ref"], keys);
    match &entry.items[0].value {
        ExplainValue::Expressions(v) => assert_eq!(&vec![col(0, 0), col(0, 1)], v),
        _ => panic!("expected expressions"),
    }
}

fn expr_list() -> Node<LogicalExpressionList> {
    Node {
        node: LogicalExpressionList {
            table_ref: TableRef { table_idx: 5 },
            types: vec![DataType::int32(), DataType::utf8()],
            rows: vec![
                vec![Expression::Literal(ScalarValue::Int32(1)), Expression::Literal(ScalarValue::Utf8("a".to_string()))],
                vec![Expression::Literal(ScalarValue::Int32(2)), Expression::Literal(ScalarValue::Utf8("b".to_string()))],
            ],
        },
    }
}

#[test]
fn expression_list_refs_and_name() {
    let node = expr_list();
    assert_eq!(vec![TableRef { table_idx: 5 }], node.get_output_table_refs());
    assert_eq!("ExpressionList", node.name());
}

#[test]
fn expression_list_visits_rows_in_order() {
    let node = expr_list();
    let seen = std::cell::RefCell::new(Vec::new());
    let r: Result<(), ()> = node.for_each_expr(|e| {
        seen.borrow_mut().push(format!("{:?}", e));
        Ok(())
    });
    assert_eq!(Ok(()), r);
    assert_eq!(4, seen.borrow().len());
    assert!(seen.borrow()[2].contains("Int32(2)"));

    let r: Result<(), i32> = node.for_each_expr(|e| match e {
        Expression::Literal(ScalarValue::Int32(2)) => Err(2),
        _ => Ok(()),
    });
    assert_eq!(Err(2), r);
}

#[test]
fn expression_list_visit_mut() {
    let mut node = expr_list();
    let r: Result<(), ()> = node.for_each_expr_mut(|e| {
        if let Expression::Literal(ScalarValue::Int32(v)) = e {
            *v += 10;
        }
        Ok(())
    });
    assert_eq!(Ok(()), r);
    assert_eq!(Expression::Literal(ScalarValue::Int32(12)), node.node.rows[1][0]);
}

#[test]
fn expression_list_explain_entry() {
    let node = expr_list();
    let entry = node.node.explain_entry(ExplainConfig { verbose: true });
    assert_eq!("ExpressionList", entry.name);
    let keys: Vec<&str> = entry.items.iter().map(|i| i.key.as_str()).collect();
    assert_eq!(vec!["num_rows", "datatypes", "table_ref"], keys);
    match &entry.items[0].value {
        ExplainValue::Count(n) => assert_eq!(2, *n),
        _ => panic!("expected a count"),
    }
    match &entry.items[1].value {
        ExplainValue::DataTypes(t) => assert_eq!(&vec![DataType::int32(), DataType::utf8()], t),
        _ => panic!("expected data types"),
    }
}
