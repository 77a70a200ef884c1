use glaredb_lite::batch::{Array, Batch, ColumnSchema, Field};
use glaredb_lite::scalar::{DataType, DataTypeId, ScalarValue};
use glaredb_lite::slt::{batches_to_rows, str_lines, transform_multiline_cols_to_rows};
use glaredb_lite::slt_types::{schema_to_types, slt_type_code};
use sqllogictest::ColumnType;

#[test]
fn transform_not_needed() {
    let orig_row = &["col1", "col2", "col3"];
    let out = transform_multiline_cols_to_rows(orig_row);
    assert_eq!(None, out);
}

#[test]
fn transform_multiline_col() {
    let orig_row = &["col1", "col2\ncol2a\ncol2b", "col3"];
    let out = transform_multiline_cols_to_rows(orig_row);

    let expected = vec![
        vec!["col1".to_string(), "col2".to_string(), "col3".to_string()],
        vec![".".to_string(), "col2a".to_string(), ".".to_string()],
        vec![".".to_string(), "col2b".to_string(), ".".to_string()],
    ];

    assert_eq!(Some(expected), out);
}

#[test]
fn transform_multiple_multiline_cols() {
    let orig_row = &["col1", "col2\ncol2a\ncol2b", "col3\ncol3a"];
    let out = transform_multiline_cols_to_rows(orig_row);

    let expected = vec![
        vec!["col1".to_string(), "col2".to_string(), "col3".to_string()],
        vec![".".to_string(), "col2a".to_string(), "col3a".to_string()],
        vec![".".to_string(), "col2b".to_string(), ".".to_string()],
    ];

    assert_eq!(Some(expected), out);
}

#[test]
fn transform_empty_column_gets_dots() {
    let orig_row = &["", "a\nb"];
    let out = transform_multiline_cols_to_rows(orig_row);
    let expected = vec![
        vec![".".to_string(), "a".to_string()],
        vec![".".to_string(), "b".to_string()],
    ];
    assert_eq!(Some(expected), out);
}

#[test]
fn transform_trailing_newline_is_not_a_line() {
    assert_eq!(None, transform_multiline_cols_to_rows(&["a\n", "b"]));
    assert_eq!(None, transform_multiline_cols_to_rows(&[]));
}

#[test]
fn lines_match_std() {
    let samples = ["", "a", "a\n", "\n", "a\r\nb", "a\rb\r", "x\n\ny", "\r\n\r\n", "é\nü"];
    for s in samples {
        let expected: Vec<String> = s.lines().map(|l| l.to_string()).collect();
        assert_eq!(expected, str_lines(s), "{:?}", s);
    }
}

#[test]
fn batches_to_rows_formats_and_expands() {
    let names = Array::new(
        DataType::utf8(),
        vec![
            ScalarValue::Utf8("plain".to_string()),
            ScalarValue::Utf8("".to_string()),
            ScalarValue::Utf8("one\ntwo".to_string()),
        ],
    );
    let nums = Array::new(
        DataType::int64(),
        vec![ScalarValue::Int64(-42), ScalarValue::Null, ScalarValue::Int64(7)],
    );
    let batch = Batch::from_arrays(vec![names, nums]).unwrap();
    let flags = Array::new(DataType::boolean(), vec![ScalarValue::Boolean(true)]);
    let batch2 = Batch::from_arrays(vec![flags]).unwrap();

    let rows = batches_to_rows(vec![batch, batch2]);
    let expected = vec![
        vec!["plain".to_string(), "-42".to_string()],
        vec!["(empty)".to_string(), "NULL".to_string()],
        vec!["one".to_string(), "7".to_string()],
        vec!["two".to_string(), ".".to_string()],
        vec!["true".to_string()],
    ];
    assert_eq!(expected, rows);
}

#[test]
fn batches_to_rows_extreme_integers() {
    let arr = Array::new(
        DataType::int64(),
        vec![ScalarValue::Int64(i64::MIN), ScalarValue::Int64(0), ScalarValue::Int32(i32::MAX)],
    );
    let rows = batches_to_rows(vec![Batch::from_arrays(vec![arr]).unwrap()]);
    assert_eq!(
        vec![
            vec!["-9223372036854775808".to_string()],
            vec!["0".to_string()],
            vec!["2147483647".to_string()],
        ],
        rows
    );
}

#[test]
fn batches_to_rows_no_batches() {
    assert!(batches_to_rows(Vec::new()).is_empty());
}

fn field(id: DataTypeId) -> Field {
    Field { name: "c".to_string(), datatype: DataType::new(id), nullable: true }
}

#[test]
fn schema_types_follow_data_types() {
    let schema = ColumnSchema {
        fields: vec![
            field(DataTypeId::Int8),
            field(DataTypeId::UInt64),
            field(DataTypeId::Float32),
            field(DataTypeId::Float64),
            field(DataTypeId::Utf8),
            field(DataTypeId::Boolean),
            field(DataTypeId::Date32),
            field(DataTypeId::Decimal64),
        ],
    };
    let types = schema_to_types(&schema);
    let chars: Vec<char> = types.iter().map(|t| t.to_char()).collect();
    assert_eq!(vec!['I', 'I', 'R', 'R', 'T', 'T', '?', '?'], chars);
}

#[test]
fn slt_type_codes() {
    assert_eq!('I', slt_type_code(DataTypeId::Int32));
    assert_eq!('?', slt_type_code(DataTypeId::Float16));
    assert_eq!('?', slt_type_code(DataTypeId::Int128));
    assert_eq!('T', slt_type_code(DataTypeId::Boolean));
}
