use mdutils::table::formula::evaluator::{eval_function, evaluate_operation};
use mdutils::table::formula::reference::resolve_reference;
use mdutils::table::formula::{evaluate_expression_value, CellReference, Value};
use mdutils::Dec;

fn d(v: i64) -> Dec {
    Dec::from_i64(v)
}

fn s(x: &str) -> String {
    x.to_string()
}

#[test]
fn mod_test_resolve_column_vector() {
    let rows = vec![
        vec![s("Name"), s("Value")],
        vec![s("---"), s("---")],
        vec![s("A"), s("10")],
        vec![s("B"), s("20")],
        vec![s("C"), s("30")],
    ];
    let col_ref = CellReference::ColumnVector { col: 1 };
    let result = resolve_reference(&col_ref, &rows);
    assert_eq!(result, Ok(Value::column_vector(vec![d(10), d(20), d(30)])));
}

#[test]
fn mod_test_resolve_row_vector() {
    let rows = vec![
        vec![s("Name"), s("A"), s("B")],
        vec![s("---"), s("---"), s("---")],
        vec![s("Values"), s("10"), s("20")],
    ];
    let row_ref = CellReference::RowVector { row: 1 };
    let result = resolve_reference(&row_ref, &rows);
    assert_eq!(result, Ok(Value::row_vector(vec![Dec::zero(), d(10), d(20)])));
}

#[test]
fn mod_test_resolve_empty_cells_as_zero() {
    let rows = vec![
        vec![s("Col")],
        vec![s("---")],
        vec![s("10")],
        vec![s("")],
        vec![s("text")],
        vec![s("30")],
    ];
    let col_ref = CellReference::ColumnVector { col: 0 };
    let result = resolve_reference(&col_ref, &rows);
    assert_eq!(
        result,
        Ok(Value::column_vector(vec![d(10), Dec::zero(), Dec::zero(), d(30)]))
    );
}

#[test]
fn mod_test_vector_addition() {
    let left = Value::column_vector(vec![d(1), d(2), d(3)]);
    let right = Value::column_vector(vec![d(4), d(5), d(6)]);
    let result = evaluate_operation('+', left, right);
    assert_eq!(result, Ok(Value::column_vector(vec![d(5), d(7), d(9)])));
}

#[test]
fn mod_test_vector_scalar_multiply() {
    let v = Value::column_vector(vec![d(2), d(4), d(6)]);
    let scalar = Value::Scalar(d(3));
    let result = evaluate_operation('*', v, scalar);
    assert_eq!(result, Ok(Value::column_vector(vec![d(6), d(12), d(18)])));
}

#[test]
fn mod_test_broadcast_scalar() {
    let scalar = Value::Scalar(d(10));
    let v = Value::column_vector(vec![d(1), d(2), d(3)]);
    let result = evaluate_operation('+', scalar, v);
    assert_eq!(result, Ok(Value::column_vector(vec![d(11), d(12), d(13)])));
}

#[test]
fn mod_test_length_mismatch() {
    let left = Value::column_vector(vec![d(1), d(2), d(3)]);
    let right = Value::column_vector(vec![d(10), d(20)]);
    let result = evaluate_operation('+', left, right);
    assert!(result.is_err());
}

#[test]
fn mod_test_sum_vector() {
    let v = Value::column_vector(vec![d(1), d(2), d(3)]);
    let result = eval_function("sum", v);
    assert_eq!(result, Ok(Value::Scalar(d(6))));
}

#[test]
fn mod_test_sum_scalar() {
    let result = eval_function("sum", Value::Scalar(d(42)));
    assert_eq!(result, Ok(Value::Scalar(d(42))));
}

#[test]
fn mod_test_sum_empty_vector() {
    let result = eval_function("sum", Value::column_vector(vec![]));
    assert_eq!(result, Ok(Value::Scalar(Dec::zero())));
}

#[test]
fn mod_test_power_operator() {
    let result = evaluate_operation('^', Value::Scalar(d(2)), Value::Scalar(d(3)));
    assert_eq!(result, Ok(Value::Scalar(d(8))));
}

#[test]
fn mod_test_power_precedence() {
    let rows = vec![vec![s("A")], vec![s("---")]];
    let result = evaluate_expression_value("2 * 3 ^ 2", &rows);
    assert_eq!(result, Ok(Value::Scalar(d(18))));
}

#[test]
fn mod_test_power_in_expression() {
    let rows = vec![vec![s("A")], vec![s("---")]];
    let result = evaluate_expression_value("( 2 + 3 ) ^ 2", &rows);
    assert_eq!(result, Ok(Value::Scalar(d(25))));
}

#[test]
fn mod_test_dot_product_row_times_column() {
    let row = Value::row_vector(vec![d(1), d(2), d(3)]);
    let col = Value::column_vector(vec![d(4), d(5), d(6)]);
    let result = evaluate_operation('@', row, col);
    assert_eq!(result, Ok(Value::Matrix { rows: 1, cols: 1, data: vec![d(32)] }));
}

#[test]
fn mod_test_dot_product_dimension_mismatch() {
    let row = Value::row_vector(vec![d(1), d(2)]);
    let col = Value::column_vector(vec![d(4), d(5), d(6)]);
    assert!(evaluate_operation('@', row, col).is_err());
}

#[test]
fn mod_test_matrix_mult_scalar_not_supported() {
    let m = Value::column_vector(vec![d(1), d(2)]);
    assert!(evaluate_operation('@', m, Value::Scalar(d(3))).is_err());
    assert!(
        evaluate_operation('@', Value::Scalar(d(3)), Value::column_vector(vec![d(1)])).is_err()
    );
}

#[test]
fn mod_test_matrix_mult_scalar_scalar_invalid() {
    assert!(evaluate_operation('@', Value::Scalar(d(10)), Value::Scalar(d(2))).is_err());
}

#[test]
fn mod_test_column_column_invalid() {
    let a = Value::column_vector(vec![d(1), d(2), d(3)]);
    let b = Value::column_vector(vec![d(4), d(5), d(6)]);
    assert!(evaluate_operation('@', a, b).is_err());
}

#[test]
fn mod_test_row_row_invalid() {
    let a = Value::row_vector(vec![d(1), d(2), d(3)]);
    let b = Value::row_vector(vec![d(4), d(5), d(6)]);
    assert!(evaluate_operation('@', a, b).is_err());
}

#[test]
fn mod_test_transpose_column_to_row() {
    let col = Value::column_vector(vec![d(1), d(2), d(3)]);
    let t = col.transpose().unwrap();
    assert_eq!(t, Value::row_vector(vec![d(1), d(2), d(3)]));
}

#[test]
fn mod_test_transpose_row_to_column() {
    let row = Value::row_vector(vec![d(1), d(2), d(3)]);
    let t = row.transpose().unwrap();
    assert_eq!(t, Value::column_vector(vec![d(1), d(2), d(3)]));
}

#[test]
fn mod_test_transpose_scalar_fails() {
    assert!(Value::Scalar(d(42)).transpose().is_none());
}

#[test]
fn mod_test_matrix_dimensions_in_result() {
    let row = Value::row_vector(vec![d(1), d(2), d(3)]);
    let col = Value::column_vector(vec![d(4), d(5), d(6)]);
    match evaluate_operation('@', row, col) {
        Ok(Value::Matrix { rows: 1, cols: 1, data }) => {
            assert_eq!(data.len(), 1);
            assert_eq!(data[0], d(32));
        },
        _ => panic!("Expected 1\u{d7}1 matrix result"),
    }
}

#[test]
fn mod_test_as_scalar_extraction() {
    let one_by_one = Value::Matrix { rows: 1, cols: 1, data: vec![d(42)] };
    assert_eq!(one_by_one.as_scalar(), Some(d(42)));
    let bigger = Value::Matrix { rows: 2, cols: 1, data: vec![d(1), d(2)] };
    assert_eq!(bigger.as_scalar(), None);
}

#[test]
fn formula_test_dot_product_row_times_column() {
    let row = Value::row_vector(vec![d(1), d(2), d(3)]);
    let col = Value::column_vector(vec![d(4), d(5), d(6)]);
    let result = evaluate_operation('@', row, col);
    assert_eq!(result, Ok(Value::Matrix { rows: 1, cols: 1, data: vec![d(32)] }));
}

#[test]
fn formula_test_dot_product_dimension_mismatch() {
    let row = Value::row_vector(vec![d(1), d(2)]);
    let col = Value::column_vector(vec![d(4), d(5), d(6)]);
    assert!(evaluate_operation('@', row, col).is_err());
}

#[test]
fn formula_test_matrix_mult_scalar_not_supported() {
    let m = Value::column_vector(vec![d(1), d(2)]);
    assert!(evaluate_operation('@', m, Value::Scalar(d(3))).is_err());
    assert!(
        evaluate_operation('@', Value::Scalar(d(3)), Value::column_vector(vec![d(1)])).is_err()
    );
}

#[test]
fn formula_test_matrix_mult_scalar_scalar_invalid() {
    assert!(evaluate_operation('@', Value::Scalar(d(10)), Value::Scalar(d(2))).is_err());
}

#[test]
fn formula_test_column_column_invalid() {
    let a = Value::column_vector(vec![d(1), d(2), d(3)]);
    let b = Value::column_vector(vec![d(4), d(5), d(6)]);
    assert!(evaluate_operation('@', a, b).is_err());
}

#[test]
fn formula_test_row_row_invalid() {
    let a = Value::row_vector(vec![d(1), d(2), d(3)]);
    let b = Value::row_vector(vec![d(4), d(5), d(6)]);
    assert!(evaluate_operation('@', a, b).is_err());
}

#[test]
fn formula_test_transpose_column_to_row() {
    let col = Value::column_vector(vec![d(1), d(2), d(3)]);
    let t = col.transpose().unwrap();
    assert_eq!(t, Value::row_vector(vec![d(1), d(2), d(3)]));
}

#[test]
fn formula_test_transpose_row_to_column() {
    let row = Value::row_vector(vec![d(1), d(2), d(3)]);
    let t = row.transpose().unwrap();
    assert_eq!(t, Value::column_vector(vec![d(1), d(2), d(3)]));
}

#[test]
fn formula_test_transpose_scalar_fails() {
    assert!(Value::Scalar(d(42)).transpose().is_none());
}

#[test]
fn formula_test_matrix_dimensions_in_result() {
    let row = Value::row_vector(vec![d(1), d(2), d(3)]);
    let col = Value::column_vector(vec![d(4), d(5), d(6)]);
    match evaluate_operation('@', row, col) {
        Ok(Value::Matrix { rows: 1, cols: 1, data }) => {
            assert_eq!(data.len(), 1);
            assert_eq!(data[0], d(32));
        },
        _ => panic!("Expected 1\u{d7}1 matrix result"),
    }
}

#[test]
fn formula_test_as_scalar_extraction() {
    let one_by_one = Value::Matrix { rows: 1, cols: 1, data: vec![d(42)] };
    assert_eq!(one_by_one.as_scalar(), Some(d(42)));
    let bigger = Value::Matrix { rows: 2, cols: 1, data: vec![d(1), d(2)] };
    assert_eq!(bigger.as_scalar(), None);
}
