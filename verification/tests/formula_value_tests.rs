use mdutils::table::formula::evaluator::{eval_function, evaluate_operation};
use mdutils::table::formula::Value;
use mdutils::Dec;

fn d(v: i64) -> Dec {
    Dec::from_i64(v)
}

#[test]
fn test_dot_product_row_times_column() {
    // (1x3) @ (3x1) = scalar-shaped (1x1)
    let row = Value::row_vector(vec![d(1), d(2), d(3)]);
    let col = Value::column_vector(vec![d(4), d(5), d(6)]);

    let result = evaluate_operation('@', row, col);

    assert_eq!(
        result,
        Ok(Value::Matrix { rows: 1, cols: 1, data: vec![d(32)] })
    );
}

#[test]
fn test_dot_product_dimension_mismatch() {
    let row = Value::row_vector(vec![d(1), d(2)]);
    let col = Value::column_vector(vec![d(4), d(5), d(6)]);

    let result = evaluate_operation('@', row, col);
    assert!(result.is_err());
}

#[test]
fn test_matrix_mult_scalar_not_supported() {
    let m = Value::column_vector(vec![d(1), d(2)]);
    let scalar = Value::Scalar(d(3));

    assert!(evaluate_operation('@', m, Value::Scalar(d(3))).is_err());
    assert!(evaluate_operation('@', scalar, Value::column_vector(vec![d(1)])).is_err());
}

#[test]
fn test_matrix_mult_scalar_scalar_invalid() {
    let result = evaluate_operation('@', Value::Scalar(d(10)), Value::Scalar(d(2)));
    assert!(result.is_err());
}

#[test]
fn test_column_column_invalid() {
    // (3x1) @ (3x1): inner dimensions 1 and 3 do not match
    let a = Value::column_vector(vec![d(1), d(2), d(3)]);
    let b = Value::column_vector(vec![d(4), d(5), d(6)]);

    let result = evaluate_operation('@', a, b);
    assert!(result.is_err());
}

#[test]
fn test_row_row_invalid() {
    // (1x3) @ (1x3): inner dimensions 3 and 1 do not match
    let a = Value::row_vector(vec![d(1), d(2), d(3)]);
    let b = Value::row_vector(vec![d(4), d(5), d(6)]);

    let result = evaluate_operation('@', a, b);
    assert!(result.is_err());
}

#[test]
fn test_transpose_column_to_row() {
    let col = Value::column_vector(vec![d(1), d(2), d(3)]);
    let t = col.transpose().unwrap();
    assert_eq!(t, Value::row_vector(vec![d(1), d(2), d(3)]));
}

#[test]
fn test_transpose_row_to_column() {
    let row = Value::row_vector(vec![d(1), d(2), d(3)]);
    let t = row.transpose().unwrap();
    assert_eq!(t, Value::column_vector(vec![d(1), d(2), d(3)]));
}

#[test]
fn test_transpose_scalar_fails() {
    let scalar = Value::Scalar(d(42));
    assert!(scalar.transpose().is_none());
}

#[test]
fn test_matrix_dimensions_in_result() {
    let row = Value::row_vector(vec![d(1), d(2), d(3)]);
    let col = Value::column_vector(vec![d(4), d(5), d(6)]);

    let result = evaluate_operation('@', row, col);

    match result {
        Ok(Value::Matrix { rows: 1, cols: 1, data }) => {
            assert_eq!(data.len(), 1);
            assert_eq!(data[0], d(32));
        },
        _ => panic!("Expected 1\u{d7}1 matrix result"),
    }
}

#[test]
fn test_as_scalar_extraction() {
    let one_by_one = Value::Matrix { rows: 1, cols: 1, data: vec![d(42)] };
    assert_eq!(one_by_one.as_scalar(), Some(d(42)));

    let bigger = Value::Matrix { rows: 2, cols: 1, data: vec![d(1), d(2)] };
    assert_eq!(bigger.as_scalar(), None);
}

#[test]
fn test_avg_vector() {
    let v = Value::column_vector(vec![d(10), d(20), d(30)]);
    let result = eval_function("avg", v).unwrap();
    assert!(result.num_eq(&Value::Scalar(d(20))));
}

#[test]
fn test_avg_scalar() {
    let scalar = Value::Scalar(d(42));
    let result = eval_function("avg", scalar);
    assert_eq!(result, Ok(Value::Scalar(d(42))));
}

#[test]
fn test_avg_empty_vector() {
    let v = Value::column_vector(vec![]);
    let result = eval_function("avg", v);
    assert_eq!(result, Ok(Value::Scalar(Dec::zero())));
}

#[test]
fn test_avg_matrix() {
    // 2x2 matrix: [[1, 2], [3, 4]]; average is 2.5
    let matrix = Value::Matrix { rows: 2, cols: 2, data: vec![d(1), d(2), d(3), d(4)] };
    let result = eval_function("avg", matrix).unwrap();
    assert!(result.num_eq(&Value::Scalar(Dec::new_checked(25, 1).unwrap())));
}

#[test]
fn test_min_vector() {
    let v = Value::column_vector(vec![d(30), d(10), d(20)]);
    let result = eval_function("min", v);
    assert_eq!(result, Ok(Value::Scalar(d(10))));
}

#[test]
fn test_min_scalar() {
    let result = eval_function("min", Value::Scalar(d(42)));
    assert_eq!(result, Ok(Value::Scalar(d(42))));
}

#[test]
fn test_min_empty_vector() {
    let result = eval_function("min", Value::column_vector(vec![]));
    assert_eq!(result, Ok(Value::Scalar(Dec::zero())));
}

#[test]
fn test_min_with_negatives() {
    let v = Value::column_vector(vec![d(5), d(-3), d(10)]);
    let result = eval_function("min", v);
    assert_eq!(result, Ok(Value::Scalar(d(-3))));
}

#[test]
fn test_max_vector() {
    let v = Value::column_vector(vec![d(30), d(10), d(20)]);
    let result = eval_function("max", v);
    assert_eq!(result, Ok(Value::Scalar(d(30))));
}

#[test]
fn test_max_scalar() {
    let result = eval_function("max", Value::Scalar(d(42)));
    assert_eq!(result, Ok(Value::Scalar(d(42))));
}

#[test]
fn test_max_empty_vector() {
    let result = eval_function("max", Value::column_vector(vec![]));
    assert_eq!(result, Ok(Value::Scalar(Dec::zero())));
}

#[test]
fn test_max_with_negatives() {
    let v = Value::column_vector(vec![d(-5), d(-3), d(-10)]);
    let result = eval_function("max", v);
    assert_eq!(result, Ok(Value::Scalar(d(-3))));
}

#[test]
fn test_count_vector() {
    let v = Value::column_vector(vec![d(10), d(20), d(30)]);
    let result = eval_function("count", v);
    assert_eq!(result, Ok(Value::Scalar(d(3))));
}

#[test]
fn test_count_scalar() {
    let result = eval_function("count", Value::Scalar(d(42)));
    assert_eq!(result, Ok(Value::Scalar(Dec::one())));
}

#[test]
fn test_count_empty_vector() {
    let result = eval_function("count", Value::column_vector(vec![]));
    assert_eq!(result, Ok(Value::Scalar(Dec::zero())));
}

#[test]
fn test_count_matrix() {
    let matrix = Value::Matrix {
        rows: 2,
        cols: 3,
        data: vec![d(1), d(2), d(3), d(4), d(5), d(6)],
    };
    let result = eval_function("count", matrix);
    assert_eq!(result, Ok(Value::Scalar(d(6))));
}

#[test]
fn test_prod_vector() {
    let v = Value::column_vector(vec![d(2), d(3), d(4)]);
    let result = eval_function("prod", v);
    assert_eq!(result, Ok(Value::Scalar(d(24))));
}

#[test]
fn test_prod_scalar() {
    let result = eval_function("prod", Value::Scalar(d(42)));
    assert_eq!(result, Ok(Value::Scalar(d(42))));
}

#[test]
fn test_prod_empty_vector() {
    let result = eval_function("prod", Value::column_vector(vec![]));
    assert_eq!(result, Ok(Value::Scalar(Dec::one())));
}

#[test]
fn test_prod_with_zero() {
    let v = Value::column_vector(vec![d(5), Dec::zero(), d(10)]);
    let result = eval_function("prod", v).unwrap();
    assert!(result.num_eq(&Value::Scalar(Dec::zero())));
}

// Scenario: a division by zero fails the formula and leaves the target
// cell untouched.
#[test]
fn test_division_by_zero_leaves_cell() {
    let mut rows = vec![
        vec!["A".to_string(), "B".to_string()],
        vec!["---".to_string(), "---".to_string()],
        vec!["5".to_string(), "7".to_string()],
    ];
    let formulas = vec!["B1 = A1 / 0".to_string()];
    let errors = mdutils::table::formula::apply_formulas(&mut rows, &formulas);
    assert_eq!(errors.len(), 1);
    assert!(errors[0].as_ref().unwrap().contains("division by zero"));
    assert_eq!(rows[2][1], "7");
}

// Scenario: a dot product written through the transpose operator.
#[test]
fn test_dot_product_scenario() {
    let mut rows = vec![
        vec!["A".to_string(), "B".to_string(), "C".to_string()],
        vec!["---".to_string(), "---".to_string(), "---".to_string()],
        vec!["1".to_string(), "2".to_string(), "0".to_string()],
        vec!["3".to_string(), "4".to_string(), "0".to_string()],
        vec!["5".to_string(), "6".to_string(), "0".to_string()],
    ];
    let formulas = vec!["C1 = A_.T @ B_".to_string()];
    let errors = mdutils::table::formula::apply_formulas(&mut rows, &formulas);
    assert!(errors.iter().all(|e| e.is_none()));
    assert_eq!(rows[2][2], "44"); // 1*2 + 3*4 + 5*6
}

// Scenario: sum then avg of one column, written to the same cell.
#[test]
fn test_sum_then_avg_scenario() {
    let mut rows = vec![
        vec!["A".to_string(), "B".to_string()],
        vec!["---".to_string(), "---".to_string()],
        vec!["10".to_string(), "0".to_string()],
        vec!["20".to_string(), "0".to_string()],
        vec!["30".to_string(), "0".to_string()],
    ];
    let errors = mdutils::table::formula::apply_formulas(
        &mut rows,
        &vec!["B1 = sum(A_)".to_string()],
    );
    assert!(errors.iter().all(|e| e.is_none()));
    assert_eq!(rows[2][1], "60");
    let errors2 = mdutils::table::formula::apply_formulas(
        &mut rows,
        &vec!["B1 = avg(A_)".to_string()],
    );
    assert!(errors2.iter().all(|e| e.is_none()));
    assert_eq!(rows[2][1], "20");
}

// Scenario: an element-wise column sum.
#[test]
fn test_columnwise_sum_scenario() {
    let mut rows = vec![
        vec!["A".to_string(), "B".to_string(), "C".to_string()],
        vec!["---".to_string(), "---".to_string(), "---".to_string()],
        vec!["1".to_string(), "2".to_string(), "0".to_string()],
        vec!["4".to_string(), "5".to_string(), "0".to_string()],
        vec!["7".to_string(), "8".to_string(), "0".to_string()],
    ];
    let formulas = vec!["C_ = A_ + B_".to_string()];
    let errors = mdutils::table::formula::apply_formulas(&mut rows, &formulas);
    assert!(errors.iter().all(|e| e.is_none()));
    assert_eq!(rows[2][2], "3");
    assert_eq!(rows[3][2], "9");
    assert_eq!(rows[4][2], "15");
}

// Scenario: a variable may be bound, but a name that reads as a cell
// reference may not; the first statement still succeeds.
#[test]
fn test_let_then_shadowing_name_scenario() {
    let mut rows = vec![
        vec!["A".to_string()],
        vec!["---".to_string()],
        vec!["5".to_string()],
    ];
    let formulas = vec!["let x = A1".to_string(), "let A1 = 5".to_string()];
    let errors = mdutils::table::formula::apply_formulas(&mut rows, &formulas);
    assert_eq!(errors.len(), 2);
    assert!(errors[0].is_none());
    assert!(errors[1].is_some());
    assert!(errors[1].as_ref().unwrap().contains("Failed to parse statement"));
}

// The written cell text survives a round trip through the decimal parser:
// re-running the same formula leaves the grid unchanged.
#[test]
fn test_rerun_same_formula_is_stable() {
    let mut rows = vec![
        vec!["A".to_string(), "B".to_string()],
        vec!["---".to_string(), "---".to_string()],
        vec!["2".to_string(), "0".to_string()],
        vec!["3".to_string(), "0".to_string()],
    ];
    let formulas = vec!["B_ = A_ * 0.5".to_string()];
    let e1 = mdutils::table::formula::apply_formulas(&mut rows, &formulas);
    let snapshot = rows.clone();
    let e2 = mdutils::table::formula::apply_formulas(&mut rows, &formulas);
    assert_eq!(e1, e2);
    assert_eq!(rows, snapshot);
}

// The decimal wrappers really compute: a sum over parsed cells is not any
// of its inputs.
#[test]
fn test_wrapper_arithmetic_really_computes() {
    let a = Dec::from_i64(12);
    let b = Dec::from_i64(30);
    let sum = eval_function("sum", Value::column_vector(vec![a, b])).unwrap();
    assert_eq!(sum, Value::Scalar(Dec::from_i64(42)));
}
