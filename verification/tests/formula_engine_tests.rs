use mdutils::table::formula::reference::{cell_ref_to_index, parse_cell_reference,
    resolve_reference};
use mdutils::table::formula::{apply_formulas, parse_formula, Assignment, CellReference, Value};
use mdutils::table::formula::evaluator::{eval_function, evaluate_operation};
use mdutils::table::formula::evaluate_expression_value;
use mdutils::Dec;

fn s(x: &str) -> String {
    x.to_string()
}

#[test]
fn test_cell_ref_to_index() {
    assert_eq!(cell_ref_to_index("A1"), Some((2, 0))); // First data row (skips header at 0 and separator at 1)
    assert_eq!(cell_ref_to_index("B1"), Some((2, 1))); // First data row, column B
    assert_eq!(cell_ref_to_index("A2"), Some((3, 0))); // Second data row
    assert_eq!(cell_ref_to_index("D3"), Some((4, 3))); // Third data row, column D
    assert_eq!(cell_ref_to_index("Z10"), Some((11, 25))); // 10th data row, column Z
    assert_eq!(cell_ref_to_index("a1"), Some((2, 0))); // lowercase
    assert_eq!(cell_ref_to_index("A0"), None); // row 0 invalid
    assert_eq!(cell_ref_to_index("1A"), None); // wrong format
}

#[test]
fn formula_test_parse_formula() {
    assert_eq!(
        parse_formula("A1 = B1 + C1"),
        Some((Assignment::Scalar { row: 2, col: 0 }, s("B1 + C1")))
    );
    assert_eq!(
        parse_formula("D2 = B2 * C2"),
        Some((Assignment::Scalar { row: 3, col: 3 }, s("B2 * C2")))
    );
    assert_eq!(
        parse_formula("C_ = A_ + B_"),
        Some((Assignment::ColumnVector { col: 2 }, s("A_ + B_")))
    );
    assert_eq!(parse_formula("invalid"), None);
}

#[test]
fn formula_test_parse_column_vector() {
    assert_eq!(parse_cell_reference("A_"), Some(CellReference::ColumnVector { col: 0 }));
    assert_eq!(parse_cell_reference("B_"), Some(CellReference::ColumnVector { col: 1 }));
    assert_eq!(parse_cell_reference("Z_"), Some(CellReference::ColumnVector { col: 25 }));
    assert_eq!(parse_cell_reference("a_"), Some(CellReference::ColumnVector { col: 0 })); // lowercase
}

#[test]
fn formula_test_parse_row_vector() {
    assert_eq!(parse_cell_reference("_1"), Some(CellReference::RowVector { row: 1 }));
    assert_eq!(parse_cell_reference("_2"), Some(CellReference::RowVector { row: 2 }));
    assert_eq!(parse_cell_reference("_10"), Some(CellReference::RowVector { row: 10 }));
}

#[test]
fn formula_test_parse_scalar_ref() {
    assert_eq!(parse_cell_reference("A1"), Some(CellReference::Scalar { row: 2, col: 0 }));
    assert_eq!(parse_cell_reference("B2"), Some(CellReference::Scalar { row: 3, col: 1 }));
}

#[test]
fn formula_test_resolve_column_vector() {
    let rows = vec![
        vec![s("Name"), s("Value")],
        vec![s("---"), s("---")],
        vec![s("A"), s("10")],
        vec![s("B"), s("20")],
        vec![s("C"), s("30")],
    ];

    let col_ref = CellReference::ColumnVector { col: 1 };
    let result = resolve_reference(&col_ref, &rows);

    assert_eq!(
        result,
        Ok(Value::column_vector(vec![
            Dec::from_i64(10),
            Dec::from_i64(20),
            Dec::from_i64(30)
        ]))
    );
}

#[test]
fn formula_test_resolve_row_vector() {
    let rows = vec![
        vec![s("Name"), s("A"), s("B")],
        vec![s("---"), s("---"), s("---")],
        vec![s("Values"), s("10"), s("20")],
    ];

    let row_ref = CellReference::RowVector { row: 1 };
    let result = resolve_reference(&row_ref, &rows);

    // Row 1 is first data row (index 2), includes all columns
    assert_eq!(
        result,
        Ok(Value::row_vector(vec![
            Dec::zero(), // "Values" is non-numeric, treated as 0
            Dec::from_i64(10),
            Dec::from_i64(20)
        ]))
    );
}

#[test]
fn formula_test_resolve_empty_cells_as_zero() {
    let rows = vec![
        vec![s("Col")],
        vec![s("---")],
        vec![s("10")],
        vec![s("")],     // empty
        vec![s("text")], // non-numeric
        vec![s("30")],
    ];

    let col_ref = CellReference::ColumnVector { col: 0 };
    let result = resolve_reference(&col_ref, &rows);

    assert_eq!(
        result,
        Ok(Value::column_vector(vec![
            Dec::from_i64(10),
            Dec::zero(), // empty treated as 0
            Dec::zero(), // non-numeric treated as 0
            Dec::from_i64(30)
        ]))
    );
}

#[test]
fn formula_test_vector_addition() {
    // Column vector + Column vector
    let left = Value::column_vector(vec![Dec::from_i64(1), Dec::from_i64(2), Dec::from_i64(3)]);
    let right = Value::column_vector(vec![Dec::from_i64(4), Dec::from_i64(5), Dec::from_i64(6)]);

    let result = evaluate_operation('+', left, right);

    assert_eq!(
        result,
        Ok(Value::column_vector(vec![
            Dec::from_i64(5),
            Dec::from_i64(7),
            Dec::from_i64(9)
        ]))
    );
}

#[test]
fn formula_test_vector_scalar_multiply() {
    // Column vector * Scalar (broadcasting)
    let v = Value::column_vector(vec![Dec::from_i64(2), Dec::from_i64(4), Dec::from_i64(6)]);
    let scalar = Value::Scalar(Dec::from_i64(3));

    let result = evaluate_operation('*', v, scalar);

    assert_eq!(
        result,
        Ok(Value::column_vector(vec![
            Dec::from_i64(6),
            Dec::from_i64(12),
            Dec::from_i64(18)
        ]))
    );
}

#[test]
fn formula_test_broadcast_scalar() {
    // Scalar + Column vector (broadcasting)
    let scalar = Value::Scalar(Dec::from_i64(10));
    let v = Value::column_vector(vec![Dec::from_i64(1), Dec::from_i64(2), Dec::from_i64(3)]);

    let result = evaluate_operation('+', scalar, v);

    assert_eq!(
        result,
        Ok(Value::column_vector(vec![
            Dec::from_i64(11),
            Dec::from_i64(12),
            Dec::from_i64(13)
        ]))
    );
}

#[test]
fn formula_test_length_mismatch() {
    // Different length column vectors - should fail (dimensions must match for element-wise ops)
    let left = Value::column_vector(vec![Dec::from_i64(1), Dec::from_i64(2), Dec::from_i64(3)]);
    let right = Value::column_vector(vec![Dec::from_i64(10), Dec::from_i64(20)]);

    let result = evaluate_operation('+', left, right);

    // Dimensions don't match (3x1 vs 2x1), so operation fails
    assert!(result.is_err());
}

#[test]
fn formula_test_sum_vector() {
    let v = Value::column_vector(vec![Dec::from_i64(1), Dec::from_i64(2), Dec::from_i64(3)]);
    let result = eval_function("sum", v);

    assert_eq!(result, Ok(Value::Scalar(Dec::from_i64(6))));
}

#[test]
fn formula_test_sum_scalar() {
    let scalar = Value::Scalar(Dec::from_i64(42));
    let result = eval_function("sum", scalar);

    assert_eq!(result, Ok(Value::Scalar(Dec::from_i64(42))));
}

#[test]
fn formula_test_sum_empty_vector() {
    let v = Value::column_vector(vec![]);
    let result = eval_function("sum", v);

    assert_eq!(result, Ok(Value::Scalar(Dec::zero())));
}

#[test]
fn formula_test_power_operator() {
    let base = Value::Scalar(Dec::from_i64(2));
    let exp = Value::Scalar(Dec::from_i64(3));

    let result = evaluate_operation('^', base, exp);

    assert_eq!(result, Ok(Value::Scalar(Dec::from_i64(8))));
}

#[test]
fn formula_test_power_precedence() {
    // Test: 2 * 3^2 = 2 * 9 = 18
    let rows = vec![vec![s("A")], vec![s("---")]];

    let result = evaluate_expression_value("2 * 3 ^ 2", &rows);

    assert_eq!(result, Ok(Value::Scalar(Dec::from_i64(18))));
}

#[test]
fn formula_test_power_in_expression() {
    // Test: (2+3)^2 = 5^2 = 25
    let rows = vec![vec![s("A")], vec![s("---")]];

    let result = evaluate_expression_value("( 2 + 3 ) ^ 2", &rows);

    assert_eq!(result, Ok(Value::Scalar(Dec::from_i64(25))));
}

#[test]
fn formula_test_column_assignment() {
    let mut rows = vec![
        vec![s("A"), s("B"), s("C")],
        vec![s("---"), s("---"), s("---")],
        vec![s("1"), s("2"), s("0")],
        vec![s("3"), s("4"), s("0")],
    ];

    let formulas = vec![s("C_ = A_ + B_")];
    apply_formulas(&mut rows, &formulas);

    assert_eq!(rows[2][2], "3"); // 1 + 2
    assert_eq!(rows[3][2], "7"); // 3 + 4
}

#[test]
fn formula_test_vector_scalar_assignment() {
    let mut rows = vec![
        vec![s("A"), s("B")],
        vec![s("---"), s("---")],
        vec![s("10"), s("0")],
        vec![s("20"), s("0")],
    ];

    let formulas = vec![s("B_ = A_ * 0.5")];
    apply_formulas(&mut rows, &formulas);

    assert_eq!(rows[2][1], "5.0"); // 10 * 0.5
    assert_eq!(rows[3][1], "10.0"); // 20 * 0.5
}

#[test]
fn formula_test_sum_expression() {
    let mut rows = vec![
        vec![s("A"), s("Sum")],
        vec![s("---"), s("---")],
        vec![s("10"), s("0")],
        vec![s("20"), s("0")],
        vec![s("30"), s("0")],
    ];

    let formulas = vec![s("B1 = sum(A_)")];
    apply_formulas(&mut rows, &formulas);

    assert_eq!(rows[2][1], "60"); // 10 + 20 + 30
}

#[test]
fn formula_test_sum_complex_expression() {
    // Test: sum(A_ * 2)
    let mut rows = vec![
        vec![s("A"), s("Result")],
        vec![s("---"), s("---")],
        vec![s("1"), s("0")],
        vec![s("2"), s("0")],
        vec![s("3"), s("0")],
    ];

    let formulas = vec![s("B1 = sum(A_ * 2)")];
    apply_formulas(&mut rows, &formulas);

    assert_eq!(rows[2][1], "12"); // (1+2+3) * 2 = 6 * 2 = 12
}

#[test]
fn formula_test_existing_scalar_formulas_still_work() {
    // Ensure backward compatibility
    let mut rows = vec![
        vec![s("A"), s("B"), s("C")],
        vec![s("---"), s("---"), s("---")],
        vec![s("5"), s("10"), s("0")],
    ];

    let formulas = vec![s("C1 = A1 + B1")];
    apply_formulas(&mut rows, &formulas);

    assert_eq!(rows[2][2], "15");
}

#[test]
fn formula_test_row_vector_column_vector_dot_product() {
    // A square data portion so that a row times a column lines up.
    let mut rows = vec![
        vec![s("A"), s("B"), s("C")],
        vec![s("---"), s("---"), s("---")],
        vec![s("2"), s("3"), s("4")],
        vec![s("5"), s("6"), s("7")],
        vec![s("8"), s("9"), s("10")],
    ];

    // _1 = [2, 3, 4] and A_ = [2; 5; 8], so _1 @ A_ = 2*2 + 3*5 + 4*8 = 51.
    let formulas = vec![s("C1 = _1 @ A_")];
    apply_formulas(&mut rows, &formulas);

    assert_eq!(rows[2][2], "51");
}

#[test]
fn formula_test_matrix_mult_with_expression() {
    let mut rows = vec![
        vec![s("A"), s("B"), s("Result")],
        vec![s("---"), s("---"), s("---")],
        vec![s("1"), s("4"), s("0")],
        vec![s("2"), s("5"), s("0")],
        vec![s("3"), s("6"), s("0")],
    ];

    let formulas = vec![s("C1 = (A_.T @ B_) + 10")];
    let errors = apply_formulas(&mut rows, &formulas);
    assert!(errors.iter().all(|e| e.is_none()));

    assert_eq!(rows[2][2], "42"); // (1*4 + 2*5 + 3*6) + 10 = 32 + 10
}

#[test]
fn formula_test_transpose_operator_in_table() {
    let mut rows = vec![
        vec![s("A"), s("B"), s("Result")],
        vec![s("---"), s("---"), s("---")],
        vec![s("1"), s("4"), s("0")],
        vec![s("2"), s("5"), s("0")],
        vec![s("3"), s("6"), s("0")],
    ];

    let formulas = vec![s("C1 = A_.T @ B_")];
    let errors = apply_formulas(&mut rows, &formulas);
    assert!(errors.iter().all(|e| e.is_none()));

    assert_eq!(rows[2][2], "32"); // 1*4 + 2*5 + 3*6
}

#[test]
fn formula_test_multiple_formulas_with_transpose() {
    let mut rows = vec![
        vec![s("A"), s("B"), s("C")],
        vec![s("---"), s("---"), s("---")],
        vec![s("1"), s("2"), s("0")],
        vec![s("4"), s("5"), s("0")],
        vec![s("7"), s("8"), s("0")],
    ];

    // First C_ = A_ + B_ writes C1=3, C2=9, C3=15; then C1 = _1 @ A_
    // computes [1, 2, 3] @ [1; 4; 7] = 30 and overwrites C1.
    let formulas = vec![s("C_ = A_ + B_"), s("C1 = _1 @ A_")];
    apply_formulas(&mut rows, &formulas);

    assert_eq!(rows[2][2], "30"); // C1
    assert_eq!(rows[3][2], "9"); // C2
    assert_eq!(rows[4][2], "15"); // C3
}
