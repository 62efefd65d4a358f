use mdutils::table::formula::reference::parse_cell_reference;
use mdutils::table::formula::{apply_formulas, parse_formula, parse_statement, Assignment,
    CellReference, Span, Statement};

fn s(x: &str) -> String {
    x.to_string()
}

#[test]
fn mod_test_parse_formula() {
    assert_eq!(
        parse_formula("A1 = B1 + C1"),
        Some((Assignment::Scalar { row: 2, col: 0 }, s("B1 + C1")))
    );
    assert_eq!(
        parse_formula("D2 = B2 * C2"),
        Some((Assignment::Scalar { row: 3, col: 3 }, s("B2 * C2")))
    );
    assert_eq!(
        parse_formula("C_ = A_ + B_"),
        Some((Assignment::ColumnVector { col: 2 }, s("A_ + B_")))
    );
    assert_eq!(parse_formula("invalid"), None);
}

#[test]
fn mod_test_parse_column_vector() {
    assert_eq!(parse_cell_reference("A_"), Some(CellReference::ColumnVector { col: 0 }));
    assert_eq!(parse_cell_reference("B_"), Some(CellReference::ColumnVector { col: 1 }));
    assert_eq!(parse_cell_reference("Z_"), Some(CellReference::ColumnVector { col: 25 }));
    assert_eq!(parse_cell_reference("a_"), Some(CellReference::ColumnVector { col: 0 })); // lowercase
}

#[test]
fn mod_test_parse_row_vector() {
    assert_eq!(parse_cell_reference("_1"), Some(CellReference::RowVector { row: 1 }));
    assert_eq!(parse_cell_reference("_2"), Some(CellReference::RowVector { row: 2 }));
    assert_eq!(parse_cell_reference("_10"), Some(CellReference::RowVector { row: 10 }));
}

#[test]
fn mod_test_parse_scalar_ref() {
    assert_eq!(parse_cell_reference("A1"), Some(CellReference::Scalar { row: 2, col: 0 }));
    assert_eq!(parse_cell_reference("B2"), Some(CellReference::Scalar { row: 3, col: 1 }));
}

#[test]
fn mod_test_column_assignment() {
    let mut rows = vec![
        vec![s("A"), s("B"), s("C")],
        vec![s("---"), s("---"), s("---")],
        vec![s("1"), s("2"), s("0")],
        vec![s("3"), s("4"), s("0")],
    ];

    let formulas = vec![s("C_ = A_ + B_")];
    apply_formulas(&mut rows, &formulas);

    assert_eq!(rows[2][2], "3");
    assert_eq!(rows[3][2], "7");
}

#[test]
fn mod_test_vector_scalar_assignment() {
    let mut rows = vec![
        vec![s("A"), s("B")],
        vec![s("---"), s("---")],
        vec![s("10"), s("0")],
        vec![s("20"), s("0")],
    ];

    let formulas = vec![s("B_ = A_ * 0.5")];
    apply_formulas(&mut rows, &formulas);

    assert_eq!(rows[2][1], "5.0");
    assert_eq!(rows[3][1], "10.0");
}

#[test]
fn mod_test_sum_expression() {
    let mut rows = vec![
        vec![s("A"), s("Sum")],
        vec![s("---"), s("---")],
        vec![s("10"), s("0")],
        vec![s("20"), s("0")],
        vec![s("30"), s("0")],
    ];

    let formulas = vec![s("B1 = sum(A_)")];
    apply_formulas(&mut rows, &formulas);

    assert_eq!(rows[2][1], "60");
}

#[test]
fn mod_test_sum_complex_expression() {
    let mut rows = vec![
        vec![s("A"), s("Result")],
        vec![s("---"), s("---")],
        vec![s("1"), s("0")],
        vec![s("2"), s("0")],
        vec![s("3"), s("0")],
    ];

    let formulas = vec![s("B1 = sum(A_ * 2)")];
    apply_formulas(&mut rows, &formulas);

    assert_eq!(rows[2][1], "12");
}

#[test]
fn mod_test_existing_scalar_formulas_still_work() {
    let mut rows = vec![
        vec![s("A"), s("B"), s("C")],
        vec![s("---"), s("---"), s("---")],
        vec![s("5"), s("10"), s("0")],
    ];

    let formulas = vec![s("C1 = A1 + B1")];
    apply_formulas(&mut rows, &formulas);

    assert_eq!(rows[2][2], "15");
}

#[test]
fn mod_test_row_vector_column_vector_dot_product() {
    let mut rows = vec![
        vec![s("A"), s("B"), s("C")],
        vec![s("---"), s("---"), s("---")],
        vec![s("2"), s("3"), s("4")],
        vec![s("5"), s("6"), s("7")],
        vec![s("8"), s("9"), s("10")],
    ];

    let formulas = vec![s("C1 = _1 @ A_")];
    apply_formulas(&mut rows, &formulas);

    assert_eq!(rows[2][2], "51");
}

#[test]
fn mod_test_matrix_mult_with_expression() {
    let mut rows = vec![
        vec![s("A"), s("B"), s("Result")],
        vec![s("---"), s("---"), s("---")],
        vec![s("1"), s("4"), s("0")],
        vec![s("2"), s("5"), s("0")],
        vec![s("3"), s("6"), s("0")],
    ];

    let formulas = vec![s("C1 = (A_.T @ B_) + 10")];
    let errors = apply_formulas(&mut rows, &formulas);
    assert!(errors.iter().all(|e| e.is_none()));

    assert_eq!(rows[2][2], "42");
}

#[test]
fn mod_test_transpose_operator_in_table() {
    let mut rows = vec![
        vec![s("A"), s("B"), s("Result")],
        vec![s("---"), s("---"), s("---")],
        vec![s("1"), s("4"), s("0")],
        vec![s("2"), s("5"), s("0")],
        vec![s("3"), s("6"), s("0")],
    ];

    let formulas = vec![s("C1 = A_.T @ B_")];
    let errors = apply_formulas(&mut rows, &formulas);
    assert!(errors.iter().all(|e| e.is_none()));

    assert_eq!(rows[2][2], "32");
}

#[test]
fn mod_test_multiple_formulas_with_transpose() {
    let mut rows = vec![
        vec![s("A"), s("B"), s("C")],
        vec![s("---"), s("---"), s("---")],
        vec![s("1"), s("2"), s("0")],
        vec![s("4"), s("5"), s("0")],
        vec![s("7"), s("8"), s("0")],
    ];

    let formulas = vec![s("C_ = A_ + B_"), s("C1 = _1 @ A_")];
    apply_formulas(&mut rows, &formulas);

    assert_eq!(rows[2][2], "30");
    assert_eq!(rows[3][2], "9");
    assert_eq!(rows[4][2], "15");
}

#[test]
fn test_functions_in_formulas() {
    let mut rows = vec![
        vec![s("A"), s("B"), s("C"), s("D"), s("E"), s("F")],
        vec![s("---"), s("---"), s("---"), s("---"), s("---"), s("---")],
        vec![s("10"), s("20"), s("0"), s("0"), s("0"), s("0")],
        vec![s("30"), s("40"), s("0"), s("0"), s("0"), s("0")],
        vec![s("50"), s("60"), s("0"), s("0"), s("0"), s("0")],
    ];

    let formulas = vec![
        s("C1 = avg(A_)"),   // avg([10, 30, 50]) = 30
        s("D1 = min(A_)"),   // min([10, 30, 50]) = 10
        s("E1 = max(B_)"),   // max([20, 40, 60]) = 60
        s("F1 = count(A_)"), // count([10, 30, 50]) = 3
        s("C2 = prod(A_)"),  // prod([10, 30, 50]) = 15000
    ];

    let errors = apply_formulas(&mut rows, &formulas);
    assert!(errors.iter().all(|e| e.is_none()));

    assert_eq!(rows[2][2], "30");
    assert_eq!(rows[2][3], "10");
    assert_eq!(rows[2][4], "60");
    assert_eq!(rows[2][5], "3");
    assert_eq!(rows[3][2], "15000");
}

#[test]
fn test_range_single_column() {
    let mut rows = vec![
        vec![s("A"), s("B")],
        vec![s("---"), s("---")],
        vec![s("1"), s("0")],
        vec![s("2"), s("0")],
        vec![s("3"), s("0")],
    ];

    let formulas = vec![s("B1 = sum(A1:A3)")];
    let errors = apply_formulas(&mut rows, &formulas);
    assert!(errors.iter().all(|e| e.is_none()));

    assert_eq!(rows[2][1], "6");
}

#[test]
fn test_range_single_row() {
    let mut rows = vec![
        vec![s("A"), s("B"), s("C"), s("Result")],
        vec![s("---"), s("---"), s("---"), s("---")],
        vec![s("5"), s("10"), s("15"), s("0")],
    ];

    let formulas = vec![s("D1 = sum(A1:C1)")];
    let errors = apply_formulas(&mut rows, &formulas);
    assert!(errors.iter().all(|e| e.is_none()));

    assert_eq!(rows[2][3], "30");
}

#[test]
fn test_range_matrix() {
    let mut rows = vec![
        vec![s("A"), s("B"), s("C"), s("Result")],
        vec![s("---"), s("---"), s("---"), s("---")],
        vec![s("1"), s("2"), s("3"), s("0")],
        vec![s("4"), s("5"), s("6"), s("0")],
    ];

    let formulas = vec![s("D1 = sum(A1:C2)")];
    let errors = apply_formulas(&mut rows, &formulas);
    assert!(errors.iter().all(|e| e.is_none()));

    assert_eq!(rows[2][3], "21");
}

#[test]
fn test_range_single_cell() {
    let mut rows = vec![
        vec![s("A"), s("B")],
        vec![s("---"), s("---")],
        vec![s("42"), s("0")],
    ];

    let formulas = vec![s("B1 = A1:A1")];
    let errors = apply_formulas(&mut rows, &formulas);
    assert!(errors.iter().all(|e| e.is_none()));

    assert_eq!(rows[2][1], "42");
}

#[test]
fn test_range_with_operations() {
    let mut rows = vec![
        vec![s("A"), s("B"), s("C")],
        vec![s("---"), s("---"), s("---")],
        vec![s("1"), s("10"), s("0")],
        vec![s("2"), s("20"), s("0")],
        vec![s("3"), s("30"), s("0")],
    ];

    let formulas = vec![s("C1 = sum(A1:A3 + B1:B3)")];
    let errors = apply_formulas(&mut rows, &formulas);
    assert!(errors.iter().all(|e| e.is_none()));

    assert_eq!(rows[2][2], "66");
}

#[test]
fn test_range_with_scalar_multiplication() {
    let mut rows = vec![
        vec![s("A"), s("B")],
        vec![s("---"), s("---")],
        vec![s("1"), s("0")],
        vec![s("2"), s("0")],
        vec![s("3"), s("0")],
    ];

    let formulas = vec![s("B1 = sum(A1:A3 * 2)")];
    let errors = apply_formulas(&mut rows, &formulas);
    assert!(errors.iter().all(|e| e.is_none()));

    assert_eq!(rows[2][1], "12");
}

#[test]
fn test_range_all_functions() {
    let mut rows = vec![
        vec![s("A"), s("B"), s("C"), s("D"), s("E"), s("F")],
        vec![s("---"), s("---"), s("---"), s("---"), s("---"), s("---")],
        vec![s("10"), s("0"), s("0"), s("0"), s("0"), s("0")],
        vec![s("20"), s("0"), s("0"), s("0"), s("0"), s("0")],
        vec![s("30"), s("0"), s("0"), s("0"), s("0"), s("0")],
    ];

    let formulas = vec![
        s("B1 = sum(A1:A3)"),
        s("C1 = avg(A1:A3)"),
        s("D1 = min(A1:A3)"),
        s("E1 = max(A1:A3)"),
        s("F1 = count(A1:A3)"),
    ];

    let errors = apply_formulas(&mut rows, &formulas);
    assert!(errors.iter().all(|e| e.is_none()));

    assert_eq!(rows[2][1], "60");
    assert_eq!(rows[2][2], "20");
    assert_eq!(rows[2][3], "10");
    assert_eq!(rows[2][4], "30");
    assert_eq!(rows[2][5], "3");
}

#[test]
fn test_range_matrix_multiplication() {
    let mut rows = vec![
        vec![s("A"), s("B")],
        vec![s("---"), s("---")],
        vec![s("1"), s("4")],
        vec![s("2"), s("5")],
        vec![s("3"), s("6")],
    ];

    let formulas = vec![s("A1 = A1:A3.T @ B1:B3")];
    let errors = apply_formulas(&mut rows, &formulas);
    assert!(errors.iter().all(|e| e.is_none()));

    assert_eq!(rows[2][0], "32");
}

#[test]
fn test_range_prod_function() {
    let mut rows = vec![
        vec![s("A"), s("B")],
        vec![s("---"), s("---")],
        vec![s("2"), s("0")],
        vec![s("3"), s("0")],
        vec![s("4"), s("0")],
    ];

    let formulas = vec![s("B1 = prod(A1:A3)")];
    let errors = apply_formulas(&mut rows, &formulas);
    assert!(errors.iter().all(|e| e.is_none()));

    assert_eq!(rows[2][1], "24");
}

#[test]
fn test_range_rectangular_matrix() {
    let mut rows = vec![
        vec![s("A"), s("B"), s("C")],
        vec![s("---"), s("---"), s("---")],
        vec![s("1"), s("2"), s("0")],
        vec![s("3"), s("4"), s("0")],
        vec![s("5"), s("6"), s("0")],
    ];

    let formulas = vec![s("C1 = sum(A1:B3)")];
    let errors = apply_formulas(&mut rows, &formulas);
    assert!(errors.iter().all(|e| e.is_none()));

    assert_eq!(rows[2][2], "21");
}

#[test]
fn test_range_with_empty_cells() {
    let mut rows = vec![
        vec![s("A"), s("B")],
        vec![s("---"), s("---")],
        vec![s("1"), s("0")],
        vec![s(""), s("0")],
        vec![s("3"), s("0")],
    ];

    let formulas = vec![s("B1 = sum(A1:A3)")];
    let errors = apply_formulas(&mut rows, &formulas);
    assert!(errors.iter().all(|e| e.is_none()));

    assert_eq!(rows[2][1], "4");
}

#[test]
fn test_column_range_basic() {
    let mut rows = vec![
        vec![s("A"), s("B"), s("C"), s("Sum")],
        vec![s("---"), s("---"), s("---"), s("---")],
        vec![s("1"), s("2"), s("3"), s("0")],
        vec![s("4"), s("5"), s("6"), s("0")],
        vec![s("7"), s("8"), s("9"), s("0")],
    ];

    let formulas = vec![s("D1 = sum(A_:C_)")];
    let errors = apply_formulas(&mut rows, &formulas);
    assert!(errors.iter().all(|e| e.is_none()));

    assert_eq!(rows[2][3], "45");
}

#[test]
fn test_column_range_single() {
    let mut rows = vec![
        vec![s("A"), s("B")],
        vec![s("---"), s("---")],
        vec![s("10"), s("0")],
        vec![s("20"), s("0")],
        vec![s("30"), s("0")],
    ];

    let formulas = vec![s("B1 = sum(A_:A_)")];
    let errors = apply_formulas(&mut rows, &formulas);
    assert!(errors.iter().all(|e| e.is_none()));

    assert_eq!(rows[2][1], "60");
}

#[test]
fn test_column_range_with_operations() {
    let mut rows = vec![
        vec![s("A"), s("B"), s("Result")],
        vec![s("---"), s("---"), s("---")],
        vec![s("1"), s("10"), s("0")],
        vec![s("2"), s("20"), s("0")],
        vec![s("3"), s("30"), s("0")],
    ];

    let formulas = vec![s("C1 = sum(A_:B_ * 2)")];
    let errors = apply_formulas(&mut rows, &formulas);
    assert!(errors.iter().all(|e| e.is_none()));

    assert_eq!(rows[2][2], "132");
}

#[test]
fn test_column_range_all_functions() {
    let mut rows = vec![
        vec![s("A"), s("B"), s("S"), s("Av"), s("Mn"), s("Mx"), s("C")],
        vec![s("---"), s("---"), s("---"), s("---"), s("---"), s("---"), s("---")],
        vec![s("10"), s("20"), s("0"), s("0"), s("0"), s("0"), s("0")],
        vec![s("30"), s("40"), s("0"), s("0"), s("0"), s("0"), s("0")],
    ];

    let formulas = vec![
        s("C1 = sum(A_:B_)"),
        s("D1 = avg(A_:B_)"),
        s("E1 = min(A_:B_)"),
        s("F1 = max(A_:B_)"),
        s("G1 = count(A_:B_)"),
    ];

    let errors = apply_formulas(&mut rows, &formulas);
    assert!(errors.iter().all(|e| e.is_none()));

    assert_eq!(rows[2][2], "100");
    assert_eq!(rows[2][3], "25");
    assert_eq!(rows[2][4], "10");
    assert_eq!(rows[2][5], "40");
    assert_eq!(rows[2][6], "4");
}

#[test]
fn test_row_range_basic() {
    let mut rows = vec![
        vec![s("A"), s("B"), s("C")],
        vec![s("---"), s("---"), s("---")],
        vec![s("1"), s("2"), s("3")],
        vec![s("4"), s("5"), s("6")],
        vec![s("7"), s("8"), s("9")],
        vec![s("0"), s("0"), s("0")],
    ];

    let formulas = vec![s("A4 = sum(_1:_3)")];
    let errors = apply_formulas(&mut rows, &formulas);
    assert!(errors.iter().all(|e| e.is_none()));

    assert_eq!(rows[5][0], "45");
}

#[test]
fn test_row_range_single() {
    let mut rows = vec![
        vec![s("A"), s("B"), s("C")],
        vec![s("---"), s("---"), s("---")],
        vec![s("5"), s("10"), s("15")],
        vec![s("0"), s("0"), s("0")],
    ];

    let formulas = vec![s("A2 = sum(_1:_1)")];
    let errors = apply_formulas(&mut rows, &formulas);
    assert!(errors.iter().all(|e| e.is_none()));

    assert_eq!(rows[3][0], "30");
}

#[test]
fn test_row_range_with_operations() {
    let mut rows = vec![
        vec![s("A"), s("B"), s("C")],
        vec![s("---"), s("---"), s("---")],
        vec![s("1"), s("2"), s("3")],
        vec![s("4"), s("5"), s("6")],
        vec![s("0"), s("0"), s("0")],
    ];

    let formulas = vec![s("A3 = sum(_1:_2 * 3)")];
    let errors = apply_formulas(&mut rows, &formulas);
    assert!(errors.iter().all(|e| e.is_none()));

    assert_eq!(rows[4][0], "63");
}

#[test]
fn test_row_range_all_functions() {
    let mut rows = vec![
        vec![s("A"), s("B")],
        vec![s("---"), s("---")],
        vec![s("10"), s("20")],
        vec![s("30"), s("40")],
        vec![s("0"), s("0")],
        vec![s("0"), s("0")],
        vec![s("0"), s("0")],
        vec![s("0"), s("0")],
    ];

    let formulas = vec![
        s("A3 = sum(_1:_2)"),
        s("B3 = avg(_1:_2)"),
        s("A4 = min(_1:_2)"),
        s("B4 = max(_1:_2)"),
        s("A5 = count(_1:_2)"),
    ];

    let errors = apply_formulas(&mut rows, &formulas);
    assert!(errors.iter().all(|e| e.is_none()));

    assert_eq!(rows[4][0], "100");
    assert_eq!(rows[4][1], "25");
    assert_eq!(rows[5][0], "10");
    assert_eq!(rows[5][1], "40");
    assert_eq!(rows[6][0], "4");
}

#[test]
fn test_mixed_range_types_error() {
    let mut rows = vec![
        vec![s("A"), s("B")],
        vec![s("---"), s("---")],
        vec![s("1"), s("0")],
    ];

    let formulas = vec![s("B1 = sum(A_:_5)")];
    let errors = apply_formulas(&mut rows, &formulas);

    assert!(errors.iter().any(|e| e.is_some()));
}

#[test]
fn test_column_range_equivalence_to_individual_columns() {
    let mut rows = vec![
        vec![s("A"), s("B"), s("R1"), s("R2")],
        vec![s("---"), s("---"), s("---"), s("---")],
        vec![s("1"), s("2"), s("0"), s("0")],
        vec![s("3"), s("4"), s("0"), s("0")],
        vec![s("5"), s("6"), s("0"), s("0")],
    ];

    let formulas = vec![s("C1 = sum(A_:B_)"), s("D1 = sum(A_) + sum(B_)")];

    let errors = apply_formulas(&mut rows, &formulas);
    assert!(errors.iter().all(|e| e.is_none()));

    assert_eq!(rows[2][2], rows[2][3]);
    assert_eq!(rows[2][2], "21");
}

#[test]
fn test_row_range_equivalence_to_individual_rows() {
    let mut rows = vec![
        vec![s("A"), s("B"), s("C")],
        vec![s("---"), s("---"), s("---")],
        vec![s("1"), s("2"), s("3")],
        vec![s("4"), s("5"), s("6")],
        vec![s("0"), s("0"), s("0")],
        vec![s("0"), s("0"), s("0")],
    ];

    let formulas = vec![s("A3 = sum(_1:_2)"), s("B3 = sum(_1) + sum(_2)")];

    let errors = apply_formulas(&mut rows, &formulas);
    assert!(errors.iter().all(|e| e.is_none()));

    assert_eq!(rows[4][0], rows[4][1]);
    assert_eq!(rows[4][0], "21");
}

#[test]
fn test_parse_let_statement() {
    assert_eq!(
        parse_statement("let x = 5"),
        Some((Statement::Let { name: s("x"), span: Span::new(0, 9) }, s("5")))
    );
    assert_eq!(
        parse_statement("let result = A1 + B1"),
        Some((Statement::Let { name: s("result"), span: Span::new(0, 20) }, s("A1 + B1")))
    );
    assert_eq!(
        parse_statement("let col = A_"),
        Some((Statement::Let { name: s("col"), span: Span::new(0, 12) }, s("A_")))
    );
}

#[test]
fn test_parse_let_statement_invalid() {
    // Cell reference-like names are rejected
    assert_eq!(parse_statement("let A1 = 5"), None);
    assert_eq!(parse_statement("let B_ = A_"), None);
    assert_eq!(parse_statement("let _2 = 10"), None);

    // No equals sign
    assert_eq!(parse_statement("let x"), None);

    // Empty variable name
    assert_eq!(parse_statement("let = 5"), None);
}

#[test]
fn test_let_statement_basic() {
    let mut rows = vec![
        vec![s("A"), s("B"), s("C")],
        vec![s("---"), s("---"), s("---")],
        vec![s("5"), s("10"), s("0")],
    ];

    let formulas = vec![s("let x = 15"), s("C1 = x")];

    let errors = apply_formulas(&mut rows, &formulas);
    assert_eq!(errors, vec![None, None]);
    assert_eq!(rows[2][2], "15");
}

#[test]
fn test_let_statement_with_expression() {
    let mut rows = vec![
        vec![s("A"), s("B"), s("C")],
        vec![s("---"), s("---"), s("---")],
        vec![s("5"), s("10"), s("0")],
    ];

    let formulas = vec![s("let sum = A1 + B1"), s("C1 = sum")];

    let errors = apply_formulas(&mut rows, &formulas);
    assert_eq!(errors, vec![None, None]);
    assert_eq!(rows[2][2], "15");
}

#[test]
fn test_let_statement_with_vector() {
    let mut rows = vec![
        vec![s("A"), s("B"), s("C")],
        vec![s("---"), s("---"), s("---")],
        vec![s("1"), s("2"), s("0")],
        vec![s("3"), s("4"), s("0")],
    ];

    let formulas = vec![s("let col_a = A_"), s("C_ = col_a")];

    let errors = apply_formulas(&mut rows, &formulas);
    assert_eq!(errors, vec![None, None]);
    assert_eq!(rows[2][2], "1");
    assert_eq!(rows[3][2], "3");
}

#[test]
fn test_multiple_let_statements() {
    let mut rows = vec![
        vec![s("A"), s("B"), s("C")],
        vec![s("---"), s("---"), s("---")],
        vec![s("5"), s("10"), s("0")],
    ];

    let formulas = vec![
        s("let x = A1"),
        s("let y = B1"),
        s("let result = x + y"),
        s("C1 = result"),
    ];

    let errors = apply_formulas(&mut rows, &formulas);
    assert_eq!(errors, vec![None, None, None, None]);
    assert_eq!(rows[2][2], "15");
}

#[test]
fn test_let_statement_error_undefined_variable() {
    let mut rows = vec![
        vec![s("A"), s("B"), s("C")],
        vec![s("---"), s("---"), s("---")],
        vec![s("5"), s("10"), s("0")],
    ];

    let formulas = vec![s("C1 = undefined_var")];

    let errors = apply_formulas(&mut rows, &formulas);
    assert_eq!(errors.len(), 1);
    assert!(errors[0].is_some());
    assert!(errors[0].as_ref().unwrap().contains("undefined variable"));
}

#[test]
fn test_let_statement_error_cell_reference_like_name() {
    let mut rows = vec![
        vec![s("A"), s("B")],
        vec![s("---"), s("---")],
        vec![s("5"), s("10")],
    ];

    let formulas = vec![s("let A1 = 5")];

    let errors = apply_formulas(&mut rows, &formulas);
    assert_eq!(errors.len(), 1);
    assert!(errors[0].is_some());
    assert!(errors[0].as_ref().unwrap().contains("Failed to parse statement"));
}

#[test]
fn test_variable_in_arithmetic() {
    let mut rows = vec![
        vec![s("A"), s("B"), s("C")],
        vec![s("---"), s("---"), s("---")],
        vec![s("5"), s("10"), s("0")],
    ];

    let formulas = vec![s("let factor = 2"), s("C1 = A1 * factor + B1")];

    let errors = apply_formulas(&mut rows, &formulas);
    assert_eq!(errors, vec![None, None]);
    assert_eq!(rows[2][2], "20"); // (5 * 2) + 10 = 20
}
