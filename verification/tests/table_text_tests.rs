use mdutils::table::error::FormulaError;
use mdutils::table::formula::Span;
use mdutils::table::parser::{extract_formulas_from_comment, is_separator_cell, is_table_row,
    parse_table_row};
use mdutils::table::{create_table, format_tables, parse_table_spec};

#[test]
fn test_parse_table_row() {
    assert_eq!(parse_table_row("| A | B | C |"), vec!["A", "B", "C"]);
    assert_eq!(parse_table_row("|A|B|C|"), vec!["A", "B", "C"]);
    assert_eq!(parse_table_row("  | A | B |  "), vec!["A", "B"]);
}

#[test]
fn test_is_table_row() {
    assert!(is_table_row("| Header 1 | Header 2 |"));
    assert!(is_table_row("|---|---|"));
    assert!(is_table_row("| Data | More Data |"));
    assert!(is_table_row("  | Indented | Table |  "));

    assert!(!is_table_row("Not a table"));
    assert!(!is_table_row("| Only one pipe"));
    assert!(!is_table_row(""));
    assert!(!is_table_row("# Header"));
}

#[test]
fn test_is_separator_cell() {
    assert!(is_separator_cell("---"));
    assert!(is_separator_cell(":---"));
    assert!(is_separator_cell("---:"));
    assert!(is_separator_cell(":---:"));
    assert!(!is_separator_cell("data"));
    assert!(!is_separator_cell(""));
}

#[test]
fn test_extract_formulas_from_comment() {
    // Formulas only (no ID)
    let (id, formulas) = extract_formulas_from_comment("<!-- md-table: A1 = B1 + C1 -->").unwrap();
    assert_eq!(id, None);
    assert_eq!(formulas, vec!["A1 = B1 + C1"]);

    let (id, formulas) = extract_formulas_from_comment("<!-- md-table: A1 = 5; B1 = 10 -->")
        .unwrap();
    assert_eq!(id, None);
    assert_eq!(formulas, vec!["A1 = 5", "B1 = 10"]);

    let (id, formulas) = extract_formulas_from_comment("<!-- A1 = B1 + C1 -->").unwrap();
    assert_eq!(id, None);
    assert_eq!(formulas, vec!["A1 = B1 + C1"]);
}

#[test]
fn test_extract_formulas_with_id() {
    let (id, formulas) =
        extract_formulas_from_comment("<!-- md-table: id=\"sales_data\"; A1 = B1 + C1 -->")
            .unwrap();
    assert_eq!(id, Some("sales_data".to_string()));
    assert_eq!(formulas, vec!["A1 = B1 + C1"]);

    let (id, formulas) =
        extract_formulas_from_comment("<!-- md-table: id=\"my_table\"; A1 = 5; B1 = 10 -->")
            .unwrap();
    assert_eq!(id, Some("my_table".to_string()));
    assert_eq!(formulas, vec!["A1 = 5", "B1 = 10"]);

    // ID only (no formulas)
    let (id, formulas) = extract_formulas_from_comment("<!-- md-table: id=\"table1\" -->")
        .unwrap();
    assert_eq!(id, Some("table1".to_string()));
    assert_eq!(formulas.len(), 0);
}

#[test]
fn test_extract_formulas_id_validation() {
    // Whitespace is allowed
    assert!(extract_formulas_from_comment("<!-- md-table: id=\"my table\" -->").is_ok());

    // Special characters are allowed
    assert!(extract_formulas_from_comment("<!-- md-table: id=\"my-table\" -->").is_ok());
    assert!(extract_formulas_from_comment("<!-- md-table: id=\"my.table\" -->").is_ok());
    assert!(extract_formulas_from_comment("<!-- md-table: id=\"2024-sales\" -->").is_ok());

    // Invalid ID - missing quotes
    assert!(extract_formulas_from_comment("<!-- md-table: id=mytable -->").is_err());

    // Empty ID
    assert!(extract_formulas_from_comment("<!-- md-table: id=\"\" -->").is_err());
}

#[test]
fn test_error_with_context_single_char() {
    let error = FormulaError::RuntimeError("invalid operator".to_string());
    let expression = "A1 + B2 @ C3";
    let span = Span::new(8, 9); // Points to '@'

    let result = error.with_context(expression, span);

    assert!(result.contains("A1 + B2 @ C3"));
    assert!(result.contains("        ^")); // 8 spaces then caret
}

#[test]
fn test_error_with_context_multi_char() {
    let error = FormulaError::RuntimeError("invalid cell reference".to_string());
    let expression = "A1 + ZZ99 * C3";
    let span = Span::new(5, 9); // Points to "ZZ99"

    let result = error.with_context(expression, span);

    assert!(result.contains("A1 + ZZ99 * C3"));
    assert!(result.contains("     ^^^^")); // 5 spaces then 4 carets
}

#[test]
fn test_error_with_context_at_start() {
    let error = FormulaError::RuntimeError("invalid token".to_string());
    let expression = "@ + B2";
    let span = Span::new(0, 1);

    let result = error.with_context(expression, span);

    assert!(result.contains("@ + B2"));
    assert!(result.contains("^"));
}

#[test]
fn test_format_single_table() {
    let input = "# Document Title\n\nSome text before the table.\n\n| Name | Age |\n|------|-----|\n| John | 30  |\n| Jane | 25  |\n\nSome text after the table.";

    let output = format_tables(input);

    assert!(output.contains("# Document Title"));
    assert!(output.contains("Some text before the table."));
    assert!(output.contains("Some text after the table."));
    assert!(output.contains("Name"));
    assert!(output.contains("Age"));
    assert!(output.contains("John"));
    assert!(output.contains("Jane"));
    assert!(output.lines().any(|line| line.trim().starts_with("| Name")));
}

#[test]
fn test_format_multiple_tables() {
    let input = "First table:\n\n| Col1 | Col2 |\n|------|------|\n| A    | B    |\n\nSome text in between.\n\n| Col3 | Col4 |\n|------|------|\n| C    | D    |";

    let output = format_tables(input);

    assert!(output.contains("First table:"));
    assert!(output.contains("Some text in between."));
    assert!(output.contains("Col1"));
    assert!(output.contains("Col2"));
    assert!(output.contains("Col3"));
    assert!(output.contains("Col4"));
    assert!(output.contains("A"));
    assert!(output.contains("B"));
    assert!(output.contains("C"));
    assert!(output.contains("D"));
}

#[test]
fn test_no_tables() {
    let input = "# Just a document\n\nWith some text but no tables.\n\n- List item 1\n- List item 2";

    let output = format_tables(input);
    assert_eq!(output, input);
}

#[test]
fn test_table_alignment() {
    let input = "| A | B |\n|---|---|\n| Short | VeryLongContent |";
    let output = format_tables(input);

    assert!(output.contains("VeryLongContent"));
    let lines: Vec<&str> = output.lines().collect();
    assert_eq!(lines.len(), 3);
}

#[test]
fn test_empty_input() {
    let output = format_tables("");
    assert_eq!(output, "");
}

#[test]
fn test_table_at_end_of_file() {
    let input = "Some text.\n\n| Header |\n|--------|\n| Data   |";

    let output = format_tables(input);
    assert!(output.contains("Some text."));
    assert!(output.contains("Header"));
    assert!(output.contains("Data"));
    assert!(output.lines().any(|line| line.trim().starts_with("| Header")));
}

#[test]
fn test_table_with_formulas() {
    let input = "| A | B | C |\n|---|---|---|\n| 5 | 10 | 0 |\n<!-- md-table: C1 = A1 + B1 -->";

    let output = format_tables(input);
    assert!(output.contains("15"));
}

#[test]
fn test_table_with_multiple_formulas() {
    let input = "| Item | Price | Quantity | Total |\n|---|---|---|---|\n| Apple | 1.50 | 10 | 0 |\n| Banana | 0.75 | 20 | 0 |\n| Orange | 2.00 | 5 | 0 |\n<!-- md-table: D1 = B1 * C1; D2 = B2 * C2; D3 = B3 * C3 -->";

    let output = format_tables(input);
    assert!(output.contains("15")); // 1.50 * 10
    assert!(output.contains("10")); // 2.00 * 5
}

#[test]
fn test_table_with_vector_formulas() {
    let input = "| Product | Base | Tax | Total |\n|---|---|---|---|\n| Laptop | 1000 | 0 | 0 |\n| Mouse | 50 | 0 | 0 |\n| Keyboard | 150 | 0 | 0 |\n<!-- md-table: C_ = B_ * 0.08; D_ = B_ + C_ -->";

    let output = format_tables(input);

    assert!(output.contains("80")); // 1000 * 0.08
    assert!(output.contains("1080")); // 1000 + 80
    assert!(output.contains("4")); // 50 * 0.08
    assert!(output.contains("54")); // 50 + 4
    assert!(output.contains("12")); // 150 * 0.08
    assert!(output.contains("162")); // 150 + 12
}

#[test]
fn test_table_with_sum_function() {
    let input = "| Item | Price | Quantity | Total |\n|---|---|---|---|\n| A | 10 | 5 | 0 |\n| B | 20 | 3 | 0 |\n| C | 15 | 2 | 0 |\n| TOTAL | 0 | 0 | 0 |\n<!-- md-table: D_ = B_ * C_; A4 = sum(B_); B4 = sum(C_); D4 = sum(D_) -->";

    let output = format_tables(input);

    assert!(output.contains("| A    | 10    | 5        | 50"));
    assert!(output.contains("| B    | 20    | 3        | 60"));
    assert!(output.contains("| C    | 15    | 2        | 30"));
    assert!(output.contains("| 45   | 10    | 0        | 140"));
}

#[test]
fn test_table_with_exponentiation() {
    let input = "| Base | Squared |\n|---|---|\n| 2 | 0 |\n| 3 | 0 |\n| 4 | 0 |\n<!-- md-table: B_ = A_ ^ 2 -->";

    let output = format_tables(input);

    assert!(output.contains("| 2    | 4"));
    assert!(output.contains("| 3    | 9"));
    assert!(output.contains("| 4    | 16"));
}

#[test]
fn test_create_table_shape() {
    let t = create_table(2, 3);
    let lines: Vec<&str> = t.lines().collect();
    assert_eq!(lines.len(), 4); // header + separator + 2 data rows
    assert!(lines[1].contains("---"));
    assert_eq!(create_table(0, 3), "");
    assert_eq!(create_table(2, 0), "");
}

#[test]
fn test_parse_table_spec_ok() {
    assert_eq!(parse_table_spec("table:2:3"), Ok((2, 3)));
    assert!(parse_table_spec("table:0:3").is_err());
    assert!(parse_table_spec("table:2").is_err());
    assert!(parse_table_spec("grid:2:3").is_err());
    assert!(parse_table_spec("table:x:3").is_err());
}
