use mdutils::table::formula::tokenizer::tokenize_expression;

#[test]
fn test_tokenize_with_spans() {
    let tokens = tokenize_expression("A1 + B2");

    assert_eq!(tokens.len(), 3);
    assert_eq!(tokens[0].value, "A1");
    assert_eq!(tokens[1].value, "+");
    assert_eq!(tokens[2].value, "B2");

    assert_eq!(tokens[0].span.start, 0);
    assert_eq!(tokens[0].span.end, 2); // "A1"

    assert_eq!(tokens[1].span.start, 3);
    assert_eq!(tokens[1].span.end, 4); // "+"

    assert_eq!(tokens[2].span.start, 5);
    assert_eq!(tokens[2].span.end, 7); // "B2"
}

#[test]
fn test_tokenize_with_multiple_operators() {
    let tokens = tokenize_expression("A1 + B2 * C3");

    assert_eq!(tokens.len(), 5);
    assert_eq!(tokens[0].value, "A1");
    assert_eq!(tokens[1].value, "+");
    assert_eq!(tokens[2].value, "B2");
    assert_eq!(tokens[3].value, "*");
    assert_eq!(tokens[4].value, "C3");

    assert_eq!(tokens[3].span.start, 8);
    assert_eq!(tokens[3].span.end, 9);
}

#[test]
fn test_tokenize_decimal_number() {
    let tokens = tokenize_expression("3.14 + 2.5");

    assert_eq!(tokens.len(), 3);
    assert_eq!(tokens[0].value, "3.14");
    assert_eq!(tokens[1].value, "+");
    assert_eq!(tokens[2].value, "2.5");

    assert_eq!(tokens[0].span.start, 0);
    assert_eq!(tokens[0].span.end, 4); // "3.14"

    assert_eq!(tokens[2].span.start, 7);
    assert_eq!(tokens[2].span.end, 10); // "2.5"
}

#[test]
fn test_tokenize_transpose_suffix() {
    let tokens = tokenize_expression("A_.T @ B_");
    let values: Vec<&str> = tokens.iter().map(|t| t.value.as_str()).collect();
    assert_eq!(values, vec!["A_", ".", "T", "@", "B_"]);
}
