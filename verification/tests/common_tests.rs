use mdutils::common::validate_id;

#[test]
fn test_valid_ids() {
    // Alphanumeric and underscores
    assert!(validate_id("table1").is_ok());
    assert!(validate_id("my_table").is_ok());
    assert!(validate_id("MyTable123").is_ok());
    assert!(validate_id("_table").is_ok());
    assert!(validate_id("table_").is_ok());
    assert!(validate_id("TABLE").is_ok());
    assert!(validate_id("t").is_ok());
    assert!(validate_id("_").is_ok());
    assert!(validate_id("___").is_ok());
    assert!(validate_id("a1b2c3").is_ok());

    // Whitespace is allowed
    assert!(validate_id("my table").is_ok());
    assert!(validate_id("table ").is_ok());
    assert!(validate_id(" table").is_ok());
    assert!(validate_id("my\ttable").is_ok());

    // Special characters are allowed
    assert!(validate_id("my-table").is_ok());
    assert!(validate_id("my.table").is_ok());
    assert!(validate_id("my@table").is_ok());
    assert!(validate_id("my!table").is_ok());
    assert!(validate_id("my#table").is_ok());
    assert!(validate_id("my$table").is_ok());
    assert!(validate_id("my%table").is_ok());
    assert!(validate_id("2024-sales-data").is_ok());
    assert!(validate_id("user@domain").is_ok());
    assert!(validate_id("v1.0.0").is_ok());
}

#[test]
fn test_invalid_ids_empty() {
    assert!(validate_id("").is_err());

    let err = validate_id("").unwrap_err();
    assert_eq!(err, "ID cannot be empty");
}
