use mdutils::done::process_done_with_timestamp;

const TEST_TIMESTAMP: &str = "2024-01-15 14:30:00";

#[test]
fn test_unchecked_item() {
    let input = "- [ ] Buy groceries";
    let output = process_done_with_timestamp(input, TEST_TIMESTAMP);
    assert_eq!(output, "- [x] ~~Buy groceries~~ `COMPLETED: 2024-01-15 14:30:00`");
}

#[test]
fn test_checked_item_unchanged() {
    let input = "- [x] Walk the dog";
    let output = process_done_with_timestamp(input, TEST_TIMESTAMP);
    assert_eq!(output, input);
}

#[test]
fn test_uppercase_x_unchanged() {
    let input = "- [X] Task with uppercase";
    let output = process_done_with_timestamp(input, TEST_TIMESTAMP);
    assert_eq!(output, input);
}

#[test]
fn test_already_strikethrough() {
    let input = "- [x] ~~Already done~~ `COMPLETED: 2024-01-01 10:00:00`";
    let output = process_done_with_timestamp(input, TEST_TIMESTAMP);
    assert_eq!(output, input);
}

#[test]
fn test_indented_item() {
    let input = "  - [ ] Nested task";
    let output = process_done_with_timestamp(input, TEST_TIMESTAMP);
    assert_eq!(output, "  - [x] ~~Nested task~~ `COMPLETED: 2024-01-15 14:30:00`");
}

#[test]
fn test_deeply_nested() {
    let input = "      - [ ] Very nested";
    let output = process_done_with_timestamp(input, TEST_TIMESTAMP);
    assert_eq!(output, "      - [x] ~~Very nested~~ `COMPLETED: 2024-01-15 14:30:00`");
}

#[test]
fn test_non_checklist_line() {
    let input = "This is regular text";
    let output = process_done_with_timestamp(input, TEST_TIMESTAMP);
    assert_eq!(output, input);
}

#[test]
fn test_bullet_without_checkbox() {
    let input = "- Regular bullet point";
    let output = process_done_with_timestamp(input, TEST_TIMESTAMP);
    assert_eq!(output, input);
}

#[test]
fn test_multiple_lines() {
    let input = "- [ ] Task 1\n- [x] Task 2\n- [ ] Task 3\n";
    let output = process_done_with_timestamp(input, TEST_TIMESTAMP);
    assert!(output.contains("- [x] ~~Task 1~~ `COMPLETED: 2024-01-15 14:30:00`"));
    assert!(output.contains("- [x] Task 2"));
    assert!(output.contains("- [x] ~~Task 3~~ `COMPLETED: 2024-01-15 14:30:00`"));
}

#[test]
fn mod_test_mixed_content() {
    let input = "# Header\n- [ ] Task\n\nSome text\n- Regular bullet\n";
    let output = process_done_with_timestamp(input, TEST_TIMESTAMP);
    assert!(output.contains("# Header"));
    assert!(output.contains("- [x] ~~Task~~ `COMPLETED: 2024-01-15 14:30:00`"));
    assert!(output.contains("Some text"));
    assert!(output.contains("- Regular bullet"));
}

#[test]
fn test_empty_checklist_item() {
    let input = "- [ ]";
    let output = process_done_with_timestamp(input, TEST_TIMESTAMP);
    assert_eq!(output, "- [x] ~~~~ `COMPLETED: 2024-01-15 14:30:00`");
}

#[test]
fn test_preserves_trailing_newline() {
    let input = "- [ ] Task\n";
    let output = process_done_with_timestamp(input, TEST_TIMESTAMP);
    assert!(output.ends_with('\n'));
}

#[test]
fn test_no_trailing_newline() {
    let input = "- [ ] Task";
    let output = process_done_with_timestamp(input, TEST_TIMESTAMP);
    assert!(!output.ends_with('\n'));
}

#[test]
fn test_idempotency() {
    let input = "- [ ] Task\n";
    let output1 = process_done_with_timestamp(input, TEST_TIMESTAMP);
    let output2 = process_done_with_timestamp(&output1, TEST_TIMESTAMP);
    assert_eq!(output1, output2, "process_done should be idempotent");
}

#[test]
fn test_tab_indentation() {
    let input = "\t- [ ] Tab indented";
    let output = process_done_with_timestamp(input, TEST_TIMESTAMP);
    assert_eq!(output, "\t- [x] ~~Tab indented~~ `COMPLETED: 2024-01-15 14:30:00`");
}

#[test]
fn test_code_block_passthrough() {
    let input = "- [ ] Real task\n```\n- [ ] Fake task in code\n```\n- [ ] Another real task\n";
    let output = process_done_with_timestamp(input, TEST_TIMESTAMP);
    assert!(output.contains("- [x] ~~Real task~~ `COMPLETED: 2024-01-15 14:30:00`"));
    assert!(output.contains("- [ ] Fake task in code"));
    assert!(output.contains("- [x] ~~Another real task~~ `COMPLETED: 2024-01-15 14:30:00`"));
}

#[test]
fn test_tilde_code_block_passthrough() {
    let input = "- [ ] Real task\n~~~\n- [ ] Fake task\n~~~\n";
    let output = process_done_with_timestamp(input, TEST_TIMESTAMP);
    assert!(output.contains("- [x] ~~Real task~~ `COMPLETED: 2024-01-15 14:30:00`"));
    assert!(output.contains("- [ ] Fake task"));
}
