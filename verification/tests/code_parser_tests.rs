use mdutils::code::parser::{extract_language, extract_quoted_value, is_code_fence,
    parse_document, parse_md_code_directive, parse_md_code_output_directive, validate_unique_ids};
use mdutils::code::reconstruct_document;

#[test]
fn test_is_code_fence() {
    assert!(is_code_fence("```"));
    assert!(is_code_fence("```python"));
    assert!(is_code_fence("  ```rust  "));
    assert!(!is_code_fence("code"));
    assert!(!is_code_fence("<!--"));
}

#[test]
fn test_extract_language() {
    assert_eq!(extract_language("```python"), "python");
    assert_eq!(extract_language("```rust"), "rust");
    assert_eq!(extract_language("```"), "");
    assert_eq!(extract_language("  ```  javascript  "), "javascript");
}

#[test]
fn test_parse_md_code_directive() {
    let result = parse_md_code_directive(r#"<!-- md-code: id="test"; execute; bin="python3" -->"#);
    assert!(result.is_ok());
    let directive = result.unwrap();
    assert_eq!(directive.id, "test");
    assert!(directive.execute);
    assert_eq!(directive.bin, Some("python3".to_string()));
    assert_eq!(directive.timeout, None);
}

#[test]
fn test_parse_md_code_directive_with_timeout() {
    let result = parse_md_code_directive(r#"<!-- md-code: id="test"; timeout=60 -->"#);
    assert!(result.is_ok());
    let directive = result.unwrap();
    assert_eq!(directive.id, "test");
    assert!(!directive.execute);
    assert_eq!(directive.timeout, Some(60));
}

#[test]
fn test_parse_md_code_output_directive() {
    let result = parse_md_code_output_directive(r#"<!-- md-code-output: id="test" -->"#);
    assert!(result.is_ok());
    assert_eq!(result.unwrap(), "test");
}

#[test]
fn test_extract_quoted_value() {
    assert_eq!(extract_quoted_value(r#""hello""#).unwrap(), "hello");
    assert_eq!(extract_quoted_value(r#""python3 -u""#).unwrap(), "python3 -u");
    assert!(extract_quoted_value("hello").is_err());
}

#[test]
fn test_parse_document_finds_blocks() {
    let text = "```python\nprint(1)\n```\n<!-- md-code: id=\"a\"; bin=\"python3\" -->\n";
    let (blocks, outputs) = parse_document(text).unwrap();
    assert_eq!(blocks.len(), 1);
    assert_eq!(blocks[0].language, "python");
    assert_eq!(blocks[0].content, "print(1)");
    assert_eq!(outputs.len(), 0);
}

#[test]
fn test_parse_document_unclosed_fence() {
    let text = "```python\nprint(1)\n";
    assert!(parse_document(text).is_err());
}

#[test]
fn test_validate_unique_ids_rejects_duplicates() {
    let text = "```python\na\n```\n<!-- md-code: id=\"x\" -->\n\n```python\nb\n```\n<!-- md-code: id=\"x\" -->\n";
    let (blocks, _) = parse_document(text).unwrap();
    let r = validate_unique_ids(&blocks);
    assert!(r.is_err());
    assert!(r.unwrap_err().contains("Duplicate code block id"));
}

#[test]
fn test_reconstruct_inserts_output() {
    let text = "```python\nprint(1)\n```\n<!-- md-code: id=\"a\"; bin=\"python3\" -->\n";
    let (blocks, outputs) = parse_document(text).unwrap();
    let results = vec![("a".to_string(), "1".to_string())];
    let out = reconstruct_document(text, &blocks, &outputs, &results).unwrap();
    assert!(out.contains("Output:"));
    assert!(out.contains("md-code-output: id=\"a\""));
    assert!(out.contains("\n1\n"));
}
