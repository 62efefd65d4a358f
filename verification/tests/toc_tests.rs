use mdutils::toc::parser::{generate_slug, make_unique_slug, parse_header_line, parse_headers};
use mdutils::toc::process_toc;

fn cv(s: &str) -> Vec<char> {
    s.chars().collect()
}

fn cvs(lines: &[&str]) -> Vec<Vec<char>> {
    lines.iter().map(|l| cv(l)).collect()
}

#[test]
fn test_parse_header_line() {
    let header = parse_header_line(&cv("# Hello World"), 0).unwrap();
    assert_eq!(header.level, 1);
    assert_eq!(header.text, "Hello World");

    let header = parse_header_line(&cv("## Sub Section"), 1).unwrap();
    assert_eq!(header.level, 2);
    assert_eq!(header.text, "Sub Section");

    let header = parse_header_line(&cv("### Level 3"), 2).unwrap();
    assert_eq!(header.level, 3);
    assert_eq!(header.text, "Level 3");
}

#[test]
fn test_parse_header_with_trailing_hashes() {
    let header = parse_header_line(&cv("# Hello World #"), 0).unwrap();
    assert_eq!(header.text, "Hello World");

    let header = parse_header_line(&cv("## Sub Section ##"), 1).unwrap();
    assert_eq!(header.text, "Sub Section");
}

#[test]
fn test_not_a_header() {
    assert!(parse_header_line(&cv("Not a header"), 0).is_none());
    assert!(parse_header_line(&cv(""), 0).is_none());
    assert!(parse_header_line(&cv("#"), 0).is_none()); // Empty header
    assert!(parse_header_line(&cv("####### Too many"), 0).is_none());
}

#[test]
fn test_generate_slug() {
    assert_eq!(generate_slug("Hello World"), "hello-world");
    assert_eq!(generate_slug("Test Section 1"), "test-section-1");
    assert_eq!(generate_slug("Special!@# Characters"), "special-characters");
    assert_eq!(generate_slug("Multiple   Spaces"), "multiple-spaces");
    assert_eq!(generate_slug("CamelCase"), "camelcase");
    assert_eq!(generate_slug("with_underscores"), "with_underscores");
}

#[test]
fn test_make_unique_slug() {
    let mut counts: Vec<(String, usize)> = Vec::new();

    assert_eq!(make_unique_slug("test", &mut counts), "test");
    assert_eq!(make_unique_slug("test", &mut counts), "test-1");
    assert_eq!(make_unique_slug("test", &mut counts), "test-2");
    assert_eq!(make_unique_slug("other", &mut counts), "other");
    assert_eq!(make_unique_slug("test", &mut counts), "test-3");
}

#[test]
fn test_parse_headers() {
    let lines = cvs(&[
        "# Main Header",
        "Some text",
        "## Section 1",
        "More text",
        "## Section 1", // Duplicate
        "### Subsection",
    ]);

    let headers = parse_headers(&lines, 0);

    assert_eq!(headers.len(), 4);
    assert_eq!(headers[0].text, "Main Header");
    assert_eq!(headers[0].slug, "main-header");
    assert_eq!(headers[1].text, "Section 1");
    assert_eq!(headers[1].slug, "section-1");
    assert_eq!(headers[2].text, "Section 1");
    assert_eq!(headers[2].slug, "section-1-1"); // Duplicate slug
    assert_eq!(headers[3].text, "Subsection");
    assert_eq!(headers[3].slug, "subsection");
}

#[test]
fn test_parse_headers_with_start_from() {
    let lines = cvs(&["# TOC Header", "<!-- md-toc: -->", "## Actual Content", "### Subsection"]);

    let headers = parse_headers(&lines, 2); // Start from line 2

    assert_eq!(headers.len(), 2);
    assert_eq!(headers[0].text, "Actual Content");
    assert_eq!(headers[1].text, "Subsection");
}

#[test]
fn test_skip_headers_in_code_blocks() {
    let lines = cvs(&[
        "# Real Header",
        "```markdown",
        "# Fake Header in Code",
        "## Another Fake",
        "```",
        "## Real Header 2",
    ]);

    let headers = parse_headers(&lines, 0);

    assert_eq!(headers.len(), 2);
    assert_eq!(headers[0].text, "Real Header");
    assert_eq!(headers[1].text, "Real Header 2");
}

#[test]
fn test_skip_headers_in_tilde_code_blocks() {
    let lines = cvs(&["## Header 1", "~~~", "# Should be ignored", "~~~", "## Header 2"]);

    let headers = parse_headers(&lines, 0);

    assert_eq!(headers.len(), 2);
    assert_eq!(headers[0].text, "Header 1");
    assert_eq!(headers[1].text, "Header 2");
}

#[test]
fn parser_test_multiple_code_blocks() {
    let lines = cvs(&[
        "# Header 1",
        "```",
        "# Ignore this",
        "```",
        "## Header 2",
        "```rust",
        "## Also ignore",
        "```",
        "### Header 3",
    ]);

    let headers = parse_headers(&lines, 0);

    assert_eq!(headers.len(), 3);
    assert_eq!(headers[0].text, "Header 1");
    assert_eq!(headers[1].text, "Header 2");
    assert_eq!(headers[2].text, "Header 3");
}

#[test]
fn test_nested_code_block_markers() {
    let lines = cvs(&[
        "## Header 1",
        "```",
        "Some code with ``` inside",
        "# Not a header",
        "```",
        "## Header 2",
    ]);

    let headers = parse_headers(&lines, 0);

    assert_eq!(headers.len(), 2);
    assert_eq!(headers[0].text, "Header 1");
    assert_eq!(headers[1].text, "Header 2");
}

#[test]
fn mod_test_no_toc_marker() {
    let input = "# Header\n## Subheader\n";
    let output = process_toc(input);
    assert_eq!(output, input);
}

#[test]
fn test_toc_generation_simple() {
    let input = "# Document\n<!-- md-toc: -->\n<!-- md-toc: end -->\n\n## Section 1\n### Subsection 1.1\n## Section 2\n";

    let output = process_toc(input);

    assert!(output.contains("<!-- md-toc: -->"));
    assert!(output.contains("<!-- md-toc: end -->"));
    assert!(output.contains("- [Section 1](#section-1)"));
    assert!(output.contains("  - [Subsection 1.1](#subsection-11)"));
    assert!(output.contains("- [Section 2](#section-2)"));
}

#[test]
fn test_toc_update_existing() {
    let input = "# Document\n<!-- md-toc: -->\n- [Old Section](#old-section)\n<!-- md-toc: end -->\n\n## New Section\n### New Subsection\n";

    let output = process_toc(input);

    assert!(output.contains("- [New Section](#new-section)"));
    assert!(output.contains("  - [New Subsection](#new-subsection)"));
    assert!(!output.contains("Old Section"));
}

#[test]
fn test_toc_without_end_marker() {
    let input = "# Document\n<!-- md-toc: -->\n\n## Section 1\n";

    let output = process_toc(input);

    assert!(output.contains("<!-- md-toc: end -->"));
    assert!(output.contains("- [Section 1](#section-1)"));
}
