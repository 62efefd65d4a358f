//! Code block bookkeeping: finding fenced blocks and their directives, and
//! splicing execution output back into the document.

pub mod error;
pub mod parser;

pub use error::{CodeError, ExecutionResult};

use vstd::prelude::*;
use crate::strutil::{append_chars, chars_string, eq_chars, join_chars, lines_chars, str_chars,
    subrange_chars};
use crate::code::parser::{CodeBlock, OutputBlock, is_code_fence, is_md_code_comment,
    is_md_code_output_comment, parse_md_code_output_directive};

verus! {

/// The code block that opens at this line, if any.
pub fn find_code_block_at_line<'a>(code_blocks: &'a Vec<CodeBlock>, line: usize) -> (r: Option<
    &'a CodeBlock,
>)
{
    let mut i: usize = 0;
    while i < code_blocks.len()
        decreases code_blocks@.len() - i,
    {
        if code_blocks[i].start_line == line {
            return Some(&code_blocks[i]);
        }
        i = i + 1;
    }
    None
}

fn lookup_result<'a>(results: &'a Vec<(String, String)>, id: &String) -> (r: Option<&'a String>)
{
    let mut i: usize = 0;
    while i < results.len()
        decreases results@.len() - i,
    {
        let kv = str_chars(results[i].0.as_str());
        let idv = str_chars(id.as_str());
        if eq_chars(&kv, &idv) {
            return Some(&results[i].1);
        }
        i = i + 1;
    }
    None
}

fn contains_output_id(output_blocks: &Vec<(String, OutputBlock)>, id: &String) -> (r: bool)
{
    let mut i: usize = 0;
    while i < output_blocks.len()
        decreases output_blocks@.len() - i,
    {
        let kv = str_chars(output_blocks[i].0.as_str());
        let idv = str_chars(id.as_str());
        if eq_chars(&kv, &idv) {
            return true;
        }
        i = i + 1;
    }
    false
}

/// Splices the captured outputs back into the document: a new output block
/// after each executed code block's directive, and existing output blocks
/// replaced in place.  The trailing newline is preserved.
pub fn reconstruct_document(
    text: &str,
    code_blocks: &Vec<CodeBlock>,
    output_blocks: &Vec<(String, OutputBlock)>,
    execution_results: &Vec<(String, String)>,
) -> (r: Result<String, CodeError>)
{
    let raw = str_chars(text);
    let line_vecs = lines_chars(&raw);
    let mut line_texts: Vec<String> = Vec::new();
    let mut li: usize = 0;
    while li < line_vecs.len()
        decreases line_vecs@.len() - li,
    {
        line_texts.push(chars_string(&line_vecs[li]));
        li = li + 1;
    }
    let n = line_texts.len();
    let mut out_lines: Vec<Vec<char>> = Vec::new();
    let mut updated: Vec<(String, String)> = Vec::new();
    let mut i: usize = 0;
    while i < n
        invariant
            n == line_texts@.len(),
        decreases n - i,
    {
        let block_here = match find_code_block_at_line(code_blocks, i) {
            Some(b) => {
                if b.end_line < n && b.start_line == i && b.start_line <= b.end_line {
                    Some((b.end_line, b.directive_id_if_execute()))
                } else {
                    None
                }
            },
            None => None,
        };
        match block_here {
            Some((end_line, directive_id)) => {
                out_lines.push(str_chars(line_texts[i].as_str()));
                i = i + 1;
                let ghost i3 = i as int;
                while i <= end_line && i < n
                    invariant
                        n == line_texts@.len(),
                        i3 <= i <= n,
                    decreases n - i,
                {
                    out_lines.push(str_chars(line_texts[i].as_str()));
                    i = i + 1;
                }
                if i < n && is_md_code_comment(line_texts[i].as_str()) {
                    out_lines.push(str_chars(line_texts[i].as_str()));
                    i = i + 1;
                    match directive_id {
                        Some(id) => {
                            match lookup_result(execution_results, &id) {
                                Some(output) => {
                                    if contains_output_id(output_blocks, &id) {
                                        let ov = str_chars(output.as_str());
                                        updated.push((chars_string(&str_chars(id.as_str())),
                                            chars_string(&ov)));
                                    } else {
                                        out_lines.push(Vec::new());
                                        out_lines.push(str_chars("Output:"));
                                        out_lines.push(str_chars("```"));
                                        out_lines.push(str_chars(output.as_str()));
                                        out_lines.push(str_chars("```"));
                                        let mut d = str_chars("<!-- md-code-output: id=\"");
                                        let idv = str_chars(id.as_str());
                                        append_chars(&mut d, &idv);
                                        let tail = str_chars("\" -->");
                                        append_chars(&mut d, &tail);
                                        out_lines.push(d);
                                    }
                                },
                                None => {},
                            }
                        },
                        None => {},
                    }
                }
            },
            None => {
                if is_code_fence(line_texts[i].as_str()) {
                    let fence_start = out_lines.len();
                    out_lines.push(str_chars(line_texts[i].as_str()));
                    i = i + 1;
                    let ghost i4 = i as int;
                    while i < n && !is_code_fence(line_texts[i].as_str())
                        invariant
                            n == line_texts@.len(),
                            i4 <= i <= n,
                        decreases n - i,
                    {
                        out_lines.push(str_chars(line_texts[i].as_str()));
                        i = i + 1;
                    }
                    if i < n {
                        out_lines.push(str_chars(line_texts[i].as_str()));
                        i = i + 1;
                        if i < n && is_md_code_output_comment(line_texts[i].as_str()) {
                            match parse_md_code_output_directive(line_texts[i].as_str()) {
                                Ok(id) => {
                                    match lookup_result(&updated, &id) {
                                        Some(new_output) => {
                                            let keep = fence_start;
                                            while out_lines.len() > keep
                                                decreases out_lines@.len(),
                                            {
                                                let _ = out_lines.pop();
                                            }
                                            out_lines.push(str_chars("```"));
                                            out_lines.push(str_chars(new_output.as_str()));
                                            out_lines.push(str_chars("```"));
                                        },
                                        None => {},
                                    }
                                    out_lines.push(str_chars(line_texts[i].as_str()));
                                    i = i + 1;
                                },
                                Err(e) => {
                                    return Err(CodeError::DirectiveParseError(e));
                                },
                            }
                        }
                    }
                } else {
                    out_lines.push(str_chars(line_texts[i].as_str()));
                    i = i + 1;
                }
            },
        }
    }
    let nl = vec!['\n'];
    let mut joined = join_chars(&out_lines, &nl);
    let rl = raw.len();
    if rl > 0 && raw[rl - 1] == '\n' {
        joined.push('\n');
    }
    Ok(chars_string(&joined))
}

} // verus!
