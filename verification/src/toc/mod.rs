//! Table of contents generation from markdown headers.

pub mod parser;

use vstd::prelude::*;
use crate::strutil::{append_chars, chars_string, eq_chars, join_chars, lines_chars, repeat_char,
    str_chars, subrange_chars, trim_chars};
use crate::toc::parser::{Header, parse_headers};

verus! {

/// The marker line that starts the generated block.
fn toc_start_marker() -> (r: Vec<char>) {
    str_chars("<!-- md-toc: -->")
}

/// The marker line that ends the generated block.
fn toc_end_marker() -> (r: Vec<char>) {
    str_chars("<!-- md-toc: end -->")
}

/// The link lines of the contents: one per header, indented two spaces per
/// level below the shallowest.
fn generate_toc(headers: &Vec<Header>) -> (r: Vec<Vec<char>>)
{
    let mut toc_lines: Vec<Vec<char>> = Vec::new();
    if headers.len() == 0 {
        return toc_lines;
    }
    let mut min_level: usize = headers[0].level;
    let mut i: usize = 0;
    while i < headers.len()
        decreases headers@.len() - i,
    {
        if headers[i].level < min_level {
            min_level = headers[i].level;
        }
        i = i + 1;
    }
    let mut j: usize = 0;
    while j < headers.len()
        decreases headers@.len() - j,
    {
        let h = &headers[j];
        let indent_level = if h.level >= min_level {
            h.level - min_level
        } else {
            0
        };
        let mut line: Vec<char> = Vec::new();
        let pad = repeat_char(' ', if indent_level <= usize::MAX / 2 {
            2 * indent_level
        } else {
            usize::MAX
        });
        append_chars(&mut line, &pad);
        let open_mark = str_chars("- [");
        append_chars(&mut line, &open_mark);
        let tv = str_chars(h.text.as_str());
        append_chars(&mut line, &tv);
        let mid = str_chars("](#");
        append_chars(&mut line, &mid);
        let sv = str_chars(h.slug.as_str());
        append_chars(&mut line, &sv);
        line.push(')');
        toc_lines.push(line);
        j = j + 1;
    }
    toc_lines
}

/// Regenerates the contents block between the markers from the document's
/// headers; a document without the start marker passes through unchanged.
pub fn process_toc(input: &str) -> (r: String)
{
    let raw = str_chars(input);
    let line_vecs = lines_chars(&raw);
    let start_m = toc_start_marker();
    let end_m = toc_end_marker();
    let mut toc_start: Option<usize> = None;
    let mut toc_end: Option<usize> = None;
    let mut i: usize = 0;
    while i < line_vecs.len()
        invariant
            toc_start matches Some(k) ==> k < line_vecs@.len(),
            toc_end matches Some(k) ==> k < line_vecs@.len(),
        decreases line_vecs@.len() - i,
    {
        let t = trim_chars(&line_vecs[i]);
        if toc_start.is_none() && eq_chars(&t, &start_m) {
            toc_start = Some(i);
        }
        if toc_end.is_none() && eq_chars(&t, &end_m) {
            toc_end = Some(i);
        }
        i = i + 1;
    }
    let start_line = match toc_start {
        Some(k) => k,
        None => {
            return chars_string(&raw);
        },
    };
    let headers = parse_headers(&line_vecs, start_line + 1);
    let toc_content = generate_toc(&headers);
    let mut result: Vec<Vec<char>> = Vec::new();
    let mut a: usize = 0;
    while a < line_vecs.len() && a <= start_line
        decreases line_vecs@.len() - a,
    {
        result.push(subrange_chars(&line_vecs[a], 0, line_vecs[a].len()));
        a = a + 1;
    }
    let mut b: usize = 0;
    while b < toc_content.len()
        decreases toc_content@.len() - b,
    {
        result.push(subrange_chars(&toc_content[b], 0, toc_content[b].len()));
        b = b + 1;
    }
    result.push(toc_end_marker());
    let skip_to: usize = match toc_end {
        Some(e) => if e < usize::MAX {
            e + 1
        } else {
            e
        },
        None => start_line + 1,
    };
    let mut c: usize = skip_to;
    while c < line_vecs.len()
        decreases line_vecs@.len() - c,
    {
        result.push(subrange_chars(&line_vecs[c], 0, line_vecs[c].len()));
        c = c + 1;
    }
    let nl = vec!['\n'];
    let mut joined = join_chars(&result, &nl);
    joined.push('\n');
    chars_string(&joined)
}

} // verus!
