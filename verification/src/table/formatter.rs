//! Rendering table rows back to text with aligned columns.

use vstd::prelude::*;
use crate::strutil::{append_chars, chars_string, repeat_char, str_chars, trim_chars};
use crate::table::parser::is_separator_cell;

verus! {

/// Renders one separator cell at the given width, keeping its alignment
/// colons.
pub fn format_separator_cell(cell: &str, width: usize) -> (r: Vec<char>)
{
    let v = str_chars(cell);
    let has_left = v.len() > 0 && v[0] == ':';
    let has_right = v.len() > 0 && v[v.len() - 1] == ':';
    let mut out: Vec<char> = Vec::new();
    if has_left && has_right {
        out.push(':');
        let dash_n = if width >= 2 {
            width - 2
        } else {
            0
        };
        let dashes = repeat_char('-', dash_n);
        append_chars(&mut out, &dashes);
        out.push(':');
    } else if has_left {
        out.push(':');
        let dash_n = if width >= 1 {
            width - 1
        } else {
            0
        };
        let dashes = repeat_char('-', dash_n);
        append_chars(&mut out, &dashes);
    } else if has_right {
        let dash_n = if width >= 1 {
            width - 1
        } else {
            0
        };
        let dashes = repeat_char('-', dash_n);
        append_chars(&mut out, &dashes);
        out.push(':');
    } else {
        let dashes = repeat_char('-', width);
        append_chars(&mut out, &dashes);
    }
    out
}

/// Renders one row: every cell padded to its column width, separator cells
/// stretched, the whole wrapped in pipes.
pub fn format_table_row(cells: &Vec<String>, col_widths: &Vec<usize>) -> (r: String)
{
    let mut out: Vec<char> = Vec::new();
    out.push('|');
    out.push(' ');
    let mut i: usize = 0;
    while i < cells.len()
        decreases cells@.len() - i,
    {
        if i > 0 {
            out.push(' ');
            out.push('|');
            out.push(' ');
        }
        let width: usize = if i < col_widths.len() {
            col_widths[i]
        } else {
            0
        };
        if is_separator_cell(cells[i].as_str()) {
            let sep = format_separator_cell(cells[i].as_str(), width);
            append_chars(&mut out, &sep);
        } else {
            let cv = str_chars(cells[i].as_str());
            append_chars(&mut out, &cv);
            let pad_n = if cv.len() < width {
                width - cv.len()
            } else {
                0
            };
            let pad = repeat_char(' ', pad_n);
            append_chars(&mut out, &pad);
        }
        i = i + 1;
    }
    out.push(' ');
    out.push('|');
    chars_string(&out)
}

} // verus!
