//! Marking open markdown checklist items as completed, with a timestamp.

use vstd::prelude::*;
use crate::strutil::{append_chars, chars_string, contains_chars, lines_chars, join_chars,
    spec_contains, spec_starts_with, spec_trim, spec_trim_start, starts_with_chars, str_chars,
    subrange_chars, trim_chars, trim_start_idx, ws_prefix};

verus! {

/// Relies on `chrono::Local::now` and `DateTime::format`: the current
/// local time as `YYYY-MM-DD HH:MM:SS`.  Nothing can be promised of a
/// clock reading.
#[verifier::external_body]
fn now_timestamp() -> String {
    chrono::Local::now().format("%Y-%m-%d %H:%M:%S").to_string()
}

/// The fence kind a line opens or closes: backticks or tildes.
pub fn get_fence_type(line: &Vec<char>) -> (r: Option<u8>)
    ensures
        r == (if spec_starts_with(spec_trim(line@), seq!['`', '`', '`']) {
            Some(0u8)
        } else if spec_starts_with(spec_trim(line@), seq!['~', '~', '~']) {
            Some(1u8)
        } else {
            None::<u8>
        }),
{
    let t = trim_chars(line);
    let bt = vec!['`', '`', '`'];
    let td = vec!['~', '~', '~'];
    proof {
        assert(bt@ =~= seq!['`', '`', '`']);
        assert(td@ =~= seq!['~', '~', '~']);
    }
    if starts_with_chars(&t, &bt) {
        Some(0)
    } else if starts_with_chars(&t, &td) {
        Some(1)
    } else {
        None
    }
}

/// An open checklist item: its indentation and its text, if the line is
/// one.
fn parse_checklist_item(line: &Vec<char>) -> (r: Option<(Vec<char>, Vec<char>)>)
{
    let indent_len = trim_start_idx(line);
    proof {
        crate::strutil::lemma_ws_prefix(line@);
    }
    let indent = subrange_chars(line, 0, indent_len);
    let trimmed = subrange_chars(line, indent_len, line.len());
    let open_mark = vec!['-', ' ', '[', ' ', ']', ' '];
    let empty_mark = vec!['-', ' ', '[', ' ', ']'];
    proof {
        assert(open_mark@.len() == 6);
    }
    if starts_with_chars(&trimmed, &open_mark) {
        let text = subrange_chars(&trimmed, 6, trimmed.len());
        Some((indent, text))
    } else if crate::strutil::eq_chars(&trimmed, &empty_mark) {
        let text: Vec<char> = Vec::new();
        Some((indent, text))
    } else {
        None
    }
}

/// Rewrites one line: an open checklist item becomes checked, struck
/// through and stamped; anything already struck through or not a checklist
/// item passes unchanged.
fn process_line(line: &Vec<char>, timestamp: &Vec<char>) -> (r: Vec<char>)
{
    let strike = vec!['~', '~'];
    if contains_chars(line, &strike) {
        return subrange_chars(line, 0, line.len());
    }
    match parse_checklist_item(line) {
        Some((indent, text)) => {
            let mut out = subrange_chars(&indent, 0, indent.len());
            let mark = str_chars("- [x] ~~");
            append_chars(&mut out, &mark);
            append_chars(&mut out, &text);
            let mid = str_chars("~~ `COMPLETED: ");
            append_chars(&mut out, &mid);
            append_chars(&mut out, timestamp);
            out.push('`');
            out
        },
        None => subrange_chars(line, 0, line.len()),
    }
}

/// Marks every open checklist item in the document as completed with the
/// given timestamp; lines inside fenced code blocks pass through, and a
/// trailing newline is preserved.
pub fn process_done_with_timestamp(input: &str, timestamp: &str) -> (r: String)
    ensures
        input@.len() == 0 ==> r@.len() == 0,
{
    let raw = str_chars(input);
    if raw.len() == 0 {
        let empty: Vec<char> = Vec::new();
        proof {
            assert(empty@ =~= Seq::<char>::empty());
        }
        return chars_string(&empty);
    }
    let ts = str_chars(timestamp);
    let line_vecs = lines_chars(&raw);
    let mut result: Vec<Vec<char>> = Vec::new();
    let mut fence: Option<u8> = None;
    let mut i: usize = 0;
    while i < line_vecs.len()
        decreases line_vecs@.len() - i,
    {
        let line = &line_vecs[i];
        match get_fence_type(line) {
            Some(ft) => {
                match fence {
                    None => {
                        fence = Some(ft);
                        result.push(subrange_chars(line, 0, line.len()));
                    },
                    Some(marker) => {
                        if marker == ft {
                            fence = None;
                        }
                        result.push(subrange_chars(line, 0, line.len()));
                    },
                }
            },
            None => {
                if fence.is_some() {
                    result.push(subrange_chars(line, 0, line.len()));
                } else {
                    result.push(process_line(line, &ts));
                }
            },
        }
        i = i + 1;
    }
    let nl = vec!['\n'];
    let mut joined = join_chars(&result, &nl);
    let rl = raw.len();
    if rl > 0 && raw[rl - 1] == '\n' {
        joined.push('\n');
    }
    chars_string(&joined)
}

/// Marks every open checklist item as completed, stamped with the current
/// local time.
pub fn process_done(input: &str) -> (r: String)
    ensures
        input@.len() == 0 ==> r@.len() == 0,
{
    let timestamp = now_timestamp();
    process_done_with_timestamp(input, timestamp.as_str())
}

} // verus!
