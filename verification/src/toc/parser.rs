//! Markdown header parsing and GitHub-style slug generation.

use vstd::prelude::*;
use crate::strutil::{append_chars, chars_string, contains_chars, eq_chars, is_alnum_underscore,
    is_ascii_digit, spec_contains, starts_with_chars, str_chars, subrange_chars, to_lower_chars,
    trim_chars, usize_to_chars, char_is_ws};

verus! {

/// One parsed markdown header.
#[derive(Debug, Clone, PartialEq)]
pub struct Header {
    pub level: usize,
    pub text: String,
    pub slug: String,
    pub line_number: usize,
}

/// Reads one line as an ATX header: one to six hashes, then non-empty
/// text, trailing hashes stripped.
pub fn parse_header_line(line: &Vec<char>, line_number: usize) -> (r: Option<Header>)
{
    let trimmed_start = crate::strutil::trim_start_idx(line);
    proof {
        crate::strutil::lemma_ws_prefix(line@);
    }
    let t = subrange_chars(line, trimmed_start, line.len());
    if t.len() == 0 || t[0] != '#' {
        return None;
    }
    let mut level: usize = 0;
    while level < t.len() && t[level] == '#'
        invariant
            level <= t@.len(),
        decreases t@.len() - level,
    {
        level = level + 1;
    }
    if level > 6 {
        return None;
    }
    let rest = subrange_chars(&t, level, t.len());
    let text0 = trim_chars(&rest);
    if text0.len() == 0 {
        return None;
    }
    // Strip trailing hashes (the closed ATX form), then trailing spaces.
    let mut end: usize = text0.len();
    while end > 0 && text0[end - 1] == '#'
        invariant
            end <= text0@.len(),
        decreases end,
    {
        end = end - 1;
    }
    while end > 0 && char_is_ws(text0[end - 1])
        invariant
            end <= text0@.len(),
        decreases end,
    {
        end = end - 1;
    }
    let text = subrange_chars(&text0, 0, end);
    Some(
        Header {
            level,
            text: chars_string(&text),
            slug: String::new(),
            line_number,
        },
    )
}

/// The GitHub-style anchor of a header text: lower-cased, spaces to
/// hyphens, other punctuation dropped, hyphen runs collapsed, outer
/// hyphens trimmed.
pub fn generate_slug(text: &str) -> (r: String)
{
    let raw = str_chars(text);
    let lowered = to_lower_chars(&raw);
    let mut kept: Vec<char> = Vec::new();
    let mut i: usize = 0;
    while i < lowered.len()
        decreases lowered@.len() - i,
    {
        let c = lowered[i];
        if ('a' <= c && c <= 'z') || ('0' <= c && c <= '9') || c == '-' || c == '_' {
            kept.push(c);
        } else if char_is_ws(c) {
            kept.push('-');
        }
        i = i + 1;
    }
    // Collapse runs of hyphens to one.
    let mut collapsed: Vec<char> = Vec::new();
    let mut j: usize = 0;
    while j < kept.len()
        decreases kept@.len() - j,
    {
        let c = kept[j];
        if c == '-' && collapsed.len() > 0 && collapsed[collapsed.len() - 1] == '-' {
        } else {
            collapsed.push(c);
        }
        j = j + 1;
    }
    // Trim leading and trailing hyphens.
    let mut lo: usize = 0;
    while lo < collapsed.len() && collapsed[lo] == '-'
        invariant
            lo <= collapsed@.len(),
        decreases collapsed@.len() - lo,
    {
        lo = lo + 1;
    }
    let mut hi: usize = collapsed.len();
    while hi > lo && collapsed[hi - 1] == '-'
        invariant
            lo <= hi <= collapsed@.len(),
        decreases hi,
    {
        hi = hi - 1;
    }
    let out = subrange_chars(&collapsed, lo, hi);
    chars_string(&out)
}

/// Makes a slug unique by suffixing a counter for repeats.
pub fn make_unique_slug(slug: &str, slug_counts: &mut Vec<(String, usize)>) -> (r: String)
{
    let sv = str_chars(slug);
    let mut idx: Option<usize> = None;
    let mut i: usize = 0;
    while i < slug_counts.len()
        invariant
            idx matches Some(k) ==> k < slug_counts@.len(),
        decreases slug_counts@.len() - i,
    {
        let ev = str_chars(slug_counts[i].0.as_str());
        if eq_chars(&ev, &sv) {
            idx = Some(i);
            i = slug_counts.len();
        } else {
            i = i + 1;
        }
    }
    match idx {
        Some(k) => {
            let count = slug_counts[k].1;
            let new_count = if count < usize::MAX {
                count + 1
            } else {
                count
            };
            let name = chars_string(&sv);
            slug_counts.set(k, (name, new_count));
            let mut out = subrange_chars(&sv, 0, sv.len());
            out.push('-');
            let n = usize_to_chars(if new_count > 0 {
                new_count - 1
            } else {
                0
            });
            append_chars(&mut out, &n);
            chars_string(&out)
        },
        None => {
            let name = chars_string(&sv);
            slug_counts.push((name, 1));
            chars_string(&sv)
        },
    }
}

/// Parses all headers at or after `start_from`, skipping fenced code
/// blocks, and gives each a unique slug.
pub fn parse_headers(lines: &Vec<Vec<char>>, start_from: usize) -> (r: Vec<Header>)
{
    let mut headers: Vec<Header> = Vec::new();
    let mut slug_counts: Vec<(String, usize)> = Vec::new();
    let mut in_code_block = false;
    let mut i: usize = start_from;
    while i < lines.len()
        decreases lines@.len() - i,
    {
        let line = &lines[i];
        let t = trim_chars(line);
        let bt = vec!['`', '`', '`'];
        let td = vec!['~', '~', '~'];
        if starts_with_chars(&t, &bt) || starts_with_chars(&t, &td) {
            in_code_block = !in_code_block;
            i = i + 1;
            continue;
        }
        if in_code_block {
            i = i + 1;
            continue;
        }
        match parse_header_line(line, i) {
            Some(h) => {
                let base = generate_slug(h.text.as_str());
                let unique = make_unique_slug(base.as_str(), &mut slug_counts);
                headers.push(
                    Header {
                        level: h.level,
                        text: h.text,
                        slug: unique,
                        line_number: h.line_number,
                    },
                );
            },
            None => {},
        }
        i = i + 1;
    }
    headers
}

} // verus!
