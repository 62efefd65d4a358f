//! Recognizing and splitting markdown table rows and formula comments.

use vstd::prelude::*;
use crate::strutil::{append_chars, chars_string, contains_chars, count_char, ends_with_chars,
    spec_contains, spec_count_char, spec_ends_with, spec_starts_with, spec_trim, split_chars,
    starts_with_chars, str_chars, subrange_chars, trim_chars, views};
use crate::common::validate_id;

verus! {

/// Splits a table row into its trimmed cells, leading and trailing pipes
/// removed.
pub fn parse_table_row(line: &str) -> (r: Vec<String>)
{
    let raw = str_chars(line);
    let trimmed = trim_chars(&raw);
    let pipe = vec!['|'];
    proof {
        assert(pipe@ =~= seq!['|']);
    }
    let afterl = if starts_with_chars(&trimmed, &pipe) {
        let s = subrange_chars(&trimmed, 1, trimmed.len());
        proof {
            assert(s@ =~= trimmed@.skip(1));
        }
        s
    } else {
        trimmed
    };
    let content = if ends_with_chars(&afterl, &pipe) {
        let s = subrange_chars(&afterl, 0, afterl.len() - 1);
        proof {
            assert(s@ =~= afterl@.take(afterl@.len() - 1));
        }
        s
    } else {
        afterl
    };
    let parts = split_chars(&content, '|');
    let mut out: Vec<String> = Vec::new();
    let mut i: usize = 0;
    while i < parts.len()
        decreases parts@.len() - i,
    {
        let cell = trim_chars(&parts[i]);
        out.push(chars_string(&cell));
        i = i + 1;
    }
    out
}

/// The cells a table row denotes.

/// A table row starts with a pipe and holds at least two of them.
pub fn is_table_row(line: &str) -> (r: bool)
    ensures
        r == ({
            let t = spec_trim(line@);
            spec_starts_with(t, seq!['|']) && spec_count_char(t, '|') >= 2
        }),
{
    let raw = str_chars(line);
    let t = trim_chars(&raw);
    let pipe = vec!['|'];
    proof {
        assert(pipe@ =~= seq!['|']);
    }
    if !starts_with_chars(&t, &pipe) {
        return false;
    }
    count_char(&t, '|') >= 2
}

pub open spec fn is_sep_char(c: char) -> bool {
    c == '-' || c == ':' || c == ' '
}

/// A separator cell holds only dashes, colons and spaces, at least one
/// character.
pub open spec fn spec_is_separator_cell(cell: Seq<char>) -> bool {
    cell.len() > 0 && forall|i: int| 0 <= i < cell.len() ==> is_sep_char(#[trigger] cell[i])
}

pub fn is_separator_cell(cell: &str) -> (r: bool)
    ensures
        r == spec_is_separator_cell(cell@),
{
    let v = str_chars(cell);
    if v.len() == 0 {
        return false;
    }
    let mut i: usize = 0;
    while i < v.len()
        invariant
            0 <= i <= v@.len(),
            v@ == cell@,
            forall|j: int| 0 <= j < i ==> is_sep_char(#[trigger] v@[j]),
        decreases v@.len() - i,
    {
        let c = v[i];
        if !(c == '-' || c == ':' || c == ' ') {
            proof {
                assert(v@ == cell@);
                assert(!is_sep_char(cell@[i as int]));
            }
            return false;
        }
        i = i + 1;
    }
    true
}

/// An HTML comment that names the table-formula directive.
pub fn is_md_table_comment(line: &str) -> (r: bool)
    ensures
        r == ({
            let t = spec_trim(line@);
            spec_starts_with(t, "<!--"@) && spec_contains(t, "md-table:"@)
        }),
{
    let raw = str_chars(line);
    let t = trim_chars(&raw);
    let open_mark = str_chars("<!--");
    let key = str_chars("md-table:");
    starts_with_chars(&t, &open_mark) && contains_chars(&t, &key)
}


/// Any HTML comment line; continuation formulas live in these.
pub fn is_formula_comment(line: &str) -> (r: bool)
    ensures
        r == ({
            let t = spec_trim(line@);
            spec_starts_with(t, "<!--"@) && spec_ends_with(t, "-->"@)
        }),
{
    let raw = str_chars(line);
    let t = trim_chars(&raw);
    let open_mark = str_chars("<!--");
    let close_mark = str_chars("-->");
    starts_with_chars(&t, &open_mark) && ends_with_chars(&t, &close_mark)
}

/// Reads a formula directive comment: the optional quoted table id, and
/// the semicolon-separated formulas.
pub fn extract_formulas_from_comment(line: &str) -> (r: Result<
    (Option<String>, Vec<String>),
    String,
>)
{
    let raw = str_chars(line);
    let trimmed = trim_chars(&raw);
    let open_mark = vec!['<', '!', '-', '-'];
    let close_mark = vec!['-', '-', '>'];
    proof {
        assert(open_mark@.len() == 4);
        assert(close_mark@.len() == 3);
    }
    let step1 = if starts_with_chars(&trimmed, &open_mark) {
        subrange_chars(&trimmed, 4, trimmed.len())
    } else {
        subrange_chars(&trimmed, 0, trimmed.len())
    };
    let step2 = if ends_with_chars(&step1, &close_mark) {
        subrange_chars(&step1, 0, step1.len() - 3)
    } else {
        subrange_chars(&trimmed, 0, trimmed.len())
    };
    let content0 = trim_chars(&step2);
    let prefix = vec!['m', 'd', '-', 't', 'a', 'b', 'l', 'e', ':'];
    proof {
        assert(prefix@.len() == 9);
    }
    let content1 = if starts_with_chars(&content0, &prefix) {
        subrange_chars(&content0, 9, content0.len())
    } else {
        content0
    };
    let content = trim_chars(&content1);
    let mut id: Option<String> = None;
    let mut formulas: Vec<String> = Vec::new();
    let parts = split_chars(&content, ';');
    let idkey = vec!['i', 'd', '='];
    proof {
        assert(idkey@.len() == 3);
    }
    let mut i: usize = 0;
    while i < parts.len()
        invariant
            idkey@.len() == 3,
        decreases parts@.len() - i,
    {
        let part = trim_chars(&parts[i]);
        if part.len() == 0 {
            i = i + 1;
            continue;
        }
        if starts_with_chars(&part, &idkey) {
            proof {
                assert(idkey@.len() == 3);
            }
            let value0 = subrange_chars(&part, 3, part.len());
            let value = trim_chars(&value0);
            if value.len() >= 2 && value[0] == '"' && value[value.len() - 1] == '"' {
                let inner = subrange_chars(&value, 1, value.len() - 1);
                let id_s = chars_string(&inner);
                match validate_id(id_s.as_str()) {
                    Ok(_) => {
                        id = Some(id_s);
                    },
                    Err(e) => {
                        let mut msg = str_chars("Invalid table ID: ");
                        let ev = str_chars(e.as_str());
                        append_chars(&mut msg, &ev);
                        return Err(chars_string(&msg));
                    },
                }
            } else {
                let msg = str_chars("Table ID must be enclosed in double quotes");
                return Err(chars_string(&msg));
            }
        } else {
            formulas.push(chars_string(&part));
        }
        i = i + 1;
    }
    Ok((id, formulas))
}

} // verus!
