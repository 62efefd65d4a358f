//! Markdown table handling: locating table rows, aligning them, and
//! applying spreadsheet formulas.

pub mod error;
pub mod formatter;
pub mod formula;
pub mod parser;

use vstd::prelude::*;
use crate::strutil::{append_chars, chars_string, join_chars, lines_chars, parse_usize_chars,
    spec_parse_usize, spec_split, split_chars, str_chars, usize_to_chars, views, eq_chars};

verus! {

/// Builds an empty markdown table: an empty header row, a separator row,
/// and `rows` empty data rows, all `cols` wide; zero of either gives the
/// empty string.
pub fn create_table(rows: usize, cols: usize) -> (r: String)
    ensures
        (rows == 0 || cols == 0) ==> r@ == Seq::<char>::empty(),
{
    if rows == 0 || cols == 0 {
        let empty: Vec<char> = Vec::new();
        proof {
            assert(empty@ =~= Seq::<char>::empty());
        }
        return chars_string(&empty);
    }
    let mut table_rows: Vec<Vec<String>> = Vec::new();
    let mut header: Vec<String> = Vec::new();
    let mut c: usize = 0;
    while c < cols
        decreases cols - c,
    {
        header.push(String::new());
        c = c + 1;
    }
    table_rows.push(header);
    let mut separator: Vec<String> = Vec::new();
    let mut c2: usize = 0;
    while c2 < cols
        decreases cols - c2,
    {
        separator.push(String::from_str("---"));
        c2 = c2 + 1;
    }
    table_rows.push(separator);
    let mut r0: usize = 0;
    while r0 < rows
        decreases rows - r0,
    {
        let mut data_row: Vec<String> = Vec::new();
        let mut c3: usize = 0;
        while c3 < cols
            decreases cols - c3,
        {
            data_row.push(String::new());
            c3 = c3 + 1;
        }
        table_rows.push(data_row);
        r0 = r0 + 1;
    }
    let mut col_widths: Vec<usize> = Vec::new();
    let mut c4: usize = 0;
    while c4 < cols
        invariant
            c4 <= cols,
            col_widths@.len() == c4,
        decreases cols - c4,
    {
        col_widths.push(0);
        c4 = c4 + 1;
    }
    let mut i: usize = 0;
    while i < table_rows.len()
        invariant
            col_widths@.len() == cols,
        decreases table_rows@.len() - i,
    {
        let row = &table_rows[i];
        let mut j: usize = 0;
        while j < row.len()
            invariant
                col_widths@.len() == cols,
            decreases row@.len() - j,
        {
            if j < cols {
                let l = row[j].as_str().unicode_len();
                if l > col_widths[j] {
                    col_widths.set(j, l);
                }
            }
            j = j + 1;
        }
        i = i + 1;
    }
    let mut formatted: Vec<Vec<char>> = Vec::new();
    let mut k: usize = 0;
    while k < table_rows.len()
        decreases table_rows@.len() - k,
    {
        let line = crate::table::formatter::format_table_row(&table_rows[k], &col_widths);
        formatted.push(str_chars(line.as_str()));
        k = k + 1;
    }
    let nl = vec!['\n'];
    let joined = join_chars(&formatted, &nl);
    chars_string(&joined)
}

} // verus!

verus! {

pub open spec fn s_spec_parts(spec_text: Seq<char>) -> Seq<Seq<char>> {
    spec_split(spec_text, ':')
}

/// Parses `table:R:C` into positive row and column counts, with the exact
/// error texts.
pub fn parse_table_spec(spec_text: &str) -> (r: Result<(usize, usize), String>)
    ensures
        r is Ok ==> ({
            let parts = s_spec_parts(spec_text@);
            &&& parts.len() == 3
            &&& parts[0] == "table"@
            &&& spec_parse_usize(parts[1]) == Some((r->Ok_0).0)
            &&& spec_parse_usize(parts[2]) == Some((r->Ok_0).1)
            &&& (r->Ok_0).0 > 0
            &&& (r->Ok_0).1 > 0
        }),
        r is Err ==> !({
            let parts = s_spec_parts(spec_text@);
            &&& parts.len() == 3
            &&& parts[0] == "table"@
            &&& (spec_parse_usize(parts[1]) matches Some(a) && a > 0)
            &&& (spec_parse_usize(parts[2]) matches Some(b) && b > 0)
        }),
{
    let raw = str_chars(spec_text);
    let parts = split_chars(&raw, ':');
    let table_kw = str_chars("table");
    let ok_shape = parts.len() == 3 && eq_chars(&parts[0], &table_kw);
    proof {
        if parts@.len() == 3 {
            assert(views(parts@)[0] == parts@[0]@);
            assert(views(parts@)[1] == parts@[1]@);
            assert(views(parts@)[2] == parts@[2]@);
        }
    }
    if !ok_shape {
        let mut msg = str_chars("Invalid spec format '");
        append_chars(&mut msg, &raw);
        let tail = str_chars("'. Expected format: table:R:C (e.g., table:2:3)");
        append_chars(&mut msg, &tail);
        return Err(chars_string(&msg));
    }
    let rows = match parse_usize_chars(&parts[1]) {
        Some(n) => n,
        None => {
            let mut msg = str_chars("Invalid row count '");
            append_chars(&mut msg, &parts[1]);
            let tail = str_chars("'");
            append_chars(&mut msg, &tail);
            return Err(chars_string(&msg));
        },
    };
    let cols = match parse_usize_chars(&parts[2]) {
        Some(n) => n,
        None => {
            let mut msg = str_chars("Invalid column count '");
            append_chars(&mut msg, &parts[2]);
            let tail = str_chars("'");
            append_chars(&mut msg, &tail);
            return Err(chars_string(&msg));
        },
    };
    if rows == 0 || cols == 0 {
        let msg = str_chars("Row and column counts must be greater than 0");
        return Err(chars_string(&msg));
    }
    Ok((rows, cols))
}

/// Aligns one table's rows, first applying any formulas to its cells.
pub fn format_table_with_formulas(line_texts: &Vec<String>, formulas: &Vec<String>) -> (r: String)
{
    if line_texts.len() == 0 {
        let empty: Vec<char> = Vec::new();
        return chars_string(&empty);
    }
    let mut rows: Vec<Vec<String>> = Vec::new();
    let mut i: usize = 0;
    while i < line_texts.len()
        decreases line_texts@.len() - i,
    {
        rows.push(crate::table::parser::parse_table_row(line_texts[i].as_str()));
        i = i + 1;
    }
    if formulas.len() > 0 {
        let _ = crate::table::formula::apply_formulas(&mut rows, formulas);
    }
    let mut num_cols: usize = 0;
    let mut j: usize = 0;
    while j < rows.len()
        decreases rows@.len() - j,
    {
        if rows[j].len() > num_cols {
            num_cols = rows[j].len();
        }
        j = j + 1;
    }
    let mut col_widths: Vec<usize> = Vec::new();
    let mut c: usize = 0;
    while c < num_cols
        invariant
            c <= num_cols,
            col_widths@.len() == c,
        decreases num_cols - c,
    {
        col_widths.push(0);
        c = c + 1;
    }
    let mut k: usize = 0;
    while k < rows.len()
        invariant
            col_widths@.len() == num_cols,
        decreases rows@.len() - k,
    {
        let row = &rows[k];
        let mut m: usize = 0;
        while m < row.len()
            invariant
                col_widths@.len() == num_cols,
            decreases row@.len() - m,
        {
            if m < num_cols {
                let l = row[m].as_str().unicode_len();
                if l > col_widths[m] {
                    col_widths.set(m, l);
                }
            }
            m = m + 1;
        }
        k = k + 1;
    }
    let mut formatted: Vec<Vec<char>> = Vec::new();
    let mut n: usize = 0;
    while n < rows.len()
        decreases rows@.len() - n,
    {
        let line = crate::table::formatter::format_table_row(&rows[n], &col_widths);
        formatted.push(str_chars(line.as_str()));
        n = n + 1;
    }
    let nl = vec!['\n'];
    let joined = join_chars(&formatted, &nl);
    chars_string(&joined)
}

/// Re-aligns every markdown table in the text, evaluating the formula
/// comments that follow each table; all other lines pass through.
pub fn format_tables(text: &str) -> (r: String)
    ensures
        text@.len() == 0 ==> r@.len() == 0,
{
    let raw = str_chars(text);
    if raw.len() == 0 {
        let empty: Vec<char> = Vec::new();
        proof {
            assert(empty@ =~= Seq::<char>::empty());
        }
        return chars_string(&empty);
    }
    let line_vecs = lines_chars(&raw);
    let mut line_texts: Vec<String> = Vec::new();
    let mut li: usize = 0;
    while li < line_vecs.len()
        decreases line_vecs@.len() - li,
    {
        line_texts.push(chars_string(&line_vecs[li]));
        li = li + 1;
    }
    let mut output: Vec<Vec<char>> = Vec::new();
    let mut i: usize = 0;
    while i < line_texts.len()
        decreases line_texts@.len() - i,
    {
        if crate::table::parser::is_table_row(line_texts[i].as_str()) {
            let mut current: Vec<String> = Vec::new();
            current.push(chars_string(&str_chars(line_texts[i].as_str())));
            i = i + 1;
            let ghost i1 = i as int;
            while i < line_texts.len() && crate::table::parser::is_table_row(
                line_texts[i].as_str(),
            )
                invariant
                    i1 <= i <= line_texts@.len(),
                decreases line_texts@.len() - i,
            {
                current.push(chars_string(&str_chars(line_texts[i].as_str())));
                i = i + 1;
            }
            let mut formulas: Vec<String> = Vec::new();
            let start_comment_idx = i;
            if i < line_texts.len() && crate::table::parser::is_md_table_comment(
                line_texts[i].as_str(),
            ) {
                match crate::table::parser::extract_formulas_from_comment(line_texts[i].as_str()) {
                    Ok((_, fs)) => {
                        let mut fi: usize = 0;
                        while fi < fs.len()
                            decreases fs@.len() - fi,
                        {
                            formulas.push(chars_string(&str_chars(fs[fi].as_str())));
                            fi = fi + 1;
                        }
                    },
                    Err(_) => {},
                }
                i = i + 1;
                let ghost i2 = i as int;
                while i < line_texts.len() && crate::table::parser::is_formula_comment(
                    line_texts[i].as_str(),
                )
                    invariant
                        i2 <= i <= line_texts@.len(),
                    decreases line_texts@.len() - i,
                {
                    match crate::table::parser::extract_formulas_from_comment(
                        line_texts[i].as_str(),
                    ) {
                        Ok((_, fs)) => {
                            let mut fi: usize = 0;
                            while fi < fs.len()
                                decreases fs@.len() - fi,
                            {
                                formulas.push(chars_string(&str_chars(fs[fi].as_str())));
                                fi = fi + 1;
                            }
                        },
                        Err(_) => {},
                    }
                    i = i + 1;
                }
            }
            let formatted = format_table_with_formulas(&current, &formulas);
            output.push(str_chars(formatted.as_str()));
            let mut ci: usize = start_comment_idx;
            while ci < i
                invariant
                    i <= line_texts@.len(),
                decreases i - ci,
            {
                output.push(str_chars(line_texts[ci].as_str()));
                ci = ci + 1;
            }
        } else {
            output.push(str_chars(line_texts[i].as_str()));
            i = i + 1;
        }
    }
    let nl = vec!['\n'];
    let mut joined = join_chars(&output, &nl);
    let raw_len = raw.len();
    if raw_len > 0 && raw[raw_len - 1] == '\n' {
        joined.push('\n');
    }
    proof {
        if text@.len() == 0 {
            assert(crate::strutil::spec_lines(text@) =~= Seq::<Seq<char>>::empty());
        }
    }
    chars_string(&joined)
}

} // verus!
