//! Parsing of cell/vector/range reference syntax, and resolution of a
//! reference against a grid of cell strings.

use vstd::prelude::*;
use crate::decimal::{Dec, dec_from_str, dec_valid, parse_of};
use crate::strutil::{all_digits, chars_string, is_ascii_alpha, spec_nat_str, spec_parse_usize,
    spec_trim, str_chars, to_upper, to_upper_chars, trim_chars, usize_to_chars, append_chars,
    parse_usize_chars};
use crate::table::error::{FormulaError, SpecErr};
use crate::table::formula::tokenizer::all_digits_exec;
use crate::table::formula::types::{CellReference, SpecVal, Value, col_index_to_letter,
    spec_col_letter, decs_valid, sv_wf};

verus! {

/// The view of a grid: rows of cell texts.
pub open spec fn grid_view(g: Seq<Vec<String>>) -> Seq<Seq<Seq<char>>> {
    g.map_values(|r: Vec<String>| r@.map_values(|c: String| c@))
}

/// What a reference produced by parsing can look like; resolution relies on
/// these machine bounds.
pub open spec fn ref_ok(r: CellReference) -> bool {
    match r {
        CellReference::Scalar { row, col } => col <= 25 && row < usize::MAX,
        CellReference::ColumnVector { col } => col <= 25,
        CellReference::RowVector { row } => 1 <= row && row < usize::MAX,
        CellReference::Range { start_row, start_col, end_row, end_col } => start_col <= end_col
            <= 25 && start_row <= end_row < usize::MAX,
        CellReference::ColumnRange { start_col, end_col } => start_col <= end_col <= 25,
        CellReference::RowRange { start_row, end_row } => 1 <= start_row <= end_row < usize::MAX,
    }
}

/// The reference named by a token: `_N` is a row vector, `L_` a column
/// vector, `L DIGITS` a scalar; anything else is no reference.  Matching is
/// case-insensitive and ignores surrounding whitespace.
pub open spec fn spec_parse_cell_reference(token: Seq<char>) -> Option<CellReference> {
    let t = spec_trim(token).map_values(|c: char| to_upper(c));
    if t.len() == 0 {
        None
    } else if t[0] == '_' {
        match spec_parse_usize(t.skip(1)) {
            Some(n) => if n > 0 && n < usize::MAX {
                Some(CellReference::RowVector { row: n })
            } else {
                None
            },
            None => None,
        }
    } else if t.last() == '_' {
        if t.len() == 2 && 'A' <= t[0] && t[0] <= 'Z' {
            Some(CellReference::ColumnVector { col: (t[0] as int - 65) as usize })
        } else {
            None
        }
    } else if 'A' <= t[0] && t[0] <= 'Z' && t.len() >= 2 && all_digits(t.skip(1)) {
        match spec_parse_usize(t.skip(1)) {
            Some(n) => if n > 0 && n + 1 < usize::MAX {
                Some(
                    CellReference::Scalar {
                        row: (n + 1) as usize,
                        col: (t[0] as int - 65) as usize,
                    },
                )
            } else {
                None
            },
            None => None,
        }
    } else {
        None
    }
}

/// Parses a reference token; `None` when the token is not a reference.
pub fn parse_cell_reference(token: &str) -> (r: Option<CellReference>)
    ensures
        r == spec_parse_cell_reference(token@),
        r is Some ==> ref_ok(r->0),
{
    let raw = str_chars(token);
    let trimmed = trim_chars(&raw);
    let t = to_upper_chars(&trimmed);
    if t.len() == 0 {
        return None;
    }
    if t[0] == '_' {
        let rest = crate::strutil::subrange_chars(&t, 1, t.len());
        proof {
            assert(rest@ =~= t@.skip(1));
        }
        return match parse_usize_chars(&rest) {
            Some(n) => if n > 0 && n < usize::MAX {
                Some(CellReference::RowVector { row: n })
            } else {
                None
            },
            None => None,
        };
    }
    if t[t.len() - 1] == '_' {
        proof {
            assert(t@.last() == t@[t@.len() - 1]);
        }
        if t.len() == 2 && 'A' <= t[0] && t[0] <= 'Z' {
            let col: usize = ((t[0] as u8) - 65) as usize;
            return Some(CellReference::ColumnVector { col });
        }
        return None;
    }
    if 'A' <= t[0] && t[0] <= 'Z' && t.len() >= 2 {
        let rest = crate::strutil::subrange_chars(&t, 1, t.len());
        proof {
            assert(rest@ =~= t@.skip(1));
        }
        if !all_digits_exec(&rest) {
            return None;
        }
        return match parse_usize_chars(&rest) {
            Some(n) => if n > 0 && n < usize::MAX - 1 {
                let col: usize = ((t[0] as u8) - 65) as usize;
                Some(CellReference::Scalar { row: n + 1, col })
            } else {
                None
            },
            None => None,
        };
    }
    None
}

/// The grid coordinates named by a scalar reference token such as `B3`.
pub fn cell_ref_to_index(token: &str) -> (r: Option<(usize, usize)>)
    ensures
        r == (match spec_parse_cell_reference(token@) {
            Some(CellReference::Scalar { row, col }) => Some((row, col)),
            _ => None,
        }),
{
    match parse_cell_reference(token) {
        Some(CellReference::Scalar { row, col }) => Some((row, col)),
        _ => None,
    }
}

/// The number a cell denotes: unparsable or empty cells count as zero.
pub open spec fn spec_cell_dec(cell: Seq<char>) -> Dec {
    match parse_of(cell) {
        Some(d) => d,
        None => Dec { m: 0, e: 0 },
    }
}

/// Reads one cell as a decimal, zero when it does not parse.
pub fn cell_dec(cell: &String) -> (r: Dec)
    ensures
        r == spec_cell_dec(cell@),
        dec_valid(r),
{
    match dec_from_str(cell.as_str()) {
        Some(d) => d,
        None => Dec { m: 0, e: 0 },
    }
}

/// The column-vector data of column `col`: one entry per data row that is
/// wide enough, read top to bottom.
pub open spec fn spec_col_data(g: Seq<Seq<Seq<char>>>, col: int, i: int) -> Seq<Dec>
    decreases g.len() - i,
{
    if i < 0 || i >= g.len() {
        Seq::empty()
    } else {
        (if col < g[i].len() {
            seq![spec_cell_dec(g[i][col])]
        } else {
            Seq::empty()
        }) + spec_col_data(g, col, i + 1)
    }
}

/// The first row index in `lo..=hi` whose row is too narrow for column
/// `col`, or `hi + 1` if none is.
pub open spec fn spec_first_narrow_row(g: Seq<Seq<Seq<char>>>, col: int, lo: int, hi: int) -> int
    decreases hi + 1 - lo,
{
    if lo > hi {
        hi + 1
    } else if col >= g[lo].len() {
        lo
    } else {
        spec_first_narrow_row(g, col, lo + 1, hi)
    }
}

pub proof fn lemma_first_narrow_row(g: Seq<Seq<Seq<char>>>, col: int, lo: int, hi: int)
    requires
        lo <= hi + 1,
    ensures
        lo <= spec_first_narrow_row(g, col, lo, hi) <= hi + 1,
        forall|j: int|
            lo <= j < spec_first_narrow_row(g, col, lo, hi) ==> col < #[trigger] g[j].len(),
        spec_first_narrow_row(g, col, lo, hi) <= hi ==> col >= g[spec_first_narrow_row(
            g,
            col,
            lo,
            hi,
        )].len(),
    decreases hi + 1 - lo,
{
    if lo > hi {
    } else if col >= g[lo].len() {
    } else {
        lemma_first_narrow_row(g, col, lo + 1, hi);
    }
}

pub open spec fn s_rows_reason(n: nat, row1: nat) -> Seq<char> {
    "row "@ + spec_nat_str(row1) + " does not exist (table has "@ + spec_nat_str(n) + " rows)"@
}

pub open spec fn s_no_data_reason(n: nat) -> Seq<char> {
    "table has no data rows (only "@ + spec_nat_str(n) + " rows total)"@
}

/// What resolving a reference against a grid yields: the selected numbers,
/// or the exact out-of-bounds error for the reference text.
pub open spec fn spec_resolve(cell_ref: CellReference, g: Seq<Seq<Seq<char>>>) -> Result<
    SpecVal,
    SpecErr,
> {
    match cell_ref {
        CellReference::Scalar { row, col } => {
            let cell = seq![spec_col_letter(col as int)] + spec_nat_str((row + 1) as nat);
            if row >= g.len() {
                Err(
                    SpecErr::CellOutOfBounds {
                        cell: cell,
                        reason: s_rows_reason(g.len(), (row + 1) as nat),
                    },
                )
            } else if col >= g[row as int].len() {
                Err(
                    SpecErr::CellOutOfBounds {
                        cell: cell,
                        reason: "column "@ + seq![spec_col_letter(col as int)]
                            + " does not exist (row has "@ + spec_nat_str(g[row as int].len())
                            + " columns)"@,
                    },
                )
            } else {
                Ok(SpecVal::Scalar(spec_cell_dec(g[row as int][col as int])))
            }
        },
        CellReference::ColumnVector { col } => {
            let letter = seq![spec_col_letter(col as int)];
            if g.len() <= 2 {
                Err(SpecErr::ColumnOutOfBounds { column: letter, reason: s_no_data_reason(g.len()) })
            } else if col >= g[2].len() {
                Err(
                    SpecErr::ColumnOutOfBounds {
                        column: letter,
                        reason: "column "@ + letter + " does not exist (table has "@
                            + spec_nat_str(g[2].len()) + " columns)"@,
                    },
                )
            } else {
                let data = spec_col_data(g, col as int, 2);
                Ok(SpecVal::Matrix { rows: data.len(), cols: 1, data: data })
            }
        },
        CellReference::RowVector { row } => {
            if row + 1 >= g.len() {
                Err(
                    SpecErr::RowOutOfBounds {
                        row: row as nat,
                        reason: s_rows_reason(g.len(), row as nat),
                    },
                )
            } else {
                let data = g[row + 1].map_values(|c: Seq<char>| spec_cell_dec(c));
                Ok(SpecVal::Matrix { rows: 1, cols: data.len(), data: data })
            }
        },
        CellReference::Range { start_row, start_col, end_row, end_col } => {
            let range_text = seq![spec_col_letter(start_col as int)] + spec_nat_str(
                (start_row + 1) as nat,
            ) + ":"@ + seq![spec_col_letter(end_col as int)] + spec_nat_str((end_row + 1) as nat);
            if end_row >= g.len() {
                Err(
                    SpecErr::CellOutOfBounds {
                        cell: range_text,
                        reason: "end row "@ + spec_nat_str((end_row + 1) as nat)
                            + " does not exist (table has "@ + spec_nat_str(g.len()) + " rows)"@,
                    },
                )
            } else {
                let bad = spec_first_narrow_row(g, end_col as int, start_row as int, end_row as int);
                if bad <= end_row {
                    Err(
                        SpecErr::CellOutOfBounds {
                            cell: range_text,
                            reason: "column "@ + seq![spec_col_letter(end_col as int)]
                                + " does not exist in row "@ + spec_nat_str((bad + 1) as nat)
                                + " (row has "@ + spec_nat_str(g[bad].len()) + " columns)"@,
                        },
                    )
                } else {
                    let nr = (end_row - start_row + 1) as nat;
                    let nc = (end_col - start_col + 1) as nat;
                    let data = Seq::new(
                        nr * nc,
                        |k: int|
                            spec_cell_dec(
                                g[start_row + k / (nc as int)][start_col + k % (nc as int)],
                            ),
                    );
                    if nr == 1 && nc == 1 {
                        Ok(SpecVal::Scalar(data[0]))
                    } else {
                        Ok(SpecVal::Matrix { rows: nr, cols: nc, data: data })
                    }
                }
            }
        },
        CellReference::ColumnRange { start_col, end_col } => {
            let range_text = seq![spec_col_letter(start_col as int)] + "_:"@ + seq![spec_col_letter(
                end_col as int,
            )] + "_"@;
            if g.len() <= 2 {
                Err(
                    SpecErr::ColumnOutOfBounds {
                        column: range_text,
                        reason: s_no_data_reason(g.len()),
                    },
                )
            } else if end_col >= g[2].len() {
                Err(
                    SpecErr::ColumnOutOfBounds {
                        column: range_text,
                        reason: "column "@ + seq![spec_col_letter(end_col as int)]
                            + " does not exist (table has "@ + spec_nat_str(g[2].len())
                            + " columns)"@,
                    },
                )
            } else {
                let nr = (g.len() - 2) as nat;
                let nc = (end_col - start_col + 1) as nat;
                let data = Seq::new(
                    nr * nc,
                    |k: int|
                        if start_col + k % (nc as int) < g[2 + k / (nc as int)].len() {
                            spec_cell_dec(g[2 + k / (nc as int)][start_col + k % (nc as int)])
                        } else {
                            Dec { m: 0, e: 0 }
                        },
                );
                Ok(SpecVal::Matrix { rows: nr, cols: nc, data: data })
            }
        },
        CellReference::RowRange { start_row, end_row } => {
            if end_row + 1 >= g.len() {
                Err(
                    SpecErr::RowOutOfBounds {
                        row: end_row as nat,
                        reason: s_rows_reason(g.len(), end_row as nat),
                    },
                )
            } else {
                let nr = (end_row - start_row + 1) as nat;
                let nc = g[start_row + 1].len();
                let data = Seq::new(
                    nr * nc,
                    |k: int|
                        if k % (nc as int) < g[start_row + 1 + k / (nc as int)].len() {
                            spec_cell_dec(g[start_row + 1 + k / (nc as int)][k % (nc as int)])
                        } else {
                            Dec { m: 0, e: 0 }
                        },
                );
                Ok(SpecVal::Matrix { rows: nr, cols: nc, data: data })
            }
        },
    }
}

} // verus!

verus! {

fn rows_reason(n: usize, row1: usize) -> (r: String)
    ensures
        r@ == s_rows_reason(n as nat, row1 as nat),
{
    let mut out = str_chars("row ");
    let a = usize_to_chars(row1);
    append_chars(&mut out, &a);
    let b = str_chars(" does not exist (table has ");
    append_chars(&mut out, &b);
    let c = usize_to_chars(n);
    append_chars(&mut out, &c);
    let d = str_chars(" rows)");
    append_chars(&mut out, &d);
    proof {
        assert(out@ =~= s_rows_reason(n as nat, row1 as nat));
    }
    chars_string(&out)
}

fn no_data_reason(n: usize) -> (r: String)
    ensures
        r@ == s_no_data_reason(n as nat),
{
    let mut out = str_chars("table has no data rows (only ");
    let a = usize_to_chars(n);
    append_chars(&mut out, &a);
    let b = str_chars(" rows total)");
    append_chars(&mut out, &b);
    proof {
        assert(out@ =~= s_no_data_reason(n as nat));
    }
    chars_string(&out)
}

/// Resolves a reference to the value it names in the grid, or the
/// out-of-bounds error the reference text earns.
#[verifier::rlimit(60)]
#[verifier::spinoff_prover]
pub fn resolve_reference(cell_ref: &CellReference, rows: &Vec<Vec<String>>) -> (r: Result<
    Value,
    FormulaError,
>)
    requires
        ref_ok(*cell_ref),
    ensures
        (match spec_resolve(*cell_ref, grid_view(rows@)) {
            Ok(sv) => r matches Ok(v) && v@ == sv && sv_wf(sv),
            Err(se) => r matches Err(e) && e@ == se,
        }),
{
    let ghost g = grid_view(rows@);
    match cell_ref {
        CellReference::Scalar { row, col } => {
            let mut cellname = col_index_to_letter(*col);
            let num = usize_to_chars(*row + 1);
            append_chars(&mut cellname, &num);
            proof {
                assert(cellname@ =~= seq![spec_col_letter(*col as int)] + spec_nat_str(
                    (*row + 1) as nat,
                ));
            }
            if *row >= rows.len() {
                return Err(
                    FormulaError::cell_out_of_bounds(
                        chars_string(&cellname),
                        rows_reason(rows.len(), *row + 1),
                    ),
                );
            }
            if *col >= rows[*row].len() {
                proof {
                    assert(g[*row as int].len() == rows@[*row as int]@.len());
                }
                let mut reason = str_chars("column ");
                let letter = col_index_to_letter(*col);
                append_chars(&mut reason, &letter);
                let m = str_chars(" does not exist (row has ");
                append_chars(&mut reason, &m);
                let n = usize_to_chars(rows[*row].len());
                append_chars(&mut reason, &n);
                let p = str_chars(" columns)");
                append_chars(&mut reason, &p);
                proof {
                    assert(reason@ =~= "column "@ + seq![spec_col_letter(*col as int)]
                        + " does not exist (row has "@ + spec_nat_str(g[*row as int].len())
                        + " columns)"@);
                }
                return Err(
                    FormulaError::cell_out_of_bounds(chars_string(&cellname), chars_string(&reason)),
                );
            }
            proof {
                assert(g[*row as int][*col as int] == rows@[*row as int]@[*col as int]@);
            }
            Ok(Value::Scalar(cell_dec(&rows[*row][*col])))
        },
        CellReference::ColumnVector { col } => {
            let letterv = col_index_to_letter(*col);
            proof {
                assert(letterv@ =~= seq![spec_col_letter(*col as int)]);
            }
            if rows.len() <= 2 {
                return Err(
                    FormulaError::column_out_of_bounds(
                        chars_string(&letterv),
                        no_data_reason(rows.len()),
                    ),
                );
            }
            if *col >= rows[2].len() {
                proof {
                    assert(g[2].len() == rows@[2]@.len());
                }
                let mut reason = str_chars("column ");
                append_chars(&mut reason, &letterv);
                let m = str_chars(" does not exist (table has ");
                append_chars(&mut reason, &m);
                let n = usize_to_chars(rows[2].len());
                append_chars(&mut reason, &n);
                let p = str_chars(" columns)");
                append_chars(&mut reason, &p);
                proof {
                    assert(reason@ =~= "column "@ + seq![spec_col_letter(*col as int)]
                        + " does not exist (table has "@ + spec_nat_str(g[2].len()) + " columns)"@);
                }
                return Err(
                    FormulaError::column_out_of_bounds(chars_string(&letterv), chars_string(&reason)),
                );
            }
            let mut data: Vec<Dec> = Vec::new();
            let mut i: usize = 2;
            proof {
                assert(spec_col_data(g, *col as int, 2) =~= data@ + spec_col_data(
                    g,
                    *col as int,
                    2,
                ));
            }
            while i < rows.len()
                invariant
                    2 <= i <= rows@.len(),
                    g == grid_view(rows@),
                    *cell_ref == (CellReference::ColumnVector { col: *col }),
                    g.len() > 2,
                    *col < g[2].len(),
                    decs_valid(data@),
                    spec_col_data(g, *col as int, 2) == data@ + spec_col_data(g, *col as int, i as int),
                decreases rows@.len() - i,
            {
                proof {
                    assert(g[i as int].len() == rows@[i as int]@.len());
                }
                if *col < rows[i].len() {
                    proof {
                        assert(g[i as int][*col as int] == rows@[i as int]@[*col as int]@);
                    }
                    let d = cell_dec(&rows[i][*col]);
                    let ghost before = data@;
                    data.push(d);
                    proof {
                        assert(before + spec_col_data(g, *col as int, i as int) =~= data@
                            + spec_col_data(g, *col as int, i + 1));
                    }
                } else {
                    proof {
                        assert(data@ + spec_col_data(g, *col as int, i as int) =~= data@
                            + spec_col_data(g, *col as int, i + 1));
                    }
                }
                i = i + 1;
            }
            proof {
                assert(spec_col_data(g, *col as int, rows@.len() as int) =~= Seq::<Dec>::empty());
                assert(spec_col_data(g, *col as int, 2) =~= data@);
            }
            Ok(Value::column_vector(data))
        },
        CellReference::RowVector { row } => {
            let row_idx = *row + 1;
            if row_idx >= rows.len() {
                return Err(FormulaError::row_out_of_bounds(*row, rows_reason(rows.len(), *row)));
            }
            let the_row = &rows[row_idx];
            let ghost target = g[row_idx as int].map_values(|c: Seq<char>| spec_cell_dec(c));
            let mut data: Vec<Dec> = Vec::new();
            let mut j: usize = 0;
            while j < the_row.len()
                invariant
                    0 <= j <= the_row@.len(),
                    g == grid_view(rows@),
                    *cell_ref == (CellReference::RowVector { row: *row }),
                    row_idx == *row + 1,
                    row_idx < rows@.len(),
                    the_row@ == rows@[row_idx as int]@,
                    target == g[row_idx as int].map_values(|c: Seq<char>| spec_cell_dec(c)),
                    target.len() == the_row@.len(),
                    decs_valid(data@),
                    data@ == target.take(j as int),
                decreases the_row@.len() - j,
            {
                proof {
                    assert(g[row_idx as int][j as int] == rows@[row_idx as int]@[j as int]@);
                }
                data.push(cell_dec(&the_row[j]));
                proof {
                    assert(data@ =~= target.take(j + 1));
                }
                j = j + 1;
            }
            proof {
                assert(data@ =~= target);
            }
            Ok(Value::row_vector(data))
        },
        CellReference::Range { start_row, start_col, end_row, end_col } => {
            let mut rt = col_index_to_letter(*start_col);
            let a = usize_to_chars(*start_row + 1);
            append_chars(&mut rt, &a);
            let b = str_chars(":");
            append_chars(&mut rt, &b);
            let c = col_index_to_letter(*end_col);
            append_chars(&mut rt, &c);
            let d = usize_to_chars(*end_row + 1);
            append_chars(&mut rt, &d);
            proof {
                assert(rt@ =~= seq![spec_col_letter(*start_col as int)] + spec_nat_str(
                    (*start_row + 1) as nat,
                ) + ":"@ + seq![spec_col_letter(*end_col as int)] + spec_nat_str(
                    (*end_row + 1) as nat,
                ));
            }
            if *end_row >= rows.len() {
                let mut reason = str_chars("end row ");
                let x = usize_to_chars(*end_row + 1);
                append_chars(&mut reason, &x);
                let y = str_chars(" does not exist (table has ");
                append_chars(&mut reason, &y);
                let z = usize_to_chars(rows.len());
                append_chars(&mut reason, &z);
                let w = str_chars(" rows)");
                append_chars(&mut reason, &w);
                proof {
                    assert(reason@ =~= "end row "@ + spec_nat_str((*end_row + 1) as nat)
                        + " does not exist (table has "@ + spec_nat_str(g.len()) + " rows)"@);
                }
                return Err(
                    FormulaError::cell_out_of_bounds(chars_string(&rt), chars_string(&reason)),
                );
            }
            let mut ri: usize = *start_row;
            proof {
                lemma_first_narrow_row(g, *end_col as int, *start_row as int, *end_row as int);
            }
            while ri <= *end_row
                invariant
                    *start_row <= ri <= *end_row + 1,
                    *end_row < rows@.len(),
                    *end_col <= 25,
                    *end_row < usize::MAX,
                    rows@.len() <= usize::MAX,
                    g == grid_view(rows@),
                    *cell_ref == (CellReference::Range {
                        start_row: *start_row,
                        start_col: *start_col,
                        end_row: *end_row,
                        end_col: *end_col,
                    }),
                    rt@ == seq![spec_col_letter(*start_col as int)] + spec_nat_str(
                        (*start_row + 1) as nat,
                    ) + ":"@ + seq![spec_col_letter(*end_col as int)] + spec_nat_str(
                        (*end_row + 1) as nat,
                    ),
                    forall|j: int| *start_row <= j < ri ==> *end_col < #[trigger] g[j].len(),
                    ri <= spec_first_narrow_row(g, *end_col as int, *start_row as int, *end_row as int),
                decreases *end_row + 1 - ri,
            {
                proof {
                    assert(g[ri as int].len() == rows@[ri as int]@.len());
                    lemma_first_narrow_row(g, *end_col as int, *start_row as int, *end_row as int);
                }
                if *end_col >= rows[ri].len() {
                    proof {
                        assert(spec_first_narrow_row(
                            g,
                            *end_col as int,
                            *start_row as int,
                            *end_row as int,
                        ) == ri as int);
                    }
                    let mut reason = str_chars("column ");
                    let letter = col_index_to_letter(*end_col);
                    append_chars(&mut reason, &letter);
                    let m = str_chars(" does not exist in row ");
                    append_chars(&mut reason, &m);
                    let n = usize_to_chars(ri + 1);
                    append_chars(&mut reason, &n);
                    let p = str_chars(" (row has ");
                    append_chars(&mut reason, &p);
                    let q = usize_to_chars(rows[ri].len());
                    append_chars(&mut reason, &q);
                    let w = str_chars(" columns)");
                    append_chars(&mut reason, &w);
                    proof {
                        assert(reason@ =~= "column "@ + seq![spec_col_letter(*end_col as int)]
                            + " does not exist in row "@ + spec_nat_str((ri + 1) as nat)
                            + " (row has "@ + spec_nat_str(g[ri as int].len()) + " columns)"@);
                    }
                    return Err(
                        FormulaError::cell_out_of_bounds(chars_string(&rt), chars_string(&reason)),
                    );
                }
                ri = ri + 1;
            }
            proof {
                lemma_first_narrow_row(g, *end_col as int, *start_row as int, *end_row as int);
            }
            let nr: usize = *end_row - *start_row + 1;
            let nc: usize = *end_col - *start_col + 1;
            let ghost target = Seq::new(
                (nr * nc) as nat,
                |k: int|
                    spec_cell_dec(g[*start_row + k / (nc as int)][*start_col + k % (nc as int)]),
            );
            let mut data: Vec<Dec> = Vec::new();
            let mut rr: usize = 0;
            proof {
                assert(data@ =~= target.take(0));
            }
            while rr < nr
                invariant
                    0 <= rr <= nr,
                    nr == *end_row - *start_row + 1,
                    nc == *end_col - *start_col + 1,
                    nc >= 1,
                    *end_row < rows@.len(),
                    rows@.len() <= usize::MAX,
                    g == grid_view(rows@),
                    *cell_ref == (CellReference::Range {
                        start_row: *start_row,
                        start_col: *start_col,
                        end_row: *end_row,
                        end_col: *end_col,
                    }),
                    forall|j: int| *start_row <= j <= *end_row ==> *end_col < #[trigger] g[j].len(),
                    target == Seq::new(
                        (nr * nc) as nat,
                        |k: int|
                            spec_cell_dec(
                                g[*start_row + k / (nc as int)][*start_col + k % (nc as int)],
                            ),
                    ),
                    decs_valid(data@),
                    data@ == target.take((rr * nc) as int),
                    rr * nc <= nr * nc,
                decreases nr - rr,
            {
                let mut cc: usize = 0;
                proof {
                    assert(rr * nc + nc <= nr * nc) by (nonlinear_arith)
                        requires
                            rr < nr,
                            nc >= 0,
                    ;
                }
                while cc < nc
                    invariant
                        0 <= cc <= nc,
                        0 <= rr < nr,
                        nr == *end_row - *start_row + 1,
                        nc == *end_col - *start_col + 1,
                        nc >= 1,
                        *end_row < rows@.len(),
                        rows@.len() <= usize::MAX,
                        g == grid_view(rows@),
                        forall|j: int| *start_row <= j <= *end_row ==> *end_col < #[trigger] g[j].len(),
                        target == Seq::new(
                            (nr * nc) as nat,
                            |k: int|
                                spec_cell_dec(
                                    g[*start_row + k / (nc as int)][*start_col + k % (nc as int)],
                                ),
                        ),
                        decs_valid(data@),
                        data@ == target.take((rr * nc + cc) as int),
                        rr * nc + nc <= nr * nc,
                    decreases nc - cc,
                {
                    let ghost k = (rr * nc + cc) as int;
                    proof {
                        assert(k / (nc as int) == rr as int && k % (nc as int) == cc as int)
                            by (nonlinear_arith)
                            requires
                                k == rr * nc + cc,
                                0 <= (cc as int) < nc as int,
                                0 <= rr as int,
                        ;
                        assert(g[*start_row + rr as int].len() == rows@[*start_row + rr as int]@.len());
                        assert(g[*start_row + rr as int][*start_col + cc as int] == rows@[*start_row
                            + rr as int]@[*start_col + cc as int]@);
                    }
                    let d = cell_dec(&rows[*start_row + rr][*start_col + cc]);
                    data.push(d);
                    proof {
                        assert(data@ =~= target.take(k + 1));
                    }
                    cc = cc + 1;
                }
                proof {
                    assert((rr + 1) * nc == rr * nc + nc) by (nonlinear_arith);
                }
                rr = rr + 1;
            }
            proof {
                assert(data@ =~= target);
                lemma_first_narrow_row(g, *end_col as int, *start_row as int, *end_row as int);
            }
            if nr == 1 && nc == 1 {
                proof {
                    assert((nr * nc) as int == 1) by (nonlinear_arith)
                        requires
                            nr == 1,
                            nc == 1,
                    ;
                    assert(data@.len() == 1);
                }
                Ok(Value::Scalar(data[0]))
            } else {
                Ok(Value::Matrix { rows: nr, cols: nc, data })
            }
        },
        CellReference::ColumnRange { start_col, end_col } => {
            let mut rt = col_index_to_letter(*start_col);
            let a = str_chars("_:");
            append_chars(&mut rt, &a);
            let b = col_index_to_letter(*end_col);
            append_chars(&mut rt, &b);
            let c = str_chars("_");
            append_chars(&mut rt, &c);
            proof {
                assert(rt@ =~= seq![spec_col_letter(*start_col as int)] + "_:"@ + seq![
                    spec_col_letter(*end_col as int),
                ] + "_"@);
            }
            if rows.len() <= 2 {
                return Err(
                    FormulaError::column_out_of_bounds(
                        chars_string(&rt),
                        no_data_reason(rows.len()),
                    ),
                );
            }
            if *end_col >= rows[2].len() {
                proof {
                    assert(g[2].len() == rows@[2]@.len());
                }
                let mut reason = str_chars("column ");
                let letter = col_index_to_letter(*end_col);
                append_chars(&mut reason, &letter);
                let m = str_chars(" does not exist (table has ");
                append_chars(&mut reason, &m);
                let n = usize_to_chars(rows[2].len());
                append_chars(&mut reason, &n);
                let p = str_chars(" columns)");
                append_chars(&mut reason, &p);
                proof {
                    assert(reason@ =~= "column "@ + seq![spec_col_letter(*end_col as int)]
                        + " does not exist (table has "@ + spec_nat_str(g[2].len()) + " columns)"@);
                }
                return Err(
                    FormulaError::column_out_of_bounds(chars_string(&rt), chars_string(&reason)),
                );
            }
            let nr: usize = rows.len() - 2;
            let nc: usize = *end_col - *start_col + 1;
            let ghost target = Seq::new(
                (nr * nc) as nat,
                |k: int|
                    if *start_col + k % (nc as int) < g[2 + k / (nc as int)].len() {
                        spec_cell_dec(g[2 + k / (nc as int)][*start_col + k % (nc as int)])
                    } else {
                        Dec { m: 0, e: 0 }
                    },
            );
            let mut data: Vec<Dec> = Vec::new();
            let mut rr: usize = 0;
            proof {
                assert(data@ =~= target.take(0));
            }
            while rr < nr
                invariant
                    0 <= rr <= nr,
                    nr == rows@.len() - 2,
                    nc == *end_col - *start_col + 1,
                    nc >= 1,
                    rows@.len() <= usize::MAX,
                    g == grid_view(rows@),
                    *cell_ref == (CellReference::ColumnRange {
                        start_col: *start_col,
                        end_col: *end_col,
                    }),
                    g.len() > 2,
                    *end_col < g[2].len(),
                    target == Seq::new(
                        (nr * nc) as nat,
                        |k: int|
                            if *start_col + k % (nc as int) < g[2 + k / (nc as int)].len() {
                                spec_cell_dec(g[2 + k / (nc as int)][*start_col + k % (nc as int)])
                            } else {
                                Dec { m: 0, e: 0 }
                            },
                    ),
                    decs_valid(data@),
                    data@ == target.take((rr * nc) as int),
                    rr * nc <= nr * nc,
                decreases nr - rr,
            {
                let mut cc: usize = 0;
                proof {
                    assert(rr * nc + nc <= nr * nc) by (nonlinear_arith)
                        requires
                            rr < nr,
                            nc >= 0,
                    ;
                }
                while cc < nc
                    invariant
                        0 <= cc <= nc,
                        0 <= rr < nr,
                        nr == rows@.len() - 2,
                        nc == *end_col - *start_col + 1,
                        nc >= 1,
                        rows@.len() <= usize::MAX,
                        g == grid_view(rows@),
                        target == Seq::new(
                            (nr * nc) as nat,
                            |k: int|
                                if *start_col + k % (nc as int) < g[2 + k / (nc as int)].len() {
                                    spec_cell_dec(
                                        g[2 + k / (nc as int)][*start_col + k % (nc as int)],
                                    )
                                } else {
                                    Dec { m: 0, e: 0 }
                                },
                        ),
                        decs_valid(data@),
                        data@ == target.take((rr * nc + cc) as int),
                        rr * nc + nc <= nr * nc,
                    decreases nc - cc,
                {
                    let ghost k = (rr * nc + cc) as int;
                    proof {
                        assert(k / (nc as int) == rr as int && k % (nc as int) == cc as int)
                            by (nonlinear_arith)
                            requires
                                k == rr * nc + cc,
                                0 <= (cc as int) < nc as int,
                                0 <= rr as int,
                        ;
                        assert(g[2 + rr as int].len() == rows@[2 + rr as int]@.len());
                    }
                    let d = if *start_col + cc < rows[2 + rr].len() {
                        proof {
                            assert(g[2 + rr as int][*start_col + cc as int] == rows@[2
                                + rr as int]@[*start_col + cc as int]@);
                        }
                        cell_dec(&rows[2 + rr][*start_col + cc])
                    } else {
                        Dec { m: 0, e: 0 }
                    };
                    data.push(d);
                    proof {
                        assert(data@ =~= target.take(k + 1));
                    }
                    cc = cc + 1;
                }
                proof {
                    assert((rr + 1) * nc == rr * nc + nc) by (nonlinear_arith);
                }
                rr = rr + 1;
            }
            proof {
                assert(data@ =~= target);
            }
            Ok(Value::Matrix { rows: nr, cols: nc, data })
        },
        CellReference::RowRange { start_row, end_row } => {
            if *end_row + 1 >= rows.len() {
                return Err(
                    FormulaError::row_out_of_bounds(*end_row, rows_reason(rows.len(), *end_row)),
                );
            }
            let nr: usize = *end_row - *start_row + 1;
            let nc: usize = rows[*start_row + 1].len();
            proof {
                assert(g[*start_row + 1].len() == rows@[*start_row + 1]@.len());
            }
            let ghost target = Seq::new(
                (nr * nc) as nat,
                |k: int|
                    if k % (nc as int) < g[*start_row + 1 + k / (nc as int)].len() {
                        spec_cell_dec(g[*start_row + 1 + k / (nc as int)][k % (nc as int)])
                    } else {
                        Dec { m: 0, e: 0 }
                    },
            );
            let mut data: Vec<Dec> = Vec::new();
            let mut rr: usize = 0;
            proof {
                assert(data@ =~= target.take(0));
            }
            while rr < nr
                invariant
                    0 <= rr <= nr,
                    nr == *end_row - *start_row + 1,
                    *end_row + 1 < rows@.len(),
                    rows@.len() <= usize::MAX,
                    g == grid_view(rows@),
                    *cell_ref == (CellReference::RowRange {
                        start_row: *start_row,
                        end_row: *end_row,
                    }),
                    nc == g[*start_row + 1].len(),
                    target == Seq::new(
                        (nr * nc) as nat,
                        |k: int|
                            if k % (nc as int) < g[*start_row + 1 + k / (nc as int)].len() {
                                spec_cell_dec(g[*start_row + 1 + k / (nc as int)][k % (nc as int)])
                            } else {
                                Dec { m: 0, e: 0 }
                            },
                    ),
                    decs_valid(data@),
                    data@ == target.take((rr * nc) as int),
                    rr * nc <= nr * nc,
                decreases nr - rr,
            {
                if nc == 0 {
                    proof {
                        assert(rr * 0 == 0) by (nonlinear_arith);
                        assert((rr + 1) * 0 == 0) by (nonlinear_arith);
                        assert(data@ =~= target.take(((rr + 1) * nc) as int));
                    }
                    rr = rr + 1;
                } else {
                    let mut cc: usize = 0;
                    proof {
                        assert(rr * nc + nc <= nr * nc) by (nonlinear_arith)
                            requires
                                rr < nr,
                                nc >= 0,
                        ;
                    }
                    while cc < nc
                        invariant
                            0 <= cc <= nc,
                            0 <= rr < nr,
                            nc >= 1,
                            nr == *end_row - *start_row + 1,
                            *end_row + 1 < rows@.len(),
                            rows@.len() <= usize::MAX,
                            g == grid_view(rows@),
                            target == Seq::new(
                                (nr * nc) as nat,
                                |k: int|
                                    if k % (nc as int) < g[*start_row + 1 + k / (nc as int)].len() {
                                        spec_cell_dec(
                                            g[*start_row + 1 + k / (nc as int)][k % (nc as int)],
                                        )
                                    } else {
                                        Dec { m: 0, e: 0 }
                                    },
                            ),
                            decs_valid(data@),
                            data@ == target.take((rr * nc + cc) as int),
                            rr * nc + nc <= nr * nc,
                        decreases nc - cc,
                    {
                        let ghost k = (rr * nc + cc) as int;
                        proof {
                            assert(k / (nc as int) == rr as int && k % (nc as int) == cc as int)
                                by (nonlinear_arith)
                                requires
                                    k == rr * nc + cc,
                                    0 <= (cc as int) < nc as int,
                                    0 <= rr as int,
                            ;
                            assert(g[*start_row + 1 + rr as int].len() == rows@[*start_row + 1
                                + rr as int]@.len());
                        }
                        let d = if cc < rows[*start_row + 1 + rr].len() {
                            proof {
                                assert(g[*start_row + 1 + rr as int][cc as int] == rows@[*start_row
                                    + 1 + rr as int]@[cc as int]@);
                            }
                            cell_dec(&rows[*start_row + 1 + rr][cc])
                        } else {
                            Dec { m: 0, e: 0 }
                        };
                        data.push(d);
                        proof {
                            assert(data@ =~= target.take(k + 1));
                        }
                        cc = cc + 1;
                    }
                    proof {
                        assert((rr + 1) * nc == rr * nc + nc) by (nonlinear_arith);
                    }
                    rr = rr + 1;
                }
            }
            proof {
                assert(data@ =~= target);
            }
            Ok(Value::Matrix { rows: nr, cols: nc, data })
        },
    }
}

} // verus!

verus! {

/// The whole data region of a grid as one matrix; cells missing from short
/// rows count as zero.
pub open spec fn spec_table_to_matrix(g: Seq<Seq<Seq<char>>>) -> Result<SpecVal, SpecErr> {
    if g.len() < 2 {
        Err(SpecErr::RuntimeError("table has no data rows"@))
    } else if g.len() == 2 {
        Ok(SpecVal::Matrix { rows: 0, cols: 0, data: Seq::empty() })
    } else {
        let nr = (g.len() - 2) as nat;
        let nc = g[2].len();
        Ok(
            SpecVal::Matrix {
                rows: nr,
                cols: nc,
                data: Seq::new(
                    nr * nc,
                    |k: int|
                        if k % (nc as int) < g[2 + k / (nc as int)].len() {
                            spec_cell_dec(g[2 + k / (nc as int)][k % (nc as int)])
                        } else {
                            Dec { m: 0, e: 0 }
                        },
                ),
            },
        )
    }
}

/// Reads the entire data region of a grid as one matrix.
pub fn table_to_matrix(rows: &Vec<Vec<String>>) -> (r: Result<Value, FormulaError>)
    ensures
        (match spec_table_to_matrix(grid_view(rows@)) {
            Ok(sv) => r matches Ok(v) && v@ == sv && sv_wf(sv),
            Err(se) => r matches Err(e) && e@ == se,
        }),
{
    let ghost g = grid_view(rows@);
    if rows.len() < 2 {
        let msg = str_chars("table has no data rows");
        return Err(FormulaError::RuntimeError(chars_string(&msg)));
    }
    if rows.len() == 2 {
        let data: Vec<Dec> = Vec::new();
        proof {
            assert(data@ =~= Seq::<Dec>::empty());
        }
        return Ok(Value::Matrix { rows: 0, cols: 0, data });
    }
    let nr: usize = rows.len() - 2;
    let nc: usize = rows[2].len();
    proof {
        assert(g[2].len() == rows@[2]@.len());
    }
    let ghost target = Seq::new(
        ((nr * nc) as nat) as nat,
        |k: int|
            if k % (nc as int) < g[2 + k / (nc as int)].len() {
                spec_cell_dec(g[2 + k / (nc as int)][k % (nc as int)])
            } else {
                Dec { m: 0, e: 0 }
            },
    );
    let mut data: Vec<Dec> = Vec::new();
    let mut rr: usize = 0;
    proof {
        assert(data@ =~= target.take(0));
    }
    while rr < nr
        invariant
            0 <= rr <= nr,
            nr == rows@.len() - 2,
            nc == g[2].len(),
            rows@.len() <= usize::MAX,
            g == grid_view(rows@),
            target == Seq::new(
                ((nr * nc) as nat) as nat,
                |k: int|
                    if k % (nc as int) < g[2 + k / (nc as int)].len() {
                        spec_cell_dec(g[2 + k / (nc as int)][k % (nc as int)])
                    } else {
                        Dec { m: 0, e: 0 }
                    },
            ),
            decs_valid(data@),
            data@ == target.take((rr * nc) as int),
            rr * nc <= nr * nc,
        decreases nr - rr,
    {
        if nc == 0 {
            proof {
                assert(rr * 0 == 0) by (nonlinear_arith);
                assert((rr + 1) * 0 == 0) by (nonlinear_arith);
                assert(data@ =~= target.take(((rr + 1) * nc) as int));
            }
            rr = rr + 1;
        } else {
            let mut cc: usize = 0;
            proof {
                assert(rr * nc + nc <= nr * nc) by (nonlinear_arith)
                    requires
                        rr < nr,
                        nc >= 0,
                ;
            }
            while cc < nc
                invariant
                    0 <= cc <= nc,
                    0 <= rr < nr,
                    nc >= 1,
                    nr == rows@.len() - 2,
                    nc == g[2].len(),
                    rows@.len() <= usize::MAX,
                    g == grid_view(rows@),
                    target == Seq::new(
                        ((nr * nc) as nat) as nat,
                        |k: int|
                            if k % (nc as int) < g[2 + k / (nc as int)].len() {
                                spec_cell_dec(g[2 + k / (nc as int)][k % (nc as int)])
                            } else {
                                Dec { m: 0, e: 0 }
                            },
                    ),
                    decs_valid(data@),
                    data@ == target.take((rr * nc + cc) as int),
                    rr * nc + nc <= nr * nc,
                decreases nc - cc,
            {
                let ghost k = (rr * nc + cc) as int;
                proof {
                    assert(k / (nc as int) == rr as int && k % (nc as int) == cc as int)
                        by (nonlinear_arith)
                        requires
                            k == rr * nc + cc,
                            0 <= (cc as int) < nc as int,
                            0 <= rr as int,
                    ;
                    assert(g[2 + rr as int].len() == rows@[2 + rr as int]@.len());
                }
                let d = if cc < rows[2 + rr].len() {
                    proof {
                        assert(g[2 + rr as int][cc as int] == rows@[2 + rr as int]@[cc as int]@);
                    }
                    cell_dec(&rows[2 + rr][cc])
                } else {
                    Dec { m: 0, e: 0 }
                };
                data.push(d);
                proof {
                    assert(data@ =~= target.take(k + 1));
                }
                cc = cc + 1;
            }
            proof {
                assert((rr + 1) * nc == rr * nc + nc) by (nonlinear_arith);
            }
            rr = rr + 1;
        }
    }
    proof {
        assert(data@ =~= target);
    }
    Ok(Value::Matrix { rows: nr, cols: nc, data })
}

} // verus!
