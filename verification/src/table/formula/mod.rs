//! The formula engine: tokenizer, parser, evaluator and the statement
//! engine that applies a list of formulas to a grid.

pub mod ast;
pub mod reference;
pub mod tokenizer;
pub mod types;
pub mod evaluator;

pub use types::{Span, Value, SpecVal, CellReference, Assignment, Statement};

use vstd::prelude::*;
use crate::decimal::{Dec, string_of};
use crate::strutil::{append_chars, chars_string, eq_chars, find_chars, spec_find, spec_lines,
    spec_split, spec_split_once, spec_starts_with, spec_trim, split_chars, split_once_chars,
    starts_with_chars, str_chars, subrange_chars, trim_chars, usize_to_chars, spec_nat_str};
use crate::table::error::{FormulaError, SpecErr, spec_err_message};
use crate::table::formula::ast::{Expr, SpecExpr, Parser, expr_view, spec_parse, spec_expr_wf};
use crate::table::formula::evaluator::{eval_ast_with_tables, spec_eval, tables_map, vars_map,
    vars_wf};
use crate::table::formula::reference::{grid_view, parse_cell_reference,
    spec_parse_cell_reference, ref_ok, spec_resolve, resolve_reference};
use crate::table::formula::types::{sv_wf, decs_valid};
use crate::table::formula::tokenizer::{tokenize_expression, spec_tokenize, tok_views};

verus! {

/// The model of a [`Statement`].
pub ghost enum SpecStmt {
    Let { name: Seq<char>, span: Span },
    Assignment(Assignment),
}

pub open spec fn stmt_view(s: Statement) -> SpecStmt {
    match s {
        Statement::Let { name, span } => SpecStmt::Let { name: name@, span: span },
        Statement::Assignment(a) => SpecStmt::Assignment(a),
    }
}

/// The bounds a parsed assignment target satisfies.
pub open spec fn ass_ok(a: Assignment) -> bool {
    match a {
        Assignment::Scalar { row, col } => col <= 25 && row < usize::MAX,
        Assignment::ColumnVector { col } => col <= 25,
        Assignment::RowVector { row } => 1 <= row && row < usize::MAX,
        Assignment::Range { start_row, start_col, end_row, end_col } => start_col <= end_col <= 25
            && start_row <= end_row < usize::MAX,
        Assignment::ColumnRange { start_col, end_col } => start_col <= end_col <= 25,
        Assignment::RowRange { start_row, end_row } => 1 <= start_row <= end_row < usize::MAX,
    }
}

/// The write target named by the left side of a formula: one of the six
/// reference shapes, or a range of two like shapes in order.
pub open spec fn spec_parse_assignment(target: Seq<char>) -> Option<Assignment> {
    let t = spec_trim(target);
    if crate::strutil::spec_contains_char(t, ':') {
        let parts = spec_split(t, ':');
        if parts.len() != 2 {
            None
        } else {
            match (spec_parse_cell_reference(parts[0]), spec_parse_cell_reference(parts[1])) {
                (Some(s), Some(e)) => match (s, e) {
                    (
                        CellReference::Scalar { row: sr, col: sc },
                        CellReference::Scalar { row: er, col: ec },
                    ) => if sr <= er && sc <= ec {
                        Some(
                            Assignment::Range {
                                start_row: sr,
                                start_col: sc,
                                end_row: er,
                                end_col: ec,
                            },
                        )
                    } else {
                        None
                    },
                    (
                        CellReference::ColumnVector { col: sc },
                        CellReference::ColumnVector { col: ec },
                    ) => if sc <= ec {
                        Some(Assignment::ColumnRange { start_col: sc, end_col: ec })
                    } else {
                        None
                    },
                    (
                        CellReference::RowVector { row: sr },
                        CellReference::RowVector { row: er },
                    ) => if sr <= er {
                        Some(Assignment::RowRange { start_row: sr, end_row: er })
                    } else {
                        None
                    },
                    _ => None,
                },
                _ => None,
            }
        }
    } else {
        match spec_parse_cell_reference(t) {
            Some(CellReference::Scalar { row, col }) => Some(Assignment::Scalar { row, col }),
            Some(CellReference::ColumnVector { col }) => Some(Assignment::ColumnVector { col }),
            Some(CellReference::RowVector { row }) => Some(Assignment::RowVector { row }),
            _ => None,
        }
    }
}

/// Parses an assignment target.
pub fn parse_assignment(target: &str) -> (r: Option<Assignment>)
    ensures
        r == spec_parse_assignment(target@),
        r is Some ==> ass_ok(r->0),
{
    let raw = str_chars(target);
    let t = trim_chars(&raw);
    if crate::strutil::contains_char(&t, ':') {
        let parts = split_chars(&t, ':');
        if parts.len() != 2 {
            proof {
                assert(crate::strutil::views(parts@).len() == parts@.len());
            }
            return None;
        }
        proof {
            assert(crate::strutil::views(parts@)[0] == parts@[0]@);
            assert(crate::strutil::views(parts@)[1] == parts@[1]@);
        }
        let p0 = chars_string(&parts[0]);
        let p1 = chars_string(&parts[1]);
        let s = parse_cell_reference(p0.as_str());
        let e = parse_cell_reference(p1.as_str());
        match (s, e) {
            (
                Some(CellReference::Scalar { row: sr, col: sc }),
                Some(CellReference::Scalar { row: er, col: ec }),
            ) => {
                if sr <= er && sc <= ec {
                    Some(Assignment::Range { start_row: sr, start_col: sc, end_row: er, end_col: ec })
                } else {
                    None
                }
            },
            (
                Some(CellReference::ColumnVector { col: sc }),
                Some(CellReference::ColumnVector { col: ec }),
            ) => {
                if sc <= ec {
                    Some(Assignment::ColumnRange { start_col: sc, end_col: ec })
                } else {
                    None
                }
            },
            (
                Some(CellReference::RowVector { row: sr }),
                Some(CellReference::RowVector { row: er }),
            ) => {
                if sr <= er {
                    Some(Assignment::RowRange { start_row: sr, end_row: er })
                } else {
                    None
                }
            },
            _ => None,
        }
    } else {
        proof {
            crate::strutil::lemma_trim_idempotent(raw@);
        }
        match parse_cell_reference(target) {
            Some(CellReference::Scalar { row, col }) => Some(Assignment::Scalar { row, col }),
            Some(CellReference::ColumnVector { col }) => Some(Assignment::ColumnVector { col }),
            Some(CellReference::RowVector { row }) => Some(Assignment::RowVector { row }),
            _ => None,
        }
    }
}

/// Splits `TARGET = EXPR` into the parsed target and the expression text.
pub open spec fn spec_parse_formula(formula: Seq<char>) -> Option<(Assignment, Seq<char>)> {
    let parts = spec_split(formula, '=');
    if parts.len() == 2 {
        match spec_parse_assignment(parts[0]) {
            Some(a) => Some((a, spec_trim(parts[1]))),
            None => None,
        }
    } else {
        None
    }
}

pub fn parse_formula(formula: &str) -> (r: Option<(Assignment, String)>)
    ensures
        (r is Some <==> spec_parse_formula(formula@) is Some),
        r is Some ==> ((r->0).0 == (spec_parse_formula(formula@)->0).0 && (r->0).1@
            == (spec_parse_formula(formula@)->0).1 && ass_ok((r->0).0)),
{
    let raw = str_chars(formula);
    let parts = split_chars(&raw, '=');
    if parts.len() != 2 {
        proof {
            assert(crate::strutil::views(parts@).len() == parts@.len());
        }
        return None;
    }
    proof {
        assert(crate::strutil::views(parts@)[0] == parts@[0]@);
        assert(crate::strutil::views(parts@)[1] == parts@[1]@);
    }
    let p0 = chars_string(&parts[0]);
    match parse_assignment(p0.as_str()) {
        Some(a) => {
            let rhs = trim_chars(&parts[1]);
            Some((a, chars_string(&rhs)))
        },
        None => None,
    }
}

/// Would the name collide with cell-reference syntax?
pub fn is_cell_reference_like(name: &str) -> (r: bool)
    ensures
        r == (spec_parse_cell_reference(name@) is Some),
{
    parse_cell_reference(name).is_some()
}

pub open spec fn s_let_kw() -> Seq<char> {
    seq!['l', 'e', 't', ' ']
}

/// Splits one formula into its statement and its expression text:
/// `let NAME = EXPR` binds a variable (a name that reads as a cell
/// reference is refused), anything else must be `TARGET = EXPR`.
pub open spec fn spec_parse_statement(formula: Seq<char>) -> Option<(SpecStmt, Seq<char>)> {
    let f = spec_trim(formula);
    if spec_starts_with(f, s_let_kw()) {
        let rest = spec_trim(f.skip(4));
        match spec_split_once(rest, '=') {
            None => None,
            Some((l, r)) => {
                let name = spec_trim(l);
                let expr = spec_trim(r);
                if name.len() == 0 {
                    None
                } else if spec_parse_cell_reference(name) is Some {
                    None
                } else {
                    Some(
                        (
                            SpecStmt::Let {
                                name: name,
                                span: Span { start: 0, end: f.len() as usize },
                            },
                            expr,
                        ),
                    )
                }
            },
        }
    } else {
        let parts = spec_split(f, '=');
        if parts.len() == 2 {
            match spec_parse_assignment(parts[0]) {
                Some(a) => Some((SpecStmt::Assignment(a), spec_trim(parts[1]))),
                None => None,
            }
        } else {
            None
        }
    }
}

pub fn parse_statement(formula: &str) -> (r: Option<(Statement, String)>)
    ensures
        (r is Some <==> spec_parse_statement(formula@) is Some),
        r is Some ==> (stmt_view((r->0).0) == (spec_parse_statement(formula@)->0).0 && (r->0).1@
            == (spec_parse_statement(formula@)->0).1),
        r is Some ==> (match (r->0).0 {
            Statement::Assignment(a) => ass_ok(a),
            Statement::Let { .. } => true,
        }),
{
    let raw = str_chars(formula);
    let f = trim_chars(&raw);
    let kw = vec!['l', 'e', 't', ' '];
    proof {
        assert(kw@ =~= s_let_kw());
    }
    if starts_with_chars(&f, &kw) {
        let after = subrange_chars(&f, 4, f.len());
        proof {
            assert(after@ =~= f@.skip(4));
        }
        let rest = trim_chars(&after);
        match split_once_chars(&rest, '=') {
            None => None,
            Some((l, rr)) => {
                let name = trim_chars(&l);
                let expr = trim_chars(&rr);
                if name.len() == 0 {
                    return None;
                }
                let name_s = chars_string(&name);
                if is_cell_reference_like(name_s.as_str()) {
                    return None;
                }
                Some(
                    (
                        Statement::Let { name: name_s, span: Span { start: 0, end: f.len() } },
                        chars_string(&expr),
                    ),
                )
            },
        }
    } else {
        let parts = split_chars(&f, '=');
        if parts.len() != 2 {
            proof {
                assert(crate::strutil::views(parts@).len() == parts@.len());
            }
            return None;
        }
        proof {
            assert(crate::strutil::views(parts@)[0] == parts@[0]@);
            assert(crate::strutil::views(parts@)[1] == parts@[1]@);
        }
        let p0 = chars_string(&parts[0]);
        match parse_assignment(p0.as_str()) {
            Some(a) => {
                let rhs = trim_chars(&parts[1]);
                Some((Statement::Assignment(a), chars_string(&rhs)))
            },
            None => None,
        }
    }
}

} // verus!

verus! {

use vstd::pervasive::VecAdditionalExecFns;

/// Where in the expression text an error can be pointed at, judging from
/// the error's own contents.
pub open spec fn spec_extract_error_span(expr: Seq<char>, e: SpecErr) -> Option<Span> {
    match e {
        SpecErr::UnexpectedToken { position, .. } => if position < usize::MAX {
            Some(Span { start: position as usize, end: (position + 1) as usize })
        } else {
            None
        },
        SpecErr::InvalidToken { token, .. } => match spec_find(expr, token) {
            Some(pos) => Some(
                Span { start: pos as usize, end: (pos + token.len()) as usize },
            ),
            None => None,
        },
        SpecErr::CellOutOfBounds { cell, .. } => match spec_find(expr, cell) {
            Some(pos) => Some(Span { start: pos as usize, end: (pos + cell.len()) as usize }),
            None => None,
        },
        SpecErr::ColumnOutOfBounds { column, .. } => match spec_find(expr, column) {
            Some(pos) => Some(Span { start: pos as usize, end: (pos + column.len()) as usize }),
            None => None,
        },
        SpecErr::RowOutOfBounds { row, .. } => {
            let pat = seq!['_'] + spec_nat_str(row);
            match spec_find(expr, pat) {
                Some(pos) => Some(Span { start: pos as usize, end: (pos + pat.len()) as usize }),
                None => None,
            }
        },
        SpecErr::UnknownFunction { name, .. } => match spec_find(expr, name) {
            Some(pos) => Some(Span { start: pos as usize, end: (pos + name.len()) as usize }),
            None => None,
        },
        SpecErr::RuntimeError(msg) => {
            let marker = "unknown function: '"@;
            match spec_find(msg, marker) {
                Some(start) => {
                    let rest = msg.skip(start + marker.len());
                    if crate::strutil::first_occ(rest, '\'') < rest.len() {
                        let fname = rest.take(crate::strutil::first_occ(rest, '\'') as int);
                        match spec_find(expr, fname) {
                            Some(pos) => Some(
                                Span { start: pos as usize, end: (pos + fname.len()) as usize },
                            ),
                            None => None,
                        }
                    } else {
                        None
                    }
                },
                None => None,
            }
        },
        _ => None,
    }
}

/// Guesses the span an error refers to by searching the expression text for
/// what the error names.
pub fn extract_error_span(expr: &str, error: &FormulaError) -> (r: Option<Span>)
    ensures
        r == spec_extract_error_span(expr@, error@),
        r is Some ==> r->0.start <= r->0.end,
{
    let ev = str_chars(expr);
    let ev_len = ev.len();
    proof {
        assert(ev@.len() == ev_len);
    }
    match error {
        FormulaError::UnexpectedToken { position, .. } => {
            if *position < usize::MAX {
                Some(Span::single(*position))
            } else {
                None
            }
        },
        FormulaError::InvalidToken { token, .. } => {
            let tv = str_chars(token.as_str());
            match find_chars(&ev, &tv) {
                Some(pos) => Some(Span { start: pos, end: pos + tv.len() }),
                None => None,
            }
        },
        FormulaError::CellOutOfBounds { cell, .. } => {
            let tv = str_chars(cell.as_str());
            match find_chars(&ev, &tv) {
                Some(pos) => Some(Span { start: pos, end: pos + tv.len() }),
                None => None,
            }
        },
        FormulaError::ColumnOutOfBounds { column, .. } => {
            let tv = str_chars(column.as_str());
            match find_chars(&ev, &tv) {
                Some(pos) => Some(Span { start: pos, end: pos + tv.len() }),
                None => None,
            }
        },
        FormulaError::RowOutOfBounds { row, .. } => {
            let mut pat: Vec<char> = Vec::new();
            pat.push('_');
            let num = usize_to_chars(*row);
            append_chars(&mut pat, &num);
            proof {
                assert(pat@ =~= seq!['_'] + spec_nat_str(*row as nat));
            }
            match find_chars(&ev, &pat) {
                Some(pos) => Some(Span { start: pos, end: pos + pat.len() }),
                None => None,
            }
        },
        FormulaError::UnknownFunction { name, .. } => {
            let tv = str_chars(name.as_str());
            match find_chars(&ev, &tv) {
                Some(pos) => Some(Span { start: pos, end: pos + tv.len() }),
                None => None,
            }
        },
        FormulaError::RuntimeError(msg) => {
            let mv = str_chars(msg.as_str());
            let mv_len = mv.len();
            proof {
                assert(mv@.len() == mv_len);
            }
            let marker = str_chars("unknown function: '");
            match find_chars(&mv, &marker) {
                Some(start) => {
                    let rest = subrange_chars(&mv, start + marker.len(), mv.len());
                    proof {
                        assert(rest@ =~= mv@.skip(start + marker@.len()));
                    }
                    match split_once_chars(&rest, '\'') {
                        Some((fname, _)) => {
                            match find_chars(&ev, &fname) {
                                Some(pos) => Some(Span { start: pos, end: pos + fname.len() }),
                                None => None,
                            }
                        },
                        None => None,
                    }
                },
                None => None,
            }
        },
        _ => None,
    }
}

/// What one expression text evaluates to: tokenize, parse, then evaluate.
pub open spec fn spec_evaluate_expression(
    s: Seq<char>,
    g: Seq<Seq<Seq<char>>>,
    tables: Map<Seq<char>, Seq<Seq<Seq<char>>>>,
    vars: Map<Seq<char>, SpecVal>,
) -> Result<SpecVal, SpecErr> {
    match spec_parse(spec_tokenize(s)) {
        Ok(e) => spec_eval(e, g, tables, vars),
        Err(se) => Err(se),
    }
}

/// Evaluates one expression text against the grid, other tables and bound
/// variables.
pub fn evaluate_expression_value_with_tables(
    expr: &str,
    rows: &Vec<Vec<String>>,
    table_map: &Vec<(String, Vec<Vec<String>>)>,
    variable_map: &Vec<(String, Value)>,
) -> (r: Result<Value, FormulaError>)
    requires
        vars_wf(variable_map@),
    ensures
        (match spec_evaluate_expression(
            expr@,
            grid_view(rows@),
            tables_map(table_map@),
            vars_map(variable_map@),
        ) {
            Ok(sv) => r matches Ok(v) && v@ == sv && sv_wf(sv),
            Err(se) => r matches Err(e) && e@ == se,
        }),
{
    let tokens = tokenize_expression(expr);
    let mut parser = Parser::new(tokens);
    match parser.parse() {
        Err(e) => Err(e),
        Ok(ast) => eval_ast_with_tables(&ast, rows, table_map, variable_map),
    }
}

/// Evaluates one expression text against the grid alone.
pub fn evaluate_expression_value(expr: &str, rows: &Vec<Vec<String>>) -> (r: Result<
    Value,
    FormulaError,
>)
    ensures
        (match spec_evaluate_expression(
            expr@,
            grid_view(rows@),
            Map::empty(),
            Map::empty(),
        ) {
            Ok(sv) => r matches Ok(v) && v@ == sv && sv_wf(sv),
            Err(se) => r matches Err(e) && e@ == se,
        }),
{
    let table_map: Vec<(String, Vec<Vec<String>>)> = Vec::new();
    let variable_map: Vec<(String, Value)> = Vec::new();
    proof {
        assert(tables_map(table_map@) =~= Map::<Seq<char>, Seq<Seq<Seq<char>>>>::empty());
        assert(vars_map(variable_map@) =~= Map::<Seq<char>, SpecVal>::empty());
    }
    evaluate_expression_value_with_tables(expr, rows, &table_map, &variable_map)
}

/// A test helper: evaluation of an already-parsed expression with no other
/// tables or variables.
pub fn eval_ast(expr: &Expr, rows: &Vec<Vec<String>>) -> (r: Result<Value, FormulaError>)
    requires
        spec_expr_wf(expr_view(*expr)),
    ensures
        (match spec_eval(expr_view(*expr), grid_view(rows@), Map::empty(), Map::empty()) {
            Ok(sv) => r matches Ok(v) && v@ == sv && sv_wf(sv),
            Err(se) => r matches Err(e) && e@ == se,
        }),
{
    let table_map: Vec<(String, Vec<Vec<String>>)> = Vec::new();
    let variable_map: Vec<(String, Value)> = Vec::new();
    proof {
        assert(tables_map(table_map@) =~= Map::<Seq<char>, Seq<Seq<Seq<char>>>>::empty());
        assert(vars_map(variable_map@) =~= Map::<Seq<char>, SpecVal>::empty());
    }
    eval_ast_with_tables(expr, rows, &table_map, &variable_map)
}

} // verus!

verus! {

/// Writing one cell: the grid with `g[r][c]` replaced.
pub open spec fn spec_write_cell(g: Seq<Seq<Seq<char>>>, r: int, c: int, s: Seq<char>) -> Seq<
    Seq<Seq<char>>,
> {
    g.update(r, g[r].update(c, s))
}

fn set_cell(rows: &mut Vec<Vec<String>>, r: usize, c: usize, s: String)
    requires
        r < old(rows)@.len(),
        c < old(rows)@[r as int]@.len(),
    ensures
        grid_view(final(rows)@) == spec_write_cell(grid_view(old(rows)@), r as int, c as int, s@),
        final(rows)@.len() == old(rows)@.len(),
{
    let ghost g0 = grid_view(rows@);
    let ghost sv = s@;
    let row = &mut rows[r];
    row.set(c, s);
    proof {
        assert(grid_view(rows@) =~~= spec_write_cell(g0, r as int, c as int, sv));
    }
}

/// A whole column of values written below the header, one per data row
/// that is wide enough.
pub open spec fn spec_apply_colvec(g: Seq<Seq<Seq<char>>>, col: int, data: Seq<Dec>) -> Seq<
    Seq<Seq<char>>,
> {
    Seq::new(
        g.len(),
        |r: int|
            if 2 <= r < 2 + data.len() && col < g[r].len() {
                g[r].update(col, string_of(data[r - 2]))
            } else {
                g[r]
            },
    )
}

/// Writes a column vector into column `col`, skipping rows that do not
/// reach it.
pub fn apply_column_vector_assignment(rows: &mut Vec<Vec<String>>, col: usize, value: &Value)
    requires
        sv_wf(value@),
    ensures
        (value@ is Matrix && value@->Matrix_cols == 1) ==> grid_view(final(rows)@)
            == spec_apply_colvec(grid_view(old(rows)@), col as int, value@->Matrix_data),
        !(value@ is Matrix && value@->Matrix_cols == 1) ==> final(rows)@ == old(rows)@,
        final(rows)@.len() == old(rows)@.len(),
{
    let ghost g0 = grid_view(rows@);
    match value {
        Value::Matrix { cols: 1, data, .. } => {
            let mut i: usize = 0;
            while i < data.len()
                invariant
                    0 <= i <= data@.len(),
                    decs_valid(data@),
                    rows@.len() == g0.len(),
                    grid_view(rows@) == Seq::new(
                        g0.len(),
                        |r: int|
                            if 2 <= r < 2 + i && col < g0[r].len() {
                                g0[r].update(col as int, string_of(data@[r - 2]))
                            } else {
                                g0[r]
                            },
                    ),
                decreases data@.len() - i,
            {
                let n = rows.len();
                if n > 2 && i < n - 2 {
                    let row_idx = 2 + i;
                    proof {
                        assert(grid_view(rows@)[row_idx as int].len()
                            == rows@[row_idx as int]@.len());
                    }
                    if col < rows[row_idx].len() {
                        let s = crate::decimal::dec_to_string(&data[i]);
                        set_cell(rows, row_idx, col, s);
                        proof {
                            assert(grid_view(rows@) =~~= Seq::new(
                                g0.len(),
                                |r: int|
                                    if 2 <= r < 2 + (i + 1) && col < g0[r].len() {
                                        g0[r].update(col as int, string_of(data@[r - 2]))
                                    } else {
                                        g0[r]
                                    },
                            ));
                        }
                    } else {
                        proof {
                            assert(grid_view(rows@) =~~= Seq::new(
                                g0.len(),
                                |r: int|
                                    if 2 <= r < 2 + (i + 1) && col < g0[r].len() {
                                        g0[r].update(col as int, string_of(data@[r - 2]))
                                    } else {
                                        g0[r]
                                    },
                            ));
                        }
                    }
                } else {
                    proof {
                        assert(grid_view(rows@) =~~= Seq::new(
                            g0.len(),
                            |r: int|
                                if 2 <= r < 2 + (i + 1) && col < g0[r].len() {
                                    g0[r].update(col as int, string_of(data@[r - 2]))
                                } else {
                                    g0[r]
                                },
                        ));
                    }
                }
                i = i + 1;
            }
            proof {
                assert(grid_view(rows@) =~~= spec_apply_colvec(g0, col as int, data@));
            }
        },
        _ => {
            proof {
                assert(rows@ == rows@);
            }
        },
    }
}

} // verus!

verus! {

/// A row of values written across row `row`, one per cell the row has.
pub open spec fn spec_apply_rowvec(g: Seq<Seq<Seq<char>>>, row: int, data: Seq<Dec>) -> Seq<
    Seq<Seq<char>>,
> {
    if 0 <= row < g.len() {
        g.update(
            row,
            Seq::new(
                g[row].len(),
                |c: int|
                    if c < data.len() {
                        string_of(data[c])
                    } else {
                        g[row][c]
                    },
            ),
        )
    } else {
        g
    }
}

/// Writes a row vector across grid row `row`.
pub fn apply_row_vector_assignment(rows: &mut Vec<Vec<String>>, row: usize, value: &Value)
    requires
        sv_wf(value@),
    ensures
        (value@ is Matrix && value@->Matrix_rows == 1) ==> grid_view(final(rows)@)
            == spec_apply_rowvec(grid_view(old(rows)@), row as int, value@->Matrix_data),
        !(value@ is Matrix && value@->Matrix_rows == 1) ==> final(rows)@ == old(rows)@,
        final(rows)@.len() == old(rows)@.len(),
{
    let ghost g0 = grid_view(rows@);
    match value {
        Value::Matrix { rows: 1, data, .. } => {
            let mut i: usize = 0;
            proof {
                assert(grid_view(rows@) =~~= (if 0 <= row < g0.len() {
                    g0.update(
                        row as int,
                        Seq::new(
                            g0[row as int].len(),
                            |c: int|
                                if c < 0 && c < data@.len() {
                                    string_of(data@[c])
                                } else {
                                    g0[row as int][c]
                                },
                        ),
                    )
                } else {
                    g0
                }));
            }
            while i < data.len()
                invariant
                    0 <= i <= data@.len(),
                    decs_valid(data@),
                    rows@.len() == g0.len(),
                    grid_view(rows@) == (if 0 <= row < g0.len() {
                        g0.update(
                            row as int,
                            Seq::new(
                                g0[row as int].len(),
                                |c: int|
                                    if c < i && c < data@.len() {
                                        string_of(data@[c])
                                    } else {
                                        g0[row as int][c]
                                    },
                            ),
                        )
                    } else {
                        g0
                    }),
                decreases data@.len() - i,
            {
                if row < rows.len() {
                    proof {
                        assert(grid_view(rows@)[row as int].len() == rows@[row as int]@.len());
                    }
                    if i < rows[row].len() {
                        let s = crate::decimal::dec_to_string(&data[i]);
                        set_cell(rows, row, i, s);
                    }
                }
                proof {
                    assert(grid_view(rows@) =~~= (if 0 <= row < g0.len() {
                        g0.update(
                            row as int,
                            Seq::new(
                                g0[row as int].len(),
                                |c: int|
                                    if c < i + 1 && c < data@.len() {
                                        string_of(data@[c])
                                    } else {
                                        g0[row as int][c]
                                    },
                            ),
                        )
                    } else {
                        g0
                    }));
                }
                i = i + 1;
            }
            proof {
                assert(grid_view(rows@) =~~= spec_apply_rowvec(g0, row as int, data@));
            }
        },
        _ => {
            proof {
                assert(rows@ == rows@);
            }
        },
    }
}

/// A rectangle of values written over `[sr..=er] x [sc..=ec]`, row-major,
/// touching only cells the grid has.
pub open spec fn spec_apply_rect(
    g: Seq<Seq<Seq<char>>>,
    sr: int,
    sc: int,
    nr: int,
    nc: int,
    data: Seq<Dec>,
    k: int,
) -> Seq<Seq<Seq<char>>> {
    Seq::new(
        g.len(),
        |r: int|
            Seq::new(
                g[r].len(),
                |c: int|
                    if sr <= r < sr + nr && sc <= c < sc + nc && (r - sr) * nc + (c - sc) < k {
                        string_of(data[(r - sr) * nc + (c - sc)])
                    } else {
                        g[r][c]
                    },
            ),
    )
}

/// Writes `data` (of `nr x nc` shape) into the rectangle whose top-left
/// grid corner is `(sr, sc)`; cells outside the grid are skipped.
#[verifier::rlimit(100)]
#[verifier::spinoff_prover]
fn write_rect(rows: &mut Vec<Vec<String>>, sr: usize, sc: usize, nr: usize, nc: usize, data: &Vec<
    Dec,
>)
    requires
        decs_valid(data@),
        data@.len() == nr * nc,
        nc >= 1,
        sr + nr <= usize::MAX,
        sc + nc <= usize::MAX,
    ensures
        grid_view(final(rows)@) == spec_apply_rect(
            grid_view(old(rows)@),
            sr as int,
            sc as int,
            nr as int,
            nc as int,
            data@,
            data@.len() as int,
        ),
        final(rows)@.len() == old(rows)@.len(),
{
    let ghost g0 = grid_view(rows@);
    let total = data.len();
    let mut k: usize = 0;
    proof {
        assert(grid_view(rows@) =~~= spec_apply_rect(
            g0,
            sr as int,
            sc as int,
            nr as int,
            nc as int,
            data@,
            0,
        ));
    }
    while k < total
        invariant
            0 <= k <= total,
            total == data@.len(),
            data@.len() == nr * nc,
            nc >= 1,
            sr + nr <= usize::MAX,
            sc + nc <= usize::MAX,
            decs_valid(data@),
            rows@.len() == g0.len(),
            grid_view(rows@) == spec_apply_rect(
                g0,
                sr as int,
                sc as int,
                nr as int,
                nc as int,
                data@,
                k as int,
            ),
        decreases total - k,
    {
        proof {
            assert((k as int) / (nc as int) < nr as int && (k as int) % (nc as int) < nc as int)
                by (nonlinear_arith)
                requires
                    0 <= (k as int) < (nr as int) * (nc as int),
                    nc as int >= 1,
            ;
        }
        let r = sr + k / nc;
        let c = sc + k % nc;
        proof {
            assert((r - sr) * (nc as int) + (c - sc) == k as int) by (nonlinear_arith)
                requires
                    r == sr + (k as int) / (nc as int),
                    c == sc + (k as int) % (nc as int),
                    nc as int >= 1,
                    k as int >= 0,
            ;
        }
        if r < rows.len() {
            proof {
                assert(grid_view(rows@)[r as int].len() == rows@[r as int]@.len());
            }
            if c < rows[r].len() {
                let s = crate::decimal::dec_to_string(&data[k]);
                set_cell(rows, r, c, s);
            }
        }
        proof {
            assert forall|rr: int, cc: int|
                #![trigger g0[rr][cc]]
                0 <= rr < g0.len() && 0 <= cc < g0[rr].len() && !(rr == r && cc == c) implies (
            (sr <= rr < sr + nr && sc <= cc < sc + nc && (rr - sr) * (nc as int) + (cc - sc) < k
                + 1) == (sr <= rr < sr + nr && sc <= cc < sc + nc && (rr - sr) * (nc as int) + (cc
                - sc) < k)) by {
                if sr <= rr < sr + nr && sc <= cc < sc + nc {
                    assert((rr - sr) * (nc as int) + (cc - sc) == k as int ==> rr == r && cc == c)
                        by (nonlinear_arith)
                        requires
                            sr <= rr < sr + nr,
                            sc <= cc < sc + nc,
                            r == sr + (k as int) / (nc as int),
                            c == sc + (k as int) % (nc as int),
                            nc as int >= 1,
                            k as int >= 0,
                    ;
                }
            }
            assert(grid_view(rows@) =~~= spec_apply_rect(
                g0,
                sr as int,
                sc as int,
                nr as int,
                nc as int,
                data@,
                k + 1,
            ));
        }
        k = k + 1;
    }
}

} // verus!

verus! {

pub open spec fn s_assign_fail(t: Seq<char>, reason: Seq<char>) -> Seq<char> {
    "Assignment failed for '"@ + t + "': "@ + reason
}

fn assign_fail(t: &Vec<char>, reason: &str) -> (r: String)
    ensures
        r@ == s_assign_fail(t@, reason@),
{
    let mut out = str_chars("Assignment failed for '");
    append_chars(&mut out, t);
    let mid = str_chars("': ");
    append_chars(&mut out, &mid);
    let tail = str_chars(reason);
    append_chars(&mut out, &tail);
    proof {
        assert(out@ =~= s_assign_fail(t@, reason@));
    }
    chars_string(&out)
}

/// How a value's shape is described when a column-vector target refuses
/// it.
pub open spec fn s_value_shape(v: SpecVal) -> Seq<char> {
    match v {
        SpecVal::Scalar(_) => "scalar"@,
        SpecVal::Matrix { rows, .. } => if rows == 1 {
            "row vector"@
        } else {
            "matrix"@
        },
    }
}

pub open spec fn first_row_len(g: Seq<Seq<Seq<char>>>) -> int {
    if g.len() > 0 {
        g[0].len() as int
    } else {
        0
    }
}

/// Applying one assignment: the grid after the write, and the error when
/// the value's shape does not fit the target.
pub open spec fn spec_apply_assignment(
    g: Seq<Seq<Seq<char>>>,
    a: Assignment,
    v: SpecVal,
    t: Seq<char>,
) -> (Seq<Seq<Seq<char>>>, Option<Seq<char>>) {
    match a {
        Assignment::Scalar { row, col } => match crate::table::formula::types::spec_as_scalar(v) {
            Some(d) => if row >= g.len() || col >= g[row as int].len() {
                (g, Some(s_assign_fail(t, "cell index out of bounds"@)))
            } else {
                (spec_write_cell(g, row as int, col as int, string_of(d)), None)
            },
            None => (
                g,
                Some(
                    s_assign_fail(
                        t,
                        "cannot assign matrix to scalar cell (use a cell vector assignment like C_ instead)"@,
                    ),
                ),
            ),
        },
        Assignment::ColumnVector { col } => {
            if !(v is Matrix && v->Matrix_cols == 1) {
                (
                    g,
                    Some(
                        s_assign_fail(
                            t,
                            "expected column vector but got "@ + s_value_shape(v) + " result"@,
                        ),
                    ),
                )
            } else if col >= first_row_len(g) {
                (g, Some(s_assign_fail(t, "column index out of bounds"@)))
            } else {
                (spec_apply_colvec(g, col as int, v->Matrix_data), None)
            }
        },
        Assignment::RowVector { row } => match v {
            SpecVal::Matrix { rows: vr, cols: _, data } => {
                if vr == 1 {
                    if row + 1 >= g.len() {
                        (g, Some(s_assign_fail(t, "row index out of bounds"@)))
                    } else {
                        (spec_apply_rowvec(g, row + 1, data), None)
                    }
                } else {
                    (
                        g,
                        Some(
                            s_assign_fail(
                                t,
                                "expected row vector but got matrix with "@ + spec_nat_str(vr)
                                    + " rows"@,
                            ),
                        ),
                    )
                }
            },
            SpecVal::Scalar(_) => (
                g,
                Some(s_assign_fail(t, "cannot assign scalar to row vector (expected row vector)"@)),
            ),
        },
        Assignment::Range { start_row, start_col, end_row, end_col } => match v {
            SpecVal::Matrix { rows: vr, cols: vc, data } => {
                let enr = end_row - start_row + 1;
                let enc = end_col - start_col + 1;
                if vr != enr || vc != enc {
                    (
                        g,
                        Some(
                            s_assign_fail(
                                t,
                                "dimension mismatch (expected "@ + spec_nat_str(enr as nat)
                                    + seq!['\u{d7}'] + spec_nat_str(enc as nat) + " but got "@
                                    + spec_nat_str(vr) + seq!['\u{d7}'] + spec_nat_str(vc)
                                    + ")"@,
                            ),
                        ),
                    )
                } else if end_row >= g.len() {
                    (g, Some(s_assign_fail(t, "range extends beyond table bounds"@)))
                } else {
                    (
                        spec_apply_rect(
                            g,
                            start_row as int,
                            start_col as int,
                            enr,
                            enc,
                            data,
                            data.len() as int,
                        ),
                        None,
                    )
                }
            },
            SpecVal::Scalar(_) => (
                g,
                Some(s_assign_fail(t, "cannot assign scalar to range (expected matrix)"@)),
            ),
        },
        Assignment::ColumnRange { start_col, end_col } => match v {
            SpecVal::Matrix { rows: vr, cols: vc, data } => {
                let enc = end_col - start_col + 1;
                if vc != enc {
                    (
                        g,
                        Some(
                            s_assign_fail(
                                t,
                                "column dimension mismatch (expected "@ + spec_nat_str(
                                    enc as nat,
                                ) + " columns but got "@ + spec_nat_str(vc) + ")"@,
                            ),
                        ),
                    )
                } else if end_col >= first_row_len(g) {
                    (g, Some(s_assign_fail(t, "column range extends beyond table bounds"@)))
                } else if vr + 2 <= usize::MAX {
                    (
                        spec_apply_rect(g, 2, start_col as int, vr as int, enc, data, data.len() as int),
                        None,
                    )
                } else {
                    (g, None)
                }
            },
            SpecVal::Scalar(_) => (
                g,
                Some(s_assign_fail(t, "cannot assign scalar to column range (expected matrix)"@)),
            ),
        },
        Assignment::RowRange { start_row, end_row } => match v {
            SpecVal::Matrix { rows: vr, cols: vc, data } => {
                let enr = end_row - start_row + 1;
                if vr != enr {
                    (
                        g,
                        Some(
                            s_assign_fail(
                                t,
                                "row dimension mismatch (expected "@ + spec_nat_str(enr as nat)
                                    + " rows but got "@ + spec_nat_str(vr) + ")"@,
                            ),
                        ),
                    )
                } else if end_row + 1 >= g.len() {
                    (g, Some(s_assign_fail(t, "row range extends beyond table bounds"@)))
                } else if vc == 0 {
                    (g, None)
                } else if end_row + 2 <= usize::MAX {
                    (
                        spec_apply_rect(
                            g,
                            start_row as int + 1,
                            0,
                            enr,
                            vc as int,
                            data,
                            data.len() as int,
                        ),
                        None,
                    )
                } else {
                    (g, None)
                }
            },
            SpecVal::Scalar(_) => (
                g,
                Some(s_assign_fail(t, "cannot assign scalar to row range (expected matrix)"@)),
            ),
        },
    }
}

/// Applies one assignment to the grid, shape-checking the value first.
#[verifier::rlimit(100)]
#[verifier::spinoff_prover]
fn apply_assignment_exec(rows: &mut Vec<Vec<String>>, a: &Assignment, value: Value, t: &Vec<
    char,
>) -> (r: Option<String>)
    requires
        ass_ok(*a),
        sv_wf(value@),
    ensures
        grid_view(final(rows)@) == spec_apply_assignment(grid_view(old(rows)@), *a, value@, t@).0,
        (match r {
            Some(m) => Some(m@) == spec_apply_assignment(grid_view(old(rows)@), *a, value@, t@).1,
            None => spec_apply_assignment(grid_view(old(rows)@), *a, value@, t@).1 is None,
        }),
{
    let ghost g0 = grid_view(rows@);
    match a {
        Assignment::Scalar { row, col } => match value.as_scalar() {
            Some(d) => {
                proof {
                    if *row < rows@.len() {
                        assert(g0[*row as int].len() == rows@[*row as int]@.len());
                    }
                }
                if *row >= rows.len() || *col >= rows[*row].len() {
                    Some(assign_fail(t, "cell index out of bounds"))
                } else {
                    proof {
                        assert(crate::decimal::dec_valid(d));
                    }
                    let s = crate::decimal::dec_to_string(&d);
                    set_cell(rows, *row, *col, s);
                    None
                }
            },
            None => Some(
                assign_fail(
                    t,
                    "cannot assign matrix to scalar cell (use a cell vector assignment like C_ instead)",
                ),
            ),
        },
        Assignment::ColumnVector { col } => {
            if !value.is_column_vector() {
                let shape: &str = match &value {
                    Value::Scalar(_) => "scalar",
                    Value::Matrix { rows: vr, .. } => {
                        if *vr == 1 {
                            "row vector"
                        } else {
                            "matrix"
                        }
                    },
                };
                let mut reason = str_chars("expected column vector but got ");
                let sh = str_chars(shape);
                append_chars(&mut reason, &sh);
                let tail = str_chars(" result");
                append_chars(&mut reason, &tail);
                proof {
                    assert(reason@ =~= "expected column vector but got "@ + s_value_shape(value@)
                        + " result"@);
                }
                let rs = chars_string(&reason);
                let mut out = str_chars("Assignment failed for '");
                append_chars(&mut out, t);
                let mid = str_chars("': ");
                append_chars(&mut out, &mid);
                let rv = str_chars(rs.as_str());
                append_chars(&mut out, &rv);
                proof {
                    assert(out@ =~= s_assign_fail(t@, "expected column vector but got "@
                        + s_value_shape(value@) + " result"@));
                }
                Some(chars_string(&out))
            } else {
                let first_len: usize = if rows.len() > 0 {
                    proof {
                        assert(g0[0].len() == rows@[0]@.len());
                    }
                    rows[0].len()
                } else {
                    0
                };
                if *col >= first_len {
                    Some(assign_fail(t, "column index out of bounds"))
                } else {
                    apply_column_vector_assignment(rows, *col, &value);
                    None
                }
            }
        },
        Assignment::RowVector { row } => match &value {
            Value::Matrix { rows: vr, .. } => {
                if *vr == 1 {
                    let table_row = *row + 1;
                    if table_row >= rows.len() {
                        Some(assign_fail(t, "row index out of bounds"))
                    } else {
                        apply_row_vector_assignment(rows, table_row, &value);
                        None
                    }
                } else {
                    let mut reason = str_chars("expected row vector but got matrix with ");
                    let n = usize_to_chars(*vr);
                    append_chars(&mut reason, &n);
                    let tail = str_chars(" rows");
                    append_chars(&mut reason, &tail);
                    proof {
                        assert(reason@ =~= "expected row vector but got matrix with "@
                            + spec_nat_str(*vr as nat) + " rows"@);
                    }
                    let rs = chars_string(&reason);
                    let mut out = str_chars("Assignment failed for '");
                    append_chars(&mut out, t);
                    let mid = str_chars("': ");
                    append_chars(&mut out, &mid);
                    let rv = str_chars(rs.as_str());
                    append_chars(&mut out, &rv);
                    proof {
                        assert(out@ =~= s_assign_fail(t@, "expected row vector but got matrix with "@
                            + spec_nat_str(*vr as nat) + " rows"@));
                    }
                    Some(chars_string(&out))
                }
            },
            Value::Scalar(_) => Some(
                assign_fail(t, "cannot assign scalar to row vector (expected row vector)"),
            ),
        },
        Assignment::Range { start_row, start_col, end_row, end_col } => match value {
            Value::Matrix { rows: vr, cols: vc, data } => {
                let enr = *end_row - *start_row + 1;
                let enc = *end_col - *start_col + 1;
                if vr != enr || vc != enc {
                    let mut reason = str_chars("dimension mismatch (expected ");
                    let a1 = usize_to_chars(enr);
                    append_chars(&mut reason, &a1);
                    reason.push('\u{d7}');
                    let a2 = usize_to_chars(enc);
                    append_chars(&mut reason, &a2);
                    let mid = str_chars(" but got ");
                    append_chars(&mut reason, &mid);
                    let a3 = usize_to_chars(vr);
                    append_chars(&mut reason, &a3);
                    reason.push('\u{d7}');
                    let a4 = usize_to_chars(vc);
                    append_chars(&mut reason, &a4);
                    let tail = str_chars(")");
                    append_chars(&mut reason, &tail);
                    proof {
                        assert(reason@ =~= "dimension mismatch (expected "@ + spec_nat_str(
                            enr as nat,
                        ) + seq!['\u{d7}'] + spec_nat_str(enc as nat) + " but got "@ + spec_nat_str(
                            vr as nat,
                        ) + seq!['\u{d7}'] + spec_nat_str(vc as nat) + ")"@);
                    }
                    let rs = chars_string(&reason);
                    let mut out = str_chars("Assignment failed for '");
                    append_chars(&mut out, t);
                    let mid2 = str_chars("': ");
                    append_chars(&mut out, &mid2);
                    let rv = str_chars(rs.as_str());
                    append_chars(&mut out, &rv);
                    proof {
                        assert(out@ =~= s_assign_fail(t@, "dimension mismatch (expected "@
                            + spec_nat_str(enr as nat) + seq!['\u{d7}'] + spec_nat_str(enc as nat)
                            + " but got "@ + spec_nat_str(vr as nat) + seq!['\u{d7}']
                            + spec_nat_str(vc as nat) + ")"@));
                    }
                    Some(chars_string(&out))
                } else if *end_row >= rows.len() {
                    Some(assign_fail(t, "range extends beyond table bounds"))
                } else {
                    write_rect(rows, *start_row, *start_col, enr, enc, &data);
                    None
                }
            },
            Value::Scalar(_) => Some(
                assign_fail(t, "cannot assign scalar to range (expected matrix)"),
            ),
        },
        Assignment::ColumnRange { start_col, end_col } => match value {
            Value::Matrix { rows: vr, cols: vc, data } => {
                let enc = *end_col - *start_col + 1;
                if vc != enc {
                    let mut reason = str_chars("column dimension mismatch (expected ");
                    let a1 = usize_to_chars(enc);
                    append_chars(&mut reason, &a1);
                    let mid = str_chars(" columns but got ");
                    append_chars(&mut reason, &mid);
                    let a2 = usize_to_chars(vc);
                    append_chars(&mut reason, &a2);
                    let tail = str_chars(")");
                    append_chars(&mut reason, &tail);
                    proof {
                        assert(reason@ =~= "column dimension mismatch (expected "@ + spec_nat_str(
                            enc as nat,
                        ) + " columns but got "@ + spec_nat_str(vc as nat) + ")"@);
                    }
                    let rs = chars_string(&reason);
                    let mut out = str_chars("Assignment failed for '");
                    append_chars(&mut out, t);
                    let mid2 = str_chars("': ");
                    append_chars(&mut out, &mid2);
                    let rv = str_chars(rs.as_str());
                    append_chars(&mut out, &rv);
                    proof {
                        assert(out@ =~= s_assign_fail(t@, "column dimension mismatch (expected "@
                            + spec_nat_str(enc as nat) + " columns but got "@ + spec_nat_str(
                            vc as nat,
                        ) + ")"@));
                    }
                    Some(chars_string(&out))
                } else {
                    let first_len: usize = if rows.len() > 0 {
                        proof {
                            assert(g0[0].len() == rows@[0]@.len());
                        }
                        rows[0].len()
                    } else {
                        0
                    };
                    if *end_col >= first_len {
                        Some(assign_fail(t, "column range extends beyond table bounds"))
                    } else if vr <= usize::MAX - 2 {
                        write_rect(rows, 2, *start_col, vr, enc, &data);
                        None
                    } else {
                        None
                    }
                }
            },
            Value::Scalar(_) => Some(
                assign_fail(t, "cannot assign scalar to column range (expected matrix)"),
            ),
        },
        Assignment::RowRange { start_row, end_row } => match value {
            Value::Matrix { rows: vr, cols: vc, data } => {
                let enr = *end_row - *start_row + 1;
                if vr != enr {
                    let mut reason = str_chars("row dimension mismatch (expected ");
                    let a1 = usize_to_chars(enr);
                    append_chars(&mut reason, &a1);
                    let mid = str_chars(" rows but got ");
                    append_chars(&mut reason, &mid);
                    let a2 = usize_to_chars(vr);
                    append_chars(&mut reason, &a2);
                    let tail = str_chars(")");
                    append_chars(&mut reason, &tail);
                    proof {
                        assert(reason@ =~= "row dimension mismatch (expected "@ + spec_nat_str(
                            enr as nat,
                        ) + " rows but got "@ + spec_nat_str(vr as nat) + ")"@);
                    }
                    let rs = chars_string(&reason);
                    let mut out = str_chars("Assignment failed for '");
                    append_chars(&mut out, t);
                    let mid2 = str_chars("': ");
                    append_chars(&mut out, &mid2);
                    let rv = str_chars(rs.as_str());
                    append_chars(&mut out, &rv);
                    proof {
                        assert(out@ =~= s_assign_fail(t@, "row dimension mismatch (expected "@
                            + spec_nat_str(enr as nat) + " rows but got "@ + spec_nat_str(vr as nat)
                            + ")"@));
                    }
                    Some(chars_string(&out))
                } else if *end_row + 1 >= rows.len() {
                    Some(assign_fail(t, "row range extends beyond table bounds"))
                } else if vc == 0 {
                    None
                } else if *end_row <= usize::MAX - 2 {
                    write_rect(rows, *start_row + 1, 0, enr, vc, &data);
                    None
                } else {
                    None
                }
            },
            Value::Scalar(_) => Some(
                assign_fail(t, "cannot assign scalar to row range (expected matrix)"),
            ),
        },
    }
}

} // verus!

verus! {

/// The caret-annotated rendering `FormulaError::with_context` produces.
pub open spec fn spec_with_context(e: SpecErr, expr: Seq<char>, span: Span) -> Seq<char> {
    spec_err_message(e) + "\n"@ + expr + "\n"@ + Seq::new(span.start as nat, |i: int| ' ')
        + Seq::new(
        if span.end > span.start {
            (span.end - span.start) as nat
        } else {
            1nat
        },
        |i: int| '^',
    )
}

pub open spec fn s_let_fail(name: Seq<char>, expr: Seq<char>, e: SpecErr) -> Seq<char> {
    match spec_extract_error_span(expr, e) {
        Some(span) => "Failed to evaluate expression for variable '"@ + name + "': \n"@
            + spec_with_context(e, expr, span),
        None => "Failed to evaluate expression for variable '"@ + name + "': "@
            + spec_err_message(e),
    }
}

pub open spec fn s_assign_eval_fail(expr: Seq<char>, e: SpecErr) -> Seq<char> {
    match spec_extract_error_span(expr, e) {
        Some(span) => "Failed to evaluate expression:\n"@ + spec_with_context(e, expr, span),
        None => "Failed to evaluate expression '"@ + expr + "': "@ + spec_err_message(e),
    }
}

pub open spec fn s_parse_fail(t: Seq<char>) -> Seq<char> {
    "Failed to parse statement '"@ + t
        + "': invalid syntax (expected format: 'let VAR = EXPRESSION' or 'TARGET = EXPRESSION')"@
}

/// One formula applied to the grid and variable environment: the new grid,
/// the new environment, and this formula's outcome.
pub open spec fn spec_apply_step(
    g: Seq<Seq<Seq<char>>>,
    vars: Map<Seq<char>, SpecVal>,
    tables: Map<Seq<char>, Seq<Seq<Seq<char>>>>,
    formula: Seq<char>,
) -> (Seq<Seq<Seq<char>>>, Map<Seq<char>, SpecVal>, Option<Seq<char>>) {
    let t = spec_trim(formula);
    match spec_parse_statement(t) {
        None => (g, vars, Some(s_parse_fail(t))),
        Some((SpecStmt::Let { name, .. }, expr)) => {
            match spec_evaluate_expression(expr, g, tables, vars) {
                Err(e) => (g, vars, Some(s_let_fail(name, expr, e))),
                Ok(v) => (g, vars.insert(name, v), None),
            }
        },
        Some((SpecStmt::Assignment(a), expr)) => {
            match spec_evaluate_expression(expr, g, tables, vars) {
                Err(e) => (g, vars, Some(s_assign_eval_fail(expr, e))),
                Ok(v) => {
                    let (g2, err) = spec_apply_assignment(g, a, v, t);
                    (g2, vars, err)
                },
            }
        },
    }
}

/// The whole batch, formula by formula from index `i` on: the final grid
/// and one outcome per formula.
pub open spec fn spec_apply_from(
    g: Seq<Seq<Seq<char>>>,
    vars: Map<Seq<char>, SpecVal>,
    tables: Map<Seq<char>, Seq<Seq<Seq<char>>>>,
    formulas: Seq<Seq<char>>,
    i: int,
) -> (Seq<Seq<Seq<char>>>, Seq<Option<Seq<char>>>)
    decreases formulas.len() - i,
{
    if i < 0 || i >= formulas.len() {
        (g, Seq::empty())
    } else {
        let (g1, vars1, e) = spec_apply_step(g, vars, tables, formulas[i]);
        let (gf, rest) = spec_apply_from(g1, vars1, tables, formulas, i + 1);
        (gf, seq![e] + rest)
    }
}

pub open spec fn errs_view(s: Seq<Option<String>>) -> Seq<Option<Seq<char>>> {
    s.map_values(
        |o: Option<String>|
            match o {
                Some(x) => Some(x@),
                None => None,
            },
    )
}

pub open spec fn strs_view(s: Seq<String>) -> Seq<Seq<char>> {
    s.map_values(|x: String| x@)
}

fn let_fail_msg(name: &String, expr: &String, e: &FormulaError) -> (r: String)
    ensures
        r@ == s_let_fail(name@, expr@, e@),
{
    match extract_error_span(expr.as_str(), e) {
        Some(span) => {
            let ctx = e.with_context(expr.as_str(), span);
            let mut out = str_chars("Failed to evaluate expression for variable '");
            let nv = str_chars(name.as_str());
            append_chars(&mut out, &nv);
            let mid = str_chars("': \n");
            append_chars(&mut out, &mid);
            let cv = str_chars(ctx.as_str());
            append_chars(&mut out, &cv);
            proof {
                assert(out@ =~= s_let_fail(name@, expr@, e@));
            }
            chars_string(&out)
        },
        None => {
            let msg = e.message();
            let mut out = str_chars("Failed to evaluate expression for variable '");
            let nv = str_chars(name.as_str());
            append_chars(&mut out, &nv);
            let mid = str_chars("': ");
            append_chars(&mut out, &mid);
            let mv = str_chars(msg.as_str());
            append_chars(&mut out, &mv);
            proof {
                assert(out@ =~= s_let_fail(name@, expr@, e@));
            }
            chars_string(&out)
        },
    }
}

fn assign_eval_fail_msg(expr: &String, e: &FormulaError) -> (r: String)
    ensures
        r@ == s_assign_eval_fail(expr@, e@),
{
    match extract_error_span(expr.as_str(), e) {
        Some(span) => {
            let ctx = e.with_context(expr.as_str(), span);
            let mut out = str_chars("Failed to evaluate expression:\n");
            let cv = str_chars(ctx.as_str());
            append_chars(&mut out, &cv);
            proof {
                assert(out@ =~= s_assign_eval_fail(expr@, e@));
            }
            chars_string(&out)
        },
        None => {
            let msg = e.message();
            let mut out = str_chars("Failed to evaluate expression '");
            let ev = str_chars(expr.as_str());
            append_chars(&mut out, &ev);
            let mid = str_chars("': ");
            append_chars(&mut out, &mid);
            let mv = str_chars(msg.as_str());
            append_chars(&mut out, &mv);
            proof {
                assert(out@ =~= s_assign_eval_fail(expr@, e@));
            }
            chars_string(&out)
        },
    }
}

/// Applies a list of formulas, in order, to the grid, with access to the
/// other tables; yields one outcome per formula (`None` is success), never
/// aborting the batch.
#[verifier::rlimit(100)]
#[verifier::spinoff_prover]
pub fn apply_formulas_with_tables(
    rows: &mut Vec<Vec<String>>,
    formulas: &Vec<String>,
    table_map: &Vec<(String, Vec<Vec<String>>)>,
) -> (r: Vec<Option<String>>)
    ensures
        ({
            let sp = spec_apply_from(
                grid_view(old(rows)@),
                Map::empty(),
                tables_map(table_map@),
                strs_view(formulas@),
                0,
            );
            grid_view(final(rows)@) == sp.0 && errs_view(r@) == sp.1
        }),
{
    let ghost g0 = grid_view(rows@);
    let ghost tm = tables_map(table_map@);
    let ghost fv = strs_view(formulas@);
    let mut errors: Vec<Option<String>> = Vec::new();
    let mut variable_map: Vec<(String, Value)> = Vec::new();
    let mut i: usize = 0;
    proof {
        assert(vars_map(variable_map@) =~= Map::<Seq<char>, SpecVal>::empty());
        assert(errs_view(errors@) =~= Seq::<Option<Seq<char>>>::empty());
    }
    while i < formulas.len()
        invariant
            0 <= i <= formulas@.len(),
            fv == strs_view(formulas@),
            tm == tables_map(table_map@),
            vars_wf(variable_map@),
            errors@.len() == i,
            spec_apply_from(g0, Map::empty(), tm, fv, 0) == (
                spec_apply_from(grid_view(rows@), vars_map(variable_map@), tm, fv, i as int).0,
                errs_view(errors@) + spec_apply_from(
                    grid_view(rows@),
                    vars_map(variable_map@),
                    tm,
                    fv,
                    i as int,
                ).1,
            ),
        decreases formulas@.len() - i,
    {
        let ghost g_before = grid_view(rows@);
        let ghost vars_before = vars_map(variable_map@);
        let raw = str_chars(&formulas[i]);
        let tchars = trim_chars(&raw);
        let ts = chars_string(&tchars);
        proof {
            assert(fv[i as int] == formulas@[i as int]@);
            crate::strutil::lemma_trim_idempotent(raw@);
        }
        let e: Option<String> = match parse_statement(ts.as_str()) {
            None => {
                let mut out = str_chars("Failed to parse statement '");
                append_chars(&mut out, &tchars);
                let tail = str_chars(
                    "': invalid syntax (expected format: 'let VAR = EXPRESSION' or 'TARGET = EXPRESSION')",
                );
                append_chars(&mut out, &tail);
                proof {
                    assert(out@ =~= s_parse_fail(tchars@));
                }
                Some(chars_string(&out))
            },
            Some((Statement::Let { name, .. }, expr)) => {
                match evaluate_expression_value_with_tables(
                    expr.as_str(),
                    rows,
                    table_map,
                    &variable_map,
                ) {
                    Err(err) => Some(let_fail_msg(&name, &expr, &err)),
                    Ok(v) => {
                        let ghost vb = variable_map@;
                        variable_map.push((name, v));
                        proof {
                            assert(variable_map@.drop_last() =~= vb);
                        }
                        None
                    },
                }
            },
            Some((Statement::Assignment(a), expr)) => {
                match evaluate_expression_value_with_tables(
                    expr.as_str(),
                    rows,
                    table_map,
                    &variable_map,
                ) {
                    Err(err) => Some(assign_eval_fail_msg(&expr, &err)),
                    Ok(v) => apply_assignment_exec(rows, &a, v, &tchars),
                }
            },
        };
        let ghost ev = match e {
            Some(ref m) => Some(m@),
            None => None,
        };
        proof {
            assert(spec_apply_step(g_before, vars_before, tm, fv[i as int]) == (
                grid_view(rows@),
                vars_map(variable_map@),
                ev,
            ));
        }
        let ghost errs_before = errors@;
        errors.push(e);
        proof {
            assert(errs_view(errors@) =~= errs_view(errs_before).push(ev));
            assert(errs_view(errs_before).push(ev) + spec_apply_from(
                grid_view(rows@),
                vars_map(variable_map@),
                tm,
                fv,
                i + 1,
            ).1 =~= errs_view(errs_before) + (seq![ev] + spec_apply_from(
                grid_view(rows@),
                vars_map(variable_map@),
                tm,
                fv,
                i + 1,
            ).1));
        }
        i = i + 1;
    }
    proof {
        assert(errs_view(errors@) + Seq::<Option<Seq<char>>>::empty() =~= errs_view(errors@));
    }
    errors
}

/// Applies a list of formulas with no cross-table lookups.
pub fn apply_formulas(rows: &mut Vec<Vec<String>>, formulas: &Vec<String>) -> (r: Vec<
    Option<String>,
>)
    ensures
        ({
            let sp = spec_apply_from(
                grid_view(old(rows)@),
                Map::empty(),
                Map::empty(),
                strs_view(formulas@),
                0,
            );
            grid_view(final(rows)@) == sp.0 && errs_view(r@) == sp.1
        }),
{
    let table_map: Vec<(String, Vec<Vec<String>>)> = Vec::new();
    proof {
        assert(tables_map(table_map@) =~= Map::<Seq<char>, Seq<Seq<Seq<char>>>>::empty());
    }
    apply_formulas_with_tables(rows, formulas, &table_map)
}

} // verus!

verus! {

proof fn lemma_apply_assignment_keeps_shape(
    g: Seq<Seq<Seq<char>>>,
    a: Assignment,
    v: SpecVal,
    t: Seq<char>,
)
    ensures
        spec_apply_assignment(g, a, v, t).0.len() == g.len(),
        forall|r: int|
            0 <= r < g.len() ==> #[trigger] spec_apply_assignment(g, a, v, t).0[r].len()
                == g[r].len(),
{
}

/// Applying the same assignment with the same value twice changes nothing
/// after the first time: every touched cell already holds the written
/// text, and every bounds check sees the same shape.
proof fn lemma_apply_assignment_idempotent(
    g: Seq<Seq<Seq<char>>>,
    a: Assignment,
    v: SpecVal,
    t: Seq<char>,
)
    ensures
        spec_apply_assignment(spec_apply_assignment(g, a, v, t).0, a, v, t)
            == spec_apply_assignment(g, a, v, t),
{
    let g2 = spec_apply_assignment(g, a, v, t).0;
    lemma_apply_assignment_keeps_shape(g, a, v, t);
    let again = spec_apply_assignment(g2, a, v, t);
    match a {
        Assignment::Scalar { row, col } => {
            match crate::table::formula::types::spec_as_scalar(v) {
                Some(d) => {
                    if row >= g.len() || col >= g[row as int].len() {
                    } else {
                        assert(spec_write_cell(g2, row as int, col as int, string_of(d))
                            =~~= g2);
                    }
                },
                None => {},
            }
        },
        Assignment::ColumnVector { col } => {
            if !(v is Matrix && v->Matrix_cols == 1) {
            } else if col >= first_row_len(g) {
            } else {
                assert(first_row_len(g2) == first_row_len(g));
                assert(spec_apply_colvec(g2, col as int, v->Matrix_data) =~~= g2);
            }
        },
        Assignment::RowVector { row } => {
            match v {
                SpecVal::Matrix { rows: vr, cols: _, data } => {
                    if vr == 1 && row + 1 < g.len() {
                        assert(spec_apply_rowvec(g2, row + 1, data) =~~= g2);
                    }
                },
                SpecVal::Scalar(_) => {},
            }
        },
        Assignment::Range { start_row, start_col, end_row, end_col } => {
            match v {
                SpecVal::Matrix { rows: vr, cols: vc, data } => {
                    let enr = end_row - start_row + 1;
                    let enc = end_col - start_col + 1;
                    if vr == enr && vc == enc && end_row < g.len() {
                        assert(spec_apply_rect(
                            g2,
                            start_row as int,
                            start_col as int,
                            enr,
                            enc,
                            data,
                            data.len() as int,
                        ) =~~= g2);
                    }
                },
                SpecVal::Scalar(_) => {},
            }
        },
        Assignment::ColumnRange { start_col, end_col } => {
            match v {
                SpecVal::Matrix { rows: vr, cols: vc, data } => {
                    let enc = end_col - start_col + 1;
                    if vc == enc && end_col < first_row_len(g) && vr + 2 <= usize::MAX {
                        assert(first_row_len(g2) == first_row_len(g));
                        assert(spec_apply_rect(
                            g2,
                            2,
                            start_col as int,
                            vr as int,
                            enc,
                            data,
                            data.len() as int,
                        ) =~~= g2);
                    } else if vc == enc {
                        assert(first_row_len(g2) == first_row_len(g));
                    }
                },
                SpecVal::Scalar(_) => {},
            }
        },
        Assignment::RowRange { start_row, end_row } => {
            match v {
                SpecVal::Matrix { rows: vr, cols: vc, data } => {
                    let enr = end_row - start_row + 1;
                    if vr == enr && end_row + 1 < g.len() && vc != 0 && end_row + 2
                        <= usize::MAX {
                        assert(spec_apply_rect(
                            g2,
                            start_row as int + 1,
                            0,
                            enr,
                            vc as int,
                            data,
                            data.len() as int,
                        ) =~~= g2);
                    }
                },
                SpecVal::Scalar(_) => {},
            }
        },
    }
}

/// Idempotence of one assignment formula whose expression does not read
/// the grid: running it a second time against the grid the first run
/// produced leaves that grid byte-identical and yields the same outcome.
/// (A formula that reads a cell it writes, such as `A1 = A1 + 1`, is
/// excluded: its second run sees its own output.)
pub proof fn lemma_apply_formula_idempotent(
    g: Seq<Seq<Seq<char>>>,
    tables: Map<Seq<char>, Seq<Seq<Seq<char>>>>,
    f: Seq<char>,
)
    requires
        spec_parse_statement(spec_trim(f)) is Some,
        (spec_parse_statement(spec_trim(f))->0).0 is Assignment,
        forall|g1: Seq<Seq<Seq<char>>>, g2: Seq<Seq<Seq<char>>>|
            #[trigger] spec_evaluate_expression(
                (spec_parse_statement(spec_trim(f))->0).1,
                g1,
                tables,
                Map::empty(),
            ) == #[trigger] spec_evaluate_expression(
                (spec_parse_statement(spec_trim(f))->0).1,
                g2,
                tables,
                Map::empty(),
            ),
    ensures
        spec_apply_from(
            spec_apply_from(g, Map::empty(), tables, seq![f], 0).0,
            Map::empty(),
            tables,
            seq![f],
            0,
        ) == spec_apply_from(g, Map::empty(), tables, seq![f], 0),
{
    let t = spec_trim(f);
    crate::strutil::lemma_trim_idempotent(f);
    let stmt = (spec_parse_statement(t)->0).0;
    let expr = (spec_parse_statement(t)->0).1;
    let a = stmt->Assignment_0;
    let fs = seq![f];
    assert(fs[0] == f);
    let s1 = spec_apply_step(g, Map::empty(), tables, f);
    assert(spec_apply_from(s1.0, s1.1, tables, fs, 1) == (
        s1.0,
        Seq::<Option<Seq<char>>>::empty(),
    ));
    assert(spec_apply_from(g, Map::empty(), tables, fs, 0) == (s1.0, seq![s1.2]
        + Seq::<Option<Seq<char>>>::empty()));
    let s2 = spec_apply_step(s1.0, Map::empty(), tables, f);
    match spec_evaluate_expression(expr, g, tables, Map::empty()) {
        Err(_) => {
            assert(s1.0 == g);
            assert(s2 == s1);
        },
        Ok(v) => {
            assert(s1.0 == spec_apply_assignment(g, a, v, t).0);
            assert(spec_evaluate_expression(expr, s1.0, tables, Map::empty())
                == spec_evaluate_expression(expr, g, tables, Map::empty()));
            lemma_apply_assignment_idempotent(g, a, v, t);
            assert(s2.0 == s1.0);
            assert(s2.2 == s1.2);
        },
    }
    assert(spec_apply_from(s2.0, s2.1, tables, fs, 1) == (
        s2.0,
        Seq::<Option<Seq<char>>>::empty(),
    ));
    assert(spec_apply_from(s1.0, Map::empty(), tables, fs, 0) == (s2.0, seq![s2.2]
        + Seq::<Option<Seq<char>>>::empty()));
    assert(seq![s1.2] + Seq::<Option<Seq<char>>>::empty() =~= seq![s2.2]
        + Seq::<Option<Seq<char>>>::empty());
}

} // verus!
